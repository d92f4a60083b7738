//! The log-tail session: at most one active session, each a polling loop
//! that reads what was appended to a log file and hands it out line by line,
//! until its cancellation is observed.
use vstd::prelude::*;

verus! {

/// A log file, for listing.
#[derive(Clone, Debug)]
pub struct LogFile {
    pub name: String,
    pub path: String,
    pub size: u64,
}

/// One line read by a tail session, with the name of its file.
#[derive(Clone, Debug)]
pub struct LogLine {
    pub file: String,
    pub line: String,
}

/// The index from which the last `count` of `len` lines start (500 when no
/// count is given).
pub open spec fn last_lines_start(len: nat, count: Option<usize>) -> int {
    let c = match count {
        Some(c) => c as nat,
        None => 500,
    };
    if len > c {
        len - c
    } else {
        0
    }
}

/// The last `count` lines of a file (500 when no count is given), in order.
pub fn last_lines(all: Vec<String>, count: Option<usize>) -> (r: Vec<String>)
    ensures
        r@ == all@.subrange(last_lines_start(all@.len(), count), all@.len() as int),
{
    let c: usize = match count {
        Some(c) => c,
        None => 500,
    };
    let start: usize = if all.len() > c {
        all.len() - c
    } else {
        0
    };
    let mut r: Vec<String> = Vec::new();
    let mut i = start;
    while i < all.len()
        invariant
            start <= i <= all@.len(),
            start == last_lines_start(all@.len(), count),
            r@ == all@.subrange(start as int, i as int),
        decreases all@.len() - i,
    {
        r.push(all[i].clone());
        i = i + 1;
        proof {
            assert(r@ =~= all@.subrange(start as int, i as int));
        }
    }
    r
}

/// Holds the cancellation handle of the one active tail session, if any.
pub struct TailSlot<T> {
    token: Option<T>,
}

impl<T> TailSlot<T> {
    /// The handle of the active session.
    pub closed spec fn current(&self) -> Option<T> {
        self.token
    }

    /// No session.
    pub fn new() -> (r: Self)
        ensures
            r.current() is None,
    {
        TailSlot { token: None }
    }

    /// Makes `token` the active session's handle and hands back the one it
    /// replaces, which the caller cancels.
    pub fn begin(&mut self, token: T) -> (r: Option<T>)
        ensures
            (final(self).current(), r) == begun(old(self).current(), token),
    {
        let r = self.token.take();
        self.token = Some(token);
        r
    }

    /// Ends the active session, handing back its handle to cancel.
    pub fn end(&mut self) -> (r: Option<T>)
        ensures
            final(self).current() is None,
            r == old(self).current(),
    {
        self.token.take()
    }
}

/// A session begun with handle `t` when `cur` was active: `t` becomes the
/// active handle and `cur` is handed back to be cancelled.
pub open spec fn begun<T>(cur: Option<T>, t: T) -> (Option<T>, Option<T>) {
    (Some(t), cur)
}

/// Starting a second session hands back the first one's handle to be
/// cancelled, and only the second stays active, whatever was active before.
pub proof fn lemma_single_flight<T>(before: Option<T>, a: T, b: T)
    ensures
        begun(begun(before, a).0, b) == (Some(b), Some(a)),
{
}

/// What a session's loop learns on each turn: its cancellation fired, or its
/// poll interval passed and the file has this size (`None` when the file
/// could not be opened or measured).
pub enum TailEvent {
    Cancelled,
    Tick(Option<u64>),
}

/// What the loop does next.
#[derive(PartialEq, Eq, Structural, Clone, Copy, Debug)]
pub enum TailAction {
    /// Leave the loop.
    Exit,
    /// Nothing new: wait for the next turn.
    Wait,
    /// Read from this offset to the end, emit each line, then wait.
    Read(u64),
}

/// The state of one session's loop.
pub struct TailCursor {
    pub last_pos: u64,
    pub cancelled: bool,
}

/// The step of a session's loop: once cancelled it only exits; a file
/// larger than the last offset is read from that offset and the offset
/// moves to the new size; a file no larger (or truncated) gives nothing.
pub open spec fn tail_next(c: TailCursor, e: TailEvent) -> (TailCursor, TailAction) {
    if c.cancelled {
        (c, TailAction::Exit)
    } else {
        match e {
            TailEvent::Cancelled => (TailCursor { last_pos: c.last_pos, cancelled: true }, TailAction::Exit),
            TailEvent::Tick(Some(size)) => if size > c.last_pos {
                (TailCursor { last_pos: size, cancelled: false }, TailAction::Read(c.last_pos))
            } else {
                (c, TailAction::Wait)
            },
            TailEvent::Tick(None) => (c, TailAction::Wait),
        }
    }
}

impl TailCursor {
    /// A session that has read nothing yet.
    pub fn new() -> (r: TailCursor)
        ensures
            r.last_pos == 0,
            !r.cancelled,
    {
        TailCursor { last_pos: 0, cancelled: false }
    }

    /// One turn of the loop.
    pub fn step(&mut self, e: TailEvent) -> (r: TailAction)
        ensures
            (*final(self), r) == tail_next(*old(self), e),
    {
        if self.cancelled {
            return TailAction::Exit;
        }
        match e {
            TailEvent::Cancelled => {
                self.cancelled = true;
                TailAction::Exit
            },
            TailEvent::Tick(Some(size)) => {
                if size > self.last_pos {
                    let from = self.last_pos;
                    self.last_pos = size;
                    TailAction::Read(from)
                } else {
                    TailAction::Wait
                }
            },
            TailEvent::Tick(None) => TailAction::Wait,
        }
    }
}

/// The actions of a session's loop over a run of events.
pub open spec fn tail_run(c: TailCursor, es: Seq<TailEvent>) -> Seq<TailAction>
    decreases es.len(),
{
    if es.len() == 0 {
        Seq::empty()
    } else {
        let (c2, a) = tail_next(c, es[0]);
        seq![a] + tail_run(c2, es.drop_first())
    }
}

/// Once a session was cancelled, or its next event is the cancellation, it
/// never reads again: every later turn exits, however the file grows.
pub proof fn lemma_cancelled_session_is_silent(c: TailCursor, es: Seq<TailEvent>)
    requires
        c.cancelled || (es.len() > 0 && es[0] is Cancelled),
    ensures
        forall|i: int| 0 <= i < tail_run(c, es).len() ==> #[trigger] tail_run(c, es)[i]
            == TailAction::Exit,
    decreases es.len(),
{
    if es.len() > 0 {
        let (c2, a) = tail_next(c, es[0]);
        assert(c2.cancelled);
        lemma_cancelled_session_is_silent(c2, es.drop_first());
        assert forall|i: int| 0 <= i < tail_run(c, es).len() implies #[trigger] tail_run(c, es)[i]
            == TailAction::Exit by {
            if i > 0 {
                assert(tail_run(c, es)[i] == tail_run(c2, es.drop_first())[i - 1]);
            }
        }
    }
}

/// The lines of a text, as a buffered reader splits them: each ends at a
/// newline, which is dropped together with a carriage return just before
/// it; text after the last newline is a last line of its own.
pub open spec fn lines_of(s: Seq<u8>) -> Seq<Seq<u8>>
    decreases s.len(),
{
    if s.len() == 0 {
        Seq::empty()
    } else {
        let i = first_newline(s);
        if i < 0 || i >= s.len() {
            seq![s]
        } else {
            seq![strip_cr(s.subrange(0, i))] + lines_of(s.subrange(i + 1, s.len() as int))
        }
    }
}

/// The index of the first newline, or -1.
pub open spec fn first_newline(s: Seq<u8>) -> int
    decreases s.len(),
{
    if s.len() == 0 {
        -1
    } else if s[0] == 10u8 {
        0
    } else {
        let j = first_newline(s.drop_first());
        if j < 0 {
            -1
        } else {
            j + 1
        }
    }
}

/// A line without a final carriage return.
pub open spec fn strip_cr(s: Seq<u8>) -> Seq<u8> {
    if s.len() > 0 && s.last() == 13u8 {
        s.drop_last()
    } else {
        s
    }
}

proof fn lemma_first_newline_at(s: Seq<u8>, i: int)
    requires
        0 <= i < s.len(),
        s[i] == 10u8,
        forall|k: int| 0 <= k < i ==> s[k] != 10u8,
    ensures
        first_newline(s) == i,
    decreases s.len(),
{
    if i > 0 {
        let t = s.drop_first();
        assert forall|k: int| 0 <= k < i - 1 implies t[k] != 10u8 by {
            assert(t[k] == s[k + 1]);
        }
        lemma_first_newline_at(t, i - 1);
    }
}

proof fn lemma_no_newline(s: Seq<u8>)
    requires
        forall|k: int| 0 <= k < s.len() ==> s[k] != 10u8,
    ensures
        first_newline(s) == -1,
    decreases s.len(),
{
    if s.len() > 0 {
        let t = s.drop_first();
        assert forall|k: int| 0 <= k < t.len() implies t[k] != 10u8 by {
            assert(t[k] == s[k + 1]);
        }
        lemma_no_newline(t);
    }
}

fn copy_range(b: &Vec<u8>, from: usize, to: usize) -> (r: Vec<u8>)
    requires
        from <= to <= b@.len(),
    ensures
        r@ == b@.subrange(from as int, to as int),
{
    let mut r: Vec<u8> = Vec::new();
    let mut i = from;
    while i < to
        invariant
            from <= i <= to <= b@.len(),
            r@ == b@.subrange(from as int, i as int),
        decreases to - i,
    {
        r.push(b[i]);
        i = i + 1;
        proof {
            assert(r@ =~= b@.subrange(from as int, i as int));
        }
    }
    r
}

/// Splits newly read bytes into lines, as a buffered reader would.
pub fn split_lines(bytes: &Vec<u8>) -> (r: Vec<Vec<u8>>)
    ensures
        r@.len() == lines_of(bytes@).len(),
        forall|i: int| 0 <= i < r@.len() ==> (#[trigger] r@[i])@ == lines_of(bytes@)[i],
{
    let n = bytes.len();
    let mut r: Vec<Vec<u8>> = Vec::new();
    let mut pos: usize = 0;
    let ghost mut done: Seq<Seq<u8>> = Seq::empty();
    proof {
        assert(bytes@.subrange(0, n as int) =~= bytes@);
    }
    while pos < n
        invariant
            n == bytes@.len(),
            pos <= n,
            r@.len() == done.len(),
            forall|i: int| 0 <= i < r@.len() ==> (#[trigger] r@[i])@ == done[i],
            lines_of(bytes@) == done + lines_of(bytes@.subrange(pos as int, n as int)),
        decreases n - pos,
    {
        let ghost rest = bytes@.subrange(pos as int, n as int);
        let mut i = pos;
        while i < n && bytes[i] != 10u8
            invariant
                pos <= i <= n,
                n == bytes@.len(),
                forall|k: int| pos <= k < i ==> bytes@[k] != 10u8,
            decreases n - i,
        {
            i = i + 1;
        }
        if i == n {
            proof {
                assert forall|k: int| 0 <= k < rest.len() implies rest[k] != 10u8 by {
                    assert(rest[k] == bytes@[pos + k]);
                }
                lemma_no_newline(rest);
                assert(lines_of(rest) == seq![rest]);
                assert(bytes@.subrange(n as int, n as int) =~= Seq::<u8>::empty());
            }
            let line = copy_range(bytes, pos, n);
            r.push(line);
            proof {
                done = done.push(rest);
                assert(lines_of(bytes@) =~= done + lines_of(bytes@.subrange(n as int, n as int)));
            }
            pos = n;
        } else {
            proof {
                assert forall|k: int| 0 <= k < i - pos implies rest[k] != 10u8 by {
                    assert(rest[k] == bytes@[pos + k]);
                }
                lemma_first_newline_at(rest, i - pos);
                assert(rest.subrange(0, i - pos) =~= bytes@.subrange(pos as int, i as int));
                assert(rest.subrange(i - pos + 1, rest.len() as int) =~= bytes@.subrange(
                    i + 1,
                    n as int,
                ));
            }
            let end = if i > pos && bytes[i - 1] == 13u8 {
                i - 1
            } else {
                i
            };
            let line = copy_range(bytes, pos, end);
            proof {
                let seg = bytes@.subrange(pos as int, i as int);
                assert(line@ =~= strip_cr(seg));
            }
            r.push(line);
            proof {
                let seg = bytes@.subrange(pos as int, i as int);
                done = done.push(strip_cr(seg));
                assert(lines_of(bytes@) =~= done + lines_of(bytes@.subrange(i + 1, n as int)));
            }
            pos = i + 1;
        }
    }
    proof {
        assert(lines_of(bytes@.subrange(n as int, n as int)) =~= Seq::<Seq<u8>>::empty());
        assert(done + Seq::<Seq<u8>>::empty() =~= done);
    }
    r
}

} // verus!
