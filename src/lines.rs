//! Lines and words of text, as `str::lines` and `str::split_whitespace`
//! see them.
use vstd::prelude::*;
use crate::pid::{is_white_space, is_ws};

verus! {

pub const NL: &'static str = "\n";

/// Lines joined, each followed by a newline.
pub open spec fn terminated(ls: Seq<Seq<char>>) -> Seq<char>
    decreases ls.len(),
{
    if ls.len() == 0 {
        Seq::empty()
    } else {
        terminated(ls.drop_last()) + ls.last() + NL@
    }
}

/// Lines joined by newlines, with a final newline.
pub open spec fn joined_text(ls: Seq<Seq<char>>) -> Seq<char> {
    if ls.len() == 0 {
        NL@
    } else {
        terminated(ls)
    }
}

/// Lines joined by newlines, with a final newline.
pub fn join_terminated(ls: &Vec<String>) -> (r: String)
    ensures
        r@ == joined_text(ls@.map_values(|x: String| x@)),
{
    if ls.len() == 0 {
        return String::from_str(NL);
    }
    let mut r = String::new();
    let mut i: usize = 0;
    while i < ls.len()
        invariant
            i <= ls@.len(),
            r@ == terminated(ls@.subrange(0, i as int).map_values(|x: String| x@)),
        decreases ls@.len() - i,
    {
        proof {
            let a = ls@.subrange(0, i + 1).map_values(|x: String| x@);
            assert(a.drop_last() =~= ls@.subrange(0, i as int).map_values(|x: String| x@));
        }
        r.append(ls[i].as_str());
        r.append(NL);
        i = i + 1;
    }
    proof {
        assert(ls@.subrange(0, ls@.len() as int) =~= ls@);
    }
    r
}


/// The index of the first newline of `s`, or -1.
pub open spec fn first_nl(s: Seq<char>) -> int
    decreases s.len(),
{
    if s.len() == 0 {
        -1
    } else if s[0] == '\n' {
        0
    } else {
        let j = first_nl(s.drop_first());
        if j < 0 {
            -1
        } else {
            j + 1
        }
    }
}

/// A line without the carriage return of a `\r\n` ending.
pub open spec fn without_cr(s: Seq<char>) -> Seq<char> {
    if s.len() > 0 && s.last() == '\r' {
        s.drop_last()
    } else {
        s
    }
}

/// The lines of a text: each ends at `\n` or `\r\n`, which is dropped; text
/// after the last line ending is a last line of its own.
pub open spec fn text_lines(s: Seq<char>) -> Seq<Seq<char>>
    decreases s.len(),
{
    if s.len() == 0 {
        Seq::empty()
    } else {
        let i = first_nl(s);
        if i < 0 || i >= s.len() {
            seq![s]
        } else {
            seq![without_cr(s.subrange(0, i))] + text_lines(s.subrange(i + 1, s.len() as int))
        }
    }
}

proof fn lemma_first_nl_at(s: Seq<char>, i: int)
    requires
        0 <= i < s.len(),
        s[i] == '\n',
        forall|k: int| 0 <= k < i ==> s[k] != '\n',
    ensures
        first_nl(s) == i,
    decreases s.len(),
{
    if i > 0 {
        let t = s.drop_first();
        assert forall|k: int| 0 <= k < i - 1 implies t[k] != '\n' by {
            assert(t[k] == s[k + 1]);
        }
        lemma_first_nl_at(t, i - 1);
    }
}

proof fn lemma_no_nl(s: Seq<char>)
    requires
        forall|k: int| 0 <= k < s.len() ==> s[k] != '\n',
    ensures
        first_nl(s) == -1,
    decreases s.len(),
{
    if s.len() > 0 {
        let t = s.drop_first();
        assert forall|k: int| 0 <= k < t.len() implies t[k] != '\n' by {
            assert(t[k] == s[k + 1]);
        }
        lemma_no_nl(t);
    }
}

/// The lines of a text.
pub fn lines(s: &str) -> (r: Vec<String>)
    ensures
        r@.len() == text_lines(s@).len(),
        forall|i: int| 0 <= i < r@.len() ==> (#[trigger] r@[i])@ == text_lines(s@)[i],
{
    let cs = crate::text::chars_of(s);
    let n = cs.len();
    let mut r: Vec<String> = Vec::new();
    let mut pos: usize = 0;
    let ghost mut done: Seq<Seq<char>> = Seq::empty();
    proof {
        assert(s@.subrange(0, n as int) =~= s@);
    }
    while pos < n
        invariant
            n == s@.len(),
            cs@ == s@,
            pos <= n,
            r@.len() == done.len(),
            forall|i: int| 0 <= i < r@.len() ==> (#[trigger] r@[i])@ == done[i],
            text_lines(s@) == done + text_lines(s@.subrange(pos as int, n as int)),
        decreases n - pos,
    {
        let ghost rest = s@.subrange(pos as int, n as int);
        let mut i = pos;
        while i < n && cs[i] != '\n'
            invariant
                pos <= i <= n,
                n == cs@.len(),
                forall|k: int| pos <= k < i ==> cs@[k] != '\n',
            decreases n - i,
        {
            i = i + 1;
        }
        if i == n {
            proof {
                assert forall|k: int| 0 <= k < rest.len() implies rest[k] != '\n' by {
                    assert(rest[k] == s@[pos + k]);
                }
                lemma_no_nl(rest);
                assert(s@.subrange(n as int, n as int) =~= Seq::<char>::empty());
            }
            r.push(String::from_str(s.substring_char(pos, n)));
            proof {
                done = done.push(rest);
                assert(text_lines(s@) =~= done + text_lines(s@.subrange(n as int, n as int)));
            }
            pos = n;
        } else {
            proof {
                assert forall|k: int| 0 <= k < i - pos implies rest[k] != '\n' by {
                    assert(rest[k] == s@[pos + k]);
                }
                lemma_first_nl_at(rest, i - pos);
                assert(rest.subrange(0, i - pos) =~= s@.subrange(pos as int, i as int));
                assert(rest.subrange(i - pos + 1, rest.len() as int) =~= s@.subrange(
                    i + 1,
                    n as int,
                ));
            }
            let end = if i > pos && cs[i - 1] == '\r' {
                i - 1
            } else {
                i
            };
            let line = String::from_str(s.substring_char(pos, end));
            proof {
                let seg = s@.subrange(pos as int, i as int);
                assert(line@ =~= without_cr(seg));
            }
            r.push(line);
            proof {
                let seg = s@.subrange(pos as int, i as int);
                done = done.push(without_cr(seg));
                assert(text_lines(s@) =~= done + text_lines(s@.subrange(i + 1, n as int)));
            }
            pos = i + 1;
        }
    }
    proof {
        assert(text_lines(s@.subrange(n as int, n as int)) =~= Seq::<Seq<char>>::empty());
        assert(done + Seq::<Seq<char>>::empty() =~= done);
    }
    r
}

/// The words of `s` (maximal runs of characters that are not white space),
/// with `cur` the part of a word already passed.
pub open spec fn words_from(s: Seq<char>, cur: Seq<char>) -> Seq<Seq<char>>
    decreases s.len(),
{
    if s.len() == 0 {
        if cur.len() > 0 {
            seq![cur]
        } else {
            Seq::empty()
        }
    } else if is_ws(s[0]) {
        if cur.len() > 0 {
            seq![cur] + words_from(s.drop_first(), Seq::empty())
        } else {
            words_from(s.drop_first(), Seq::empty())
        }
    } else {
        words_from(s.drop_first(), cur.push(s[0]))
    }
}

/// The words of a text.
pub open spec fn words(s: Seq<char>) -> Seq<Seq<char>> {
    words_from(s, Seq::empty())
}

/// The words of a text.
pub fn split_words(s: &str) -> (r: Vec<String>)
    ensures
        r@.len() == words(s@).len(),
        forall|i: int| 0 <= i < r@.len() ==> (#[trigger] r@[i])@ == words(s@)[i],
{
    let n = s.unicode_len();
    let mut r: Vec<String> = Vec::new();
    let ghost mut done: Seq<Seq<char>> = Seq::empty();
    let mut start: usize = 0;
    let mut i: usize = 0;
    proof {
        assert(s@.subrange(0, n as int) =~= s@);
        assert(s@.subrange(0, 0) =~= Seq::<char>::empty());
    }
    while i < n
        invariant
            n == s@.len(),
            start <= i <= n,
            r@.len() == done.len(),
            forall|k: int| 0 <= k < r@.len() ==> (#[trigger] r@[k])@ == done[k],
            words(s@) == done + words_from(
                s@.subrange(i as int, n as int),
                s@.subrange(start as int, i as int),
            ),
        decreases n - i,
    {
        let c = s.get_char(i);
        let ghost rest = s@.subrange(i as int, n as int);
        let ghost cur = s@.subrange(start as int, i as int);
        proof {
            assert(rest[0] == c);
            assert(rest.drop_first() =~= s@.subrange(i + 1, n as int));
        }
        if is_white_space(c) {
            if start < i {
                r.push(String::from_str(s.substring_char(start, i)));
                proof {
                    done = done.push(cur);
                    assert(words(s@) =~= done + words_from(s@.subrange(i + 1, n as int), Seq::empty()));
                }
            }
            proof {
                assert(s@.subrange(i + 1, i + 1) =~= Seq::<char>::empty());
            }
            i = i + 1;
            start = i;
        } else {
            proof {
                assert(s@.subrange(start as int, i + 1) =~= cur.push(c));
            }
            i = i + 1;
        }
    }
    proof {
        assert(s@.subrange(n as int, n as int) =~= Seq::<char>::empty());
    }
    if start < n {
        r.push(String::from_str(s.substring_char(start, n)));
        proof {
            done = done.push(s@.subrange(start as int, n as int));
        }
    }
    proof {
        assert(words(s@) =~= done);
    }
    r
}

} // verus!
