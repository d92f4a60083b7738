//! PID files and the liveness probe's verdict.
//!
//! A PID file holds the decimal process id of a running service. Reading one
//! back trims surrounding whitespace and accepts what an unsigned 32-bit
//! decimal parse accepts; a pid is trusted only when the liveness probe says
//! the process is alive.
use vstd::prelude::*;
use crate::text::{chars_of, contains, decimal, decimal_string, digit_char, str_contains};

verus! {

/// Unicode white space, as trimming a string understands it.
pub open spec fn is_ws(c: char) -> bool {
    c == '\t' || c == '\n' || c == '\u{b}' || c == '\u{c}' || c == '\r' || c == ' '
        || c == '\u{85}' || c == '\u{a0}' || c == '\u{1680}' || c == '\u{2000}'
        || c == '\u{2001}' || c == '\u{2002}' || c == '\u{2003}' || c == '\u{2004}'
        || c == '\u{2005}' || c == '\u{2006}' || c == '\u{2007}' || c == '\u{2008}'
        || c == '\u{2009}' || c == '\u{200a}' || c == '\u{2028}' || c == '\u{2029}'
        || c == '\u{202f}' || c == '\u{205f}' || c == '\u{3000}'
}

/// Whether a character is white space.
pub fn is_white_space(c: char) -> (r: bool)
    ensures
        r == is_ws(c),
{
    c == '\t' || c == '\n' || c == '\u{b}' || c == '\u{c}' || c == '\r' || c == ' '
        || c == '\u{85}' || c == '\u{a0}' || c == '\u{1680}' || c == '\u{2000}'
        || c == '\u{2001}' || c == '\u{2002}' || c == '\u{2003}' || c == '\u{2004}'
        || c == '\u{2005}' || c == '\u{2006}' || c == '\u{2007}' || c == '\u{2008}'
        || c == '\u{2009}' || c == '\u{200a}' || c == '\u{2028}' || c == '\u{2029}'
        || c == '\u{202f}' || c == '\u{205f}' || c == '\u{3000}'
}

/// `s` without its leading white space.
pub open spec fn trim_start(s: Seq<char>) -> Seq<char>
    decreases s.len(),
{
    if s.len() > 0 && is_ws(s[0]) {
        trim_start(s.drop_first())
    } else {
        s
    }
}

/// `s` without its trailing white space.
pub open spec fn trim_end(s: Seq<char>) -> Seq<char>
    decreases s.len(),
{
    if s.len() > 0 && is_ws(s.last()) {
        trim_end(s.drop_last())
    } else {
        s
    }
}

/// `s` without white space at either end.
pub open spec fn trimmed(s: Seq<char>) -> Seq<char> {
    trim_end(trim_start(s))
}

pub open spec fn is_digit(c: char) -> bool {
    '0' <= c && c <= '9'
}

pub open spec fn digit_value(c: char) -> nat {
    (c as u32 - '0' as u32) as nat
}

/// The number that a run of decimal digits denotes.
pub open spec fn digits_value(s: Seq<char>) -> nat
    decreases s.len(),
{
    if s.len() == 0 {
        0
    } else {
        digits_value(s.drop_last()) * 10 + digit_value(s.last())
    }
}

pub open spec fn all_digits(s: Seq<char>) -> bool {
    forall|i: int| 0 <= i < s.len() ==> is_digit(#[trigger] s[i])
}

/// What follows an optional leading `+`.
pub open spec fn unsigned_body(s: Seq<char>) -> Seq<char> {
    if s.len() > 0 && s[0] == '+' {
        s.drop_first()
    } else {
        s
    }
}

/// An unsigned 32-bit decimal number: an optional `+`, then at least one
/// digit, denoting at most `u32::MAX`.
pub open spec fn parse_u32(s: Seq<char>) -> Option<u32> {
    let b = unsigned_body(s);
    if b.len() > 0 && all_digits(b) && digits_value(b) <= u32::MAX {
        Some(digits_value(b) as u32)
    } else {
        None
    }
}

/// The pid that a PID file with this content records, if any.
pub open spec fn pid_in_file(content: Seq<char>) -> Option<u32> {
    parse_u32(trimmed(content))
}

/// What a PID file says once its pid has been probed: alive with the pid, or
/// not running and no pid.
pub open spec fn pid_status_of(pid: Option<u32>, alive: bool) -> (bool, Option<u32>) {
    match pid {
        Some(p) => if alive {
            (true, Some(p))
        } else {
            (false, None)
        },
        None => (false, None),
    }
}

proof fn lemma_prefix_value_le(s: Seq<char>, k: int)
    requires
        0 <= k <= s.len(),
    ensures
        digits_value(s.subrange(0, k)) <= digits_value(s),
    decreases s.len() - k,
{
    if k == s.len() {
        assert(s.subrange(0, k) =~= s);
    } else {
        lemma_prefix_value_le(s, k + 1);
        assert(s.subrange(0, k + 1).drop_last() =~= s.subrange(0, k));
    }
}

/// The content written to a PID file for `pid`.
pub fn pid_file_text(pid: u32) -> (r: String)
    ensures
        r@ == decimal(pid as nat),
{
    decimal_string(pid)
}

/// Reads the pid out of a PID file's content: surrounding white space is
/// ignored, anything else that is not an unsigned 32-bit decimal number
/// gives `None`.
pub fn parse_pid(content: &str) -> (r: Option<u32>)
    ensures
        r == pid_in_file(content@),
{
    let cs = chars_of(content);
    let n = cs.len();
    let mut lo: usize = 0;
    proof {
        assert(cs@.subrange(0, n as int) =~= cs@);
    }
    while lo < n && is_white_space(cs[lo])
        invariant
            n == cs@.len(),
            cs@ == content@,
            lo <= n,
            trim_start(cs@) == trim_start(cs@.subrange(lo as int, n as int)),
        decreases n - lo,
    {
        proof {
            assert(cs@.subrange(lo as int, n as int).drop_first() =~= cs@.subrange(
                lo + 1,
                n as int,
            ));
        }
        lo = lo + 1;
    }
    proof {
        assert(trim_start(cs@) == cs@.subrange(lo as int, n as int));
    }
    let mut hi: usize = n;
    while hi > lo && is_white_space(cs[hi - 1])
        invariant
            n == cs@.len(),
            lo <= hi <= n,
            trimmed(cs@) == trim_end(cs@.subrange(lo as int, hi as int)),
        decreases hi - lo,
    {
        proof {
            assert(cs@.subrange(lo as int, hi as int).drop_last() =~= cs@.subrange(
                lo as int,
                hi - 1,
            ));
        }
        hi = hi - 1;
    }
    let ghost t = cs@.subrange(lo as int, hi as int);
    proof {
        assert(trimmed(cs@) == t);
    }
    let mut start = lo;
    if lo < hi && cs[lo] == '+' {
        start = lo + 1;
        proof {
            assert(unsigned_body(t) =~= cs@.subrange(start as int, hi as int));
        }
    } else {
        proof {
            assert(unsigned_body(t) =~= cs@.subrange(start as int, hi as int));
        }
    }
    let ghost b = cs@.subrange(start as int, hi as int);
    proof {
        assert(unsigned_body(trimmed(content@)) == b);
        assert(cs@.subrange(start as int, start as int) =~= Seq::<char>::empty());
    }
    if start == hi {
        return None;
    }
    let mut acc: u64 = 0;
    let mut k: usize = start;
    while k < hi
        invariant
            start <= k <= hi <= n,
            n == cs@.len(),
            b == cs@.subrange(start as int, hi as int),
            unsigned_body(trimmed(content@)) == b,
            acc == digits_value(cs@.subrange(start as int, k as int)),
            acc <= u32::MAX,
            all_digits(cs@.subrange(start as int, k as int)),
        decreases hi - k,
    {
        let c = cs[k];
        if !('0' <= c && c <= '9') {
            proof {
                assert(b[k - start] == c);
                assert(!is_digit(b[k - start]));
            }
            return None;
        }
        let d = (c as u32 - '0' as u32) as u64;
        let ghost next = cs@.subrange(start as int, k + 1);
        proof {
            assert(next.drop_last() =~= cs@.subrange(start as int, k as int));
            assert(next.last() == c);
            assert(all_digits(next));
            assert(digits_value(next) == acc * 10 + d);
        }
        if acc * 10 + d > u32::MAX as u64 {
            proof {
                assert(next =~= b.subrange(0, k + 1 - start));
                lemma_prefix_value_le(b, k + 1 - start);
            }
            return None;
        }
        acc = acc * 10 + d;
        k = k + 1;
    }
    proof {
        assert(cs@.subrange(start as int, k as int) =~= b);
    }
    Some(acc as u32)
}

/// Whether a process is alive, from the outcome of sending it signal 0: a
/// success means alive, and so does a refusal for lack of permission (the
/// process exists but belongs to another user); any other failure means gone.
pub fn probe_verdict(signal_ok: bool, stderr: &str) -> (r: bool)
    ensures
        r == (signal_ok || contains(stderr@, "Operation not permitted"@)),
{
    if signal_ok {
        true
    } else {
        str_contains(stderr, "Operation not permitted")
    }
}

/// `s` without white space at either end.
pub fn trim_str(s: &str) -> (r: String)
    ensures
        r@ == trimmed(s@),
{
    let cs = chars_of(s);
    let n = cs.len();
    let mut lo: usize = 0;
    proof {
        assert(cs@.subrange(0, n as int) =~= cs@);
    }
    while lo < n && is_white_space(cs[lo])
        invariant
            n == cs@.len(),
            cs@ == s@,
            lo <= n,
            trim_start(cs@) == trim_start(cs@.subrange(lo as int, n as int)),
        decreases n - lo,
    {
        proof {
            assert(cs@.subrange(lo as int, n as int).drop_first() =~= cs@.subrange(
                lo + 1,
                n as int,
            ));
        }
        lo = lo + 1;
    }
    let mut hi: usize = n;
    while hi > lo && is_white_space(cs[hi - 1])
        invariant
            n == cs@.len(),
            cs@ == s@,
            lo <= hi <= n,
            trimmed(cs@) == trim_end(cs@.subrange(lo as int, hi as int)),
        decreases hi - lo,
    {
        proof {
            assert(cs@.subrange(lo as int, hi as int).drop_last() =~= cs@.subrange(
                lo as int,
                hi - 1,
            ));
        }
        hi = hi - 1;
    }
    String::from_str(s.substring_char(lo, hi))
}

/// The state a PID file stands for, once its pid (if it had one) was probed.
pub fn pid_status(pid: Option<u32>, alive: bool) -> (r: (bool, Option<u32>))
    ensures
        r == pid_status_of(pid, alive),
        r.0 <==> r.1.is_some(),
{
    match pid {
        Some(p) => if alive {
            (true, Some(p))
        } else {
            (false, None)
        },
        None => (false, None),
    }
}

proof fn lemma_digit_char(d: nat)
    requires
        d < 10,
    ensures
        is_digit(digit_char(d)),
        digit_value(digit_char(d)) == d,
        !is_ws(digit_char(d)),
        digit_char(d) != '+',
{
}

proof fn lemma_decimal(n: nat)
    ensures
        decimal(n).len() > 0,
        all_digits(decimal(n)),
        digits_value(decimal(n)) == n,
    decreases n,
{
    if n < 10 {
        lemma_digit_char(n);
        assert(decimal(n).drop_last() =~= Seq::<char>::empty());
        assert(digits_value(Seq::<char>::empty()) == 0);
    } else {
        lemma_decimal(n / 10);
        lemma_digit_char(n % 10);
        let s = decimal(n);
        assert(s.drop_last() =~= decimal(n / 10));
        assert forall|i: int| 0 <= i < s.len() implies is_digit(#[trigger] s[i]) by {
            if i < s.len() - 1 {
                assert(s[i] == decimal(n / 10)[i]);
            }
        }
        assert(n == (n / 10) * 10 + n % 10) by (nonlinear_arith);
    }
}

/// A PID file written for `pid` reads back as `pid`; probed alive it stands
/// for a running process with that pid, probed dead for no process at all.
pub proof fn lemma_pid_file_round_trip(pid: u32)
    ensures
        pid_in_file(decimal(pid as nat)) == Some(pid),
        pid_status_of(pid_in_file(decimal(pid as nat)), true) == (true, Some(pid)),
        pid_status_of(pid_in_file(decimal(pid as nat)), false) == (false, None::<u32>),
{
    let s = decimal(pid as nat);
    lemma_decimal(pid as nat);
    assert(is_digit(s[0]));
    assert(is_digit(s.last()));
    assert(!is_ws(s[0]));
    assert(!is_ws(s.last()));
    assert(trim_start(s) == s);
    assert(trim_end(s) == s);
    assert(unsigned_body(s) == s);
}

} // verus!
