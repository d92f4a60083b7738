//! Character-level helpers over `str` and `String`, each with an exact
//! statement over `Seq<char>`.
use vstd::prelude::*;

verus! {

/// `t` occurs in `s` starting at index `i`.
pub open spec fn occurs_at(s: Seq<char>, t: Seq<char>, i: int) -> bool {
    0 <= i && i + t.len() <= s.len() && s.subrange(i, i + t.len()) == t
}

/// `t` occurs somewhere in `s`.
pub open spec fn contains(s: Seq<char>, t: Seq<char>) -> bool {
    exists|i: int| occurs_at(s, t, i)
}

/// The characters of a string, one by one.
pub fn chars_of(s: &str) -> (r: Vec<char>)
    ensures
        r@ == s@,
{
    let n = s.unicode_len();
    let mut r: Vec<char> = Vec::new();
    let mut i: usize = 0;
    while i < n
        invariant
            n == s@.len(),
            i <= n,
            r@ == s@.subrange(0, i as int),
        decreases n - i,
    {
        let c = s.get_char(i);
        r.push(c);
        i = i + 1;
        proof {
            assert(r@ =~= s@.subrange(0, i as int));
        }
    }
    proof {
        assert(r@ =~= s@);
    }
    r
}

fn occurs_at_exec(s: &Vec<char>, t: &Vec<char>, i: usize) -> (r: bool)
    requires
        i + t@.len() <= s@.len(),
    ensures
        r == occurs_at(s@, t@, i as int),
{
    let sl = s.len();
    let mut j: usize = 0;
    while j < t.len()
        invariant
            sl == s@.len(),
            j <= t@.len(),
            i + t@.len() <= s@.len(),
            forall|k: int| 0 <= k < j ==> s@[i + k] == t@[k],
        decreases t@.len() - j,
    {
        if s[i + j] != t[j] {
            proof {
                assert(s@.subrange(i as int, i + t@.len())[j as int] != t@[j as int]);
            }
            return false;
        }
        j = j + 1;
    }
    proof {
        assert(s@.subrange(i as int, i + t@.len()) =~= t@);
    }
    true
}

/// Whether `t` occurs in `s`.
pub fn seq_contains(s: &Vec<char>, t: &Vec<char>) -> (r: bool)
    ensures
        r == contains(s@, t@),
{
    if t.len() > s.len() {
        return false;
    }
    let last = s.len() - t.len();
    let mut i: usize = 0;
    loop
        invariant
            last == s@.len() - t@.len(),
            t@.len() <= s@.len(),
            i <= last,
            forall|k: int| 0 <= k < i ==> !occurs_at(s@, t@, k),
        decreases last - i,
    {
        if occurs_at_exec(s, t, i) {
            return true;
        }
        if i == last {
            return false;
        }
        i = i + 1;
    }
}

/// Whether `t` occurs in `s`.
pub fn str_contains(s: &str, t: &str) -> (r: bool)
    ensures
        r == contains(s@, t@),
{
    let sc = chars_of(s);
    let tc = chars_of(t);
    seq_contains(&sc, &tc)
}

/// `c` with backslashes turned into forward slashes.
pub open spec fn slash_char(c: char) -> char {
    if c == '\\' {
        '/'
    } else {
        c
    }
}

/// A path written with forward slashes only.
pub open spec fn forward_slashed(s: Seq<char>) -> Seq<char> {
    s.map_values(|c: char| slash_char(c))
}

/// Every backslash of `s` replaced by a forward slash.
pub fn replace_backslashes(s: &str) -> (r: String)
    ensures
        r@ == forward_slashed(s@),
{
    let n = s.unicode_len();
    let mut r = String::new();
    let mut start: usize = 0;
    let mut i: usize = 0;
    while i < n
        invariant
            n == s@.len(),
            start <= i <= n,
            r@ + s@.subrange(start as int, i as int) == forward_slashed(s@.subrange(0, i as int)),
            forall|k: int| start <= k < i ==> s@[k] != '\\',
        decreases n - i,
    {
        let c = s.get_char(i);
        if c == '\\' {
            let ghost before = r@;
            let piece = s.substring_char(start, i);
            r.append(piece);
            r.append("/");
            proof {
                reveal_strlit("/");
                assert("/"@ =~= seq!['/']);
                assert(r@ =~= before + piece@ + seq!['/']);
                assert(s@.subrange(start as int, i as int) =~= forward_slashed(
                    s@.subrange(start as int, i as int),
                ));
                assert(forward_slashed(s@.subrange(0, i + 1)) =~= forward_slashed(
                    s@.subrange(0, i as int),
                ).push('/'));
                assert(s@.subrange(i + 1, i + 1) =~= Seq::<char>::empty());
            }
            i = i + 1;
            start = i;
        } else {
            proof {
                assert(forward_slashed(s@.subrange(0, i + 1)) =~= forward_slashed(
                    s@.subrange(0, i as int),
                ).push(c));
                assert(s@.subrange(start as int, i + 1) =~= s@.subrange(start as int, i as int).push(
                    c,
                ));
            }
            i = i + 1;
        }
    }
    let rest = s.substring_char(start, n);
    proof {
        assert(rest@ =~= forward_slashed(rest@));
    }
    r.append(rest);
    proof {
        assert(s@.subrange(0, n as int) =~= s@);
    }
    r
}

/// The decimal digit character for `d < 10`.
pub open spec fn digit_char(d: nat) -> char {
    if d == 0 {
        '0'
    } else if d == 1 {
        '1'
    } else if d == 2 {
        '2'
    } else if d == 3 {
        '3'
    } else if d == 4 {
        '4'
    } else if d == 5 {
        '5'
    } else if d == 6 {
        '6'
    } else if d == 7 {
        '7'
    } else if d == 8 {
        '8'
    } else {
        '9'
    }
}

/// The decimal notation of `n`, without sign or leading zeros.
pub open spec fn decimal(n: nat) -> Seq<char>
    decreases n,
{
    if n < 10 {
        seq![digit_char(n)]
    } else {
        decimal(n / 10).push(digit_char(n % 10))
    }
}

fn digit_str(d: u32) -> (r: &'static str)
    requires
        d < 10,
    ensures
        r@ == seq![digit_char(d as nat)],
{
    if d == 0 {
        proof { reveal_strlit("0"); }
        proof { assert("0"@ =~= seq!['0']); }
        "0"
    } else if d == 1 {
        proof { reveal_strlit("1"); }
        proof { assert("1"@ =~= seq!['1']); }
        "1"
    } else if d == 2 {
        proof { reveal_strlit("2"); }
        proof { assert("2"@ =~= seq!['2']); }
        "2"
    } else if d == 3 {
        proof { reveal_strlit("3"); }
        proof { assert("3"@ =~= seq!['3']); }
        "3"
    } else if d == 4 {
        proof { reveal_strlit("4"); }
        proof { assert("4"@ =~= seq!['4']); }
        "4"
    } else if d == 5 {
        proof { reveal_strlit("5"); }
        proof { assert("5"@ =~= seq!['5']); }
        "5"
    } else if d == 6 {
        proof { reveal_strlit("6"); }
        proof { assert("6"@ =~= seq!['6']); }
        "6"
    } else if d == 7 {
        proof { reveal_strlit("7"); }
        proof { assert("7"@ =~= seq!['7']); }
        "7"
    } else if d == 8 {
        proof { reveal_strlit("8"); }
        proof { assert("8"@ =~= seq!['8']); }
        "8"
    } else {
        proof { reveal_strlit("9"); }
        proof { assert("9"@ =~= seq!['9']); }
        "9"
    }
}

/// The decimal notation of an unsigned number.
pub fn decimal_string(n: u32) -> (r: String)
    ensures
        r@ == decimal(n as nat),
    decreases n,
{
    if n < 10 {
        let mut r = String::new();
        r.append(digit_str(n));
        proof {
            assert(r@ =~= decimal(n as nat));
        }
        r
    } else {
        let mut r = decimal_string(n / 10);
        r.append(digit_str(n % 10));
        proof {
            assert(r@ =~= decimal(n as nat));
        }
        r
    }
}

} // verus!
