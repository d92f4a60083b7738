//! Small helpers shared by the service drivers.
use vstd::prelude::*;
use crate::text::{forward_slashed, replace_backslashes};

verus! {

/// Whether two strings hold the same characters.
pub fn str_eq(a: &str, b: &str) -> (r: bool)
    ensures
        r == (a@ == b@),
{
    let x = String::from_str(a);
    let y = String::from_str(b);
    x == y
}

/// Whether `p` is a prefix of `s`.
pub open spec fn has_prefix(s: Seq<char>, p: Seq<char>) -> bool {
    p.len() <= s.len() && s.subrange(0, p.len() as int) == p
}

/// `s` without the prefix `p`, when `s` starts with it.
pub fn strip_prefix<'a>(s: &'a str, p: &str) -> (r: Option<&'a str>)
    ensures
        r is Some <==> has_prefix(s@, p@),
        r is Some ==> r.unwrap()@ == s@.subrange(p@.len() as int, s@.len() as int),
{
    let n = s.unicode_len();
    let m = p.unicode_len();
    if m > n {
        return None;
    }
    let head = s.substring_char(0, m);
    if str_eq(head, p) {
        Some(s.substring_char(m, n))
    } else {
        None
    }
}

/// The port on which the FPM pool of a PHP version listens.
pub open spec fn fpm_port_of(v: Seq<char>) -> u16 {
    if v == "8.1"@ {
        9081
    } else if v == "8.2"@ {
        9082
    } else if v == "8.3"@ {
        9083
    } else if v == "8.4"@ {
        9084
    } else {
        9085
    }
}

/// Maps a PHP version string to its FPM port: 8.1 to 8.4 listen on 9081 to
/// 9084, any other version on 9085.
pub fn php_version_to_port(version: &str) -> (r: u16)
    ensures
        r == fpm_port_of(version@),
{
    if str_eq(version, "8.1") {
        9081
    } else if str_eq(version, "8.2") {
        9082
    } else if str_eq(version, "8.3") {
        9083
    } else if str_eq(version, "8.4") {
        9084
    } else {
        9085
    }
}

/// A path with forward slashes only, as the generated configuration files
/// expect on every platform.
pub fn to_forward_slash(path: &str) -> (r: String)
    ensures
        r@ == forward_slashed(path@),
{
    replace_backslashes(path)
}

} // verus!
