//! php.ini directives and extension switches, read from and written into
//! the file's text.
use vstd::prelude::*;
use crate::drivers::PhpManager;
use crate::lines::{join_terminated, lines, terminated, text_lines};
use crate::order::{name_le, str_le};
use crate::pid::{trim_str, trimmed};

verus! {

/// A `key = value` directive of php.ini, with its section.
#[derive(Clone, Debug)]
pub struct PhpIniDirective {
    pub key: String,
    pub value: String,
    pub section: String,
}

/// A PHP extension as `php -m` lists it.
#[derive(Clone, Debug)]
pub struct PhpExtension {
    pub name: String,
    pub enabled: bool,
    pub builtin: bool,
}

/// The index of the first `c` in `s`, or -1.
pub open spec fn index_of_char(s: Seq<char>, c: char) -> int
    decreases s.len(),
{
    if s.len() == 0 {
        -1
    } else if s[0] == c {
        0
    } else {
        let j = index_of_char(s.drop_first(), c);
        if j < 0 {
            -1
        } else {
            j + 1
        }
    }
}

proof fn lemma_index_of_char(s: Seq<char>, c: char, i: int)
    requires
        0 <= i <= s.len(),
        forall|k: int| 0 <= k < i ==> s[k] != c,
        i < s.len() ==> s[i] == c,
    ensures
        index_of_char(s, c) == (if i < s.len() {
            i
        } else {
            -1
        }),
    decreases s.len(),
{
    if s.len() > 0 && i > 0 {
        let t = s.drop_first();
        assert forall|k: int| 0 <= k < i - 1 implies t[k] != c by {
            assert(t[k] == s[k + 1]);
        }
        if i < s.len() {
            assert(t[i - 1] == s[i]);
        }
        lemma_index_of_char(t, c, i - 1);
    }
}

fn find_char(s: &str, c: char) -> (r: Option<usize>)
    ensures
        r is Some ==> r.unwrap() < s@.len() && index_of_char(s@, c) == r.unwrap(),
        r is None ==> index_of_char(s@, c) == -1,
{
    let n = s.unicode_len();
    let mut i: usize = 0;
    while i < n
        invariant
            n == s@.len(),
            i <= n,
            forall|k: int| 0 <= k < i ==> s@[k] != c,
        decreases n - i,
    {
        if s.get_char(i) == c {
            proof {
                lemma_index_of_char(s@, c, i as int);
            }
            return Some(i);
        }
        i = i + 1;
    }
    proof {
        lemma_index_of_char(s@, c, n as int);
    }
    None
}

/// A line that is neither empty nor a `;` comment.
pub open spec fn significant(t: Seq<char>) -> bool {
    !(t.len() == 0 || t[0] == ';')
}

/// A `[section]` header line.
pub open spec fn is_section(t: Seq<char>) -> bool {
    t.len() > 0 && t[0] == '[' && t.last() == ']'
}

/// The directives (key, value, section) of the lines `ls`, the current
/// section being `section`.
pub open spec fn ini_directives(ls: Seq<Seq<char>>, section: Seq<char>) -> Seq<
    (Seq<char>, Seq<char>, Seq<char>),
>
    decreases ls.len(),
{
    if ls.len() == 0 {
        Seq::empty()
    } else {
        let t = trimmed(ls[0]);
        if !significant(t) {
            ini_directives(ls.drop_first(), section)
        } else if is_section(t) {
            ini_directives(ls.drop_first(), t.subrange(1, t.len() - 1))
        } else if index_of_char(t, '=') >= 0 {
            let e = index_of_char(t, '=');
            seq![
                (trimmed(t.subrange(0, e)), trimmed(t.subrange(e + 1, t.len() as int)), section),
            ] + ini_directives(ls.drop_first(), section)
        } else {
            ini_directives(ls.drop_first(), section)
        }
    }
}

pub open spec fn directive_view(d: PhpIniDirective) -> (Seq<char>, Seq<char>, Seq<char>) {
    (d.key@, d.value@, d.section@)
}

pub open spec fn directive_views(ds: Seq<PhpIniDirective>) -> Seq<(Seq<char>, Seq<char>, Seq<char>)> {
    ds.map_values(|d: PhpIniDirective| directive_view(d))
}

impl PhpManager {
    /// The directives of a php.ini text, in order; before the first section
    /// header the section is `PHP`.
    pub fn parse_ini(content: &str) -> (r: Vec<PhpIniDirective>)
        ensures
            directive_views(r@) == ini_directives(text_lines(content@), "PHP"@),
    {
        let ls = lines(content);
        let ghost lv = text_lines(content@);
        let mut r: Vec<PhpIniDirective> = Vec::new();
        let mut section = String::from_str("PHP");
        let mut i: usize = 0;
        proof {
            assert(lv.subrange(0, lv.len() as int) =~= lv);
        }
        while i < ls.len()
            invariant
                ls@.len() == lv.len(),
                forall|k: int| 0 <= k < ls@.len() ==> (#[trigger] ls@[k])@ == lv[k],
                i <= ls@.len(),
                ini_directives(lv, "PHP"@) == directive_views(r@) + ini_directives(
                    lv.subrange(i as int, lv.len() as int),
                    section@,
                ),
            decreases ls@.len() - i,
        {
            let ghost rest = lv.subrange(i as int, lv.len() as int);
            proof {
                assert(rest[0] == lv[i as int]);
                assert(rest.drop_first() =~= lv.subrange(i + 1, lv.len() as int));
            }
            let t = trim_str(ls[i].as_str());
            let n = t.as_str().unicode_len();
            if n == 0 || t.as_str().get_char(0) == ';' {
            } else if t.as_str().get_char(0) == '[' && t.as_str().get_char(n - 1) == ']' {
                section = String::from_str(t.as_str().substring_char(1, n - 1));
            } else {
                match find_char(t.as_str(), '=') {
                    Some(e) => {
                        let ghost before = r@;
                        let key = trim_str(t.as_str().substring_char(0, e));
                        let value = trim_str(t.as_str().substring_char(e + 1, n));
                        r.push(PhpIniDirective { key, value, section: section.clone() });
                        proof {
                            assert(directive_views(r@) =~= directive_views(before).push(
                                (
                                    trimmed(t@.subrange(0, e as int)),
                                    trimmed(t@.subrange(e + 1, n as int)),
                                    section@,
                                ),
                            ));
                        }
                    },
                    None => {},
                }
            }
            i = i + 1;
        }
        proof {
            assert(lv.subrange(i as int, lv.len() as int) =~= Seq::<Seq<char>>::empty());
            assert(directive_views(r@) + Seq::empty() =~= directive_views(r@));
        }
        r
    }
}

/// Whether line `l` sets directive `key`: it is not empty, a comment or a
/// section header, and the text before its first `=` is `key`, trimmed.
pub open spec fn sets_key(l: Seq<char>, key: Seq<char>) -> bool {
    let t = trimmed(l);
    &&& significant(t)
    &&& t[0] != '['
    &&& index_of_char(t, '=') >= 0
    &&& trimmed(t.subrange(0, index_of_char(t, '='))) == key
}

/// Whether line `l`, trimmed, is one of the two switch lines.
pub open spec fn is_switch(l: Seq<char>, on: Seq<char>, off: Seq<char>) -> bool {
    trimmed(l) == on || trimmed(l) == off
}

/// The index of the first line of `ls` that sets `key`, or -1.
pub open spec fn first_setting(ls: Seq<Seq<char>>, key: Seq<char>) -> int
    decreases ls.len(),
{
    if ls.len() == 0 {
        -1
    } else if sets_key(ls[0], key) {
        0
    } else {
        let j = first_setting(ls.drop_first(), key);
        if j < 0 {
            -1
        } else {
            j + 1
        }
    }
}

/// The index of the first line of `ls` that is a switch line, or -1.
pub open spec fn first_switch(ls: Seq<Seq<char>>, on: Seq<char>, off: Seq<char>) -> int
    decreases ls.len(),
{
    if ls.len() == 0 {
        -1
    } else if is_switch(ls[0], on, off) {
        0
    } else {
        let j = first_switch(ls.drop_first(), on, off);
        if j < 0 {
            -1
        } else {
            j + 1
        }
    }
}

/// `ls` with line `i` replaced by `new`, or with `new` appended when `i`
/// is no index of `ls`.
pub open spec fn replace_at(ls: Seq<Seq<char>>, i: int, new: Seq<char>) -> Seq<Seq<char>> {
    if 0 <= i < ls.len() {
        ls.update(i, new)
    } else {
        ls.push(new)
    }
}

fn find_setting(ls: &Vec<String>, key: &str) -> (r: Option<usize>)
    ensures
        r is Some ==> r.unwrap() < ls@.len(),
        first_setting(ls@.map_values(|x: String| x@), key@) == match r {
            Some(i) => i as int,
            None => -1,
        },
{
    let ghost lv = ls@.map_values(|x: String| x@);
    let mut i: usize = 0;
    proof {
        assert(lv.subrange(0, lv.len() as int) =~= lv);
    }
    while i < ls.len()
        invariant
            lv == ls@.map_values(|x: String| x@),
            i <= ls@.len(),
            first_setting(lv, key@) == (if first_setting(lv.subrange(i as int, lv.len() as int), key@) < 0 {
                -1
            } else {
                first_setting(lv.subrange(i as int, lv.len() as int), key@) + i
            }),
        decreases ls@.len() - i,
    {
        let ghost rest = lv.subrange(i as int, lv.len() as int);
        proof {
            assert(rest[0] == ls@[i as int]@);
            assert(rest.drop_first() =~= lv.subrange(i + 1, lv.len() as int));
        }
        if line_sets_key(ls[i].as_str(), key) {
            return Some(i);
        }
        i = i + 1;
    }
    proof {
        assert(lv.subrange(i as int, lv.len() as int) =~= Seq::<Seq<char>>::empty());
    }
    None
}

fn find_switch(ls: &Vec<String>, on: &String, off: &String) -> (r: Option<usize>)
    ensures
        r is Some ==> r.unwrap() < ls@.len(),
        first_switch(ls@.map_values(|x: String| x@), on@, off@) == match r {
            Some(i) => i as int,
            None => -1,
        },
{
    let ghost lv = ls@.map_values(|x: String| x@);
    let mut i: usize = 0;
    proof {
        assert(lv.subrange(0, lv.len() as int) =~= lv);
    }
    while i < ls.len()
        invariant
            lv == ls@.map_values(|x: String| x@),
            i <= ls@.len(),
            first_switch(lv, on@, off@) == (if first_switch(lv.subrange(i as int, lv.len() as int), on@, off@) < 0 {
                -1
            } else {
                first_switch(lv.subrange(i as int, lv.len() as int), on@, off@) + i
            }),
        decreases ls@.len() - i,
    {
        let ghost rest = lv.subrange(i as int, lv.len() as int);
        proof {
            assert(rest[0] == ls@[i as int]@);
            assert(rest.drop_first() =~= lv.subrange(i + 1, lv.len() as int));
        }
        let t = trim_str(ls[i].as_str());
        if t == *on || t == *off {
            return Some(i);
        }
        i = i + 1;
    }
    proof {
        assert(lv.subrange(i as int, lv.len() as int) =~= Seq::<Seq<char>>::empty());
    }
    None
}

fn line_sets_key(l: &str, key: &str) -> (r: bool)
    ensures
        r == sets_key(l@, key@),
{
    let t = trim_str(l);
    let n = t.as_str().unicode_len();
    if n == 0 || t.as_str().get_char(0) == ';' || t.as_str().get_char(0) == '[' {
        return false;
    }
    match find_char(t.as_str(), '=') {
        Some(e) => {
            let k = trim_str(t.as_str().substring_char(0, e));
            k == String::from_str(key)
        },
        None => false,
    }
}

fn finish_edit(ls: Vec<String>, hit: Option<usize>, new: String) -> (r: String)
    requires
        hit is Some ==> hit.unwrap() < ls@.len(),
    ensures
        r@ == terminated(
            match hit {
                Some(i) => ls@.map_values(|x: String| x@).update(i as int, new@),
                None => ls@.map_values(|x: String| x@).push(new@),
            },
        ),
{
    let mut out = ls;
    let ghost before = out@;
    match hit {
        Some(i) => {
            out.set(i, new);
            proof {
                assert(out@.map_values(|x: String| x@) =~= before.map_values(|x: String| x@).update(
                    i as int,
                    new@,
                ));
            }
        },
        None => {
            out.push(new);
            proof {
                assert(out@.map_values(|x: String| x@) =~= before.map_values(|x: String| x@).push(
                    new@,
                ));
            }
        },
    }
    let r = join_terminated(&out);
    proof {
        assert(out@.map_values(|x: String| x@).len() > 0);
    }
    r
}

pub const DIRECTIVE_SEP: &'static str = " = ";
pub const EXTENSION_ON: &'static str = "extension=";
pub const EXTENSION_OFF: &'static str = ";extension=";

impl PhpManager {
    /// The php.ini text with directive `key` set to `value`: the first line
    /// that sets it becomes `key = value`, or that line is appended.
    pub fn set_ini_directive(content: &str, key: &str, value: &str) -> (r: String)
        ensures
            r@ == terminated(
                replace_at(
                    text_lines(content@),
                    first_setting(text_lines(content@), key@),
                    key@ + DIRECTIVE_SEP@ + value@,
                ),
            ),
    {
        let ls = lines(content);
        proof {
            assert(ls@.map_values(|x: String| x@) =~= text_lines(content@));
        }
        let hit = find_setting(&ls, key);
        let mut new = String::from_str(key);
        new.append(DIRECTIVE_SEP);
        new.append(value);
        finish_edit(ls, hit, new)
    }

    /// The php.ini text with extension `extension` switched on or off: the
    /// first line that switches it becomes `extension=<name>` or
    /// `;extension=<name>`, or that line is appended.
    pub fn toggle_extension(content: &str, extension: &str, enable: bool) -> (r: String)
        ensures
            r@ == terminated(
                replace_at(
                    text_lines(content@),
                    first_switch(
                        text_lines(content@),
                        EXTENSION_ON@ + extension@,
                        EXTENSION_OFF@ + extension@,
                    ),
                    if enable {
                        EXTENSION_ON@ + extension@
                    } else {
                        EXTENSION_OFF@ + extension@
                    },
                ),
            ),
    {
        let ls = lines(content);
        proof {
            assert(ls@.map_values(|x: String| x@) =~= text_lines(content@));
        }
        let mut on = String::from_str(EXTENSION_ON);
        on.append(extension);
        let mut off = String::from_str(EXTENSION_OFF);
        off.append(extension);
        let hit = find_switch(&ls, &on, &off);
        let new = if enable {
            on
        } else {
            off
        };
        finish_edit(ls, hit, new)
    }
}

pub const PHP_MODULES: &'static str = "[PHP Modules]";
pub const ZEND_MODULES: &'static str = "[Zend Modules]";

/// The modules (name, built into the engine) that `php -m` lists in lines
/// `ls`; `zend` tells whether the Zend section has begun.
pub open spec fn listed_modules(ls: Seq<Seq<char>>, zend: bool) -> Seq<(Seq<char>, bool)>
    decreases ls.len(),
{
    if ls.len() == 0 {
        Seq::empty()
    } else {
        let t = trimmed(ls[0]);
        if t.len() == 0 {
            listed_modules(ls.drop_first(), zend)
        } else if t == PHP_MODULES@ {
            listed_modules(ls.drop_first(), false)
        } else if t == ZEND_MODULES@ {
            listed_modules(ls.drop_first(), true)
        } else {
            seq![(t, zend)] + listed_modules(ls.drop_first(), zend)
        }
    }
}

/// Where a module named `name` goes in a list sorted by name: after every
/// entry whose name comes no later.
pub open spec fn module_pos(s: Seq<(Seq<char>, bool)>, name: Seq<char>) -> nat
    decreases s.len(),
{
    if s.len() == 0 {
        0
    } else if name_le(s[0].0, name) {
        1 + module_pos(s.drop_first(), name)
    } else {
        0
    }
}

/// The stable sort by name, by insertion.
pub open spec fn sorted_modules(s: Seq<(Seq<char>, bool)>) -> Seq<(Seq<char>, bool)>
    decreases s.len(),
{
    if s.len() == 0 {
        s
    } else {
        let t = sorted_modules(s.drop_last());
        t.insert(module_pos(t, s.last().0) as int, s.last())
    }
}

pub open spec fn extension_view(e: PhpExtension) -> (Seq<char>, bool) {
    (e.name@, e.builtin)
}

fn find_module_pos(v: &Vec<PhpExtension>, name: &String) -> (r: usize)
    ensures
        r == module_pos(v@.map_values(|e: PhpExtension| extension_view(e)), name@),
        r <= v@.len(),
{
    let ghost sv = v@.map_values(|e: PhpExtension| extension_view(e));
    let mut i: usize = 0;
    proof {
        assert(sv.subrange(0, sv.len() as int) =~= sv);
    }
    while i < v.len() && str_le(v[i].name.as_str(), name.as_str())
        invariant
            sv == v@.map_values(|e: PhpExtension| extension_view(e)),
            i <= v@.len(),
            module_pos(sv, name@) == i + module_pos(sv.subrange(i as int, sv.len() as int), name@),
        decreases v@.len() - i,
    {
        proof {
            let t = sv.subrange(i as int, sv.len() as int);
            assert(t[0] == extension_view(v@[i as int]));
            assert(t.drop_first() =~= sv.subrange(i + 1, sv.len() as int));
        }
        i = i + 1;
    }
    proof {
        let t = sv.subrange(i as int, sv.len() as int);
        if i < v@.len() {
            assert(t[0] == extension_view(v@[i as int]));
        }
    }
    i
}

impl PhpManager {
    /// The extensions that `php -m` printed, sorted by name (stably): each
    /// listed module is enabled, and built in when it is listed under the
    /// Zend section.
    pub fn parse_extensions(stdout: &str) -> (r: Vec<PhpExtension>)
        ensures
            r@.map_values(|e: PhpExtension| extension_view(e)) == sorted_modules(
                listed_modules(text_lines(stdout@), false),
            ),
            forall|i: int| 0 <= i < r@.len() ==> (#[trigger] r@[i]).enabled,
    {
        let ls = lines(stdout);
        let ghost lv = text_lines(stdout@);
        let ghost mut found: Seq<(Seq<char>, bool)> = Seq::empty();
        let mut r: Vec<PhpExtension> = Vec::new();
        let mut zend = false;
        let mut i: usize = 0;
        proof {
            assert(lv.subrange(0, lv.len() as int) =~= lv);
        }
        while i < ls.len()
            invariant
                ls@.len() == lv.len(),
                forall|k: int| 0 <= k < ls@.len() ==> (#[trigger] ls@[k])@ == lv[k],
                i <= ls@.len(),
                listed_modules(lv, false) == found + listed_modules(
                    lv.subrange(i as int, lv.len() as int),
                    zend,
                ),
                r@.map_values(|e: PhpExtension| extension_view(e)) == sorted_modules(found),
                forall|k: int| 0 <= k < r@.len() ==> (#[trigger] r@[k]).enabled,
            decreases ls@.len() - i,
        {
            let ghost rest = lv.subrange(i as int, lv.len() as int);
            proof {
                assert(rest[0] == lv[i as int]);
                assert(rest.drop_first() =~= lv.subrange(i + 1, lv.len() as int));
            }
            let t = trim_str(ls[i].as_str());
            if t.as_str().unicode_len() == 0 {
            } else if t == String::from_str(PHP_MODULES) {
                zend = false;
            } else if t == String::from_str(ZEND_MODULES) {
                zend = true;
            } else {
                let pos = find_module_pos(&r, &t);
                let ghost before = r@;
                let ghost x = (t@, zend);
                r.insert(pos, PhpExtension { name: t, enabled: true, builtin: zend });
                proof {
                    let nf = found.push(x);
                    assert(nf.drop_last() =~= found);
                    assert(r@.map_values(|e: PhpExtension| extension_view(e)) =~= before.map_values(
                        |e: PhpExtension| extension_view(e),
                    ).insert(pos as int, x));
                    found = nf;
                    assert forall|k: int| 0 <= k < r@.len() implies (#[trigger] r@[k]).enabled by {
                        if k < pos {
                            assert(r@[k] == before[k]);
                        } else if k > pos {
                            assert(r@[k] == before[k - 1]);
                        }
                    }
                }
            }
            i = i + 1;
        }
        proof {
            assert(lv.subrange(i as int, lv.len() as int) =~= Seq::<Seq<char>>::empty());
            assert(found + Seq::empty() =~= found);
        }
        r
    }
}

} // verus!
