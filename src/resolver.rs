//! Start-up dependencies of the web server: which PHP-FPM runtimes must run
//! for the active sites, which of them to start, and which runtime to start
//! as a default when none of the sites' runtimes runs.
use vstd::prelude::*;
use crate::drivers::PhpVersion;
use crate::site::Site;

verus! {

/// The info listed first for PHP version `v`, if any.
pub open spec fn lookup_version(vs: Seq<PhpVersion>, v: Seq<char>) -> Option<PhpVersion>
    decreases vs.len(),
{
    if vs.len() == 0 {
        None
    } else if vs[0].version@ == v {
        Some(vs[0])
    } else {
        lookup_version(vs.drop_first(), v)
    }
}

/// Version `v` is installed and its FPM is not running.
pub open spec fn needs_start(vs: Seq<PhpVersion>, v: Seq<char>) -> bool {
    match lookup_version(vs, v) {
        Some(p) => p.installed && !p.running,
        None => false,
    }
}

/// The FPM of version `v` is running.
pub open spec fn already_running(vs: Seq<PhpVersion>, v: Seq<char>) -> bool {
    match lookup_version(vs, v) {
        Some(p) => p.running,
        None => false,
    }
}

/// Some active site uses PHP version `v`.
pub open spec fn used_by_active_site(sites: Seq<Site>, v: Seq<char>) -> bool {
    exists|j: int| 0 <= j < sites.len() && sites[j].active && sites[j].php_version@ == v
}

/// The views of a list of strings are pairwise distinct.
pub open spec fn distinct_views(s: Seq<String>) -> bool {
    forall|a: int, b: int| 0 <= a < b < s.len() ==> s[a]@ != s[b]@
}

/// What to do before the web server starts: the runtimes to start, and
/// whether one the sites need already runs.
pub struct FpmPlan {
    pub start: Vec<String>,
    pub any_running: bool,
}

fn contains_view(s: &Vec<String>, v: &String) -> (r: bool)
    ensures
        r == exists|i: int| 0 <= i < s@.len() && s@[i]@ == v@,
{
    let mut i: usize = 0;
    while i < s.len()
        invariant
            i <= s@.len(),
            forall|k: int| 0 <= k < i ==> s@[k]@ != v@,
        decreases s@.len() - i,
    {
        if s[i] == *v {
            return true;
        }
        i = i + 1;
    }
    false
}

/// The distinct PHP versions of the active sites, in order of first use.
pub fn required_php_versions(sites: &Vec<Site>) -> (r: Vec<String>)
    ensures
        distinct_views(r@),
        forall|i: int| 0 <= i < r@.len() ==> used_by_active_site(sites@, #[trigger] r@[i]@),
        forall|v: Seq<char>| used_by_active_site(sites@, v) ==> exists|i: int|
            0 <= i < r@.len() && r@[i]@ == v,
{
    let mut r: Vec<String> = Vec::new();
    let mut j: usize = 0;
    while j < sites.len()
        invariant
            j <= sites@.len(),
            distinct_views(r@),
            forall|i: int| 0 <= i < r@.len() ==> used_by_active_site(sites@, #[trigger] r@[i]@),
            forall|k: int|
                0 <= k < j && sites@[k].active ==> exists|i: int|
                    0 <= i < r@.len() && r@[i]@ == (#[trigger] sites@[k]).php_version@,
        decreases sites@.len() - j,
    {
        let s = &sites[j];
        if s.active && !contains_view(&r, &s.php_version) {
            let ghost before = r@;
            r.push(s.php_version.clone());
            proof {
                assert forall|k: int|
                    0 <= k < j && sites@[k].active implies exists|i: int|
                    0 <= i < r@.len() && r@[i]@ == (#[trigger] sites@[k]).php_version@ by {
                    let i = choose|i: int|
                        0 <= i < before.len() && before[i]@ == sites@[k].php_version@;
                    assert(r@[i] == before[i]);
                }
                assert(r@[r@.len() - 1]@ == sites@[j as int].php_version@);
                assert(used_by_active_site(sites@, sites@[j as int].php_version@));
            }
        }
        j = j + 1;
    }
    proof {
        assert forall|v: Seq<char>| used_by_active_site(sites@, v) implies exists|i: int|
            0 <= i < r@.len() && r@[i]@ == v by {
            let k = choose|k: int|
                0 <= k < sites@.len() && sites@[k].active && sites@[k].php_version@ == v;
            assert(sites@[k].active);
        }
    }
    r
}

fn find_version(vs: &Vec<PhpVersion>, v: &String) -> (r: Option<usize>)
    ensures
        r is Some ==> r.unwrap() < vs@.len() && lookup_version(vs@, v@) == Some(
            vs@[r.unwrap() as int],
        ),
        r is None ==> lookup_version(vs@, v@) is None,
{
    let mut k: usize = 0;
    proof {
        assert(vs@.subrange(0, vs@.len() as int) =~= vs@);
    }
    while k < vs.len()
        invariant
            k <= vs@.len(),
            lookup_version(vs@, v@) == lookup_version(vs@.subrange(k as int, vs@.len() as int), v@),
        decreases vs@.len() - k,
    {
        let ghost t = vs@.subrange(k as int, vs@.len() as int);
        proof {
            assert(t[0] == vs@[k as int]);
            assert(t.drop_first() =~= vs@.subrange(k + 1, vs@.len() as int));
        }
        if vs[k].version == *v {
            return Some(k);
        }
        k = k + 1;
    }
    None
}

/// `v` is the view of some string of `s`.
pub open spec fn in_views(s: Seq<String>, v: Seq<char>) -> bool {
    exists|i: int| 0 <= i < s.len() && s[i]@ == v
}

/// Some of the first `n` required versions already runs.
pub open spec fn some_running(required: Seq<String>, vs: Seq<PhpVersion>, n: int) -> bool {
    exists|k: int| 0 <= k < n && already_running(vs, #[trigger] required[k]@)
}

proof fn lemma_push_distinct(s: Seq<String>, x: String)
    requires
        distinct_views(s),
        !in_views(s, x@),
    ensures
        distinct_views(s.push(x)),
{
    assert forall|a: int, b: int| 0 <= a < b < s.len() + 1 implies s.push(x)[a]@ != s.push(x)[b]@ by {
        if b == s.len() {
            assert(s.push(x)[a] == s[a]);
        }
    }
}

/// Of the required versions, those whose runtime is installed but not
/// running are to be started, in order; a running one is left alone, and
/// counts as a runtime that the sites already have.
pub fn plan_fpm_starts(required: &Vec<String>, versions: &Vec<PhpVersion>) -> (r: FpmPlan)
    requires
        distinct_views(required@),
    ensures
        distinct_views(r.start@),
        forall|i: int| 0 <= i < r.start@.len() ==> needs_start(versions@, #[trigger] r.start@[i]@),
        forall|i: int| 0 <= i < r.start@.len() ==> in_views(required@, #[trigger] r.start@[i]@),
        forall|j: int|
            0 <= j < required@.len() && needs_start(versions@, #[trigger] required@[j]@) ==> in_views(
                r.start@,
                required@[j]@,
            ),
        r.any_running == some_running(required@, versions@, required@.len() as int),
{
    let mut start: Vec<String> = Vec::new();
    let mut any_running = false;
    let mut j: usize = 0;
    while j < required.len()
        invariant
            j <= required@.len(),
            distinct_views(required@),
            distinct_views(start@),
            forall|i: int| 0 <= i < start@.len() ==> needs_start(versions@, #[trigger] start@[i]@),
            forall|i: int|
                0 <= i < start@.len() ==> in_views(required@.subrange(0, j as int), #[trigger] start@[i]@),
            forall|k: int|
                0 <= k < j && needs_start(versions@, #[trigger] required@[k]@) ==> in_views(
                    start@,
                    required@[k]@,
                ),
            any_running == some_running(required@, versions@, j as int),
        decreases required@.len() - j,
    {
        let v = &required[j];
        let ghost before = start@;
        let ghost pre = required@.subrange(0, j as int);
        let ghost pre1 = required@.subrange(0, j + 1);
        proof {
            assert forall|i: int| 0 <= i < before.len() implies in_views(pre1, #[trigger] before[i]@) by {
                let k = choose|k: int| 0 <= k < pre.len() && pre[k]@ == before[i]@;
                assert(pre1[k] == pre[k]);
            }
            assert(pre1[j as int] == *v);
        }
        match find_version(versions, v) {
            Some(i) => {
                if versions[i].running {
                    any_running = true;
                } else if versions[i].installed {
                    proof {
                        if in_views(before, v@) {
                            let a = choose|a: int| 0 <= a < before.len() && before[a]@ == v@;
                            let k = choose|k: int| 0 <= k < pre.len() && pre[k]@ == before[a]@;
                            assert(required@[k] == pre[k]);
                        }
                        lemma_push_distinct(before, *v);
                    }
                    start.push(v.clone());
                    proof {
                        assert(start@[start@.len() - 1] == *v);
                    }
                }
            },
            None => {},
        }
        proof {
            assert forall|k: int|
                0 <= k < j + 1 && needs_start(versions@, #[trigger] required@[k]@) implies in_views(
                start@,
                required@[k]@,
            ) by {
                if k < j {
                    let i = choose|i: int| 0 <= i < before.len() && before[i]@ == required@[k]@;
                    assert(start@[i] == before[i]);
                }
            }
            assert forall|i: int| 0 <= i < start@.len() implies in_views(pre1, #[trigger] start@[i]@) by {
                if i < before.len() {
                    assert(start@[i] == before[i]);
                }
            }
            if any_running != some_running(required@, versions@, j as int) {
                assert(already_running(versions@, required@[j as int]@));
            }
            assert(some_running(required@, versions@, j + 1) == (some_running(required@, versions@, j as int)
                || already_running(versions@, required@[j as int]@)));
        }
        j = j + 1;
    }
    proof {
        assert(required@.subrange(0, j as int) =~= required@);
    }
    FpmPlan { start, any_running }
}

/// Installed and not running.
pub open spec fn startable(p: PhpVersion) -> bool {
    p.installed && !p.running
}

/// When no runtime that the sites use is running, the first installed
/// runtime that is not running is started as a default, so that the web
/// server always has an upstream; otherwise none.
pub fn default_fpm(versions: &Vec<PhpVersion>, any_running: bool) -> (r: Option<String>)
    ensures
        any_running ==> r is None,
        !any_running && r is None ==> forall|i: int|
            0 <= i < versions@.len() ==> !startable(#[trigger] versions@[i]),
        r is Some ==> exists|i: int|
            0 <= i < versions@.len() && startable(versions@[i]) && versions@[i].version == r.unwrap()
                && forall|k: int| 0 <= k < i ==> !startable(#[trigger] versions@[k]),
{
    if any_running {
        return None;
    }
    let mut i: usize = 0;
    while i < versions.len()
        invariant
            !any_running,
            i <= versions@.len(),
            forall|k: int| 0 <= k < i ==> !startable(#[trigger] versions@[k]),
        decreases versions@.len() - i,
    {
        if versions[i].installed && !versions[i].running {
            return Some(versions[i].version.clone());
        }
        i = i + 1;
    }
    None
}

} // verus!

verus! {

use crate::registry::{entry_of, lemma_upserted, registry_wf, upserted};
use crate::state::{id_of, started_info, Observed, ServiceInfo, ServiceKind, ServiceStatus};

/// Before the web server starts, a runtime that already runs is never among
/// those to start, and every runtime that an active site needs and that is
/// installed but stopped is; once such a runtime was started and recorded,
/// the registry lists it as `Running` with its pid.
pub proof fn lemma_dependencies_started(
    vs: Seq<PhpVersion>,
    v: String,
    s: Seq<ServiceInfo>,
    pid: u32,
    o: Observed,
    info: ServiceInfo,
)
    requires
        registry_wf(s),
        started_info(ServiceKind::PhpFpm(v), pid, o, info),
    ensures
        already_running(vs, v@) ==> !needs_start(vs, v@),
        entry_of(upserted(s, info), id_of(ServiceKind::PhpFpm(v))) == Some(info),
        info.status == ServiceStatus::Running,
        info.pid == Some(pid),
{
    lemma_upserted(s, info);
}

} // verus!
