//! The service registry: the last known `ServiceInfo` of every registered
//! service, kept sorted by name with one entry per id, and the table of
//! child-process handles that this run spawned and still owns.
use vstd::prelude::*;
use crate::order::{lemma_name_le_total, lemma_name_le_trans, name_le, str_le};
use crate::state::{
    has_process, id_of, is_known_id, lemma_ids_distinct, refreshed, started_info, stopped_info,
    AppError, Observed, ServiceInfo, ServiceKind, ServiceStatus,
};

verus! {

/// Entries in order of name.
pub open spec fn sorted_by_name(s: Seq<ServiceInfo>) -> bool {
    forall|i: int, j: int| 0 <= i < j < s.len() ==> name_le(s[i].name@, s[j].name@)
}

/// No two entries share an id.
pub open spec fn unique_ids(s: Seq<ServiceInfo>) -> bool {
    forall|i: int, j: int| 0 <= i < j < s.len() ==> s[i].id@ != s[j].id@
}

pub open spec fn has_id(s: Seq<ServiceInfo>, id: Seq<char>) -> bool {
    exists|i: int| 0 <= i < s.len() && s[i].id@ == id
}

/// The position of the entry with this id (meaningful when there is one).
pub open spec fn index_of(s: Seq<ServiceInfo>, id: Seq<char>) -> int {
    choose|i: int| 0 <= i < s.len() && s[i].id@ == id
}

/// The entry registered under this id, if any.
pub open spec fn entry_of(s: Seq<ServiceInfo>, id: Seq<char>) -> Option<ServiceInfo> {
    if has_id(s, id) {
        Some(s[index_of(s, id)])
    } else {
        None
    }
}

/// The entries without the one registered under `id`.
pub open spec fn without_id(s: Seq<ServiceInfo>, id: Seq<char>) -> Seq<ServiceInfo> {
    if has_id(s, id) {
        s.remove(index_of(s, id))
    } else {
        s
    }
}

/// Where an entry named `name` goes: after every entry whose name comes no
/// later than it.
pub open spec fn insert_pos(s: Seq<ServiceInfo>, name: Seq<char>) -> nat
    decreases s.len(),
{
    if s.len() == 0 {
        0
    } else if name_le(s[0].name@, name) {
        1 + insert_pos(s.drop_first(), name)
    } else {
        0
    }
}

/// The entries once `info` replaces whatever was registered under its id.
pub open spec fn upserted(s: Seq<ServiceInfo>, info: ServiceInfo) -> Seq<ServiceInfo> {
    let b = without_id(s, info.id@);
    b.insert(insert_pos(b, info.name@) as int, info)
}

pub open spec fn registry_wf(s: Seq<ServiceInfo>) -> bool {
    sorted_by_name(s) && unique_ids(s)
}

proof fn lemma_index_of(s: Seq<ServiceInfo>, i: int)
    requires
        unique_ids(s),
        0 <= i < s.len(),
    ensures
        has_id(s, s[i].id@),
        index_of(s, s[i].id@) == i,
        entry_of(s, s[i].id@) == Some(s[i]),
{
    assert(has_id(s, s[i].id@));
    let j = index_of(s, s[i].id@);
    if j != i {
        if j < i {
            assert(s[j].id@ != s[i].id@);
        } else {
            assert(s[i].id@ != s[j].id@);
        }
    }
}

proof fn lemma_insert_pos(s: Seq<ServiceInfo>, name: Seq<char>)
    ensures
        insert_pos(s, name) <= s.len(),
        forall|j: int| 0 <= j < insert_pos(s, name) ==> name_le(#[trigger] s[j].name@, name),
        insert_pos(s, name) < s.len() ==> !name_le(s[insert_pos(s, name) as int].name@, name),
    decreases s.len(),
{
    if s.len() > 0 && name_le(s[0].name@, name) {
        let t = s.drop_first();
        lemma_insert_pos(t, name);
        assert forall|j: int| 0 <= j < insert_pos(s, name) implies name_le(
            #[trigger] s[j].name@,
            name,
        ) by {
            if j > 0 {
                assert(s[j] == t[j - 1]);
            }
        }
        if insert_pos(s, name) < s.len() {
            assert(s[insert_pos(s, name) as int] == t[insert_pos(t, name) as int]);
        }
    }
}

proof fn lemma_without_id(s: Seq<ServiceInfo>, id: Seq<char>)
    requires
        registry_wf(s),
    ensures
        registry_wf(without_id(s, id)),
        !has_id(without_id(s, id), id),
        forall|k: Seq<char>| k != id ==> entry_of(without_id(s, id), k) == entry_of(s, k),
{
    let b = without_id(s, id);
    if has_id(s, id) {
        let i = index_of(s, id);
        assert(b == s.remove(i));
        assert forall|a: int, c: int| 0 <= a < c < b.len() implies name_le(
            b[a].name@,
            b[c].name@,
        ) && b[a].id@ != b[c].id@ by {
            let a2 = if a < i { a } else { a + 1 };
            let c2 = if c < i { c } else { c + 1 };
            assert(b[a] == s[a2]);
            assert(b[c] == s[c2]);
        }
        assert forall|j: int| 0 <= j < b.len() implies b[j].id@ != id by {
            let j2 = if j < i { j } else { j + 1 };
            assert(b[j] == s[j2]);
            if j2 < i {
                assert(s[j2].id@ != s[i].id@);
            } else {
                assert(s[i].id@ != s[j2].id@);
            }
        }
        assert forall|k: Seq<char>| k != id implies entry_of(b, k) == entry_of(s, k) by {
            if has_id(s, k) {
                let m = index_of(s, k);
                assert(m != i);
                let m2 = if m < i { m } else { m - 1 };
                assert(b[m2] == s[m]);
                lemma_index_of(b, m2);
            }
            if has_id(b, k) {
                let m = index_of(b, k);
                let m2 = if m < i { m } else { m + 1 };
                assert(b[m] == s[m2]);
            }
        }
    }
}

/// Replacing an entry keeps the registry sorted by name with unique ids; the
/// new entry is the one found under its id and every other id keeps its
/// entry.
pub proof fn lemma_upserted(s: Seq<ServiceInfo>, info: ServiceInfo)
    requires
        registry_wf(s),
    ensures
        registry_wf(upserted(s, info)),
        upserted(s, info).len() == s.len() + (if has_id(s, info.id@) {
            0int
        } else {
            1int
        }),
        entry_of(upserted(s, info), info.id@) == Some(info),
        forall|k: Seq<char>| k != info.id@ ==> entry_of(upserted(s, info), k) == entry_of(s, k),
{
    let b = without_id(s, info.id@);
    lemma_without_id(s, info.id@);
    lemma_insert_pos(b, info.name@);
    let p = insert_pos(b, info.name@) as int;
    let u = upserted(s, info);
    assert(u == b.insert(p, info));
    assert forall|j: int| 0 <= j < u.len() implies (j < p ==> u[j] == b[j]) && (j == p ==> u[j]
        == info) && (j > p ==> u[j] == b[j - 1]) by {}
    assert forall|j: int| p <= j < b.len() implies name_le(info.name@, #[trigger] b[j].name@) by {
        lemma_name_le_total(b[p].name@, info.name@);
        if j > p {
            lemma_name_le_trans(info.name@, b[p].name@, b[j].name@);
        }
    }
    assert forall|a: int, c: int| 0 <= a < c < u.len() implies name_le(u[a].name@, u[c].name@)
        && u[a].id@ != u[c].id@ by {
        if c < p {
        } else if c == p {
            assert(u[a] == b[a]);
            assert(b[a].id@ != info.id@);
        } else if a < p {
            assert(u[c] == b[c - 1]);
            assert(u[a] == b[a]);
            lemma_name_le_trans(b[a].name@, info.name@, b[c - 1].name@);
        } else if a == p {
            assert(u[c] == b[c - 1]);
            assert(b[c - 1].id@ != info.id@);
        } else {
            assert(u[c] == b[c - 1]);
            assert(u[a] == b[a - 1]);
        }
    }
    lemma_index_of(u, p);
    assert forall|k: Seq<char>| k != info.id@ implies entry_of(u, k) == entry_of(s, k) by {
        if has_id(b, k) {
            let m = index_of(b, k);
            let m2 = if m < p { m } else { m + 1 };
            assert(u[m2] == b[m]);
            lemma_index_of(u, m2);
            lemma_index_of(b, m);
        }
        if has_id(u, k) {
            let m = index_of(u, k);
            assert(m != p);
            let m2 = if m < p { m } else { m - 1 };
            assert(u[m] == b[m2]);
        }
    }
}

/// The live state of the supervised services: the registry of last known
/// infos and the handles of the child processes that this run owns.
pub struct ServiceRegistry<H> {
    services: Vec<ServiceInfo>,
    children: Vec<(String, H)>,
}

/// No two handles share an id.
pub open spec fn unique_keys<H>(s: Seq<(String, H)>) -> bool {
    forall|i: int, j: int| 0 <= i < j < s.len() ==> s[i].0@ != s[j].0@
}

/// The handles without the one kept for `id`.
pub open spec fn without_key<H>(s: Seq<(String, H)>, id: Seq<char>) -> Seq<(String, H)>
    decreases s.len(),
{
    if s.len() == 0 {
        s
    } else if s.last().0@ != id {
        without_key(s.drop_last(), id).push(s.last())
    } else {
        without_key(s.drop_last(), id)
    }
}

pub open spec fn has_key<H>(s: Seq<(String, H)>, id: Seq<char>) -> bool {
    exists|i: int| 0 <= i < s.len() && s[i].0@ == id
}

impl<H> ServiceRegistry<H> {
    /// The registered services, in order of name.
    pub closed spec fn entries(&self) -> Seq<ServiceInfo> {
        self.services@
    }

    /// The owned child-process handles, with the id each is kept under.
    pub closed spec fn handles(&self) -> Seq<(String, H)> {
        self.children@
    }

    pub open spec fn wf(&self) -> bool {
        registry_wf(self.entries()) && unique_keys(self.handles())
    }

    /// An empty registry.
    pub fn empty() -> (r: Self)
        ensures
            r.wf(),
            r.entries().len() == 0,
            r.handles().len() == 0,
    {
        ServiceRegistry { services: Vec::new(), children: Vec::new() }
    }

    fn find(&self, id: &str) -> (r: Option<usize>)
        requires
            self.wf(),
        ensures
            r is Some ==> r.unwrap() < self.entries().len() && self.entries()[r.unwrap() as int].id@
                == id@ && index_of(self.entries(), id@) == r.unwrap(),
            r is None ==> !has_id(self.entries(), id@),
    {
        let key = String::from_str(id);
        let mut i: usize = 0;
        while i < self.services.len()
            invariant
                self.wf(),
                key@ == id@,
                i <= self.services@.len(),
                forall|j: int| 0 <= j < i ==> self.services@[j].id@ != id@,
            decreases self.services@.len() - i,
        {
            if self.services[i].id == key {
                proof {
                    lemma_index_of(self.services@, i as int);
                }
                return Some(i);
            }
            i = i + 1;
        }
        None
    }

    fn find_insert_pos(&self, name: &str) -> (r: usize)
        ensures
            r == insert_pos(self.entries(), name@),
    {
        let mut i: usize = 0;
        proof {
            assert(self.services@.subrange(0, self.services@.len() as int) =~= self.services@);
        }
        while i < self.services.len() && str_le(self.services[i].name.as_str(), name)
            invariant
                i <= self.services@.len(),
                insert_pos(self.services@, name@) == i + insert_pos(
                    self.services@.subrange(i as int, self.services@.len() as int),
                    name@,
                ),
            decreases self.services@.len() - i,
        {
            proof {
                let t = self.services@.subrange(i as int, self.services@.len() as int);
                assert(t.drop_first() =~= self.services@.subrange(
                    i + 1,
                    self.services@.len() as int,
                ));
            }
            i = i + 1;
        }
        i
    }

    /// Registers `info` under its id, replacing any earlier entry of that id,
    /// at its place in the order of names.
    pub fn upsert(&mut self, info: ServiceInfo)
        requires
            old(self).wf(),
        ensures
            final(self).wf(),
            final(self).entries() == upserted(old(self).entries(), info),
            final(self).handles() == old(self).handles(),
    {
        proof {
            lemma_upserted(self.services@, info);
        }
        match self.find(info.id.as_str()) {
            Some(i) => {
                self.services.remove(i);
            },
            None => {},
        }
        let p = self.find_insert_pos(info.name.as_str());
        proof {
            lemma_insert_pos(self.services@, info.name@);
        }
        self.services.insert(p, info);
    }

    /// The last reconciled entry of `id`; no refresh happens here.
    pub fn get(&self, id: &str) -> (r: Result<ServiceInfo, AppError>)
        requires
            self.wf(),
        ensures
            r is Ok <==> has_id(self.entries(), id@),
            r is Ok ==> Some(r->Ok_0) == entry_of(self.entries(), id@),
            r is Err ==> r->Err_0 is NotFound,
    {
        match self.find(id) {
            Some(i) => Ok(self.services[i].snapshot()),
            None => {
                let mut msg = String::from_str("Service '");
                msg.append(id);
                msg.append("' not found");
                Err(AppError::NotFound(msg))
            },
        }
    }

    /// The ids of the registered services, in order of name.
    pub fn ids(&self) -> (r: Vec<String>)
        ensures
            r@.len() == self.entries().len(),
            forall|i: int| 0 <= i < r@.len() ==> r@[i]@ == #[trigger] self.entries()[i].id@,
    {
        let mut r: Vec<String> = Vec::new();
        let mut i: usize = 0;
        while i < self.services.len()
            invariant
                i <= self.services@.len(),
                r@.len() == i,
                forall|j: int| 0 <= j < i ==> r@[j]@ == #[trigger] self.services@[j].id@,
            decreases self.services@.len() - i,
        {
            r.push(self.services[i].id.clone());
            i = i + 1;
        }
        r
    }

    /// A copy of every registered entry, in order of name.
    pub fn snapshot_all(&self) -> (r: Vec<ServiceInfo>)
        ensures
            r@ == self.entries(),
    {
        let mut r: Vec<ServiceInfo> = Vec::new();
        let mut i: usize = 0;
        while i < self.services.len()
            invariant
                i <= self.services@.len(),
                r@ == self.services@.subrange(0, i as int),
            decreases self.services@.len() - i,
        {
            r.push(self.services[i].snapshot());
            i = i + 1;
            proof {
                assert(r@ =~= self.services@.subrange(0, i as int));
            }
        }
        proof {
            assert(r@ =~= self.services@);
        }
        r
    }

    /// Keeps `handle` as the owned child process of `id`, in place of any
    /// earlier one, which is handed back.
    pub fn put_handle(&mut self, id: String, handle: H) -> (r: Option<H>)
        requires
            old(self).wf(),
        ensures
            final(self).wf(),
            final(self).entries() == old(self).entries(),
            final(self).handles().last() == (id, handle),
            final(self).handles().drop_last() == without_key(old(self).handles(), id@),
    {
        let ghost before = self.children@;
        let r = self.take_handle(id.as_str());
        self.children.push((id, handle));
        proof {
            assert(self.children@.drop_last() =~= self.children@.subrange(
                0,
                self.children@.len() - 1,
            ));
        }
        r
    }

    /// Removes and returns the handle kept for `id`, if any.
    pub fn take_handle(&mut self, id: &str) -> (r: Option<H>)
        requires
            old(self).wf(),
        ensures
            final(self).wf(),
            final(self).entries() == old(self).entries(),
            final(self).handles() == without_key(old(self).handles(), id@),
            !has_key(final(self).handles(), id@),
            r is Some <==> has_key(old(self).handles(), id@),
            r is Some ==> exists|i: int|
                0 <= i < old(self).handles().len() && old(self).handles()[i].0@ == id@
                    && old(self).handles()[i].1 == r.unwrap(),
    {
        let key = String::from_str(id);
        let mut i: usize = 0;
        while i < self.children.len()
            invariant
                *self == *old(self),
                self.wf(),
                key@ == id@,
                i <= self.children@.len(),
                forall|j: int| 0 <= j < i ==> self.children@[j].0@ != id@,
            decreases self.children@.len() - i,
        {
            if self.children[i].0 == key {
                let ghost before = self.children@;
                let (_, h) = self.children.remove(i);
                proof {
                    lemma_without_key_remove(before, id@, i as int);
                }
                return Some(h);
            }
            i = i + 1;
        }
        proof {
            lemma_without_key_absent(self.children@, id@);
        }
        None
    }

    /// Removes every owned handle and hands them over, with their ids.
    pub fn drain_handles(&mut self) -> (r: Vec<(String, H)>)
        ensures
            r@ == old(self).handles(),
            final(self).handles().len() == 0,
            final(self).entries() == old(self).entries(),
            old(self).wf() ==> final(self).wf(),
    {
        let mut r: Vec<(String, H)> = Vec::new();
        std::mem::swap(&mut r, &mut self.children);
        r
    }
}

proof fn lemma_without_key_absent<H>(s: Seq<(String, H)>, id: Seq<char>)
    requires
        forall|j: int| 0 <= j < s.len() ==> s[j].0@ != id,
    ensures
        without_key(s, id) == s,
        !has_key(s, id),
    decreases s.len(),
{
    if s.len() > 0 {
        lemma_without_key_absent(s.drop_last(), id);
        assert(s.drop_last().push(s.last()) =~= s);
    }
}

proof fn lemma_without_key_remove<H>(s: Seq<(String, H)>, id: Seq<char>, i: int)
    requires
        unique_keys(s),
        0 <= i < s.len(),
        s[i].0@ == id,
    ensures
        without_key(s, id) == s.remove(i),
        unique_keys(s.remove(i)),
        !has_key(s.remove(i), id),
    decreases s.len(),
{
    let t = s.remove(i);
    assert forall|a: int, c: int| 0 <= a < c < t.len() implies t[a].0@ != t[c].0@ by {
        let a2 = if a < i { a } else { a + 1 };
        let c2 = if c < i { c } else { c + 1 };
        assert(t[a] == s[a2]);
        assert(t[c] == s[c2]);
    }
    assert forall|j: int| 0 <= j < t.len() implies t[j].0@ != id by {
        let j2 = if j < i { j } else { j + 1 };
        assert(t[j] == s[j2]);
        if j2 < i {
            assert(s[j2].0@ != s[i].0@);
        } else {
            assert(s[i].0@ != s[j2].0@);
        }
    }
    if i == s.len() - 1 {
        assert(t =~= s.drop_last());
        lemma_without_key_absent(t, id);
    } else {
        let d = s.drop_last();
        assert(unique_keys(d));
        lemma_without_key_remove(d, id, i);
        assert(s.last().0@ != id);
        assert(d.remove(i).push(s.last()) =~= t);
    }
}

} // verus!

verus! {

/// The observation listed first for `id`, if any.
pub open spec fn observation_for(obs: Seq<(String, Observed)>, id: Seq<char>) -> Option<Observed>
    decreases obs.len(),
{
    if obs.len() == 0 {
        None
    } else if obs[0].0@ == id {
        Some(obs[0].1)
    } else {
        observation_for(obs.drop_first(), id)
    }
}

/// An entry after reconciliation: refreshed when its id was observed.
pub open spec fn reconciled_entry(e: ServiceInfo, obs: Seq<(String, Observed)>) -> ServiceInfo {
    match observation_for(obs, e.id@) {
        Some(o) => refreshed(e, o),
        None => e,
    }
}

/// The registry after reconciliation with a set of observations.
pub open spec fn reconciled(s: Seq<ServiceInfo>, obs: Seq<(String, Observed)>) -> Seq<
    ServiceInfo,
> {
    s.map_values(|e: ServiceInfo| reconciled_entry(e, obs))
}

fn find_observation(obs: &Vec<(String, Observed)>, id: &String) -> (r: Option<usize>)
    ensures
        r is Some ==> r.unwrap() < obs@.len() && observation_for(obs@, id@) == Some(
            obs@[r.unwrap() as int].1,
        ),
        r is None ==> observation_for(obs@, id@) is None,
{
    let mut k: usize = 0;
    proof {
        assert(obs@.subrange(0, obs@.len() as int) =~= obs@);
    }
    while k < obs.len()
        invariant
            k <= obs@.len(),
            observation_for(obs@, id@) == observation_for(
                obs@.subrange(k as int, obs@.len() as int),
                id@,
            ),
        decreases obs@.len() - k,
    {
        let ghost t = obs@.subrange(k as int, obs@.len() as int);
        proof {
            assert(t[0] == obs@[k as int]);
            assert(t.drop_first() =~= obs@.subrange(k + 1, obs@.len() as int));
        }
        if obs[k].0 == *id {
            return Some(k);
        }
        k = k + 1;
    }
    None
}

/// Resolves a service id to its kind; an unknown id is `NotFound`, before any
/// work on the OS is attempted.
pub fn resolve_service(id: &str) -> (r: Result<ServiceKind, AppError>)
    ensures
        r is Ok <==> is_known_id(id@),
        r is Ok ==> id_of(r->Ok_0) == id@,
        r is Err ==> r->Err_0 is NotFound,
{
    match ServiceKind::parse(id) {
        Some(k) => Ok(k),
        None => {
            let mut msg = String::from_str("Unknown service: '");
            msg.append(id);
            msg.append("'");
            Err(AppError::NotFound(msg))
        },
    }
}

/// The entry that a service is registered with at start-up.
pub open spec fn default_entry(
    info: ServiceInfo,
    id: Seq<char>,
    name: Seq<char>,
    port: Option<u16>,
) -> bool {
    &&& info.id@ == id
    &&& info.name@ == name
    &&& info.status == ServiceStatus::Stopped
    &&& info.port == port
    &&& info.version is None
    &&& info.pid is None
    &&& !info.installed
    &&& !info.initialized
}

fn default_info(id: &str, name: &str, port: Option<u16>) -> (r: ServiceInfo)
    ensures
        default_entry(r, id@, name@, port),
{
    ServiceInfo {
        id: String::from_str(id),
        name: String::from_str(name),
        status: ServiceStatus::Stopped,
        port,
        version: None,
        pid: None,
        installed: false,
        initialized: false,
    }
}

impl<H> ServiceRegistry<H> {
    /// The registry at start-up: the web server on 8080, the database on
    /// 3306 and the admin web app, all stopped and not installed; no handles.
    pub fn new() -> (r: Self)
        ensures
            r.wf(),
            r.entries().len() == 3,
            r.handles().len() == 0,
            entry_of(r.entries(), "nginx"@) is Some,
            entry_of(r.entries(), "mariadb"@) is Some,
            entry_of(r.entries(), "phpmyadmin"@) is Some,
            default_entry(entry_of(r.entries(), "nginx"@).unwrap(), "nginx"@, "Nginx"@, Some(8080u16)),
            default_entry(entry_of(r.entries(), "mariadb"@).unwrap(), "mariadb"@, "MariaDB"@, Some(3306u16)),
            default_entry(entry_of(r.entries(), "phpmyadmin"@).unwrap(), "phpmyadmin"@, "phpMyAdmin"@, None),
    {
        let mut r = ServiceRegistry::empty();
        let a = default_info("nginx", "Nginx", Some(8080));
        let b = default_info("mariadb", "MariaDB", Some(3306));
        let c = default_info("phpmyadmin", "phpMyAdmin", None);
        proof {
            lemma_ids_distinct();
        }
        let ghost s0 = r.entries();
        r.upsert(a);
        let ghost s1 = r.entries();
        proof {
            lemma_upserted(s0, a);
            assert(without_id(s0, a.id@) == s0);
        }
        r.upsert(b);
        let ghost s2 = r.entries();
        proof {
            lemma_upserted(s1, b);
            assert(!has_id(s1, b.id@)) by {
                if has_id(s1, b.id@) {
                    let i = index_of(s1, b.id@);
                    assert(s1[i].id@ == a.id@);
                }
            }
        }
        r.upsert(c);
        proof {
            lemma_upserted(s2, c);
            assert(!has_id(s2, c.id@)) by {
                if has_id(s2, c.id@) {
                    let i = index_of(s2, c.id@);
                    lemma_index_of(s2, i);
                    assert(entry_of(s2, c.id@) == entry_of(s1, c.id@));
                    assert(entry_of(s1, c.id@) == entry_of(s0, c.id@));
                }
            }
        }
        r
    }

    /// Reconciliation: every registered entry for which `obs` holds an
    /// observation (the first one listed for its id) is brought up to date
    /// with it, leaving id, name and port alone; then all entries are
    /// returned in order of name.
    pub fn list_all(&mut self, obs: &Vec<(String, Observed)>) -> (r: Vec<ServiceInfo>)
        requires
            old(self).wf(),
        ensures
            final(self).wf(),
            final(self).entries() == reconciled(old(self).entries(), obs@),
            final(self).handles() == old(self).handles(),
            r@ == final(self).entries(),
    {
        let ghost s0 = self.services@;
        let mut i: usize = 0;
        while i < self.services.len()
            invariant
                i <= self.services@.len(),
                self.services@.len() == s0.len(),
                self.children@ == old(self).children@,
                s0 == old(self).services@,
                registry_wf(s0),
                forall|j: int| 0 <= j < i ==> #[trigger] self.services@[j] == reconciled_entry(s0[j], obs@),
                forall|j: int| i <= j < s0.len() ==> #[trigger] self.services@[j] == s0[j],
            decreases s0.len() - i,
        {
            match find_observation(obs, &self.services[i].id) {
                Some(k) => {
                    let e = self.services[i].refresh(&obs[k].1);
                    self.services.set(i, e);
                },
                None => {},
            }
            i = i + 1;
        }
        proof {
            assert(self.services@ =~= reconciled(s0, obs@));
            let t = self.services@;
            assert forall|a: int, c: int| 0 <= a < c < t.len() implies name_le(t[a].name@, t[c].name@)
                && t[a].id@ != t[c].id@ by {
                assert(t[a] == reconciled_entry(s0[a], obs@));
                assert(t[c] == reconciled_entry(s0[c], obs@));
            }
        }
        self.snapshot_all()
    }

    /// Records that a service of kind `k` was started: its process got `pid`
    /// (for the web server, 0 when the PID file could not be read back) and
    /// `o` was observed right after. A process-backed kind is registered
    /// with the started info, and its child handle, if the start produced
    /// one, is kept in place of any earlier one. The admin web app has no
    /// process: nothing is recorded for it.
    pub fn record_start(&mut self, k: &ServiceKind, pid: u32, handle: Option<H>, o: &Observed) -> (r:
        ServiceInfo)
        requires
            old(self).wf(),
        ensures
            final(self).wf(),
            started_info(*k, pid, *o, r),
            has_process(*k) ==> final(self).entries() == upserted(old(self).entries(), r),
            !has_process(*k) ==> final(self).entries() == old(self).entries(),
            (has_process(*k) && handle is Some) ==> final(self).handles().last() == (r.id, handle.unwrap())
                && final(self).handles().drop_last() == without_key(old(self).handles(), r.id@),
            !(has_process(*k) && handle is Some) ==> final(self).handles() == old(self).handles(),
    {
        let info = ServiceInfo::started(k, pid, o);
        match k {
            ServiceKind::PhpMyAdmin => {
                return info;
            },
            _ => {},
        }
        self.upsert(info.snapshot());
        match handle {
            Some(h) => {
                let _ = self.put_handle(info.id.clone(), h);
            },
            None => {},
        }
        info
    }

    /// Records that a service of kind `k` was stopped, with `o` observed
    /// right after. A process-backed kind is registered with the stopped info
    /// and loses its child handle, which is handed back (dropping it does
    /// not end the process). Nothing is recorded for the admin web app.
    pub fn record_stop(&mut self, k: &ServiceKind, o: &Observed) -> (r: (ServiceInfo, Option<H>))
        requires
            old(self).wf(),
        ensures
            final(self).wf(),
            stopped_info(*k, *o, r.0),
            has_process(*k) ==> final(self).entries() == upserted(old(self).entries(), r.0)
                && final(self).handles() == without_key(old(self).handles(), id_of(*k))
                && (r.1 is Some <==> has_key(old(self).handles(), id_of(*k))),
            !has_process(*k) ==> final(self).entries() == old(self).entries() && final(self).handles()
                == old(self).handles() && r.1 is None,
    {
        let info = ServiceInfo::stopped(k, o);
        match k {
            ServiceKind::PhpMyAdmin => {
                return (info, None);
            },
            _ => {},
        }
        let h = self.take_handle(info.id.as_str());
        self.upsert(info.snapshot());
        (info, h)
    }
}

proof fn lemma_entry_of_reconciled(s: Seq<ServiceInfo>, obs: Seq<(String, Observed)>, id: Seq<char>)
    requires
        registry_wf(s),
    ensures
        registry_wf(reconciled(s, obs)),
        has_id(s, id) ==> entry_of(reconciled(s, obs), id) == Some(
            reconciled_entry(entry_of(s, id).unwrap(), obs),
        ),
{
    let t = reconciled(s, obs);
    assert forall|a: int, c: int| 0 <= a < c < t.len() implies name_le(t[a].name@, t[c].name@)
        && t[a].id@ != t[c].id@ by {
        assert(t[a] == reconciled_entry(s[a], obs));
        assert(t[c] == reconciled_entry(s[c], obs));
    }
    if has_id(s, id) {
        let i = index_of(s, id);
        lemma_index_of(s, i);
        assert(t[i] == reconciled_entry(s[i], obs));
        lemma_index_of(t, i);
    }
}

/// Reconciliation is idempotent: a second `list_all` with the same
/// observations and no change in between leaves the registry, and so the
/// returned list, exactly as the first left it, sorted by name.
pub proof fn lemma_list_all_idempotent(s: Seq<ServiceInfo>, obs: Seq<(String, Observed)>)
    requires
        registry_wf(s),
    ensures
        reconciled(reconciled(s, obs), obs) == reconciled(s, obs),
        sorted_by_name(reconciled(s, obs)),
{
    let t = reconciled(s, obs);
    lemma_entry_of_reconciled(s, obs, Seq::empty());
    assert forall|i: int| 0 <= i < t.len() implies #[trigger] reconciled_entry(t[i], obs) == t[i] by {
        assert(t[i] == reconciled_entry(s[i], obs));
    }
    assert(reconciled(t, obs) =~= t);
}

/// After reconciliation, an entry whose driver's observation names a pid
/// exactly when it saw the process running is `Running` exactly when it has
/// a pid.
pub proof fn lemma_reconciled_status_matches_pid(
    s: Seq<ServiceInfo>,
    obs: Seq<(String, Observed)>,
    id: Seq<char>,
)
    requires
        registry_wf(s),
        has_id(s, id),
        observation_for(obs, id) is Some,
        observation_for(obs, id).unwrap().wf(),
    ensures
        entry_of(reconciled(s, obs), id) is Some,
        (entry_of(reconciled(s, obs), id).unwrap().status == ServiceStatus::Running) <==> (entry_of(
            reconciled(s, obs),
            id,
        ).unwrap().pid is Some),
{
    lemma_entry_of_reconciled(s, obs, id);
    let i = index_of(s, id);
    lemma_index_of(s, i);
}

/// After a start of a process-backed service, its entry is `Running` with a
/// pid (for the web server: when a pid was read back or observed); after a
/// `list_all` in which its driver observed it running, still so.
pub proof fn lemma_start_then_list_all(
    s: Seq<ServiceInfo>,
    k: ServiceKind,
    pid: u32,
    o: Observed,
    info: ServiceInfo,
    obs: Seq<(String, Observed)>,
)
    requires
        registry_wf(s),
        has_process(k),
        started_info(k, pid, o, info),
        k is Nginx ==> pid > 0 || o.pid is Some,
        observation_for(obs, id_of(k)) is Some,
        observation_for(obs, id_of(k)).unwrap().wf(),
        observation_for(obs, id_of(k)).unwrap().running,
    ensures
        entry_of(upserted(s, info), id_of(k)) == Some(info),
        info.status == ServiceStatus::Running && info.pid is Some,
        entry_of(reconciled(upserted(s, info), obs), id_of(k)).unwrap().status
            == ServiceStatus::Running,
        entry_of(reconciled(upserted(s, info), obs), id_of(k)).unwrap().pid is Some,
{
    lemma_upserted(s, info);
    lemma_entry_of_reconciled(upserted(s, info), obs, id_of(k));
}

/// After a stop of a process-backed service, its entry is `Stopped` without
/// a pid; after a `list_all` in which its driver observed it not running,
/// still so.
pub proof fn lemma_stop_then_list_all(
    s: Seq<ServiceInfo>,
    k: ServiceKind,
    o: Observed,
    info: ServiceInfo,
    obs: Seq<(String, Observed)>,
)
    requires
        registry_wf(s),
        has_process(k),
        stopped_info(k, o, info),
        observation_for(obs, id_of(k)) is Some,
        !observation_for(obs, id_of(k)).unwrap().running,
    ensures
        entry_of(upserted(s, info), id_of(k)) == Some(info),
        info.status == ServiceStatus::Stopped && info.pid is None,
        entry_of(reconciled(upserted(s, info), obs), id_of(k)).unwrap().status
            == ServiceStatus::Stopped,
        entry_of(reconciled(upserted(s, info), obs), id_of(k)).unwrap().pid is None,
{
    lemma_upserted(s, info);
    lemma_entry_of_reconciled(upserted(s, info), obs, id_of(k));
}

/// A restart is a stop followed by a start. When both succeed, the registry
/// ends exactly as after the start alone: the stop's record leaves no trace.
/// When the start fails after the stop, nothing more is recorded and the
/// entry stays `Stopped` without a pid.
pub proof fn lemma_restart(
    s: Seq<ServiceInfo>,
    k: ServiceKind,
    o_stop: Observed,
    stopped: ServiceInfo,
    pid: u32,
    o_start: Observed,
    started: ServiceInfo,
)
    requires
        registry_wf(s),
        has_process(k),
        stopped_info(k, o_stop, stopped),
        started_info(k, pid, o_start, started),
    ensures
        upserted(upserted(s, stopped), started) == upserted(s, started),
        entry_of(upserted(s, stopped), id_of(k)).unwrap().status == ServiceStatus::Stopped,
        entry_of(upserted(s, stopped), id_of(k)).unwrap().pid is None,
{
    lemma_upserted(s, stopped);
    lemma_without_upserted(s, stopped);
}

proof fn lemma_without_upserted(s: Seq<ServiceInfo>, info: ServiceInfo)
    requires
        registry_wf(s),
    ensures
        without_id(upserted(s, info), info.id@) == without_id(s, info.id@),
{
    let b = without_id(s, info.id@);
    lemma_without_id(s, info.id@);
    lemma_insert_pos(b, info.name@);
    lemma_upserted(s, info);
    let p = insert_pos(b, info.name@) as int;
    let u = upserted(s, info);
    lemma_index_of(u, p);
    assert(u.remove(p) =~= b);
}

} // verus!
