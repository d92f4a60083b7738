//! The block of host entries that the supervisor keeps in the hosts file,
//! between two marker lines, and the state of the local DNS resolver.
use vstd::prelude::*;
use crate::lines::{join_terminated, joined_text, lines, split_words, text_lines, words};
use crate::pid::{trim_str, trimmed};
use crate::text::{contains, str_contains};

verus! {

/// A host name mapped to an address.
#[derive(Clone, Debug)]
pub struct DnsEntry {
    pub domain: String,
    pub ip: String,
}

/// The state of the local resolver for a top-level domain.
#[derive(Clone, Copy, Debug, PartialEq, Eq, Structural)]
pub struct ResolverStatus {
    pub resolver_exists: bool,
    pub dnsmasq_installed: bool,
    pub dnsmasq_running: bool,
    /// Installed, running, and the resolver file is in place.
    pub configured: bool,
}

/// The hosts-file and resolver logic.
pub struct DnsManager;

pub const MARKER_START: &'static str = "# LokcalDev START";
pub const MARKER_END: &'static str = "# LokcalDev END";
pub const SPACE: &'static str = " ";
pub const RESOLVER_NAMESERVER: &'static str = "nameserver 127.0.0.1";
pub const RESOLVER_PORT: &'static str = "port 5353";

/// A line that holds an entry: not empty, not a comment, with at least an
/// address and a name.
pub open spec fn entry_line(t: Seq<char>) -> bool {
    !(t.len() == 0 || t[0] == '#') && words(t).len() >= 2
}

/// The entries (name, address) of the marked block among `ls`.
pub open spec fn block_entries(ls: Seq<Seq<char>>, in_block: bool) -> Seq<(Seq<char>, Seq<char>)>
    decreases ls.len(),
{
    if ls.len() == 0 {
        Seq::empty()
    } else {
        let t = trimmed(ls[0]);
        if t == MARKER_START@ {
            block_entries(ls.drop_first(), true)
        } else if t == MARKER_END@ {
            block_entries(ls.drop_first(), false)
        } else if in_block && entry_line(t) {
            seq![(words(t)[1], words(t)[0])] + block_entries(ls.drop_first(), in_block)
        } else {
            block_entries(ls.drop_first(), in_block)
        }
    }
}

/// The lines of `ls` outside the marked block (markers dropped).
pub open spec fn kept_lines(ls: Seq<Seq<char>>, skip: bool) -> Seq<Seq<char>>
    decreases ls.len(),
{
    if ls.len() == 0 {
        Seq::empty()
    } else {
        let t = trimmed(ls[0]);
        if t == MARKER_START@ {
            kept_lines(ls.drop_first(), true)
        } else if t == MARKER_END@ {
            kept_lines(ls.drop_first(), false)
        } else if skip {
            kept_lines(ls.drop_first(), skip)
        } else {
            seq![ls[0]] + kept_lines(ls.drop_first(), skip)
        }
    }
}

pub open spec fn entry_view(e: DnsEntry) -> (Seq<char>, Seq<char>) {
    (e.domain@, e.ip@)
}

/// The marked block for some entries: an empty line, the start marker, one
/// `address name` line per entry, the end marker; nothing for no entries.
pub open spec fn block_lines(es: Seq<(Seq<char>, Seq<char>)>) -> Seq<Seq<char>> {
    if es.len() == 0 {
        Seq::empty()
    } else {
        seq![Seq::empty(), MARKER_START@] + es.map_values(
            |e: (Seq<char>, Seq<char>)| e.1 + SPACE@ + e.0,
        ) + seq![MARKER_END@]
    }
}

/// The hosts file `content` with its marked block replaced by one for the
/// entries (name, address) `es`.
pub open spec fn hosts_text(content: Seq<char>, es: Seq<(Seq<char>, Seq<char>)>) -> Seq<char> {
    joined_text(kept_lines(text_lines(content), false) + block_lines(es))
}

/// The entries (name, address) `es` without those for `domain`.
pub open spec fn without_domain(es: Seq<(Seq<char>, Seq<char>)>, domain: Seq<char>) -> Seq<
    (Seq<char>, Seq<char>),
>
    decreases es.len(),
{
    if es.len() == 0 {
        es
    } else if es.last().0 == domain {
        without_domain(es.drop_last(), domain)
    } else {
        without_domain(es.drop_last(), domain).push(es.last())
    }
}

pub open spec fn entry_views(es: Seq<DnsEntry>) -> Seq<(Seq<char>, Seq<char>)> {
    es.map_values(|e: DnsEntry| entry_view(e))
}

fn retain_other_domains(es: Vec<DnsEntry>, domain: &str) -> (r: Vec<DnsEntry>)
    ensures
        entry_views(r@) == without_domain(entry_views(es@), domain@),
{
    let d = String::from_str(domain);
    let mut r: Vec<DnsEntry> = Vec::new();
    let mut i: usize = 0;
    while i < es.len()
        invariant
            d@ == domain@,
            i <= es@.len(),
            entry_views(r@) == without_domain(entry_views(es@.subrange(0, i as int)), domain@),
        decreases es@.len() - i,
    {
        let ghost before = r@;
        proof {
            assert(entry_views(es@.subrange(0, i + 1)).drop_last() =~= entry_views(
                es@.subrange(0, i as int),
            ));
            assert(entry_views(es@.subrange(0, i + 1)).last() == entry_view(es@[i as int]));
        }
        if es[i].domain != d {
            r.push(es[i].clone_entry());
            proof {
                assert(entry_views(r@) =~= entry_views(before).push(entry_view(es@[i as int])));
            }
        }
        i = i + 1;
    }
    proof {
        assert(es@.subrange(0, es@.len() as int) =~= es@);
    }
    r
}

impl DnsEntry {
    /// A copy equal to `self`.
    pub fn clone_entry(&self) -> (r: DnsEntry)
        ensures
            r == *self,
    {
        DnsEntry { domain: self.domain.clone(), ip: self.ip.clone() }
    }
}

/// The hosts file `content` with its marked block replaced by one for `es`.
pub fn build_hosts_content(content: &str, es: &Vec<DnsEntry>) -> (r: String)
    ensures
        r@ == hosts_text(content@, entry_views(es@)),
{
    let ls = lines(content);
    let ghost lv = text_lines(content@);
    let mut out: Vec<String> = Vec::new();
    let mut skip = false;
    let mut i: usize = 0;
    proof {
        assert(lv.subrange(0, lv.len() as int) =~= lv);
    }
    while i < ls.len()
        invariant
            ls@.len() == lv.len(),
            forall|k: int| 0 <= k < ls@.len() ==> (#[trigger] ls@[k])@ == lv[k],
            i <= ls@.len(),
            kept_lines(lv, false) == out@.map_values(|x: String| x@) + kept_lines(
                lv.subrange(i as int, lv.len() as int),
                skip,
            ),
        decreases ls@.len() - i,
    {
        let ghost rest = lv.subrange(i as int, lv.len() as int);
        proof {
            assert(rest[0] == lv[i as int]);
            assert(rest.drop_first() =~= lv.subrange(i + 1, lv.len() as int));
        }
        let t = trim_str(ls[i].as_str());
        if t == String::from_str(MARKER_START) {
            skip = true;
        } else if t == String::from_str(MARKER_END) {
            skip = false;
        } else if !skip {
            let ghost before = out@;
            out.push(ls[i].clone());
            proof {
                assert(out@.map_values(|x: String| x@) =~= before.map_values(|x: String| x@).push(
                    lv[i as int],
                ));
            }
        }
        i = i + 1;
    }
    proof {
        assert(lv.subrange(i as int, lv.len() as int) =~= Seq::<Seq<char>>::empty());
        assert(out@.map_values(|x: String| x@) + Seq::empty() =~= out@.map_values(|x: String| x@));
    }
    let ghost kept = out@.map_values(|x: String| x@);
    proof {
        assert(kept == kept_lines(lv, false));
    }
    if es.len() > 0 {
        out.push(String::new());
        out.push(String::from_str(MARKER_START));
        let mut j: usize = 0;
        while j < es.len()
            invariant
                j <= es@.len(),
                out@.map_values(|x: String| x@) == kept + seq![Seq::<char>::empty(), MARKER_START@]
                    + entry_views(es@.subrange(0, j as int)).map_values(
                    |e: (Seq<char>, Seq<char>)| e.1 + SPACE@ + e.0,
                ),
            decreases es@.len() - j,
        {
            let ghost before = out@;
            let mut line = es[j].ip.clone();
            line.append(SPACE);
            line.append(es[j].domain.as_str());
            out.push(line);
            proof {
                assert(entry_views(es@.subrange(0, j + 1)).map_values(
                    |e: (Seq<char>, Seq<char>)| e.1 + SPACE@ + e.0,
                ) =~= entry_views(es@.subrange(0, j as int)).map_values(
                    |e: (Seq<char>, Seq<char>)| e.1 + SPACE@ + e.0,
                ).push(es@[j as int].ip@ + SPACE@ + es@[j as int].domain@));
                assert(out@.map_values(|x: String| x@) =~= before.map_values(|x: String| x@).push(
                    line@,
                ));
            }
            j = j + 1;
        }
        let ghost mid = out@;
        out.push(String::from_str(MARKER_END));
        proof {
            assert(es@.subrange(0, es@.len() as int) =~= es@);
            assert(out@.map_values(|x: String| x@) =~= mid.map_values(|x: String| x@).push(
                MARKER_END@,
            ));
            assert(out@.map_values(|x: String| x@) =~= kept + block_lines(entry_views(es@)));
        }
    } else {
        proof {
            assert(block_lines(entry_views(es@)) =~= Seq::<Seq<char>>::empty());
            assert(out@.map_values(|x: String| x@) =~= kept + block_lines(entry_views(es@)));
        }
    }
    proof {
        assert(out@.map_values(|x: String| x@) =~= kept_lines(lv, false) + block_lines(
            entry_views(es@),
        ));
    }
    join_terminated(&out)
}

/// The resolver file for a top-level domain points at the local resolver.
pub open spec fn resolver_correct(content: Seq<char>) -> bool {
    contains(content, RESOLVER_NAMESERVER@) && contains(content, RESOLVER_PORT@)
}

impl DnsManager {
    /// The new hosts file after mapping `domain` to `ip`: any earlier entry
    /// for `domain` goes, the new one comes last in the block.
    pub fn add_entry(content: &str, domain: &str, ip: &str) -> (r: String)
        ensures
            r@ == hosts_text(
                content@,
                without_domain(block_entries(text_lines(content@), false), domain@).push(
                    (domain@, ip@),
                ),
            ),
    {
        let current = DnsManager::list_entries(content);
        let mut es = retain_other_domains(current, domain);
        let ghost kept = es@;
        let e = DnsEntry { domain: String::from_str(domain), ip: String::from_str(ip) };
        es.push(e);
        proof {
            assert(entry_views(es@) =~= entry_views(kept).push((domain@, ip@)));
        }
        build_hosts_content(content, &es)
    }

    /// The new hosts file without the entry for `domain`, or `None` when the
    /// block has no such entry and nothing changes.
    pub fn remove_entry(content: &str, domain: &str) -> (r: Option<String>)
        ensures
            ({
                let es = block_entries(text_lines(content@), false);
                match r {
                    Some(t) => without_domain(es, domain@).len() != es.len() && t@ == hosts_text(
                        content@,
                        without_domain(es, domain@),
                    ),
                    None => without_domain(es, domain@).len() == es.len(),
                }
            }),
    {
        let current = DnsManager::list_entries(content);
        let before = current.len();
        let es = retain_other_domains(current, domain);
        if es.len() == before {
            return None;
        }
        Some(build_hosts_content(content, &es))
    }

    /// Whether a resolver file's content points at the local resolver.
    pub fn resolver_file_correct(content: &str) -> (r: bool)
        ensures
            r == resolver_correct(content@),
    {
        str_contains(content, RESOLVER_NAMESERVER) && str_contains(content, RESOLVER_PORT)
    }

    /// The resolver's state: the daemon counts as running only when it is
    /// installed (a missing daemon is not probed); configured when it is
    /// installed and running and the resolver file is in place.
    pub fn get_resolver_status(installed: bool, running: bool, resolver_exists: bool) -> (r:
        ResolverStatus)
        ensures
            r.dnsmasq_installed == installed,
            r.dnsmasq_running == (installed && running),
            !installed ==> !r.dnsmasq_running,
            r.resolver_exists == resolver_exists,
            r.configured == (installed && running && resolver_exists),
    {
        ResolverStatus {
            resolver_exists,
            dnsmasq_installed: installed,
            dnsmasq_running: installed && running,
            configured: installed && running && resolver_exists,
        }
    }
}

impl DnsManager {
    /// The entries of the marked block of a hosts file, in order.
    pub fn list_entries(content: &str) -> (r: Vec<DnsEntry>)
        ensures
            entry_views(r@) == block_entries(text_lines(content@), false),
    {
        let ls = lines(content);
        let ghost lv = text_lines(content@);
        let mut r: Vec<DnsEntry> = Vec::new();
        let mut in_block = false;
        let mut i: usize = 0;
        proof {
            assert(lv.subrange(0, lv.len() as int) =~= lv);
        }
        while i < ls.len()
            invariant
                ls@.len() == lv.len(),
                forall|k: int| 0 <= k < ls@.len() ==> (#[trigger] ls@[k])@ == lv[k],
                i <= ls@.len(),
                block_entries(lv, false) == entry_views(r@) + block_entries(lv.subrange(i as int, lv.len() as int), in_block),
            decreases ls@.len() - i,
        {
            let ghost rest = lv.subrange(i as int, lv.len() as int);
            proof {
                assert(rest[0] == lv[i as int]);
                assert(rest.drop_first() =~= lv.subrange(i + 1, lv.len() as int));
            }
            let t = trim_str(ls[i].as_str());
            let is_start = t == String::from_str(MARKER_START);
            let is_end = t == String::from_str(MARKER_END);
            if is_start {
                in_block = true;
            } else if is_end {
                in_block = false;
            } else if in_block {
                let n = t.as_str().unicode_len();
                if n > 0 && t.as_str().get_char(0) != '#' {
                    let parts = split_words(t.as_str());
                    if parts.len() >= 2 {
                        let ghost before = r@;
                        r.push(DnsEntry { domain: parts[1].clone(), ip: parts[0].clone() });
                        proof {
                            assert(entry_views(r@) =~= entry_views(before).push(
                                (words(t@)[1], words(t@)[0]),
                            ));
                        }
                    }
                }
            }
            i = i + 1;
        }
        proof {
            assert(lv.subrange(i as int, lv.len() as int) =~= Seq::<Seq<char>>::empty());
            assert(entry_views(r@) + Seq::empty() =~= entry_views(r@));
        }
        r
    }
}

} // verus!
