//! Site templates: the database name a template's site gets.
use vstd::prelude::*;
use crate::database::{alphanumeric, is_alphanumeric};

verus! {

/// Sets up site templates.
pub struct TemplateManager;

/// What `str::to_lowercase` makes of a text.
pub uninterp spec fn lower_of(s: Seq<char>) -> Seq<char>;

/// Relies on `str::to_lowercase`: the lowercase mapping of each character
/// (the result depends on the text alone); the empty text stays empty.
#[verifier::external_body]
pub(crate) fn lowercase(s: &str) -> (r: String)
    ensures
        r@ == lower_of(s@),
        s@.len() == 0 ==> r@.len() == 0,
{
    s.to_lowercase()
}

/// Every character that is not alphanumeric replaced by `_`.
pub open spec fn underscored(s: Seq<char>) -> Seq<char> {
    s.map_values(|c: char| if alphanumeric(c) {
        c
    } else {
        '_'
    })
}

/// `s` without its leading underscores.
pub open spec fn strip_underscores(s: Seq<char>) -> Seq<char>
    decreases s.len(),
{
    if s.len() > 0 && s[0] == '_' {
        strip_underscores(s.drop_first())
    } else {
        s
    }
}

/// The database name for an already lowercased site name: `wp_` before its
/// alphanumeric form without leading underscores, or `wordpress` when
/// nothing is left.
pub open spec fn db_name_for(lowered: Seq<char>) -> Seq<char> {
    let t = strip_underscores(underscored(lowered));
    if t.len() == 0 {
        "wordpress"@
    } else {
        "wp_"@ + t
    }
}

impl TemplateManager {
    /// The database name for a site whose name was already lowercased.
    pub fn db_name_from_lowered(lowered: &str) -> (r: String)
        ensures
            r@ == db_name_for(lowered@),
    {
        let n = lowered.unicode_len();
        let mut u = String::new();
        let mut i: usize = 0;
        while i < n
            invariant
                n == lowered@.len(),
                i <= n,
                u@ == underscored(lowered@.subrange(0, i as int)),
            decreases n - i,
        {
            let c = lowered.get_char(i);
            if is_alphanumeric(c) {
                let piece = lowered.substring_char(i, i + 1);
                proof {
                    assert(piece@ =~= seq![c]);
                }
                u.append(piece);
            } else {
                proof {
                    reveal_strlit("_");
                    assert("_"@ =~= seq!['_']);
                }
                u.append("_");
            }
            proof {
                assert(underscored(lowered@.subrange(0, i + 1)) =~= underscored(
                    lowered@.subrange(0, i as int),
                ).push(if alphanumeric(c) {
                    c
                } else {
                    '_'
                }));
            }
            i = i + 1;
        }
        proof {
            assert(lowered@.subrange(0, n as int) =~= lowered@);
        }
        let m = u.as_str().unicode_len();
        let mut k: usize = 0;
        proof {
            assert(u@.subrange(0, m as int) =~= u@);
        }
        while k < m && u.as_str().get_char(k) == '_'
            invariant
                m == u@.len(),
                k <= m,
                strip_underscores(u@) == strip_underscores(u@.subrange(k as int, m as int)),
            decreases m - k,
        {
            proof {
                assert(u@.subrange(k as int, m as int).drop_first() =~= u@.subrange(k + 1, m as int));
            }
            k = k + 1;
        }
        if k == m {
            proof {
                assert(u@.subrange(k as int, m as int) =~= Seq::<char>::empty());
            }
            String::from_str("wordpress")
        } else {
            let mut r = String::from_str("wp_");
            r.append(u.as_str().substring_char(k, m));
            r
        }
    }

    /// The database name for a site: its name lowercased, every other
    /// character than letters and digits made `_`, leading underscores
    /// dropped, and `wp_` put before it (`wordpress` when nothing is left).
    pub fn sanitize_db_name(name: &str) -> (r: String)
        ensures
            r@ == db_name_for(lower_of(name@)),
    {
        let lowered = lowercase(name);
        TemplateManager::db_name_from_lowered(lowered.as_str())
    }
}

} // verus!
