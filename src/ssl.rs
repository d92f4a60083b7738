//! Local TLS certificates: where a domain's certificate and key live, and
//! which files of the certificate directory are domain certificates.
use vstd::prelude::*;
use crate::paths::{join_path, join_spec};
use crate::utils::{has_prefix, str_eq};

verus! {

/// A domain's certificate and key, and whether the key is there.
#[derive(Clone, Debug)]
pub struct CertificateInfo {
    pub domain: String,
    pub cert_path: String,
    pub key_path: String,
    pub exists: bool,
}

/// Certificate handling.
pub struct SslManager;

pub const CERT_SUFFIX: &'static str = ".pem";
pub const KEY_SUFFIX: &'static str = "-key.pem";
pub const CA_PREFIX: &'static str = "rootCA";

/// Whether `p` ends `s`.
pub open spec fn has_suffix(s: Seq<char>, p: Seq<char>) -> bool {
    p.len() <= s.len() && s.subrange(s.len() - p.len(), s.len() as int) == p
}

/// `s` with every trailing repetition of `p` removed.
pub open spec fn strip_suffixes(s: Seq<char>, p: Seq<char>) -> Seq<char>
    decreases s.len(),
{
    if p.len() > 0 && has_suffix(s, p) {
        strip_suffixes(s.subrange(0, s.len() - p.len()), p)
    } else {
        s
    }
}

/// The domain whose certificate a file of the certificate directory holds:
/// a `.pem` file that is neither a key nor the authority's own.
pub open spec fn cert_domain_of(name: Seq<char>) -> Option<Seq<char>> {
    if has_suffix(name, CERT_SUFFIX@) && !has_suffix(name, KEY_SUFFIX@) && !has_prefix(name, CA_PREFIX@) {
        Some(strip_suffixes(name, CERT_SUFFIX@))
    } else {
        None
    }
}

fn ends_with(s: &str, p: &str) -> (r: bool)
    ensures
        r == has_suffix(s@, p@),
{
    let n = s.unicode_len();
    let m = p.unicode_len();
    if m > n {
        return false;
    }
    str_eq(s.substring_char(n - m, n), p)
}

fn starts_with(s: &str, p: &str) -> (r: bool)
    ensures
        r == has_prefix(s@, p@),
{
    let n = s.unicode_len();
    let m = p.unicode_len();
    if m > n {
        return false;
    }
    str_eq(s.substring_char(0, m), p)
}

impl SslManager {
    /// The domain of a certificate file's name, if it is a domain
    /// certificate.
    pub fn cert_domain(name: &str) -> (r: Option<String>)
        ensures
            match cert_domain_of(name@) {
                Some(d) => r is Some && r.unwrap()@ == d,
                None => r is None,
            },
    {
        if !(ends_with(name, CERT_SUFFIX) && !ends_with(name, KEY_SUFFIX) && !starts_with(name, CA_PREFIX)) {
            return None;
        }
        let m = CERT_SUFFIX.unicode_len();
        let mut cur: &str = name;
        proof {
            reveal_strlit(".pem");
        }
        while ends_with(cur, CERT_SUFFIX)
            invariant
                m == CERT_SUFFIX@.len(),
                m > 0,
                strip_suffixes(name@, CERT_SUFFIX@) == strip_suffixes(cur@, CERT_SUFFIX@),
            decreases cur@.len(),
        {
            let n = cur.unicode_len();
            cur = cur.substring_char(0, n - m);
        }
        Some(String::from_str(cur))
    }

    /// The certificate record of `domain` in `ssl_dir`.
    pub fn certificate_for(ssl_dir: &str, domain: &str, key_exists: bool) -> (r: CertificateInfo)
        ensures
            r.domain@ == domain@,
            r.cert_path@ == join_spec(ssl_dir@, domain@ + CERT_SUFFIX@),
            r.key_path@ == join_spec(ssl_dir@, domain@ + KEY_SUFFIX@),
            r.exists == key_exists,
    {
        let mut c = String::from_str(domain);
        c.append(CERT_SUFFIX);
        let mut k = String::from_str(domain);
        k.append(KEY_SUFFIX);
        CertificateInfo {
            domain: String::from_str(domain),
            cert_path: join_path(ssl_dir, c.as_str()),
            key_path: join_path(ssl_dir, k.as_str()),
            exists: key_exists,
        }
    }
}

} // verus!
