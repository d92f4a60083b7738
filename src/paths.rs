//! Where the supervisor keeps its files: one private data directory under
//! the user's data directory, with fixed subdirectories.
use vstd::prelude::*;

verus! {

/// `dir` followed by `name`, with one separator between them.
pub open spec fn join_spec(dir: Seq<char>, name: Seq<char>) -> Seq<char> {
    if dir.len() > 0 && dir.last() == '/' {
        dir + name
    } else {
        dir + seq!['/'] + name
    }
}

/// Appends a path component.
pub fn join_path(dir: &str, name: &str) -> (r: String)
    ensures
        r@ == join_spec(dir@, name@),
{
    let n = dir.unicode_len();
    let mut r = String::from_str(dir);
    if n > 0 && dir.get_char(n - 1) == '/' {
        r.append(name);
    } else {
        proof {
            reveal_strlit("/");
            assert("/"@ =~= seq!['/']);
        }
        r.append("/");
        r.append(name);
    }
    r
}

/// Relies on `dirs::data_dir`: the user's data directory, when the platform
/// has one. It depends on the environment, so nothing is stated of it.
#[verifier::external_body]
fn user_data_dir() -> (r: Option<String>) {
    dirs::data_dir().map(|p| p.to_string_lossy().into_owned())
}

/// Relies on `dirs::home_dir`: the user's home directory, when it is known.
/// It depends on the environment, so nothing is stated of it.
#[verifier::external_body]
pub(crate) fn user_home_dir() -> (r: Option<String>) {
    dirs::home_dir().map(|p| p.to_string_lossy().into_owned())
}

/// The private data directory under a user data directory (`/tmp` when
/// there is none).
pub open spec fn data_dir_from(base: Option<Seq<char>>) -> Seq<char> {
    match base {
        Some(b) => join_spec(b, "lokcaldev"@),
        None => join_spec("/tmp"@, "lokcaldev"@),
    }
}

pub open spec fn opt_string_view(s: Option<String>) -> Option<Seq<char>> {
    match s {
        Some(v) => Some(v@),
        None => None,
    }
}

/// The private data directory for a given user data directory.
pub fn data_dir_under(base: Option<String>) -> (r: String)
    ensures
        r@ == data_dir_from(opt_string_view(base)),
{
    match base {
        Some(b) => join_path(b.as_str(), "lokcaldev"),
        None => join_path("/tmp", "lokcaldev"),
    }
}

/// A path under some private data directory: `rel` joined onto it, one
/// component after the other.
pub open spec fn under_data_dir(r: Seq<char>, rel: Seq<Seq<char>>) -> bool {
    exists|base: Option<Seq<char>>| r == join_all(data_dir_from(base), rel)
}

/// `dir` with each of `rel` joined onto it in turn.
pub open spec fn join_all(dir: Seq<char>, rel: Seq<Seq<char>>) -> Seq<char>
    decreases rel.len(),
{
    if rel.len() == 0 {
        dir
    } else {
        join_all(join_spec(dir, rel[0]), rel.drop_first())
    }
}

/// The private data directory of this user.
pub fn get_data_dir() -> (r: String)
    ensures
        under_data_dir(r@, seq![]),
{
    let base = user_data_dir();
    let r = data_dir_under(base);
    proof {
        assert(r@ == join_all(data_dir_from(opt_string_view(base)), seq![]));
    }
    r
}

fn data_subdir(name: &str) -> (r: String)
    ensures
        under_data_dir(r@, seq![name@]),
{
    let base = user_data_dir();
    let d = data_dir_under(base);
    let r = join_path(d.as_str(), name);
    proof {
        let rel = seq![name@];
        let dd = data_dir_from(opt_string_view(base));
        assert(rel.drop_first() =~= Seq::<Seq<char>>::empty());
        assert(join_all(join_spec(dd, name@), rel.drop_first()) == join_spec(dd, name@));
        assert(r@ == join_all(dd, rel));
    }
    r
}

fn data_subdir2(a: &str, b: &str) -> (r: String)
    ensures
        under_data_dir(r@, seq![a@, b@]),
{
    let base = user_data_dir();
    let d = data_dir_under(base);
    let x = join_path(d.as_str(), a);
    let r = join_path(x.as_str(), b);
    proof {
        let rel = seq![a@, b@];
        let dd = data_dir_from(opt_string_view(base));
        let xa = join_spec(dd, a@);
        assert(rel.drop_first() =~= seq![b@]);
        assert(rel.drop_first().drop_first() =~= Seq::<Seq<char>>::empty());
        assert(join_all(join_spec(xa, b@), rel.drop_first().drop_first()) == join_spec(xa, b@));
        assert(join_all(xa, rel.drop_first()) == join_spec(xa, b@));
        assert(r@ == join_all(dd, rel));
    }
    r
}

/// `config` under the data directory.
pub fn get_config_dir() -> (r: String)
    ensures
        under_data_dir(r@, seq!["config"@]),
{
    data_subdir("config")
}

/// `logs` under the data directory.
pub fn get_logs_dir() -> (r: String)
    ensures
        under_data_dir(r@, seq!["logs"@]),
{
    data_subdir("logs")
}

/// `ssl` under the data directory.
pub fn get_ssl_dir() -> (r: String)
    ensures
        under_data_dir(r@, seq!["ssl"@]),
{
    data_subdir("ssl")
}

/// `binaries` under the data directory.
pub fn get_binaries_dir() -> (r: String)
    ensures
        under_data_dir(r@, seq!["binaries"@]),
{
    data_subdir("binaries")
}

/// `binaries/php` under the data directory.
pub fn get_php_dir() -> (r: String)
    ensures
        under_data_dir(r@, seq!["binaries"@, "php"@]),
{
    data_subdir2("binaries", "php")
}

/// `binaries/nginx` under the data directory.
pub fn get_nginx_dir() -> (r: String)
    ensures
        under_data_dir(r@, seq!["binaries"@, "nginx"@]),
{
    data_subdir2("binaries", "nginx")
}

/// `binaries/mariadb` under the data directory.
pub fn get_mariadb_dir() -> (r: String)
    ensures
        under_data_dir(r@, seq!["binaries"@, "mariadb"@]),
{
    data_subdir2("binaries", "mariadb")
}

/// `binaries/mkcert` under the data directory.
pub fn get_mkcert_dir() -> (r: String)
    ensures
        under_data_dir(r@, seq!["binaries"@, "mkcert"@]),
{
    data_subdir2("binaries", "mkcert")
}

/// `sites` under the data directory.
pub fn get_sites_dir() -> (r: String)
    ensures
        under_data_dir(r@, seq!["sites"@]),
{
    data_subdir("sites")
}

/// `config/nginx` under the data directory.
pub fn get_nginx_config_dir() -> (r: String)
    ensures
        under_data_dir(r@, seq!["config"@, "nginx"@]),
{
    data_subdir2("config", "nginx")
}

/// `phpmyadmin` under the data directory.
pub fn get_phpmyadmin_dir() -> (r: String)
    ensures
        under_data_dir(r@, seq!["phpmyadmin"@]),
{
    data_subdir("phpmyadmin")
}

} // verus!

verus! {

/// Path `p` is `dir` or lies under it, component by component (`/a/logs2`
/// is not under `/a/logs`).
pub open spec fn within_dir(dir: Seq<char>, p: Seq<char>) -> bool {
    &&& dir.len() <= p.len()
    &&& p.subrange(0, dir.len() as int) == dir
    &&& (p.len() == dir.len() || (dir.len() > 0 && dir.last() == '/') || p[dir.len() as int] == '/')
}

/// Whether resolved path `p` lies inside resolved directory `dir`; a log
/// file outside the logs directory is refused.
pub fn path_within(dir: &str, p: &str) -> (r: bool)
    ensures
        r == within_dir(dir@, p@),
{
    let n = dir.unicode_len();
    let m = p.unicode_len();
    if n > m {
        return false;
    }
    if !crate::utils::str_eq(p.substring_char(0, n), dir) {
        return false;
    }
    m == n || (n > 0 && dir.get_char(n - 1) == '/') || p.get_char(n) == '/'
}

} // verus!
