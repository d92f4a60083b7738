//! The web server's generated configuration: the main file, its admin
//! web-app route, the per-site files, and the decision whether the main file
//! must be rewritten.
use vstd::prelude::*;
use crate::drivers::PhpVersion;
use crate::text::{contains, decimal, decimal_string, occurs_at, str_contains};
use crate::utils::{fpm_port_of, php_version_to_port};

verus! {

pub const MAIN_USER: &'static str = "user ";
pub const MAIN_USER_LINE: &'static str = "\nuser ";
pub const FASTCGI_PASS: &'static str = "fastcgi_pass";
pub const FASTCGI_TARGET: &'static str = "fastcgi_pass 127.0.0.1:";
pub const ADMIN_ROUTE: &'static str = "^~ /phpmyadmin";

pub const M1: &'static str = " ";
pub const M2: &'static str = ";\nworker_processes auto;\npid \"";
pub const M3: &'static str = "\";\nerror_log \"";
pub const M4: &'static str = "\" warn;\n\nevents {\n    worker_connections 256;\n}\n\nhttp {\n    include       \"";
pub const M5: &'static str = "\";\n    default_type  application/octet-stream;\n\n    log_format  main  '$remote_addr - $remote_user [$time_local] \"$request\" '\n                      '$status $body_bytes_sent \"$http_referer\" '\n                      '\"$http_user_agent\"';\n\n    access_log  \"";
pub const M6: &'static str = "\"  main;\n\n    sendfile        on;\n    tcp_nopush      on;\n    keepalive_timeout  65;\n    gzip  on;\n\n    include \"";
pub const M7: &'static str = "/*.conf\";\n\n    server {\n        listen 80 default_server;\n        server_name localhost;\n        root \"";
pub const M8: &'static str = "\";\n        index index.php index.html index.htm;\n\n        location / {\n            try_files $uri $uri/ /index.php?$query_string;\n        }\n\n        location ~ \\.php$ {\n            try_files $uri =404;\n            ";
pub const M10: &'static str = ";\n            fastcgi_index index.php;\n            include \"";
pub const M11: &'static str = "\";\n        }\n\n        location ~ /\\.ht {\n            deny all;\n        }";
pub const M12: &'static str = "\n    }\n}\n";

pub const A0: &'static str = "\n\n        location ";
pub const A2: &'static str = " {\n            root \"";
pub const A3: &'static str = "\";\n            index index.php;\n\n            location ~ \\.php$ {\n                root \"";
pub const A4: &'static str = "\";\n                ";
pub const A5: &'static str = ";\n                fastcgi_index index.php;\n                include \"";
pub const A6: &'static str = "\";\n            }\n        }";

/// What the main configuration file is made from.
pub struct MainConfig {
    pub username: String,
    pub groupname: String,
    pub pid_path: String,
    pub error_log: String,
    pub mime_types: String,
    pub access_log: String,
    pub sites_enabled: String,
    pub default_root: String,
    pub fastcgi_params: String,
    pub php_port: u16,
    /// The admin web-app route, empty when the app is not installed.
    pub phpmyadmin_location: String,
}

/// The text of the main configuration file.
pub open spec fn main_config_text(c: MainConfig) -> Seq<char> {
    MAIN_USER@ + c.username@ + M1@ + c.groupname@ + M2@ + c.pid_path@ + M3@ + c.error_log@ + M4@
        + c.mime_types@ + M5@ + c.access_log@ + M6@ + c.sites_enabled@ + M7@ + c.default_root@
        + M8@ + FASTCGI_TARGET@ + decimal(c.php_port as nat) + M10@ + c.fastcgi_params@ + M11@
        + c.phpmyadmin_location@ + M12@
}

/// The admin web-app route of the default server.
pub open spec fn admin_location_text(root: Seq<char>, port: u16, fastcgi_params: Seq<char>) -> Seq<
    char,
> {
    A0@ + ADMIN_ROUTE@ + A2@ + root + A3@ + root + A4@ + FASTCGI_TARGET@ + decimal(port as nat)
        + A5@ + fastcgi_params + A6@
}

impl MainConfig {
    /// Renders the main configuration file.
    pub fn render(&self) -> (r: String)
        ensures
            r@ == main_config_text(*self),
    {
        let mut s = String::from_str(MAIN_USER);
        s.append(self.username.as_str());
        s.append(M1);
        s.append(self.groupname.as_str());
        s.append(M2);
        s.append(self.pid_path.as_str());
        s.append(M3);
        s.append(self.error_log.as_str());
        s.append(M4);
        s.append(self.mime_types.as_str());
        s.append(M5);
        s.append(self.access_log.as_str());
        s.append(M6);
        s.append(self.sites_enabled.as_str());
        s.append(M7);
        s.append(self.default_root.as_str());
        s.append(M8);
        s.append(FASTCGI_TARGET);
        let port = decimal_string(self.php_port as u32);
        s.append(port.as_str());
        s.append(M10);
        s.append(self.fastcgi_params.as_str());
        s.append(M11);
        s.append(self.phpmyadmin_location.as_str());
        s.append(M12);
        s
    }
}

/// The route that serves the admin web app from `root` (the directory that
/// holds it), through the FPM on `port`; empty when the app is not
/// installed.
pub fn phpmyadmin_location_block(installed: bool, root: &str, port: u16, fastcgi_params: &str) -> (r:
    String)
    ensures
        installed ==> r@ == admin_location_text(root@, port, fastcgi_params@),
        !installed ==> r@.len() == 0,
{
    if !installed {
        return String::new();
    }
    let mut s = String::from_str(A0);
    s.append(ADMIN_ROUTE);
    s.append(A2);
    s.append(root);
    s.append(A3);
    s.append(root);
    s.append(A4);
    s.append(FASTCGI_TARGET);
    let p = decimal_string(port as u32);
    s.append(p.as_str());
    s.append(A5);
    s.append(fastcgi_params);
    s.append(A6);
    s
}

/// Whether the main file says what it should: it passes PHP to the FPM on
/// `port`, sets the user directive, and has the admin route exactly when the
/// admin app is installed.
pub open spec fn config_current(existing: Seq<char>, admin_installed: bool, port: u16) -> bool {
    &&& contains(existing, FASTCGI_PASS@)
    &&& (has_user_line(existing))
    &&& admin_installed == contains(existing, ADMIN_ROUTE@)
    &&& contains(existing, FASTCGI_TARGET@ + decimal(port as nat))
}

/// The file opens with, or has on a line of its own, a user directive.
pub open spec fn has_user_line(existing: Seq<char>) -> bool {
    occurs_at(existing, MAIN_USER@, 0) || contains(existing, MAIN_USER_LINE@)
}

/// Whether the main configuration must be (re)written: it is missing, or it
/// is not current.
pub fn needs_config(existing: Option<&str>, admin_installed: bool, port: u16) -> (r: bool)
    ensures
        r == match existing {
            None => true,
            Some(e) => !config_current(e@, admin_installed, port),
        },
{
    match existing {
        None => true,
        Some(e) => {
            let has_pass = str_contains(e, FASTCGI_PASS);
            let has_user = starts_with_user(e) || str_contains(e, MAIN_USER_LINE);
            let has_admin = str_contains(e, ADMIN_ROUTE);
            let mut target = String::from_str(FASTCGI_TARGET);
            let p = decimal_string(port as u32);
            target.append(p.as_str());
            let has_target = str_contains(e, target.as_str());
            !(has_pass && has_user && admin_installed == has_admin && has_target)
        },
    }
}

fn starts_with_user(e: &str) -> (r: bool)
    ensures
        r == occurs_at(e@, MAIN_USER@, 0),
{
    let n = e.unicode_len();
    let m = MAIN_USER.unicode_len();
    if m > n {
        return false;
    }
    let head = e.substring_char(0, m);
    crate::utils::str_eq(head, MAIN_USER)
}

proof fn lemma_contains_part(a: Seq<char>, b: Seq<char>, c: Seq<char>)
    ensures
        contains(a + b + c, b),
        occurs_at(a + b + c, b, a.len() as int),
{
    assert((a + b + c).subrange(a.len() as int, (a.len() + b.len()) as int) =~= b);
    assert(occurs_at(a + b + c, b, a.len() as int));
}

/// A freshly rendered main file passes PHP to the FPM on its port and sets
/// the user directive, and it holds the admin route when one was rendered
/// into it; so the checks that decide a rewrite find those markers.
pub proof fn lemma_rendered_config_markers(c: MainConfig)
    ensures
        occurs_at(main_config_text(c), MAIN_USER@, 0),
        has_user_line(main_config_text(c)),
        contains(main_config_text(c), FASTCGI_TARGET@ + decimal(c.php_port as nat)),
        contains(main_config_text(c), FASTCGI_PASS@),
        c.phpmyadmin_location@.len() > 0 && contains(c.phpmyadmin_location@, ADMIN_ROUTE@) ==> contains(
            main_config_text(c),
            ADMIN_ROUTE@,
        ),
{
    let t = main_config_text(c);
    let pre = MAIN_USER@ + c.username@ + M1@ + c.groupname@ + M2@ + c.pid_path@ + M3@ + c.error_log@
        + M4@ + c.mime_types@ + M5@ + c.access_log@ + M6@ + c.sites_enabled@ + M7@
        + c.default_root@ + M8@;
    let target = FASTCGI_TARGET@ + decimal(c.php_port as nat);
    let post = M10@ + c.fastcgi_params@ + M11@ + c.phpmyadmin_location@ + M12@;
    assert(t =~= pre + target + post);
    lemma_contains_part(pre, target, post);
    assert(t.subrange(0, MAIN_USER@.len() as int) =~= MAIN_USER@);
    reveal_strlit("fastcgi_pass");
    reveal_strlit("fastcgi_pass 127.0.0.1:");
    let i = pre.len() as int;
    assert(t.subrange(i, i + FASTCGI_PASS@.len()) =~= FASTCGI_PASS@) by {
        assert(t.subrange(i, i + target.len()) =~= target);
        assert(target.subrange(0, FASTCGI_PASS@.len() as int) =~= FASTCGI_PASS@);
    }
    assert(occurs_at(t, FASTCGI_PASS@, i));
    if c.phpmyadmin_location@.len() > 0 && contains(c.phpmyadmin_location@, ADMIN_ROUTE@) {
        let pre2 = pre + target + M10@ + c.fastcgi_params@ + M11@;
        let l = c.phpmyadmin_location@;
        assert(t =~= pre2 + l + M12@);
        let k = choose|k: int| occurs_at(l, ADMIN_ROUTE@, k);
        let j = pre2.len() + k;
        assert(t.subrange(j, j + ADMIN_ROUTE@.len()) =~= l.subrange(k, k + ADMIN_ROUTE@.len()));
        assert(occurs_at(t, ADMIN_ROUTE@, j));
    }
}

/// The rendered admin route holds its marker.
pub proof fn lemma_admin_location_marker(root: Seq<char>, port: u16, fastcgi_params: Seq<char>)
    ensures
        admin_location_text(root, port, fastcgi_params).len() > 0,
        contains(admin_location_text(root, port, fastcgi_params), ADMIN_ROUTE@),
{
    let t = admin_location_text(root, port, fastcgi_params);
    let rest = A2@ + root + A3@ + root + A4@ + FASTCGI_TARGET@ + decimal(port as nat) + A5@
        + fastcgi_params + A6@;
    assert(t =~= A0@ + ADMIN_ROUTE@ + rest);
    lemma_contains_part(A0@, ADMIN_ROUTE@, rest);
    reveal_strlit("^~ /phpmyadmin");
}

/// The port of the FPM that the web server should pass PHP to: that of the
/// first running runtime, else that of the first installed one, else 9081.
pub open spec fn active_fpm_port(vs: Seq<PhpVersion>) -> u16
    decreases vs.len(),
{
    match first_index(vs, true) {
        Some(i) => fpm_port_of(vs[i].version@),
        None => match first_index(vs, false) {
            Some(i) => fpm_port_of(vs[i].version@),
            None => 9081,
        },
    }
}

/// The first runtime that is running (`running`), or installed (otherwise).
pub open spec fn first_index(vs: Seq<PhpVersion>, running: bool) -> Option<int> {
    if exists|i: int| 0 <= i < vs.len() && picks(vs[i], running) {
        Some(choose|i: int| 0 <= i < vs.len() && picks(vs[i], running) && forall|k: int| 0 <= k < i ==> !picks(#[trigger] vs[k], running))
    } else {
        None
    }
}

pub open spec fn picks(p: PhpVersion, running: bool) -> bool {
    if running {
        p.running
    } else {
        p.installed
    }
}

fn first_picked(vs: &Vec<PhpVersion>, running: bool) -> (r: Option<usize>)
    ensures
        r is Some ==> r.unwrap() < vs@.len() && picks(vs@[r.unwrap() as int], running) && forall|k: int|
            0 <= k < r.unwrap() ==> !picks(#[trigger] vs@[k], running),
        r is None ==> forall|k: int| 0 <= k < vs@.len() ==> !picks(#[trigger] vs@[k], running),
{
    let mut i: usize = 0;
    while i < vs.len()
        invariant
            i <= vs@.len(),
            forall|k: int| 0 <= k < i ==> !picks(#[trigger] vs@[k], running),
        decreases vs@.len() - i,
    {
        let hit = if running {
            vs[i].running
        } else {
            vs[i].installed
        };
        if hit {
            return Some(i);
        }
        i = i + 1;
    }
    None
}

proof fn lemma_first_index(vs: Seq<PhpVersion>, running: bool, i: int)
    requires
        0 <= i < vs.len(),
        picks(vs[i], running),
        forall|k: int| 0 <= k < i ==> !picks(#[trigger] vs[k], running),
    ensures
        first_index(vs, running) == Some(i),
{
    let j = choose|j: int| 0 <= j < vs.len() && picks(vs[j], running) && forall|k: int| 0 <= k < j ==> !picks(#[trigger] vs[k], running);
    assert(picks(vs[i], running));
    if j < i {
        assert(!picks(vs[j], running));
    } else if j > i {
        assert(!picks(vs[i], running));
    }
}

/// Finds the FPM port the web server should pass PHP to.
pub fn detect_php_fpm_port(versions: &Vec<PhpVersion>) -> (r: u16)
    ensures
        r == active_fpm_port(versions@),
{
    match first_picked(versions, true) {
        Some(i) => {
            proof {
                lemma_first_index(versions@, true, i as int);
            }
            php_version_to_port(versions[i].version.as_str())
        },
        None => match first_picked(versions, false) {
            Some(i) => {
                proof {
                    lemma_first_index(versions@, false, i as int);
                }
                php_version_to_port(versions[i].version.as_str())
            },
            None => 9081,
        },
    }
}

} // verus!

verus! {

pub open spec fn no_caret(s: Seq<char>) -> bool {
    forall|i: int| 0 <= i < s.len() ==> s[i] != '^'
}

proof fn lemma_literals_no_caret()
    ensures
        no_caret(MAIN_USER@),
        no_caret(FASTCGI_TARGET@),
        no_caret(M1@),
        no_caret(M2@),
        no_caret(M3@),
        no_caret(M4@),
        no_caret(M5@),
        no_caret(M6@),
        no_caret(M7@),
        no_caret(M8@),
        no_caret(M10@),
        no_caret(M11@),
        no_caret(M12@),
{
    reveal_strlit("user ");
    reveal_strlit("fastcgi_pass 127.0.0.1:");
    reveal_strlit(" ");
    reveal_strlit(";\nworker_processes auto;\npid \"");
    reveal_strlit("\";\nerror_log \"");
    reveal_strlit("\" warn;\n\nevents {\n    worker_connections 256;\n}\n\nhttp {\n    include       \"");
    reveal_strlit("\";\n    default_type  application/octet-stream;\n\n    log_format  main  '$remote_addr - $remote_user [$time_local] \"$request\" '\n                      '$status $body_bytes_sent \"$http_referer\" '\n                      '\"$http_user_agent\"';\n\n    access_log  \"");
    reveal_strlit("\"  main;\n\n    sendfile        on;\n    tcp_nopush      on;\n    keepalive_timeout  65;\n    gzip  on;\n\n    include \"");
    reveal_strlit("/*.conf\";\n\n    server {\n        listen 80 default_server;\n        server_name localhost;\n        root \"");
    reveal_strlit("\";\n        index index.php index.html index.htm;\n\n        location / {\n            try_files $uri $uri/ /index.php?$query_string;\n        }\n\n        location ~ \\.php$ {\n            try_files $uri =404;\n            ");
    reveal_strlit(";\n            fastcgi_index index.php;\n            include \"");
    reveal_strlit("\";\n        }\n\n        location ~ /\\.ht {\n            deny all;\n        }");
    reveal_strlit("\n    }\n}\n");
}

proof fn lemma_no_caret_concat(a: Seq<char>, b: Seq<char>)
    requires
        no_caret(a),
        no_caret(b),
    ensures
        no_caret(a + b),
{
    assert forall|i: int| 0 <= i < (a + b).len() implies (a + b)[i] != '^' by {
        if i < a.len() {
            assert((a + b)[i] == a[i]);
        } else {
            assert((a + b)[i] == b[i - a.len()]);
        }
    }
}

proof fn lemma_decimal_no_caret(n: nat)
    ensures
        no_caret(decimal(n)),
    decreases n,
{
    if n >= 10 {
        lemma_decimal_no_caret(n / 10);
        let d = decimal(n / 10);
        assert forall|i: int| 0 <= i < decimal(n).len() implies decimal(n)[i] != '^' by {
            if i < d.len() {
                assert(decimal(n)[i] == d[i]);
            }
        }
    }
}

/// The fields of a main configuration hold no `^`, the character that opens
/// the admin route's marker (paths, user and group names never do).
pub open spec fn plain_fields(c: MainConfig) -> bool {
    &&& no_caret(c.username@)
    &&& no_caret(c.groupname@)
    &&& no_caret(c.pid_path@)
    &&& no_caret(c.error_log@)
    &&& no_caret(c.mime_types@)
    &&& no_caret(c.access_log@)
    &&& no_caret(c.sites_enabled@)
    &&& no_caret(c.default_root@)
    &&& no_caret(c.fastcgi_params@)
}

/// A freshly rendered main configuration is current: rendered for port `p`
/// with the admin route exactly when the admin app is installed, it needs no
/// rewrite for that port and that admin state. Regeneration is idempotent.
pub proof fn lemma_rendered_config_current(c: MainConfig, admin_installed: bool, root: Seq<char>)
    requires
        plain_fields(c),
        admin_installed ==> c.phpmyadmin_location@ == admin_location_text(root, c.php_port, c.fastcgi_params@),
        !admin_installed ==> c.phpmyadmin_location@.len() == 0,
    ensures
        config_current(main_config_text(c), admin_installed, c.php_port),
{
    lemma_rendered_config_markers(c);
    if admin_installed {
        lemma_admin_location_marker(root, c.php_port, c.fastcgi_params@);
    } else {
        let t = main_config_text(c);
        lemma_literals_no_caret();
        lemma_decimal_no_caret(c.php_port as nat);
        assert(c.phpmyadmin_location@ =~= Seq::<char>::empty());
        assert(no_caret(Seq::<char>::empty()));
        let a0 = MAIN_USER@;
        lemma_no_caret_concat(a0, c.username@);
        let a1 = a0 + c.username@;
        lemma_no_caret_concat(a1, M1@);
        let a2 = a1 + M1@;
        lemma_no_caret_concat(a2, c.groupname@);
        let a3 = a2 + c.groupname@;
        lemma_no_caret_concat(a3, M2@);
        let a4 = a3 + M2@;
        lemma_no_caret_concat(a4, c.pid_path@);
        let a5 = a4 + c.pid_path@;
        lemma_no_caret_concat(a5, M3@);
        let a6 = a5 + M3@;
        lemma_no_caret_concat(a6, c.error_log@);
        let a7 = a6 + c.error_log@;
        lemma_no_caret_concat(a7, M4@);
        let a8 = a7 + M4@;
        lemma_no_caret_concat(a8, c.mime_types@);
        let a9 = a8 + c.mime_types@;
        lemma_no_caret_concat(a9, M5@);
        let a10 = a9 + M5@;
        lemma_no_caret_concat(a10, c.access_log@);
        let a11 = a10 + c.access_log@;
        lemma_no_caret_concat(a11, M6@);
        let a12 = a11 + M6@;
        lemma_no_caret_concat(a12, c.sites_enabled@);
        let a13 = a12 + c.sites_enabled@;
        lemma_no_caret_concat(a13, M7@);
        let a14 = a13 + M7@;
        lemma_no_caret_concat(a14, c.default_root@);
        let a15 = a14 + c.default_root@;
        lemma_no_caret_concat(a15, M8@);
        let a16 = a15 + M8@;
        lemma_no_caret_concat(a16, FASTCGI_TARGET@);
        let a17 = a16 + FASTCGI_TARGET@;
        lemma_no_caret_concat(a17, decimal(c.php_port as nat));
        let a18 = a17 + decimal(c.php_port as nat);
        lemma_no_caret_concat(a18, M10@);
        let a19 = a18 + M10@;
        lemma_no_caret_concat(a19, c.fastcgi_params@);
        let a20 = a19 + c.fastcgi_params@;
        lemma_no_caret_concat(a20, M11@);
        let a21 = a20 + M11@;
        lemma_no_caret_concat(a21, c.phpmyadmin_location@);
        let a22 = a21 + c.phpmyadmin_location@;
        lemma_no_caret_concat(a22, M12@);
        let a23 = a22 + M12@;
        assert(t == a23);
        if contains(t, ADMIN_ROUTE@) {
            reveal_strlit("^~ /phpmyadmin");
            let j = choose|j: int| occurs_at(t, ADMIN_ROUTE@, j);
            assert(t.subrange(j, j + ADMIN_ROUTE@.len())[0] == '^');
            assert(false);
        }
    }
}
} // verus!
