//! The web server's configuration file for one site.
use vstd::prelude::*;
use crate::nginx_conf::FASTCGI_TARGET;
use crate::text::{decimal, decimal_string, forward_slashed, replace_backslashes};

verus! {

pub const R0: &'static str = "server {\n    listen 80;\n    server_name ";
pub const R1: &'static str = ";\n    return 301 https://$host$request_uri;\n}\n\n";
pub const S0: &'static str = "server {\n    listen ";
pub const S_TLS: &'static str = "443 ssl";
pub const S_PLAIN: &'static str = "80";
pub const S1: &'static str = ";\n    server_name ";
pub const S2: &'static str = ";\n";
pub const T0: &'static str = "    ssl_certificate \"";
pub const T1: &'static str = "\";\n    ssl_certificate_key \"";
pub const T2: &'static str = "\";\n    ssl_protocols TLSv1.2 TLSv1.3;\n    ssl_ciphers HIGH:!aNULL:!MD5;\n";
pub const B0: &'static str = "    root \"";
pub const B1: &'static str = "\";\n    index index.php index.html index.htm;\n\n    access_log \"";
pub const B2: &'static str = "/";
pub const B3: &'static str = "-access.log\";\n    error_log \"";
pub const B4: &'static str = "-error.log\";\n\n    location / {\n        try_files $uri $uri/ /index.php?$query_string;\n    }\n\n    location ~ \\.php$ {\n        try_files $uri =404;\n        ";
pub const B5: &'static str = ";\n        fastcgi_index index.php;\n        include \"";
pub const B6: &'static str = "\";\n    }\n\n    location ~ /\\.ht {\n        deny all;\n    }\n";
pub const ADM0: &'static str = "\n    location ^~ /phpmyadmin {\n        root \"";
pub const ADM1: &'static str = "\";\n        index index.php;\n\n        location ~ \\.php$ {\n            root \"";
pub const ADM2: &'static str = "\";\n            ";
pub const ADM3: &'static str = ";\n            fastcgi_index index.php;\n            include \"";
pub const ADM4: &'static str = "\";\n        }\n    }\n";
pub const E0: &'static str = "}\n";

/// Generates the web server's per-site configuration files.
pub struct NginxConfigGenerator;

/// The HTTP-to-HTTPS redirect that precedes a TLS site.
pub open spec fn redirect_text(ssl: bool, domain: Seq<char>) -> Seq<char> {
    if ssl {
        R0@ + domain + R1@
    } else {
        Seq::empty()
    }
}

/// The certificate lines of a TLS site that has both certificate and key.
pub open spec fn tls_text(ssl: bool, cert: Option<Seq<char>>, key: Option<Seq<char>>) -> Seq<char> {
    if ssl && cert is Some && key is Some {
        T0@ + forward_slashed(cert.unwrap()) + T1@ + forward_slashed(key.unwrap()) + T2@
    } else {
        Seq::empty()
    }
}

/// The admin web-app route of a site, when the app is installed in `root`.
pub open spec fn site_admin_text(root: Option<Seq<char>>, port: u16, fcp: Seq<char>) -> Seq<char> {
    match root {
        Some(r) => ADM0@ + forward_slashed(r) + ADM1@ + forward_slashed(r) + ADM2@ + FASTCGI_TARGET@
            + decimal(port as nat) + ADM3@ + forward_slashed(fcp) + ADM4@,
        None => Seq::empty(),
    }
}

/// The opening of a site's server block.
pub open spec fn head_text(ssl: bool, domain: Seq<char>) -> Seq<char> {
    S0@ + (if ssl {
        S_TLS@
    } else {
        S_PLAIN@
    }) + S1@ + domain + S2@
}

/// Root, logs and PHP handling of a site.
pub open spec fn body_text(
    domain: Seq<char>,
    document_root: Seq<char>,
    php_port: u16,
    fastcgi_params: Seq<char>,
    log_dir: Seq<char>,
) -> Seq<char> {
    B0@ + forward_slashed(document_root) + B1@ + forward_slashed(log_dir) + B2@ + domain + B3@
        + forward_slashed(log_dir) + B2@ + domain + B4@ + FASTCGI_TARGET@ + decimal(php_port as nat)
        + B5@ + forward_slashed(fastcgi_params) + B6@
}

/// The configuration of one site. Every path is written with forward
/// slashes.
pub open spec fn site_config_text(
    domain: Seq<char>,
    document_root: Seq<char>,
    php_port: u16,
    ssl: bool,
    cert: Option<Seq<char>>,
    key: Option<Seq<char>>,
    fastcgi_params: Seq<char>,
    log_dir: Seq<char>,
    admin_root: Option<Seq<char>>,
) -> Seq<char> {
    redirect_text(ssl, domain) + head_text(ssl, domain) + tls_text(ssl, cert, key) + body_text(
        domain,
        document_root,
        php_port,
        fastcgi_params,
        log_dir,
    ) + site_admin_text(admin_root, php_port, fastcgi_params) + E0@
}

pub open spec fn opt_view(s: Option<&str>) -> Option<Seq<char>> {
    match s {
        Some(v) => Some(v@),
        None => None,
    }
}

fn redirect_part(ssl: bool, domain: &str) -> (r: String)
    ensures
        r@ == redirect_text(ssl, domain@),
{
    let mut c = String::new();
    if ssl {
        c.append(R0);
        c.append(domain);
        c.append(R1);
    }
    c
}

fn head_part(ssl: bool, domain: &str) -> (r: String)
    ensures
        r@ == head_text(ssl, domain@),
{
    let mut c = String::from_str(S0);
    if ssl {
        c.append(S_TLS);
    } else {
        c.append(S_PLAIN);
    }
    c.append(S1);
    c.append(domain);
    c.append(S2);
    c
}

fn tls_part(ssl: bool, ssl_cert: Option<&str>, ssl_key: Option<&str>) -> (r: String)
    ensures
        r@ == tls_text(ssl, opt_view(ssl_cert), opt_view(ssl_key)),
{
    let mut c = String::new();
    if ssl {
        match (ssl_cert, ssl_key) {
            (Some(cert), Some(key)) => {
                let cp = replace_backslashes(cert);
                let kp = replace_backslashes(key);
                c.append(T0);
                c.append(cp.as_str());
                c.append(T1);
                c.append(kp.as_str());
                c.append(T2);
            },
            _ => {},
        }
    }
    c
}

fn body_part(
    domain: &str,
    document_root: &str,
    php_port: u16,
    fastcgi_params: &str,
    log_dir: &str,
) -> (r: String)
    ensures
        r@ == body_text(domain@, document_root@, php_port, fastcgi_params@, log_dir@),
{
    let fcp = replace_backslashes(fastcgi_params);
    let logs = replace_backslashes(log_dir);
    let doc = replace_backslashes(document_root);
    let port = decimal_string(php_port as u32);
    let mut c = String::from_str(B0);
    c.append(doc.as_str());
    c.append(B1);
    c.append(logs.as_str());
    c.append(B2);
    c.append(domain);
    c.append(B3);
    c.append(logs.as_str());
    c.append(B2);
    c.append(domain);
    c.append(B4);
    c.append(FASTCGI_TARGET);
    c.append(port.as_str());
    c.append(B5);
    c.append(fcp.as_str());
    c.append(B6);
    c
}

fn admin_part(phpmyadmin_root: Option<&str>, php_port: u16, fastcgi_params: &str) -> (r: String)
    ensures
        r@ == site_admin_text(opt_view(phpmyadmin_root), php_port, fastcgi_params@),
{
    let mut c = String::new();
    match phpmyadmin_root {
        Some(root) => {
            let rp = replace_backslashes(root);
            let fcp = replace_backslashes(fastcgi_params);
            let port = decimal_string(php_port as u32);
            c.append(ADM0);
            c.append(rp.as_str());
            c.append(ADM1);
            c.append(rp.as_str());
            c.append(ADM2);
            c.append(FASTCGI_TARGET);
            c.append(port.as_str());
            c.append(ADM3);
            c.append(fcp.as_str());
            c.append(ADM4);
        },
        None => {},
    }
    c
}

impl NginxConfigGenerator {
    /// The configuration of a site: a TLS site listens on 443 behind a
    /// redirect from port 80 and names its certificate and key; every site
    /// passes PHP to the FPM on `php_port`, logs under `log_dir`, and, when
    /// the admin web app is installed in `phpmyadmin_root`, routes to it.
    pub fn generate_site_config(
        domain: &str,
        document_root: &str,
        php_port: u16,
        ssl: bool,
        ssl_cert: Option<&str>,
        ssl_key: Option<&str>,
        fastcgi_params: &str,
        log_dir: &str,
        phpmyadmin_root: Option<&str>,
    ) -> (r: String)
        ensures
            r@ == site_config_text(
                domain@,
                document_root@,
                php_port,
                ssl,
                opt_view(ssl_cert),
                opt_view(ssl_key),
                fastcgi_params@,
                log_dir@,
                opt_view(phpmyadmin_root),
            ),
    {
        let mut c = redirect_part(ssl, domain);
        let head = head_part(ssl, domain);
        c.append(head.as_str());
        let tls = tls_part(ssl, ssl_cert, ssl_key);
        c.append(tls.as_str());
        let body = body_part(domain, document_root, php_port, fastcgi_params, log_dir);
        c.append(body.as_str());
        let admin = admin_part(phpmyadmin_root, php_port, fastcgi_params);
        c.append(admin.as_str());
        c.append(E0);
        c
    }
}

} // verus!

verus! {

use crate::paths::{join_path, join_spec};
use crate::site::{Site, SiteManager};
use crate::utils::{fpm_port_of, php_version_to_port};

/// The directory the web server serves for a site: `public` under the
/// document root for a Laravel site, the document root otherwise.
pub open spec fn served_root(site: Site) -> Seq<char> {
    if site.template is Some && site.template.unwrap()@ == "laravel"@ {
        join_spec(site.document_root@, "public"@)
    } else {
        site.document_root@
    }
}

/// The configuration of a site, with its certificate and key under
/// `ssl_dir` named after its domain.
pub open spec fn site_config_of(
    site: Site,
    ssl_dir: Seq<char>,
    fastcgi_params: Seq<char>,
    log_dir: Seq<char>,
    admin_root: Option<Seq<char>>,
) -> Seq<char> {
    site_config_text(
        site.domain@,
        served_root(site),
        fpm_port_of(site.php_version@),
        site.ssl,
        if site.ssl {
            Some(join_spec(ssl_dir, site.domain@ + ".pem"@))
        } else {
            None
        },
        if site.ssl {
            Some(join_spec(ssl_dir, site.domain@ + "-key.pem"@))
        } else {
            None
        },
        fastcgi_params,
        log_dir,
        admin_root,
    )
}

/// The (domain, configuration) of every active site, in order.
pub open spec fn active_configs(
    sites: Seq<Site>,
    ssl_dir: Seq<char>,
    fastcgi_params: Seq<char>,
    log_dir: Seq<char>,
    admin_root: Option<Seq<char>>,
) -> Seq<(Seq<char>, Seq<char>)>
    decreases sites.len(),
{
    if sites.len() == 0 {
        Seq::empty()
    } else {
        let rest = active_configs(sites.drop_last(), ssl_dir, fastcgi_params, log_dir, admin_root);
        if sites.last().active {
            rest.push(
                (
                    sites.last().domain@,
                    site_config_of(sites.last(), ssl_dir, fastcgi_params, log_dir, admin_root),
                ),
            )
        } else {
            rest
        }
    }
}

fn with_suffix(a: &str, b: &str) -> (r: String)
    ensures
        r@ == a@ + b@,
{
    let mut s = String::from_str(a);
    s.append(b);
    s
}

fn is_laravel(t: &Option<String>) -> (r: bool)
    ensures
        r == (t is Some && t.unwrap()@ == "laravel"@),
{
    match t {
        Some(v) => *v == String::from_str("laravel"),
        None => false,
    }
}

impl SiteManager {
    /// The web server's configuration for one site.
    pub fn site_config(
        site: &Site,
        ssl_dir: &str,
        fastcgi_params: &str,
        log_dir: &str,
        phpmyadmin_root: Option<&str>,
    ) -> (r: String)
        ensures
            r@ == site_config_of(*site, ssl_dir@, fastcgi_params@, log_dir@, opt_view(phpmyadmin_root)),
    {
        let port = php_version_to_port(site.php_version.as_str());
        let root = if is_laravel(&site.template) {
            join_path(site.document_root.as_str(), "public")
        } else {
            site.document_root.clone()
        };
        let cert_name = with_suffix(site.domain.as_str(), ".pem");
        let key_name = with_suffix(site.domain.as_str(), "-key.pem");
        let cert = join_path(ssl_dir, cert_name.as_str());
        let key = join_path(ssl_dir, key_name.as_str());
        if site.ssl {
            NginxConfigGenerator::generate_site_config(
                site.domain.as_str(),
                root.as_str(),
                port,
                true,
                Some(cert.as_str()),
                Some(key.as_str()),
                fastcgi_params,
                log_dir,
                phpmyadmin_root,
            )
        } else {
            NginxConfigGenerator::generate_site_config(
                site.domain.as_str(),
                root.as_str(),
                port,
                false,
                None,
                None,
                fastcgi_params,
                log_dir,
                phpmyadmin_root,
            )
        }
    }

    /// The (domain, configuration) of every active site, in order, to be
    /// written into the web server's site directory.
    pub fn regenerate_all_configs(
        sites: &Vec<Site>,
        ssl_dir: &str,
        fastcgi_params: &str,
        log_dir: &str,
        phpmyadmin_root: Option<&str>,
    ) -> (r: Vec<(String, String)>)
        ensures
            r@.map_values(|p: (String, String)| (p.0@, p.1@)) == active_configs(
                sites@,
                ssl_dir@,
                fastcgi_params@,
                log_dir@,
                opt_view(phpmyadmin_root),
            ),
    {
        let mut r: Vec<(String, String)> = Vec::new();
        let mut i: usize = 0;
        while i < sites.len()
            invariant
                i <= sites@.len(),
                r@.map_values(|p: (String, String)| (p.0@, p.1@)) == active_configs(
                    sites@.subrange(0, i as int),
                    ssl_dir@,
                    fastcgi_params@,
                    log_dir@,
                    opt_view(phpmyadmin_root),
                ),
            decreases sites@.len() - i,
        {
            proof {
                assert(sites@.subrange(0, i + 1).drop_last() =~= sites@.subrange(0, i as int));
            }
            if sites[i].active {
                let ghost before = r@;
                let c = SiteManager::site_config(
                    &sites[i],
                    ssl_dir,
                    fastcgi_params,
                    log_dir,
                    phpmyadmin_root,
                );
                r.push((sites[i].domain.clone(), c));
                proof {
                    assert(r@.map_values(|p: (String, String)| (p.0@, p.1@)) =~= before.map_values(
                        |p: (String, String)| (p.0@, p.1@),
                    ).push((sites@[i as int].domain@, c@)));
                }
            }
            i = i + 1;
        }
        proof {
            assert(sites@.subrange(0, sites@.len() as int) =~= sites@);
        }
        r
    }
}

} // verus!
