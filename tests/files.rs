use lokcaldev::config::AppConfig;
use lokcaldev::database::DbAction;
use lokcaldev::drivers::{strip_all, NginxStartStep};
use lokcaldev::paths::path_within;
use lokcaldev::state::AppError;
use lokcaldev::tail::last_lines;
use lokcaldev::drivers::{MariaDbManager, NginxManager, PhpManager, PhpMyAdminManager, PhpProbe, PhpVersion};
use lokcaldev::nginx_conf::{detect_php_fpm_port, needs_config, phpmyadmin_location_block, MainConfig};
use lokcaldev::paths::{get_config_dir, get_data_dir, get_nginx_config_dir, get_php_dir, join_path};
use lokcaldev::pid::{parse_pid, pid_file_text, pid_status, probe_verdict, trim_str};
use lokcaldev::site::{SiteManager, Site, UpdateSiteRequest};
use lokcaldev::site_conf::NginxConfigGenerator;
use lokcaldev::tail::{split_lines, TailAction, TailCursor, TailEvent, TailSlot};
use lokcaldev::utils::{php_version_to_port, to_forward_slash};

#[test]
fn pid_file_round_trip() {
    let text = pid_file_text(4242);
    assert_eq!(text, "4242");
    assert_eq!(parse_pid(&text), Some(4242));
    assert_eq!(pid_status(parse_pid(&text), true), (true, Some(4242)));
    assert_eq!(pid_status(parse_pid(&text), false), (false, None));
}

#[test]
fn pid_file_parsing() {
    assert_eq!(parse_pid("  17\n"), Some(17));
    assert_eq!(parse_pid("+8"), Some(8));
    assert_eq!(parse_pid("0"), Some(0));
    assert_eq!(parse_pid("4294967295"), Some(4294967295));
    assert_eq!(parse_pid("4294967296"), None);
    assert_eq!(parse_pid(""), None);
    assert_eq!(parse_pid("   "), None);
    assert_eq!(parse_pid("+"), None);
    assert_eq!(parse_pid("-1"), None);
    assert_eq!(parse_pid("12 34"), None);
    assert_eq!(parse_pid("abc"), None);
    assert_eq!(pid_status(None, true), (false, None));
    assert_eq!(pid_file_text(0), "0");
    assert_eq!(pid_file_text(4294967295), "4294967295");
}

#[test]
fn liveness_verdict() {
    assert!(probe_verdict(true, ""));
    assert!(probe_verdict(false, "kill: (1) - Operation not permitted\n"));
    assert!(!probe_verdict(false, "kill: (999999) - No such process\n"));
    assert!(!probe_verdict(false, ""));
}

#[test]
fn trimming() {
    assert_eq!(trim_str(" \t a b \n"), "a b");
    assert_eq!(trim_str(""), "");
}

#[test]
fn fpm_ports() {
    assert_eq!(php_version_to_port("8.1"), 9081);
    assert_eq!(php_version_to_port("8.2"), 9082);
    assert_eq!(php_version_to_port("8.3"), 9083);
    assert_eq!(php_version_to_port("8.4"), 9084);
    assert_eq!(php_version_to_port("7.4"), 9085);
}

#[test]
fn forward_slashes() {
    assert_eq!(to_forward_slash("C:\\data\\logs"), "C:/data/logs");
    assert_eq!(to_forward_slash("/already/fine"), "/already/fine");
}

#[test]
fn tail_single_flight() {
    let mut slot: TailSlot<u32> = TailSlot::new();
    assert_eq!(slot.begin(1), None);
    assert_eq!(slot.begin(2), Some(1));
    assert_eq!(slot.end(), Some(2));
    assert_eq!(slot.end(), None);
}

#[test]
fn tail_session_reads_growth_and_stops_after_cancel() {
    let mut c = TailCursor::new();
    assert_eq!(c.step(TailEvent::Tick(Some(0))), TailAction::Wait);
    assert_eq!(c.step(TailEvent::Tick(Some(10))), TailAction::Read(0));
    assert_eq!(c.step(TailEvent::Tick(Some(10))), TailAction::Wait);
    assert_eq!(c.step(TailEvent::Tick(Some(4))), TailAction::Wait);
    assert_eq!(c.step(TailEvent::Tick(None)), TailAction::Wait);
    assert_eq!(c.step(TailEvent::Tick(Some(25))), TailAction::Read(10));
    assert_eq!(c.step(TailEvent::Cancelled), TailAction::Exit);
    assert_eq!(c.step(TailEvent::Tick(Some(100))), TailAction::Exit);
    assert!(c.cancelled);
}

#[test]
fn lines_are_split_like_a_buffered_reader() {
    let lines = split_lines(&b"one\r\ntwo\n\nthree".to_vec());
    assert_eq!(lines, vec![b"one".to_vec(), b"two".to_vec(), b"".to_vec(), b"three".to_vec()]);
    assert!(split_lines(&Vec::new()).is_empty());
    assert_eq!(split_lines(&b"a\r".to_vec()), vec![b"a\r".to_vec()]);
}

fn main_config(port: u16, admin: &str) -> MainConfig {
    MainConfig {
        username: "dev".to_string(),
        groupname: "staff".to_string(),
        pid_path: "/d/nginx.pid".to_string(),
        error_log: "/d/logs/nginx-error.log".to_string(),
        mime_types: "/d/mime.types".to_string(),
        access_log: "/d/logs/nginx-access.log".to_string(),
        sites_enabled: "/d/sites-enabled".to_string(),
        default_root: "/d/www".to_string(),
        fastcgi_params: "/d/fastcgi_params".to_string(),
        php_port: port,
        phpmyadmin_location: admin.to_string(),
    }
}

#[test]
fn main_config_rewrite_decision() {
    let text = main_config(9083, "").render();
    assert!(text.starts_with("user dev staff;\n"));
    assert!(text.contains("fastcgi_pass 127.0.0.1:9083;"));
    assert!(text.contains("include \"/d/sites-enabled/*.conf\";"));
    assert!(!needs_config(Some(&text), false, 9083));
    assert!(needs_config(Some(&text), false, 9081));
    assert!(needs_config(Some(&text), true, 9083));
    assert!(needs_config(None, false, 9083));
    assert!(needs_config(Some("events {}"), false, 9083));
    let admin = phpmyadmin_location_block(true, "/d", 9083, "/d/fastcgi_params");
    assert!(admin.contains("location ^~ /phpmyadmin {"));
    let with_admin = main_config(9083, &admin).render();
    assert!(!needs_config(Some(&with_admin), true, 9083));
    assert!(needs_config(Some(&with_admin), false, 9083));
    assert_eq!(phpmyadmin_location_block(false, "/d", 9083, "/x"), "");
}

fn php(v: &str, installed: bool, running: bool) -> PhpVersion {
    PhpVersion { version: v.to_string(), installed, running, port: 0, pid: None, path: None }
}

#[test]
fn active_fpm_port_selection() {
    assert_eq!(detect_php_fpm_port(&vec![php("8.1", true, false), php("8.3", true, true)]), 9083);
    assert_eq!(detect_php_fpm_port(&vec![php("8.1", false, false), php("8.2", true, false)]), 9082);
    assert_eq!(detect_php_fpm_port(&vec![php("8.1", false, false)]), 9081);
    assert_eq!(detect_php_fpm_port(&Vec::new()), 9081);
}

#[test]
fn site_config_plain_and_tls() {
    let plain = NginxConfigGenerator::generate_site_config(
        "a.test", "C:\\www\\a", 9082, false, None, None, "/c/fastcgi_params", "/logs", None,
    );
    assert!(plain.starts_with("server {\n    listen 80;\n    server_name a.test;\n"));
    assert!(plain.contains("root \"C:/www/a\";"));
    assert!(plain.contains("access_log \"/logs/a.test-access.log\";"));
    assert!(plain.contains("fastcgi_pass 127.0.0.1:9082;"));
    assert!(!plain.contains("ssl_certificate"));
    assert!(!plain.contains("phpmyadmin"));
    assert!(plain.ends_with("}\n"));
    let tls = NginxConfigGenerator::generate_site_config(
        "b.test", "/www/b", 9083, true, Some("/ssl/b.test.pem"), Some("/ssl/b.test-key.pem"), "/c/f", "/logs", Some("/data"),
    );
    assert!(tls.starts_with("server {\n    listen 80;\n    server_name b.test;\n    return 301 https://$host$request_uri;\n}\n\n"));
    assert!(tls.contains("listen 443 ssl;"));
    assert!(tls.contains("ssl_certificate \"/ssl/b.test.pem\";"));
    assert!(tls.contains("ssl_certificate_key \"/ssl/b.test-key.pem\";"));
    assert!(tls.contains("location ^~ /phpmyadmin {\n        root \"/data\";"));
}

#[test]
fn driver_infos() {
    let n = NginxManager::get_info(false, (true, Some(3)), Some("1.0".to_string()), "/c".to_string());
    assert!(!n.running);
    assert_eq!(n.pid, None);
    assert_eq!(n.version, None);
    assert_eq!(n.port, 80);
    let n = NginxManager::get_info(true, (true, Some(3)), Some("1.0".to_string()), "/c".to_string());
    assert!(n.running);
    assert_eq!(n.pid, Some(3));
    let o = n.observed();
    assert!(o.running && o.initialized);
    let m = MariaDbManager::get_info(true, false, (false, None), None, "/d".to_string());
    assert_eq!(m.port, 3306);
    assert!(!m.initialized);
    let p = PhpMyAdminManager::get_info(true, None, "/p".to_string());
    assert_eq!(p.version.as_deref(), Some("5.2.2"));
    assert!(p.observed().running);
    let p = PhpMyAdminManager::get_info(false, Some("5.0".to_string()), "/p".to_string());
    assert_eq!(p.version, None);
    assert!(!p.observed().running);
    let probes = vec![
        PhpProbe { version: "8.1".to_string(), installed: true, alive: true, pid: Some(9), path: Some("/php".to_string()) },
        PhpProbe { version: "8.2".to_string(), installed: false, alive: true, pid: Some(8), path: Some("/x".to_string()) },
    ];
    let vs = PhpManager::list_versions(&probes);
    assert_eq!(vs.len(), 2);
    assert!(vs[0].running);
    assert_eq!(vs[0].port, 9081);
    assert_eq!(vs[1].pid, None);
    assert_eq!(vs[1].path, None);
    assert_eq!(PhpManager::supported_versions(), vec!["8.1", "8.2", "8.3", "8.4"]);
}

#[test]
fn paths_live_under_the_data_dir() {
    let data = get_data_dir();
    assert!(data.ends_with("/lokcaldev"));
    assert_eq!(get_config_dir(), format!("{}/config", data));
    assert_eq!(get_nginx_config_dir(), format!("{}/config/nginx", data));
    assert_eq!(get_php_dir(), format!("{}/binaries/php", data));
    assert_eq!(join_path("/a/", "b"), "/a/b");
    assert_eq!(join_path("/a", "b"), "/a/b");
}

#[test]
fn default_settings() {
    let c = AppConfig::defaults_for_home("/home/u");
    assert_eq!(c.sites_directory, "/home/u/Sites");
    assert_eq!(c.default_php_version, "8.3");
    assert_eq!(c.tld, "test");
    assert_eq!(c.nginx_port, 8080);
    assert_eq!(c.php_fpm_base_port, 9081);
    let d = AppConfig::default();
    assert_eq!(d.mariadb_port, 3306);
}

#[test]
fn site_update_keeps_unset_fields() {
    let s = Site {
        id: "1".to_string(),
        name: "a".to_string(),
        domain: "a.test".to_string(),
        document_root: "/a".to_string(),
        php_version: "8.1".to_string(),
        ssl: false,
        active: true,
        created_at: "now".to_string(),
        template: None,
        template_status: None,
    };
    let req = UpdateSiteRequest { name: Some("b".to_string()), domain: None, document_root: None, php_version: Some("8.3".to_string()), ssl: None, active: Some(false) };
    let u = SiteManager::apply_update(s, req);
    assert_eq!(u.name, "b");
    assert_eq!(u.domain, "a.test");
    assert_eq!(u.php_version, "8.3");
    assert!(!u.active);
    assert_eq!(u.created_at, "now");
}

#[test]
fn mariadb_version_from_banner() {
    assert_eq!(
        MariaDbManager::parse_version("mysqld  Ver 11.4.10-MariaDB for osx10.19 on arm64 (Homebrew)\n"),
        Some("11.4.10".to_string())
    );
    assert_eq!(MariaDbManager::parse_version("mysqld Ver 8.0.36 for Linux"), None);
    assert_eq!(MariaDbManager::parse_version("x 10.6-MariaDB"), Some("10.6".to_string()));
    assert_eq!(MariaDbManager::parse_version(""), None);
    assert_eq!(strip_all("a-MariaDB-MariaDBb", "-MariaDB"), "ab");
}

#[test]
fn database_statements() {
    assert_eq!(MariaDbManager::database_statement(DbAction::Create, "shop_1").unwrap(), "CREATE DATABASE `shop_1`;");
    assert_eq!(MariaDbManager::database_statement(DbAction::Drop, "shop").unwrap(), "DROP DATABASE `shop`;");
    assert!(matches!(MariaDbManager::database_statement(DbAction::Drop, "x`; DROP"), Err(AppError::InvalidInput(_))));
    assert!(MariaDbManager::is_valid_database_name(""));
    assert!(!MariaDbManager::is_valid_database_name("a-b"));
}

#[test]
fn last_lines_of_a_file() {
    let all: Vec<String> = (0..600).map(|i| i.to_string()).collect();
    let tail = last_lines(all.clone(), None);
    assert_eq!(tail.len(), 500);
    assert_eq!(tail[0], "100");
    assert_eq!(last_lines(all.clone(), Some(2)), vec!["598", "599"]);
    assert_eq!(last_lines(vec!["a".to_string()], Some(5)), vec!["a"]);
}

#[test]
fn database_listing_and_init_verdict() {
    let dbs = MariaDbManager::parse_database_list("information_schema\n  shop \n\nmysql\n");
    let names: Vec<&str> = dbs.iter().map(|d| d.name.as_str()).collect();
    assert_eq!(names, vec!["information_schema", "shop", "mysql"]);
    assert!(MariaDbManager::initialization_failed(false, "FATAL ERROR: boom", false));
    assert!(!MariaDbManager::initialization_failed(false, "FATAL ERROR: boom", true));
    assert!(!MariaDbManager::initialization_failed(false, "warning only", false));
    assert!(!MariaDbManager::initialization_failed(true, "error", false));
    assert!(MariaDbManager::init_failed_lowered(false, "an error", false));
}

#[test]
fn nginx_start_decisions() {
    assert!(matches!(NginxManager::require_installed(false), Err(AppError::NotInstalled(_))));
    assert!(NginxManager::require_installed(true).is_ok());
    assert_eq!(NginxManager::start_step(true, true, Some(7)), NginxStartStep::Reuse { reload: true, pid: 7 });
    assert_eq!(NginxManager::start_step(false, true, Some(7)), NginxStartStep::Reuse { reload: false, pid: 7 });
    assert_eq!(NginxManager::start_step(true, false, None), NginxStartStep::Spawn { reload: false });
    assert_eq!(NginxManager::start_step(true, true, None), NginxStartStep::Spawn { reload: true });
    assert_eq!(NginxManager::started_pid(Some(12)), 12);
    assert_eq!(NginxManager::started_pid(None), 0);
}

#[test]
fn fpm_pool_configuration() {
    let c = PhpManager::fpm_pool_config("8.3", "/d/php-fpm-8.3.pid", "/l/php-fpm-8.3.log");
    assert!(c.starts_with("[global]\npid = /d/php-fpm-8.3.pid\nerror_log = /l/php-fpm-8.3.log\n"));
    assert!(c.contains("\n[www]\nlisten = 127.0.0.1:9083\n"));
    assert!(c.ends_with("pm.max_spare_servers = 3\n"));
}

#[test]
fn log_paths_must_lie_in_the_logs_dir() {
    assert!(path_within("/d/logs", "/d/logs/nginx.log"));
    assert!(path_within("/d/logs", "/d/logs"));
    assert!(path_within("/d/logs/", "/d/logs/x"));
    assert!(!path_within("/d/logs", "/d/logs2/x"));
    assert!(!path_within("/d/logs", "/d/other.log"));
    assert!(!path_within("/d/logs", "/d"));
}
