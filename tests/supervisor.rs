use lokcaldev::drivers::{NginxManager, PhpVersion};
use lokcaldev::registry::{resolve_service, ServiceRegistry};
use lokcaldev::resolver::{default_fpm, plan_fpm_starts, required_php_versions};
use lokcaldev::shutdown::shutdown_targets;
use lokcaldev::site::Site;
use lokcaldev::state::{AppError, Observed, ServiceKind, ServiceStatus};

fn running(pid: u32) -> Observed {
    Observed { installed: true, initialized: true, running: true, version: Some("11.4".to_string()), pid: Some(pid) }
}

fn stopped_obs() -> Observed {
    Observed { installed: true, initialized: true, running: false, version: Some("11.4".to_string()), pid: None }
}

fn names(list: &[lokcaldev::state::ServiceInfo]) -> Vec<String> {
    list.iter().map(|s| s.name.clone()).collect()
}

#[test]
fn new_registry_holds_the_three_services_sorted_by_name() {
    let mut reg: ServiceRegistry<u32> = ServiceRegistry::new();
    let list = reg.list_all(&Vec::new());
    assert_eq!(names(&list), vec!["MariaDB", "Nginx", "phpMyAdmin"]);
    let nginx = reg.get("nginx").unwrap();
    assert_eq!(nginx.port, Some(8080));
    assert_eq!(nginx.status, ServiceStatus::Stopped);
    assert!(!nginx.installed);
    assert_eq!(reg.get("mariadb").unwrap().port, Some(3306));
    assert_eq!(reg.get("phpmyadmin").unwrap().port, None);
}

#[test]
fn get_unknown_id_is_not_found() {
    let reg: ServiceRegistry<u32> = ServiceRegistry::new();
    assert!(matches!(reg.get("apache"), Err(AppError::NotFound(_))));
}

#[test]
fn start_unknown_id_is_not_found_before_any_work() {
    assert!(matches!(resolve_service("apache"), Err(AppError::NotFound(_))));
    assert!(matches!(resolve_service(""), Err(AppError::NotFound(_))));
    assert!(matches!(resolve_service("nginx"), Ok(ServiceKind::Nginx)));
    assert!(matches!(resolve_service("mariadb"), Ok(ServiceKind::MariaDb)));
    assert!(matches!(resolve_service("phpmyadmin"), Ok(ServiceKind::PhpMyAdmin)));
    match resolve_service("php-fpm-8.2") {
        Ok(ServiceKind::PhpFpm(v)) => assert_eq!(v, "8.2"),
        _ => panic!("expected a PHP-FPM kind"),
    }
}

#[test]
fn start_then_list_all_reports_running_with_pid() {
    let mut reg: ServiceRegistry<u32> = ServiceRegistry::new();
    let info = reg.record_start(&ServiceKind::MariaDb, 4242, Some(7), &running(4242));
    assert_eq!(info.status, ServiceStatus::Running);
    assert_eq!(info.pid, Some(4242));
    assert_eq!(reg.get("mariadb").unwrap().pid, Some(4242));
    let list = reg.list_all(&vec![("mariadb".to_string(), running(4242))]);
    let db = list.iter().find(|s| s.id == "mariadb").unwrap();
    assert_eq!(db.status, ServiceStatus::Running);
    assert_eq!(db.pid, Some(4242));
    assert_eq!(db.port, Some(3306));
    assert_eq!(db.version.as_deref(), Some("11.4"));
}

#[test]
fn stop_then_list_all_reports_stopped_without_pid() {
    let mut reg: ServiceRegistry<u32> = ServiceRegistry::new();
    reg.record_start(&ServiceKind::MariaDb, 4242, Some(7), &running(4242));
    let (info, handle) = reg.record_stop(&ServiceKind::MariaDb, &stopped_obs());
    assert_eq!(info.status, ServiceStatus::Stopped);
    assert_eq!(info.pid, None);
    assert_eq!(handle, Some(7));
    let list = reg.list_all(&vec![("mariadb".to_string(), stopped_obs())]);
    let db = list.iter().find(|s| s.id == "mariadb").unwrap();
    assert_eq!(db.status, ServiceStatus::Stopped);
    assert_eq!(db.pid, None);
}

#[test]
fn fpm_start_registers_a_new_entry_in_name_order() {
    let mut reg: ServiceRegistry<u32> = ServiceRegistry::new();
    let k = ServiceKind::PhpFpm("8.1".to_string());
    let info = reg.record_start(&k, 99, Some(1), &running(99));
    assert_eq!(info.id, "php-fpm-8.1");
    assert_eq!(info.name, "PHP-FPM 8.1");
    assert_eq!(info.port, Some(9081));
    assert_eq!(info.version.as_deref(), Some("8.1"));
    let list = reg.list_all(&Vec::new());
    assert_eq!(names(&list), vec!["MariaDB", "Nginx", "PHP-FPM 8.1", "phpMyAdmin"]);
}

#[test]
fn nginx_start_without_pid_file_falls_back_to_observed_pid() {
    let mut reg: ServiceRegistry<u32> = ServiceRegistry::new();
    let info = reg.record_start(&ServiceKind::Nginx, 0, None, &running(55));
    assert_eq!(info.pid, Some(55));
    assert_eq!(info.port, Some(80));
    let info = reg.record_start(&ServiceKind::Nginx, 77, None, &running(55));
    assert_eq!(info.pid, Some(77));
}

#[test]
fn admin_app_start_records_nothing() {
    let mut reg: ServiceRegistry<u32> = ServiceRegistry::new();
    let o = Observed { installed: true, initialized: true, running: true, version: Some("5.2.2".to_string()), pid: None };
    let info = reg.record_start(&ServiceKind::PhpMyAdmin, 0, Some(3), &o);
    assert_eq!(info.status, ServiceStatus::Running);
    assert_eq!(info.pid, None);
    let stored = reg.get("phpmyadmin").unwrap();
    assert_eq!(stored.status, ServiceStatus::Stopped);
    assert!(reg.drain_handles().is_empty());
}

#[test]
fn restart_equals_stop_then_start() {
    let k = ServiceKind::MariaDb;
    let mut a: ServiceRegistry<u32> = ServiceRegistry::new();
    a.record_stop(&k, &stopped_obs());
    a.record_start(&k, 10, Some(1), &running(10));
    let mut b: ServiceRegistry<u32> = ServiceRegistry::new();
    b.record_start(&k, 10, Some(1), &running(10));
    let la = a.list_all(&Vec::new());
    let lb = b.list_all(&Vec::new());
    assert_eq!(format!("{:?}", la), format!("{:?}", lb));
}

#[test]
fn restart_with_failed_start_leaves_stopped() {
    let k = ServiceKind::MariaDb;
    let mut reg: ServiceRegistry<u32> = ServiceRegistry::new();
    reg.record_start(&k, 10, Some(1), &running(10));
    reg.record_stop(&k, &stopped_obs());
    let db = reg.get("mariadb").unwrap();
    assert_eq!(db.status, ServiceStatus::Stopped);
    assert_eq!(db.pid, None);
}

#[test]
fn list_all_twice_gives_identical_results() {
    let mut reg: ServiceRegistry<u32> = ServiceRegistry::new();
    reg.record_start(&ServiceKind::PhpFpm("8.3".to_string()), 5, Some(2), &running(5));
    let obs = vec![
        ("nginx".to_string(), running(12)),
        ("mariadb".to_string(), stopped_obs()),
    ];
    let first = reg.list_all(&obs);
    let second = reg.list_all(&obs);
    assert_eq!(format!("{:?}", first), format!("{:?}", second));
    assert_eq!(names(&first), vec!["MariaDB", "Nginx", "PHP-FPM 8.3", "phpMyAdmin"]);
    let nginx = first.iter().find(|s| s.id == "nginx").unwrap();
    assert_eq!(nginx.port, Some(8080));
    assert_eq!(nginx.pid, Some(12));
}

#[test]
fn handles_are_replaced_and_drained() {
    let mut reg: ServiceRegistry<u32> = ServiceRegistry::new();
    assert_eq!(reg.put_handle("mariadb".to_string(), 1), None);
    assert_eq!(reg.put_handle("mariadb".to_string(), 2), Some(1));
    assert_eq!(reg.put_handle("php-fpm-8.1".to_string(), 3), None);
    assert_eq!(reg.take_handle("nginx"), None);
    let all = reg.drain_handles();
    assert_eq!(all, vec![("mariadb".to_string(), 2), ("php-fpm-8.1".to_string(), 3)]);
    assert!(reg.drain_handles().is_empty());
}

fn site(v: &str, active: bool) -> Site {
    Site {
        id: v.to_string(),
        name: format!("site {}", v),
        domain: "a.test".to_string(),
        document_root: "/srv/a".to_string(),
        php_version: v.to_string(),
        ssl: false,
        active,
        created_at: String::new(),
        template: None,
        template_status: None,
    }
}

fn php(v: &str, installed: bool, running: bool) -> PhpVersion {
    PhpVersion { version: v.to_string(), installed, running, port: 0, pid: None, path: None }
}

#[test]
fn resolver_starts_missing_fpm_and_leaves_running_one() {
    let sites = vec![site("8.1", true), site("8.3", true), site("8.1", true), site("8.2", false)];
    let required = required_php_versions(&sites);
    assert_eq!(required, vec!["8.1", "8.3"]);
    let versions = vec![php("8.1", true, false), php("8.2", true, false), php("8.3", true, true), php("8.4", false, false)];
    let plan = plan_fpm_starts(&required, &versions);
    assert_eq!(plan.start, vec!["8.1"]);
    assert!(plan.any_running);
    assert_eq!(default_fpm(&versions, plan.any_running), None);
}

#[test]
fn resolver_falls_back_to_first_installed_runtime() {
    let versions = vec![php("8.1", false, false), php("8.2", true, false), php("8.3", true, false)];
    let required = required_php_versions(&vec![site("7.4", true)]);
    let plan = plan_fpm_starts(&required, &versions);
    assert!(plan.start.is_empty());
    assert!(!plan.any_running);
    assert_eq!(default_fpm(&versions, false), Some("8.2".to_string()));
    assert_eq!(default_fpm(&vec![php("8.1", false, false)], false), None);
}

#[test]
fn shutdown_stops_every_known_service() {
    let t = shutdown_targets();
    let ids: Vec<String> = t.iter().map(|k| k.id()).collect();
    assert_eq!(ids, vec!["nginx", "mariadb", "php-fpm-8.1", "php-fpm-8.2", "php-fpm-8.3", "php-fpm-8.4"]);
}

#[test]
fn nginx_version_is_text_after_last_slash() {
    assert_eq!(NginxManager::parse_version("nginx version: nginx/1.28.2\n"), "1.28.2");
    assert_eq!(NginxManager::parse_version(" 1.0 "), "1.0");
}
