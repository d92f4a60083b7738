use lokcaldev::site::{CreateSiteRequest, Site, SiteManager};
use lokcaldev::ssl::SslManager;
use lokcaldev::templates::TemplateManager;

fn site(domain: &str, ssl: bool, active: bool, template: Option<&str>) -> Site {
    Site {
        id: domain.to_string(),
        name: domain.to_string(),
        domain: domain.to_string(),
        document_root: format!("/srv/{}", domain),
        php_version: "8.2".to_string(),
        ssl,
        active,
        created_at: String::new(),
        template: template.map(|t| t.to_string()),
        template_status: None,
    }
}

#[test]
fn active_sites_get_configs() {
    let sites = vec![
        site("a.test", false, true, None),
        site("b.test", true, false, None),
        site("c.test", true, true, Some("laravel")),
    ];
    let jobs = SiteManager::regenerate_all_configs(&sites, "/ssl", "/c/fastcgi_params", "/logs", None);
    assert_eq!(jobs.len(), 2);
    assert_eq!(jobs[0].0, "a.test");
    assert!(jobs[0].1.contains("root \"/srv/a.test\";"));
    assert!(jobs[0].1.contains("fastcgi_pass 127.0.0.1:9082;"));
    assert_eq!(jobs[1].0, "c.test");
    assert!(jobs[1].1.contains("root \"/srv/c.test/public\";"));
    assert!(jobs[1].1.contains("ssl_certificate \"/ssl/c.test.pem\";"));
    assert!(jobs[1].1.contains("ssl_certificate_key \"/ssl/c.test-key.pem\";"));
}

#[test]
fn template_database_names() {
    assert_eq!(TemplateManager::sanitize_db_name("My Blog"), "wp_my_blog");
    assert_eq!(TemplateManager::sanitize_db_name("--Shop 2"), "wp_shop_2");
    assert_eq!(TemplateManager::sanitize_db_name("!!!"), "wordpress");
    assert_eq!(TemplateManager::sanitize_db_name(""), "wordpress");
    assert_eq!(TemplateManager::db_name_from_lowered("a-b"), "wp_a_b");
}

#[test]
fn new_site_records() {
    let req = CreateSiteRequest {
        name: "Blog".to_string(),
        domain: "blog.test".to_string(),
        document_root: "/srv/blog".to_string(),
        php_version: "8.3".to_string(),
        ssl: true,
        template: Some("wordpress".to_string()),
    };
    let s = SiteManager::new_site(req.clone(), "id-1".to_string(), "2026-01-01T00:00:00+00:00".to_string());
    assert_eq!(s.id, "id-1");
    assert!(s.active);
    assert_eq!(s.template_status.as_deref(), Some("pending"));
    let mut plain = req.clone();
    plain.template = None;
    let s = SiteManager::create_record(plain);
    assert_eq!(s.template_status, None);
    assert_eq!(s.id.len(), 36);
    assert!(!s.created_at.is_empty());
}

#[test]
fn certificate_files() {
    assert_eq!(SslManager::cert_domain("a.test.pem"), Some("a.test".to_string()));
    assert_eq!(SslManager::cert_domain("a.test.pem.pem"), Some("a.test".to_string()));
    assert_eq!(SslManager::cert_domain("a.test-key.pem"), None);
    assert_eq!(SslManager::cert_domain("rootCA.pem"), None);
    assert_eq!(SslManager::cert_domain("notes.txt"), None);
    let c = SslManager::certificate_for("/ssl", "a.test", true);
    assert_eq!(c.cert_path, "/ssl/a.test.pem");
    assert_eq!(c.key_path, "/ssl/a.test-key.pem");
    assert!(c.exists);
}
