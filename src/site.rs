//! Sites, as the site registry stores them. The supervisor only reads them:
//! which sites are active and which PHP version each one uses.
use vstd::prelude::*;

verus! {

/// A site served by the web server.
#[derive(Clone, Debug)]
pub struct Site {
    pub id: String,
    pub name: String,
    pub domain: String,
    pub document_root: String,
    pub php_version: String,
    pub ssl: bool,
    pub active: bool,
    pub created_at: String,
    pub template: Option<String>,
    pub template_status: Option<String>,
}

/// What a new site is made from.
#[derive(Clone, Debug)]
pub struct CreateSiteRequest {
    pub name: String,
    pub domain: String,
    pub document_root: String,
    pub php_version: String,
    pub ssl: bool,
    pub template: Option<String>,
}

/// The fields of a site to change; `None` keeps the current value.
#[derive(Clone, Debug)]
pub struct UpdateSiteRequest {
    pub name: Option<String>,
    pub domain: Option<String>,
    pub document_root: Option<String>,
    pub php_version: Option<String>,
    pub ssl: Option<bool>,
    pub active: Option<bool>,
}

/// The site registry.
pub struct SiteManager;

/// Relies on `uuid::Uuid::new_v4` and its hyphenated text form: a fresh
/// random id. Nothing is stated of a random value.
#[verifier::external_body]
fn fresh_site_id() -> (r: String) {
    uuid::Uuid::new_v4().to_string()
}

/// Relies on `chrono::Utc::now` and `DateTime::to_rfc3339`: the time now, as
/// RFC 3339 text. Nothing is stated of the time.
#[verifier::external_body]
fn now_rfc3339() -> (r: String) {
    chrono::Utc::now().to_rfc3339()
}

/// A new site made from `req` under id `id`, created at `created_at`: it
/// is active, and a site made from a template waits for it (`pending`).
pub open spec fn new_site_from(req: CreateSiteRequest, id: Seq<char>, created_at: Seq<char>, s: Site) -> bool {
    &&& s.id@ == id
    &&& s.name == req.name
    &&& s.domain == req.domain
    &&& s.document_root == req.document_root
    &&& s.php_version == req.php_version
    &&& s.ssl == req.ssl
    &&& s.active
    &&& s.created_at@ == created_at
    &&& s.template == req.template
    &&& (s.template_status is Some <==> req.template is Some)
    &&& s.template_status is Some ==> s.template_status.unwrap()@ == "pending"@
}

/// `new` when it is given, else `cur`.
pub open spec fn or_keep<T>(new: Option<T>, cur: T) -> T {
    match new {
        Some(v) => v,
        None => cur,
    }
}

impl SiteManager {
    /// The record of a new site with a given id and creation time.
    pub fn new_site(req: CreateSiteRequest, id: String, created_at: String) -> (r: Site)
        ensures
            new_site_from(req, id@, created_at@, r),
    {
        let status = match req.template {
            Some(_) => Some(String::from_str("pending")),
            None => None,
        };
        Site {
            id,
            name: req.name,
            domain: req.domain,
            document_root: req.document_root,
            php_version: req.php_version,
            ssl: req.ssl,
            active: true,
            created_at,
            template: req.template,
            template_status: status,
        }
    }

    /// The record of a new site, with a fresh random id, created now.
    pub fn create_record(req: CreateSiteRequest) -> (r: Site)
        ensures
            exists|id: Seq<char>, at: Seq<char>| new_site_from(req, id, at, r),
    {
        let id = fresh_site_id();
        let at = now_rfc3339();
        SiteManager::new_site(req, id, at)
    }

    /// A site with the changes of `req` applied: each given field replaces
    /// the current one, the others stay.
    pub fn apply_update(site: Site, req: UpdateSiteRequest) -> (r: Site)
        ensures
            r.id == site.id,
            r.name == or_keep(req.name, site.name),
            r.domain == or_keep(req.domain, site.domain),
            r.document_root == or_keep(req.document_root, site.document_root),
            r.php_version == or_keep(req.php_version, site.php_version),
            r.ssl == or_keep(req.ssl, site.ssl),
            r.active == or_keep(req.active, site.active),
            r.created_at == site.created_at,
            r.template == site.template,
            r.template_status == site.template_status,
    {
        let mut s = site;
        match req.name {
            Some(v) => s.name = v,
            None => {},
        }
        match req.domain {
            Some(v) => s.domain = v,
            None => {},
        }
        match req.document_root {
            Some(v) => s.document_root = v,
            None => {},
        }
        match req.php_version {
            Some(v) => s.php_version = v,
            None => {},
        }
        match req.ssl {
            Some(v) => s.ssl = v,
            None => {},
        }
        match req.active {
            Some(v) => s.active = v,
            None => {},
        }
        s
    }
}

} // verus!
