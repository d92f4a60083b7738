//! The data model: service status and info, the closed set of service kinds,
//! and the error taxonomy of the operations.
use vstd::prelude::*;
use crate::utils::{fpm_port_of, has_prefix, php_version_to_port, str_eq, strip_prefix};

verus! {

/// The state of a supervised service. Only `Running` and `Stopped` are ever
/// assigned by the operations of this crate.
#[derive(Clone, Copy, Debug, PartialEq, Eq, Structural)]
pub enum ServiceStatus {
    Running,
    Stopped,
    Error,
    Starting,
    Stopping,
}

/// The last known state of one service.
#[derive(Clone, Debug)]
pub struct ServiceInfo {
    pub id: String,
    pub name: String,
    pub status: ServiceStatus,
    pub port: Option<u16>,
    pub version: Option<String>,
    pub pid: Option<u32>,
    pub installed: bool,
    pub initialized: bool,
}

pub(crate) fn copy_opt_string(s: &Option<String>) -> (r: Option<String>)
    ensures
        r == *s,
{
    match s {
        Some(v) => Some(v.clone()),
        None => None,
    }
}

impl ServiceInfo {
    /// A copy equal to `self` in every field.
    pub fn snapshot(&self) -> (r: ServiceInfo)
        ensures
            r == *self,
    {
        ServiceInfo {
            id: self.id.clone(),
            name: self.name.clone(),
            status: self.status,
            port: self.port,
            version: copy_opt_string(&self.version),
            pid: self.pid,
            installed: self.installed,
            initialized: self.initialized,
        }
    }
}

/// What a driver observed of a service on disk and among the processes:
/// whether its binary is there, whether it was initialised, whether its PID
/// file names a live process (and which), and the version it reports.
#[derive(Clone, Debug)]
pub struct Observed {
    pub installed: bool,
    pub initialized: bool,
    pub running: bool,
    pub version: Option<String>,
    pub pid: Option<u32>,
}

impl Observed {
    /// A process-backed observation names a pid exactly when it saw the
    /// process running.
    pub open spec fn wf(&self) -> bool {
        self.running <==> self.pid is Some
    }
}

/// The kinds of supervised services; a PHP-FPM runtime is parameterised by
/// its PHP version.
#[derive(Clone, Debug)]
pub enum ServiceKind {
    Nginx,
    MariaDb,
    PhpMyAdmin,
    PhpFpm(String),
}

/// The registry id of a service kind.
pub open spec fn id_of(k: ServiceKind) -> Seq<char> {
    match k {
        ServiceKind::Nginx => "nginx"@,
        ServiceKind::MariaDb => "mariadb"@,
        ServiceKind::PhpMyAdmin => "phpmyadmin"@,
        ServiceKind::PhpFpm(v) => "php-fpm-"@ + v@,
    }
}

/// The display name of a service kind.
pub open spec fn name_of(k: ServiceKind) -> Seq<char> {
    match k {
        ServiceKind::Nginx => "Nginx"@,
        ServiceKind::MariaDb => "MariaDB"@,
        ServiceKind::PhpMyAdmin => "phpMyAdmin"@,
        ServiceKind::PhpFpm(v) => "PHP-FPM "@ + v@,
    }
}

/// The port reported for a service after it was started or stopped.
pub open spec fn port_of(k: ServiceKind) -> Option<u16> {
    match k {
        ServiceKind::Nginx => Some(80),
        ServiceKind::MariaDb => Some(3306),
        ServiceKind::PhpMyAdmin => None,
        ServiceKind::PhpFpm(v) => Some(fpm_port_of(v@)),
    }
}

/// Ids that name a service kind.
pub open spec fn is_known_id(id: Seq<char>) -> bool {
    id == "nginx"@ || id == "mariadb"@ || id == "phpmyadmin"@ || has_prefix(id, "php-fpm-"@)
}

/// The fixed ids differ from each other and from every PHP-FPM id.
pub proof fn lemma_ids_distinct()
    ensures
        "nginx"@ != "mariadb"@,
        "nginx"@ != "phpmyadmin"@,
        "mariadb"@ != "phpmyadmin"@,
        !has_prefix("nginx"@, "php-fpm-"@),
        !has_prefix("mariadb"@, "php-fpm-"@),
        !has_prefix("phpmyadmin"@, "php-fpm-"@),
        forall|v: Seq<char>| has_prefix(#[trigger] ("php-fpm-"@ + v), "php-fpm-"@),
{
    reveal_strlit("nginx");
    reveal_strlit("mariadb");
    reveal_strlit("phpmyadmin");
    reveal_strlit("php-fpm-");
    assert("nginx"@[0] != "mariadb"@[0]);
    assert("nginx"@[0] != "phpmyadmin"@[0]);
    assert("mariadb"@[0] != "phpmyadmin"@[0]);
    assert("nginx"@.len() < "php-fpm-"@.len());
    assert("mariadb"@.len() < "php-fpm-"@.len());
    assert("phpmyadmin"@.subrange(0, 8)[3] == 'm');
    assert("php-fpm-"@[3] == '-');
    assert forall|v: Seq<char>| has_prefix(#[trigger] ("php-fpm-"@ + v), "php-fpm-"@) by {
        assert(("php-fpm-"@ + v).subrange(0, 8) =~= "php-fpm-"@);
    }
}

/// Whether the kind is supervised through an OS process of its own.
pub open spec fn has_process(k: ServiceKind) -> bool {
    !(k is PhpMyAdmin)
}

impl ServiceKind {
    /// The kind that a registry id names: `nginx`, `mariadb`, `phpmyadmin`,
    /// or `php-fpm-<version>`.
    pub fn parse(id: &str) -> (r: Option<ServiceKind>)
        ensures
            r is Some <==> is_known_id(id@),
            r is Some ==> id_of(r.unwrap()) == id@,
            id@ == "nginx"@ ==> r == Some(ServiceKind::Nginx),
            id@ == "mariadb"@ ==> r == Some(ServiceKind::MariaDb),
            id@ == "phpmyadmin"@ ==> r == Some(ServiceKind::PhpMyAdmin),
    {
        proof {
            lemma_ids_distinct();
        }
        if str_eq(id, "nginx") {
            Some(ServiceKind::Nginx)
        } else if str_eq(id, "mariadb") {
            Some(ServiceKind::MariaDb)
        } else if str_eq(id, "phpmyadmin") {
            Some(ServiceKind::PhpMyAdmin)
        } else {
            match strip_prefix(id, "php-fpm-") {
                Some(v) => {
                    let r = ServiceKind::PhpFpm(String::from_str(v));
                    proof {
                        assert(id@ =~= "php-fpm-"@ + v@);
                    }
                    Some(r)
                },
                None => None,
            }
        }
    }

    /// The registry id of this kind.
    pub fn id(&self) -> (r: String)
        ensures
            r@ == id_of(*self),
    {
        match self {
            ServiceKind::Nginx => String::from_str("nginx"),
            ServiceKind::MariaDb => String::from_str("mariadb"),
            ServiceKind::PhpMyAdmin => String::from_str("phpmyadmin"),
            ServiceKind::PhpFpm(v) => {
                let mut s = String::from_str("php-fpm-");
                s.append(v.as_str());
                s
            },
        }
    }

    /// The display name of this kind.
    pub fn display_name(&self) -> (r: String)
        ensures
            r@ == name_of(*self),
    {
        match self {
            ServiceKind::Nginx => String::from_str("Nginx"),
            ServiceKind::MariaDb => String::from_str("MariaDB"),
            ServiceKind::PhpMyAdmin => String::from_str("phpMyAdmin"),
            ServiceKind::PhpFpm(v) => {
                let mut s = String::from_str("PHP-FPM ");
                s.append(v.as_str());
                s
            },
        }
    }

    /// The port reported for this kind after a start or a stop.
    pub fn port(&self) -> (r: Option<u16>)
        ensures
            r == port_of(*self),
    {
        match self {
            ServiceKind::Nginx => Some(80),
            ServiceKind::MariaDb => Some(3306),
            ServiceKind::PhpMyAdmin => None,
            ServiceKind::PhpFpm(v) => Some(php_version_to_port(v.as_str())),
        }
    }
}

/// The failures that the operations report. Each carries a message for
/// display.
#[derive(Clone, Debug)]
pub enum AppError {
    /// The service's binary is not installed.
    NotInstalled(String),
    /// Unknown service id, or a missing resource.
    NotFound(String),
    /// The OS refused to start a process.
    ProcessSpawnFailed(String),
    /// A process could not be signalled.
    ProcessSignalFailed(String),
    /// A configuration file could not be written.
    ConfigWriteFailed(String),
    /// An interactive privilege elevation was cancelled or failed.
    PrivilegeElevationFailed(String),
    /// The registry's lock was poisoned.
    LockPoisoned(String),
    /// An argument was refused (a database name, a log path).
    InvalidInput(String),
}

} // verus!

verus! {

/// An entry brought up to date with what its driver observed: installed,
/// initialised and version are taken over; the status is `Running` with the
/// observed pid when the process was seen running, else `Stopped` with none.
/// Id, name and port stay.
pub open spec fn refreshed(e: ServiceInfo, o: Observed) -> ServiceInfo {
    ServiceInfo {
        id: e.id,
        name: e.name,
        status: if o.running {
            ServiceStatus::Running
        } else {
            ServiceStatus::Stopped
        },
        port: e.port,
        version: o.version,
        pid: if o.running {
            o.pid
        } else {
            None
        },
        installed: o.installed,
        initialized: o.initialized,
    }
}

/// The info of the admin web app, which has no process: it counts as
/// running exactly when it is installed.
pub open spec fn admin_info_ok(o: Observed, info: ServiceInfo) -> bool {
    &&& info.status == (if o.installed {
        ServiceStatus::Running
    } else {
        ServiceStatus::Stopped
    })
    &&& info.version == o.version
    &&& info.pid is None
    &&& info.installed == o.installed
    &&& info.initialized == o.installed
}

/// The info recorded when a service of kind `k` was started and its process
/// got `pid` (for the web server, 0 when its PID file could not be read
/// back), with `o` observed right after.
pub open spec fn started_info(k: ServiceKind, pid: u32, o: Observed, info: ServiceInfo) -> bool {
    &&& info.id@ == id_of(k)
    &&& info.name@ == name_of(k)
    &&& info.port == port_of(k)
    &&& match k {
        ServiceKind::PhpMyAdmin => admin_info_ok(o, info),
        _ => {
            &&& info.status == ServiceStatus::Running
            &&& info.installed
            &&& info.initialized
            &&& info.pid == (if k is Nginx && pid == 0 {
                o.pid
            } else {
                Some(pid)
            })
            &&& match k {
                ServiceKind::PhpFpm(v) => info.version is Some && info.version.unwrap()@ == v@,
                _ => info.version == o.version,
            }
        },
    }
}

/// The info recorded when a service of kind `k` was stopped, with `o`
/// observed right after.
pub open spec fn stopped_info(k: ServiceKind, o: Observed, info: ServiceInfo) -> bool {
    &&& info.id@ == id_of(k)
    &&& info.name@ == name_of(k)
    &&& info.port == port_of(k)
    &&& match k {
        ServiceKind::PhpMyAdmin => admin_info_ok(o, info),
        _ => {
            &&& info.status == ServiceStatus::Stopped
            &&& info.installed
            &&& info.initialized
            &&& info.pid is None
            &&& match k {
                ServiceKind::PhpFpm(v) => info.version is Some && info.version.unwrap()@ == v@,
                _ => info.version == o.version,
            }
        },
    }
}

impl Observed {
    /// A copy equal to `self` in every field.
    pub fn snapshot(&self) -> (r: Observed)
        ensures
            r == *self,
    {
        Observed {
            installed: self.installed,
            initialized: self.initialized,
            running: self.running,
            version: copy_opt_string(&self.version),
            pid: self.pid,
        }
    }
}

impl ServiceInfo {
    /// This entry brought up to date with an observation.
    pub fn refresh(&self, o: &Observed) -> (r: ServiceInfo)
        ensures
            r == refreshed(*self, *o),
    {
        ServiceInfo {
            id: self.id.clone(),
            name: self.name.clone(),
            status: if o.running {
                ServiceStatus::Running
            } else {
                ServiceStatus::Stopped
            },
            port: self.port,
            version: copy_opt_string(&o.version),
            pid: if o.running {
                o.pid
            } else {
                None
            },
            installed: o.installed,
            initialized: o.initialized,
        }
    }

    /// The info of a service of kind `k` that was just started; `pid` is
    /// what the driver returned (for the web server, 0 when its PID file
    /// could not be read back).
    pub fn started(k: &ServiceKind, pid: u32, o: &Observed) -> (r: ServiceInfo)
        ensures
            started_info(*k, pid, *o, r),
    {
        match k {
            ServiceKind::PhpMyAdmin => ServiceInfo::admin(o),
            ServiceKind::PhpFpm(v) => ServiceInfo {
                id: k.id(),
                name: k.display_name(),
                status: ServiceStatus::Running,
                port: k.port(),
                version: Some(v.clone()),
                pid: Some(pid),
                installed: true,
                initialized: true,
            },
            ServiceKind::Nginx => ServiceInfo {
                id: k.id(),
                name: k.display_name(),
                status: ServiceStatus::Running,
                port: k.port(),
                version: copy_opt_string(&o.version),
                pid: if pid > 0 {
                    Some(pid)
                } else {
                    o.pid
                },
                installed: true,
                initialized: true,
            },
            ServiceKind::MariaDb => ServiceInfo {
                id: k.id(),
                name: k.display_name(),
                status: ServiceStatus::Running,
                port: k.port(),
                version: copy_opt_string(&o.version),
                pid: Some(pid),
                installed: true,
                initialized: true,
            },
        }
    }

    /// The info of a service of kind `k` that was just stopped.
    pub fn stopped(k: &ServiceKind, o: &Observed) -> (r: ServiceInfo)
        ensures
            stopped_info(*k, *o, r),
    {
        match k {
            ServiceKind::PhpMyAdmin => ServiceInfo::admin(o),
            ServiceKind::PhpFpm(v) => ServiceInfo {
                id: k.id(),
                name: k.display_name(),
                status: ServiceStatus::Stopped,
                port: k.port(),
                version: Some(v.clone()),
                pid: None,
                installed: true,
                initialized: true,
            },
            _ => ServiceInfo {
                id: k.id(),
                name: k.display_name(),
                status: ServiceStatus::Stopped,
                port: k.port(),
                version: copy_opt_string(&o.version),
                pid: None,
                installed: true,
                initialized: true,
            },
        }
    }

    fn admin(o: &Observed) -> (r: ServiceInfo)
        ensures
            admin_info_ok(*o, r),
            r.id@ == id_of(ServiceKind::PhpMyAdmin),
            r.name@ == name_of(ServiceKind::PhpMyAdmin),
            r.port is None,
    {
        let k = ServiceKind::PhpMyAdmin;
        ServiceInfo {
            id: k.id(),
            name: k.display_name(),
            status: if o.installed {
                ServiceStatus::Running
            } else {
                ServiceStatus::Stopped
            },
            port: None,
            version: copy_opt_string(&o.version),
            pid: None,
            installed: o.installed,
            initialized: o.installed,
        }
    }
}

} // verus!
