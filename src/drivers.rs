//! What the service drivers report. Each driver looks at the disk (is the
//! binary there?), at its PID file (read, then probed) and at the version its
//! binary prints; these functions turn those findings into the driver's info
//! and into the uniform observation that reconciliation consumes.
use vstd::prelude::*;
use crate::pid::{trim_str, trimmed};
use crate::state::{AppError, Observed};
use crate::utils::{fpm_port_of, php_version_to_port};

verus! {

/// What the web-server driver reports.
#[derive(Clone, Debug)]
pub struct NginxInfo {
    pub installed: bool,
    pub running: bool,
    pub version: Option<String>,
    pub pid: Option<u32>,
    pub port: u16,
    pub config_path: String,
}

/// What the database driver reports.
#[derive(Clone, Debug)]
pub struct MariaDbInfo {
    pub installed: bool,
    pub initialized: bool,
    pub running: bool,
    pub version: Option<String>,
    pub pid: Option<u32>,
    pub port: u16,
    pub data_dir: String,
}

/// What the admin web-app driver reports.
#[derive(Clone, Debug)]
pub struct PhpMyAdminInfo {
    pub installed: bool,
    pub version: Option<String>,
    pub path: String,
}

/// What the PHP driver reports of one PHP version.
#[derive(Clone, Debug)]
pub struct PhpVersion {
    pub version: String,
    pub installed: bool,
    pub running: bool,
    pub port: u16,
    pub pid: Option<u32>,
    pub path: Option<String>,
}

/// What was found of one PHP version: whether its binary is there, the state
/// of its FPM PID file once probed (alive, and the pid when alive), and its
/// install prefix.
#[derive(Clone, Debug)]
pub struct PhpProbe {
    pub version: String,
    pub installed: bool,
    pub alive: bool,
    pub pid: Option<u32>,
    pub path: Option<String>,
}

/// The web-server driver.
pub struct NginxManager;

/// The database driver.
pub struct MariaDbManager;

/// The admin web-app driver.
pub struct PhpMyAdminManager;

/// The PHP-FPM driver, one runtime per PHP version.
pub struct PhpManager;

/// `s` after its last `c` (all of `s` when there is none).
pub open spec fn after_last(s: Seq<char>, c: char) -> Seq<char>
    decreases s.len(),
{
    if s.len() == 0 {
        s
    } else if s.last() == c {
        Seq::empty()
    } else {
        after_last(s.drop_last(), c).push(s.last())
    }
}

/// The default version reported for an installed admin web app that has no
/// version file.
pub const PHPMYADMIN_VERSION: &'static str = "5.2.2";

/// The state of a PID file counts only for an installed service.
pub open spec fn gated(installed: bool, pid_state: (bool, Option<u32>)) -> (bool, Option<u32>) {
    if installed {
        pid_state
    } else {
        (false, None)
    }
}

impl NginxManager {
    /// The version that `nginx -v` prints on stderr (`nginx version:
    /// nginx/1.28.2`): the text after the last `/`, trimmed.
    pub fn parse_version(stderr: &str) -> (r: String)
        ensures
            r@ == trimmed(after_last(stderr@, '/')),
    {
        let n = stderr.unicode_len();
        let mut i: usize = n;
        proof {
            assert(stderr@.subrange(0, n as int) =~= stderr@);
            assert(stderr@.subrange(n as int, n as int) =~= Seq::<char>::empty());
        }
        while i > 0 && stderr.get_char(i - 1) != '/'
            invariant
                n == stderr@.len(),
                i <= n,
                after_last(stderr@, '/') == after_last(stderr@.subrange(0, i as int), '/')
                    + stderr@.subrange(i as int, n as int),
            decreases i,
        {
            proof {
                let p = stderr@.subrange(0, i as int);
                assert(p.drop_last() =~= stderr@.subrange(0, i - 1));
                assert(stderr@.subrange(i - 1, n as int) =~= seq![p.last()]
                    + stderr@.subrange(i as int, n as int));
                assert(after_last(p.drop_last(), '/').push(p.last()) + stderr@.subrange(
                    i as int,
                    n as int,
                ) =~= after_last(p.drop_last(), '/') + stderr@.subrange(i - 1, n as int));
            }
            i = i - 1;
        }
        proof {
            let p = stderr@.subrange(0, i as int);
            assert(after_last(p, '/') =~= Seq::<char>::empty());
            assert(after_last(stderr@, '/') =~= stderr@.subrange(i as int, n as int));
        }
        trim_str(stderr.substring_char(i, n))
    }

    /// The web server's info from what was found: a missing binary means
    /// not running, no pid and no version.
    pub fn get_info(
        installed: bool,
        pid_state: (bool, Option<u32>),
        version: Option<String>,
        config_path: String,
    ) -> (r: NginxInfo)
        ensures
            r.installed == installed,
            (r.running, r.pid) == gated(installed, pid_state),
            r.version == (if installed {
                version
            } else {
                None
            }),
            r.port == 80,
            r.config_path == config_path,
    {
        let (running, pid) = if installed {
            pid_state
        } else {
            (false, None)
        };
        NginxInfo {
            installed,
            running,
            version: if installed {
                version
            } else {
                None
            },
            pid,
            port: 80,
            config_path,
        }
    }
}

impl NginxInfo {
    /// The observation reconciliation takes from this info.
    pub fn observed(&self) -> (r: Observed)
        ensures
            r.installed == self.installed,
            r.initialized,
            r.running == self.running,
            r.version == self.version,
            r.pid == self.pid,
    {
        Observed {
            installed: self.installed,
            initialized: true,
            running: self.running,
            version: crate::state::copy_opt_string(&self.version),
            pid: self.pid,
        }
    }
}

impl MariaDbManager {
    /// The database's info from what was found: a missing binary means not
    /// running, no pid and no version.
    pub fn get_info(
        installed: bool,
        initialized: bool,
        pid_state: (bool, Option<u32>),
        version: Option<String>,
        data_dir: String,
    ) -> (r: MariaDbInfo)
        ensures
            r.installed == installed,
            r.initialized == initialized,
            (r.running, r.pid) == gated(installed, pid_state),
            r.version == (if installed {
                version
            } else {
                None
            }),
            r.port == 3306,
            r.data_dir == data_dir,
    {
        let (running, pid) = if installed {
            pid_state
        } else {
            (false, None)
        };
        MariaDbInfo {
            installed,
            initialized,
            running,
            version: if installed {
                version
            } else {
                None
            },
            pid,
            port: 3306,
            data_dir,
        }
    }
}

impl MariaDbInfo {
    /// The observation reconciliation takes from this info.
    pub fn observed(&self) -> (r: Observed)
        ensures
            r.installed == self.installed,
            r.initialized == self.initialized,
            r.running == self.running,
            r.version == self.version,
            r.pid == self.pid,
    {
        Observed {
            installed: self.installed,
            initialized: self.initialized,
            running: self.running,
            version: crate::state::copy_opt_string(&self.version),
            pid: self.pid,
        }
    }
}

impl PhpMyAdminManager {
    /// The admin web app's info: installed when its entry page is there; its
    /// version is the one in its version file, else the default one.
    pub fn get_info(installed: bool, detected_version: Option<String>, path: String) -> (r:
        PhpMyAdminInfo)
        ensures
            r.installed == installed,
            !installed ==> r.version is None,
            installed && detected_version is Some ==> r.version == detected_version,
            installed && detected_version is None ==> r.version is Some && r.version.unwrap()@
                == PHPMYADMIN_VERSION@,
            r.path == path,
    {
        let version = if installed {
            match detected_version {
                Some(v) => Some(v),
                None => Some(String::from_str(PHPMYADMIN_VERSION)),
            }
        } else {
            None
        };
        PhpMyAdminInfo { installed, version, path }
    }
}

impl PhpMyAdminInfo {
    /// The observation reconciliation takes from this info: no process, so
    /// it counts as running exactly when installed.
    pub fn observed(&self) -> (r: Observed)
        ensures
            r.installed == self.installed,
            r.initialized == self.installed,
            r.running == self.installed,
            r.version == self.version,
            r.pid is None,
    {
        Observed {
            installed: self.installed,
            initialized: self.installed,
            running: self.installed,
            version: crate::state::copy_opt_string(&self.version),
            pid: None,
        }
    }
}

/// The info of one PHP version from what was found of it.
pub open spec fn php_version_info(p: PhpProbe, r: PhpVersion) -> bool {
    &&& r.version == p.version
    &&& r.installed == p.installed
    &&& (r.running, r.pid) == gated(p.installed, (p.alive, p.pid))
    &&& r.port == fpm_port_of(p.version@)
    &&& r.path == (if p.installed {
        p.path
    } else {
        None
    })
}

impl PhpManager {
    /// The PHP versions this driver knows, in order.
    pub fn supported_versions() -> (r: Vec<String>)
        ensures
            r@.len() == 4,
            r@[0]@ == "8.1"@,
            r@[1]@ == "8.2"@,
            r@[2]@ == "8.3"@,
            r@[3]@ == "8.4"@,
    {
        let mut r: Vec<String> = Vec::new();
        r.push(String::from_str("8.1"));
        r.push(String::from_str("8.2"));
        r.push(String::from_str("8.3"));
        r.push(String::from_str("8.4"));
        r
    }

    /// The info of each probed PHP version, in the order probed.
    pub fn list_versions(probes: &Vec<PhpProbe>) -> (r: Vec<PhpVersion>)
        ensures
            r@.len() == probes@.len(),
            forall|i: int| 0 <= i < r@.len() ==> php_version_info(probes@[i], #[trigger] r@[i]),
    {
        let mut r: Vec<PhpVersion> = Vec::new();
        let mut i: usize = 0;
        while i < probes.len()
            invariant
                i <= probes@.len(),
                r@.len() == i,
                forall|j: int| 0 <= j < i ==> php_version_info(probes@[j], #[trigger] r@[j]),
            decreases probes@.len() - i,
        {
            let p = &probes[i];
            let (running, pid) = if p.installed {
                (p.alive, p.pid)
            } else {
                (false, None)
            };
            r.push(
                PhpVersion {
                    version: p.version.clone(),
                    installed: p.installed,
                    running,
                    port: php_version_to_port(p.version.as_str()),
                    pid,
                    path: if p.installed {
                        crate::state::copy_opt_string(&p.path)
                    } else {
                        None
                    },
                },
            );
            i = i + 1;
        }
        r
    }
}

impl PhpVersion {
    /// The observation reconciliation takes from this info.
    pub fn observed(&self) -> (r: Observed)
        ensures
            r.installed == self.installed,
            r.initialized,
            r.running == self.running,
            r.version is Some && r.version.unwrap() == self.version,
            r.pid == self.pid,
    {
        Observed {
            installed: self.installed,
            initialized: true,
            running: self.running,
            version: Some(self.version.clone()),
            pid: self.pid,
        }
    }
}

} // verus!

verus! {

/// The first word of `s` that contains `tag`, where words are the maximal
/// runs of characters that are not white space; `cur` is the part of a
/// word already passed.
pub open spec fn scan_tagged(s: Seq<char>, cur: Seq<char>, tag: Seq<char>) -> Option<Seq<char>>
    decreases s.len(),
{
    if s.len() == 0 || crate::pid::is_ws(s[0]) {
        if cur.len() > 0 && crate::text::contains(cur, tag) {
            Some(cur)
        } else if s.len() == 0 {
            None
        } else {
            scan_tagged(s.drop_first(), Seq::empty(), tag)
        }
    } else {
        scan_tagged(s.drop_first(), cur.push(s[0]), tag)
    }
}

/// `w` with every occurrence of `tag` removed, left to right.
pub open spec fn remove_all(w: Seq<char>, tag: Seq<char>) -> Seq<char>
    decreases w.len(),
{
    if tag.len() == 0 || w.len() < tag.len() {
        w
    } else if crate::text::occurs_at(w, tag, 0) {
        remove_all(w.subrange(tag.len() as int, w.len() as int), tag)
    } else {
        seq![w[0]] + remove_all(w.drop_first(), tag)
    }
}

pub const MARIADB_TAG: &'static str = "-MariaDB";

/// `w` without any `tag`.
pub fn strip_all(w: &str, tag: &str) -> (r: String)
    ensures
        r@ == remove_all(w@, tag@),
{
    let n = w.unicode_len();
    let m = tag.unicode_len();
    let wc = crate::text::chars_of(w);
    let tc = crate::text::chars_of(tag);
    let mut out = String::new();
    let mut seg: usize = 0;
    let mut i: usize = 0;
    proof {
        assert(w@.subrange(0, n as int) =~= w@);
        assert(w@.subrange(0, 0) =~= Seq::<char>::empty());
        assert(out@ + w@.subrange(0, 0) =~= Seq::<char>::empty());
    }
    while i < n
        invariant
            n == w@.len(),
            m == tag@.len(),
            wc@ == w@,
            tc@ == tag@,
            seg <= i <= n,
            remove_all(w@, tag@) == out@ + w@.subrange(seg as int, i as int) + remove_all(
                w@.subrange(i as int, n as int),
                tag@,
            ),
        decreases n - i,
    {
        let ghost rest = w@.subrange(i as int, n as int);
        if m == 0 || n - i < m {
            proof {
                assert(remove_all(rest, tag@) == rest);
                assert(w@.subrange(seg as int, i as int) + rest =~= w@.subrange(seg as int, n as int));
                assert(w@.subrange(n as int, n as int) =~= Seq::<char>::empty());
                assert(remove_all(w@.subrange(n as int, n as int), tag@) =~= Seq::<char>::empty());
                assert(out@ + w@.subrange(seg as int, n as int) + Seq::<char>::empty() =~= out@ + w@.subrange(seg as int, n as int));
            }
            i = n;
        } else {
            let mut j: usize = 0;
            let mut hit = true;
            while j < m
                invariant
                    i + m <= n,
                    n == wc@.len(),
                    m == tc@.len(),
                    j <= m,
                    hit == (forall|k: int| 0 <= k < j ==> wc@[i + k] == tc@[k]),
                decreases m - j,
            {
                if wc[i + j] != tc[j] {
                    hit = false;
                }
                j = j + 1;
            }
            proof {
                if hit {
                    assert(rest.subrange(0, m as int) =~= tag@);
                } else {
                    let k = choose|k: int| 0 <= k < m && wc@[i + k] != tc@[k];
                    assert(rest.subrange(0, m as int)[k] != tag@[k]);
                }
                assert(hit == crate::text::occurs_at(rest, tag@, 0));
            }
            if hit {
                let piece = w.substring_char(seg, i);
                out.append(piece);
                proof {
                    assert(rest.subrange(m as int, rest.len() as int) =~= w@.subrange(i + m, n as int));
                    assert(w@.subrange(i + m, i + m) =~= Seq::<char>::empty());
                }
                i = i + m;
                seg = i;
                proof {
                    assert(out@ + w@.subrange(seg as int, i as int) =~= out@);
                }
            } else {
                proof {
                    assert(rest.drop_first() =~= w@.subrange(i + 1, n as int));
                    assert(w@.subrange(seg as int, i + 1) =~= w@.subrange(seg as int, i as int) + seq![rest[0]]);
                }
                i = i + 1;
            }
        }
    }
    let piece = w.substring_char(seg, n);
    out.append(piece);
    proof {
        assert(w@.subrange(n as int, n as int) =~= Seq::<char>::empty());
        assert(out@ =~= remove_all(w@, tag@));
    }
    out
}

impl MariaDbManager {
    /// The version that `mysqld --version` prints (`mysqld  Ver
    /// 11.4.10-MariaDB for osx10.19 on arm64`): its first word holding
    /// `-MariaDB`, without that tag.
    pub fn parse_version(stdout: &str) -> (r: Option<String>)
        ensures
            match scan_tagged(stdout@, Seq::empty(), MARIADB_TAG@) {
                Some(w) => r is Some && r.unwrap()@ == remove_all(w, MARIADB_TAG@),
                None => r is None,
            },
    {
        let n = stdout.unicode_len();
        let tag = crate::text::chars_of(MARIADB_TAG);
        let mut start: usize = 0;
        let mut i: usize = 0;
        proof {
            assert(stdout@.subrange(0, n as int) =~= stdout@);
            assert(stdout@.subrange(0, 0) =~= Seq::<char>::empty());
        }
        while i < n
            invariant
                n == stdout@.len(),
                tag@ == MARIADB_TAG@,
                start <= i <= n,
                scan_tagged(stdout@, Seq::empty(), MARIADB_TAG@) == scan_tagged(
                    stdout@.subrange(i as int, n as int),
                    stdout@.subrange(start as int, i as int),
                    MARIADB_TAG@,
                ),
            decreases n - i,
        {
            let c = stdout.get_char(i);
            let ghost rest = stdout@.subrange(i as int, n as int);
            proof {
                assert(rest[0] == c);
                assert(rest.drop_first() =~= stdout@.subrange(i + 1, n as int));
            }
            if crate::pid::is_white_space(c) {
                if start < i {
                    let word = stdout.substring_char(start, i);
                    let wc = crate::text::chars_of(word);
                    if crate::text::seq_contains(&wc, &tag) {
                        return Some(strip_all(word, MARIADB_TAG));
                    }
                }
                proof {
                    assert(stdout@.subrange(i + 1, i + 1) =~= Seq::<char>::empty());
                }
                i = i + 1;
                start = i;
            } else {
                proof {
                    assert(stdout@.subrange(start as int, i + 1) =~= stdout@.subrange(start as int, i as int).push(c));
                }
                i = i + 1;
            }
        }
        if start < n {
            let word = stdout.substring_char(start, n);
            let wc = crate::text::chars_of(word);
            if crate::text::seq_contains(&wc, &tag) {
                return Some(strip_all(word, MARIADB_TAG));
            }
        }
        None
    }
}

} // verus!

verus! {

/// What starting the web server does once its configuration is up to date.
#[derive(Clone, Copy, Debug, PartialEq, Eq, Structural)]
pub enum NginxStartStep {
    /// It already runs with this pid: reload it if the configuration
    /// changed, and start nothing.
    Reuse { reload: bool, pid: u32 },
    /// Spawn it; first reload the running instance if one runs without a
    /// known pid and the configuration changed.
    Spawn { reload: bool },
}

impl NginxManager {
    /// A start needs the binary: `NotInstalled` otherwise, before any work.
    pub fn require_installed(installed: bool) -> (r: Result<(), AppError>)
        ensures
            r is Ok <==> installed,
            r is Err ==> r->Err_0 is NotInstalled,
    {
        if installed {
            Ok(())
        } else {
            Err(AppError::NotInstalled(String::from_str("Nginx is not installed")))
        }
    }

    /// The decision of a start, from whether the configuration was just
    /// rewritten and what the PID file says: a running server with a known
    /// pid is reused (a changed configuration forces a reload, not a
    /// restart); otherwise the server is spawned.
    pub fn start_step(config_changed: bool, running: bool, pid: Option<u32>) -> (r: NginxStartStep)
        ensures
            running && pid is Some ==> r == (NginxStartStep::Reuse {
                reload: config_changed,
                pid: pid.unwrap(),
            }),
            !(running && pid is Some) ==> r == (NginxStartStep::Spawn {
                reload: running && config_changed,
            }),
    {
        if running {
            match pid {
                Some(p) => NginxStartStep::Reuse { reload: config_changed, pid: p },
                None => NginxStartStep::Spawn { reload: config_changed },
            }
        } else {
            NginxStartStep::Spawn { reload: false }
        }
    }

    /// The pid reported after a spawn: the one read back from the PID file,
    /// or 0 when it could not be read.
    pub fn started_pid(read_back: Option<u32>) -> (r: u32)
        ensures
            r == match read_back {
                Some(p) => p,
                None => 0u32,
            },
    {
        match read_back {
            Some(p) => p,
            None => 0,
        }
    }
}

} // verus!

verus! {

pub const POOL_HEAD: &'static str = "[global]\npid = ";
pub const POOL_LOG: &'static str = "\nerror_log = ";
pub const POOL_LISTEN: &'static str = "\nlog_level = notice\ndaemonize = no\n\n[www]\nlisten = 127.0.0.1:";
pub const POOL_TAIL: &'static str = "\npm = dynamic\npm.max_children = 5\npm.start_servers = 2\npm.min_spare_servers = 1\npm.max_spare_servers = 3\n";

/// The pool configuration of the FPM of PHP `version`: its PID file, its
/// log, and its port.
pub open spec fn pool_config_text(version: Seq<char>, pid_path: Seq<char>, log_path: Seq<char>) -> Seq<char> {
    POOL_HEAD@ + pid_path + POOL_LOG@ + log_path + POOL_LISTEN@ + crate::text::decimal(
        fpm_port_of(version) as nat,
    ) + POOL_TAIL@
}

impl PhpManager {
    /// The pool configuration written before the FPM of `version` starts;
    /// it is regenerated on every start so that the port is always right.
    pub fn fpm_pool_config(version: &str, pid_path: &str, log_path: &str) -> (r: String)
        ensures
            r@ == pool_config_text(version@, pid_path@, log_path@),
    {
        let port = crate::text::decimal_string(php_version_to_port(version) as u32);
        let mut s = String::from_str(POOL_HEAD);
        s.append(pid_path);
        s.append(POOL_LOG);
        s.append(log_path);
        s.append(POOL_LISTEN);
        s.append(port.as_str());
        s.append(POOL_TAIL);
        s
    }
}

} // verus!
