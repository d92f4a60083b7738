//! The safety net run at exit: after the owned child processes were ended,
//! every service kind that may still run is stopped through its driver.
use vstd::prelude::*;
use crate::state::ServiceKind;

verus! {

/// The kinds stopped by the safety net, in order: the web server, the
/// database, and the FPM of every known PHP version.
pub open spec fn is_shutdown_plan(r: Seq<ServiceKind>) -> bool {
    &&& r.len() == 6
    &&& r[0] is Nginx
    &&& r[1] is MariaDb
    &&& r[2] matches ServiceKind::PhpFpm(v) && v@ == "8.1"@
    &&& r[3] matches ServiceKind::PhpFpm(v) && v@ == "8.2"@
    &&& r[4] matches ServiceKind::PhpFpm(v) && v@ == "8.3"@
    &&& r[5] matches ServiceKind::PhpFpm(v) && v@ == "8.4"@
}

/// What the safety net stops, whether or not this run started it (a
/// service started with elevated privileges has no owned handle).
pub fn shutdown_targets() -> (r: Vec<ServiceKind>)
    ensures
        is_shutdown_plan(r@),
{
    let mut r: Vec<ServiceKind> = Vec::new();
    r.push(ServiceKind::Nginx);
    r.push(ServiceKind::MariaDb);
    r.push(ServiceKind::PhpFpm(String::from_str("8.1")));
    r.push(ServiceKind::PhpFpm(String::from_str("8.2")));
    r.push(ServiceKind::PhpFpm(String::from_str("8.3")));
    r.push(ServiceKind::PhpFpm(String::from_str("8.4")));
    r
}

} // verus!
