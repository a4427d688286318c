//! Service management on a platform that has none: every request is
//! refused.

use vstd::prelude::*;
use crate::service::ServiceStatus;

verus! {

/// The refusal given for every service request.
pub open spec fn refusal() -> Seq<char> {
    "Service management is not supported on this platform"@
}

/// Refuses a request.
pub fn unsupported() -> (r: Result<(), String>)
    ensures
        r matches Err(e) && e@ == refusal(),
{
    Err("Service management is not supported on this platform".to_string())
}

/// Installing the service is refused.
pub fn install_agent() -> (r: Result<(), String>)
    ensures
        r matches Err(e) && e@ == refusal(),
{
    unsupported()
}

/// Removing the service is refused.
pub fn uninstall_agent() -> (r: Result<(), String>)
    ensures
        r matches Err(e) && e@ == refusal(),
{
    unsupported()
}

/// Starting the service is refused.
pub fn start_agent() -> (r: Result<(), String>)
    ensures
        r matches Err(e) && e@ == refusal(),
{
    unsupported()
}

/// Stopping the service is refused.
pub fn stop_agent() -> (r: Result<(), String>)
    ensures
        r matches Err(e) && e@ == refusal(),
{
    unsupported()
}

/// Asking for the service's status is refused.
pub fn service_status() -> (r: Result<ServiceStatus, String>)
    ensures
        r matches Err(e) && e@ == refusal(),
{
    Err("Service management is not supported on this platform".to_string())
}

/// Showing the service's logs is refused.
pub fn print_logs(lines: usize, follow: bool) -> (r: Result<(), String>)
    ensures
        r matches Err(e) && e@ == refusal(),
{
    unsupported()
}

} // verus!
