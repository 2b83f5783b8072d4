//! The liveness endpoint: a fixed answer to every probe, with no state and no
//! tie to any command being processed.

use vstd::prelude::*;

verus! {

/// The port on which probes are answered.
pub const HEALTH_PORT: u16 = 8080;

/// The status of every answer.
pub const HEALTHY_STATUS: u16 = 200;

/// The body of every answer.
pub const HEALTHY_BODY: &'static str = "Service is healthy";

/// One probe from the infrastructure: an HTTP method and a path.
#[derive(Debug, Clone, PartialEq, Eq)]
pub struct Probe {
    pub method: String,
    pub path: String,
}

/// The answer to a probe: an HTTP status and a body.
#[derive(Debug, Clone, PartialEq, Eq)]
pub struct HealthReport {
    pub status: u16,
    pub body: String,
}

/// Answers a probe. Whatever the method and the path, the status is 200 and
/// the body is the same non-empty text.
pub fn health_check(probe: &Probe) -> (report: HealthReport)
    ensures
        report.status == 200,
        report.body@ == HEALTHY_BODY@,
        report.body@.len() > 0,
{
    proof {
        reveal_strlit("Service is healthy");
    }
    HealthReport { status: HEALTHY_STATUS, body: HEALTHY_BODY.to_owned() }
}

} // verus!
