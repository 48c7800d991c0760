//! The request and response types of a small echo service, and what its
//! handlers compute.
use vstd::prelude::*;
use vstd::string::StringExecFns;

use crate::route::Request;

verus! {

/// A request to echo a message back.
pub struct Echo {
    pub message: String,
}

/// The answer to an `Echo`.
pub struct EchoResponse {
    pub echoed: String,
    pub timestamp: u64,
}

/// A request for the service's health.
pub struct HealthCheck;

/// The answer to a `HealthCheck`.
pub struct HealthStatus {
    pub healthy: bool,
    pub version: String,
}

impl Request for Echo {
    type Response = EchoResponse;

    open spec fn spec_route_id() -> Seq<char> {
        "echo_v1"@
    }

    fn route_id() -> (r: &'static str) {
        proof {
            reveal_strlit("echo_v1");
        }
        "echo_v1"
    }
}

impl Request for HealthCheck {
    type Response = HealthStatus;

    open spec fn spec_route_id() -> Seq<char> {
        "health_v1"@
    }

    fn route_id() -> (r: &'static str) {
        proof {
            reveal_strlit("health_v1");
        }
        "health_v1"
    }
}

/// The answer to `req` at `timestamp` (seconds since the Unix epoch): the
/// message prefixed with `"You said: "`.
pub fn handle_echo(req: &Echo, timestamp: u64) -> (r: EchoResponse)
    ensures
        r.echoed@ == "You said: "@ + req.message@,
        r.timestamp == timestamp,
{
    proof {
        reveal_strlit("You said: ");
    }
    let echoed = "You said: ".to_owned().concat(req.message.as_str());
    EchoResponse { echoed, timestamp }
}

/// The answer to a health check from a service at `version`: healthy.
pub fn handle_health(_req: &HealthCheck, version: &str) -> (r: HealthStatus)
    ensures
        r.healthy,
        r.version@ == version@,
{
    HealthStatus { healthy: true, version: version.to_owned() }
}

} // verus!
