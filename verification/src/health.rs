//! Health reporting: the liveness answer both the REST and the query
//! surfaces render, stamped with the time of the check.

use vstd::prelude::*;
use vstd::string::StringExecFns;

verus! {

/// Relies on chrono::Utc::now and its RFC 3339 rendering: the current time
/// as a timestamp string.
#[verifier::external_body]
fn now_rfc3339() -> (r: String) {
    chrono::Utc::now().to_rfc3339()
}

/// The liveness answer: an availability label and the time of the check.
#[derive(Clone, Debug)]
pub struct HealthResponse {
    pub status: String,
    pub timestamp: String,
}

impl HealthResponse {
    /// The answer of a live service: status `UP`, stamped now.
    pub fn up() -> (r: Self)
        ensures
            r.status@ == "UP"@,
    {
        HealthResponse { status: String::from_str("UP"), timestamp: now_rfc3339() }
    }
}

/// The same answer shaped for the query surface.
#[derive(Clone, Debug)]
pub struct Health {
    pub status: String,
    pub timestamp: String,
}

impl From<HealthResponse> for Health {
    /// Reshapes a health answer for the query surface, field for field.
    fn from(response: HealthResponse) -> (r: Health) {
        Health { status: response.status, timestamp: response.timestamp }
    }
}

impl vstd::std_specs::convert::FromSpecImpl<HealthResponse> for Health {
    open spec fn obeys_from_spec() -> bool {
        true
    }

    open spec fn from_spec(response: HealthResponse) -> Self {
        Health { status: response.status, timestamp: response.timestamp }
    }
}

/// Entry point for health queries.
pub struct HealthQuery;

impl HealthQuery {
    /// Answers a health query: a live service, stamped now.
    pub fn health(&self) -> (r: Health)
        ensures
            r.status@ == "UP"@,
    {
        Health::from(HealthResponse::up())
    }
}

impl Default for HealthQuery {
    /// The only value there is.
    fn default() -> (r: Self)
        ensures
            r == HealthQuery,
    {
        HealthQuery
    }
}

} // verus!
