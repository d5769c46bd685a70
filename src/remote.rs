//! The supervisory service's health answer.

use vstd::prelude::*;
use crate::text::same_text;

verus! {

/// The body of a health answer.
#[derive(Debug, Clone)]
pub struct HealthResponse {
    pub status: u16,
    pub endpoint: String,
}

/// State of the remote routes.
#[derive(Debug, Clone, Copy)]
pub struct RemoteState {}

/// The service is healthy: the request succeeded and the body reports
/// status 200 with endpoint "active".
pub fn is_healthy(request_ok: bool, health: &HealthResponse) -> (r: bool)
    ensures
        r == (request_ok && health.status == 200 && health.endpoint@ == "active"@),
{
    request_ok && health.status == 200 && same_text(health.endpoint.as_str(), "active")
}

} // verus!
