//! The named API endpoints that the surrounding system publishes for its
//! front end.

use vstd::prelude::*;

verus! {

/// The route names of the published API endpoints.
pub struct EndpointNames {
    pub health_check: &'static str,
    pub create_user: &'static str,
}

impl EndpointNames {
    /// Build the pair of endpoint route names.
    pub fn new(health_check_api: &'static str, create_user_api: &'static str) -> (r: Self)
        ensures
            r.health_check@ == health_check_api@,
            r.create_user@ == create_user_api@,
    {
        EndpointNames { health_check: health_check_api, create_user: create_user_api }
    }
}

/// The fixed endpoints of the current API version.
pub fn api_endpoints() -> (r: EndpointNames)
    ensures
        r.health_check@ == "/api/v1/health_check"@,
        r.create_user@ == "/api/v1/create_user"@,
{
    EndpointNames::new("/api/v1/health_check", "/api/v1/create_user")
}

} // verus!
