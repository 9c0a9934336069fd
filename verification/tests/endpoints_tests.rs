use dustcfg::endpoints::{api_endpoints, EndpointNames};

#[test]
fn test_endpoint_names_new() {
    let names = EndpointNames::new("/api/v1/health_check", "/api/v1/create_user");
    assert_eq!("/api/v1/health_check", names.health_check);
    assert_eq!("/api/v1/create_user", names.create_user);
}

#[test]
fn test_api_endpoints_fixed_routes() {
    let names = api_endpoints();
    assert_eq!("/api/v1/health_check", names.health_check);
    assert_eq!("/api/v1/create_user", names.create_user);
}
