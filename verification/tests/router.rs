use fastdl::http::param;
use fastdl::router::{body_kind, match_route, route_request, routes, BodyKind, RouteId};

#[test]
fn matches_each_public_route() {
    let cases = [
        ("GET", "/admin/nodes", RouteId::AdminNodes),
        ("GET", "/nodes/1/config", RouteId::NodeConfigGet),
        ("PUT", "/nodes/1/config", RouteId::NodeConfigUpdate),
        ("GET", "/nodes/1/status", RouteId::NodeStatus),
        ("POST", "/nodes/1/setup", RouteId::NodeSetup),
        ("POST", "/nodes/1/sync", RouteId::NodeSync),
        ("GET", "/servers/3/fastdl", RouteId::ServerFastdlGet),
        ("PUT", "/servers/3/fastdl", RouteId::ServerFastdlUpdate),
        ("POST", "/servers/3/fastdl/configure", RouteId::ServerFastdlConfigure),
    ];

    for (method, path, expected) in cases {
        let (route, _) = match_route(method, path).unwrap();
        assert_eq!(route, expected, "{method} {path}");
    }
}

#[test]
fn captures_entity_parameters_with_trailing_slash() {
    let (_, params) = match_route("PUT", "/servers/37/fastdl/").unwrap();
    assert_eq!(param(&params, "serverId").map(String::as_str), Some("37"));

    let (_, params) = match_route("POST", "/nodes/5/setup").unwrap();
    assert_eq!(param(&params, "nodeId").map(String::as_str), Some("5"));
}

#[test]
fn rejects_unknown_methods_and_extra_segments() {
    for (method, path) in [
        ("DELETE", "/servers/3/fastdl"),
        ("GET", "/servers/3/fastdl/extra"),
        ("POST", "/nodes/1/unknown"),
        ("GET", "/unknown"),
        ("GET", "servers/3/fastdl"),
    ] {
        assert!(match_route(method, path).is_none(), "{method} {path}");
    }
}

#[test]
fn registers_authentication_and_admin_scope() {
    let routes = routes();
    assert_eq!(routes.len(), 9);
    for route in routes {
        assert_eq!(
            route.admin_only,
            route.pattern.starts_with("/admin/") || route.pattern.starts_with("/nodes/"),
            "{}",
            route.pattern
        );
        assert!(!route.description.is_empty());
    }
}

#[test]
fn requests_need_a_signed_in_user_before_routing() {
    for user in [None, Some(0)] {
        let error = route_request("GET", "/admin/nodes", user).unwrap_err();
        assert_eq!(error.status, 401);
        assert_eq!(error.code, "UNAUTHENTICATED");
        assert_eq!(error.message, "Authentication required");
    }
    let error = route_request("GET", "/missing", Some(1)).unwrap_err();
    assert_eq!(error.status, 404);
    assert_eq!(error.message, "Route not found");
    let (route, params, user) = route_request("GET", "/servers/9/fastdl", Some(4)).unwrap();
    assert_eq!(route, RouteId::ServerFastdlGet);
    assert_eq!(param(&params, "serverId").map(String::as_str), Some("9"));
    assert_eq!(user, 4);
}

#[test]
fn only_updates_and_setup_read_a_body() {
    assert_eq!(body_kind(RouteId::NodeSetup), BodyKind::Setup);
    assert_eq!(body_kind(RouteId::NodeConfigUpdate), BodyKind::NodeConfig);
    assert_eq!(body_kind(RouteId::ServerFastdlUpdate), BodyKind::Server);
    for route in [
        RouteId::AdminNodes,
        RouteId::NodeConfigGet,
        RouteId::NodeStatus,
        RouteId::NodeSync,
        RouteId::ServerFastdlGet,
        RouteId::ServerFastdlConfigure,
    ] {
        assert_eq!(body_kind(route), BodyKind::Empty);
    }
}
