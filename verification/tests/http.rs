use fastdl::host_api::HostApiError;
use fastdl::http::{check_body_size, invalid_body, json_headers, parse_u64_param, ApiError, Params, MAX_REQUEST_BODY_SIZE};

fn params(entries: &[(&str, &str)]) -> Params {
    entries.iter().map(|(k, v)| (k.to_string(), v.to_string())).collect()
}

#[test]
fn entity_parameters_must_be_positive_u64_values() {
    assert!(parse_u64_param(&Vec::new(), "serverId").is_err());
    for value in ["", "0", "-1", "abc", "18446744073709551616"] {
        let params = params(&[("serverId", value)]);
        let error = parse_u64_param(&params, "serverId").unwrap_err();
        assert_eq!(error.status, 400, "{value}");
        assert_eq!(error.message, "Invalid entity reference", "{value}");
    }

    let params = params(&[("serverId", "17")]);
    assert_eq!(parse_u64_param(&params, "serverId").unwrap(), 17);
}

#[test]
fn entity_parameters_accept_the_full_u64_range_and_a_plus_sign() {
    let p = params(&[("serverId", "18446744073709551615")]);
    assert_eq!(parse_u64_param(&p, "serverId").unwrap(), u64::MAX);
    let p = params(&[("serverId", "+5")]);
    assert_eq!(parse_u64_param(&p, "serverId").unwrap(), 5);
    let p = params(&[("serverId", "+")]);
    assert!(parse_u64_param(&p, "serverId").is_err());
    let p = params(&[("nodeId", "5")]);
    assert!(parse_u64_param(&p, "serverId").is_err());
}

#[test]
fn host_errors_do_not_expose_internal_details() {
    let error = ApiError::from_host(HostApiError::Op("secret command and paths".into()));
    assert_eq!(error.status, 502);
    assert_eq!(error.code, "NODE_UNAVAILABLE");
    assert!(!error.message.contains("secret"));
    assert_eq!(error.server_name, None);
}

#[test]
fn limits_request_bodies_before_json_parsing() {
    assert!(check_body_size(MAX_REQUEST_BODY_SIZE).is_ok());
    let error = check_body_size(MAX_REQUEST_BODY_SIZE + 1).unwrap_err();
    assert_eq!(error.status, 400);
    assert_eq!(error.code, "INVALID_INPUT");
    assert_eq!(error.message, "Request body too large");
    assert_eq!(MAX_REQUEST_BODY_SIZE, 16 * 1024);
}

#[test]
fn invalid_json_keeps_the_public_error_message() {
    let error = invalid_body();
    assert_eq!(error.message, "Invalid request body");
    assert_eq!(error.status, 400);
}

#[test]
fn error_constructors_use_stable_codes() {
    assert_eq!(ApiError::bad_request("x").code, "INVALID_INPUT");
    assert_eq!(ApiError::not_found("x").status, 404);
    assert_eq!(ApiError::conflict("x").code, "CONFLICT");
    assert_eq!(ApiError::forbidden("x").status, 403);
    assert_eq!(ApiError::internal("x").code, "INTERNAL_ERROR");
    let attributed = ApiError::conflict("failed").for_server("Half-Life");
    assert_eq!(attributed.message, "Half-Life: failed");
    assert_eq!(attributed.server_name.as_deref(), Some("Half-Life"));
    assert_eq!(attributed.status, 409);
}

#[test]
fn host_error_messages_are_readable() {
    let call = HostApiError::Call("transport".into());
    assert_eq!(call.message(), "transport");
    assert_eq!(HostApiError::Op("op".into()).into_message(), "op");
}

#[test]
fn json_replies_are_not_cached() {
    assert_eq!(
        json_headers(),
        vec![
            ("Content-Type".to_string(), "application/json".to_string()),
            ("Cache-Control".to_string(), "no-store".to_string()),
        ]
    );
}
