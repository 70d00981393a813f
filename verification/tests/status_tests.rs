use llm_router_gateway_api::status::StatusCode;

#[test]
fn codes_from_100_to_999_are_statuses() {
    assert!(StatusCode::from_u16(99).is_none());
    assert_eq!(StatusCode::from_u16(100).unwrap().as_u16(), 100);
    assert_eq!(StatusCode::from_u16(999).unwrap().as_u16(), 999);
    assert!(StatusCode::from_u16(1000).is_none());
    assert!(StatusCode::from_u16(0).is_none());
    assert!(StatusCode::from_u16(u16::MAX).is_none());
}

#[test]
fn fallback_is_service_unavailable() {
    assert_eq!(StatusCode::from_u16_or_unavailable(418).as_u16(), 418);
    assert_eq!(StatusCode::from_u16_or_unavailable(42).as_u16(), 503);
    assert_eq!(StatusCode::from_u16_or_unavailable(1000).as_u16(), 503);
}

#[test]
fn mirrored_keeps_200_to_599() {
    assert_eq!(StatusCode::mirrored(200).as_u16(), 200);
    assert_eq!(StatusCode::mirrored(301).as_u16(), 301);
    assert_eq!(StatusCode::mirrored(429).as_u16(), 429);
    assert_eq!(StatusCode::mirrored(599).as_u16(), 599);
    assert_eq!(StatusCode::mirrored(199).as_u16(), 503);
    assert_eq!(StatusCode::mirrored(150).as_u16(), 503);
    assert_eq!(StatusCode::mirrored(600).as_u16(), 503);
    assert_eq!(StatusCode::mirrored(999).as_u16(), 503);
    assert_eq!(StatusCode::mirrored(0).as_u16(), 503);
    assert_eq!(StatusCode::mirrored(u16::MAX).as_u16(), 503);
}

#[test]
fn success_is_200_to_299() {
    assert!(!StatusCode::from_u16(199).unwrap().is_success());
    assert!(StatusCode::ok().is_success());
    assert!(StatusCode::from_u16(299).unwrap().is_success());
    assert!(!StatusCode::from_u16(300).unwrap().is_success());
}

#[test]
fn named_statuses() {
    assert_eq!(StatusCode::ok().as_u16(), 200);
    assert_eq!(StatusCode::bad_request().as_u16(), 400);
    assert_eq!(StatusCode::payment_required().as_u16(), 402);
    assert_eq!(StatusCode::not_found().as_u16(), 404);
    assert_eq!(StatusCode::internal_server_error().as_u16(), 500);
    assert_eq!(StatusCode::service_unavailable().as_u16(), 503);
    assert_eq!(StatusCode::not_found(), StatusCode::from_u16(404).unwrap());
}
