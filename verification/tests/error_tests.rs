use llm_router_gateway_api::error::{
    ErrorSource, GatewayApiError, IntoResponse, RoutingErrorType,
};
use llm_router_gateway_api::json::{parse_json, Json};
use llm_router_gateway_api::response::HttpResponse;
use llm_router_gateway_api::status::StatusCode;

fn body_json(response: &HttpResponse) -> Json {
    parse_json(std::str::from_utf8(&response.body).unwrap()).unwrap()
}

fn error_field<'a>(json: &'a Json, field: &str) -> &'a Json {
    json.get("error").unwrap().get(field).unwrap()
}

fn content_type(response: &HttpResponse) -> Vec<(String, Vec<u8>)> {
    response.headers.iter().map(|h| (h.name.clone(), h.value.clone())).collect()
}

#[test]
fn test_llm_service_error() {
    let error = GatewayApiError::llm_error(
        StatusCode::payment_required(),
        "Insufficient credits",
        "OpenAI",
    );
    let response = error.to_response().unwrap();

    assert_eq!(response.status, StatusCode::payment_required());

    let json = body_json(&response);

    assert_eq!(error_field(&json, "type").as_str(), Some("llm_service_error"));
    assert_eq!(error_field(&json, "provider").as_str(), Some("OpenAI"));
    assert_eq!(error_field(&json, "status").as_u64(), Some(402));
    assert_eq!(error_field(&json, "source").as_str(), Some("llm_provider"));
}

#[test]
fn test_triton_error() {
    let error = GatewayApiError::triton_error("Model loading failed", 503);
    let response = error.to_response().unwrap();

    assert_eq!(response.status, StatusCode::service_unavailable());

    let json = body_json(&response);

    assert_eq!(error_field(&json, "type").as_str(), Some("triton_error"));
    assert_eq!(error_field(&json, "code").as_u64(), Some(503));
    assert_eq!(error_field(&json, "source").as_str(), Some("triton"));
}

#[test]
fn test_routing_error() {
    let error = GatewayApiError::routing_error(
        "No appropriate model found",
        RoutingErrorType::ModelNotFound,
    );
    let response = error.to_response().unwrap();

    assert_eq!(response.status, StatusCode::not_found());

    let json = body_json(&response);

    assert_eq!(error_field(&json, "type").as_str(), Some("routing_error_model_not_found"));
    assert_eq!(error_field(&json, "source").as_str(), Some("router"));
}

#[test]
fn test_client_error() {
    let error = GatewayApiError::client_error(
        StatusCode::bad_request(),
        "Invalid request parameters",
        "validation_error",
    );
    let response = error.to_response().unwrap();

    assert_eq!(response.status, StatusCode::bad_request());

    let json = body_json(&response);

    assert_eq!(error_field(&json, "type").as_str(), Some("validation_error"));
    assert_eq!(error_field(&json, "source").as_str(), Some("client"));
}

#[test]
fn detailed_bodies_are_exact() {
    let error = GatewayApiError::llm_error(StatusCode::payment_required(), "m", "p");
    let response = error.to_response().unwrap();
    assert_eq!(
        String::from_utf8(response.body.clone()).unwrap(),
        r#"{"error":{"details":null,"message":"m","provider":"p","source":"llm_provider","status":402,"type":"llm_service_error"}}"#
    );
    assert_eq!(
        content_type(&response),
        vec![("Content-Type".to_string(), b"application/json".to_vec())]
    );
    let error = GatewayApiError::LlmServiceError {
        status: StatusCode::from_u16(429).unwrap(),
        message: "slow down".to_string(),
        provider: "P".to_string(),
        details: Some(parse_json(r#"{"retry":3}"#).unwrap()),
    };
    assert_eq!(
        String::from_utf8(error.to_response().unwrap().body).unwrap(),
        r#"{"error":{"details":{"retry":3},"message":"slow down","provider":"P","source":"llm_provider","status":429,"type":"llm_service_error"}}"#
    );
    let error = GatewayApiError::TritonError {
        message: "bad".to_string(),
        code: 42,
        details: Some("why".to_string()),
    };
    let response = error.to_response().unwrap();
    assert_eq!(response.status.as_u16(), 503);
    assert_eq!(
        String::from_utf8(response.body).unwrap(),
        r#"{"error":{"code":42,"details":"why","message":"bad","source":"triton","type":"triton_error"}}"#
    );
    let error = GatewayApiError::Io("disk gone".to_string());
    let response = error.to_response().unwrap();
    assert_eq!(response.status.as_u16(), 500);
    assert_eq!(
        String::from_utf8(response.body).unwrap(),
        r#"{"error":{"message":"disk gone","source":"infrastructure","status":500,"type":"internal_error"}}"#
    );
}

#[test]
fn routing_error_kinds() {
    let kinds = [
        (RoutingErrorType::PolicyNotFound, 404, "routing_error_policy_not_found"),
        (RoutingErrorType::ModelNotFound, 404, "routing_error_model_not_found"),
        (RoutingErrorType::NoRoutingStrategy, 400, "routing_error_no_routing_strategy"),
        (RoutingErrorType::InvalidConfiguration, 500, "routing_error_invalid_configuration"),
        (RoutingErrorType::TritonUnavailable, 503, "routing_error_triton_unavailable"),
    ];
    for (kind, status, name) in kinds {
        let error = GatewayApiError::routing_error("r", kind);
        assert_eq!(error.status_code().as_u16(), status);
        assert_eq!(error.error_source(), ErrorSource::Router);
        let json = body_json(&error.to_response().unwrap());
        assert_eq!(error_field(&json, "type").as_str(), Some(name));
        assert_eq!(error_field(&json, "status").as_u64(), Some(status as u64));
    }
}

#[test]
fn sources_and_statuses() {
    assert_eq!(GatewayApiError::triton_error("m", 404).error_source(), ErrorSource::Triton);
    assert_eq!(GatewayApiError::triton_error("m", 404).status_code().as_u16(), 404);
    assert_eq!(GatewayApiError::triton_error("m", 200).status_code().as_u16(), 200);
    assert_eq!(GatewayApiError::triton_error("m", 599).status_code().as_u16(), 599);
    assert_eq!(GatewayApiError::triton_error("m", 99).status_code().as_u16(), 503);
    assert_eq!(GatewayApiError::triton_error("m", 150).status_code().as_u16(), 503);
    assert_eq!(GatewayApiError::triton_error("m", 199).status_code().as_u16(), 503);
    assert_eq!(GatewayApiError::triton_error("m", 600).status_code().as_u16(), 503);
    assert_eq!(GatewayApiError::triton_error("m", 999).status_code().as_u16(), 503);
    assert_eq!(GatewayApiError::triton_error("m", 1000).status_code().as_u16(), 503);
    assert_eq!(
        GatewayApiError::triton_error("m", 150).to_response().unwrap().status.as_u16(),
        503
    );
    assert_eq!(
        GatewayApiError::routing_error("m", RoutingErrorType::PolicyNotFound)
            .to_response()
            .unwrap()
            .status
            .as_u16(),
        404
    );
    let llm = GatewayApiError::llm_error(StatusCode::service_unavailable(), "m", "p");
    assert_eq!(llm.error_source(), ErrorSource::LlmProvider);
    assert_eq!(llm.status_code().as_u16(), 503);
    let client = GatewayApiError::client_error(StatusCode::bad_request(), "m", "t");
    assert_eq!(client.error_source(), ErrorSource::Client);
    assert_eq!(client.status_code().as_u16(), 400);
    for error in [
        GatewayApiError::Infrastructure("x".to_string()),
        GatewayApiError::Json("x".to_string()),
        GatewayApiError::Io("x".to_string()),
        GatewayApiError::Http("x".to_string()),
        GatewayApiError::Hyper("x".to_string()),
        GatewayApiError::InvalidRequest { message: "x".to_string() },
        GatewayApiError::TritonServiceError { status_code: 404, message: "x".to_string() },
        GatewayApiError::UnexpectedError { message: "x".to_string() },
        GatewayApiError::PolicyNotFound("x".to_string()),
        GatewayApiError::ModelNotFound("x".to_string()),
        GatewayApiError::MissingPolicy,
    ] {
        assert_eq!(error.error_source(), ErrorSource::Infrastructure);
        assert_eq!(error.status_code().as_u16(), 500);
    }
}

#[test]
fn messages() {
    let cases = [
        (GatewayApiError::triton_error("m", 1), "Triton Error: m"),
        (GatewayApiError::llm_error(StatusCode::ok(), "m", "p"), "LLM Service Error: m"),
        (GatewayApiError::routing_error("m", RoutingErrorType::ModelNotFound), "Routing Error: m"),
        (GatewayApiError::client_error(StatusCode::ok(), "m", "t"), "Client Error: m"),
        (GatewayApiError::Infrastructure("m".to_string()), "Infrastructure Error: m"),
        (GatewayApiError::Json("j".to_string()), "j"),
        (GatewayApiError::Io("i".to_string()), "i"),
        (GatewayApiError::Http("h".to_string()), "h"),
        (GatewayApiError::Hyper("y".to_string()), "y"),
        (GatewayApiError::InvalidRequest { message: "m".to_string() }, "Invalid request: m"),
        (
            GatewayApiError::TritonServiceError { status_code: 503, message: "m".to_string() },
            "Triton service error (503): m",
        ),
        (
            GatewayApiError::TritonServiceError { status_code: 0, message: "m".to_string() },
            "Triton service error (0): m",
        ),
        (
            GatewayApiError::TritonServiceError { status_code: 65535, message: "".to_string() },
            "Triton service error (65535): ",
        ),
        (GatewayApiError::UnexpectedError { message: "m".to_string() }, "Unexpected error: m"),
        (GatewayApiError::PolicyNotFound("p".to_string()), "Policy not found: p"),
        (GatewayApiError::ModelNotFound("m".to_string()), "Model not found: m"),
        (GatewayApiError::MissingPolicy, "No policy specified in nim-llm-router params"),
        (GatewayApiError::unexpected(), "Unexpected error: Empty error conversion"),
        (
            GatewayApiError::invalid_header_value("failed to parse header value"),
            "Invalid request: Invalid header value: failed to parse header value",
        ),
    ];
    for (error, text) in cases {
        assert_eq!(error.message(), text);
    }
}

#[test]
fn transport_failures() {
    let with_status = GatewayApiError::from_transport_failure(Some(StatusCode::not_found()), "gone");
    match &with_status {
        GatewayApiError::ClientError { status, message, error_type } => {
            assert_eq!(status.as_u16(), 404);
            assert_eq!(message, "gone");
            assert_eq!(error_type, "http_client_error");
        }
        other => panic!("unexpected: {:?}", other),
    }
    match GatewayApiError::from_transport_failure(None, "refused") {
        GatewayApiError::Infrastructure(message) => assert_eq!(message, "refused"),
        other => panic!("unexpected: {:?}", other),
    }
}

#[test]
fn short_responses() {
    let response = GatewayApiError::InvalidRequest { message: "bad".to_string() }.into_response();
    assert_eq!(response.status.as_u16(), 400);
    assert_eq!(
        String::from_utf8(response.body.clone()).unwrap(),
        r#"{"error":{"message":"bad","status":400}}"#
    );
    assert_eq!(
        content_type(&response),
        vec![("Content-Type".to_string(), b"application/json".to_vec())]
    );
    let response = GatewayApiError::PolicyNotFound("nope".to_string()).into_response();
    assert_eq!(response.status.as_u16(), 404);
    assert_eq!(
        String::from_utf8(response.body).unwrap(),
        r#"{"error":{"message":"Policy 'nope' not found","status":404}}"#
    );
    let response =
        GatewayApiError::llm_error(StatusCode::service_unavailable(), "LLM server is unreachable", "A")
            .into_response();
    assert_eq!(response.status.as_u16(), 503);
    assert_eq!(
        String::from_utf8(response.body).unwrap(),
        r#"{"error":{"message":"LLM Service Error: LLM server is unreachable","status":503}}"#
    );
    let response = GatewayApiError::ModelNotFound("Z".to_string()).into_response();
    assert_eq!(response.status.as_u16(), 404);
    assert_eq!(
        String::from_utf8(response.body).unwrap(),
        r#"{"error":{"message":"Model not found: Z","status":404}}"#
    );
    let response = GatewayApiError::MissingPolicy.into_response();
    assert_eq!(response.status.as_u16(), 500);
    assert_eq!(
        String::from_utf8(response.body).unwrap(),
        r#"{"error":{"message":"No policy specified in nim-llm-router params","status":500}}"#
    );
    let response =
        GatewayApiError::TritonServiceError { status_code: 429, message: "busy".to_string() }
            .into_response();
    assert_eq!(response.status.as_u16(), 500);
}
