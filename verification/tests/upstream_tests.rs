use llm_router_gateway_api::config::Llm;
use llm_router_gateway_api::error::GatewayApiError;
use llm_router_gateway_api::json::parse_json;
use llm_router_gateway_api::response::{names_match, set_header, Header, HttpResponse};
use llm_router_gateway_api::status::StatusCode;
use llm_router_gateway_api::upstream::{
    check_header_value, extract_forward_uri_path_and_query, forward_uri_from, is_stream,
    outbound_headers, relay_headers, upstream_url,
};

fn llm(name: &str, key: &str) -> Llm {
    Llm {
        name: name.to_string(),
        api_base: "https://x".to_string(),
        api_key: key.to_string(),
        model: "m-a".to_string(),
    }
}

fn header(name: &str, value: &str) -> Header {
    Header { name: name.to_string(), value: value.as_bytes().to_vec() }
}

fn pairs(headers: &[Header]) -> Vec<(String, String)> {
    headers
        .iter()
        .map(|h| (h.name.clone(), String::from_utf8_lossy(&h.value).into_owned()))
        .collect()
}

fn invalid_request(result: Result<String, GatewayApiError>) -> String {
    match result {
        Err(GatewayApiError::InvalidRequest { message }) => message,
        other => panic!("unexpected: {:?}", other),
    }
}

#[test]
fn header_values() {
    assert!(check_header_value("Bearer abc-123_.~").is_ok());
    assert!(check_header_value("").is_ok());
    assert!(check_header_value("tab\there").is_ok());
    assert!(check_header_value("caf\u{e9}").is_ok());
    for bad in ["line\nfeed", "carriage\rreturn", "nul\0", "del\u{7f}", "\u{1f}"] {
        match check_header_value(bad) {
            Err(GatewayApiError::InvalidRequest { message }) => {
                assert_eq!(message, "Invalid header value: failed to parse header value")
            }
            other => panic!("unexpected: {:?}", other),
        }
    }
}

#[test]
fn forward_uri_is_the_path_and_query() {
    assert_eq!(
        extract_forward_uri_path_and_query(Some("/v1/chat/completions")).unwrap(),
        "/v1/chat/completions"
    );
    assert_eq!(
        extract_forward_uri_path_and_query(Some("/v1/chat/completions?a=1&b=2")).unwrap(),
        "/v1/chat/completions?a=1&b=2"
    );
    assert_eq!(extract_forward_uri_path_and_query(Some("/")).unwrap(), "/");
    assert_eq!(extract_forward_uri_path_and_query(Some("/a?b=1#part")).unwrap(), "/a?b=1");
    assert_eq!(
        invalid_request(extract_forward_uri_path_and_query(None)),
        "Invalid URI: empty string"
    );
    assert_eq!(
        invalid_request(extract_forward_uri_path_and_query(Some(""))),
        "Invalid URI: empty string"
    );
    assert!(extract_forward_uri_path_and_query(Some("/a b")).is_err());
    assert_eq!(forward_uri_from(Ok("/x".to_string())).unwrap(), "/x");
    assert_eq!(invalid_request(forward_uri_from(Err("why".to_string()))), "Invalid URI: why");
}

#[test]
fn streaming_needs_post_json_and_the_flag() {
    let on = parse_json(r#"{"stream":true}"#).unwrap();
    assert!(is_stream("POST", Some("application/json"), &on));
    assert!(!is_stream("GET", Some("application/json"), &on));
    assert!(!is_stream("post", Some("application/json"), &on));
    assert!(!is_stream("POST", Some("application/json; charset=utf-8"), &on));
    assert!(!is_stream("POST", Some("text/plain"), &on));
    assert!(!is_stream("POST", None, &on));
    for text in [r#"{"stream":false}"#, r#"{"stream":"true"}"#, r#"{"stream":1}"#, "{}", "null", "[true]"] {
        assert!(!is_stream("POST", Some("application/json"), &parse_json(text).unwrap()), "{}", text);
    }
}

#[test]
fn outbound_headers_carry_the_key() {
    let headers = outbound_headers(&llm("A", "secret")).unwrap();
    assert_eq!(
        pairs(&headers),
        vec![
            ("Accept".to_string(), "application/json".to_string()),
            ("Content-Type".to_string(), "application/json".to_string()),
            ("Authorization".to_string(), "Bearer secret".to_string()),
        ]
    );
    match outbound_headers(&llm("A", "bad\nkey")) {
        Err(GatewayApiError::InvalidRequest { message }) => {
            assert_eq!(message, "Invalid header value: failed to parse header value")
        }
        other => panic!("unexpected: {:?}", other),
    }
}

#[test]
fn url_is_base_and_path() {
    assert_eq!(
        upstream_url("https://x", "/v1/chat/completions?n=1"),
        "https://x/v1/chat/completions?n=1"
    );
    assert_eq!(upstream_url("", ""), "");
}

#[test]
fn relayed_headers_have_one_chosen_classifier() {
    let upstream = vec![
        header("content-type", "text/event-stream"),
        header("x-chosen-classifier", "spoofed"),
        header("server", "nginx"),
        header("X-CHOSEN-CLASSIFIER", "again"),
    ];
    let relayed = relay_headers(upstream, "B");
    assert_eq!(
        pairs(&relayed),
        vec![
            ("content-type".to_string(), "text/event-stream".to_string()),
            ("server".to_string(), "nginx".to_string()),
            ("X-Chosen-Classifier".to_string(), "B".to_string()),
        ]
    );
    let relayed = relay_headers(vec![], "A");
    assert_eq!(pairs(&relayed), vec![("X-Chosen-Classifier".to_string(), "A".to_string())]);
}

#[test]
fn header_names_ignore_ascii_case() {
    assert!(names_match("Content-Type", "content-type"));
    assert!(names_match("", ""));
    assert!(names_match("X-A", "x-a"));
    assert!(!names_match("X-A", "x-b"));
    assert!(!names_match("X-A", "x-a "));
    assert!(!names_match("k", "\u{212a}"));
    assert!(!names_match("@", "`"));
    assert!(!names_match("[", "{"));
    let headers = set_header(vec![header("a", "1"), header("A", "2"), header("b", "3")], "a", b"4".to_vec());
    assert_eq!(
        pairs(&headers),
        vec![("b".to_string(), "3".to_string()), ("a".to_string(), "4".to_string())]
    );
}

#[test]
fn plain_responses() {
    let response = HttpResponse::json(StatusCode::ok(), "{}");
    assert_eq!(response.status.as_u16(), 200);
    assert_eq!(
        pairs(&response.headers),
        vec![("Content-Type".to_string(), "application/json".to_string())]
    );
    assert_eq!(response.body, b"{}".to_vec());
    let response = HttpResponse::plain(StatusCode::not_found(), vec![1, 2]);
    assert!(response.headers.is_empty());
    assert_eq!(response.body, vec![1, 2]);
}
