use llm_router_gateway_api::config::{Llm, Policy, RouterConfig};
use llm_router_gateway_api::endpoints::{
    config, config_to_json, handler, health, metrics, route, unavailable, Endpoint, Exposition,
    Handling,
};
use llm_router_gateway_api::json::parse_json;

fn catalog() -> RouterConfig {
    RouterConfig {
        policies: vec![Policy {
            name: "P".to_string(),
            url: "http://triton/infer".to_string(),
            llms: vec![
                Llm {
                    name: "A".to_string(),
                    api_base: "https://a".to_string(),
                    api_key: "secret-a".to_string(),
                    model: "m-a".to_string(),
                },
                Llm {
                    name: "B".to_string(),
                    api_base: "https://b".to_string(),
                    api_key: "secret-b".to_string(),
                    model: "m-b".to_string(),
                },
            ],
        }],
    }
}

#[test]
fn paths_lead_to_endpoints() {
    assert_eq!(route("/config"), Endpoint::Config);
    assert_eq!(route("/health"), Endpoint::Health);
    assert_eq!(route("/metrics"), Endpoint::Metrics);
    assert_eq!(route("/v1/chat/completions"), Endpoint::Proxy);
    assert_eq!(route("/completions"), Endpoint::Proxy);
    for path in ["/", "", "/config/", "/Health", "/v1/completions", "/v1/chat/completions/", "config"] {
        assert_eq!(route(path), Endpoint::Unavailable, "{}", path);
    }
}

#[test]
fn config_endpoint_shows_no_key() {
    let response = config(catalog()).unwrap();
    assert_eq!(response.status.as_u16(), 200);
    assert!(response.headers.is_empty());
    let text = String::from_utf8(response.body).unwrap();
    assert_eq!(
        text,
        r#"{"policies":[{"llms":[{"api_base":"https://a","api_key":"[REDACTED]","model":"m-a","name":"A"},{"api_base":"https://b","api_key":"[REDACTED]","model":"m-b","name":"B"}],"name":"P","url":"http://triton/infer"}]}"#
    );
    assert!(!text.contains("secret"));
    let json = parse_json(&text).unwrap();
    for policy in json.get("policies").unwrap().as_array().unwrap() {
        for llm in policy.get("llms").unwrap().as_array().unwrap() {
            assert_eq!(llm.get("api_key").unwrap().as_str(), Some("[REDACTED]"));
        }
    }
    assert_eq!(
        config_to_json(&catalog()).get("policies").unwrap().as_array().unwrap()[0]
            .get("llms")
            .unwrap()
            .as_array()
            .unwrap()[1]
            .get("api_key")
            .unwrap()
            .as_str(),
        Some("secret-b")
    );
}

#[test]
fn health_and_unavailable() {
    let response = health().unwrap();
    assert_eq!(response.status.as_u16(), 200);
    assert_eq!(response.body, br#"{"status":"OK"}"#.to_vec());
    let response = unavailable().unwrap();
    assert_eq!(response.status.as_u16(), 404);
    assert_eq!(response.body, br#"{"path":"Unavailable"}"#.to_vec());
}

#[test]
fn metrics_endpoint() {
    let response = metrics(Ok(Exposition {
        content_type: "text/plain; version=0.0.4".to_string(),
        body: b"num_requests 1\n".to_vec(),
    }))
    .unwrap();
    assert_eq!(response.status.as_u16(), 200);
    assert_eq!(response.headers.len(), 1);
    assert_eq!(response.headers[0].name, "Content-Type");
    assert_eq!(response.headers[0].value, b"text/plain; version=0.0.4".to_vec());
    assert_eq!(response.body, b"num_requests 1\n".to_vec());
    let response = metrics(Err("boom".to_string())).unwrap();
    assert_eq!(response.status.as_u16(), 500);
    assert!(response.headers.is_empty());
    assert_eq!(response.body, br#""Failed to encode metrics""#.to_vec());
}

#[test]
fn handler_dispatches_by_path() {
    let catalog = catalog();
    match handler(&catalog, "/config") {
        Handling::Respond(response) => {
            assert_eq!(response.status.as_u16(), 200);
            assert!(String::from_utf8(response.body).unwrap().contains("[REDACTED]"));
        }
        other => panic!("unexpected: {:?}", other),
    }
    match handler(&catalog, "/health") {
        Handling::Respond(response) => assert_eq!(response.body, br#"{"status":"OK"}"#.to_vec()),
        other => panic!("unexpected: {:?}", other),
    }
    assert!(matches!(handler(&catalog, "/metrics"), Handling::ExposeMetrics));
    assert!(matches!(handler(&catalog, "/v1/chat/completions"), Handling::Proxy));
    assert!(matches!(handler(&catalog, "/completions"), Handling::Proxy));
    match handler(&catalog, "/nowhere") {
        Handling::Respond(response) => {
            assert_eq!(response.status.as_u16(), 404);
            assert_eq!(response.body, br#"{"path":"Unavailable"}"#.to_vec());
        }
        other => panic!("unexpected: {:?}", other),
    }
}
