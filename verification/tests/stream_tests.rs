use llm_router_gateway_api::json::parse_json;
use llm_router_gateway_api::metrics::{
    classify_outcome, completion_metrics, track_token_usage, FailureKind, MetricEvent,
    TokenCategory,
};
use llm_router_gateway_api::status::StatusCode;
use llm_router_gateway_api::stream::{events_of, payload_from, scan_chunk, updates_for_parsed};

fn usage(events: &[MetricEvent]) -> Vec<(String, TokenCategory, u64)> {
    events
        .iter()
        .map(|e| match e {
            MetricEvent::TokenUsage { llm_name, category, amount } => {
                (llm_name.clone(), *category, *amount)
            }
            other => panic!("unexpected: {:?}", other),
        })
        .collect()
}

fn three(llm: &str, prompt: u64, completion: u64, total: u64) -> Vec<(String, TokenCategory, u64)> {
    vec![
        (llm.to_string(), TokenCategory::Prompt, prompt),
        (llm.to_string(), TokenCategory::Completion, completion),
        (llm.to_string(), TokenCategory::Total, total),
    ]
}

fn pieces(text: &str) -> Vec<String> {
    events_of(text)
}

fn payload(text: &str) -> Option<String> {
    payload_from(text)
}

#[test]
fn token_usage_of_a_response() {
    let json = parse_json(
        r#"{"choices":[],"usage":{"prompt_tokens":3,"completion_tokens":5,"total_tokens":8}}"#,
    )
    .unwrap();
    assert_eq!(usage(&track_token_usage(&json, "A")), three("A", 3, 5, 8));
    let json = parse_json(r#"{"usage":{"prompt_tokens":3,"total_tokens":-1,"x":9}}"#).unwrap();
    assert_eq!(usage(&track_token_usage(&json, "B")), three("B", 3, 0, 0));
    let json = parse_json(r#"{"usage":{}}"#).unwrap();
    assert_eq!(usage(&track_token_usage(&json, "B")), three("B", 0, 0, 0));
    for text in [r#"{"usage":null}"#, r#"{"usage":3}"#, r#"{"choices":[]}"#, "[]", "null"] {
        assert!(track_token_usage(&parse_json(text).unwrap(), "A").is_empty(), "{}", text);
    }
    assert_eq!(TokenCategory::Prompt.name(), "prompt");
    assert_eq!(TokenCategory::Completion.name(), "completion");
    assert_eq!(TokenCategory::Total.name(), "total");
    assert_eq!(TokenCategory::Prompt.field(), "prompt_tokens");
    assert_eq!(TokenCategory::Completion.field(), "completion_tokens");
    assert_eq!(TokenCategory::Total.field(), "total_tokens");
}

#[test]
fn chunks_are_split_on_blank_lines() {
    assert_eq!(pieces(""), vec![""]);
    assert_eq!(pieces("a"), vec!["a"]);
    assert_eq!(pieces("a\n\nb"), vec!["a", "b"]);
    assert_eq!(pieces("a\n\n"), vec!["a", ""]);
    assert_eq!(pieces("\n\na"), vec!["", "a"]);
    assert_eq!(pieces("a\n\n\nb"), vec!["a", "\nb"]);
    assert_eq!(pieces("a\n\n\n\nb"), vec!["a", "", "b"]);
    assert_eq!(pieces("a\nb\n\nc\n"), vec!["a\nb", "c\n"]);
    assert_eq!(pieces("\n"), vec!["\n"]);
    assert_eq!(pieces("\n\n"), vec!["", ""]);
    for text in ["", "a\n\nb\n\n", "x\n\n\n\n\ny", "data: {}\n\ndata: [DONE]\n\n"] {
        let expected: Vec<String> = text.split("\n\n").map(|s| s.to_string()).collect();
        assert_eq!(pieces(text), expected, "{:?}", text);
    }
}

#[test]
fn payload_is_the_trimmed_event_without_its_prefix() {
    assert_eq!(payload("data: {\"a\":1}").as_deref(), Some("{\"a\":1}"));
    assert_eq!(payload("  data: {\"a\":1}\r\n").as_deref(), Some("{\"a\":1}"));
    assert_eq!(payload("{\"a\":1}").as_deref(), Some("{\"a\":1}"));
    assert_eq!(payload("data:{}").as_deref(), Some("data:{}"));
    assert_eq!(payload("data: data: x").as_deref(), Some("data: x"));
    assert_eq!(payload("data:  x").as_deref(), Some(" x"));
    assert_eq!(payload(""), None);
    assert_eq!(payload(" \n\t"), None);
    assert_eq!(payload("data: ").as_deref(), Some("data:"));
    assert_eq!(payload("data:"), Some("data:".to_string()));
    assert_eq!(payload("data: [DONE]"), None);
    assert_eq!(payload("[DONE]"), None);
    assert_eq!(payload(" data: [DONE] "), None);
    assert_eq!(payload("data: [DONE] x").as_deref(), Some("[DONE] x"));
    assert_eq!(payload("\u{a0}data: 1\u{2003}").as_deref(), Some("1"));
}

#[test]
fn streamed_events_report_token_usage() {
    let chunk = concat_chunks(&[
        "data: {\"choices\":[{\"delta\":{\"content\":\"Hi\"}}]}\n\n",
        "data: {\"choices\":[{\"finish_reason\":\"stop\"}],\"usage\":{\"prompt_tokens\":4,\"completion_tokens\":6,\"total_tokens\":10}}\n\n",
        "data: [DONE]\n\n",
    ]);
    assert_eq!(usage(&scan_chunk(chunk.as_bytes(), "chosen")), three("chosen", 4, 6, 10));
}

fn concat_chunks(parts: &[&str]) -> String {
    parts.concat()
}

#[test]
fn events_that_cannot_be_parsed_give_nothing() {
    assert!(scan_chunk(b"data: {\"usage\":{\"total_tokens\":", "A").is_empty());
    assert!(scan_chunk(b"", "A").is_empty());
    assert!(scan_chunk(b"\n\n\n\n", "A").is_empty());
    assert!(scan_chunk(b": keep-alive\n\n", "A").is_empty());
    assert!(scan_chunk(&[0xFF, 0xFE], "A").is_empty());
    let mixed = b"garbage\n\ndata: {\"usage\":{\"total_tokens\":2}}\n\nmore garbage";
    assert_eq!(usage(&scan_chunk(mixed, "A")), three("A", 0, 0, 2));
}

#[test]
fn every_event_with_usage_counts() {
    let chunk = b"data: {\"usage\":{\"prompt_tokens\":1}}\n\ndata: {\"usage\":{\"prompt_tokens\":2}}\n\n";
    let mut expected = three("M", 1, 0, 0);
    expected.extend(three("M", 2, 0, 0));
    assert_eq!(usage(&scan_chunk(chunk, "M")), expected);
    let lossy = [b"data: {\"x\":\"".to_vec(), vec![0xFF], b"\",\"usage\":{\"total_tokens\":7}}".to_vec()]
        .concat();
    assert_eq!(usage(&scan_chunk(&lossy, "M")), three("M", 0, 0, 7));
}

#[test]
fn updates_for_a_parsed_payload() {
    let parsed = parse_json(r#"{"usage":{"total_tokens":1}}"#);
    assert_eq!(usage(&updates_for_parsed(&parsed, "A")), three("A", 0, 0, 1));
    assert!(updates_for_parsed(&parse_json("{"), "A").is_empty());
}

#[test]
fn outcomes_by_status() {
    let kind = |code: u16| match classify_outcome(Some(StatusCode::from_u16(code).unwrap())) {
        MetricEvent::RequestSuccess => None,
        MetricEvent::RequestFailure { error_type } => Some(error_type),
        other => panic!("unexpected: {:?}", other),
    };
    assert_eq!(kind(200), None);
    assert_eq!(kind(204), None);
    assert_eq!(kind(302), None);
    assert_eq!(kind(399), None);
    assert_eq!(kind(400), Some(FailureKind::ClientError));
    assert_eq!(kind(404), Some(FailureKind::ClientError));
    assert_eq!(kind(499), Some(FailureKind::ClientError));
    assert_eq!(kind(500), Some(FailureKind::ServerError));
    assert_eq!(kind(503), Some(FailureKind::ServerError));
    assert_eq!(kind(599), Some(FailureKind::ServerError));
    assert_eq!(kind(600), Some(FailureKind::Other));
    assert_eq!(kind(100), Some(FailureKind::Other));
    assert_eq!(kind(199), Some(FailureKind::Other));
    match classify_outcome(None) {
        MetricEvent::RequestFailure { error_type } => assert_eq!(error_type, FailureKind::System),
        other => panic!("unexpected: {:?}", other),
    }
    assert_eq!(FailureKind::ClientError.name(), "4xx");
    assert_eq!(FailureKind::ServerError.name(), "5xx");
    assert_eq!(FailureKind::Other.name(), "other");
    assert_eq!(FailureKind::System.name(), "system");
}

#[test]
fn instruments_have_their_names() {
    let llm = || "A".to_string();
    let cases = [
        (MetricEvent::NumRequests, "num_requests"),
        (MetricEvent::RequestsPerPolicy { policy: llm() }, "requests_per_policy"),
        (MetricEvent::RequestsPerModel { model: llm() }, "requests_per_model"),
        (
            MetricEvent::RoutingPolicyUsage {
                strategy: llm_router_gateway_api::router_params::RoutingStrategy::Manual,
            },
            "routing_policy_usage",
        ),
        (MetricEvent::RequestSuccess, "request_success_total"),
        (MetricEvent::RequestFailure { error_type: FailureKind::Other }, "request_failure_total"),
        (MetricEvent::RequestLatency { nanos: 1 }, "request_latency_seconds"),
        (MetricEvent::ModelSelectionTime { nanos: 1 }, "model_selection_time_seconds"),
        (MetricEvent::LlmResponseTime { llm: llm(), nanos: 1 }, "llm_response_time_seconds"),
        (MetricEvent::ProxyOverheadLatency { nanos: -1 }, "proxy_overhead_latency_seconds"),
        (
            MetricEvent::TokenUsage { llm_name: llm(), category: TokenCategory::Total, amount: 1 },
            "llm_token_usage",
        ),
    ];
    for (event, name) in cases {
        assert_eq!(event.instrument(), name);
    }
}

#[test]
fn completion_has_latency_overhead_and_one_outcome() {
    let events = completion_metrics(Some(StatusCode::ok()), 1_000, 300, 500);
    assert_eq!(events.len(), 3);
    assert!(matches!(events[0], MetricEvent::RequestLatency { nanos: 1_000 }));
    assert!(matches!(events[1], MetricEvent::ProxyOverheadLatency { nanos: 200 }));
    assert!(matches!(events[2], MetricEvent::RequestSuccess));
    let events = completion_metrics(None, 10, 0, 0);
    assert!(matches!(events[1], MetricEvent::ProxyOverheadLatency { nanos: 10 }));
    assert!(matches!(
        events[2],
        MetricEvent::RequestFailure { error_type: FailureKind::System }
    ));
    let events = completion_metrics(None, 5, u64::MAX, u64::MAX);
    let expected = 5i128 - 2 * (u64::MAX as i128);
    assert!(matches!(events[1], MetricEvent::ProxyOverheadLatency { nanos } if nanos == expected));
}
