use llm_router_gateway_api::config::Llm;
use llm_router_gateway_api::error::GatewayApiError;
use llm_router_gateway_api::json::{parse_json, Json};
use llm_router_gateway_api::messages::{
    convert_messages_to_text_input, extract_messages, get_last_message_for_triton,
    messages_to_json, Message,
};
use llm_router_gateway_api::router_params::{
    extract_nim_llm_router_params, modify_model, remove_nim_llm_router_params, rewrite_body,
    RoutingStrategy,
};
use llm_router_gateway_api::text::shorten_string;

fn json(text: &str) -> Json {
    parse_json(text).unwrap()
}

fn llm(model: &str) -> Llm {
    Llm {
        name: "A".to_string(),
        api_base: "https://x".to_string(),
        api_key: "k".to_string(),
        model: model.to_string(),
    }
}

#[test]
fn envelope_is_read() {
    let body = json(
        r#"{"nim-llm-router":{"policy":"P","routing_strategy":"manual","model":"A","threshold":0.7},"x":1}"#,
    );
    let params = extract_nim_llm_router_params(&body).unwrap();
    assert_eq!(params.policy, "P");
    assert_eq!(params.routing_strategy, Some(RoutingStrategy::Manual));
    assert_eq!(params.model.as_deref(), Some("A"));
    assert_eq!(params.threshold_text(), "0.7");
    assert_eq!(params.threshold.unwrap().as_f64(), Some(0.7));
    let body = json(r#"{"nim-llm-router":{"policy":"P","routing_strategy":"triton"}}"#);
    let params = extract_nim_llm_router_params(&body).unwrap();
    assert_eq!(params.routing_strategy, Some(RoutingStrategy::Triton));
    assert!(params.model.is_none());
    assert!(params.threshold.is_none());
    assert_eq!(params.threshold_text(), "0.5");
    let body = json(
        r#"{"nim-llm-router":{"policy":"","routing_strategy":null,"model":null,"threshold":null,"more":[1]}}"#,
    );
    let params = extract_nim_llm_router_params(&body).unwrap();
    assert_eq!(params.policy, "");
    assert!(params.routing_strategy.is_none());
    assert!(params.model.is_none());
    assert!(params.threshold.is_none());
    assert_eq!(RoutingStrategy::Manual.name(), "manual");
    assert_eq!(RoutingStrategy::Triton.name(), "triton");
}

#[test]
fn envelope_that_cannot_be_read_is_absent() {
    for text in [
        r#"{"messages":[]}"#,
        r#"{"nim-llm-router":null}"#,
        r#"{"nim-llm-router":"P"}"#,
        r#"{"nim-llm-router":["P"]}"#,
        r#"{"nim-llm-router":{}}"#,
        r#"{"nim-llm-router":{"policy":7}}"#,
        r#"{"nim-llm-router":{"policy":null}}"#,
        r#"{"nim-llm-router":{"policy":"P","routing_strategy":"Manual"}}"#,
        r#"{"nim-llm-router":{"policy":"P","routing_strategy":"auto"}}"#,
        r#"{"nim-llm-router":{"policy":"P","routing_strategy":1}}"#,
        r#"{"nim-llm-router":{"policy":"P","model":1}}"#,
        r#"{"nim-llm-router":{"policy":"P","threshold":"high"}}"#,
        r#"[1]"#,
        r#"null"#,
        r#""nim-llm-router""#,
    ] {
        assert!(extract_nim_llm_router_params(&json(text)).is_none(), "{}", text);
    }
}

#[test]
fn strip_removes_the_envelope_only() {
    let body = json(r#"{"a":1,"nim-llm-router":{"policy":"P"},"b":[2]}"#);
    assert_eq!(remove_nim_llm_router_params(body).to_text(), r#"{"a":1,"b":[2]}"#);
    assert_eq!(remove_nim_llm_router_params(json(r#"{"a":1}"#)).to_text(), r#"{"a":1}"#);
    assert_eq!(remove_nim_llm_router_params(json("[1,2]")).to_text(), "[1,2]");
    assert_eq!(remove_nim_llm_router_params(json("null")).to_text(), "null");
    assert_eq!(remove_nim_llm_router_params(json(r#""text""#)).to_text(), r#""text""#);
}

#[test]
fn strip_is_idempotent() {
    for text in [r#"{"a":1,"nim-llm-router":{"policy":"P"}}"#, r#"{"a":1}"#, "3", "[]", "{}"] {
        let once = remove_nim_llm_router_params(json(text));
        let once_text = once.to_text();
        assert_eq!(remove_nim_llm_router_params(once).to_text(), once_text);
    }
}

#[test]
fn model_is_set_or_overwritten() {
    assert_eq!(
        modify_model(json(r#"{"model":"old","n":1}"#), "new").unwrap().to_text(),
        r#"{"model":"new","n":1}"#
    );
    assert_eq!(modify_model(json(r#"{"n":1}"#), "m").unwrap().to_text(), r#"{"model":"m","n":1}"#);
    assert_eq!(modify_model(json("null"), "m").unwrap().to_text(), r#"{"model":"m"}"#);
    for text in ["[1]", "3", "true", r#""s""#] {
        match modify_model(json(text), "m") {
            Err(GatewayApiError::InvalidRequest { message }) => {
                assert_eq!(message, "Request body is not a JSON object")
            }
            other => panic!("unexpected: {:?}", other),
        }
    }
}

#[test]
fn rewritten_body_names_the_model_and_has_no_envelope() {
    let body = json(
        r#"{"model":"","messages":[{"role":"user","content":"hi"}],"nim-llm-router":{"policy":"P","routing_strategy":"manual","model":"A"},"stream":true,"temperature":0.30000000000000004}"#,
    );
    let out = rewrite_body(body, &llm("m-a")).unwrap();
    assert_eq!(out.get("model").unwrap().as_str(), Some("m-a"));
    assert!(out.get("nim-llm-router").is_none());
    assert_eq!(
        out.to_text(),
        r#"{"messages":[{"content":"hi","role":"user"}],"model":"m-a","stream":true,"temperature":0.30000000000000004}"#
    );
}

#[test]
fn rewriting_twice_gives_the_same_bytes() {
    let text = r#"{"messages":[],"nim-llm-router":{"policy":"P"},"n":[1,{"k":null}]}"#;
    let once = rewrite_body(json(text), &llm("m-a")).unwrap();
    let once_text = once.to_text();
    let twice = rewrite_body(once, &llm("m-a")).unwrap();
    assert_eq!(twice.to_text(), once_text);
    let again = rewrite_body(json(text), &llm("m-a")).unwrap();
    assert_eq!(again.to_text(), once_text);
}

#[test]
fn messages_are_read() {
    let body = json(
        r#"{"messages":[{"role":"system","content":"be brief"},{"role":"user","content":"hi","name":"x"}]}"#,
    );
    let messages = extract_messages(&body).unwrap();
    assert_eq!(messages.len(), 2);
    assert_eq!(messages[0].role, "system");
    assert_eq!(messages[1].content, "hi");
    assert_eq!(get_last_message_for_triton(&messages), "hi");
    assert_eq!(extract_messages(&json(r#"{"messages":[]}"#)).unwrap().len(), 0);
    for text in [
        r#"{}"#,
        r#"{"messages":null}"#,
        r#"{"messages":"hi"}"#,
        r#"{"messages":[{"role":"user"}]}"#,
        r#"{"messages":[{"role":"user","content":"a"},{"role":1,"content":"b"}]}"#,
        r#"{"messages":[{"role":"user","content":["a"]}]}"#,
        r#"{"messages":["hi"]}"#,
        r#"[]"#,
    ] {
        assert!(extract_messages(&json(text)).is_none(), "{}", text);
    }
    assert_eq!(get_last_message_for_triton(&vec![]), "");
}

#[test]
fn text_input_is_the_tail_of_the_messages_text() {
    let messages = vec![
        Message { role: "user".to_string(), content: "Hello".to_string() },
        Message { role: "assistant".to_string(), content: "Hi".to_string() },
    ];
    let text = r#"[{"content":"Hello","role":"user"},{"content":"Hi","role":"assistant"}]"#;
    assert_eq!(messages_to_json(&messages).to_text(), text);
    assert_eq!(convert_messages_to_text_input(&messages), text.as_bytes().to_vec());
    let long = vec![Message { role: "user".to_string(), content: "é".repeat(1500) }];
    let full = messages_to_json(&long).to_text();
    assert!(full.len() > 2000);
    let kept = convert_messages_to_text_input(&long);
    assert_eq!(kept.len(), 2000);
    assert_eq!(kept, full.as_bytes()[full.len() - 2000..].to_vec());
    assert_eq!(convert_messages_to_text_input(&vec![]), b"[]".to_vec());
}

#[test]
fn shorten_keeps_the_last_bytes() {
    assert_eq!(shorten_string("hello", 10), b"hello".to_vec());
    assert_eq!(shorten_string("hello", 5), b"hello".to_vec());
    assert_eq!(shorten_string("hello", 3), b"llo".to_vec());
    assert_eq!(shorten_string("hello", 0), Vec::<u8>::new());
    assert_eq!(shorten_string("", 4), Vec::<u8>::new());
    assert_eq!(shorten_string("aé", 1), vec![0xA9]);
    assert_eq!(shorten_string("aé", 2), "é".as_bytes().to_vec());
    assert_eq!(shorten_string("aé", usize::MAX), "aé".as_bytes().to_vec());
}
