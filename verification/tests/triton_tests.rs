use llm_router_gateway_api::config::{Llm, Policy};
use llm_router_gateway_api::error::GatewayApiError;
use llm_router_gateway_api::json::parse_json;
use llm_router_gateway_api::status::StatusCode;
use llm_router_gateway_api::triton::{
    argmax, choose_from_parsed, choose_model, classifier_request, keys_of, order_key_of,
    scores_from_json, select, ClassifierReply, InferInputTensor, InferInputs, InferOutputTensor,
    Output, Parameters, TransportFailure,
};

fn policy(names: &[&str]) -> Policy {
    Policy {
        name: "P".to_string(),
        url: "http://triton:8000/v2/models/bert_ensemble/infer".to_string(),
        llms: names
            .iter()
            .map(|n| Llm {
                name: n.to_string(),
                api_base: "https://x".to_string(),
                api_key: "k".to_string(),
                model: format!("m-{}", n),
            })
            .collect(),
    }
}

fn reply(status: u16, body: &str) -> ClassifierReply {
    ClassifierReply::Response {
        status: StatusCode::from_u16(status).unwrap(),
        body: Ok(body.as_bytes().to_vec()),
    }
}

fn classifier_failure(result: Result<usize, GatewayApiError>) -> (u16, String) {
    match result {
        Err(GatewayApiError::TritonServiceError { status_code, message }) => (status_code, message),
        other => panic!("unexpected: {:?}", other),
    }
}

fn key(value: f64) -> u64 {
    order_key_of(value.to_bits())
}

#[test]
fn test_triton() {
    let text_tensor = InferInputTensor {
        name: "INPUT".to_string(),
        datatype: "BYTES".to_string(),
        shape: vec![1, 1],
        data: vec![vec!["Hello world!".to_string()]],
    };
    let data = InferInputs { inputs: vec![text_tensor] };
    assert_eq!(
        data.to_json().to_text(),
        r#"{"inputs":[{"data":[["Hello world!"]],"datatype":"BYTES","name":"INPUT","shape":[1,1]}]}"#
    );
    let number = |value: f64| serde_json::Number::from_f64(value).unwrap();
    let output_tensor = InferOutputTensor {
        name: "logits".to_string(),
        datatype: "FP32".to_string(),
        shape: vec![1, 3],
        data: vec![number(0.09), number(-0.45), number(0.69)],
    };
    let parameters = Parameters { sequence_id: 0, sequence_start: false, sequence_end: false };
    let output = Output {
        model_name: "bert".to_string(),
        model_version: "1".to_string(),
        parameters,
        outputs: vec![output_tensor],
    };
    let sent = output.to_json().to_text();
    assert_eq!(
        sent,
        r#"{"model_name":"bert","model_version":"1","outputs":[{"data":[0.09,-0.45,0.69],"datatype":"FP32","name":"logits","shape":[1,3]}],"parameters":{"sequence_end":false,"sequence_id":0,"sequence_start":false}}"#
    );
    let response = Output::from_json(&parse_json(&sent).unwrap()).unwrap();

    assert_eq!(response.model_name, "bert");
    assert_eq!(response.model_version, "1");
    assert_eq!(response.parameters, parameters);
    assert_eq!(response.outputs.len(), 1);
    assert_eq!(response.outputs[0].name, "logits");
    assert_eq!(response.outputs[0].shape, vec![1, 3]);
    assert_eq!(response.outputs[0].data[2].as_f64(), Some(0.69));
    assert_eq!(choose_model(&policy(&["A", "B", "C"]), &reply(200, &sent)).unwrap(), 2);
}

#[test]
fn replies_that_are_not_spelled_out_are_not_read() {
    let whole = r#"{"model_name":"m","model_version":"1","parameters":{"sequence_id":-4,"sequence_start":true,"sequence_end":false},"outputs":[]}"#;
    let output = Output::from_json(&parse_json(whole).unwrap()).unwrap();
    assert_eq!(
        output.parameters,
        Parameters { sequence_id: -4, sequence_start: true, sequence_end: false }
    );
    assert!(output.outputs.is_empty());
    for text in [
        r#"{"model_version":"1","parameters":{"sequence_id":0,"sequence_start":true,"sequence_end":false},"outputs":[]}"#,
        r#"{"model_name":1,"model_version":"1","parameters":{"sequence_id":0,"sequence_start":true,"sequence_end":false},"outputs":[]}"#,
        r#"{"model_name":"m","model_version":"1","parameters":{"sequence_id":0.5,"sequence_start":true,"sequence_end":false},"outputs":[]}"#,
        r#"{"model_name":"m","model_version":"1","parameters":{"sequence_id":9223372036854775808,"sequence_start":true,"sequence_end":false},"outputs":[]}"#,
        r#"{"model_name":"m","model_version":"1","parameters":{"sequence_id":0,"sequence_start":1,"sequence_end":false},"outputs":[]}"#,
        r#"{"model_name":"m","model_version":"1","parameters":{"sequence_id":0,"sequence_start":true},"outputs":[]}"#,
        r#"{"model_name":"m","model_version":"1","parameters":null,"outputs":[]}"#,
        r#"{"model_name":"m","model_version":"1","parameters":{"sequence_id":0,"sequence_start":true,"sequence_end":false}}"#,
        r#"{"model_name":"m","model_version":"1","parameters":{"sequence_id":0,"sequence_start":true,"sequence_end":false},"outputs":[{"name":"x","datatype":"FP32","shape":[1.5],"data":[]}]}"#,
        r#"{"model_name":"m","model_version":"1","parameters":{"sequence_id":0,"sequence_start":true,"sequence_end":false},"outputs":[{"name":"x","datatype":"FP32","shape":[1],"data":["a"]}]}"#,
        r#"{"model_name":"m","model_version":"1","parameters":{"sequence_id":0,"sequence_start":true,"sequence_end":false},"outputs":[{"name":"x","shape":[1],"data":[]}]}"#,
        r#"[]"#,
    ] {
        assert!(Output::from_json(&parse_json(text).unwrap()).is_none(), "{}", text);
    }
    let tensor = InferOutputTensor::from_json(
        &parse_json(r#"{"name":"x","datatype":"FP32","shape":[2,-1],"data":[1,2.5]}"#).unwrap(),
    )
    .unwrap();
    assert_eq!(tensor.shape, vec![2, -1]);
    assert_eq!(tensor.data.len(), 2);
    assert_eq!(
        tensor.to_json().to_text(),
        r#"{"data":[1,2.5],"datatype":"FP32","name":"x","shape":[2,-1]}"#
    );
    let parameters =
        Parameters::from_json(&parse_json(r#"{"sequence_id":7,"sequence_start":false,"sequence_end":true}"#).unwrap())
            .unwrap();
    assert_eq!(
        parameters.to_json().to_text(),
        r#"{"sequence_end":true,"sequence_id":7,"sequence_start":false}"#
    );
}

#[test]
fn classifier_request_carries_one_text_tensor() {
    let request = classifier_request(&policy(&["A"]), "hi \"there\"");
    assert_eq!(request.url, "http://triton:8000/v2/models/bert_ensemble/infer");
    assert_eq!(request.headers.len(), 1);
    assert_eq!(request.headers[0].name, "Content-Type");
    assert_eq!(request.headers[0].value, b"application/json".to_vec());
    assert_eq!(
        String::from_utf8(request.body).unwrap(),
        r#"{"inputs":[{"data":[["hi \"there\""]],"datatype":"BYTES","name":"INPUT","shape":[1,1]}]}"#
    );
    assert_eq!(
        InferInputs::for_text("t").to_json().to_text(),
        r#"{"inputs":[{"data":[["t"]],"datatype":"BYTES","name":"INPUT","shape":[1,1]}]}"#
    );
}

#[test]
fn argmax_picks_the_first_greatest() {
    assert_eq!(argmax(&vec![]), None);
    assert_eq!(argmax(&vec![7]), Some(0));
    assert_eq!(argmax(&vec![1, 7, 2]), Some(1));
    assert_eq!(argmax(&vec![7, 7, 7]), Some(0));
    assert_eq!(argmax(&vec![1, 9, 3, 9]), Some(1));
    assert_eq!(argmax(&vec![0, 1, 2, 3]), Some(3));
    assert_eq!(argmax(&vec![u64::MAX, 0, u64::MAX]), Some(0));
}

#[test]
fn order_key_orders_as_the_numbers_are_ordered() {
    let values = [
        f64::NEG_INFINITY,
        -1.0e300,
        -2.5,
        -1.0,
        -f64::MIN_POSITIVE,
        0.0,
        f64::MIN_POSITIVE,
        0.09,
        0.1,
        0.69,
        1.0,
        1.0e300,
        f64::INFINITY,
    ];
    for pair in values.windows(2) {
        assert!(key(pair[0]) < key(pair[1]), "{} < {}", pair[0], pair[1]);
    }
    assert_eq!(key(0.0), key(-0.0));
    assert_eq!(key(0.0), 0x8000_0000_0000_0000);
    assert_eq!(order_key_of(0), 0x8000_0000_0000_0000);
    assert_eq!(order_key_of(1), 0x8000_0000_0000_0001);
    assert_eq!(order_key_of(0x8000_0000_0000_0001), 0x7FFF_FFFF_FFFF_FFFE);
    assert_eq!(order_key_of(u64::MAX), 0);
}

#[test]
fn classifier_picks_the_greatest_score() {
    let body = r#"{"outputs":[{"data":[0.1, 0.7, 0.2]}]}"#;
    assert_eq!(choose_model(&policy(&["A", "B", "C"]), &reply(200, body)).unwrap(), 1);
}

#[test]
fn ties_go_to_the_first() {
    let p = policy(&["A", "B", "C"]);
    assert_eq!(choose_model(&p, &reply(200, r#"{"outputs":[{"data":[0.5,0.5,0.1]}]}"#)).unwrap(), 0);
    assert_eq!(choose_model(&p, &reply(200, r#"{"outputs":[{"data":[0.1,0.5,0.5]}]}"#)).unwrap(), 1);
    assert_eq!(choose_model(&p, &reply(200, r#"{"outputs":[{"data":[-0.0,0.0,0]}]}"#)).unwrap(), 0);
    assert_eq!(choose_model(&p, &reply(200, r#"{"outputs":[{"data":[1,1.0,1e0]}]}"#)).unwrap(), 0);
    assert_eq!(choose_model(&p, &reply(200, r#"{"outputs":[{"data":[-3,-2.5,-7]}]}"#)).unwrap(), 1);
    assert_eq!(choose_model(&p, &reply(200, r#"{"outputs":[{"data":[2,10,9.5]}]}"#)).unwrap(), 1);
}

#[test]
fn unreachable_classifier() {
    let (status, message) =
        classifier_failure(choose_model(&policy(&["A"]), &ClassifierReply::Unreachable));
    assert_eq!(status, 503);
    assert_eq!(message, "Triton server is unreachable");
}

#[test]
fn classifier_status_is_passed_on() {
    let p = policy(&["A"]);
    let (status, message) = classifier_failure(choose_model(&p, &reply(404, "no such model")));
    assert_eq!(status, 404);
    assert_eq!(message, "Triton service error: no such model");
    let (status, _) = classifier_failure(choose_model(&p, &reply(500, "")));
    assert_eq!(status, 500);
    let (status, _) = classifier_failure(choose_model(&p, &reply(301, "")));
    assert_eq!(status, 301);
    let (status, _) = classifier_failure(choose_model(&p, &reply(599, "")));
    assert_eq!(status, 599);
    let (status, _) = classifier_failure(choose_model(&p, &reply(600, "")));
    assert_eq!(status, 503);
    let (status, _) = classifier_failure(choose_model(&p, &reply(101, "")));
    assert_eq!(status, 503);
    let lossy = ClassifierReply::Response {
        status: StatusCode::from_u16(502).unwrap(),
        body: Ok(vec![b'a', 0xFF, b'b']),
    };
    let (status, message) = classifier_failure(choose_model(&p, &lossy));
    assert_eq!(status, 502);
    assert_eq!(message, "Triton service error: a\u{FFFD}b");
}

#[test]
fn unreadable_replies_are_server_errors() {
    let p = policy(&["A", "B"]);
    let (status, message) = classifier_failure(choose_model(&p, &reply(200, "not json")));
    assert_eq!(status, 500);
    assert_eq!(message, "Invalid Triton response: expected ident at line 1 column 2");
    let (status, message) = classifier_failure(choose_model(&p, &reply(200, "{}")));
    assert_eq!(status, 500);
    assert_eq!(message, "Invalid Triton response: missing field `outputs`");
    let (status, message) = classifier_failure(choose_model(&p, &reply(200, r#"{"outputs":3}"#)));
    assert_eq!(status, 500);
    assert_eq!(message, "Invalid Triton response: missing field `outputs`");
    let (status, message) = classifier_failure(choose_model(&p, &reply(200, r#"{"outputs":[]}"#)));
    assert_eq!(status, 500);
    assert_eq!(message, "No outputs returned from the Triton response");
    let (status, message) =
        classifier_failure(choose_model(&p, &reply(200, r#"{"outputs":[{"name":"x"}]}"#)));
    assert_eq!(status, 500);
    assert_eq!(message, "Invalid Triton response: missing field `data`");
    let (status, message) =
        classifier_failure(choose_model(&p, &reply(200, r#"{"outputs":[{"data":[0.1,"x"]}]}"#)));
    assert_eq!(status, 500);
    assert_eq!(message, "Invalid Triton response: invalid type in `data`");
    let (status, message) =
        classifier_failure(choose_model(&p, &reply(200, r#"{"outputs":[{"data":[]}]}"#)));
    assert_eq!(status, 500);
    assert_eq!(message, "Could not determine model selection from probability distribution");
    let (status, message) =
        classifier_failure(choose_model(&p, &reply(200, r#"{"outputs":[{"data":[1,2,3]}]}"#)));
    assert_eq!(status, 500);
    assert_eq!(message, "Classifier returned 3 scores for 2 models");
    let not_utf8 = ClassifierReply::Response { status: StatusCode::ok(), body: Ok(vec![0xFF]) };
    let (status, message) = classifier_failure(choose_model(&p, &not_utf8));
    assert_eq!(status, 500);
    assert_eq!(message, "Invalid Triton response: response body is not UTF-8");
    let broken = ClassifierReply::Response {
        status: StatusCode::ok(),
        body: Err(TransportFailure { status: None, message: "connection reset".to_string() }),
    };
    let (status, message) = classifier_failure(choose_model(&p, &broken));
    assert_eq!(status, 500);
    assert_eq!(message, "Invalid Triton response: connection reset");
}

#[test]
fn failure_while_reading_an_error_body() {
    let p = policy(&["A"]);
    let broken = ClassifierReply::Response {
        status: StatusCode::from_u16(502).unwrap(),
        body: Err(TransportFailure { status: None, message: "connection reset".to_string() }),
    };
    match choose_model(&p, &broken) {
        Err(GatewayApiError::Infrastructure(message)) => assert_eq!(message, "connection reset"),
        other => panic!("unexpected: {:?}", other),
    }
    let broken = ClassifierReply::Response {
        status: StatusCode::from_u16(502).unwrap(),
        body: Err(TransportFailure {
            status: Some(StatusCode::from_u16(502).unwrap()),
            message: "bad gateway".to_string(),
        }),
    };
    match choose_model(&p, &broken) {
        Err(GatewayApiError::ClientError { status, message, error_type }) => {
            assert_eq!(status.as_u16(), 502);
            assert_eq!(message, "bad gateway");
            assert_eq!(error_type, "http_client_error");
        }
        other => panic!("unexpected: {:?}", other),
    }
}

#[test]
fn pieces_of_the_choice() {
    let body = parse_json(r#"{"outputs":[{"data":[0.25,3,-1]},{"data":[9]}]}"#).unwrap();
    let scores = scores_from_json(&body).unwrap();
    assert_eq!(scores.len(), 3);
    let keys = keys_of(&scores);
    assert_eq!(keys, vec![key(0.25), key(3.0), key(-1.0)]);
    assert_eq!(select(3, &keys).unwrap(), 1);
    assert!(select(2, &keys).is_err());
    assert!(select(0, &vec![]).is_err());
    assert_eq!(choose_from_parsed(&policy(&["A", "B", "C"]), Ok(body)).unwrap(), 1);
    let (status, message) = classifier_failure(choose_from_parsed(
        &policy(&["A"]),
        Err("expected value at line 1 column 1".to_string()),
    ));
    assert_eq!(status, 500);
    assert_eq!(message, "Invalid Triton response: expected value at line 1 column 1");
}
