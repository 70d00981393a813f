use llm_router_gateway_api::config::{validate_config, ConfigError, Llm, Policy, RouterConfig};

fn llm(name: &str, api_base: &str, api_key: &str, model: &str) -> Llm {
    Llm {
        name: name.to_string(),
        api_base: api_base.to_string(),
        api_key: api_key.to_string(),
        model: model.to_string(),
    }
}

fn sample() -> RouterConfig {
    RouterConfig {
        policies: vec![
            Policy {
                name: "task_router".to_string(),
                url: "http://triton:8000/v2/models/task/infer".to_string(),
                llms: vec![
                    llm("Brainstorming", "https://a.example", "key-a", "model-a"),
                    llm("Code Generation", "https://b.example", "key-b", "model-b"),
                ],
            },
            Policy {
                name: " complexity_router ".to_string(),
                url: "http://triton:8000/v2/models/complexity/infer".to_string(),
                llms: vec![llm("Reasoning", "https://c.example", "key-c", "model-c")],
            },
        ],
    }
}

#[test]
fn policy_lookup_by_name_ignores_surrounding_white_space() {
    let config = sample();
    assert_eq!(config.get_policy_by_name("task_router").unwrap().url, config.policies[0].url);
    assert_eq!(config.get_policy_by_name("  task_router\n").unwrap().name, "task_router");
    assert_eq!(
        config.get_policy_by_name("complexity_router").unwrap().name,
        " complexity_router "
    );
    assert!(config.get_policy_by_name("task router").is_none());
    assert!(config.get_policy_by_name("").is_none());
}

#[test]
fn policy_lookup_by_name_returns_the_first_match() {
    let mut config = sample();
    config.policies[1].name = "task_router".to_string();
    let found = config.get_policy_by_name("task_router").unwrap();
    assert_eq!(found.llms.len(), 2);
}

#[test]
fn policy_lookup_by_index() {
    let config = sample();
    assert_eq!(config.get_policy_by_index(1).unwrap().llms[0].name, "Reasoning");
    assert!(config.get_policy_by_index(2).is_none());
}

#[test]
fn llm_lookups() {
    let policy = sample().policies.remove(0);
    assert_eq!(policy.get_llm_by_name(" Code Generation ").unwrap().model, "model-b");
    assert!(policy.get_llm_by_name("Code").is_none());
    assert_eq!(policy.get_llm_by_index(0).unwrap().api_key, "key-a");
    assert!(policy.get_llm_by_index(2).is_none());
    assert_eq!(policy.get_llm_name_by_index(1).unwrap(), "Code Generation");
    assert!(policy.get_llm_name_by_index(5).is_none());
    assert_eq!(policy.llm_index_by_name("Code Generation"), Some(1));
    assert_eq!(policy.llm_index_by_name(" Code Generation "), None);
}

#[test]
fn sanitized_replaces_every_key_and_nothing_else() {
    let config = sample();
    let clean = config.sanitized();
    assert_eq!(clean.policies.len(), 2);
    for (p, q) in config.policies.iter().zip(clean.policies.iter()) {
        assert_eq!(p.name, q.name);
        assert_eq!(p.url, q.url);
        assert_eq!(p.llms.len(), q.llms.len());
        for (a, b) in p.llms.iter().zip(q.llms.iter()) {
            assert_eq!(b.api_key, "[REDACTED]");
            assert_eq!(a.name, b.name);
            assert_eq!(a.api_base, b.api_base);
            assert_eq!(a.model, b.model);
        }
    }
    assert_eq!(config.policies[0].llms[0].api_key, "key-a");
}

#[test]
fn validation_accepts_a_complete_catalog() {
    assert!(validate_config(&sample()).is_ok());
    assert!(validate_config(&RouterConfig { policies: vec![] }).is_ok());
}

#[test]
fn validation_names_the_first_missing_field() {
    let mut config = sample();
    config.policies[1].llms[0].model = String::new();
    config.policies[1].llms[0].api_key = String::new();
    match validate_config(&config) {
        Err(ConfigError::MissingLlmField { llm, field }) => {
            assert_eq!(llm, "Reasoning");
            assert_eq!(field, "model");
        }
        other => panic!("unexpected: {:?}", other),
    }
    config.policies[0].name = String::new();
    let err = validate_config(&config).unwrap_err();
    assert_eq!(err.message(), "Missing field 'name' in policy ''");
    let mut config = sample();
    config.policies[0].llms[1].api_base = String::new();
    let err = validate_config(&config).unwrap_err();
    assert_eq!(err.message(), "Missing field 'api_base' in LLM 'Code Generation'");
    let mut config = sample();
    config.policies[0].llms[0].api_key = String::new();
    let err = validate_config(&config).unwrap_err();
    assert_eq!(err.message(), "Missing field 'api_key' in LLM 'Brainstorming'");
}
