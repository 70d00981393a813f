//! The endpoints of the gateway: which path goes where, and the responses
//! of the endpoints that answer by themselves.
use crate::config::Llm;
use crate::config::LlmView;
use crate::config::Policy;
use crate::config::PolicyView;
use crate::config::RouterConfig;
use crate::config::RouterConfigView;
use crate::error::GatewayApiError;
use crate::json::Json;
use crate::json::JsonValue;
use crate::json::items_seq;
use crate::json::json_text;
use crate::json::lemma_array_view;
use crate::response::Header;
use crate::response::HeaderView;
use crate::response::HttpResponse;
use crate::response::HttpResponseView;
use crate::response::text_bytes;
use crate::status::StatusCode;
use crate::text::str_eq;
use vstd::prelude::*;
use vstd::string::StrSliceExecFns;

verus! {

/// Where a path leads.
#[derive(Debug, Clone, Copy, PartialEq, Eq, Structural)]
pub enum Endpoint {
    /// `/config`: the sanitized catalog.
    Config,
    /// `/health`.
    Health,
    /// `/metrics`: the exposition of the metrics.
    Metrics,
    /// `/v1/chat/completions` and `/completions`: the proxy.
    Proxy,
    /// Any other path.
    Unavailable,
}

/// The endpoint of a path.
pub open spec fn endpoint_of(path: Seq<char>) -> Endpoint {
    if path == "/config"@ {
        Endpoint::Config
    } else if path == "/health"@ {
        Endpoint::Health
    } else if path == "/metrics"@ {
        Endpoint::Metrics
    } else if path == "/v1/chat/completions"@ || path == "/completions"@ {
        Endpoint::Proxy
    } else {
        Endpoint::Unavailable
    }
}

/// The endpoint of a path, whatever the method.
pub fn route(path: &str) -> (r: Endpoint)
    ensures
        r == endpoint_of(path@),
{
    if str_eq(path, "/config") {
        Endpoint::Config
    } else if str_eq(path, "/health") {
        Endpoint::Health
    } else if str_eq(path, "/metrics") {
        Endpoint::Metrics
    } else if str_eq(path, "/v1/chat/completions") || str_eq(path, "/completions") {
        Endpoint::Proxy
    } else {
        Endpoint::Unavailable
    }
}

/// An LLM entry as a JSON object.
pub open spec fn llm_json(llm: LlmView) -> JsonValue {
    JsonValue::empty_object().set("name"@, JsonValue::Str(llm.name)).set(
        "api_base"@,
        JsonValue::Str(llm.api_base),
    ).set("api_key"@, JsonValue::Str(llm.api_key)).set("model"@, JsonValue::Str(llm.model))
}

/// A policy as a JSON object.
pub open spec fn policy_json(policy: PolicyView) -> JsonValue {
    JsonValue::empty_object().set("name"@, JsonValue::Str(policy.name)).set(
        "url"@,
        JsonValue::Str(policy.url),
    ).set("llms"@, JsonValue::Array(Seq::new(policy.llms.len(), |i: int| llm_json(policy.llms[i]))))
}

/// A catalog as JSON: `{"policies": [{"name", "url", "llms": [{"name",
/// "api_base", "api_key", "model"}, ..]}, ..]}`.
pub open spec fn config_json(config: RouterConfigView) -> JsonValue {
    JsonValue::empty_object().set(
        "policies"@,
        JsonValue::Array(Seq::new(config.policies.len(), |i: int| policy_json(config.policies[i]))),
    )
}

fn llm_to_json(llm: &Llm) -> (r: Json)
    ensures
        r@ == llm_json(llm@),
{
    Json::object().set("name", Json::string(llm.name.as_str())).set(
        "api_base",
        Json::string(llm.api_base.as_str()),
    ).set("api_key", Json::string(llm.api_key.as_str())).set(
        "model",
        Json::string(llm.model.as_str()),
    )
}

fn policy_to_json(policy: &Policy) -> (r: Json)
    ensures
        r@ == policy_json(policy@),
{
    let mut llms: Vec<Json> = Vec::new();
    let mut i: usize = 0;
    while i < policy.llms.len()
        invariant
            i <= policy.llms.len(),
            llms@.len() == i,
            forall|k: int| 0 <= k < i ==> (#[trigger] llms@[k])@ == llm_json(policy.llms@[k]@),
        decreases policy.llms.len() - i,
    {
        llms.push(llm_to_json(&policy.llms[i]));
        i = i + 1;
    }
    proof {
        lemma_array_view(llms);
        assert(items_seq(llms@) =~= Seq::new(
            policy@.llms.len(),
            |i: int| llm_json(policy@.llms[i]),
        ));
    }
    Json::object().set("name", Json::string(policy.name.as_str())).set(
        "url",
        Json::string(policy.url.as_str()),
    ).set("llms", Json::Array(llms))
}

/// The catalog as JSON.
pub fn config_to_json(config: &RouterConfig) -> (r: Json)
    ensures
        r@ == config_json(config@),
{
    let mut policies: Vec<Json> = Vec::new();
    let mut i: usize = 0;
    while i < config.policies.len()
        invariant
            i <= config.policies.len(),
            policies@.len() == i,
            forall|k: int|
                0 <= k < i ==> (#[trigger] policies@[k])@ == policy_json(config.policies@[k]@),
        decreases config.policies.len() - i,
    {
        policies.push(policy_to_json(&config.policies[i]));
        i = i + 1;
    }
    proof {
        lemma_array_view(policies);
        assert(items_seq(policies@) =~= Seq::new(
            config@.policies.len(),
            |i: int| policy_json(config@.policies[i]),
        ));
    }
    Json::object().set("policies", Json::Array(policies))
}

/// A response without headers whose body is the text of a JSON value.
pub open spec fn bare_json(status: u16, body: JsonValue) -> HttpResponseView {
    HttpResponseView { status, headers: Seq::empty(), body: text_bytes(json_text(body)) }
}

/// The response of `/config`: 200 with the sanitized catalog.
pub open spec fn config_response(config: RouterConfigView) -> HttpResponseView {
    bare_json(200, config_json(config.sanitized()))
}

/// The response of `/health`: 200 with `{"status":"OK"}`.
pub open spec fn health_response() -> HttpResponseView {
    bare_json(200, JsonValue::empty_object().set("status"@, JsonValue::Str("OK"@)))
}

/// The response of a path without an endpoint: 404 with
/// `{"path":"Unavailable"}`.
pub open spec fn unavailable_response() -> HttpResponseView {
    bare_json(404, JsonValue::empty_object().set("path"@, JsonValue::Str("Unavailable"@)))
}

fn bare(status: StatusCode, body: &Json) -> (r: HttpResponse)
    ensures
        r@ == bare_json(status@, body@),
{
    let text = body.to_text();
    HttpResponse::plain(status, text.as_str().as_bytes_vec())
}

/// Answers `/config` with the sanitized catalog. The response is always
/// made.
pub fn config(catalog: RouterConfig) -> (r: Result<HttpResponse, GatewayApiError>)
    ensures
        r is Ok,
        r->Ok_0@ == config_response(catalog@),
{
    let clean = catalog.sanitized();
    Ok(bare(StatusCode::ok(), &config_to_json(&clean)))
}

/// Answers `/health`. The response is always made.
pub fn health() -> (r: Result<HttpResponse, GatewayApiError>)
    ensures
        r is Ok,
        r->Ok_0@ == health_response(),
{
    Ok(bare(StatusCode::ok(), &Json::object().set("status", Json::string("OK"))))
}

/// Answers a path without an endpoint. The response is always made.
pub fn unavailable() -> (r: Result<HttpResponse, GatewayApiError>)
    ensures
        r is Ok,
        r->Ok_0@ == unavailable_response(),
{
    Ok(
        bare(
            StatusCode::not_found(),
            &Json::object().set("path", Json::string("Unavailable")),
        ),
    )
}

/// The metrics in the form in which they are exposed.
#[derive(Debug)]
pub struct Exposition {
    /// The value of `Content-Type` that the encoder names.
    pub content_type: String,
    pub body: Vec<u8>,
}

/// The mathematical value of a [`Exposition`].
pub struct ExpositionView {
    pub content_type: Seq<char>,
    pub body: Seq<u8>,
}

impl View for Exposition {
    type V = ExpositionView;

    open spec fn view(&self) -> ExpositionView {
        ExpositionView { content_type: self.content_type@, body: self.body@ }
    }
}

/// The response of `/metrics`: 200 with the exposition and its content type,
/// or 500 where the metrics could not be encoded.
pub open spec fn metrics_response(encoded: Result<ExpositionView, Seq<char>>) -> HttpResponseView {
    match encoded {
        Ok(exposition) => HttpResponseView {
            status: 200,
            headers: seq![
                HeaderView { name: "Content-Type"@, value: text_bytes(exposition.content_type) },
            ],
            body: exposition.body,
        },
        Err(_) => bare_json(500, JsonValue::Str("Failed to encode metrics"@)),
    }
}

/// Answers `/metrics` with what the encoder made of the metrics. The
/// response is always made.
pub fn metrics(encoded: Result<Exposition, String>) -> (r: Result<HttpResponse, GatewayApiError>)
    ensures
        r is Ok,
        r->Ok_0@ == metrics_response(
            match encoded {
                Ok(e) => Ok(e@),
                Err(e) => Err(e@),
            },
        ),
{
    match encoded {
        Ok(exposition) => {
            let mut headers: Vec<Header> = Vec::new();
            headers.push(
                crate::response::text_header("Content-Type", exposition.content_type.as_str()),
            );
            let r = HttpResponse { status: StatusCode::ok(), headers, body: exposition.body };
            assert(r@.headers =~= seq![
                HeaderView { name: "Content-Type"@, value: text_bytes(exposition.content_type@) },
            ]);
            Ok(r)
        },
        Err(_) => Ok(
            bare(StatusCode::internal_server_error(), &Json::string("Failed to encode metrics")),
        ),
    }
}

/// What is to be done with a request to a path.
#[derive(Debug)]
pub enum Handling {
    /// Answer with this response.
    Respond(HttpResponse),
    /// Encode the metrics and answer with [`metrics`].
    ExposeMetrics,
    /// Run the proxy.
    Proxy,
}

/// The mathematical value of a [`Handling`].
pub enum HandlingView {
    Respond(HttpResponseView),
    ExposeMetrics,
    Proxy,
}

impl View for Handling {
    type V = HandlingView;

    open spec fn view(&self) -> HandlingView {
        match self {
            Handling::Respond(r) => HandlingView::Respond(r@),
            Handling::ExposeMetrics => HandlingView::ExposeMetrics,
            Handling::Proxy => HandlingView::Proxy,
        }
    }
}

/// What is to be done with a request to `path`.
pub open spec fn handling_of(config: RouterConfigView, path: Seq<char>) -> HandlingView {
    match endpoint_of(path) {
        Endpoint::Config => HandlingView::Respond(config_response(config)),
        Endpoint::Health => HandlingView::Respond(health_response()),
        Endpoint::Metrics => HandlingView::ExposeMetrics,
        Endpoint::Proxy => HandlingView::Proxy,
        Endpoint::Unavailable => HandlingView::Respond(unavailable_response()),
    }
}

/// Dispatches a request by its path: answers `/config`, `/health` and
/// unknown paths, and says where the metrics or the proxy are asked for.
pub fn handler(config: &RouterConfig, path: &str) -> (r: Handling)
    ensures
        r@ == handling_of(config@, path@),
{
    match route(path) {
        Endpoint::Config => {
            let clean = config.sanitized();
            Handling::Respond(bare(StatusCode::ok(), &config_to_json(&clean)))
        },
        Endpoint::Health => Handling::Respond(
            bare(StatusCode::ok(), &Json::object().set("status", Json::string("OK"))),
        ),
        Endpoint::Metrics => Handling::ExposeMetrics,
        Endpoint::Proxy => Handling::Proxy,
        Endpoint::Unavailable => Handling::Respond(
            bare(StatusCode::not_found(), &Json::object().set("path", Json::string("Unavailable"))),
        ),
    }
}

/// In the catalog that `/config` shows, every `api_key` reads `[REDACTED]`.
pub proof fn lemma_config_shows_no_key(config: RouterConfigView)
    ensures
        config_json(config.sanitized()).get("policies"@) is Some,
        config_json(config.sanitized()).get("policies"@)->0 is Array,
        forall|i: int, j: int|
            #![trigger config.policies[i].llms[j]]
            0 <= i < config.policies.len() && 0 <= j < config.policies[i].llms.len() ==> {
                let policies = config_json(config.sanitized()).get("policies"@)->0->Array_0;
                let llms = policies[i].get("llms"@)->0->Array_0;
                &&& policies.len() == config.policies.len()
                &&& policies[i].get("llms"@) is Some
                &&& policies[i].get("llms"@)->0 is Array
                &&& llms.len() == config.policies[i].llms.len()
                &&& llms[j].get("api_key"@) == Some(JsonValue::Str("[REDACTED]"@))
            },
{
    reveal_strlit("api_key");
    reveal_strlit("model");
    assert("api_key"@.len() == 7);
    assert("model"@.len() == 5);
    assert("api_key"@ != "model"@);
}

} // verus!
