//! The `nim-llm-router` envelope of a request body: reading it, taking it
//! out, and pointing the body at the chosen model.
use crate::config::Llm;
use crate::error::GatewayApiError;
use crate::error::GatewayApiErrorView;
use crate::json::Json;
use crate::json::JsonValue;
use crate::json::json_text;
use crate::text::str_eq;
use vstd::prelude::*;

verus! {

/// How the LLM of a policy is picked.
#[derive(Debug, Clone, Copy, PartialEq, Eq, Structural)]
pub enum RoutingStrategy {
    /// The caller names the LLM.
    Manual,
    /// The classifier picks the LLM.
    Triton,
}

impl RoutingStrategy {
    /// The name of the strategy as requests and metrics write it.
    pub open spec fn spec_name(self) -> Seq<char> {
        match self {
            RoutingStrategy::Manual => "manual"@,
            RoutingStrategy::Triton => "triton"@,
        }
    }

    /// The name of the strategy as requests and metrics write it.
    pub fn name(&self) -> (r: &'static str)
        ensures
            r@ == self.spec_name(),
    {
        match self {
            RoutingStrategy::Manual => "manual",
            RoutingStrategy::Triton => "triton",
        }
    }
}

/// The routing directives that a request body carries under `nim-llm-router`.
#[derive(Debug)]
pub struct NimLlmRouterParams {
    pub policy: String,
    pub routing_strategy: Option<RoutingStrategy>,
    pub model: Option<String>,
    /// Accepted and carried; the choice of an LLM does not depend on it.
    pub threshold: Option<serde_json::Number>,
}

/// The mathematical value of a [`NimLlmRouterParams`].
pub struct NimLlmRouterParamsView {
    pub policy: Seq<char>,
    pub routing_strategy: Option<RoutingStrategy>,
    pub model: Option<Seq<char>>,
    pub threshold: Option<serde_json::Number>,
}

impl View for NimLlmRouterParams {
    type V = NimLlmRouterParamsView;

    open spec fn view(&self) -> NimLlmRouterParamsView {
        NimLlmRouterParamsView {
            policy: self.policy@,
            routing_strategy: self.routing_strategy,
            model: match self.model {
                Some(m) => Some(m@),
                None => None,
            },
            threshold: self.threshold,
        }
    }
}

impl NimLlmRouterParamsView {
    /// The threshold as JSON text: the envelope's own, or `0.5` where it
    /// has none.
    pub open spec fn threshold_text(self) -> Seq<char> {
        match self.threshold {
            Some(n) => json_text(JsonValue::Number(n)),
            None => "0.5"@,
        }
    }
}

impl NimLlmRouterParams {
    /// The threshold as JSON text: the envelope's own, or `0.5` where it
    /// has none.
    pub fn threshold_text(&self) -> (r: String)
        ensures
            r@ == self@.threshold_text(),
    {
        match &self.threshold {
            Some(n) => Json::Number(n.clone()).to_text(),
            None => "0.5".to_owned(),
        }
    }
}

/// The key of the envelope in a request body.
pub open spec fn envelope_key() -> Seq<char> {
    "nim-llm-router"@
}

/// An optional member is there unless it is missing or `null`.
pub open spec fn optional_member(v: JsonValue, key: Seq<char>) -> Option<JsonValue> {
    match v.get(key) {
        Some(JsonValue::Null) => None,
        other => other,
    }
}

/// The strategy that a member names: `Ok(None)` where there is no member,
/// `Err` where the member names no strategy.
pub open spec fn decode_strategy(member: Option<JsonValue>) -> Result<Option<RoutingStrategy>, ()> {
    match member {
        None => Ok(None),
        Some(JsonValue::Str(s)) => if s == "manual"@ {
            Ok(Some(RoutingStrategy::Manual))
        } else if s == "triton"@ {
            Ok(Some(RoutingStrategy::Triton))
        } else {
            Err(())
        },
        Some(_) => Err(()),
    }
}

/// The text of an optional member: `Err` where the member is no string.
pub open spec fn decode_text(member: Option<JsonValue>) -> Result<Option<Seq<char>>, ()> {
    match member {
        None => Ok(None),
        Some(JsonValue::Str(s)) => Ok(Some(s)),
        Some(_) => Err(()),
    }
}

/// The number of an optional member: `Err` where the member is no number.
pub open spec fn decode_number(member: Option<JsonValue>) -> Result<
    Option<serde_json::Number>,
    (),
> {
    match member {
        None => Ok(None),
        Some(JsonValue::Number(n)) => Ok(Some(n)),
        Some(_) => Err(()),
    }
}

/// The envelope that a JSON value spells out. It must be an object with a
/// string `policy`; `routing_strategy`, `model` and `threshold` may be
/// missing or `null`, and otherwise must be `"manual"` or `"triton"`, a
/// string, and a number. Other members are ignored.
pub open spec fn decode_params(v: JsonValue) -> Option<NimLlmRouterParamsView> {
    if !(v is Object) {
        None
    } else {
        match (
            v.get("policy"@),
            decode_strategy(optional_member(v, "routing_strategy"@)),
            decode_text(optional_member(v, "model"@)),
            decode_number(optional_member(v, "threshold"@)),
        ) {
            (
                Some(JsonValue::Str(policy)),
                Ok(routing_strategy),
                Ok(model),
                Ok(threshold),
            ) => Some(NimLlmRouterParamsView { policy, routing_strategy, model, threshold }),
            _ => None,
        }
    }
}

/// The envelope of a request body, where the body has one that can be read.
pub open spec fn params_of(body: JsonValue) -> Option<NimLlmRouterParamsView> {
    match body.get(envelope_key()) {
        Some(envelope) => decode_params(envelope),
        None => None,
    }
}

fn optional<'a>(v: &'a Json, key: &str) -> (r: Option<&'a Json>)
    ensures
        r is Some == optional_member(v@, key@) is Some,
        r is Some ==> r->0@ == optional_member(v@, key@)->0,
{
    match v.get(key) {
        Some(member) => if member.is_null() {
            None
        } else {
            Some(member)
        },
        None => None,
    }
}

fn params_from(v: &Json) -> (r: Option<NimLlmRouterParams>)
    ensures
        r is Some == decode_params(v@) is Some,
        r is Some ==> r->0@ == decode_params(v@)->0,
{
    if !v.is_object() {
        return None;
    }
    let policy = match v.get("policy") {
        Some(p) => match p.as_str() {
            Some(s) => s.to_owned(),
            None => {
                return None;
            },
        },
        None => {
            return None;
        },
    };
    let routing_strategy = match optional(v, "routing_strategy") {
        None => None,
        Some(member) => match member.as_str() {
            Some(s) => if str_eq(s, "manual") {
                Some(RoutingStrategy::Manual)
            } else if str_eq(s, "triton") {
                Some(RoutingStrategy::Triton)
            } else {
                return None;
            },
            None => {
                return None;
            },
        },
    };
    let model = match optional(v, "model") {
        None => None,
        Some(member) => match member.as_str() {
            Some(s) => Some(s.to_owned()),
            None => {
                return None;
            },
        },
    };
    let threshold = match optional(v, "threshold") {
        None => None,
        Some(member) => match member {
            Json::Number(n) => Some(n.clone()),
            _ => {
                return None;
            },
        },
    };
    Some(NimLlmRouterParams { policy, routing_strategy, model, threshold })
}

/// Reads the envelope of a request body. A body without the member
/// `nim-llm-router`, or with one that does not spell out an envelope, has
/// none.
pub fn extract_nim_llm_router_params(value: &Json) -> (r: Option<NimLlmRouterParams>)
    ensures
        r is Some == params_of(value@) is Some,
        r is Some ==> r->0@ == params_of(value@)->0,
{
    match value.get("nim-llm-router") {
        Some(envelope) => params_from(envelope),
        None => None,
    }
}

/// The body without its envelope. A body that is no object comes back as it is.
pub fn remove_nim_llm_router_params(value: Json) -> (r: Json)
    ensures
        r@ == value@.remove(envelope_key()),
{
    value.remove("nim-llm-router")
}

/// The body with `model` as its member `model`. `null` counts as the empty
/// object; any other value that is no object cannot carry a member.
pub open spec fn with_model(body: JsonValue, model: Seq<char>) -> Option<JsonValue> {
    match body {
        JsonValue::Object(_) => Some(body.set("model"@, JsonValue::Str(model))),
        JsonValue::Null => Some(JsonValue::empty_object().set("model"@, JsonValue::Str(model))),
        _ => None,
    }
}

/// Sets the member `model` of the body, overwriting one that is there. A body
/// that is neither an object nor `null` is refused.
pub fn modify_model(value: Json, model: &str) -> (r: Result<Json, GatewayApiError>)
    ensures
        match r {
            Ok(json) => with_model(value@, model@) == Some(json@),
            Err(e) => with_model(value@, model@) is None
                && e@ == (GatewayApiErrorView::InvalidRequest {
                message: "Request body is not a JSON object"@,
            }),
        },
{
    match value {
        Json::Object(_) => Ok(value.set("model", Json::string(model))),
        Json::Null => Ok(Json::object().set("model", Json::string(model))),
        _ => Err(
            GatewayApiError::InvalidRequest {
                message: "Request body is not a JSON object".to_owned(),
            },
        ),
    }
}

/// The body that is sent to an LLM whose model is `model`: the inbound body
/// without its envelope and with `model` as its member `model`.
pub open spec fn rewritten(body: JsonValue, model: Seq<char>) -> Option<JsonValue> {
    with_model(body.remove(envelope_key()), model)
}

/// Rewrites an inbound body for the chosen LLM.
pub fn rewrite_body(value: Json, llm: &Llm) -> (r: Result<Json, GatewayApiError>)
    ensures
        match r {
            Ok(json) => rewritten(value@, llm@.model) == Some(json@),
            Err(e) => rewritten(value@, llm@.model) is None
                && e@ == (GatewayApiErrorView::InvalidRequest {
                message: "Request body is not a JSON object"@,
            }),
        },
{
    modify_model(remove_nim_llm_router_params(value), llm.model.as_str())
}

/// Taking the envelope out twice is the same as taking it out once.
pub proof fn lemma_strip_idempotent(body: JsonValue)
    ensures
        body.remove(envelope_key()).remove(envelope_key()) == body.remove(envelope_key()),
{
    let once = body.remove(envelope_key());
    match body {
        JsonValue::Object(m) => {
            assert(m.remove(envelope_key()).remove(envelope_key()) =~= m.remove(envelope_key()));
        },
        _ => {},
    }
}

/// A rewritten body has the chosen model as its member `model` and no envelope.
pub proof fn lemma_rewritten_body(body: JsonValue, model: Seq<char>)
    requires
        rewritten(body, model) is Some,
    ensures
        rewritten(body, model)->0.get("model"@) == Some(JsonValue::Str(model)),
        rewritten(body, model)->0.get(envelope_key()) is None,
        rewritten(body, model)->0 is Object,
{
    reveal_strlit("model");
    reveal_strlit("nim-llm-router");
    assert("model"@.len() == 5);
    assert("nim-llm-router"@.len() == 14);
    assert("model"@ != envelope_key());
}

/// Rewriting leaves every member but `model` and the envelope as it is.
pub proof fn lemma_rewritten_keeps_other_members(
    body: JsonValue,
    model: Seq<char>,
    key: Seq<char>,
)
    requires
        rewritten(body, model) is Some,
        key != "model"@,
        key != envelope_key(),
    ensures
        rewritten(body, model)->0.get(key) == body.get(key),
{
}

/// A body whose envelope can be read is an object, so it can be rewritten
/// for any model.
pub proof fn lemma_body_with_envelope_is_rewritten(body: JsonValue, model: Seq<char>)
    requires
        params_of(body) is Some,
    ensures
        body is Object,
        rewritten(body, model) is Some,
{
}

/// Rewriting a rewritten body for the same model changes nothing, so both
/// are written as the same text.
pub proof fn lemma_rewrite_idempotent(body: JsonValue, model: Seq<char>)
    requires
        rewritten(body, model) is Some,
    ensures
        rewritten(rewritten(body, model)->0, model) == rewritten(body, model),
        json_text(rewritten(rewritten(body, model)->0, model)->0) == json_text(
            rewritten(body, model)->0,
        ),
{
    reveal_strlit("model");
    reveal_strlit("nim-llm-router");
    assert("model"@.len() == 5);
    assert("nim-llm-router"@.len() == 14);
    assert("model"@ != envelope_key());
    let once = rewritten(body, model)->0;
    let m = once->Object_0;
    assert(m.remove(envelope_key()) =~= m);
    assert(m.insert("model"@, JsonValue::Str(model)) =~= m);
}

} // verus!
