//! The course of one proxied request: a state machine that says, after each
//! event, what is to be done next and which metrics are updated. Whoever
//! runs it performs the calls and hands back what came of them.
use crate::config::Policy;
use crate::config::PolicyView;
use crate::config::RouterConfig;
use crate::config::RouterConfigView;
use crate::error::GatewayApiError;
use crate::error::GatewayApiErrorView;
use crate::error::IntoResponse;
use crate::json::Json;
use crate::json::JsonValue;
use crate::json::json_of_text;
use crate::json::json_text;
use crate::json::parse_json;
use crate::messages::Message;
use crate::messages::extract_messages;
use crate::messages::get_last_message_for_triton;
use crate::messages::last_content;
use crate::messages::messages_of;
use crate::metrics::MetricEvent;
use crate::metrics::MetricEventView;
use crate::metrics::completion_events;
use crate::metrics::completion_metrics;
use crate::metrics::events_view;
use crate::response::Header;
use crate::response::HeaderView;
use crate::response::HttpResponse;
use crate::response::HttpResponseView;
use crate::response::json_content_type;
use crate::response::text_bytes;
use crate::router_params::NimLlmRouterParamsView;
use crate::router_params::RoutingStrategy;
use crate::router_params::extract_nim_llm_router_params;
use crate::router_params::params_of;
use crate::router_params::rewrite_body;
use crate::router_params::rewritten;
use crate::status::StatusCode;
use crate::stream::parsed_updates;
use crate::stream::updates_for_parsed;
use crate::text::text_of;
use crate::text::utf8_lossy;
use crate::text::utf8_strict;
use crate::triton::ClassifierReply;
use crate::triton::ClassifierReplyView;
use crate::triton::ClassifierRequest;
use crate::triton::ClassifierRequestView;
use crate::triton::TransportFailure;
use crate::triton::TransportFailureView;
use crate::triton::choice;
use crate::triton::choose_model;
use crate::triton::classifier_request;
use crate::triton::classifier_request_for;
use crate::upstream::check_header_value;
use crate::upstream::extract_forward_uri_path_and_query;
use crate::upstream::forward_uri;
use crate::upstream::header_value_ok;
use crate::upstream::header_value_refused;
use crate::upstream::is_stream;
use crate::upstream::outbound_headers;
use crate::upstream::outbound_headers_for;
use crate::upstream::path_text;
use crate::upstream::relay_headers;
use crate::upstream::relayed_headers;
use crate::upstream::upstream_url;
use crate::upstream::forwarded_text;
use crate::upstream::wants_stream;
use vstd::prelude::*;
use vstd::string::StrSliceExecFns;

verus! {

/// An inbound request, as far as the proxy reads it.
#[derive(Debug)]
pub struct InboundRequest {
    pub method: String,
    /// The path and query of the request, if it has one.
    pub path_and_query: Option<String>,
    /// The value of `Content-Type`, where there is one and it is text.
    pub content_type: Option<String>,
    /// The body, or why it could not be read.
    pub body: Result<Vec<u8>, String>,
}

/// The mathematical value of a [`InboundRequest`].
pub struct InboundRequestView {
    pub method: Seq<char>,
    pub path_and_query: Option<Seq<char>>,
    pub content_type: Option<Seq<char>>,
    pub body: Result<Seq<u8>, Seq<char>>,
}

impl View for InboundRequest {
    type V = InboundRequestView;

    open spec fn view(&self) -> InboundRequestView {
        InboundRequestView {
            method: self.method@,
            path_and_query: match self.path_and_query {
                Some(p) => Some(p@),
                None => None,
            },
            content_type: match self.content_type {
                Some(c) => Some(c@),
                None => None,
            },
            body: match self.body {
                Ok(b) => Ok(b@),
                Err(e) => Err(e@),
            },
        }
    }
}

/// What is sent to the chosen LLM: a POST.
#[derive(Debug)]
pub struct UpstreamRequest {
    pub url: String,
    pub headers: Vec<Header>,
    pub body: Vec<u8>,
    /// The response is to be relayed as a stream where it is a success.
    pub stream: bool,
}

/// The mathematical value of a [`UpstreamRequest`].
#[verifier::ext_equal]
pub struct UpstreamRequestView {
    pub url: Seq<char>,
    pub headers: Seq<HeaderView>,
    pub body: Seq<u8>,
    pub stream: bool,
}

impl View for UpstreamRequest {
    type V = UpstreamRequestView;

    open spec fn view(&self) -> UpstreamRequestView {
        UpstreamRequestView {
            url: self.url@,
            headers: self.headers@.map_values(|h: Header| h@),
            body: self.body@,
            stream: self.stream,
        }
    }
}

/// How the call of the LLM went as far as the head of its response.
#[derive(Debug)]
pub enum UpstreamReply {
    /// The LLM could not be reached.
    Unreachable,
    /// The LLM answered with this status and these headers.
    Headers { status: StatusCode, headers: Vec<Header> },
}

/// The mathematical value of a [`UpstreamReply`].
pub enum UpstreamReplyView {
    Unreachable,
    Headers { status: u16, headers: Seq<HeaderView> },
}

impl View for UpstreamReply {
    type V = UpstreamReplyView;

    open spec fn view(&self) -> UpstreamReplyView {
        match self {
            UpstreamReply::Unreachable => UpstreamReplyView::Unreachable,
            UpstreamReply::Headers { status, headers } => UpstreamReplyView::Headers {
                status: status@,
                headers: headers@.map_values(|h: Header| h@),
            },
        }
    }
}

/// What is kept while the classifier is asked.
#[derive(Debug)]
pub struct Pending {
    pub policy: Policy,
    pub body: Json,
    pub stream: bool,
    pub forward_uri: String,
}

/// The mathematical value of a [`Pending`].
pub struct PendingView {
    pub policy: PolicyView,
    pub body: JsonValue,
    pub stream: bool,
    pub forward_uri: Seq<char>,
}

impl View for Pending {
    type V = PendingView;

    open spec fn view(&self) -> PendingView {
        PendingView {
            policy: self.policy@,
            body: self.body@,
            stream: self.stream,
            forward_uri: self.forward_uri@,
        }
    }
}

/// What is kept while the LLM is asked.
#[derive(Debug)]
pub struct InFlight {
    pub llm_name: String,
    pub stream: bool,
    /// The time that the classifier took; 0 where it was not asked.
    pub classifier_nanos: u64,
}

/// The mathematical value of a [`InFlight`].
pub struct InFlightView {
    pub llm_name: Seq<char>,
    pub stream: bool,
    pub classifier_nanos: u64,
}

impl View for InFlight {
    type V = InFlightView;

    open spec fn view(&self) -> InFlightView {
        InFlightView {
            llm_name: self.llm_name@,
            stream: self.stream,
            classifier_nanos: self.classifier_nanos,
        }
    }
}

/// What is kept while the body of the LLM's response is read.
#[derive(Debug)]
pub struct Receiving {
    pub llm_name: String,
    pub status: StatusCode,
    pub headers: Vec<Header>,
    pub classifier_nanos: u64,
    /// The time from sending the request to the head of the response.
    pub upstream_nanos: u64,
}

/// The mathematical value of a [`Receiving`].
pub struct ReceivingView {
    pub llm_name: Seq<char>,
    pub status: u16,
    pub headers: Seq<HeaderView>,
    pub classifier_nanos: u64,
    pub upstream_nanos: u64,
}

impl View for Receiving {
    type V = ReceivingView;

    open spec fn view(&self) -> ReceivingView {
        ReceivingView {
            llm_name: self.llm_name@,
            status: self.status@,
            headers: self.headers@.map_values(|h: Header| h@),
            classifier_nanos: self.classifier_nanos,
            upstream_nanos: self.upstream_nanos,
        }
    }
}

/// Where a proxied request stands.
#[derive(Debug)]
pub enum ProxyState {
    /// Nothing has been read yet.
    Start,
    /// The classifier has been asked.
    Classifying(Pending),
    /// The LLM has been asked.
    Forwarding(InFlight),
    /// The body of the LLM's response is being read.
    Reading(Receiving),
    /// The request is answered or has failed.
    Done,
}

/// The mathematical value of a [`ProxyState`].
pub enum ProxyStateView {
    Start,
    Classifying(PendingView),
    Forwarding(InFlightView),
    Reading(ReceivingView),
    Done,
}

impl View for ProxyState {
    type V = ProxyStateView;

    open spec fn view(&self) -> ProxyStateView {
        match self {
            ProxyState::Start => ProxyStateView::Start,
            ProxyState::Classifying(p) => ProxyStateView::Classifying(p@),
            ProxyState::Forwarding(f) => ProxyStateView::Forwarding(f@),
            ProxyState::Reading(r) => ProxyStateView::Reading(r@),
            ProxyState::Done => ProxyStateView::Done,
        }
    }
}

/// What happened since the last step.
#[derive(Debug)]
#[allow(inconsistent_fields)]
pub enum ProxyEvent {
    /// The request has arrived.
    Request(InboundRequest),
    /// The call of the classifier ended after `elapsed_nanos`.
    Classified { reply: ClassifierReply, elapsed_nanos: u64 },
    /// The call of the LLM came as far as the head of the response, or
    /// failed, after `elapsed_nanos`.
    Upstream { reply: UpstreamReply, elapsed_nanos: u64 },
    /// The body of the LLM's response was read, or reading it failed.
    Body(Result<Vec<u8>, TransportFailure>),
}

/// The mathematical value of a [`ProxyEvent`].
#[allow(inconsistent_fields)]
pub enum ProxyEventView {
    Request(InboundRequestView),
    Classified { reply: ClassifierReplyView, elapsed_nanos: u64 },
    Upstream { reply: UpstreamReplyView, elapsed_nanos: u64 },
    Body(Result<Seq<u8>, TransportFailureView>),
}

impl View for ProxyEvent {
    type V = ProxyEventView;

    open spec fn view(&self) -> ProxyEventView {
        match self {
            ProxyEvent::Request(r) => ProxyEventView::Request(r@),
            ProxyEvent::Classified { reply, elapsed_nanos } => ProxyEventView::Classified {
                reply: reply@,
                elapsed_nanos: *elapsed_nanos,
            },
            ProxyEvent::Upstream { reply, elapsed_nanos } => ProxyEventView::Upstream {
                reply: reply@,
                elapsed_nanos: *elapsed_nanos,
            },
            ProxyEvent::Body(b) => ProxyEventView::Body(
                match b {
                    Ok(bytes) => Ok(bytes@),
                    Err(f) => Err(f@),
                },
            ),
        }
    }
}

/// What is to be done next.
#[derive(Debug)]
pub enum ProxyAction {
    /// Send the request to the classifier and report `Classified`.
    CallClassifier(ClassifierRequest),
    /// Send the request to the LLM and report `Upstream`.
    CallUpstream(UpstreamRequest),
    /// Read the body of the LLM's response and report `Body`.
    ReadBody,
    /// Answer with this response. The request is done.
    Respond(HttpResponse),
    /// Answer with this head and relay the body of the LLM's response as it
    /// comes. The request is done.
    RespondStreaming { status: StatusCode, headers: Vec<Header>, llm_name: String },
    /// Give up without a response. The request is done.
    Fail(GatewayApiError),
}

/// The mathematical value of a [`ProxyAction`].
pub enum ProxyActionView {
    CallClassifier(ClassifierRequestView),
    CallUpstream(UpstreamRequestView),
    ReadBody,
    Respond(HttpResponseView),
    RespondStreaming { status: u16, headers: Seq<HeaderView>, llm_name: Seq<char> },
    Fail(GatewayApiErrorView),
}

impl View for ProxyAction {
    type V = ProxyActionView;

    open spec fn view(&self) -> ProxyActionView {
        match self {
            ProxyAction::CallClassifier(r) => ProxyActionView::CallClassifier(r@),
            ProxyAction::CallUpstream(r) => ProxyActionView::CallUpstream(r@),
            ProxyAction::ReadBody => ProxyActionView::ReadBody,
            ProxyAction::Respond(r) => ProxyActionView::Respond(r@),
            ProxyAction::RespondStreaming { status, headers, llm_name } => ProxyActionView::RespondStreaming {
                status: status@,
                headers: headers@.map_values(|h: Header| h@),
                llm_name: llm_name@,
            },
            ProxyAction::Fail(e) => ProxyActionView::Fail(e@),
        }
    }
}

/// One step of a proxied request: the new state, what is to be done, and the
/// metrics to update.
#[derive(Debug)]
pub struct Step {
    pub state: ProxyState,
    pub action: ProxyAction,
    pub metrics: Vec<MetricEvent>,
}

/// The mathematical value of a [`Step`].
pub struct StepView {
    pub state: ProxyStateView,
    pub action: ProxyActionView,
    pub metrics: Seq<MetricEventView>,
}

impl View for Step {
    type V = StepView;

    open spec fn view(&self) -> StepView {
        StepView { state: self.state@, action: self.action@, metrics: events_view(self.metrics@) }
    }
}

impl ProxyActionView {
    /// The action ends the request.
    pub open spec fn is_final(self) -> bool {
        self is Respond || self is RespondStreaming || self is Fail
    }

    /// The status of the response that the action gives, if it gives one.
    pub open spec fn status(self) -> Option<u16> {
        match self {
            ProxyActionView::Respond(r) => Some(r.status),
            ProxyActionView::RespondStreaming { status, .. } => Some(status),
            _ => None,
        }
    }
}

/// The step that ends a request with `action`: the metrics so far, then the
/// whole time, the proxy's own time and the outcome.
pub open spec fn finished(
    action: ProxyActionView,
    metrics: Seq<MetricEventView>,
    overall: u64,
    classifier: u64,
    upstream: u64,
) -> StepView {
    StepView {
        state: ProxyStateView::Done,
        action,
        metrics: metrics + completion_events(action.status(), overall, classifier, upstream),
    }
}

/// The JSON value of an inbound body: what the body, read leniently as text,
/// spells out, or `null` where it spells out nothing.
pub open spec fn request_json(body: Seq<u8>) -> JsonValue {
    match json_of_text(text_of(body)) {
        Ok(json) => json,
        Err(_) => JsonValue::Null,
    }
}

/// The messages of an inbound body, or none where it has none.
pub open spec fn request_messages(body: JsonValue) -> Seq<crate::messages::MessageView> {
    match messages_of(body) {
        Some(messages) => messages,
        None => Seq::empty(),
    }
}

/// The error for a body without an envelope that names a policy.
pub open spec fn missing_envelope() -> GatewayApiErrorView {
    GatewayApiErrorView::InvalidRequest {
        message: "Missing required 'nim-llm-router' parameters in request body. Expected format: { 'nim-llm-router': { 'policy': 'string', 'routing_strategy': 'manual|triton', 'model': 'string' (for manual strategy) } }"@,
    }
}

/// The error for an envelope without a routing strategy.
pub open spec fn missing_strategy() -> GatewayApiErrorView {
    GatewayApiErrorView::InvalidRequest { message: "No routing strategy specified"@ }
}

/// The error for manual routing without a model.
pub open spec fn missing_model() -> GatewayApiErrorView {
    GatewayApiErrorView::InvalidRequest { message: "No model specified for manual routing"@ }
}

/// The response for manual routing to a model that the policy does not have.
pub open spec fn model_not_found(model: Seq<char>) -> HttpResponseView {
    GatewayApiErrorView::ModelNotFound(model).into_response()
}

/// The response for a failure of the classifier: its status and its message.
pub open spec fn classifier_failure(status_code: u16, message: Seq<char>) -> HttpResponseView {
    HttpResponseView {
        status: crate::status::mirrored_status(status_code),
        headers: seq![json_content_type()],
        body: text_bytes(message),
    }
}

/// The error for an LLM that could not be reached.
pub open spec fn llm_unreachable(llm_name: Seq<char>) -> GatewayApiErrorView {
    GatewayApiErrorView::LlmServiceError {
        status: 503,
        message: "LLM server is unreachable"@,
        provider: llm_name,
        details: None,
    }
}

/// The error for an event that does not fit the state.
pub open spec fn out_of_turn() -> GatewayApiErrorView {
    GatewayApiErrorView::UnexpectedError { message: "Event does not fit the state"@ }
}

/// The step that sends the request to the LLM at `index` of `policy`.
pub open spec fn dispatched(
    policy: PolicyView,
    index: int,
    body: JsonValue,
    stream: bool,
    forward_uri: Seq<char>,
    metrics: Seq<MetricEventView>,
    overall: u64,
    classifier_nanos: u64,
) -> StepView {
    let llm = policy.llms[index];
    let counted = metrics.push(MetricEventView::RequestsPerModel { model: llm.name });
    match rewritten(body, llm.model) {
        None => finished(
            ProxyActionView::Fail(
                GatewayApiErrorView::InvalidRequest { message: "Request body is not a JSON object"@ },
            ),
            counted,
            overall,
            classifier_nanos,
            0,
        ),
        Some(outbound) => if !header_value_ok(text_bytes("Bearer "@ + llm.api_key))
            || !header_value_ok(text_bytes(llm.name)) {
            finished(
                ProxyActionView::Fail(header_value_refused()),
                counted,
                overall,
                classifier_nanos,
                0,
            )
        } else {
            StepView {
                state: ProxyStateView::Forwarding(
                    InFlightView { llm_name: llm.name, stream, classifier_nanos },
                ),
                action: ProxyActionView::CallUpstream(
                    UpstreamRequestView {
                        url: llm.api_base + forward_uri,
                        headers: outbound_headers_for(llm),
                        body: text_bytes(json_text(outbound)),
                        stream,
                    },
                ),
                metrics: counted,
            }
        },
    }
}

/// The step for a request whose envelope has been read and whose policy has
/// been found.
pub open spec fn routed(
    policy: PolicyView,
    params: NimLlmRouterParamsView,
    body: JsonValue,
    stream: bool,
    forward_uri: Seq<char>,
    overall: u64,
) -> StepView {
    let metrics = seq![
        MetricEventView::NumRequests,
        MetricEventView::RequestsPerPolicy { policy: policy.name },
    ];
    match params.routing_strategy {
        None => finished(
            ProxyActionView::Respond(missing_strategy().into_response()),
            metrics,
            overall,
            0,
            0,
        ),
        Some(RoutingStrategy::Manual) => {
            let counted = metrics.push(
                MetricEventView::RoutingPolicyUsage { strategy: RoutingStrategy::Manual },
            );
            match params.model {
                None => finished(
                    ProxyActionView::Respond(missing_model().into_response()),
                    counted,
                    overall,
                    0,
                    0,
                ),
                Some(model) => match policy.llm_index_by_name(model) {
                    None => finished(
                        ProxyActionView::Respond(model_not_found(model)),
                        counted,
                        overall,
                        0,
                        0,
                    ),
                    Some(index) => dispatched(
                        policy,
                        index,
                        body,
                        stream,
                        forward_uri,
                        counted,
                        overall,
                        0,
                    ),
                },
            }
        },
        Some(RoutingStrategy::Triton) => StepView {
            state: ProxyStateView::Classifying(PendingView { policy, body, stream, forward_uri }),
            action: ProxyActionView::CallClassifier(
                classifier_request_for(policy, last_content(request_messages(body))),
            ),
            metrics: metrics.push(
                MetricEventView::RoutingPolicyUsage { strategy: RoutingStrategy::Triton },
            ),
        },
    }
}

/// The step for a request whose body has been read.
pub open spec fn received(
    config: RouterConfigView,
    request: InboundRequestView,
    bytes: Seq<u8>,
    forward_uri: Seq<char>,
    overall: u64,
) -> StepView {
    let body = request_json(bytes);
    let stream = wants_stream(request.method, request.content_type, body);
    let metrics = seq![MetricEventView::NumRequests];
    match params_of(body) {
        None => finished(
            ProxyActionView::Respond(missing_envelope().into_response()),
            metrics,
            overall,
            0,
            0,
        ),
        Some(params) => if params.policy.len() == 0 {
            finished(
                ProxyActionView::Respond(missing_envelope().into_response()),
                metrics,
                overall,
                0,
                0,
            )
        } else {
            match config.policy_by_name(params.policy) {
                None => finished(
                    ProxyActionView::Respond(
                        GatewayApiErrorView::PolicyNotFound(params.policy).into_response(),
                    ),
                    metrics,
                    overall,
                    0,
                    0,
                ),
                Some(policy) => routed(policy, params, body, stream, forward_uri, overall),
            }
        },
    }
}

/// The first step: the request has arrived.
pub open spec fn on_request(config: RouterConfigView, request: InboundRequestView, overall: u64) -> StepView {
    let metrics = seq![MetricEventView::NumRequests];
    match forward_uri(forwarded_text(path_text(request.path_and_query))) {
        Err(e) => finished(ProxyActionView::Fail(e), metrics, overall, 0, 0),
        Ok(uri) => match request.body {
            Err(reason) => finished(
                ProxyActionView::Fail(GatewayApiErrorView::Hyper(reason)),
                metrics,
                overall,
                0,
                0,
            ),
            Ok(bytes) => received(config, request, bytes, uri, overall),
        },
    }
}

/// The step after the classifier was called.
pub open spec fn on_classified(
    pending: PendingView,
    reply: ClassifierReplyView,
    elapsed_nanos: u64,
    overall: u64,
) -> StepView {
    match choice(pending.policy, reply) {
        Ok(index) => dispatched(
            pending.policy,
            index,
            pending.body,
            pending.stream,
            pending.forward_uri,
            seq![MetricEventView::ModelSelectionTime { nanos: elapsed_nanos }],
            overall,
            elapsed_nanos,
        ),
        Err(GatewayApiErrorView::TritonServiceError { status_code, message }) => finished(
            ProxyActionView::Respond(classifier_failure(status_code, message)),
            Seq::empty(),
            overall,
            0,
            0,
        ),
        Err(e) => finished(ProxyActionView::Fail(e), Seq::empty(), overall, 0, 0),
    }
}

/// The step after the LLM was called.
pub open spec fn on_upstream(
    flight: InFlightView,
    reply: UpstreamReplyView,
    elapsed_nanos: u64,
    overall: u64,
) -> StepView {
    match reply {
        UpstreamReplyView::Unreachable => finished(
            ProxyActionView::Respond(llm_unreachable(flight.llm_name).into_response()),
            Seq::empty(),
            overall,
            flight.classifier_nanos,
            0,
        ),
        UpstreamReplyView::Headers { status, headers } => {
            let metrics = seq![
                MetricEventView::LlmResponseTime { llm: flight.llm_name, nanos: elapsed_nanos },
            ];
            if 200 <= status <= 299 && flight.stream {
                finished(
                    ProxyActionView::RespondStreaming {
                        status,
                        headers: relayed_headers(headers, flight.llm_name),
                        llm_name: flight.llm_name,
                    },
                    metrics,
                    overall,
                    flight.classifier_nanos,
                    elapsed_nanos,
                )
            } else {
                StepView {
                    state: ProxyStateView::Reading(
                        ReceivingView {
                            llm_name: flight.llm_name,
                            status,
                            headers,
                            classifier_nanos: flight.classifier_nanos,
                            upstream_nanos: elapsed_nanos,
                        },
                    ),
                    action: ProxyActionView::ReadBody,
                    metrics,
                }
            }
        },
    }
}

/// The token usage that the body of a successful response reports: what its
/// JSON text calls for, where it is one.
pub open spec fn body_updates(bytes: Seq<u8>, llm_name: Seq<char>) -> Seq<MetricEventView> {
    if vstd::utf8::valid_utf8(bytes) {
        parsed_updates(json_of_text(vstd::utf8::decode_utf8(bytes)), llm_name)
    } else {
        Seq::empty()
    }
}

/// The step after the body of the LLM's response was read.
pub open spec fn on_body(
    receiving: ReceivingView,
    body: Result<Seq<u8>, TransportFailureView>,
    overall: u64,
) -> StepView {
    match body {
        Err(failure) => finished(
            ProxyActionView::Fail(failure.error()),
            Seq::empty(),
            overall,
            receiving.classifier_nanos,
            receiving.upstream_nanos,
        ),
        Ok(bytes) => finished(
            ProxyActionView::Respond(
                HttpResponseView {
                    status: receiving.status,
                    headers: relayed_headers(receiving.headers, receiving.llm_name),
                    body: bytes,
                },
            ),
            if 200 <= receiving.status <= 299 {
                body_updates(bytes, receiving.llm_name)
            } else {
                Seq::empty()
            },
            overall,
            receiving.classifier_nanos,
            receiving.upstream_nanos,
        ),
    }
}

/// The times that a state has on record: of the classifier and of the LLM.
pub open spec fn times_of(state: ProxyStateView) -> (u64, u64) {
    match state {
        ProxyStateView::Forwarding(f) => (f.classifier_nanos, 0),
        ProxyStateView::Reading(r) => (r.classifier_nanos, r.upstream_nanos),
        _ => (0, 0),
    }
}

/// One step of a proxied request. `overall` is the time since the request
/// arrived. An event that does not fit the state ends the request without a
/// response; once the request is done, nothing more is counted.
pub open spec fn step_spec(
    config: RouterConfigView,
    state: ProxyStateView,
    event: ProxyEventView,
    overall: u64,
) -> StepView {
    match (state, event) {
        (ProxyStateView::Start, ProxyEventView::Request(request)) => on_request(
            config,
            request,
            overall,
        ),
        (
            ProxyStateView::Classifying(pending),
            ProxyEventView::Classified { reply, elapsed_nanos },
        ) => on_classified(pending, reply, elapsed_nanos, overall),
        (
            ProxyStateView::Forwarding(flight),
            ProxyEventView::Upstream { reply, elapsed_nanos },
        ) => on_upstream(flight, reply, elapsed_nanos, overall),
        (ProxyStateView::Reading(receiving), ProxyEventView::Body(body)) => on_body(
            receiving,
            body,
            overall,
        ),
        (ProxyStateView::Done, _) => StepView {
            state: ProxyStateView::Done,
            action: ProxyActionView::Fail(out_of_turn()),
            metrics: Seq::empty(),
        },
        _ => finished(
            ProxyActionView::Fail(out_of_turn()),
            Seq::empty(),
            overall,
            times_of(state).0,
            times_of(state).1,
        ),
    }
}

proof fn lemma_events_view_add(a: Seq<MetricEvent>, b: Seq<MetricEvent>)
    ensures
        events_view(a + b) == events_view(a) + events_view(b),
{
    assert(events_view(a + b) =~= events_view(a) + events_view(b));
}

proof fn lemma_events_view_push(a: Seq<MetricEvent>, e: MetricEvent)
    ensures
        events_view(a.push(e)) == events_view(a).push(e@),
{
    assert(events_view(a.push(e)) =~= events_view(a).push(e@));
}

fn no_metrics() -> (r: Vec<MetricEvent>)
    ensures
        events_view(r@) == Seq::<MetricEventView>::empty(),
{
    let r: Vec<MetricEvent> = Vec::new();
    assert(events_view(r@) =~= Seq::<MetricEventView>::empty());
    r
}

fn first_metrics() -> (r: Vec<MetricEvent>)
    ensures
        events_view(r@) == seq![MetricEventView::NumRequests],
{
    let mut r: Vec<MetricEvent> = Vec::new();
    r.push(MetricEvent::NumRequests);
    assert(events_view(r@) =~= seq![MetricEventView::NumRequests]);
    r
}

fn counted(metrics: Vec<MetricEvent>, event: MetricEvent) -> (r: Vec<MetricEvent>)
    ensures
        events_view(r@) == events_view(metrics@).push(event@),
{
    let mut metrics = metrics;
    proof {
        lemma_events_view_push(metrics@, event);
    }
    metrics.push(event);
    metrics
}

/// Ends a request with `action`, which must be one that ends it.
fn finish(
    action: ProxyAction,
    metrics: Vec<MetricEvent>,
    overall: u64,
    classifier: u64,
    upstream: u64,
) -> (r: Step)
    ensures
        r@ == finished(action@, events_view(metrics@), overall, classifier, upstream),
{
    let status = match &action {
        ProxyAction::Respond(response) => Some(response.status),
        ProxyAction::RespondStreaming { status, .. } => Some(*status),
        _ => None,
    };
    let mut metrics = metrics;
    let mut last = completion_metrics(status, overall, classifier, upstream);
    proof {
        lemma_events_view_add(metrics@, last@);
    }
    metrics.append(&mut last);
    Step { state: ProxyState::Done, action, metrics }
}

fn invalid_request(message: &str) -> (r: GatewayApiError)
    ensures
        r@ == (GatewayApiErrorView::InvalidRequest { message: message@ }),
{
    GatewayApiError::InvalidRequest { message: message.to_owned() }
}

fn dispatch_step(
    policy: &Policy,
    index: usize,
    body: Json,
    stream: bool,
    forward_uri: &str,
    metrics: Vec<MetricEvent>,
    overall: u64,
    classifier_nanos: u64,
) -> (r: Step)
    requires
        index < policy.llms.len(),
    ensures
        r@ == dispatched(
            policy@,
            index as int,
            body@,
            stream,
            forward_uri@,
            events_view(metrics@),
            overall,
            classifier_nanos,
        ),
{
    let llm = &policy.llms[index];
    assert(llm@ == policy@.llms[index as int]);
    let metrics = counted(metrics, MetricEvent::RequestsPerModel { model: llm.name.clone() });
    let outbound = match rewrite_body(body, llm) {
        Ok(json) => json,
        Err(e) => {
            return finish(ProxyAction::Fail(e), metrics, overall, classifier_nanos, 0);
        },
    };
    let headers = match outbound_headers(llm) {
        Ok(headers) => headers,
        Err(e) => {
            return finish(ProxyAction::Fail(e), metrics, overall, classifier_nanos, 0);
        },
    };
    match check_header_value(llm.name.as_str()) {
        Ok(()) => {},
        Err(e) => {
            return finish(ProxyAction::Fail(e), metrics, overall, classifier_nanos, 0);
        },
    }
    let text = outbound.to_text();
    let request = UpstreamRequest {
        url: upstream_url(llm.api_base.as_str(), forward_uri),
        headers,
        body: text.as_str().as_bytes_vec(),
        stream,
    };
    Step {
        state: ProxyState::Forwarding(
            InFlight { llm_name: llm.name.clone(), stream, classifier_nanos },
        ),
        action: ProxyAction::CallUpstream(request),
        metrics,
    }
}

fn routed_step(
    policy: Policy,
    routing_strategy: Option<RoutingStrategy>,
    model: Option<String>,
    body: Json,
    stream: bool,
    forward_uri: String,
    overall: u64,
) -> (r: Step)
    ensures
        forall|params: NimLlmRouterParamsView|
            params.routing_strategy == routing_strategy && params.model == (match model {
                Some(m) => Some(m@),
                None => None,
            }) ==> r@ == #[trigger] routed(
                policy@,
                params,
                body@,
                stream,
                forward_uri@,
                overall,
            ),
{
    let metrics = counted(
        first_metrics(),
        MetricEvent::RequestsPerPolicy { policy: policy.name.clone() },
    );
    assert(events_view(metrics@) =~= seq![
        MetricEventView::NumRequests,
        MetricEventView::RequestsPerPolicy { policy: policy@.name },
    ]);
    match routing_strategy {
        None => finish(
            ProxyAction::Respond(invalid_request("No routing strategy specified").into_response()),
            metrics,
            overall,
            0,
            0,
        ),
        Some(RoutingStrategy::Manual) => {
            let metrics = counted(
                metrics,
                MetricEvent::RoutingPolicyUsage { strategy: RoutingStrategy::Manual },
            );
            match model {
                None => finish(
                    ProxyAction::Respond(
                        invalid_request("No model specified for manual routing").into_response(),
                    ),
                    metrics,
                    overall,
                    0,
                    0,
                ),
                Some(model) => match policy.llm_index_by_name(model.as_str()) {
                    None => finish(
                        ProxyAction::Respond(GatewayApiError::ModelNotFound(model).into_response()),
                        metrics,
                        overall,
                        0,
                        0,
                    ),
                    Some(index) => dispatch_step(
                        &policy,
                        index,
                        body,
                        stream,
                        forward_uri.as_str(),
                        metrics,
                        overall,
                        0,
                    ),
                },
            }
        },
        Some(RoutingStrategy::Triton) => {
            let metrics = counted(
                metrics,
                MetricEvent::RoutingPolicyUsage { strategy: RoutingStrategy::Triton },
            );
            let messages: Vec<Message> = match extract_messages(&body) {
                Some(messages) => messages,
                None => Vec::new(),
            };
            assert(crate::messages::messages_view(messages@) =~= request_messages(body@));
            let text = get_last_message_for_triton(&messages);
            let request = classifier_request(&policy, text.as_str());
            Step {
                state: ProxyState::Classifying(Pending { policy, body, stream, forward_uri }),
                action: ProxyAction::CallClassifier(request),
                metrics,
            }
        },
    }
}

fn received_step(
    config: &RouterConfig,
    method: &str,
    content_type: Option<&str>,
    bytes: &Vec<u8>,
    forward_uri: String,
    overall: u64,
) -> (r: Step)
    ensures
        forall|request: InboundRequestView|
            request.method == method@ && request.content_type == (match content_type {
                Some(c) => Some(c@),
                None => None,
            }) ==> r@ == #[trigger] received(config@, request, bytes@, forward_uri@, overall),
{
    let text = utf8_lossy(bytes.as_slice());
    let body = match parse_json(text.as_str()) {
        Ok(json) => json,
        Err(_) => Json::Null,
    };
    assert(body@ == request_json(bytes@));
    let stream = is_stream(method, content_type, &body);
    let params = match extract_nim_llm_router_params(&body) {
        Some(params) => params,
        None => {
            return finish(
                ProxyAction::Respond(missing_envelope_error().into_response()),
                first_metrics(),
                overall,
                0,
                0,
            );
        },
    };
    if params.policy.as_str().is_empty() {
        return finish(
            ProxyAction::Respond(missing_envelope_error().into_response()),
            first_metrics(),
            overall,
            0,
            0,
        );
    }
    let policy = match config.get_policy_by_name(params.policy.as_str()) {
        Some(policy) => policy,
        None => {
            return finish(
                ProxyAction::Respond(GatewayApiError::PolicyNotFound(params.policy).into_response()),
                first_metrics(),
                overall,
                0,
                0,
            );
        },
    };
    let ghost params_view = params@;
    let step = routed_step(
        policy,
        params.routing_strategy,
        params.model,
        body,
        stream,
        forward_uri,
        overall,
    );
    assert(step@ == routed(
        config@.policy_by_name(params_view.policy)->0,
        params_view,
        request_json(bytes@),
        stream,
        forward_uri@,
        overall,
    ));
    step
}

fn missing_envelope_error() -> (r: GatewayApiError)
    ensures
        r@ == missing_envelope(),
{
    invalid_request(
        "Missing required 'nim-llm-router' parameters in request body. Expected format: { 'nim-llm-router': { 'policy': 'string', 'routing_strategy': 'manual|triton', 'model': 'string' (for manual strategy) } }",
    )
}

fn on_request_step(config: &RouterConfig, request: InboundRequest, overall: u64) -> (r: Step)
    ensures
        r@ == on_request(config@, request@, overall),
{
    let path: Option<&str> = match &request.path_and_query {
        Some(p) => Some(p.as_str()),
        None => None,
    };
    let uri = match extract_forward_uri_path_and_query(path) {
        Ok(uri) => uri,
        Err(e) => {
            return finish(ProxyAction::Fail(e), first_metrics(), overall, 0, 0);
        },
    };
    let content_type: Option<&str> = match &request.content_type {
        Some(c) => Some(c.as_str()),
        None => None,
    };
    match &request.body {
        Err(reason) => finish(
            ProxyAction::Fail(GatewayApiError::Hyper(reason.clone())),
            first_metrics(),
            overall,
            0,
            0,
        ),
        Ok(bytes) => {
            let step = received_step(
                config,
                request.method.as_str(),
                content_type,
                bytes,
                uri,
                overall,
            );
            assert(step@ == received(config@, request@, bytes@, uri@, overall));
            step
        },
    }
}

fn on_classified_step(pending: Pending, reply: ClassifierReply, elapsed_nanos: u64, overall: u64) -> (r:
    Step)
    ensures
        r@ == on_classified(pending@, reply@, elapsed_nanos, overall),
{
    match choose_model(&pending.policy, &reply) {
        Ok(index) => {
            let metrics = counted(
                no_metrics(),
                MetricEvent::ModelSelectionTime { nanos: elapsed_nanos },
            );
            assert(events_view(metrics@) =~= seq![
                MetricEventView::ModelSelectionTime { nanos: elapsed_nanos },
            ]);
            let Pending { policy, body, stream, forward_uri } = pending;
            dispatch_step(
                &policy,
                index,
                body,
                stream,
                forward_uri.as_str(),
                metrics,
                overall,
                elapsed_nanos,
            )
        },
        Err(GatewayApiError::TritonServiceError { status_code, message }) => finish(
            ProxyAction::Respond(
                HttpResponse::json(
                    StatusCode::mirrored(status_code),
                    message.as_str(),
                ),
            ),
            no_metrics(),
            overall,
            0,
            0,
        ),
        Err(e) => finish(ProxyAction::Fail(e), no_metrics(), overall, 0, 0),
    }
}

fn on_upstream_step(flight: InFlight, reply: UpstreamReply, elapsed_nanos: u64, overall: u64) -> (r:
    Step)
    ensures
        r@ == on_upstream(flight@, reply@, elapsed_nanos, overall),
{
    let InFlight { llm_name, stream, classifier_nanos } = flight;
    match reply {
        UpstreamReply::Unreachable => {
            let error = GatewayApiError::llm_error(
                StatusCode::service_unavailable(),
                "LLM server is unreachable",
                llm_name.as_str(),
            );
            finish(
                ProxyAction::Respond(error.into_response()),
                no_metrics(),
                overall,
                classifier_nanos,
                0,
            )
        },
        UpstreamReply::Headers { status, headers } => {
            let metrics = counted(
                no_metrics(),
                MetricEvent::LlmResponseTime { llm: llm_name.clone(), nanos: elapsed_nanos },
            );
            assert(events_view(metrics@) =~= seq![
                MetricEventView::LlmResponseTime { llm: llm_name@, nanos: elapsed_nanos },
            ]);
            if status.is_success() && stream {
                let headers = relay_headers(headers, llm_name.as_str());
                finish(
                    ProxyAction::RespondStreaming { status, headers, llm_name },
                    metrics,
                    overall,
                    classifier_nanos,
                    elapsed_nanos,
                )
            } else {
                Step {
                    state: ProxyState::Reading(
                        Receiving {
                            llm_name,
                            status,
                            headers,
                            classifier_nanos,
                            upstream_nanos: elapsed_nanos,
                        },
                    ),
                    action: ProxyAction::ReadBody,
                    metrics,
                }
            }
        },
    }
}

/// The updates of `llm_token_usage` that the body of a successful response
/// calls for.
pub fn body_metrics(bytes: &Vec<u8>, llm_name: &str) -> (r: Vec<MetricEvent>)
    ensures
        events_view(r@) == body_updates(bytes@, llm_name@),
{
    match utf8_strict(bytes.as_slice()) {
        Some(text) => {
            let parsed = parse_json(text);
            updates_for_parsed(&parsed, llm_name)
        },
        None => no_metrics(),
    }
}

fn on_body_step(receiving: Receiving, body: Result<Vec<u8>, TransportFailure>, overall: u64) -> (r:
    Step)
    ensures
        r@ == on_body(
            receiving@,
            match body {
                Ok(b) => Ok(b@),
                Err(f) => Err(f@),
            },
            overall,
        ),
{
    let Receiving { llm_name, status, headers, classifier_nanos, upstream_nanos } = receiving;
    match body {
        Err(failure) => finish(
            ProxyAction::Fail(failure.to_error()),
            no_metrics(),
            overall,
            classifier_nanos,
            upstream_nanos,
        ),
        Ok(bytes) => {
            let metrics = if status.is_success() {
                body_metrics(&bytes, llm_name.as_str())
            } else {
                no_metrics()
            };
            let headers = relay_headers(headers, llm_name.as_str());
            finish(
                ProxyAction::Respond(HttpResponse { status, headers, body: bytes }),
                metrics,
                overall,
                classifier_nanos,
                upstream_nanos,
            )
        },
    }
}

fn out_of_turn_error() -> (r: GatewayApiError)
    ensures
        r@ == out_of_turn(),
{
    GatewayApiError::UnexpectedError { message: "Event does not fit the state".to_owned() }
}

/// Takes one step of a proxied request: from the state and what happened to
/// the new state, what is to be done next, and the metrics to update.
/// `overall` is the time in nanoseconds since the request arrived.
pub fn step(config: &RouterConfig, state: ProxyState, event: ProxyEvent, overall: u64) -> (r: Step)
    ensures
        r@ == step_spec(config@, state@, event@, overall),
{
    match (state, event) {
        (ProxyState::Start, ProxyEvent::Request(request)) => on_request_step(
            config,
            request,
            overall,
        ),
        (ProxyState::Classifying(pending), ProxyEvent::Classified { reply, elapsed_nanos }) => on_classified_step(
            pending,
            reply,
            elapsed_nanos,
            overall,
        ),
        (ProxyState::Forwarding(flight), ProxyEvent::Upstream { reply, elapsed_nanos }) => on_upstream_step(
            flight,
            reply,
            elapsed_nanos,
            overall,
        ),
        (ProxyState::Reading(receiving), ProxyEvent::Body(body)) => on_body_step(
            receiving,
            body,
            overall,
        ),
        (ProxyState::Done, _) => Step {
            state: ProxyState::Done,
            action: ProxyAction::Fail(out_of_turn_error()),
            metrics: no_metrics(),
        },
        (ProxyState::Start, _) => finish(
            ProxyAction::Fail(out_of_turn_error()),
            no_metrics(),
            overall,
            0,
            0,
        ),
        (ProxyState::Classifying(_), _) => finish(
            ProxyAction::Fail(out_of_turn_error()),
            no_metrics(),
            overall,
            0,
            0,
        ),
        (ProxyState::Forwarding(flight), _) => finish(
            ProxyAction::Fail(out_of_turn_error()),
            no_metrics(),
            overall,
            flight.classifier_nanos,
            0,
        ),
        (ProxyState::Reading(receiving), _) => finish(
            ProxyAction::Fail(out_of_turn_error()),
            no_metrics(),
            overall,
            receiving.classifier_nanos,
            receiving.upstream_nanos,
        ),
    }
}

/// Takes the first step of a proxied request: reads the request, resolves
/// the policy and the routing strategy, and either answers at once or says
/// whom to call. `overall` is the time in nanoseconds since the request
/// arrived.
pub fn proxy(config: &RouterConfig, request: InboundRequest, overall: u64) -> (r: Step)
    ensures
        r@ == on_request(config@, request@, overall),
        r@ == step_spec(config@, ProxyStateView::Start, ProxyEventView::Request(request@), overall),
{
    on_request_step(config, request, overall)
}

} // verus!
