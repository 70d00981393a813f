//! What holds over the whole course of a proxied request, whatever the
//! events are.
use crate::config::PolicyView;
use crate::config::RouterConfigView;
use crate::config::lemma_first_exact_match;
use crate::json::JsonValue;
use crate::metrics::MetricEventView;
use crate::metrics::Watched;
use crate::metrics::completion_events;
use crate::metrics::count;
use crate::metrics::lemma_completion_events;
use crate::metrics::lemma_count_add;
use crate::metrics::lemma_count_push;
use crate::metrics::lemma_token_events_unwatched;
use crate::proxy::InboundRequestView;
use crate::proxy::PendingView;
use crate::proxy::ProxyActionView;
use crate::proxy::ProxyEventView;
use crate::proxy::ProxyStateView;
use crate::proxy::body_updates;
use crate::proxy::dispatched;
use crate::proxy::finished;
use crate::proxy::on_classified;
use crate::proxy::on_request;
use crate::proxy::received;
use crate::proxy::routed;
use crate::proxy::step_spec;
use crate::response::HeaderView;
use crate::response::count_header;
use crate::response::text_bytes;
use crate::router_params::NimLlmRouterParamsView;
use crate::router_params::RoutingStrategy;
use crate::triton::ClassifierReplyView;
use crate::triton::choice;
use crate::triton::lemma_first_maximum;
use crate::upstream::chosen_header;
use crate::upstream::lemma_one_chosen_header;
use crate::upstream::relayed_headers;
use vstd::prelude::*;

verus! {

/// The state after a list of events, each with the time at which it came.
pub open spec fn run_state(
    config: RouterConfigView,
    state: ProxyStateView,
    events: Seq<(ProxyEventView, u64)>,
) -> ProxyStateView
    decreases events.len(),
{
    if events.len() == 0 {
        state
    } else {
        run_state(
            config,
            step_spec(config, state, events[0].0, events[0].1).state,
            events.drop_first(),
        )
    }
}

/// The updates of the metrics over a list of events, in order.
pub open spec fn run_metrics(
    config: RouterConfigView,
    state: ProxyStateView,
    events: Seq<(ProxyEventView, u64)>,
) -> Seq<MetricEventView>
    decreases events.len(),
{
    if events.len() == 0 {
        Seq::empty()
    } else {
        let first = step_spec(config, state, events[0].0, events[0].1);
        first.metrics + run_metrics(config, first.state, events.drop_first())
    }
}

/// 1 where the condition holds, else 0.
pub open spec fn one_if(condition: bool) -> nat {
    if condition {
        1
    } else {
        0
    }
}

proof fn lemma_count_one(a: MetricEventView, watched: Watched)
    ensures
        count(seq![a], watched) == one_if(a.is_watched(watched)),
{
    let none = Seq::<MetricEventView>::empty();
    assert(seq![a] =~= none.push(a));
    lemma_count_push(none, a, watched);
}

proof fn lemma_count_two(a: MetricEventView, b: MetricEventView, watched: Watched)
    ensures
        count(seq![a, b], watched) == one_if(a.is_watched(watched)) + one_if(b.is_watched(watched)),
{
    lemma_count_one(a, watched);
    assert(seq![a, b] =~= seq![a].push(b));
    lemma_count_push(seq![a], b, watched);
}

/// What ending a request adds to the counts: one outcome, one whole time,
/// no selection time.
proof fn lemma_finished(
    action: ProxyActionView,
    metrics: Seq<MetricEventView>,
    overall: u64,
    classifier: u64,
    upstream: u64,
    watched: Watched,
)
    ensures
        finished(action, metrics, overall, classifier, upstream).state is Done,
        finished(action, metrics, overall, classifier, upstream).action == action,
        count(finished(action, metrics, overall, classifier, upstream).metrics, watched) == count(
            metrics,
            watched,
        ) + one_if(watched != Watched::ModelSelectionTime),
{
    lemma_completion_events(action.status(), overall, classifier, upstream);
    lemma_count_add(
        metrics,
        completion_events(action.status(), overall, classifier, upstream),
        watched,
    );
}

proof fn lemma_dispatched(
    policy: PolicyView,
    index: int,
    body: JsonValue,
    stream: bool,
    forward_uri: Seq<char>,
    metrics: Seq<MetricEventView>,
    overall: u64,
    classifier_nanos: u64,
    watched: Watched,
)
    ensures
        ({
            let s = dispatched(
                policy,
                index,
                body,
                stream,
                forward_uri,
                metrics,
                overall,
                classifier_nanos,
            );
            &&& s.state is Done || s.state is Forwarding
            &&& s.state is Done <==> s.action.is_final()
            &&& s.state is Forwarding ==> s.state->Forwarding_0.llm_name == policy.llms[index].name
            &&& 0 <= index < policy.llms.len() ==> of_policy(policy, s.state)
            &&& count(s.metrics, watched) == count(metrics, watched) + one_if(
                s.state is Done && watched != Watched::ModelSelectionTime,
            )
        }),
{
    let llm = policy.llms[index];
    let event = MetricEventView::RequestsPerModel { model: llm.name };
    let counted = metrics.push(event);
    lemma_count_push(metrics, event, watched);
    let fail1 = ProxyActionView::Fail(
        crate::error::GatewayApiErrorView::InvalidRequest {
            message: "Request body is not a JSON object"@,
        },
    );
    lemma_finished(fail1, counted, overall, classifier_nanos, 0, watched);
    lemma_finished(
        ProxyActionView::Fail(crate::upstream::header_value_refused()),
        counted,
        overall,
        classifier_nanos,
        0,
        watched,
    );
}

proof fn lemma_routed(
    policy: PolicyView,
    params: NimLlmRouterParamsView,
    body: JsonValue,
    stream: bool,
    forward_uri: Seq<char>,
    overall: u64,
    watched: Watched,
)
    ensures
        ({
            let s = routed(policy, params, body, stream, forward_uri, overall);
            &&& s.state is Done || s.state is Forwarding || s.state is Classifying
            &&& s.state is Done <==> s.action.is_final()
            &&& of_policy(policy, s.state)
            &&& count(s.metrics, watched) == one_if(
                s.state is Done && watched != Watched::ModelSelectionTime,
            )
        }),
{
    let first = MetricEventView::NumRequests;
    let second = MetricEventView::RequestsPerPolicy { policy: policy.name };
    let metrics = seq![first, second];
    lemma_count_two(first, second, watched);
    match params.routing_strategy {
        None => {
            lemma_finished(
                ProxyActionView::Respond(crate::proxy::missing_strategy().into_response()),
                metrics,
                overall,
                0,
                0,
                watched,
            );
        },
        Some(RoutingStrategy::Manual) => {
            let third = MetricEventView::RoutingPolicyUsage { strategy: RoutingStrategy::Manual };
            let counted = metrics.push(third);
            lemma_count_push(metrics, third, watched);
            match params.model {
                None => {
                    lemma_finished(
                        ProxyActionView::Respond(crate::proxy::missing_model().into_response()),
                        counted,
                        overall,
                        0,
                        0,
                        watched,
                    );
                },
                Some(model) => match policy.llm_index_by_name(model) {
                    None => {
                        lemma_finished(
                            ProxyActionView::Respond(crate::proxy::model_not_found(model)),
                            counted,
                            overall,
                            0,
                            0,
                            watched,
                        );
                    },
                    Some(index) => {
                        lemma_first_exact_match(policy.llm_names(), model, 0);
                        lemma_dispatched(
                            policy,
                            index,
                            body,
                            stream,
                            forward_uri,
                            counted,
                            overall,
                            0,
                            watched,
                        );
                        let s = routed(policy, params, body, stream, forward_uri, overall);
                        if s.state is Forwarding {
                            assert(s.state->Forwarding_0.llm_name == policy.llms[index].name);
                        }
                    },
                },
            }
        },
        Some(RoutingStrategy::Triton) => {
            let third = MetricEventView::RoutingPolicyUsage { strategy: RoutingStrategy::Triton };
            lemma_count_push(metrics, third, watched);
        },
    }
}

/// The policy has an LLM of that name.
pub open spec fn names_llm(policy: PolicyView, llm_name: Seq<char>) -> bool {
    exists|j: int| 0 <= j < policy.llms.len() && #[trigger] policy.llms[j].name == llm_name
}

/// What a state holds comes from the policy: a request that waits for the
/// classifier holds the policy itself, and one that waits for an LLM holds
/// the name of one of the policy's LLMs.
pub open spec fn of_policy(policy: PolicyView, state: ProxyStateView) -> bool {
    match state {
        ProxyStateView::Classifying(pending) => pending.policy == policy,
        ProxyStateView::Forwarding(flight) => names_llm(policy, flight.llm_name),
        ProxyStateView::Reading(receiving) => names_llm(policy, receiving.llm_name),
        _ => true,
    }
}

/// The policy that a request chooses: the first of the catalog whose name,
/// trimmed, is the trimmed `policy` of the request's envelope.
pub open spec fn chosen_policy(config: RouterConfigView, request: InboundRequestView) -> Option<
    PolicyView,
> {
    match request.body {
        Ok(bytes) => match crate::router_params::params_of(crate::proxy::request_json(bytes)) {
            Some(params) => config.policy_by_name(params.policy),
            None => None,
        },
        Err(_) => None,
    }
}

proof fn lemma_received(
    config: RouterConfigView,
    request: InboundRequestView,
    bytes: Seq<u8>,
    forward_uri: Seq<char>,
    overall: u64,
    watched: Watched,
)
    requires
        request.body == Ok::<Seq<u8>, Seq<char>>(bytes),
    ensures
        ({
            let s = received(config, request, bytes, forward_uri, overall);
            &&& s.state is Done || s.state is Forwarding || s.state is Classifying
            &&& s.state is Done <==> s.action.is_final()
            &&& !(s.state is Done) ==> chosen_policy(config, request) is Some && of_policy(
                chosen_policy(config, request)->0,
                s.state,
            )
            &&& count(s.metrics, watched) == one_if(
                s.state is Done && watched != Watched::ModelSelectionTime,
            )
        }),
{
    let body = crate::proxy::request_json(bytes);
    let stream = crate::upstream::wants_stream(request.method, request.content_type, body);
    let first = MetricEventView::NumRequests;
    let metrics = seq![first];
    lemma_count_one(first, watched);
    let missing = ProxyActionView::Respond(crate::proxy::missing_envelope().into_response());
    lemma_finished(missing, metrics, overall, 0, 0, watched);
    match crate::router_params::params_of(body) {
        None => {},
        Some(params) => {
            if params.policy.len() > 0 {
                match config.policy_by_name(params.policy) {
                    None => {
                        lemma_finished(
                            ProxyActionView::Respond(
                                crate::error::GatewayApiErrorView::PolicyNotFound(
                                    params.policy,
                                ).into_response(),
                            ),
                            metrics,
                            overall,
                            0,
                            0,
                            watched,
                        );
                    },
                    Some(policy) => {
                        lemma_routed(policy, params, body, stream, forward_uri, overall, watched);
                    },
                }
            }
        },
    }
}

proof fn lemma_on_request(
    config: RouterConfigView,
    request: InboundRequestView,
    overall: u64,
    watched: Watched,
)
    ensures
        ({
            let s = on_request(config, request, overall);
            &&& s.state is Done || s.state is Forwarding || s.state is Classifying
            &&& s.state is Done <==> s.action.is_final()
            &&& !(s.state is Done) ==> chosen_policy(config, request) is Some && of_policy(
                chosen_policy(config, request)->0,
                s.state,
            )
            &&& count(s.metrics, watched) == one_if(
                s.state is Done && watched != Watched::ModelSelectionTime,
            )
        }),
{
    let first = MetricEventView::NumRequests;
    let metrics = seq![first];
    lemma_count_one(first, watched);
    match crate::upstream::forward_uri(
        crate::upstream::forwarded_text(crate::upstream::path_text(request.path_and_query)),
    ) {
        Err(e) => {
            lemma_finished(ProxyActionView::Fail(e), metrics, overall, 0, 0, watched);
        },
        Ok(uri) => match request.body {
            Err(reason) => {
                lemma_finished(
                    ProxyActionView::Fail(crate::error::GatewayApiErrorView::Hyper(reason)),
                    metrics,
                    overall,
                    0,
                    0,
                    watched,
                );
            },
            Ok(bytes) => {
                lemma_received(config, request, bytes, uri, overall, watched);
            },
        },
    }
}

/// An index that the classifier's reply chooses is the index of an LLM of
/// the policy.
pub proof fn lemma_choice_in_range(policy: PolicyView, reply: ClassifierReplyView)
    ensures
        choice(policy, reply) is Ok ==> 0 <= choice(policy, reply)->Ok_0 < policy.llms.len(),
{
    match reply {
        ClassifierReplyView::Response { status, body } => {
            if 200 <= status <= 299 {
                match body {
                    Ok(bytes) => {
                        if vstd::utf8::valid_utf8(bytes) {
                            match crate::json::json_of_text(vstd::utf8::decode_utf8(bytes)) {
                                Ok(json) => match crate::triton::scores_of(json) {
                                    Ok(numbers) => {
                                        lemma_first_maximum(crate::triton::score_keys(numbers));
                                    },
                                    Err(_) => {},
                                },
                                Err(_) => {},
                            }
                        }
                    },
                    Err(_) => {},
                }
            }
        },
        _ => {},
    }
}

proof fn lemma_on_classified(
    pending: PendingView,
    reply: ClassifierReplyView,
    elapsed_nanos: u64,
    overall: u64,
    watched: Watched,
)
    ensures
        ({
            let s = on_classified(pending, reply, elapsed_nanos, overall);
            &&& s.state is Done || s.state is Forwarding
            &&& s.state is Done <==> s.action.is_final()
            &&& of_policy(pending.policy, s.state)
            &&& count(s.metrics, watched) == one_if(
                s.state is Done && watched != Watched::ModelSelectionTime,
            ) + one_if(
                watched == Watched::ModelSelectionTime && choice(pending.policy, reply) is Ok,
            )
        }),
{
    let none = Seq::<MetricEventView>::empty();
    match choice(pending.policy, reply) {
        Ok(index) => {
            lemma_choice_in_range(pending.policy, reply);
            let first = MetricEventView::ModelSelectionTime { nanos: elapsed_nanos };
            lemma_count_one(first, watched);
            lemma_dispatched(
                pending.policy,
                index,
                pending.body,
                pending.stream,
                pending.forward_uri,
                seq![first],
                overall,
                elapsed_nanos,
                watched,
            );
        },
        Err(crate::error::GatewayApiErrorView::TritonServiceError { status_code, message }) => {
            lemma_finished(
                ProxyActionView::Respond(crate::proxy::classifier_failure(status_code, message)),
                none,
                overall,
                0,
                0,
                watched,
            );
        },
        Err(e) => {
            lemma_finished(ProxyActionView::Fail(e), none, overall, 0, 0, watched);
        },
    }
}

proof fn lemma_body_updates(bytes: Seq<u8>, llm_name: Seq<char>, watched: Watched)
    ensures
        count(body_updates(bytes, llm_name), watched) == 0,
{
    if vstd::utf8::valid_utf8(bytes) {
        match crate::json::json_of_text(vstd::utf8::decode_utf8(bytes)) {
            Ok(json) => {
                lemma_token_events_unwatched(json, llm_name, watched);
            },
            Err(_) => {},
        }
    }
}

/// What one step adds to the counts and where it leads. Once a request is
/// done nothing is counted. Before that, a step counts one outcome and one
/// whole time exactly when it ends the request, and a selection time exactly
/// when it takes the choice of the classifier. What the new state holds
/// comes from the policy that the request chose.
pub proof fn lemma_step(
    config: RouterConfigView,
    policy: PolicyView,
    state: ProxyStateView,
    event: ProxyEventView,
    overall: u64,
    watched: Watched,
)
    requires
        of_policy(policy, state),
    ensures
        ({
            let s = step_spec(config, state, event, overall);
            &&& !(state is Start) ==> of_policy(policy, s.state)
            &&& state is Start && !(s.state is Done) ==> event is Request && chosen_policy(
                config,
                event->Request_0,
            ) is Some && of_policy(chosen_policy(config, event->Request_0)->0, s.state)
            &&& state is Done ==> s.state is Done && count(s.metrics, watched) == 0
            &&& !(state is Done) ==> (s.state is Done <==> s.action.is_final())
            &&& state is Start ==> s.state is Done || s.state is Forwarding || s.state is Classifying
            &&& state is Classifying ==> s.state is Done || s.state is Forwarding
            &&& state is Forwarding ==> s.state is Done || s.state is Reading
            &&& state is Reading ==> s.state is Done
            &&& !(state is Done) ==> count(s.metrics, watched) == one_if(
                s.state is Done && watched != Watched::ModelSelectionTime,
            ) + one_if(
                watched == Watched::ModelSelectionTime && state is Classifying && event is Classified
                    && choice(state->Classifying_0.policy, event->Classified_reply) is Ok,
            )
        }),
{
    let none = Seq::<MetricEventView>::empty();
    let stray = ProxyActionView::Fail(crate::proxy::out_of_turn());
    lemma_finished(
        stray,
        none,
        overall,
        crate::proxy::times_of(state).0,
        crate::proxy::times_of(state).1,
        watched,
    );
    match (state, event) {
        (ProxyStateView::Start, ProxyEventView::Request(request)) => {
            lemma_on_request(config, request, overall, watched);
        },
        (
            ProxyStateView::Classifying(pending),
            ProxyEventView::Classified { reply, elapsed_nanos },
        ) => {
            lemma_on_classified(pending, reply, elapsed_nanos, overall, watched);
        },
        (ProxyStateView::Forwarding(flight), ProxyEventView::Upstream { reply, elapsed_nanos }) => {
            match reply {
                crate::proxy::UpstreamReplyView::Unreachable => {
                    lemma_finished(
                        ProxyActionView::Respond(
                            crate::proxy::llm_unreachable(flight.llm_name).into_response(),
                        ),
                        none,
                        overall,
                        flight.classifier_nanos,
                        0,
                        watched,
                    );
                },
                crate::proxy::UpstreamReplyView::Headers { status, headers } => {
                    let first = MetricEventView::LlmResponseTime {
                        llm: flight.llm_name,
                        nanos: elapsed_nanos,
                    };
                    lemma_count_one(first, watched);
                    lemma_finished(
                        ProxyActionView::RespondStreaming {
                            status,
                            headers: relayed_headers(headers, flight.llm_name),
                            llm_name: flight.llm_name,
                        },
                        seq![first],
                        overall,
                        flight.classifier_nanos,
                        elapsed_nanos,
                        watched,
                    );
                },
            }
        },
        (ProxyStateView::Reading(receiving), ProxyEventView::Body(body)) => {
            match body {
                Err(failure) => {
                    lemma_finished(
                        ProxyActionView::Fail(failure.error()),
                        none,
                        overall,
                        receiving.classifier_nanos,
                        receiving.upstream_nanos,
                        watched,
                    );
                },
                Ok(bytes) => {
                    lemma_body_updates(bytes, receiving.llm_name, watched);
                    let metrics = if 200 <= receiving.status <= 299 {
                        body_updates(bytes, receiving.llm_name)
                    } else {
                        none
                    };
                    lemma_finished(
                        ProxyActionView::Respond(
                            crate::response::HttpResponseView {
                                status: receiving.status,
                                headers: relayed_headers(receiving.headers, receiving.llm_name),
                                body: bytes,
                            },
                        ),
                        metrics,
                        overall,
                        receiving.classifier_nanos,
                        receiving.upstream_nanos,
                        watched,
                    );
                },
            }
        },
        _ => {},
    }
}

/// The classifier's reply to the first of `events` chooses an LLM of the
/// policy that waits for it.
pub open spec fn classifier_chooses(state: ProxyStateView, events: Seq<(ProxyEventView, u64)>) -> bool {
    &&& state is Classifying
    &&& events.len() > 0
    &&& events[0].0 is Classified
    &&& choice(state->Classifying_0.policy, events[0].0->Classified_reply) is Ok
}

proof fn lemma_run_from(
    config: RouterConfigView,
    policy: PolicyView,
    state: ProxyStateView,
    events: Seq<(ProxyEventView, u64)>,
    watched: Watched,
)
    requires
        !(state is Start),
        of_policy(policy, state),
    ensures
        of_policy(policy, run_state(config, state, events)),
        !(run_state(config, state, events) is Start),
        state is Done ==> run_state(config, state, events) is Done,
        watched != Watched::ModelSelectionTime ==> count(
            run_metrics(config, state, events),
            watched,
        ) == one_if(!(state is Done) && run_state(config, state, events) is Done),
        watched == Watched::ModelSelectionTime ==> count(
            run_metrics(config, state, events),
            watched,
        ) == one_if(classifier_chooses(state, events)),
    decreases events.len(),
{
    if events.len() > 0 {
        let first = step_spec(config, state, events[0].0, events[0].1);
        lemma_step(config, policy, state, events[0].0, events[0].1, watched);
        lemma_run_from(config, policy, first.state, events.drop_first(), watched);
        lemma_count_add(
            first.metrics,
            run_metrics(config, first.state, events.drop_first()),
            watched,
        );
    }
}

/// Over the course of a request exactly one of `request_success_total` and
/// `request_failure_total` is raised, and `request_latency_seconds`
/// observes once: neither before the request is done, both once it is.
pub proof fn lemma_one_outcome_per_request(
    config: RouterConfigView,
    events: Seq<(ProxyEventView, u64)>,
)
    ensures
        count(run_metrics(config, ProxyStateView::Start, events), Watched::Outcome) == one_if(
            run_state(config, ProxyStateView::Start, events) is Done,
        ),
        count(run_metrics(config, ProxyStateView::Start, events), Watched::RequestLatency)
            == one_if(run_state(config, ProxyStateView::Start, events) is Done),
{
    lemma_run_start(config, events, Watched::Outcome);
    lemma_run_start(config, events, Watched::RequestLatency);
}

/// Over the course of a request `model_selection_time_seconds` observes at
/// most once: exactly when the request went to the classifier and the
/// classifier's reply chose an LLM.
pub proof fn lemma_selection_time_per_request(
    config: RouterConfigView,
    events: Seq<(ProxyEventView, u64)>,
)
    ensures
        count(run_metrics(config, ProxyStateView::Start, events), Watched::ModelSelectionTime)
            <= 1,
        count(run_metrics(config, ProxyStateView::Start, events), Watched::ModelSelectionTime)
            == one_if(
            events.len() > 0 && classifier_chooses(
                step_spec(config, ProxyStateView::Start, events[0].0, events[0].1).state,
                events.drop_first(),
            ),
        ),
{
    lemma_run_start(config, events, Watched::ModelSelectionTime);
}

proof fn lemma_run_start(
    config: RouterConfigView,
    events: Seq<(ProxyEventView, u64)>,
    watched: Watched,
)
    ensures
        watched != Watched::ModelSelectionTime ==> count(
            run_metrics(config, ProxyStateView::Start, events),
            watched,
        ) == one_if(run_state(config, ProxyStateView::Start, events) is Done),
        watched == Watched::ModelSelectionTime ==> count(
            run_metrics(config, ProxyStateView::Start, events),
            watched,
        ) == one_if(
            events.len() > 0 && classifier_chooses(
                step_spec(config, ProxyStateView::Start, events[0].0, events[0].1).state,
                events.drop_first(),
            ),
        ),
        events.len() > 0 ==> !(run_state(config, ProxyStateView::Start, events) is Start),
        events.len() > 0 && !(run_state(config, ProxyStateView::Start, events) is Done)
            ==> events[0].0 is Request && chosen_policy(config, events[0].0->Request_0) is Some
            && of_policy(
            chosen_policy(config, events[0].0->Request_0)->0,
            run_state(config, ProxyStateView::Start, events),
        ),
{
    if events.len() > 0 {
        let any = PolicyView { name: Seq::empty(), url: Seq::empty(), llms: Seq::empty() };
        let first = step_spec(config, ProxyStateView::Start, events[0].0, events[0].1);
        lemma_step(config, any, ProxyStateView::Start, events[0].0, events[0].1, watched);
        let policy = if first.state is Done {
            any
        } else {
            chosen_policy(config, events[0].0->Request_0)->0
        };
        lemma_run_from(config, policy, first.state, events.drop_first(), watched);
        lemma_count_add(
            first.metrics,
            run_metrics(config, first.state, events.drop_first()),
            watched,
        );
    }
}

/// The request is the one that carries `body` to `llm`: a POST to the
/// LLM's base followed by `forward_uri`, with `Accept` and `Content-Type`
/// `application/json` and `Authorization: Bearer` with the LLM's key as its
/// only headers, and as its body the text of `body` without its envelope
/// and with the LLM's model as its member `model`.
pub open spec fn carries(
    request: crate::proxy::UpstreamRequestView,
    llm: crate::config::LlmView,
    body: JsonValue,
    forward_uri: Seq<char>,
    stream: bool,
) -> bool {
    let sent = crate::router_params::rewritten(body, llm.model);
    &&& sent is Some
    &&& sent->0.get("model"@) == Some(JsonValue::Str(llm.model))
    &&& sent->0.get(crate::router_params::envelope_key()) is None
    &&& forall|key: Seq<char>|
        key != "model"@ && key != crate::router_params::envelope_key() ==> #[trigger] sent->0.get(
            key,
        ) == body.get(key)
    &&& request == (crate::proxy::UpstreamRequestView {
        url: llm.api_base + forward_uri,
        headers: crate::upstream::outbound_headers_for(llm),
        body: text_bytes(crate::json::json_text(sent->0)),
        stream,
    })
}

proof fn lemma_dispatched_carries(
    policy: PolicyView,
    index: int,
    body: JsonValue,
    stream: bool,
    forward_uri: Seq<char>,
    metrics: Seq<MetricEventView>,
    overall: u64,
    classifier_nanos: u64,
)
    ensures
        ({
            let s = dispatched(
                policy,
                index,
                body,
                stream,
                forward_uri,
                metrics,
                overall,
                classifier_nanos,
            );
            let llm = policy.llms[index];
            &&& s.action is CallUpstream ==> carries(
                s.action->CallUpstream_0,
                llm,
                body,
                forward_uri,
                stream,
            ) && s.state == ProxyStateView::Forwarding(
                crate::proxy::InFlightView { llm_name: llm.name, stream, classifier_nanos },
            ) && s.metrics == metrics.push(MetricEventView::RequestsPerModel { model: llm.name })
            &&& s.action is CallUpstream <==> crate::router_params::rewritten(body, llm.model)
                is Some && crate::upstream::header_value_ok(text_bytes("Bearer "@ + llm.api_key))
                && crate::upstream::header_value_ok(text_bytes(llm.name))
            &&& !(s.action is CallClassifier)
        }),
{
    let llm = policy.llms[index];
    let sent = crate::router_params::rewritten(body, llm.model);
    if sent is Some {
        crate::router_params::lemma_rewritten_body(body, llm.model);
        assert forall|key: Seq<char>|
            key != "model"@ && key != crate::router_params::envelope_key() implies #[trigger] sent->0.get(
            key,
        ) == body.get(key) by {
            crate::router_params::lemma_rewritten_keeps_other_members(body, llm.model, key);
        }
    }
}

/// The metrics of the first step of a request that goes straight to an LLM.
pub open spec fn manual_metrics(policy: PolicyView, llm_name: Seq<char>) -> Seq<MetricEventView> {
    seq![
        MetricEventView::NumRequests,
        MetricEventView::RequestsPerPolicy { policy: policy.name },
        MetricEventView::RoutingPolicyUsage { strategy: RoutingStrategy::Manual },
        MetricEventView::RequestsPerModel { model: llm_name },
    ]
}

/// Manual routing sends one request, to the LLM that the envelope names,
/// and none to the classifier. Given a request whose path parses and whose
/// body has an envelope that names a policy of the catalog, manual routing
/// and an LLM of that policy by its exact name, and given that the LLM's
/// key and name can stand in a header, the first step asks for exactly the
/// request that [`carries`] the body to that LLM.
pub proof fn lemma_manual_routing(
    config: RouterConfigView,
    request: InboundRequestView,
    overall: u64,
    bytes: Seq<u8>,
    forward_uri: Seq<char>,
    params: NimLlmRouterParamsView,
    policy: PolicyView,
    model: Seq<char>,
    index: int,
)
    requires
        request.body == Ok::<Seq<u8>, Seq<char>>(bytes),
        crate::upstream::forward_uri(
            crate::upstream::forwarded_text(crate::upstream::path_text(request.path_and_query)),
        ) == Ok::<Seq<char>, crate::error::GatewayApiErrorView>(forward_uri),
        crate::router_params::params_of(crate::proxy::request_json(bytes)) == Some(params),
        params.policy.len() > 0,
        config.policy_by_name(params.policy) == Some(policy),
        params.routing_strategy == Some(RoutingStrategy::Manual),
        params.model == Some(model),
        policy.llm_index_by_name(model) == Some(index),
        crate::upstream::header_value_ok(text_bytes("Bearer "@ + policy.llms[index].api_key)),
        crate::upstream::header_value_ok(text_bytes(policy.llms[index].name)),
    ensures
        ({
            let s = on_request(config, request, overall);
            let body = crate::proxy::request_json(bytes);
            let stream = crate::upstream::wants_stream(request.method, request.content_type, body);
            let llm = policy.llms[index];
            &&& 0 <= index < policy.llms.len()
            &&& llm.name == model
            &&& s.action is CallUpstream
            &&& carries(s.action->CallUpstream_0, llm, body, forward_uri, stream)
            &&& s.state == ProxyStateView::Forwarding(
                crate::proxy::InFlightView { llm_name: llm.name, stream, classifier_nanos: 0 },
            )
            &&& s.metrics == manual_metrics(policy, llm.name)
        }),
{
    let body = crate::proxy::request_json(bytes);
    let stream = crate::upstream::wants_stream(request.method, request.content_type, body);
    lemma_first_exact_match(policy.llm_names(), model, 0);
    crate::router_params::lemma_body_with_envelope_is_rewritten(body, policy.llms[index].model);
    let counted = seq![
        MetricEventView::NumRequests,
        MetricEventView::RequestsPerPolicy { policy: policy.name },
    ].push(MetricEventView::RoutingPolicyUsage { strategy: RoutingStrategy::Manual });
    lemma_dispatched_carries(policy, index, body, stream, forward_uri, counted, overall, 0);
    assert(counted.push(MetricEventView::RequestsPerModel { model: policy.llms[index].name })
        =~= manual_metrics(policy, policy.llms[index].name));
}

/// The policy that is in play when a step is taken: the one that the
/// request chooses, or the one that waits for the classifier.
pub open spec fn policy_in_play(
    config: RouterConfigView,
    state: ProxyStateView,
    event: ProxyEventView,
) -> Option<PolicyView> {
    match (state, event) {
        (ProxyStateView::Start, ProxyEventView::Request(request)) => chosen_policy(config, request),
        (ProxyStateView::Classifying(pending), _) => Some(pending.policy),
        _ => None,
    }
}

/// The body that is in play when a step is taken: the one of the request,
/// or the one that waits for the classifier.
pub open spec fn body_in_play(state: ProxyStateView, event: ProxyEventView) -> JsonValue {
    match (state, event) {
        (ProxyStateView::Start, ProxyEventView::Request(request)) => match request.body {
            Ok(bytes) => crate::proxy::request_json(bytes),
            Err(_) => JsonValue::Null,
        },
        (ProxyStateView::Classifying(pending), _) => pending.body,
        _ => JsonValue::Null,
    }
}

/// The request goes to the LLM at `j` of `policy` and carries `body` there,
/// and the state keeps the LLM's name.
pub open spec fn sends_to(
    step: crate::proxy::StepView,
    policy: PolicyView,
    body: JsonValue,
    j: int,
    forward_uri: Seq<char>,
) -> bool {
    &&& 0 <= j < policy.llms.len()
    &&& step.action is CallUpstream
    &&& step.state is Forwarding
    &&& step.state->Forwarding_0.llm_name == policy.llms[j].name
    &&& carries(
        step.action->CallUpstream_0,
        policy.llms[j],
        body,
        forward_uri,
        step.action->CallUpstream_0.stream,
    )
}

proof fn lemma_first_step_sends(config: RouterConfigView, request: InboundRequestView, overall: u64)
    ensures
        ({
            let s = on_request(config, request, overall);
            s.action is CallUpstream ==> chosen_policy(config, request) is Some && request.body
                is Ok && exists|j: int, forward_uri: Seq<char>|
                #[trigger] sends_to(
                    s,
                    chosen_policy(config, request)->0,
                    crate::proxy::request_json(request.body->Ok_0),
                    j,
                    forward_uri,
                )
        }),
{
    let s = on_request(config, request, overall);
    match crate::upstream::forward_uri(
        crate::upstream::forwarded_text(crate::upstream::path_text(request.path_and_query)),
    ) {
        Ok(uri) => match request.body {
            Ok(bytes) => {
                let body = crate::proxy::request_json(bytes);
                let stream = crate::upstream::wants_stream(
                    request.method,
                    request.content_type,
                    body,
                );
                match crate::router_params::params_of(body) {
                    Some(params) => match config.policy_by_name(params.policy) {
                        Some(policy) => match params.model {
                            Some(model) => match policy.llm_index_by_name(model) {
                                Some(index) => {
                                    lemma_first_exact_match(policy.llm_names(), model, 0);
                                    let counted = seq![
                                        MetricEventView::NumRequests,
                                        MetricEventView::RequestsPerPolicy { policy: policy.name },
                                    ].push(
                                        MetricEventView::RoutingPolicyUsage {
                                            strategy: RoutingStrategy::Manual,
                                        },
                                    );
                                    lemma_dispatched_carries(
                                        policy,
                                        index,
                                        body,
                                        stream,
                                        uri,
                                        counted,
                                        overall,
                                        0,
                                    );
                                    if s.action is CallUpstream {
                                        assert(s == dispatched(
                                            policy,
                                            index,
                                            body,
                                            stream,
                                            uri,
                                            counted,
                                            overall,
                                            0,
                                        ));
                                        assert(sends_to(s, policy, body, index, uri));
                                    }
                                },
                                None => {},
                            },
                            None => {},
                        },
                        None => {},
                    },
                    None => {},
                }
            },
            Err(_) => {},
        },
        Err(_) => {},
    }
}

proof fn lemma_classified_step_sends(
    pending: PendingView,
    reply: ClassifierReplyView,
    elapsed_nanos: u64,
    overall: u64,
)
    ensures
        ({
            let s = on_classified(pending, reply, elapsed_nanos, overall);
            s.action is CallUpstream ==> exists|j: int, forward_uri: Seq<char>|
                #[trigger] sends_to(s, pending.policy, pending.body, j, forward_uri)
        }),
{
    let s = on_classified(pending, reply, elapsed_nanos, overall);
    match choice(pending.policy, reply) {
        Ok(index) => {
            lemma_choice_in_range(pending.policy, reply);
            lemma_dispatched_carries(
                pending.policy,
                index,
                pending.body,
                pending.stream,
                pending.forward_uri,
                seq![MetricEventView::ModelSelectionTime { nanos: elapsed_nanos }],
                overall,
                elapsed_nanos,
            );
            if s.action is CallUpstream {
                assert(sends_to(s, pending.policy, pending.body, index, pending.forward_uri));
            }
        },
        Err(_) => {},
    }
}

/// Whatever the state and the event: a request that a step sends to an LLM
/// goes to an LLM of the policy in play, and its body is the text of the
/// body in play with that LLM's model as its member `model` and without an
/// envelope, every other member as it was. Its headers are the three that
/// go to that LLM and no other.
pub proof fn lemma_every_outbound_request(
    config: RouterConfigView,
    state: ProxyStateView,
    event: ProxyEventView,
    overall: u64,
)
    ensures
        ({
            let s = step_spec(config, state, event, overall);
            s.action is CallUpstream ==> policy_in_play(config, state, event) is Some && exists|
                j: int,
                forward_uri: Seq<char>,
            |
                #[trigger] sends_to(
                    s,
                    policy_in_play(config, state, event)->0,
                    body_in_play(state, event),
                    j,
                    forward_uri,
                )
        }),
{
    let s = step_spec(config, state, event, overall);
    match (state, event) {
        (ProxyStateView::Start, ProxyEventView::Request(request)) => {
            lemma_first_step_sends(config, request, overall);
            assert(s == on_request(config, request, overall));
            if s.action is CallUpstream {
                let (j, uri) = choose|j: int, uri: Seq<char>|
                    #[trigger] sends_to(
                        s,
                        chosen_policy(config, request)->0,
                        crate::proxy::request_json(request.body->Ok_0),
                        j,
                        uri,
                    );
                assert(sends_to(
                    s,
                    policy_in_play(config, state, event)->0,
                    body_in_play(state, event),
                    j,
                    uri,
                ));
            }
        },
        (
            ProxyStateView::Classifying(pending),
            ProxyEventView::Classified { reply, elapsed_nanos },
        ) => {
            lemma_classified_step_sends(pending, reply, elapsed_nanos, overall);
            assert(s == on_classified(pending, reply, elapsed_nanos, overall));
            if s.action is CallUpstream {
                let (j, uri) = choose|j: int, uri: Seq<char>|
                    #[trigger] sends_to(s, pending.policy, pending.body, j, uri);
                assert(sends_to(
                    s,
                    policy_in_play(config, state, event)->0,
                    body_in_play(state, event),
                    j,
                    uri,
                ));
            }
        },
        _ => {
            assert(!(s.action is CallUpstream));
        },
    }
}

/// How many events a state is from the end of the request, at most.
pub open spec fn steps_left(state: ProxyStateView) -> nat {
    match state {
        ProxyStateView::Start => 4,
        ProxyStateView::Classifying(_) => 3,
        ProxyStateView::Forwarding(_) => 2,
        ProxyStateView::Reading(_) => 1,
        ProxyStateView::Done => 0,
    }
}

proof fn lemma_done_after(
    config: RouterConfigView,
    policy: PolicyView,
    state: ProxyStateView,
    events: Seq<(ProxyEventView, u64)>,
)
    requires
        of_policy(policy, state),
        events.len() >= steps_left(state),
    ensures
        run_state(config, state, events) is Done,
    decreases events.len(),
{
    if events.len() > 0 {
        let first = step_spec(config, state, events[0].0, events[0].1);
        lemma_step(config, policy, state, events[0].0, events[0].1, Watched::Outcome);
        let next = if state is Start && !(first.state is Done) {
            chosen_policy(config, events[0].0->Request_0)->0
        } else {
            policy
        };
        lemma_done_after(config, next, first.state, events.drop_first());
    }
}

/// A request is done after four events at most: the request itself, the
/// reply of the classifier, the head of the LLM's response and its body.
pub proof fn lemma_done_after_four_events(
    config: RouterConfigView,
    events: Seq<(ProxyEventView, u64)>,
)
    requires
        events.len() >= 4,
    ensures
        run_state(config, ProxyStateView::Start, events) is Done,
{
    let any = PolicyView { name: Seq::empty(), url: Seq::empty(), llms: Seq::empty() };
    lemma_done_after(config, any, ProxyStateView::Start, events);
}

/// The headers of the response that an action gives.
pub open spec fn response_headers(action: ProxyActionView) -> Seq<HeaderView> {
    match action {
        ProxyActionView::Respond(r) => r.headers,
        ProxyActionView::RespondStreaming { headers, .. } => headers,
        _ => Seq::empty(),
    }
}

/// A response that relays what the LLM sent has exactly one
/// `X-Chosen-Classifier`, and it holds the name of an LLM of the policy that
/// the request chose. This holds of the streamed response, of the buffered
/// one and of an error of the LLM that is passed on.
pub proof fn lemma_relayed_response_names_llm(
    config: RouterConfigView,
    events: Seq<(ProxyEventView, u64)>,
    event: ProxyEventView,
    overall: u64,
)
    ensures
        ({
            let state = run_state(config, ProxyStateView::Start, events);
            let s = step_spec(config, state, event, overall);
            (state is Reading && s.action is Respond) || s.action is RespondStreaming ==> {
                &&& events.len() > 0
                &&& events[0].0 is Request
                &&& chosen_policy(config, events[0].0->Request_0) is Some
                &&& count_header(response_headers(s.action), chosen_header()) == 1
                &&& exists|j: int|
                    0 <= j < chosen_policy(config, events[0].0->Request_0)->0.llms.len()
                        && response_headers(s.action).last() == (HeaderView {
                        name: chosen_header(),
                        value: text_bytes(
                            #[trigger] chosen_policy(
                                config,
                                events[0].0->Request_0,
                            )->0.llms[j].name,
                        ),
                    })
            }
        }),
{
    let state = run_state(config, ProxyStateView::Start, events);
    let s = step_spec(config, state, event, overall);
    lemma_run_start(config, events, Watched::Outcome);
    if (state is Reading && s.action is Respond) || s.action is RespondStreaming {
        if events.len() == 0 {
            let any = PolicyView { name: Seq::empty(), url: Seq::empty(), llms: Seq::empty() };
            lemma_step(config, any, ProxyStateView::Start, event, overall, Watched::Outcome);
            lemma_start_never_relays(config, event, overall);
        } else {
            lemma_relays_only_after_call(config, state, event, overall);
            let policy = chosen_policy(config, events[0].0->Request_0)->0;
            match state {
                ProxyStateView::Forwarding(flight) => {
                    let headers = event->Upstream_reply->Headers_headers;
                    lemma_one_chosen_header(headers, flight.llm_name);
                    let j = choose|j: int|
                        0 <= j < policy.llms.len() && #[trigger] policy.llms[j].name
                            == flight.llm_name;
                    assert(policy.llms[j].name == flight.llm_name);
                },
                ProxyStateView::Reading(receiving) => {
                    lemma_one_chosen_header(receiving.headers, receiving.llm_name);
                    let j = choose|j: int|
                        0 <= j < policy.llms.len() && #[trigger] policy.llms[j].name
                            == receiving.llm_name;
                    assert(policy.llms[j].name == receiving.llm_name);
                },
                _ => {},
            }
        }
    }
}

proof fn lemma_no_stream_from(
    policy: PolicyView,
    index: int,
    body: JsonValue,
    stream: bool,
    forward_uri: Seq<char>,
    metrics: Seq<MetricEventView>,
    overall: u64,
    classifier_nanos: u64,
)
    ensures
        !(dispatched(
            policy,
            index,
            body,
            stream,
            forward_uri,
            metrics,
            overall,
            classifier_nanos,
        ).action is RespondStreaming),
{
}

proof fn lemma_start_never_relays(config: RouterConfigView, event: ProxyEventView, overall: u64)
    ensures
        !(step_spec(config, ProxyStateView::Start, event, overall).action is RespondStreaming),
{
    match event {
        ProxyEventView::Request(request) => {
            match crate::upstream::forward_uri(
                crate::upstream::forwarded_text(crate::upstream::path_text(request.path_and_query)),
            ) {
                Ok(uri) => match request.body {
                    Ok(bytes) => {
                        let body = crate::proxy::request_json(bytes);
                        match crate::router_params::params_of(body) {
                            Some(params) => match config.policy_by_name(params.policy) {
                                Some(policy) => match params.model {
                                    Some(model) => match policy.llm_index_by_name(model) {
                                        Some(index) => {
                                            lemma_no_stream_from(
                                                policy,
                                                index,
                                                body,
                                                crate::upstream::wants_stream(
                                                    request.method,
                                                    request.content_type,
                                                    body,
                                                ),
                                                uri,
                                                seq![
                                                    MetricEventView::NumRequests,
                                                    MetricEventView::RequestsPerPolicy {
                                                        policy: policy.name,
                                                    },
                                                ].push(
                                                    MetricEventView::RoutingPolicyUsage {
                                                        strategy: RoutingStrategy::Manual,
                                                    },
                                                ),
                                                overall,
                                                0,
                                            );
                                        },
                                        None => {},
                                    },
                                    None => {},
                                },
                                None => {},
                            },
                            None => {},
                        }
                    },
                    Err(_) => {},
                },
                Err(_) => {},
            }
        },
        _ => {},
    }
}

/// A streamed response is given only when the head of the LLM's response
/// came in while the LLM was asked.
proof fn lemma_relays_only_after_call(
    config: RouterConfigView,
    state: ProxyStateView,
    event: ProxyEventView,
    overall: u64,
)
    ensures
        step_spec(config, state, event, overall).action is RespondStreaming ==> state is Forwarding
            && event is Upstream && event->Upstream_reply is Headers,
        state is Reading && step_spec(config, state, event, overall).action is Respond
            ==> event is Body,
{
    lemma_start_never_relays(config, event, overall);
    match (state, event) {
        (
            ProxyStateView::Classifying(pending),
            ProxyEventView::Classified { reply, elapsed_nanos },
        ) => {
            match choice(pending.policy, reply) {
                Ok(index) => {
                    lemma_no_stream_from(
                        pending.policy,
                        index,
                        pending.body,
                        pending.stream,
                        pending.forward_uri,
                        seq![MetricEventView::ModelSelectionTime { nanos: elapsed_nanos }],
                        overall,
                        elapsed_nanos,
                    );
                },
                Err(_) => {},
            }
        },
        _ => {},
    }
}

} // verus!
