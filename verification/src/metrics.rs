//! The updates of the metrics, as values: which counter is raised and which
//! histogram observes what. Whoever holds the instruments applies them.
use crate::json::Json;
use crate::json::JsonValue;
use crate::router_params::RoutingStrategy;
use crate::status::StatusCode;
use vstd::prelude::*;

verus! {

/// The label `error_type` of `request_failure_total`.
#[derive(Debug, Clone, Copy, PartialEq, Eq, Structural)]
pub enum FailureKind {
    /// A response with a status from 400 to 499.
    ClientError,
    /// A response with a status from 500 to 599.
    ServerError,
    /// A response with any other status that is no success.
    Other,
    /// No response.
    System,
}

impl FailureKind {
    /// The value of the label.
    pub open spec fn spec_name(self) -> Seq<char> {
        match self {
            FailureKind::ClientError => "4xx"@,
            FailureKind::ServerError => "5xx"@,
            FailureKind::Other => "other"@,
            FailureKind::System => "system"@,
        }
    }

    /// The value of the label.
    pub fn name(&self) -> (r: &'static str)
        ensures
            r@ == self.spec_name(),
    {
        match self {
            FailureKind::ClientError => "4xx",
            FailureKind::ServerError => "5xx",
            FailureKind::Other => "other",
            FailureKind::System => "system",
        }
    }
}

/// The label `category` of `llm_token_usage`.
#[derive(Debug, Clone, Copy, PartialEq, Eq, Structural)]
pub enum TokenCategory {
    Prompt,
    Completion,
    Total,
}

impl TokenCategory {
    /// The value of the label.
    pub open spec fn spec_name(self) -> Seq<char> {
        match self {
            TokenCategory::Prompt => "prompt"@,
            TokenCategory::Completion => "completion"@,
            TokenCategory::Total => "total"@,
        }
    }

    /// The value of the label.
    pub fn name(&self) -> (r: &'static str)
        ensures
            r@ == self.spec_name(),
    {
        match self {
            TokenCategory::Prompt => "prompt",
            TokenCategory::Completion => "completion",
            TokenCategory::Total => "total",
        }
    }

    /// The member of `usage` that holds the count.
    pub open spec fn spec_field(self) -> Seq<char> {
        match self {
            TokenCategory::Prompt => "prompt_tokens"@,
            TokenCategory::Completion => "completion_tokens"@,
            TokenCategory::Total => "total_tokens"@,
        }
    }

    /// The member of `usage` that holds the count.
    pub fn field(&self) -> (r: &'static str)
        ensures
            r@ == self.spec_field(),
    {
        match self {
            TokenCategory::Prompt => "prompt_tokens",
            TokenCategory::Completion => "completion_tokens",
            TokenCategory::Total => "total_tokens",
        }
    }
}

/// One update of one instrument. Times are in nanoseconds.
#[derive(Debug)]
#[allow(inconsistent_fields)]
pub enum MetricEvent {
    /// `num_requests` + 1.
    NumRequests,
    /// `requests_per_policy{policy}` + 1.
    RequestsPerPolicy { policy: String },
    /// `requests_per_model{model}` + 1.
    RequestsPerModel { model: String },
    /// `routing_policy_usage{strategy}` + 1.
    RoutingPolicyUsage { strategy: RoutingStrategy },
    /// `request_success_total` + 1.
    RequestSuccess,
    /// `request_failure_total{error_type}` + 1.
    RequestFailure { error_type: FailureKind },
    /// `request_latency_seconds` observes the time.
    RequestLatency { nanos: u64 },
    /// `model_selection_time_seconds` observes the time.
    ModelSelectionTime { nanos: u64 },
    /// `llm_response_time_seconds{llm}` observes the time.
    LlmResponseTime { llm: String, nanos: u64 },
    /// `proxy_overhead_latency_seconds` observes the time.
    ProxyOverheadLatency { nanos: i128 },
    /// `llm_token_usage{llm_name, category}` + `amount`.
    TokenUsage { llm_name: String, category: TokenCategory, amount: u64 },
}

/// The mathematical value of a [`MetricEvent`].
#[allow(inconsistent_fields)]
pub enum MetricEventView {
    NumRequests,
    RequestsPerPolicy { policy: Seq<char> },
    RequestsPerModel { model: Seq<char> },
    RoutingPolicyUsage { strategy: RoutingStrategy },
    RequestSuccess,
    RequestFailure { error_type: FailureKind },
    RequestLatency { nanos: u64 },
    ModelSelectionTime { nanos: u64 },
    LlmResponseTime { llm: Seq<char>, nanos: u64 },
    ProxyOverheadLatency { nanos: i128 },
    TokenUsage { llm_name: Seq<char>, category: TokenCategory, amount: u64 },
}

impl View for MetricEvent {
    type V = MetricEventView;

    open spec fn view(&self) -> MetricEventView {
        match self {
            MetricEvent::NumRequests => MetricEventView::NumRequests,
            MetricEvent::RequestsPerPolicy { policy } => MetricEventView::RequestsPerPolicy {
                policy: policy@,
            },
            MetricEvent::RequestsPerModel { model } => MetricEventView::RequestsPerModel {
                model: model@,
            },
            MetricEvent::RoutingPolicyUsage { strategy } => MetricEventView::RoutingPolicyUsage {
                strategy: *strategy,
            },
            MetricEvent::RequestSuccess => MetricEventView::RequestSuccess,
            MetricEvent::RequestFailure { error_type } => MetricEventView::RequestFailure {
                error_type: *error_type,
            },
            MetricEvent::RequestLatency { nanos } => MetricEventView::RequestLatency { nanos: *nanos },
            MetricEvent::ModelSelectionTime { nanos } => MetricEventView::ModelSelectionTime {
                nanos: *nanos,
            },
            MetricEvent::LlmResponseTime { llm, nanos } => MetricEventView::LlmResponseTime {
                llm: llm@,
                nanos: *nanos,
            },
            MetricEvent::ProxyOverheadLatency { nanos } => MetricEventView::ProxyOverheadLatency {
                nanos: *nanos,
            },
            MetricEvent::TokenUsage { llm_name, category, amount } => MetricEventView::TokenUsage {
                llm_name: llm_name@,
                category: *category,
                amount: *amount,
            },
        }
    }
}

impl MetricEventView {
    /// The name of the instrument that the update is for.
    pub open spec fn instrument(self) -> Seq<char> {
        match self {
            MetricEventView::NumRequests => "num_requests"@,
            MetricEventView::RequestsPerPolicy { .. } => "requests_per_policy"@,
            MetricEventView::RequestsPerModel { .. } => "requests_per_model"@,
            MetricEventView::RoutingPolicyUsage { .. } => "routing_policy_usage"@,
            MetricEventView::RequestSuccess => "request_success_total"@,
            MetricEventView::RequestFailure { .. } => "request_failure_total"@,
            MetricEventView::RequestLatency { .. } => "request_latency_seconds"@,
            MetricEventView::ModelSelectionTime { .. } => "model_selection_time_seconds"@,
            MetricEventView::LlmResponseTime { .. } => "llm_response_time_seconds"@,
            MetricEventView::ProxyOverheadLatency { .. } => "proxy_overhead_latency_seconds"@,
            MetricEventView::TokenUsage { .. } => "llm_token_usage"@,
        }
    }
}

impl MetricEvent {
    /// The name of the instrument that the update is for.
    pub fn instrument(&self) -> (r: &'static str)
        ensures
            r@ == self@.instrument(),
    {
        match self {
            MetricEvent::NumRequests => "num_requests",
            MetricEvent::RequestsPerPolicy { .. } => "requests_per_policy",
            MetricEvent::RequestsPerModel { .. } => "requests_per_model",
            MetricEvent::RoutingPolicyUsage { .. } => "routing_policy_usage",
            MetricEvent::RequestSuccess => "request_success_total",
            MetricEvent::RequestFailure { .. } => "request_failure_total",
            MetricEvent::RequestLatency { .. } => "request_latency_seconds",
            MetricEvent::ModelSelectionTime { .. } => "model_selection_time_seconds",
            MetricEvent::LlmResponseTime { .. } => "llm_response_time_seconds",
            MetricEvent::ProxyOverheadLatency { .. } => "proxy_overhead_latency_seconds",
            MetricEvent::TokenUsage { .. } => "llm_token_usage",
        }
    }
}

/// The views of a list of updates.
pub open spec fn events_view(events: Seq<MetricEvent>) -> Seq<MetricEventView> {
    events.map_values(|e: MetricEvent| e@)
}

/// A kind of update that is counted over a request.
#[derive(Debug, Clone, Copy, PartialEq, Eq, Structural)]
pub enum Watched {
    /// `request_success_total` or `request_failure_total` is raised.
    Outcome,
    /// `request_latency_seconds` observes.
    RequestLatency,
    /// `model_selection_time_seconds` observes.
    ModelSelectionTime,
}

impl MetricEventView {
    /// The update raises `request_success_total` or `request_failure_total`.
    pub open spec fn is_outcome(self) -> bool {
        self is RequestSuccess || self is RequestFailure
    }

    /// The update is of the kind `watched`.
    pub open spec fn is_watched(self, watched: Watched) -> bool {
        match watched {
            Watched::Outcome => self.is_outcome(),
            Watched::RequestLatency => self is RequestLatency,
            Watched::ModelSelectionTime => self is ModelSelectionTime,
        }
    }
}

/// How many updates of `events` are of the kind `watched`.
pub open spec fn count(events: Seq<MetricEventView>, watched: Watched) -> nat
    decreases events.len(),
{
    if events.len() == 0 {
        0
    } else {
        count(events.drop_last(), watched) + if events.last().is_watched(watched) {
            1nat
        } else {
            0nat
        }
    }
}

/// One more update counts if it is of the kind.
pub proof fn lemma_count_push(events: Seq<MetricEventView>, event: MetricEventView, watched: Watched)
    ensures
        count(events.push(event), watched) == count(events, watched) + if event.is_watched(
            watched,
        ) {
            1nat
        } else {
            0nat
        },
{
    assert(events.push(event).drop_last() =~= events);
}

/// The count of two lists in a row is the sum of their counts.
pub proof fn lemma_count_add(a: Seq<MetricEventView>, b: Seq<MetricEventView>, watched: Watched)
    ensures
        count(a + b, watched) == count(a, watched) + count(b, watched),
    decreases b.len(),
{
    if b.len() == 0 {
        assert(a + b =~= a);
    } else {
        lemma_count_add(a, b.drop_last(), watched);
        assert((a + b).drop_last() =~= a + b.drop_last());
    }
}

/// The count of one category in a `usage` object: the member's value where
/// it is a whole number from 0 to `u64::MAX`, else 0.
pub open spec fn token_count(usage: JsonValue, category: TokenCategory) -> u64 {
    match usage.get(category.spec_field()) {
        Some(v) => match v.as_u64() {
            Some(n) => n,
            None => 0,
        },
        None => 0,
    }
}

/// The update of one category of `llm_token_usage`.
pub open spec fn token_event(usage: JsonValue, llm_name: Seq<char>, category: TokenCategory) -> MetricEventView {
    MetricEventView::TokenUsage { llm_name, category, amount: token_count(usage, category) }
}

/// The updates of `llm_token_usage` that a JSON value calls for: where it
/// has an object `usage`, one for `prompt`, one for `completion` and one for
/// `total`, each with the count that `usage` gives or 0; else none.
pub open spec fn token_events(json: JsonValue, llm_name: Seq<char>) -> Seq<MetricEventView> {
    match json.get("usage"@) {
        Some(usage) => if usage is Object {
            seq![
                token_event(usage, llm_name, TokenCategory::Prompt),
                token_event(usage, llm_name, TokenCategory::Completion),
                token_event(usage, llm_name, TokenCategory::Total),
            ]
        } else {
            Seq::empty()
        },
        None => Seq::empty(),
    }
}

fn count_of(usage: &Json, category: TokenCategory) -> (r: u64)
    ensures
        r == token_count(usage@, category),
{
    match usage.get(category.field()) {
        Some(v) => match v.as_u64() {
            Some(n) => n,
            None => 0,
        },
        None => 0,
    }
}

/// The updates of `llm_token_usage{llm_name, ..}` that a response or an
/// event of a stream calls for.
pub fn track_token_usage(json: &Json, llm_name: &str) -> (r: Vec<MetricEvent>)
    ensures
        events_view(r@) == token_events(json@, llm_name@),
{
    let mut events: Vec<MetricEvent> = Vec::new();
    match json.get("usage") {
        Some(usage) => {
            if usage.is_object() {
                events.push(
                    MetricEvent::TokenUsage {
                        llm_name: llm_name.to_owned(),
                        category: TokenCategory::Prompt,
                        amount: count_of(usage, TokenCategory::Prompt),
                    },
                );
                events.push(
                    MetricEvent::TokenUsage {
                        llm_name: llm_name.to_owned(),
                        category: TokenCategory::Completion,
                        amount: count_of(usage, TokenCategory::Completion),
                    },
                );
                events.push(
                    MetricEvent::TokenUsage {
                        llm_name: llm_name.to_owned(),
                        category: TokenCategory::Total,
                        amount: count_of(usage, TokenCategory::Total),
                    },
                );
            }
        },
        None => {},
    }
    assert(events_view(events@) =~= token_events(json@, llm_name@));
    events
}

/// The update that counts how a request ended: a success for a response
/// with a status from 200 to 399, else a failure of the kind that the status
/// gives; without a response, a failure of the system.
pub open spec fn outcome_event(status: Option<u16>) -> MetricEventView {
    match status {
        Some(s) => if 200 <= s < 400 {
            MetricEventView::RequestSuccess
        } else if 400 <= s < 500 {
            MetricEventView::RequestFailure { error_type: FailureKind::ClientError }
        } else if 500 <= s < 600 {
            MetricEventView::RequestFailure { error_type: FailureKind::ServerError }
        } else {
            MetricEventView::RequestFailure { error_type: FailureKind::Other }
        },
        None => MetricEventView::RequestFailure { error_type: FailureKind::System },
    }
}

/// The update that counts how a request ended.
pub fn classify_outcome(status: Option<StatusCode>) -> (r: MetricEvent)
    ensures
        r@ == outcome_event(
            match status {
                Some(s) => Some(s@),
                None => None,
            },
        ),
        r@.is_outcome(),
{
    match status {
        Some(s) => {
            let code = s.as_u16();
            if 200 <= code && code < 400 {
                MetricEvent::RequestSuccess
            } else if 400 <= code && code < 500 {
                MetricEvent::RequestFailure { error_type: FailureKind::ClientError }
            } else if 500 <= code && code < 600 {
                MetricEvent::RequestFailure { error_type: FailureKind::ServerError }
            } else {
                MetricEvent::RequestFailure { error_type: FailureKind::Other }
            }
        },
        None => MetricEvent::RequestFailure { error_type: FailureKind::System },
    }
}

/// What the proxy itself took: the whole time less the time of the
/// classifier and the time of the LLM.
pub open spec fn overhead(overall: u64, classifier: u64, upstream: u64) -> int {
    overall - classifier - upstream
}

/// The updates at the end of a request: the whole time, the proxy's own
/// time, and how the request ended.
pub open spec fn completion_events(
    status: Option<u16>,
    overall: u64,
    classifier: u64,
    upstream: u64,
) -> Seq<MetricEventView> {
    seq![
        MetricEventView::RequestLatency { nanos: overall },
        MetricEventView::ProxyOverheadLatency {
            nanos: overhead(overall, classifier, upstream) as i128,
        },
        outcome_event(status),
    ]
}

/// The updates at the end of a request.
pub fn completion_metrics(
    status: Option<StatusCode>,
    overall: u64,
    classifier: u64,
    upstream: u64,
) -> (r: Vec<MetricEvent>)
    ensures
        events_view(r@) == completion_events(
            match status {
                Some(s) => Some(s@),
                None => None,
            },
            overall,
            classifier,
            upstream,
        ),
{
    let mut events: Vec<MetricEvent> = Vec::new();
    events.push(MetricEvent::RequestLatency { nanos: overall });
    let nanos: i128 = overall as i128 - classifier as i128 - upstream as i128;
    events.push(MetricEvent::ProxyOverheadLatency { nanos });
    events.push(classify_outcome(status));
    assert(events_view(events@) =~= completion_events(
        match status {
            Some(s) => Some(s@),
            None => None,
        },
        overall,
        classifier,
        upstream,
    ));
    events
}

/// Updates of `llm_token_usage` are of no watched kind.
pub proof fn lemma_token_events_unwatched(json: JsonValue, llm_name: Seq<char>, watched: Watched)
    ensures
        count(token_events(json, llm_name), watched) == 0,
{
    let e = token_events(json, llm_name);
    if e.len() > 0 {
        let none = Seq::<MetricEventView>::empty();
        assert(e =~= none.push(e[0]).push(e[1]).push(e[2]));
        lemma_count_push(none, e[0], watched);
        lemma_count_push(none.push(e[0]), e[1], watched);
        lemma_count_push(none.push(e[0]).push(e[1]), e[2], watched);
    }
}

/// At the end of a request exactly one of `request_success_total` and
/// `request_failure_total` is raised, `request_latency_seconds` observes
/// once, and `model_selection_time_seconds` does not observe.
pub proof fn lemma_completion_events(
    status: Option<u16>,
    overall: u64,
    classifier: u64,
    upstream: u64,
)
    ensures
        count(completion_events(status, overall, classifier, upstream), Watched::Outcome) == 1,
        count(completion_events(status, overall, classifier, upstream), Watched::RequestLatency)
            == 1,
        count(
            completion_events(status, overall, classifier, upstream),
            Watched::ModelSelectionTime,
        ) == 0,
{
    let e = completion_events(status, overall, classifier, upstream);
    let none = Seq::<MetricEventView>::empty();
    assert(e =~= none.push(e[0]).push(e[1]).push(e[2]));
    lemma_count_push(none, e[0], Watched::Outcome);
    lemma_count_push(none.push(e[0]), e[1], Watched::Outcome);
    lemma_count_push(none.push(e[0]).push(e[1]), e[2], Watched::Outcome);
    lemma_count_push(none, e[0], Watched::RequestLatency);
    lemma_count_push(none.push(e[0]), e[1], Watched::RequestLatency);
    lemma_count_push(none.push(e[0]).push(e[1]), e[2], Watched::RequestLatency);
    lemma_count_push(none, e[0], Watched::ModelSelectionTime);
    lemma_count_push(none.push(e[0]), e[1], Watched::ModelSelectionTime);
    lemma_count_push(none.push(e[0]).push(e[1]), e[2], Watched::ModelSelectionTime);
}

} // verus!
