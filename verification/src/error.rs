//! The gateway's errors, their status codes, their texts and the responses
//! made from them.
use crate::json::Json;
use crate::json::JsonValue;
use crate::json::json_text;
use crate::response::HttpResponse;
use crate::response::HttpResponseView;
use crate::response::json_content_type;
use crate::response::text_bytes;
use crate::status::StatusCode;
use crate::status::mirrored_status;
use crate::text::decimal;
use crate::text::push_decimal;
use vstd::prelude::*;
use vstd::string::StringExecFns;

verus! {

/// A value that can be turned into a response.
pub trait IntoResponse {
    fn into_response(self) -> HttpResponse;
}

/// Where an error comes from.
#[derive(Debug, Clone, Copy, PartialEq, Eq, Structural)]
pub enum ErrorSource {
    Triton,
    LlmProvider,
    Router,
    Client,
    Infrastructure,
}

/// The kinds of routing error.
#[derive(Debug, Clone, Copy, PartialEq, Eq, Structural)]
pub enum RoutingErrorType {
    PolicyNotFound,
    ModelNotFound,
    NoRoutingStrategy,
    InvalidConfiguration,
    TritonUnavailable,
}

impl RoutingErrorType {
    /// The name of the kind as it is written in an error body.
    pub open spec fn spec_name(self) -> Seq<char> {
        match self {
            RoutingErrorType::PolicyNotFound => "policy_not_found"@,
            RoutingErrorType::ModelNotFound => "model_not_found"@,
            RoutingErrorType::NoRoutingStrategy => "no_routing_strategy"@,
            RoutingErrorType::InvalidConfiguration => "invalid_configuration"@,
            RoutingErrorType::TritonUnavailable => "triton_unavailable"@,
        }
    }

    /// The status that goes with the kind.
    pub open spec fn spec_status(self) -> u16 {
        match self {
            RoutingErrorType::PolicyNotFound => 404,
            RoutingErrorType::ModelNotFound => 404,
            RoutingErrorType::NoRoutingStrategy => 400,
            RoutingErrorType::InvalidConfiguration => 500,
            RoutingErrorType::TritonUnavailable => 503,
        }
    }

    /// The name of the kind as it is written in an error body.
    pub fn name(&self) -> (r: &'static str)
        ensures
            r@ == self.spec_name(),
    {
        match self {
            RoutingErrorType::PolicyNotFound => "policy_not_found",
            RoutingErrorType::ModelNotFound => "model_not_found",
            RoutingErrorType::NoRoutingStrategy => "no_routing_strategy",
            RoutingErrorType::InvalidConfiguration => "invalid_configuration",
            RoutingErrorType::TritonUnavailable => "triton_unavailable",
        }
    }

    /// The status that goes with the kind.
    pub fn status(&self) -> (r: StatusCode)
        ensures
            r@ == self.spec_status(),
    {
        match self {
            RoutingErrorType::PolicyNotFound => StatusCode::not_found(),
            RoutingErrorType::ModelNotFound => StatusCode::not_found(),
            RoutingErrorType::NoRoutingStrategy => StatusCode::bad_request(),
            RoutingErrorType::InvalidConfiguration => StatusCode::internal_server_error(),
            RoutingErrorType::TritonUnavailable => StatusCode::service_unavailable(),
        }
    }
}

/// What can go wrong while a request is handled.
#[derive(Debug)]
#[allow(inconsistent_fields)]
pub enum GatewayApiError {
    /// The classifier reported an error.
    TritonError { message: String, code: u16, details: Option<String> },
    /// An LLM provider reported an error or could not be reached.
    LlmServiceError { status: StatusCode, message: String, provider: String, details: Option<Json> },
    /// No route could be chosen.
    RoutingError { message: String, error_type: RoutingErrorType },
    /// The caller's request is at fault.
    ClientError { status: StatusCode, message: String, error_type: String },
    Infrastructure(String),
    /// A JSON text could not be read or written; the message says why.
    Json(String),
    /// Reading or writing failed; the message says why.
    Io(String),
    /// A request or response could not be put together; the message says why.
    Http(String),
    /// The connection failed; the message says why.
    Hyper(String),
    InvalidRequest { message: String },
    TritonServiceError { status_code: u16, message: String },
    UnexpectedError { message: String },
    PolicyNotFound(String),
    ModelNotFound(String),
    MissingPolicy,
}

/// The mathematical value of a [`GatewayApiError`].
#[allow(inconsistent_fields)]
pub enum GatewayApiErrorView {
    TritonError { message: Seq<char>, code: u16, details: Option<Seq<char>> },
    LlmServiceError {
        status: u16,
        message: Seq<char>,
        provider: Seq<char>,
        details: Option<JsonValue>,
    },
    RoutingError { message: Seq<char>, error_type: RoutingErrorType },
    ClientError { status: u16, message: Seq<char>, error_type: Seq<char> },
    Infrastructure(Seq<char>),
    Json(Seq<char>),
    Io(Seq<char>),
    Http(Seq<char>),
    Hyper(Seq<char>),
    InvalidRequest { message: Seq<char> },
    TritonServiceError { status_code: u16, message: Seq<char> },
    UnexpectedError { message: Seq<char> },
    PolicyNotFound(Seq<char>),
    ModelNotFound(Seq<char>),
    MissingPolicy,
}

impl View for GatewayApiError {
    type V = GatewayApiErrorView;

    open spec fn view(&self) -> GatewayApiErrorView {
        match self {
            GatewayApiError::TritonError { message, code, details } => GatewayApiErrorView::TritonError {
                message: message@,
                code: *code,
                details: match details {
                    Some(d) => Some(d@),
                    None => None,
                },
            },
            GatewayApiError::LlmServiceError {
                status,
                message,
                provider,
                details,
            } => GatewayApiErrorView::LlmServiceError {
                status: status@,
                message: message@,
                provider: provider@,
                details: match details {
                    Some(d) => Some(d@),
                    None => None,
                },
            },
            GatewayApiError::RoutingError { message, error_type } => GatewayApiErrorView::RoutingError {
                message: message@,
                error_type: *error_type,
            },
            GatewayApiError::ClientError { status, message, error_type } => GatewayApiErrorView::ClientError {
                status: status@,
                message: message@,
                error_type: error_type@,
            },
            GatewayApiError::Infrastructure(m) => GatewayApiErrorView::Infrastructure(m@),
            GatewayApiError::Json(m) => GatewayApiErrorView::Json(m@),
            GatewayApiError::Io(m) => GatewayApiErrorView::Io(m@),
            GatewayApiError::Http(m) => GatewayApiErrorView::Http(m@),
            GatewayApiError::Hyper(m) => GatewayApiErrorView::Hyper(m@),
            GatewayApiError::InvalidRequest { message } => GatewayApiErrorView::InvalidRequest {
                message: message@,
            },
            GatewayApiError::TritonServiceError { status_code, message } => GatewayApiErrorView::TritonServiceError {
                status_code: *status_code,
                message: message@,
            },
            GatewayApiError::UnexpectedError { message } => GatewayApiErrorView::UnexpectedError {
                message: message@,
            },
            GatewayApiError::PolicyNotFound(p) => GatewayApiErrorView::PolicyNotFound(p@),
            GatewayApiError::ModelNotFound(m) => GatewayApiErrorView::ModelNotFound(m@),
            GatewayApiError::MissingPolicy => GatewayApiErrorView::MissingPolicy,
        }
    }
}

/// A text as a JSON string, or `null` where there is none.
pub open spec fn optional_text(text: Option<Seq<char>>) -> JsonValue {
    match text {
        Some(t) => JsonValue::Str(t),
        None => JsonValue::Null,
    }
}

/// A value, or `null` where there is none.
pub open spec fn optional_value(value: Option<JsonValue>) -> JsonValue {
    match value {
        Some(v) => v,
        None => JsonValue::Null,
    }
}

/// The object `{"error": detail}`.
pub open spec fn error_envelope(detail: JsonValue) -> JsonValue {
    JsonValue::empty_object().set("error"@, detail)
}

impl GatewayApiErrorView {
    /// Where the error comes from.
    pub open spec fn error_source(self) -> ErrorSource {
        match self {
            GatewayApiErrorView::TritonError { .. } => ErrorSource::Triton,
            GatewayApiErrorView::LlmServiceError { .. } => ErrorSource::LlmProvider,
            GatewayApiErrorView::RoutingError { .. } => ErrorSource::Router,
            GatewayApiErrorView::ClientError { .. } => ErrorSource::Client,
            _ => ErrorSource::Infrastructure,
        }
    }

    /// The status that answers the error.
    pub open spec fn status_code(self) -> u16 {
        match self {
            GatewayApiErrorView::TritonError { code, .. } => mirrored_status(code),
            GatewayApiErrorView::LlmServiceError { status, .. } => status,
            GatewayApiErrorView::ClientError { status, .. } => status,
            GatewayApiErrorView::RoutingError { error_type, .. } => error_type.spec_status(),
            _ => 500,
        }
    }

    /// The text that describes the error.
    pub open spec fn message(self) -> Seq<char> {
        match self {
            GatewayApiErrorView::TritonError { message, .. } => "Triton Error: "@ + message,
            GatewayApiErrorView::LlmServiceError { message, .. } => "LLM Service Error: "@ + message,
            GatewayApiErrorView::RoutingError { message, .. } => "Routing Error: "@ + message,
            GatewayApiErrorView::ClientError { message, .. } => "Client Error: "@ + message,
            GatewayApiErrorView::Infrastructure(m) => "Infrastructure Error: "@ + m,
            GatewayApiErrorView::Json(m) => m,
            GatewayApiErrorView::Io(m) => m,
            GatewayApiErrorView::Http(m) => m,
            GatewayApiErrorView::Hyper(m) => m,
            GatewayApiErrorView::InvalidRequest { message } => "Invalid request: "@ + message,
            GatewayApiErrorView::TritonServiceError { status_code, message } => "Triton service error ("@
                + decimal(status_code as nat) + "): "@ + message,
            GatewayApiErrorView::UnexpectedError { message } => "Unexpected error: "@ + message,
            GatewayApiErrorView::PolicyNotFound(p) => "Policy not found: "@ + p,
            GatewayApiErrorView::ModelNotFound(m) => "Model not found: "@ + m,
            GatewayApiErrorView::MissingPolicy => "No policy specified in nim-llm-router params"@,
        }
    }

    /// The member `error` of the detailed error body.
    pub open spec fn detail(self) -> JsonValue {
        match self {
            GatewayApiErrorView::LlmServiceError {
                status,
                message,
                provider,
                details,
            } => JsonValue::empty_object().set("type"@, JsonValue::Str("llm_service_error"@)).set(
                "message"@,
                JsonValue::Str(message),
            ).set("status"@, JsonValue::from_u64(status as u64)).set(
                "provider"@,
                JsonValue::Str(provider),
            ).set("details"@, optional_value(details)).set(
                "source"@,
                JsonValue::Str("llm_provider"@),
            ),
            GatewayApiErrorView::TritonError {
                message,
                code,
                details,
            } => JsonValue::empty_object().set("type"@, JsonValue::Str("triton_error"@)).set(
                "message"@,
                JsonValue::Str(message),
            ).set("code"@, JsonValue::from_u64(code as u64)).set(
                "details"@,
                optional_text(details),
            ).set("source"@, JsonValue::Str("triton"@)),
            GatewayApiErrorView::RoutingError { message, error_type } => JsonValue::empty_object().set(
                "type"@,
                JsonValue::Str("routing_error_"@ + error_type.spec_name()),
            ).set("message"@, JsonValue::Str(message)).set(
                "status"@,
                JsonValue::from_u64(self.status_code() as u64),
            ).set("source"@, JsonValue::Str("router"@)),
            GatewayApiErrorView::ClientError {
                status,
                message,
                error_type,
            } => JsonValue::empty_object().set("type"@, JsonValue::Str(error_type)).set(
                "message"@,
                JsonValue::Str(message),
            ).set("status"@, JsonValue::from_u64(status as u64)).set(
                "source"@,
                JsonValue::Str("client"@),
            ),
            _ => JsonValue::empty_object().set("type"@, JsonValue::Str("internal_error"@)).set(
                "message"@,
                JsonValue::Str(self.message()),
            ).set("status"@, JsonValue::from_u64(self.status_code() as u64)).set(
                "source"@,
                JsonValue::Str("infrastructure"@),
            ),
        }
    }

    /// The detailed response: the error's status, `Content-Type:
    /// application/json`, and `{"error": detail}` as the body.
    pub open spec fn to_response(self) -> HttpResponseView {
        HttpResponseView {
            status: self.status_code(),
            headers: seq![json_content_type()],
            body: text_bytes(json_text(error_envelope(self.detail()))),
        }
    }

    /// The status of the short response: 400 for a request that is at
    /// fault, 404 for a policy or a model that is not there, else the
    /// status of the error.
    pub open spec fn short_status(self) -> u16 {
        match self {
            GatewayApiErrorView::InvalidRequest { .. } => 400,
            GatewayApiErrorView::PolicyNotFound(_) => 404,
            GatewayApiErrorView::ModelNotFound(_) => 404,
            _ => self.status_code(),
        }
    }

    /// The message of the short response.
    pub open spec fn short_message(self) -> Seq<char> {
        match self {
            GatewayApiErrorView::InvalidRequest { message } => message,
            GatewayApiErrorView::PolicyNotFound(p) => "Policy '"@ + p + "' not found"@,
            _ => self.message(),
        }
    }

    /// The short response: `{"error": {"message": .., "status": ..}}`.
    pub open spec fn into_response(self) -> HttpResponseView {
        HttpResponseView {
            status: self.short_status(),
            headers: seq![json_content_type()],
            body: text_bytes(
                json_text(
                    error_envelope(
                        JsonValue::empty_object().set(
                            "message"@,
                            JsonValue::Str(self.short_message()),
                        ).set("status"@, JsonValue::from_u64(self.short_status() as u64)),
                    ),
                ),
            ),
        }
    }
}

fn optional_text_json(text: &Option<String>) -> (r: Json)
    ensures
        r@ == optional_text(
            match text {
                Some(t) => Some(t@),
                None => None,
            },
        ),
{
    match text {
        Some(t) => Json::string(t.as_str()),
        None => Json::Null,
    }
}

fn optional_value_json(value: &Option<Json>) -> (r: Json)
    ensures
        r@ == optional_value(
            match value {
                Some(v) => Some(v@),
                None => None,
            },
        ),
{
    match value {
        Some(v) => v.clone(),
        None => Json::Null,
    }
}

impl GatewayApiError {
    /// Where the error comes from.
    pub fn error_source(&self) -> (r: ErrorSource)
        ensures
            r == self@.error_source(),
    {
        match self {
            GatewayApiError::TritonError { .. } => ErrorSource::Triton,
            GatewayApiError::LlmServiceError { .. } => ErrorSource::LlmProvider,
            GatewayApiError::RoutingError { .. } => ErrorSource::Router,
            GatewayApiError::ClientError { .. } => ErrorSource::Client,
            _ => ErrorSource::Infrastructure,
        }
    }

    /// The status that answers the error.
    pub fn status_code(&self) -> (r: StatusCode)
        ensures
            r@ == self@.status_code(),
    {
        match self {
            GatewayApiError::TritonError { code, .. } => StatusCode::mirrored(*code),
            GatewayApiError::LlmServiceError { status, .. } => *status,
            GatewayApiError::ClientError { status, .. } => *status,
            GatewayApiError::RoutingError { error_type, .. } => error_type.status(),
            _ => StatusCode::internal_server_error(),
        }
    }

    /// The text that describes the error.
    pub fn message(&self) -> (r: String)
        ensures
            r@ == self@.message(),
    {
        match self {
            GatewayApiError::TritonError { message, .. } => crate::text::joined(
                "Triton Error: ",
                message.as_str(),
            ),
            GatewayApiError::LlmServiceError { message, .. } => crate::text::joined(
                "LLM Service Error: ",
                message.as_str(),
            ),
            GatewayApiError::RoutingError { message, .. } => crate::text::joined(
                "Routing Error: ",
                message.as_str(),
            ),
            GatewayApiError::ClientError { message, .. } => crate::text::joined(
                "Client Error: ",
                message.as_str(),
            ),
            GatewayApiError::Infrastructure(m) => crate::text::joined(
                "Infrastructure Error: ",
                m.as_str(),
            ),
            GatewayApiError::Json(m) => m.clone(),
            GatewayApiError::Io(m) => m.clone(),
            GatewayApiError::Http(m) => m.clone(),
            GatewayApiError::Hyper(m) => m.clone(),
            GatewayApiError::InvalidRequest { message } => crate::text::joined(
                "Invalid request: ",
                message.as_str(),
            ),
            GatewayApiError::TritonServiceError { status_code, message } => {
                let mut out = String::from_str("Triton service error (");
                push_decimal(&mut out, *status_code as u64);
                out.append("): ");
                out.append(message.as_str());
                out
            },
            GatewayApiError::UnexpectedError { message } => crate::text::joined(
                "Unexpected error: ",
                message.as_str(),
            ),
            GatewayApiError::PolicyNotFound(p) => crate::text::joined(
                "Policy not found: ",
                p.as_str(),
            ),
            GatewayApiError::ModelNotFound(m) => crate::text::joined(
                "Model not found: ",
                m.as_str(),
            ),
            GatewayApiError::MissingPolicy => String::from_str(
                "No policy specified in nim-llm-router params",
            ),
        }
    }

    /// The member `error` of the detailed error body.
    pub fn detail(&self) -> (r: Json)
        ensures
            r@ == self@.detail(),
    {
        match self {
            GatewayApiError::LlmServiceError { status, message, provider, details } => {
                Json::object().set("type", Json::string("llm_service_error")).set(
                    "message",
                    Json::string(message.as_str()),
                ).set("status", Json::from_u64(status.as_u16() as u64)).set(
                    "provider",
                    Json::string(provider.as_str()),
                ).set("details", optional_value_json(details)).set(
                    "source",
                    Json::string("llm_provider"),
                )
            },
            GatewayApiError::TritonError { message, code, details } => {
                Json::object().set("type", Json::string("triton_error")).set(
                    "message",
                    Json::string(message.as_str()),
                ).set("code", Json::from_u64(*code as u64)).set(
                    "details",
                    optional_text_json(details),
                ).set("source", Json::string("triton"))
            },
            GatewayApiError::RoutingError { message, error_type } => {
                let kind = crate::text::joined("routing_error_", error_type.name());
                Json::object().set("type", Json::string(kind.as_str())).set(
                    "message",
                    Json::string(message.as_str()),
                ).set("status", Json::from_u64(self.status_code().as_u16() as u64)).set(
                    "source",
                    Json::string("router"),
                )
            },
            GatewayApiError::ClientError { status, message, error_type } => {
                Json::object().set("type", Json::string(error_type.as_str())).set(
                    "message",
                    Json::string(message.as_str()),
                ).set("status", Json::from_u64(status.as_u16() as u64)).set(
                    "source",
                    Json::string("client"),
                )
            },
            _ => {
                let text = self.message();
                Json::object().set("type", Json::string("internal_error")).set(
                    "message",
                    Json::string(text.as_str()),
                ).set("status", Json::from_u64(self.status_code().as_u16() as u64)).set(
                    "source",
                    Json::string("infrastructure"),
                )
            },
        }
    }

    /// The detailed response for the error. It is always made.
    pub fn to_response(&self) -> (r: Result<HttpResponse, GatewayApiError>)
        ensures
            r is Ok,
            r->Ok_0@ == self@.to_response(),
    {
        let body = Json::object().set("error", self.detail());
        let text = body.to_text();
        Ok(HttpResponse::json(self.status_code(), text.as_str()))
    }

    /// An error of the classifier.
    pub fn triton_error(message: &str, code: u16) -> (r: GatewayApiError)
        ensures
            r@ == (GatewayApiErrorView::TritonError { message: message@, code, details: None }),
    {
        GatewayApiError::TritonError { message: message.to_owned(), code, details: None }
    }

    /// An error of an LLM provider.
    pub fn llm_error(status: StatusCode, message: &str, provider: &str) -> (r: GatewayApiError)
        ensures
            r@ == (GatewayApiErrorView::LlmServiceError {
                status: status@,
                message: message@,
                provider: provider@,
                details: None,
            }),
    {
        GatewayApiError::LlmServiceError {
            status,
            message: message.to_owned(),
            provider: provider.to_owned(),
            details: None,
        }
    }

    /// A routing error.
    pub fn routing_error(message: &str, error_type: RoutingErrorType) -> (r: GatewayApiError)
        ensures
            r@ == (GatewayApiErrorView::RoutingError { message: message@, error_type }),
    {
        GatewayApiError::RoutingError { message: message.to_owned(), error_type }
    }

    /// An error of the caller.
    pub fn client_error(status: StatusCode, message: &str, error_type: &str) -> (r: GatewayApiError)
        ensures
            r@ == (GatewayApiErrorView::ClientError {
                status: status@,
                message: message@,
                error_type: error_type@,
            }),
    {
        GatewayApiError::ClientError {
            status,
            message: message.to_owned(),
            error_type: error_type.to_owned(),
        }
    }

    /// The error for a failed exchange with another server: a client error
    /// where the failure carries a status, else an infrastructure error.
    pub fn from_transport_failure(status: Option<StatusCode>, message: &str) -> (r: GatewayApiError)
        ensures
            r@ == (match status {
                Some(s) => GatewayApiErrorView::ClientError {
                    status: s@,
                    message: message@,
                    error_type: "http_client_error"@,
                },
                None => GatewayApiErrorView::Infrastructure(message@),
            }),
    {
        match status {
            Some(s) => GatewayApiError::client_error(s, message, "http_client_error"),
            None => GatewayApiError::Infrastructure(message.to_owned()),
        }
    }

    /// The error for a header value that cannot be sent.
    pub fn invalid_header_value(reason: &str) -> (r: GatewayApiError)
        ensures
            r@ == (GatewayApiErrorView::InvalidRequest {
                message: "Invalid header value: "@ + reason@,
            }),
    {
        GatewayApiError::InvalidRequest {
            message: crate::text::joined("Invalid header value: ", reason),
        }
    }

    /// The error that stands for the empty error value.
    pub fn unexpected() -> (r: GatewayApiError)
        ensures
            r@ == (GatewayApiErrorView::UnexpectedError { message: "Empty error conversion"@ }),
    {
        GatewayApiError::UnexpectedError { message: String::from_str("Empty error conversion") }
    }

    fn short_status(&self) -> (r: StatusCode)
        ensures
            r@ == self@.short_status(),
    {
        match self {
            GatewayApiError::InvalidRequest { .. } => StatusCode::bad_request(),
            GatewayApiError::PolicyNotFound(_) => StatusCode::not_found(),
            GatewayApiError::ModelNotFound(_) => StatusCode::not_found(),
            _ => self.status_code(),
        }
    }

    fn short_message(&self) -> (r: String)
        ensures
            r@ == self@.short_message(),
    {
        match self {
            GatewayApiError::InvalidRequest { message } => message.clone(),
            GatewayApiError::PolicyNotFound(p) => {
                let mut out = String::from_str("Policy '");
                out.append(p.as_str());
                out.append("' not found");
                out
            },
            _ => self.message(),
        }
    }
}

impl IntoResponse for GatewayApiError {
    /// The short response for the error.
    fn into_response(self) -> (r: HttpResponse)
        ensures
            r@ == self@.into_response(),
    {
        let status = self.short_status();
        let message = self.short_message();
        let detail = Json::object().set("message", Json::string(message.as_str())).set(
            "status",
            Json::from_u64(status.as_u16() as u64),
        );
        let body = Json::object().set("error", detail);
        let text = body.to_text();
        HttpResponse::json(status, text.as_str())
    }
}

} // verus!
