//! The request that goes to the chosen LLM and the headers of what comes
//! back.
use crate::config::Llm;
use crate::config::LlmView;
use crate::error::GatewayApiError;
use crate::error::GatewayApiErrorView;
use crate::json::Json;
use crate::json::JsonValue;
use crate::response::Header;
use crate::response::HeaderView;
use crate::response::set_header;
use crate::response::text_bytes;
use crate::response::text_header;
use crate::response::with_header;
use crate::text::joined;
use crate::text::str_eq;
use vstd::prelude::*;
use vstd::string::StrSliceExecFns;
use vstd::string::StringSliceAdditionalSpecFns;

verus! {

/// A byte that may stand in the value of a header: a tab, or any byte from
/// 32 on but 127.
pub open spec fn header_byte_ok(b: u8) -> bool {
    b >= 32 && b != 127 || b == 9
}

/// Every byte may stand in the value of a header.
pub open spec fn header_value_ok(bytes: Seq<u8>) -> bool {
    forall|i: int| 0 <= i < bytes.len() ==> header_byte_ok(#[trigger] bytes[i])
}

/// `http::HeaderValue::from_str` accepts a text exactly when each of its
/// bytes is a tab or at least 32 and not 127; what it says of a text that it
/// refuses is `failed to parse header value`.
#[verifier::external_body]
fn header_value_error(value: &str) -> (r: Option<String>)
    ensures
        r is None <==> header_value_ok(value.spec_bytes()),
        r is Some ==> r->0@ == "failed to parse header value"@,
{
    ::http::HeaderValue::from_str(value).err().map(|e| e.to_string())
}

/// The error for a text that cannot be the value of a header.
pub open spec fn header_value_refused() -> GatewayApiErrorView {
    GatewayApiErrorView::InvalidRequest {
        message: "Invalid header value: "@ + "failed to parse header value"@,
    }
}

/// Checks that a text can be the value of a header.
pub fn check_header_value(value: &str) -> (r: Result<(), GatewayApiError>)
    ensures
        r is Ok <==> header_value_ok(value.spec_bytes()),
        r is Err ==> r->Err_0@ == header_value_refused(),
{
    match header_value_error(value) {
        None => Ok(()),
        Some(reason) => Err(GatewayApiError::invalid_header_value(reason.as_str())),
    }
}

/// `http::Uri`, a URI, of which nothing is seen here.
#[verifier::external_type_specification]
#[verifier::external_body]
pub struct ExUri(::http::Uri);

/// What parsing a text as an `http::Uri` gives: the URI that the text
/// spells out, or what the parser says of a text that it refuses.
pub uninterp spec fn uri_of_text(text: Seq<char>) -> Result<::http::Uri, Seq<char>>;

/// The text that an `http::Uri` is written as.
pub uninterp spec fn uri_text(uri: ::http::Uri) -> Seq<char>;

/// Parses a text as an `http::Uri` (`str::parse`); what is refused comes
/// back as the error's message.
#[verifier::external_body]
fn parse_uri(text: &str) -> (r: Result<::http::Uri, String>)
    ensures
        match r {
            Ok(uri) => uri_of_text(text@) == Ok::<::http::Uri, Seq<char>>(uri),
            Err(e) => uri_of_text(text@) == Err::<::http::Uri, Seq<char>>(e@),
        },
{
    text.parse::<::http::Uri>().map_err(|e| e.to_string())
}

/// Writes an `http::Uri` out as text (`to_string`).
#[verifier::external_body]
fn write_uri(uri: &::http::Uri) -> (r: String)
    ensures
        r@ == uri_text(*uri),
{
    uri.to_string()
}

/// What is made of the text of a path and query: the text of the URI that
/// it spells out, or why it spells out none.
pub open spec fn forwarded_text(text: Seq<char>) -> Result<Seq<char>, Seq<char>> {
    match uri_of_text(text) {
        Ok(uri) => Ok(uri_text(uri)),
        Err(e) => Err(e),
    }
}

/// The path and query that is passed on, from what was made of the inbound
/// one.
pub open spec fn forward_uri(parsed: Result<Seq<char>, Seq<char>>) -> Result<
    Seq<char>,
    GatewayApiErrorView,
> {
    match parsed {
        Ok(uri) => Ok(uri),
        Err(e) => Err(GatewayApiErrorView::InvalidRequest { message: "Invalid URI: "@ + e }),
    }
}

/// The text that stands for the path and query of a request: empty where
/// the request has none.
pub open spec fn path_text(path_and_query: Option<Seq<char>>) -> Seq<char> {
    match path_and_query {
        Some(p) => p,
        None => Seq::empty(),
    }
}

/// The path and query that is passed on, from what was made of the inbound
/// one.
pub fn forward_uri_from(parsed: Result<String, String>) -> (r: Result<String, GatewayApiError>)
    ensures
        match r {
            Ok(uri) => forward_uri(
                match parsed {
                    Ok(u) => Ok(u@),
                    Err(e) => Err(e@),
                },
            ) == Ok::<Seq<char>, GatewayApiErrorView>(uri@),
            Err(e) => forward_uri(
                match parsed {
                    Ok(u) => Ok(u@),
                    Err(e) => Err(e@),
                },
            ) == Err::<Seq<char>, GatewayApiErrorView>(e@),
        },
{
    match parsed {
        Ok(uri) => Ok(uri),
        Err(e) => Err(GatewayApiError::InvalidRequest { message: joined("Invalid URI: ", e.as_str()) }),
    }
}

/// The path and query of the inbound request as it is passed on to the LLM.
/// A request without a path and query counts as one with an empty one.
pub fn extract_forward_uri_path_and_query(path_and_query: Option<&str>) -> (r: Result<
    String,
    GatewayApiError,
>)
    ensures
        match r {
            Ok(uri) => forward_uri(
                forwarded_text(
                    path_text(
                        match path_and_query {
                            Some(p) => Some(p@),
                            None => None,
                        },
                    ),
                ),
            ) == Ok::<Seq<char>, GatewayApiErrorView>(uri@),
            Err(e) => forward_uri(
                forwarded_text(
                    path_text(
                        match path_and_query {
                            Some(p) => Some(p@),
                            None => None,
                        },
                    ),
                ),
            ) == Err::<Seq<char>, GatewayApiErrorView>(e@),
        },
{
    let text = match path_and_query {
        Some(p) => p,
        None => "",
    };
    proof {
        reveal_strlit("");
        assert(""@ =~= Seq::<char>::empty());
    }
    let parsed = match parse_uri(text) {
        Ok(uri) => Ok(write_uri(&uri)),
        Err(e) => Err(e),
    };
    forward_uri_from(parsed)
}

/// A request asks for a streamed response: it is a `POST` with
/// `Content-Type: application/json` whose body has `"stream": true`.
pub open spec fn wants_stream(
    method: Seq<char>,
    content_type: Option<Seq<char>>,
    body: JsonValue,
) -> bool {
    &&& method == "POST"@
    &&& content_type == Some("application/json"@)
    &&& body.get("stream"@) == Some(JsonValue::Bool(true))
}

/// Whether the request asks for a streamed response.
pub fn is_stream(method: &str, content_type: Option<&str>, body: &Json) -> (r: bool)
    ensures
        r == wants_stream(
            method@,
            match content_type {
                Some(c) => Some(c@),
                None => None,
            },
            body@,
        ),
{
    if !str_eq(method, "POST") {
        return false;
    }
    match content_type {
        Some(c) => {
            if !str_eq(c, "application/json") {
                return false;
            }
        },
        None => {
            return false;
        },
    }
    match body.get("stream") {
        Some(member) => match member.as_bool() {
            Some(b) => b,
            None => false,
        },
        None => false,
    }
}

/// The headers that go to an LLM: `Accept` and `Content-Type`, both
/// `application/json`, and `Authorization: Bearer ` with the LLM's key.
pub open spec fn outbound_headers_for(llm: LlmView) -> Seq<HeaderView> {
    seq![
        HeaderView { name: "Accept"@, value: text_bytes("application/json"@) },
        HeaderView { name: "Content-Type"@, value: text_bytes("application/json"@) },
        HeaderView { name: "Authorization"@, value: text_bytes("Bearer "@ + llm.api_key) },
    ]
}

/// The headers that go to an LLM. A key that cannot stand in a header is
/// refused.
pub fn outbound_headers(llm: &Llm) -> (r: Result<Vec<Header>, GatewayApiError>)
    ensures
        r is Ok <==> header_value_ok(text_bytes("Bearer "@ + llm@.api_key)),
        r is Ok ==> r->Ok_0@.map_values(|h: Header| h@) == outbound_headers_for(llm@),
        r is Err ==> r->Err_0@ == header_value_refused(),
{
    let bearer = joined("Bearer ", llm.api_key.as_str());
    match check_header_value(bearer.as_str()) {
        Err(e) => Err(e),
        Ok(()) => {
            let mut headers: Vec<Header> = Vec::new();
            headers.push(text_header("Accept", "application/json"));
            headers.push(text_header("Content-Type", "application/json"));
            headers.push(text_header("Authorization", bearer.as_str()));
            assert(headers@.map_values(|h: Header| h@) =~= outbound_headers_for(llm@));
            Ok(headers)
        },
    }
}

/// The URL of the request to an LLM: the LLM's base followed by the inbound
/// path and query.
pub fn upstream_url(api_base: &str, path_and_query: &str) -> (r: String)
    ensures
        r@ == api_base@ + path_and_query@,
{
    joined(api_base, path_and_query)
}

/// The name of the header that tells which LLM answered.
pub open spec fn chosen_header() -> Seq<char> {
    "X-Chosen-Classifier"@
}

/// The headers of a response that is relayed: those of the LLM, with one
/// `X-Chosen-Classifier` that holds the name of the LLM in place of any that
/// the LLM sent.
pub open spec fn relayed_headers(upstream: Seq<HeaderView>, llm_name: Seq<char>) -> Seq<HeaderView> {
    with_header(upstream, chosen_header(), text_bytes(llm_name))
}

/// The headers of a response that is relayed.
pub fn relay_headers(upstream: Vec<Header>, llm_name: &str) -> (r: Vec<Header>)
    ensures
        r@.map_values(|h: Header| h@) == relayed_headers(
            upstream@.map_values(|h: Header| h@),
            llm_name@,
        ),
{
    set_header(upstream, "X-Chosen-Classifier", llm_name.as_bytes_vec())
}

/// A relayed response has exactly one `X-Chosen-Classifier`, the last of its
/// headers, and it holds the name of the LLM.
pub proof fn lemma_one_chosen_header(upstream: Seq<HeaderView>, llm_name: Seq<char>)
    ensures
        crate::response::count_header(relayed_headers(upstream, llm_name), chosen_header()) == 1,
        relayed_headers(upstream, llm_name).last() == (HeaderView {
            name: chosen_header(),
            value: text_bytes(llm_name),
        }),
{
    crate::response::lemma_with_header_has_one(upstream, chosen_header(), text_bytes(llm_name));
}

} // verus!
