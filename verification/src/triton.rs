//! The classifier service: the request that asks it, and the choice that its
//! reply makes among the LLMs of a policy.
use crate::config::Policy;
use crate::config::PolicyView;
use crate::error::GatewayApiError;
use crate::error::GatewayApiErrorView;
use crate::json::Json;
use crate::json::JsonValue;
use crate::json::items_seq;
use crate::json::json_of_text;
use crate::json::json_text;
use crate::json::lemma_array_view;
use crate::json::parse_json;
use crate::response::Header;
use crate::response::HeaderView;
use crate::response::json_content_type;
use crate::response::text_bytes;
use crate::response::text_header;
use crate::status::StatusCode;
use crate::status::mirrored_status;
use crate::text::joined;
use crate::text::decimal;
use crate::text::push_decimal;
use crate::text::text_of;
use crate::text::utf8_lossy;
use crate::text::utf8_strict;
use vstd::prelude::*;
use vstd::string::StrSliceExecFns;
use vstd::string::StringExecFns;

verus! {

/// One input tensor of an inference request.
#[derive(Debug)]
pub struct InferInputTensor {
    pub name: String,
    pub datatype: String,
    pub shape: Vec<i64>,
    pub data: Vec<Vec<String>>,
}

/// The body of an inference request.
#[derive(Debug)]
pub struct InferInputs {
    pub inputs: Vec<InferInputTensor>,
}

/// The sequence parameters of an inference reply.
#[derive(Debug, Clone, Copy, PartialEq, Eq, Structural)]
pub struct Parameters {
    pub sequence_id: i64,
    pub sequence_start: bool,
    pub sequence_end: bool,
}

/// One output tensor of an inference reply. Its numbers are held as
/// `serde_json` holds them.
#[derive(Debug)]
pub struct InferOutputTensor {
    pub name: String,
    pub datatype: String,
    pub shape: Vec<i64>,
    pub data: Vec<serde_json::Number>,
}

/// The body of an inference reply.
#[derive(Debug)]
pub struct Output {
    pub model_name: String,
    pub model_version: String,
    pub parameters: Parameters,
    pub outputs: Vec<InferOutputTensor>,
}

/// The mathematical value of a [`InferInputTensor`].
#[verifier::ext_equal]
pub struct InferInputTensorView {
    pub name: Seq<char>,
    pub datatype: Seq<char>,
    pub shape: Seq<i64>,
    pub data: Seq<Seq<Seq<char>>>,
}

/// The texts of a row of a tensor.
pub open spec fn row_view(row: Vec<String>) -> Seq<Seq<char>> {
    row@.map_values(|s: String| s@)
}

impl View for InferInputTensor {
    type V = InferInputTensorView;

    open spec fn view(&self) -> InferInputTensorView {
        InferInputTensorView {
            name: self.name@,
            datatype: self.datatype@,
            shape: self.shape@,
            data: self.data@.map_values(|row: Vec<String>| row_view(row)),
        }
    }
}

/// The mathematical value of a [`InferInputs`].
#[verifier::ext_equal]
pub struct InferInputsView {
    pub inputs: Seq<InferInputTensorView>,
}

impl View for InferInputs {
    type V = InferInputsView;

    open spec fn view(&self) -> InferInputsView {
        InferInputsView { inputs: self.inputs@.map_values(|t: InferInputTensor| t@) }
    }
}

/// The one tensor that carries a text to the classifier: named `INPUT`, of
/// type `BYTES` and shape `[1, 1]`, with the text as its only item.
pub open spec fn text_tensor(text: Seq<char>) -> InferInputTensorView {
    InferInputTensorView {
        name: "INPUT"@,
        datatype: "BYTES"@,
        shape: seq![1i64, 1i64],
        data: seq![seq![text]],
    }
}

/// A row of a tensor as a JSON array.
pub open spec fn row_json(row: Seq<Seq<char>>) -> JsonValue {
    JsonValue::Array(Seq::new(row.len(), |i: int| JsonValue::Str(row[i])))
}

/// An input tensor as a JSON object.
pub open spec fn tensor_json(t: InferInputTensorView) -> JsonValue {
    JsonValue::empty_object().set("name"@, JsonValue::Str(t.name)).set(
        "datatype"@,
        JsonValue::Str(t.datatype),
    ).set("shape"@, JsonValue::Array(Seq::new(t.shape.len(), |i: int| JsonValue::from_i64(t.shape[i])))).set(
        "data"@,
        JsonValue::Array(Seq::new(t.data.len(), |i: int| row_json(t.data[i]))),
    )
}

/// An inference request as JSON: `{"inputs": [tensor, ..]}`.
pub open spec fn inputs_json(inputs: InferInputsView) -> JsonValue {
    JsonValue::empty_object().set(
        "inputs"@,
        JsonValue::Array(Seq::new(inputs.inputs.len(), |i: int| tensor_json(inputs.inputs[i]))),
    )
}

fn row_to_json(row: &Vec<String>) -> (r: Json)
    ensures
        r@ == row_json(row_view(*row)),
{
    let mut items: Vec<Json> = Vec::new();
    let mut i: usize = 0;
    while i < row.len()
        invariant
            i <= row.len(),
            items@.len() == i,
            forall|k: int| 0 <= k < i ==> (#[trigger] items@[k])@ == JsonValue::Str(row@[k]@),
        decreases row.len() - i,
    {
        items.push(Json::string(row[i].as_str()));
        i = i + 1;
    }
    proof {
        lemma_array_view(items);
        assert(items_seq(items@) =~= row_json(row_view(*row))->Array_0);
    }
    Json::Array(items)
}

impl InferInputTensor {
    /// The tensor as a JSON object.
    pub fn to_json(&self) -> (r: Json)
        ensures
            r@ == tensor_json(self@),
    {
        let mut shape: Vec<Json> = Vec::new();
        let mut i: usize = 0;
        while i < self.shape.len()
            invariant
                i <= self.shape.len(),
                shape@.len() == i,
                forall|k: int|
                    0 <= k < i ==> (#[trigger] shape@[k])@ == JsonValue::from_i64(self.shape@[k]),
            decreases self.shape.len() - i,
        {
            shape.push(Json::from_i64(self.shape[i]));
            i = i + 1;
        }
        let mut data: Vec<Json> = Vec::new();
        let mut j: usize = 0;
        while j < self.data.len()
            invariant
                j <= self.data.len(),
                data@.len() == j,
                forall|k: int|
                    0 <= k < j ==> (#[trigger] data@[k])@ == row_json(row_view(self.data@[k])),
            decreases self.data.len() - j,
        {
            data.push(row_to_json(&self.data[j]));
            j = j + 1;
        }
        proof {
            lemma_array_view(shape);
            lemma_array_view(data);
            assert(items_seq(shape@) =~= Seq::new(
                self@.shape.len(),
                |i: int| JsonValue::from_i64(self@.shape[i]),
            ));
            assert(items_seq(data@) =~= Seq::new(
                self@.data.len(),
                |i: int| row_json(self@.data[i]),
            ));
        }
        Json::object().set("name", Json::string(self.name.as_str())).set(
            "datatype",
            Json::string(self.datatype.as_str()),
        ).set("shape", Json::Array(shape)).set("data", Json::Array(data))
    }
}

impl InferInputs {
    /// The request that asks the classifier about one text.
    pub fn for_text(text: &str) -> (r: InferInputs)
        ensures
            r@ == (InferInputsView { inputs: seq![text_tensor(text@)] }),
    {
        let mut shape: Vec<i64> = Vec::new();
        shape.push(1);
        shape.push(1);
        let mut row: Vec<String> = Vec::new();
        row.push(text.to_owned());
        let mut data: Vec<Vec<String>> = Vec::new();
        data.push(row);
        let tensor = InferInputTensor {
            name: "INPUT".to_owned(),
            datatype: "BYTES".to_owned(),
            shape,
            data,
        };
        proof {
            assert(tensor@.shape =~= seq![1i64, 1i64]);
            assert(row_view(tensor.data@[0]) =~= seq![text@]);
            assert(tensor@.data =~= seq![seq![text@]]);
        }
        let mut inputs: Vec<InferInputTensor> = Vec::new();
        inputs.push(tensor);
        let r = InferInputs { inputs };
        assert(r@.inputs =~= seq![text_tensor(text@)]);
        r
    }

    /// The request as a JSON object.
    pub fn to_json(&self) -> (r: Json)
        ensures
            r@ == inputs_json(self@),
    {
        let mut tensors: Vec<Json> = Vec::new();
        let mut i: usize = 0;
        while i < self.inputs.len()
            invariant
                i <= self.inputs.len(),
                tensors@.len() == i,
                forall|k: int| 0 <= k < i ==> (#[trigger] tensors@[k])@ == tensor_json(self.inputs@[k]@),
            decreases self.inputs.len() - i,
        {
            tensors.push(self.inputs[i].to_json());
            i = i + 1;
        }
        proof {
            lemma_array_view(tensors);
            assert(items_seq(tensors@) =~= Seq::new(
                self@.inputs.len(),
                |i: int| tensor_json(self@.inputs[i]),
            ));
        }
        Json::object().set("inputs", Json::Array(tensors))
    }
}

/// What is sent to the classifier.
#[derive(Debug)]
pub struct ClassifierRequest {
    pub url: String,
    pub headers: Vec<Header>,
    pub body: Vec<u8>,
}

/// The mathematical value of a [`ClassifierRequest`].
#[verifier::ext_equal]
pub struct ClassifierRequestView {
    pub url: Seq<char>,
    pub headers: Seq<HeaderView>,
    pub body: Seq<u8>,
}

impl View for ClassifierRequest {
    type V = ClassifierRequestView;

    open spec fn view(&self) -> ClassifierRequestView {
        ClassifierRequestView {
            url: self.url@,
            headers: self.headers@.map_values(|h: Header| h@),
            body: self.body@,
        }
    }
}

/// The request that asks the classifier of a policy about a text: a POST to
/// the policy's URL with `Content-Type: application/json` and the one text
/// tensor as its body.
pub open spec fn classifier_request_for(policy: PolicyView, text: Seq<char>) -> ClassifierRequestView {
    ClassifierRequestView {
        url: policy.url,
        headers: seq![json_content_type()],
        body: text_bytes(json_text(inputs_json(InferInputsView { inputs: seq![text_tensor(text)] }))),
    }
}

/// Builds the request that asks the classifier of `policy` about `text`.
pub fn classifier_request(policy: &Policy, text: &str) -> (r: ClassifierRequest)
    ensures
        r@ == classifier_request_for(policy@, text@),
{
    let body = InferInputs::for_text(text).to_json().to_text();
    let mut headers: Vec<Header> = Vec::new();
    headers.push(text_header("Content-Type", "application/json"));
    let r = ClassifierRequest { url: policy.url.clone(), headers, body: body.as_str().as_bytes_vec() };
    assert(r@.headers =~= seq![json_content_type()]);
    r
}

/// The IEEE-754 pattern of the double that `serde_json::Number::as_f64`
/// gives for a number.
pub uninterp spec fn number_float_bits(n: serde_json::Number) -> u64;

/// `serde_json::Number::as_f64`, handed back as the pattern of its bits.
#[verifier::external_body]
fn float_bits(n: &serde_json::Number) -> (r: u64)
    ensures
        r == number_float_bits(*n),
{
    n.as_f64().map(|f| f.to_bits()).unwrap_or_default()
}

/// A key that orders the patterns of doubles as the doubles themselves are
/// ordered: a greater double has a greater key, and the two zeros have one
/// key. Patterns that stand for no number are never read from JSON.
pub open spec fn order_key(bits: u64) -> u64 {
    if bits == 0x8000_0000_0000_0000 {
        0x8000_0000_0000_0000
    } else if bits > 0x8000_0000_0000_0000 {
        (0xFFFF_FFFF_FFFF_FFFF - bits) as u64
    } else {
        (bits + 0x8000_0000_0000_0000) as u64
    }
}

/// [`order_key`], computed.
pub fn order_key_of(bits: u64) -> (r: u64)
    ensures
        r == order_key(bits),
{
    if bits == 0x8000_0000_0000_0000 {
        0x8000_0000_0000_0000
    } else if bits > 0x8000_0000_0000_0000 {
        0xFFFF_FFFF_FFFF_FFFF - bits
    } else {
        bits + 0x8000_0000_0000_0000
    }
}

/// The key by which a score of the classifier is compared.
pub open spec fn score_key(n: serde_json::Number) -> u64 {
    order_key(number_float_bits(n))
}

/// `i` is the index of the first greatest item of `keys`.
pub open spec fn is_first_maximum(keys: Seq<u64>, i: int) -> bool {
    &&& 0 <= i < keys.len()
    &&& forall|j: int| 0 <= j < keys.len() ==> keys[j] <= keys[i]
    &&& forall|j: int| 0 <= j < i ==> keys[j] < keys[i]
}

/// The index of the first greatest item among the first `n` of `keys`.
pub open spec fn first_maximum_upto(keys: Seq<u64>, n: int) -> int
    decreases n,
{
    if n <= 1 {
        0
    } else {
        let best = first_maximum_upto(keys, n - 1);
        if keys[n - 1] > keys[best] {
            n - 1
        } else {
            best
        }
    }
}

/// The index of the first greatest item of `keys`, if there is any item.
pub open spec fn first_maximum(keys: Seq<u64>) -> Option<int> {
    if keys.len() == 0 {
        None
    } else {
        Some(first_maximum_upto(keys, keys.len() as int))
    }
}

proof fn lemma_first_maximum_upto(keys: Seq<u64>, n: int)
    requires
        1 <= n <= keys.len(),
    ensures
        is_first_maximum(keys.take(n), first_maximum_upto(keys, n)),
    decreases n,
{
    if n > 1 {
        lemma_first_maximum_upto(keys, n - 1);
        let best = first_maximum_upto(keys, n - 1);
        assert forall|j: int| 0 <= j < n - 1 implies keys.take(n)[j] == keys.take(n - 1)[j] by {}
        assert forall|j: int| 0 <= j < n - 1 implies keys[j] <= keys[best] by {
            assert(keys.take(n - 1)[j] <= keys.take(n - 1)[best]);
        }
        assert forall|j: int| 0 <= j < best implies keys[j] < keys[best] by {
            assert(keys.take(n - 1)[j] < keys.take(n - 1)[best]);
        }
    }
}

/// The selected index is the least index at which the greatest key stands:
/// no key is greater, and every key before it is less.
pub proof fn lemma_first_maximum(keys: Seq<u64>)
    ensures
        keys.len() == 0 <==> first_maximum(keys) is None,
        first_maximum(keys) is Some ==> is_first_maximum(keys, first_maximum(keys)->0),
        forall|i: int| is_first_maximum(keys, i) ==> first_maximum(keys) == Some(i),
{
    if keys.len() > 0 {
        lemma_first_maximum_upto(keys, keys.len() as int);
        assert(keys.take(keys.len() as int) =~= keys);
        let best = first_maximum(keys)->0;
        assert forall|i: int| is_first_maximum(keys, i) implies i == best by {
            if i < best {
                assert(keys[i] < keys[best]);
                assert(keys[best] <= keys[i]);
            } else if best < i {
                assert(keys[best] < keys[i]);
                assert(keys[i] <= keys[best]);
            }
        }
    }
}

/// The index of the first greatest key; none where there is no key.
pub fn argmax(keys: &Vec<u64>) -> (r: Option<usize>)
    ensures
        r is None <==> keys@.len() == 0,
        r is Some ==> is_first_maximum(keys@, r->0 as int),
        r is Some ==> first_maximum(keys@) == Some(r->0 as int),
        r is None ==> first_maximum(keys@) is None,
{
    if keys.len() == 0 {
        return None;
    }
    let mut best: usize = 0;
    let mut i: usize = 1;
    while i < keys.len()
        invariant
            1 <= i <= keys.len(),
            best < i,
            best as int == first_maximum_upto(keys@, i as int),
        decreases keys.len() - i,
    {
        if keys[i] > keys[best] {
            best = i;
        }
        i = i + 1;
    }
    proof {
        lemma_first_maximum(keys@);
    }
    Some(best)
}

/// Why an exchange with another server broke off.
#[derive(Debug)]
pub struct TransportFailure {
    /// The status that the failure carries, if it carries one.
    pub status: Option<StatusCode>,
    pub message: String,
}

/// The mathematical value of a [`TransportFailure`].
pub struct TransportFailureView {
    pub status: Option<u16>,
    pub message: Seq<char>,
}

impl View for TransportFailure {
    type V = TransportFailureView;

    open spec fn view(&self) -> TransportFailureView {
        TransportFailureView {
            status: match self.status {
                Some(s) => Some(s@),
                None => None,
            },
            message: self.message@,
        }
    }
}

impl TransportFailureView {
    /// The error that stands for the failure.
    pub open spec fn error(self) -> GatewayApiErrorView {
        match self.status {
            Some(s) => GatewayApiErrorView::ClientError {
                status: s,
                message: self.message,
                error_type: "http_client_error"@,
            },
            None => GatewayApiErrorView::Infrastructure(self.message),
        }
    }
}

impl TransportFailure {
    /// The error that stands for the failure.
    pub fn to_error(&self) -> (r: GatewayApiError)
        ensures
            r@ == self@.error(),
    {
        GatewayApiError::from_transport_failure(self.status, self.message.as_str())
    }
}

/// How the call of the classifier ended.
#[derive(Debug)]
pub enum ClassifierReply {
    /// The classifier could not be reached.
    Unreachable,
    /// The classifier answered; its body was read, or reading it failed.
    Response { status: StatusCode, body: Result<Vec<u8>, TransportFailure> },
}

/// The mathematical value of a [`ClassifierReply`].
pub enum ClassifierReplyView {
    Unreachable,
    Response { status: u16, body: Result<Seq<u8>, TransportFailureView> },
}

impl View for ClassifierReply {
    type V = ClassifierReplyView;

    open spec fn view(&self) -> ClassifierReplyView {
        match self {
            ClassifierReply::Unreachable => ClassifierReplyView::Unreachable,
            ClassifierReply::Response { status, body } => ClassifierReplyView::Response {
                status: status@,
                body: match body {
                    Ok(b) => Ok(b@),
                    Err(f) => Err(f@),
                },
            },
        }
    }
}

/// An error of the classifier with a status and a message.
pub open spec fn classifier_error(status_code: u16, message: Seq<char>) -> GatewayApiErrorView {
    GatewayApiErrorView::TritonServiceError { status_code, message }
}

/// The error for a reply that cannot be read.
pub open spec fn invalid_reply(reason: Seq<char>) -> GatewayApiErrorView {
    classifier_error(500, "Invalid Triton response: "@ + reason)
}

/// The numbers of a list of JSON values, if every one of them is a number.
pub open spec fn numbers_of(items: Seq<JsonValue>) -> Option<Seq<serde_json::Number>> {
    if forall|i: int| 0 <= i < items.len() ==> (#[trigger] items[i]) is Number {
        Some(Seq::new(items.len(), |i: int| items[i]->Number_0))
    } else {
        None
    }
}

/// The scores of a reply: the numbers of `outputs[0].data`. Nothing else of
/// the reply is read: one without `model_name`, `model_version` or
/// `parameters`, or with further tensors of any shape, gives its scores all
/// the same. [`Output::from_json`] is for a caller that wants the whole
/// reply.
pub open spec fn scores_of(body: JsonValue) -> Result<Seq<serde_json::Number>, GatewayApiErrorView> {
    match body.get("outputs"@) {
        Some(JsonValue::Array(outputs)) => if outputs.len() == 0 {
            Err(classifier_error(500, "No outputs returned from the Triton response"@))
        } else {
            match outputs[0].get("data"@) {
                Some(JsonValue::Array(data)) => match numbers_of(data) {
                    Some(numbers) => Ok(numbers),
                    None => Err(invalid_reply("invalid type in `data`"@)),
                },
                _ => Err(invalid_reply("missing field `data`"@)),
            }
        },
        _ => Err(invalid_reply("missing field `outputs`"@)),
    }
}

/// The keys of a list of scores.
pub open spec fn score_keys(numbers: Seq<serde_json::Number>) -> Seq<u64> {
    Seq::new(numbers.len(), |i: int| score_key(numbers[i]))
}

/// The LLM that a list of keys selects among `llm_count` LLMs: the first
/// with the greatest key. There must be a key, and one key for each LLM.
pub open spec fn selection(llm_count: nat, keys: Seq<u64>) -> Result<int, GatewayApiErrorView> {
    if keys.len() == 0 {
        Err(
            classifier_error(
                500,
                "Could not determine model selection from probability distribution"@,
            ),
        )
    } else if keys.len() != llm_count {
        Err(
            classifier_error(
                500,
                "Classifier returned "@ + decimal(keys.len()) + " scores for "@ + decimal(llm_count)
                    + " models"@,
            ),
        )
    } else {
        Ok(first_maximum(keys)->0)
    }
}

/// The choice that a parsed reply makes.
pub open spec fn choice_from_parsed(
    llm_count: nat,
    parsed: Result<JsonValue, Seq<char>>,
) -> Result<int, GatewayApiErrorView> {
    match parsed {
        Err(e) => Err(invalid_reply(e)),
        Ok(body) => match scores_of(body) {
            Err(e) => Err(e),
            Ok(numbers) => selection(llm_count, score_keys(numbers)),
        },
    }
}

/// The choice that the body of a successful reply makes.
pub open spec fn choice_from_body(llm_count: nat, body: Seq<u8>) -> Result<
    int,
    GatewayApiErrorView,
> {
    if vstd::utf8::valid_utf8(body) {
        choice_from_parsed(llm_count, json_of_text(vstd::utf8::decode_utf8(body)))
    } else {
        Err(invalid_reply("response body is not UTF-8"@))
    }
}

/// The choice that a reply of the classifier makes among the LLMs of a
/// policy: an index into them, or the error that says why there is none.
pub open spec fn choice(policy: PolicyView, reply: ClassifierReplyView) -> Result<
    int,
    GatewayApiErrorView,
> {
    match reply {
        ClassifierReplyView::Unreachable => Err(
            classifier_error(503, "Triton server is unreachable"@),
        ),
        ClassifierReplyView::Response { status, body } => if 200 <= status <= 299 {
            match body {
                Ok(bytes) => choice_from_body(policy.llms.len(), bytes),
                Err(failure) => Err(invalid_reply(failure.message)),
            }
        } else {
            match body {
                Ok(bytes) => Err(
                    classifier_error(
                        mirrored_status(status),
                        "Triton service error: "@ + text_of(bytes),
                    ),
                ),
                Err(failure) => Err(failure.error()),
            }
        },
    }
}

fn invalid(reason: &str) -> (r: GatewayApiError)
    ensures
        r@ == invalid_reply(reason@),
{
    GatewayApiError::TritonServiceError {
        status_code: 500,
        message: joined("Invalid Triton response: ", reason),
    }
}

/// Reads the scores of a reply: the numbers of `outputs[0].data`, whatever
/// else the reply holds or lacks.
pub fn scores_from_json(body: &Json) -> (r: Result<Vec<serde_json::Number>, GatewayApiError>)
    ensures
        match r {
            Ok(numbers) => scores_of(body@) == Ok::<Seq<serde_json::Number>, GatewayApiErrorView>(
                numbers@,
            ),
            Err(e) => scores_of(body@) == Err::<Seq<serde_json::Number>, GatewayApiErrorView>(e@),
        },
{
    let outputs = match body.get("outputs") {
        Some(member) => match member.as_array() {
            Some(items) => items,
            None => {
                return Err(invalid("missing field `outputs`"));
            },
        },
        None => {
            return Err(invalid("missing field `outputs`"));
        },
    };
    if outputs.len() == 0 {
        return Err(
            GatewayApiError::TritonServiceError {
                status_code: 500,
                message: "No outputs returned from the Triton response".to_owned(),
            },
        );
    }
    let ghost outputs_seq = items_seq(outputs@);
    assert(outputs_seq[0] == outputs@[0]@);
    let data = match outputs[0].get("data") {
        Some(member) => match member.as_array() {
            Some(items) => items,
            None => {
                return Err(invalid("missing field `data`"));
            },
        },
        None => {
            return Err(invalid("missing field `data`"));
        },
    };
    match numbers_from(data) {
        Some(numbers) => Ok(numbers),
        None => Err(invalid("invalid type in `data`")),
    }
}

/// The keys by which the scores are compared.
pub fn keys_of(numbers: &Vec<serde_json::Number>) -> (r: Vec<u64>)
    ensures
        r@ == score_keys(numbers@),
{
    let mut keys: Vec<u64> = Vec::new();
    let mut i: usize = 0;
    while i < numbers.len()
        invariant
            i <= numbers.len(),
            keys@.len() == i,
            forall|k: int| 0 <= k < i ==> keys@[k] == score_key(numbers@[k]),
        decreases numbers.len() - i,
    {
        keys.push(order_key_of(float_bits(&numbers[i])));
        i = i + 1;
    }
    assert(keys@ =~= score_keys(numbers@));
    keys
}

/// Selects among `llm_count` LLMs by a list of keys, one for each: the first
/// LLM with the greatest key.
pub fn select(llm_count: usize, keys: &Vec<u64>) -> (r: Result<usize, GatewayApiError>)
    ensures
        match r {
            Ok(index) => selection(llm_count as nat, keys@) == Ok::<int, GatewayApiErrorView>(
                index as int,
            ) && index < llm_count && is_first_maximum(keys@, index as int),
            Err(e) => selection(llm_count as nat, keys@) == Err::<int, GatewayApiErrorView>(e@),
        },
{
    match argmax(keys) {
        None => Err(
            GatewayApiError::TritonServiceError {
                status_code: 500,
                message: "Could not determine model selection from probability distribution".to_owned(),
            },
        ),
        Some(index) => {
            if keys.len() != llm_count {
                let mut message = String::from_str("Classifier returned ");
                push_decimal(&mut message, keys.len() as u64);
                message.append(" scores for ");
                push_decimal(&mut message, llm_count as u64);
                message.append(" models");
                Err(GatewayApiError::TritonServiceError { status_code: 500, message })
            } else {
                Ok(index)
            }
        },
    }
}

/// The choice that a parsed reply makes among the LLMs of a policy.
pub fn choose_from_parsed(policy: &Policy, parsed: Result<Json, String>) -> (r: Result<
    usize,
    GatewayApiError,
>)
    ensures
        match r {
            Ok(index) => choice_from_parsed(
                policy@.llms.len(),
                match parsed {
                    Ok(j) => Ok(j@),
                    Err(e) => Err(e@),
                },
            ) == Ok::<int, GatewayApiErrorView>(index as int) && index < policy.llms.len(),
            Err(e) => choice_from_parsed(
                policy@.llms.len(),
                match parsed {
                    Ok(j) => Ok(j@),
                    Err(e) => Err(e@),
                },
            ) == Err::<int, GatewayApiErrorView>(e@),
        },
{
    match parsed {
        Err(e) => Err(invalid(e.as_str())),
        Ok(body) => match scores_from_json(&body) {
            Err(e) => Err(e),
            Ok(numbers) => {
                let keys = keys_of(&numbers);
                select(policy.llms.len(), &keys)
            },
        },
    }
}

/// The choice that a reply of the classifier makes among the LLMs of a
/// policy.
pub fn choose_model(policy: &Policy, reply: &ClassifierReply) -> (r: Result<usize, GatewayApiError>)
    ensures
        match r {
            Ok(index) => choice(policy@, reply@) == Ok::<int, GatewayApiErrorView>(index as int)
                && index < policy.llms.len(),
            Err(e) => choice(policy@, reply@) == Err::<int, GatewayApiErrorView>(e@),
        },
{
    match reply {
        ClassifierReply::Unreachable => Err(
            GatewayApiError::TritonServiceError {
                status_code: 503,
                message: "Triton server is unreachable".to_owned(),
            },
        ),
        ClassifierReply::Response { status, body } => {
            if status.is_success() {
                match body {
                    Ok(bytes) => match utf8_strict(bytes.as_slice()) {
                        Some(text) => choose_from_parsed(policy, parse_json(text)),
                        None => Err(invalid("response body is not UTF-8")),
                    },
                    Err(failure) => Err(invalid(failure.message.as_str())),
                }
            } else {
                match body {
                    Ok(bytes) => {
                        let status_code = StatusCode::mirrored(status.as_u16()).as_u16();
                        let text = utf8_lossy(bytes.as_slice());
                        Err(
                            GatewayApiError::TritonServiceError {
                                status_code,
                                message: joined("Triton service error: ", text.as_str()),
                            },
                        )
                    },
                    Err(failure) => Err(failure.to_error()),
                }
            }
        },
    }
}

/// The mathematical value of a [`InferOutputTensor`].
#[verifier::ext_equal]
pub struct InferOutputTensorView {
    pub name: Seq<char>,
    pub datatype: Seq<char>,
    pub shape: Seq<i64>,
    pub data: Seq<serde_json::Number>,
}

impl View for InferOutputTensor {
    type V = InferOutputTensorView;

    open spec fn view(&self) -> InferOutputTensorView {
        InferOutputTensorView {
            name: self.name@,
            datatype: self.datatype@,
            shape: self.shape@,
            data: self.data@,
        }
    }
}

/// The mathematical value of a [`Output`].
#[verifier::ext_equal]
pub struct OutputView {
    pub model_name: Seq<char>,
    pub model_version: Seq<char>,
    pub parameters: Parameters,
    pub outputs: Seq<InferOutputTensorView>,
}

impl View for Output {
    type V = OutputView;

    open spec fn view(&self) -> OutputView {
        OutputView {
            model_name: self.model_name@,
            model_version: self.model_version@,
            parameters: self.parameters,
            outputs: self.outputs@.map_values(|t: InferOutputTensor| t@),
        }
    }
}

/// The whole numbers of a list of JSON values, if every one of them is a
/// whole number from `i64::MIN` to `i64::MAX`.
pub open spec fn integers_of(items: Seq<JsonValue>) -> Option<Seq<i64>> {
    if forall|i: int| 0 <= i < items.len() ==> (#[trigger] items[i]).as_i64() is Some {
        Some(Seq::new(items.len(), |i: int| items[i].as_i64()->0))
    } else {
        None
    }
}

/// The parameters that a JSON value spells out: an object with the whole
/// number `sequence_id` and the booleans `sequence_start` and `sequence_end`.
pub open spec fn decode_parameters(v: JsonValue) -> Option<Parameters> {
    match (v.get("sequence_id"@), v.get("sequence_start"@), v.get("sequence_end"@)) {
        (Some(id), Some(JsonValue::Bool(sequence_start)), Some(JsonValue::Bool(sequence_end))) => {
            match id.as_i64() {
                Some(sequence_id) => Some(Parameters { sequence_id, sequence_start, sequence_end }),
                None => None,
            }
        },
        _ => None,
    }
}

/// The output tensor that a JSON value spells out: an object with the
/// strings `name` and `datatype`, the array of whole numbers `shape` and the
/// array of numbers `data`.
pub open spec fn decode_tensor(v: JsonValue) -> Option<InferOutputTensorView> {
    match (v.get("name"@), v.get("datatype"@), v.get("shape"@), v.get("data"@)) {
        (
            Some(JsonValue::Str(name)),
            Some(JsonValue::Str(datatype)),
            Some(JsonValue::Array(shape)),
            Some(JsonValue::Array(data)),
        ) => match (integers_of(shape), numbers_of(data)) {
            (Some(shape), Some(data)) => Some(InferOutputTensorView { name, datatype, shape, data }),
            _ => None,
        },
        _ => None,
    }
}

/// The output tensors of a list of JSON values, if every one of them spells
/// out a tensor.
pub open spec fn decode_tensors(items: Seq<JsonValue>) -> Option<Seq<InferOutputTensorView>> {
    if forall|i: int| 0 <= i < items.len() ==> decode_tensor(#[trigger] items[i]) is Some {
        Some(Seq::new(items.len(), |i: int| decode_tensor(items[i])->0))
    } else {
        None
    }
}

/// The reply that a JSON value spells out: an object with the strings
/// `model_name` and `model_version`, the object `parameters` and the array
/// of tensors `outputs`.
pub open spec fn decode_output(v: JsonValue) -> Option<OutputView> {
    match (v.get("model_name"@), v.get("model_version"@), v.get("parameters"@), v.get("outputs"@)) {
        (
            Some(JsonValue::Str(model_name)),
            Some(JsonValue::Str(model_version)),
            Some(parameters),
            Some(JsonValue::Array(outputs)),
        ) => match (decode_parameters(parameters), decode_tensors(outputs)) {
            (Some(parameters), Some(outputs)) => Some(
                OutputView { model_name, model_version, parameters, outputs },
            ),
            _ => None,
        },
        _ => None,
    }
}

/// The parameters as a JSON object.
pub open spec fn parameters_json(p: Parameters) -> JsonValue {
    JsonValue::empty_object().set("sequence_id"@, JsonValue::from_i64(p.sequence_id)).set(
        "sequence_start"@,
        JsonValue::Bool(p.sequence_start),
    ).set("sequence_end"@, JsonValue::Bool(p.sequence_end))
}

/// An output tensor as a JSON object.
pub open spec fn output_tensor_json(t: InferOutputTensorView) -> JsonValue {
    JsonValue::empty_object().set("name"@, JsonValue::Str(t.name)).set(
        "datatype"@,
        JsonValue::Str(t.datatype),
    ).set("shape"@, JsonValue::Array(Seq::new(t.shape.len(), |i: int| JsonValue::from_i64(t.shape[i])))).set(
        "data"@,
        JsonValue::Array(Seq::new(t.data.len(), |i: int| JsonValue::Number(t.data[i]))),
    )
}

/// An inference reply as JSON.
pub open spec fn output_json(o: OutputView) -> JsonValue {
    JsonValue::empty_object().set("model_name"@, JsonValue::Str(o.model_name)).set(
        "model_version"@,
        JsonValue::Str(o.model_version),
    ).set("parameters"@, parameters_json(o.parameters)).set(
        "outputs"@,
        JsonValue::Array(Seq::new(o.outputs.len(), |i: int| output_tensor_json(o.outputs[i]))),
    )
}

proof fn lemma_parameter_keys()
    ensures
        "sequence_id"@ != "sequence_start"@,
        "sequence_id"@ != "sequence_end"@,
        "sequence_start"@ != "sequence_end"@,
{
    reveal_strlit("sequence_id");
    reveal_strlit("sequence_start");
    reveal_strlit("sequence_end");
    assert("sequence_id"@.len() == 11);
    assert("sequence_start"@.len() == 14);
    assert("sequence_end"@.len() == 12);
}

proof fn lemma_tensor_keys()
    ensures
        "name"@ != "datatype"@,
        "name"@ != "shape"@,
        "name"@ != "data"@,
        "datatype"@ != "shape"@,
        "datatype"@ != "data"@,
        "shape"@ != "data"@,
{
    reveal_strlit("name");
    reveal_strlit("datatype");
    reveal_strlit("shape");
    reveal_strlit("data");
    assert("name"@.len() == 4);
    assert("datatype"@.len() == 8);
    assert("shape"@.len() == 5);
    assert("data"@.len() == 4);
    assert("name"@[0] == 'n');
    assert("data"@[0] == 'd');
}

proof fn lemma_output_keys()
    ensures
        "model_name"@ != "model_version"@,
        "model_name"@ != "parameters"@,
        "model_name"@ != "outputs"@,
        "model_version"@ != "parameters"@,
        "model_version"@ != "outputs"@,
        "parameters"@ != "outputs"@,
{
    reveal_strlit("model_name");
    reveal_strlit("model_version");
    reveal_strlit("parameters");
    reveal_strlit("outputs");
    assert("model_name"@.len() == 10);
    assert("model_version"@.len() == 13);
    assert("parameters"@.len() == 10);
    assert("outputs"@.len() == 7);
    assert("model_name"@[0] == 'm');
    assert("parameters"@[0] == 'p');
}

fn text_member(v: &Json, key: &str) -> (r: Option<String>)
    ensures
        r is Some <==> v@.get(key@) is Some && v@.get(key@)->0 is Str,
        r is Some ==> r->0@ == v@.get(key@)->0->Str_0,
{
    match v.get(key) {
        Some(member) => match member.as_str() {
            Some(s) => Some(s.to_owned()),
            None => None,
        },
        None => None,
    }
}

fn bool_member(v: &Json, key: &str) -> (r: Option<bool>)
    ensures
        r is Some <==> v@.get(key@) is Some && v@.get(key@)->0 is Bool,
        r is Some ==> r->0 == v@.get(key@)->0->Bool_0,
{
    match v.get(key) {
        Some(member) => member.as_bool(),
        None => None,
    }
}

fn array_member<'a>(v: &'a Json, key: &str) -> (r: Option<&'a Vec<Json>>)
    ensures
        r is Some <==> v@.get(key@) is Some && v@.get(key@)->0 is Array,
        r is Some ==> items_seq(r->0@) == v@.get(key@)->0->Array_0,
{
    match v.get(key) {
        Some(member) => member.as_array(),
        None => None,
    }
}

fn integers_from(items: &Vec<Json>) -> (r: Option<Vec<i64>>)
    ensures
        r is Some == integers_of(items_seq(items@)) is Some,
        r is Some ==> r->0@ == integers_of(items_seq(items@))->0,
{
    let ghost values = items_seq(items@);
    let mut out: Vec<i64> = Vec::new();
    let mut i: usize = 0;
    while i < items.len()
        invariant
            i <= items.len(),
            values == items_seq(items@),
            out@.len() == i,
            forall|k: int| 0 <= k < i ==> (#[trigger] values[k]).as_i64() == Some(out@[k]),
        decreases items.len() - i,
    {
        match items[i].as_i64() {
            Some(n) => {
                out.push(n);
            },
            None => {
                assert(values[i as int].as_i64() is None);
                return None;
            },
        }
        i = i + 1;
    }
    assert(out@ =~= integers_of(values)->0);
    Some(out)
}

fn numbers_from(items: &Vec<Json>) -> (r: Option<Vec<serde_json::Number>>)
    ensures
        r is Some == numbers_of(items_seq(items@)) is Some,
        r is Some ==> r->0@ == numbers_of(items_seq(items@))->0,
{
    let ghost values = items_seq(items@);
    let mut out: Vec<serde_json::Number> = Vec::new();
    let mut i: usize = 0;
    while i < items.len()
        invariant
            i <= items.len(),
            values == items_seq(items@),
            out@.len() == i,
            forall|k: int|
                0 <= k < i ==> (#[trigger] values[k]) is Number && values[k]->Number_0 == out@[k],
        decreases items.len() - i,
    {
        match &items[i] {
            Json::Number(n) => {
                out.push(n.clone());
            },
            _ => {
                assert(!(values[i as int] is Number));
                return None;
            },
        }
        i = i + 1;
    }
    assert(out@ =~= numbers_of(values)->0);
    Some(out)
}

fn integers_to_json(items: &Vec<i64>) -> (r: Json)
    ensures
        r@ == JsonValue::Array(Seq::new(items@.len(), |i: int| JsonValue::from_i64(items@[i]))),
        forall|k: int| 0 <= k < items@.len() ==> (#[trigger] r@->Array_0[k]).as_i64() == Some(items@[k]),
{
    let mut out: Vec<Json> = Vec::new();
    let mut i: usize = 0;
    while i < items.len()
        invariant
            i <= items.len(),
            out@.len() == i,
            forall|k: int|
                0 <= k < i ==> (#[trigger] out@[k])@ == JsonValue::from_i64(items@[k])
                    && out@[k]@.as_i64() == Some(items@[k]),
        decreases items.len() - i,
    {
        out.push(Json::from_i64(items[i]));
        i = i + 1;
    }
    proof {
        lemma_array_view(out);
        assert(items_seq(out@) =~= Seq::new(
            items@.len(),
            |i: int| JsonValue::from_i64(items@[i]),
        ));
    }
    Json::Array(out)
}

impl Parameters {
    /// Reads the parameters that a JSON value spells out.
    pub fn from_json(v: &Json) -> (r: Option<Parameters>)
        ensures
            r == decode_parameters(v@),
    {
        let sequence_id = match v.get("sequence_id") {
            Some(member) => match member.as_i64() {
                Some(n) => n,
                None => {
                    return None;
                },
            },
            None => {
                return None;
            },
        };
        let sequence_start = match bool_member(v, "sequence_start") {
            Some(b) => b,
            None => {
                return None;
            },
        };
        let sequence_end = match bool_member(v, "sequence_end") {
            Some(b) => b,
            None => {
                return None;
            },
        };
        Some(Parameters { sequence_id, sequence_start, sequence_end })
    }

    /// The parameters as a JSON object, from which [`Parameters::from_json`]
    /// reads them back.
    pub fn to_json(&self) -> (r: Json)
        ensures
            r@ == parameters_json(*self),
            decode_parameters(r@) == Some(*self),
    {
        proof {
            lemma_parameter_keys();
        }
        Json::object().set("sequence_id", Json::from_i64(self.sequence_id)).set(
            "sequence_start",
            Json::Bool(self.sequence_start),
        ).set("sequence_end", Json::Bool(self.sequence_end))
    }
}

impl InferOutputTensor {
    /// Reads the tensor that a JSON value spells out.
    pub fn from_json(v: &Json) -> (r: Option<InferOutputTensor>)
        ensures
            r is Some == decode_tensor(v@) is Some,
            r is Some ==> r->0@ == decode_tensor(v@)->0,
    {
        let name = match text_member(v, "name") {
            Some(s) => s,
            None => {
                return None;
            },
        };
        let datatype = match text_member(v, "datatype") {
            Some(s) => s,
            None => {
                return None;
            },
        };
        let shape_items = match array_member(v, "shape") {
            Some(items) => items,
            None => {
                return None;
            },
        };
        let data_items = match array_member(v, "data") {
            Some(items) => items,
            None => {
                return None;
            },
        };
        let shape = match integers_from(shape_items) {
            Some(shape) => shape,
            None => {
                return None;
            },
        };
        let data = match numbers_from(data_items) {
            Some(data) => data,
            None => {
                return None;
            },
        };
        Some(InferOutputTensor { name, datatype, shape, data })
    }

    /// The tensor as a JSON object, from which
    /// [`InferOutputTensor::from_json`] reads it back.
    pub fn to_json(&self) -> (r: Json)
        ensures
            r@ == output_tensor_json(self@),
            decode_tensor(r@) == Some(self@),
    {
        let mut data: Vec<Json> = Vec::new();
        let mut i: usize = 0;
        while i < self.data.len()
            invariant
                i <= self.data.len(),
                data@.len() == i,
                forall|k: int| 0 <= k < i ==> (#[trigger] data@[k])@ == JsonValue::Number(self.data@[k]),
            decreases self.data.len() - i,
        {
            data.push(Json::Number(self.data[i].clone()));
            i = i + 1;
        }
        let shape = integers_to_json(&self.shape);
        proof {
            lemma_array_view(data);
            lemma_tensor_keys();
            let data_values = Seq::new(self@.data.len(), |i: int| JsonValue::Number(self@.data[i]));
            assert(items_seq(data@) =~= data_values);
            assert(numbers_of(data_values)->0 =~= self@.data);
            assert(integers_of(shape@->Array_0)->0 =~= self@.shape);
        }
        Json::object().set("name", Json::string(self.name.as_str())).set(
            "datatype",
            Json::string(self.datatype.as_str()),
        ).set("shape", shape).set("data", Json::Array(data))
    }
}

impl Output {
    /// Reads the reply that a JSON value spells out. A value that lacks one
    /// of the members, or holds another kind of value in one, spells out
    /// none.
    pub fn from_json(v: &Json) -> (r: Option<Output>)
        ensures
            r is Some == decode_output(v@) is Some,
            r is Some ==> r->0@ == decode_output(v@)->0,
    {
        let model_name = match text_member(v, "model_name") {
            Some(s) => s,
            None => {
                return None;
            },
        };
        let model_version = match text_member(v, "model_version") {
            Some(s) => s,
            None => {
                return None;
            },
        };
        let parameters_member = match v.get("parameters") {
            Some(member) => member,
            None => {
                return None;
            },
        };
        let items = match array_member(v, "outputs") {
            Some(items) => items,
            None => {
                return None;
            },
        };
        let parameters = match Parameters::from_json(parameters_member) {
            Some(p) => p,
            None => {
                return None;
            },
        };
        let ghost values = items_seq(items@);
        let mut outputs: Vec<InferOutputTensor> = Vec::new();
        let mut i: usize = 0;
        while i < items.len()
            invariant
                i <= items.len(),
                values == items_seq(items@),
                decode_output(v@) == (match decode_tensors(values) {
                    Some(outputs) => Some(
                        OutputView {
                            model_name: model_name@,
                            model_version: model_version@,
                            parameters,
                            outputs,
                        },
                    ),
                    None => None,
                }),
                outputs@.len() == i,
                forall|k: int|
                    0 <= k < i ==> decode_tensor(#[trigger] values[k]) == Some(outputs@[k]@),
            decreases items.len() - i,
        {
            match InferOutputTensor::from_json(&items[i]) {
                Some(t) => {
                    outputs.push(t);
                },
                None => {
                    assert(decode_tensor(values[i as int]) is None);
                    return None;
                },
            }
            i = i + 1;
        }
        let r = Output { model_name, model_version, parameters, outputs };
        assert(r@.outputs =~= decode_tensors(values)->0);
        Some(r)
    }

    /// The reply as a JSON object, from which [`Output::from_json`] reads it
    /// back.
    pub fn to_json(&self) -> (r: Json)
        ensures
            r@ == output_json(self@),
            decode_output(r@) == Some(self@),
    {
        let mut outputs: Vec<Json> = Vec::new();
        let mut i: usize = 0;
        while i < self.outputs.len()
            invariant
                i <= self.outputs.len(),
                outputs@.len() == i,
                forall|k: int|
                    0 <= k < i ==> (#[trigger] outputs@[k])@ == output_tensor_json(self.outputs@[k]@)
                        && decode_tensor(outputs@[k]@) == Some(self.outputs@[k]@),
            decreases self.outputs.len() - i,
        {
            outputs.push(self.outputs[i].to_json());
            i = i + 1;
        }
        let parameters = self.parameters.to_json();
        proof {
            lemma_array_view(outputs);
            lemma_output_keys();
            let values = Seq::new(
                self@.outputs.len(),
                |i: int| output_tensor_json(self@.outputs[i]),
            );
            assert(items_seq(outputs@) =~= values);
            assert(decode_tensors(values)->0 =~= self@.outputs);
        }
        Json::object().set("model_name", Json::string(self.model_name.as_str())).set(
            "model_version",
            Json::string(self.model_version.as_str()),
        ).set("parameters", parameters).set("outputs", Json::Array(outputs))
    }
}

} // verus!
