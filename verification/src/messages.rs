//! The chat messages of a request body.
use crate::json::Json;
use crate::json::JsonValue;
use crate::json::items_seq;
use crate::json::json_text;
use crate::json::lemma_array_view;
use crate::text::shorten_string;
use crate::text::tail;
use vstd::prelude::*;

verus! {

/// One chat message.
#[derive(Debug)]
pub struct Message {
    pub role: String,
    pub content: String,
}

/// The mathematical value of a [`Message`].
pub struct MessageView {
    pub role: Seq<char>,
    pub content: Seq<char>,
}

impl View for Message {
    type V = MessageView;

    open spec fn view(&self) -> MessageView {
        MessageView { role: self.role@, content: self.content@ }
    }
}

/// The values of a list of messages.
pub open spec fn messages_view(messages: Seq<Message>) -> Seq<MessageView> {
    messages.map_values(|m: Message| m@)
}

/// The message that a JSON value spells out: an object with the strings
/// `role` and `content`.
pub open spec fn decode_message(v: JsonValue) -> Option<MessageView> {
    match (v.get("role"@), v.get("content"@)) {
        (Some(JsonValue::Str(role)), Some(JsonValue::Str(content))) => Some(
            MessageView { role, content },
        ),
        _ => None,
    }
}

/// The messages that a list of JSON values spells out, if every one of them
/// spells out a message.
pub open spec fn decode_messages(items: Seq<JsonValue>) -> Option<Seq<MessageView>> {
    if forall|i: int| 0 <= i < items.len() ==> decode_message(#[trigger] items[i]) is Some {
        Some(Seq::new(items.len(), |i: int| decode_message(items[i])->0))
    } else {
        None
    }
}

/// The messages of a request body: its member `messages`, where that is an
/// array of messages.
pub open spec fn messages_of(body: JsonValue) -> Option<Seq<MessageView>> {
    match body.get("messages"@) {
        Some(JsonValue::Array(items)) => decode_messages(items),
        _ => None,
    }
}

fn message_from(v: &Json) -> (r: Option<Message>)
    ensures
        r is Some == decode_message(v@) is Some,
        r is Some ==> r->0@ == decode_message(v@)->0,
{
    let role = match v.get("role") {
        Some(member) => match member.as_str() {
            Some(s) => s.to_owned(),
            None => {
                return None;
            },
        },
        None => {
            return None;
        },
    };
    let content = match v.get("content") {
        Some(member) => match member.as_str() {
            Some(s) => s.to_owned(),
            None => {
                return None;
            },
        },
        None => {
            return None;
        },
    };
    Some(Message { role, content })
}

/// Reads the messages of a request body. A body without an array `messages`,
/// or with an item in it that is no message, has none.
pub fn extract_messages(value: &Json) -> (r: Option<Vec<Message>>)
    ensures
        r is Some == messages_of(value@) is Some,
        r is Some ==> messages_view(r->0@) == messages_of(value@)->0,
{
    let items = match value.get("messages") {
        Some(member) => match member.as_array() {
            Some(items) => items,
            None => {
                return None;
            },
        },
        None => {
            return None;
        },
    };
    let ghost values = items_seq(items@);
    let mut out: Vec<Message> = Vec::new();
    let mut i: usize = 0;
    while i < items.len()
        invariant
            i <= items.len(),
            values == items_seq(items@),
            messages_of(value@) == decode_messages(values),
            out@.len() == i,
            forall|k: int| 0 <= k < i ==> decode_message(#[trigger] values[k]) == Some(out@[k]@),
        decreases items.len() - i,
    {
        match message_from(&items[i]) {
            Some(m) => {
                out.push(m);
            },
            None => {
                assert(decode_message(values[i as int]) is None);
                return None;
            },
        }
        i = i + 1;
    }
    assert(messages_view(out@) =~= decode_messages(values)->0);
    Some(out)
}

/// The content of the last message, or the empty text where there is none.
pub open spec fn last_content(messages: Seq<MessageView>) -> Seq<char> {
    if messages.len() == 0 {
        Seq::empty()
    } else {
        messages.last().content
    }
}

/// The text that the classifier is asked about: the content of the last
/// message, or the empty text where there is no message.
pub fn get_last_message_for_triton(messages: &Vec<Message>) -> (r: String)
    ensures
        r@ == last_content(messages_view(messages@)),
{
    if messages.len() == 0 {
        String::new()
    } else {
        messages[messages.len() - 1].content.clone()
    }
}

/// A message as a JSON object.
pub open spec fn message_json(m: MessageView) -> JsonValue {
    JsonValue::empty_object().set("role"@, JsonValue::Str(m.role)).set(
        "content"@,
        JsonValue::Str(m.content),
    )
}

/// A list of messages as a JSON array.
pub open spec fn messages_json(messages: Seq<MessageView>) -> JsonValue {
    JsonValue::Array(Seq::new(messages.len(), |i: int| message_json(messages[i])))
}

/// The messages as a JSON array of objects.
pub fn messages_to_json(messages: &Vec<Message>) -> (r: Json)
    ensures
        r@ == messages_json(messages_view(messages@)),
{
    let mut items: Vec<Json> = Vec::new();
    let mut i: usize = 0;
    while i < messages.len()
        invariant
            i <= messages.len(),
            items@.len() == i,
            forall|k: int| 0 <= k < i ==> (#[trigger] items@[k])@ == message_json(messages@[k]@),
        decreases messages.len() - i,
    {
        let m = &messages[i];
        items.push(
            Json::object().set("role", Json::string(m.role.as_str())).set(
                "content",
                Json::string(m.content.as_str()),
            ),
        );
        i = i + 1;
    }
    proof {
        lemma_array_view(items);
        assert(items_seq(items@) =~= messages_json(messages_view(messages@))->Array_0);
    }
    Json::Array(items)
}

/// How many bytes of the messages' text are kept for the log.
pub const TEXT_INPUT_LIMIT: usize = 2000;

/// The text of the messages for the log: their JSON text, of which the last
/// 2000 bytes are kept.
pub fn convert_messages_to_text_input(messages: &Vec<Message>) -> (r: Vec<u8>)
    ensures
        r@ == tail(
            crate::response::text_bytes(json_text(messages_json(messages_view(messages@)))),
            2000,
        ),
{
    let text = messages_to_json(messages).to_text();
    shorten_string(text.as_str(), TEXT_INPUT_LIMIT)
}

} // verus!
