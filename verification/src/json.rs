//! JSON values: the tree this library works on, its mathematical value, and
//! the parser and printer of `serde_json` behind it.
use crate::text::str_eq;
use vstd::prelude::*;

verus! {

/// `serde_json::Number`, a JSON number, of which nothing is seen here.
#[verifier::external_type_specification]
#[verifier::external_body]
pub struct ExNumber(serde_json::Number);

/// `serde_json::Value`, a JSON value, of which nothing is seen here.
#[verifier::external_type_specification]
#[verifier::external_body]
pub struct ExValue(serde_json::Value);

/// One member of a JSON object.
#[derive(Debug)]
pub struct Member {
    pub key: String,
    pub value: Json,
}

/// A JSON value. A number is held as `serde_json` holds it. In an object, of
/// several members with one key only the last counts.
#[derive(Debug)]
pub enum Json {
    Null,
    Bool(bool),
    Number(serde_json::Number),
    Str(String),
    Array(Vec<Json>),
    Object(Vec<Member>),
}

/// The mathematical value of a [`Json`]: an object is a finite map.
#[verifier::ext_equal]
pub enum JsonValue {
    Null,
    Bool(bool),
    Number(serde_json::Number),
    Str(Seq<char>),
    Array(Seq<JsonValue>),
    Object(Map<Seq<char>, JsonValue>),
}

/// The index of the last member of `members` whose key is `key`, or -1.
pub open spec fn last_index_of_key(members: Seq<Member>, key: Seq<char>) -> int
    decreases members.len(),
{
    if members.len() == 0 {
        -1
    } else if members.last().key@ == key {
        members.len() - 1
    } else {
        last_index_of_key(members.drop_last(), key)
    }
}

proof fn lemma_last_index_of_key(members: Seq<Member>, key: Seq<char>)
    ensures
        -1 <= last_index_of_key(members, key) < members.len(),
        last_index_of_key(members, key) >= 0 ==> members[last_index_of_key(members, key)].key@
            == key,
        forall|i: int|
            last_index_of_key(members, key) < i < members.len() ==> (#[trigger] members[i]).key@
                != key,
    decreases members.len(),
{
    if members.len() > 0 && members.last().key@ != key {
        lemma_last_index_of_key(members.drop_last(), key);
        assert forall|i: int|
            last_index_of_key(members, key) < i < members.len() implies (#[trigger] members[i]).key@
            != key by {
            if i < members.len() - 1 {
                assert(members.drop_last()[i] == members[i]);
            }
        }
    }
}

impl View for Json {
    type V = JsonValue;

    open spec fn view(&self) -> JsonValue
        decreases self,
    {
        match self {
            Json::Null => JsonValue::Null,
            Json::Bool(b) => JsonValue::Bool(*b),
            Json::Number(n) => JsonValue::Number(*n),
            Json::Str(s) => JsonValue::Str(s@),
            Json::Array(items) => JsonValue::Array(
                Seq::new(
                    items@.len(),
                    |i: int|
                        if 0 <= i < items@.len() {
                            items@[i]@
                        } else {
                            JsonValue::Null
                        },
                ),
            ),
            Json::Object(members) => JsonValue::Object(
                Map::new(
                    |k: Seq<char>| last_index_of_key(members@, k) >= 0,
                    |k: Seq<char>|
                        {
                            let i = last_index_of_key(members@, k);
                            if 0 <= i < members@.len() {
                                members@[i].value@
                            } else {
                                JsonValue::Null
                            }
                        },
                ),
            ),
        }
    }
}

impl JsonValue {
    /// The member `key` of an object.
    pub open spec fn get(self, key: Seq<char>) -> Option<JsonValue> {
        match self {
            JsonValue::Object(m) => if m.dom().contains(key) {
                Some(m[key])
            } else {
                None
            },
            _ => None,
        }
    }

    /// An object without its member `key`; any other value as it is.
    pub open spec fn remove(self, key: Seq<char>) -> JsonValue {
        match self {
            JsonValue::Object(m) => JsonValue::Object(m.remove(key)),
            _ => self,
        }
    }

    /// An object with its member `key` set to `value`; any other value as it is.
    pub open spec fn set(self, key: Seq<char>, value: JsonValue) -> JsonValue {
        match self {
            JsonValue::Object(m) => JsonValue::Object(m.insert(key, value)),
            _ => self,
        }
    }

    /// The object without members.
    pub open spec fn empty_object() -> JsonValue {
        JsonValue::Object(Map::empty())
    }
}

/// The finite map that a list of members stands for.
pub open spec fn members_map(members: Seq<Member>) -> Map<Seq<char>, JsonValue> {
    Map::new(
        |k: Seq<char>| last_index_of_key(members, k) >= 0,
        |k: Seq<char>|
            {
                let i = last_index_of_key(members, k);
                if 0 <= i < members.len() {
                    members[i].value@
                } else {
                    JsonValue::Null
                }
            },
    )
}

/// The values of a list of items.
pub open spec fn items_seq(items: Seq<Json>) -> Seq<JsonValue> {
    Seq::new(items.len(), |i: int| items[i]@)
}

proof fn lemma_object_view(members: Vec<Member>)
    ensures
        Json::Object(members)@ == JsonValue::Object(members_map(members@)),
{
    let a = Json::Object(members)@->Object_0;
    let b = members_map(members@);
    assert(a =~= b);
}

/// The value of an array is the list of the values of its items.
pub proof fn lemma_array_view(items: Vec<Json>)
    ensures
        Json::Array(items)@ == JsonValue::Array(items_seq(items@)),
{
    let a = Json::Array(items)@->Array_0;
    let b = items_seq(items@);
    assert(a =~= b);
}

proof fn lemma_members_map_empty()
    ensures
        members_map(Seq::empty()) == Map::<Seq<char>, JsonValue>::empty(),
{
    assert(members_map(Seq::empty()) =~= Map::<Seq<char>, JsonValue>::empty());
}

/// A member added at the end sets its key.
proof fn lemma_members_map_push(members: Seq<Member>, m: Member)
    ensures
        members_map(members.push(m)) == members_map(members).insert(m.key@, m.value@),
{
    let a = members_map(members.push(m));
    let b = members_map(members).insert(m.key@, m.value@);
    assert(members.push(m).drop_last() == members);
    assert forall|k: Seq<char>| a.dom().contains(k) == b.dom().contains(k) by {
        lemma_last_index_of_key(members, k);
    }
    assert forall|k: Seq<char>| a.dom().contains(k) implies a[k] == b[k] by {
        lemma_last_index_of_key(members, k);
    }
    assert(a =~= b);
}

/// `serde_json::Number::clone` hands back the same number.
pub assume_specification[ <serde_json::Number as Clone>::clone ](n: &serde_json::Number) -> (r:
    serde_json::Number)
    ensures
        r == *n,
;

impl Clone for Json {
    fn clone(&self) -> (r: Json)
        ensures
            r@ == self@,
        decreases self,
    {
        match self {
            Json::Null => Json::Null,
            Json::Bool(b) => Json::Bool(*b),
            Json::Number(n) => Json::Number(n.clone()),
            Json::Str(s) => Json::Str(s.clone()),
            Json::Array(items) => {
                let mut out: Vec<Json> = Vec::new();
                let mut i: usize = 0;
                while i < items.len()
                    invariant
                        i <= items.len(),
                        out@.len() == i,
                        *self == Json::Array(*items),
                        forall|k: int| 0 <= k < i ==> out@[k]@ == items@[k]@,
                    decreases items.len() - i,
                {
                    proof {
                        assert(self->Array_0 == *items);
                        assert(decreases_to!(*self => self->Array_0));
                        assert(decreases_to!(*items => items[i as int]));
                    }
                    out.push(items[i].clone());
                    i = i + 1;
                }
                proof {
                    lemma_array_view(out);
                    lemma_array_view(*items);
                    assert(items_seq(out@) =~= items_seq(items@));
                }
                Json::Array(out)
            },
            Json::Object(members) => {
                let mut out: Vec<Member> = Vec::new();
                let mut i: usize = 0;
                proof {
                    assert(members@.take(0) =~= Seq::<Member>::empty());
                    lemma_members_map_empty();
                }
                while i < members.len()
                    invariant
                        i <= members.len(),
                        *self == Json::Object(*members),
                        members_map(out@) == members_map(members@.take(i as int)),
                    decreases members.len() - i,
                {
                    proof {
                        assert(self->Object_0 == *members);
                        assert(decreases_to!(*self => self->Object_0));
                        assert(decreases_to!(*members => members[i as int]));
                        assert(decreases_to!(members[i as int] => members[i as int].value));
                    }
                    let m = Member { key: members[i].key.clone(), value: members[i].value.clone() };
                    proof {
                        lemma_members_map_push(out@, m);
                        lemma_members_map_push(members@.take(i as int), members@[i as int]);
                        assert(members@.take(i as int).push(members@[i as int]) =~= members@.take(
                            i + 1,
                        ));
                    }
                    out.push(m);
                    i = i + 1;
                }
                proof {
                    assert(members@.take(members.len() as int) =~= members@);
                    lemma_object_view(out);
                    lemma_object_view(*members);
                }
                Json::Object(out)
            },
        }
    }
}

/// What `serde_json::Number::as_u64` gives for a number: the number itself
/// where it is a whole number from 0 to `u64::MAX`.
pub uninterp spec fn number_as_u64(n: serde_json::Number) -> Option<u64>;

/// The number that `serde_json::Number::from` makes of an unsigned integer.
pub uninterp spec fn number_of_u64(u: u64) -> serde_json::Number;

/// The number that `serde_json::Number::from` makes of a signed integer.
pub uninterp spec fn number_of_i64(i: i64) -> serde_json::Number;

/// What `serde_json::Number::as_i64` gives for a number: the number itself
/// where it is a whole number from `i64::MIN` to `i64::MAX`.
pub uninterp spec fn number_as_i64(n: serde_json::Number) -> Option<i64>;

/// `serde_json::Number::as_u64`: the value of a non-negative whole number.
pub assume_specification[ serde_json::Number::as_u64 ](n: &serde_json::Number) -> (r: Option<u64>)
    ensures
        r == number_as_u64(*n),
;

/// `serde_json::Number::as_i64`: the value of a whole number that fits.
pub assume_specification[ serde_json::Number::as_i64 ](n: &serde_json::Number) -> (r: Option<i64>)
    ensures
        r == number_as_i64(*n),
;

/// `serde_json::Number::from` on a `u64`: a number that `as_u64` reads back.
#[verifier::external_body]
fn number_from_u64(u: u64) -> (r: serde_json::Number)
    ensures
        r == number_of_u64(u),
        number_as_u64(r) == Some(u),
{
    serde_json::Number::from(u)
}

/// `serde_json::Number::from` on an `i64`: a number that `as_i64` reads back.
#[verifier::external_body]
fn number_from_i64(i: i64) -> (r: serde_json::Number)
    ensures
        r == number_of_i64(i),
        number_as_i64(r) == Some(i),
{
    serde_json::Number::from(i)
}

impl JsonValue {
    /// The text of a string.
    pub open spec fn as_str(self) -> Option<Seq<char>> {
        match self {
            JsonValue::Str(s) => Some(s),
            _ => None,
        }
    }

    /// The value of a boolean.
    pub open spec fn as_bool(self) -> Option<bool> {
        match self {
            JsonValue::Bool(b) => Some(b),
            _ => None,
        }
    }

    /// The value of a number that is a whole number from 0 to `u64::MAX`.
    pub open spec fn as_u64(self) -> Option<u64> {
        match self {
            JsonValue::Number(n) => number_as_u64(n),
            _ => None,
        }
    }

    /// The value of a number that is a whole number from `i64::MIN` to
    /// `i64::MAX`.
    pub open spec fn as_i64(self) -> Option<i64> {
        match self {
            JsonValue::Number(n) => number_as_i64(n),
            _ => None,
        }
    }

    /// The items of an array.
    pub open spec fn as_array(self) -> Option<Seq<JsonValue>> {
        match self {
            JsonValue::Array(items) => Some(items),
            _ => None,
        }
    }

    /// The number `u`.
    pub open spec fn from_u64(u: u64) -> JsonValue {
        JsonValue::Number(number_of_u64(u))
    }

    /// The number `i`.
    pub open spec fn from_i64(i: i64) -> JsonValue {
        JsonValue::Number(number_of_i64(i))
    }
}

impl Json {
    /// The JSON string `s`.
    pub fn string(s: &str) -> (r: Json)
        ensures
            r@ == JsonValue::Str(s@),
    {
        Json::Str(s.to_owned())
    }

    /// The JSON number `u`.
    pub fn from_u64(u: u64) -> (r: Json)
        ensures
            r@ == JsonValue::from_u64(u),
            r@.as_u64() == Some(u),
    {
        Json::Number(number_from_u64(u))
    }

    /// The JSON number `i`.
    pub fn from_i64(i: i64) -> (r: Json)
        ensures
            r@ == JsonValue::from_i64(i),
            r@.as_i64() == Some(i),
    {
        Json::Number(number_from_i64(i))
    }

    /// The JSON array of `items`.
    pub fn array(items: Vec<Json>) -> (r: Json)
        ensures
            r@ == JsonValue::Array(items_seq(items@)),
    {
        proof {
            lemma_array_view(items);
        }
        Json::Array(items)
    }

    /// The object without members.
    pub fn object() -> (r: Json)
        ensures
            r@ == JsonValue::empty_object(),
    {
        let members: Vec<Member> = Vec::new();
        proof {
            lemma_object_view(members);
            lemma_members_map_empty();
        }
        Json::Object(members)
    }

    /// The value is `null`.
    pub fn is_null(&self) -> (r: bool)
        ensures
            r == (self@ is Null),
    {
        match self {
            Json::Null => true,
            _ => false,
        }
    }

    /// The value is an object.
    pub fn is_object(&self) -> (r: bool)
        ensures
            r == (self@ is Object),
    {
        match self {
            Json::Object(_) => true,
            _ => false,
        }
    }

    /// The text of a JSON string.
    pub fn as_str(&self) -> (r: Option<&str>)
        ensures
            r is Some == self@.as_str() is Some,
            r is Some ==> r->0@ == self@.as_str()->0,
    {
        match self {
            Json::Str(s) => Some(s.as_str()),
            _ => None,
        }
    }

    /// The value of a JSON boolean.
    pub fn as_bool(&self) -> (r: Option<bool>)
        ensures
            r == self@.as_bool(),
    {
        match self {
            Json::Bool(b) => Some(*b),
            _ => None,
        }
    }

    /// The value of a JSON number that is a whole number from 0 to `u64::MAX`.
    pub fn as_u64(&self) -> (r: Option<u64>)
        ensures
            r == self@.as_u64(),
    {
        match self {
            Json::Number(n) => n.as_u64(),
            _ => None,
        }
    }

    /// The value of a JSON number that is a whole number from `i64::MIN` to
    /// `i64::MAX`.
    pub fn as_i64(&self) -> (r: Option<i64>)
        ensures
            r == self@.as_i64(),
    {
        match self {
            Json::Number(n) => n.as_i64(),
            _ => None,
        }
    }

    /// The items of a JSON array.
    pub fn as_array(&self) -> (r: Option<&Vec<Json>>)
        ensures
            r is Some == self@.as_array() is Some,
            r is Some ==> items_seq(r->0@) == self@.as_array()->0,
    {
        match self {
            Json::Array(items) => {
                proof {
                    lemma_array_view(*items);
                }
                Some(items)
            },
            _ => None,
        }
    }

    /// The member `key` of an object; `None` for a missing member and for
    /// any other value.
    pub fn get(&self, key: &str) -> (r: Option<&Json>)
        ensures
            r is Some == self@.get(key@) is Some,
            r is Some ==> r->0@ == self@.get(key@)->0,
    {
        match self {
            Json::Object(members) => {
                proof {
                    lemma_object_view(*members);
                    lemma_last_index_of_key(members@, key@);
                }
                let mut i: usize = members.len();
                while i > 0
                    invariant
                        i <= members.len(),
                        self@ == JsonValue::Object(members_map(members@)),
                        -1 <= last_index_of_key(members@, key@) < members.len(),
                        last_index_of_key(members@, key@) >= 0 ==> members@[last_index_of_key(
                            members@,
                            key@,
                        )].key@ == key@,
                        forall|j: int|
                            last_index_of_key(members@, key@) < j < members.len() ==> (
                            #[trigger] members@[j]).key@ != key@,
                        forall|j: int| i <= j < members.len() ==> (#[trigger] members@[j]).key@ != key@,
                    decreases i,
                {
                    i = i - 1;
                    if str_eq(members[i].key.as_str(), key) {
                        assert(last_index_of_key(members@, key@) == i);
                        return Some(&members[i].value);
                    }
                }
                None
            },
            _ => None,
        }
    }

    /// The object with `key` set to `value`. A value that is no object comes
    /// back as it is.
    pub fn set(self, key: &str, value: Json) -> (r: Json)
        ensures
            r@ == self@.set(key@, value@),
    {
        match self {
            Json::Object(members) => {
                let mut members = members;
                let m = Member { key: key.to_owned(), value };
                proof {
                    lemma_object_view(members);
                    lemma_members_map_push(members@, m);
                }
                members.push(m);
                proof {
                    lemma_object_view(members);
                }
                Json::Object(members)
            },
            other => other,
        }
    }

    /// The object without its member `key`. A value that is no object comes
    /// back as it is.
    pub fn remove(self, key: &str) -> (r: Json)
        ensures
            r@ == self@.remove(key@),
    {
        match self {
            Json::Object(members) => {
                let ghost all = members@;
                proof {
                    lemma_object_view(members);
                    lemma_members_map_empty();
                }
                let mut out: Vec<Member> = Vec::new();
                proof {
                    assert(all.take(0) =~= Seq::<Member>::empty());
                }
                for m in it: members
                    invariant
                        it.seq() == all,
                        members_map(out@) == members_map(all.take(it.index())).remove(key@),
                {
                    proof {
                        let done = all.take(it.index());
                        assert(m == all[it.index()]);
                        lemma_members_map_push(done, m);
                        lemma_members_map_push(out@, m);
                        assert(done.push(m) =~= all.take(it.index() + 1));
                        if m.key@ == key@ {
                            assert(members_map(done.push(m)).remove(key@) =~= members_map(
                                done,
                            ).remove(key@));
                        } else {
                            assert(members_map(out@.push(m)) =~= members_map(done.push(m)).remove(
                                key@,
                            ));
                        }
                    }
                    if !str_eq(m.key.as_str(), key) {
                        out.push(m);
                    }
                }
                proof {
                    assert(all.take(all.len() as int) =~= all);
                }
                proof {
                    lemma_object_view(out);
                }
                Json::Object(out)
            },
            other => other,
        }
    }
}

/// The JSON value that a `serde_json::Value` holds.
pub uninterp spec fn value_model(v: serde_json::Value) -> JsonValue;

/// What `serde_json::from_str` makes of a text: the value it reads, or the
/// message of the error it reports.
pub uninterp spec fn json_of_text(text: Seq<char>) -> Result<JsonValue, Seq<char>>;

/// The compact text that `serde_json::to_string` writes for a value.
pub uninterp spec fn json_text(value: JsonValue) -> Seq<char>;

/// `serde_json::from_str` into a `serde_json::Value`; an error is handed back
/// as its message.
#[verifier::external_body]
fn parse_value(text: &str) -> (r: Result<serde_json::Value, String>)
    ensures
        match r {
            Ok(v) => json_of_text(text@) == Ok::<JsonValue, Seq<char>>(value_model(v)),
            Err(e) => json_of_text(text@) == Err::<JsonValue, Seq<char>>(e@),
        },
{
    serde_json::from_str::<serde_json::Value>(text).map_err(|e| e.to_string())
}

/// `serde_json::to_string` on a `serde_json::Value`, which cannot fail.
#[verifier::external_body]
fn print_value(v: &serde_json::Value) -> (r: String)
    ensures
        r@ == json_text(value_model(*v)),
{
    serde_json::to_string(v).unwrap_or_default()
}

/// Copies a `serde_json::Value` into a [`Json`], variant by variant, so that
/// the result holds what the value holds. The members of an object come in
/// the order in which `serde_json::Map::iter` hands them out, each key once.
#[verifier::external_body]
fn from_value(v: &serde_json::Value) -> (r: Json)
    ensures
        r@ == value_model(*v),
{
    match v {
        serde_json::Value::Null => Json::Null,
        serde_json::Value::Bool(b) => Json::Bool(*b),
        serde_json::Value::Number(n) => Json::Number(n.clone()),
        serde_json::Value::String(s) => Json::Str(s.clone()),
        serde_json::Value::Array(a) => Json::Array(a.iter().map(from_value).collect()),
        serde_json::Value::Object(m) => Json::Object(
            m.iter().map(|(k, v)| Member { key: k.clone(), value: from_value(v) }).collect(),
        ),
    }
}

/// Copies a [`Json`] into a `serde_json::Value`, variant by variant, so that
/// the result holds what the value holds. The members of an object go in
/// through `serde_json::Map::insert`, in order, which keeps the last of
/// several with one key.
#[verifier::external_body]
fn to_value(j: &Json) -> (r: serde_json::Value)
    ensures
        value_model(r) == j@,
{
    match j {
        Json::Null => serde_json::Value::Null,
        Json::Bool(b) => serde_json::Value::Bool(*b),
        Json::Number(n) => serde_json::Value::Number(n.clone()),
        Json::Str(s) => serde_json::Value::String(s.clone()),
        Json::Array(a) => serde_json::Value::Array(a.iter().map(to_value).collect()),
        Json::Object(m) => {
            let mut map = serde_json::Map::new();
            for e in m {
                map.insert(e.key.clone(), to_value(&e.value));
            }
            serde_json::Value::Object(map)
        },
    }
}

/// Reads a JSON text. The error is the parser's message.
pub fn parse_json(text: &str) -> (r: Result<Json, String>)
    ensures
        match r {
            Ok(j) => json_of_text(text@) == Ok::<JsonValue, Seq<char>>(j@),
            Err(e) => json_of_text(text@) == Err::<JsonValue, Seq<char>>(e@),
        },
{
    match parse_value(text) {
        Ok(v) => Ok(from_value(&v)),
        Err(e) => Err(e),
    }
}

impl Json {
    /// The compact JSON text of the value.
    pub fn to_text(&self) -> (r: String)
        ensures
            r@ == json_text(self@),
    {
        let v = to_value(self);
        print_value(&v)
    }
}

} // verus!
