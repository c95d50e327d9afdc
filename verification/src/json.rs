//! JSON values as the pipeline reads them: what a model, a tool or a client
//! sent, taken apart by name and kind.

use crate::decimal::{all_digits, digits_value, parse_thousandths, parse_u64, thousandths};
use crate::text::{str_eq, to_chars};
use vstd::prelude::*;

verus! {

/// A JSON value. A number is held as its numeral, so that nothing is lost of
/// it; an object as its members in order.
#[derive(Debug)]
pub enum Json {
    Null,
    Bool(bool),
    Number(String),
    Text(String),
    Array(Vec<Json>),
    Object(Vec<(String, Json)>),
}

/// What a `Json` holds, as a mathematical value.
pub enum JsonValue {
    Null,
    Bool(bool),
    Number(Seq<char>),
    Text(Seq<char>),
    Array(Seq<JsonValue>),
    Object(Seq<(Seq<char>, JsonValue)>),
}

#[verifier::external_type_specification]
#[verifier::external_body]
pub struct ExternalJsonValue(serde_json::Value);

#[verifier::external_type_specification]
#[verifier::external_body]
pub struct ExternalJsonError(serde_json::Error);

/// The value that a text denotes as JSON, if it is JSON.
pub uninterp spec fn json_of_text(text: Seq<char>) -> Option<JsonValue>;

impl Json {
    pub open spec fn view(&self) -> JsonValue
        decreases self,
    {
        match self {
            Json::Null => JsonValue::Null,
            Json::Bool(b) => JsonValue::Bool(*b),
            Json::Number(n) => JsonValue::Number(n@),
            Json::Text(s) => JsonValue::Text(s@),
            Json::Array(items) => JsonValue::Array(
                Seq::new(
                    items@.len(),
                    |i: int|
                        if 0 <= i < items@.len() {
                            items@[i].view()
                        } else {
                            JsonValue::Null
                        },
                ),
            ),
            Json::Object(members) => JsonValue::Object(
                Seq::new(
                    members@.len(),
                    |i: int|
                        if 0 <= i < members@.len() {
                            (members@[i].0@, members@[i].1.view())
                        } else {
                            (Seq::<char>::empty(), JsonValue::Null)
                        },
                ),
            ),
        }
    }
}

/// The value of the first member called `key`.
pub open spec fn member(members: Seq<(Seq<char>, JsonValue)>, key: Seq<char>) -> Option<
    JsonValue,
>
    decreases members.len(),
{
    if members.len() == 0 {
        None
    } else if members[0].0 == key {
        Some(members[0].1)
    } else {
        member(members.skip(1), key)
    }
}

impl JsonValue {
    /// The member `key` of an object; `None` for anything else.
    pub open spec fn field(self, key: Seq<char>) -> Option<JsonValue> {
        match self {
            JsonValue::Object(members) => member(members, key),
            _ => None,
        }
    }

    /// The text of a string value.
    pub open spec fn text(self) -> Option<Seq<char>> {
        match self {
            JsonValue::Text(s) => Some(s),
            _ => None,
        }
    }

    /// The truth value of `true` and `false`.
    pub open spec fn boolean(self) -> Option<bool> {
        match self {
            JsonValue::Bool(b) => Some(b),
            _ => None,
        }
    }

    /// The items of an array.
    pub open spec fn items(self) -> Option<Seq<JsonValue>> {
        match self {
            JsonValue::Array(items) => Some(items),
            _ => None,
        }
    }

    /// The value of a number written as plain digits, where it fits 64 bits.
    pub open spec fn natural(self) -> Option<nat> {
        match self {
            JsonValue::Number(n) => if n.len() > 0 && all_digits(n) && digits_value(n)
                <= u64::MAX {
                Some(digits_value(n))
            } else {
                None
            },
            _ => None,
        }
    }

    /// A number of seconds as milliseconds, cut off below the millisecond.
    pub open spec fn millis(self) -> Option<nat> {
        match self {
            JsonValue::Number(n) => thousandths(n),
            _ => None,
        }
    }

    /// The text of member `key`, where that member is a string.
    pub open spec fn text_field(self, key: Seq<char>) -> Option<Seq<char>> {
        match self.field(key) {
            Some(v) => v.text(),
            None => None,
        }
    }

    /// The value of member `key`, where that member is a number in plain digits.
    pub open spec fn natural_field(self, key: Seq<char>) -> Option<nat> {
        match self.field(key) {
            Some(v) => v.natural(),
            None => None,
        }
    }

    /// The milliseconds of member `key`, where that member is a number.
    pub open spec fn millis_field(self, key: Seq<char>) -> Option<nat> {
        match self.field(key) {
            Some(v) => v.millis(),
            None => None,
        }
    }

    /// The truth value of member `key`, where that member is `true` or `false`.
    pub open spec fn boolean_field(self, key: Seq<char>) -> Option<bool> {
        match self.field(key) {
            Some(v) => v.boolean(),
            None => None,
        }
    }
}

/// Turns a `serde_json::Value` into a `Json`, variant by variant: a number
/// becomes the numeral that `serde_json` prints for it, an object its members
/// in the order in which `serde_json` walks them.
#[verifier::external_body]
fn json_from_value(v: &serde_json::Value) -> Json {
    match v {
        serde_json::Value::Null => Json::Null,
        serde_json::Value::Bool(b) => Json::Bool(*b),
        serde_json::Value::Number(n) => Json::Number(n.to_string()),
        serde_json::Value::String(s) => Json::Text(s.clone()),
        serde_json::Value::Array(a) => Json::Array(a.iter().map(json_from_value).collect()),
        serde_json::Value::Object(o) => Json::Object(
            o.iter().map(|(k, x)| (k.clone(), json_from_value(x))).collect(),
        ),
    }
}

/// `serde_json::from_str` at `serde_json::Value`: whether a text is JSON, and
/// the value it then denotes, depend on the text alone. Nothing is said of
/// which texts are JSON.
#[verifier::external_body]
fn read_json(text: &str) -> (r: Result<Json, serde_json::Error>)
    ensures
        r is Ok <==> json_of_text(text@) is Some,
        r matches Ok(j) ==> json_of_text(text@) == Some(j@),
{
    match serde_json::from_str::<serde_json::Value>(text) {
        Ok(v) => Ok(json_from_value(&v)),
        Err(e) => Err(e),
    }
}

/// The text that `serde_json` writes for a value, with line breaks and
/// indentation.
pub uninterp spec fn text_of_json(value: JsonValue) -> Seq<char>;

/// Turns a `Json` into a `serde_json::Value`, variant by variant: a number is
/// read from its numeral by `serde_json`, and is `null` where that is no
/// number; the members of an object are handed over in order.
#[verifier::external_body]
fn value_from_json(j: &Json) -> serde_json::Value {
    match j {
        Json::Null => serde_json::Value::Null,
        Json::Bool(b) => serde_json::Value::Bool(*b),
        Json::Number(n) => n.parse().map(serde_json::Value::Number).unwrap_or_default(),
        Json::Text(s) => serde_json::Value::String(s.clone()),
        Json::Array(a) => serde_json::Value::Array(a.iter().map(value_from_json).collect()),
        Json::Object(o) => serde_json::Value::Object(
            o.iter().map(|(k, x)| (k.clone(), value_from_json(x))).collect(),
        ),
    }
}

/// `serde_json::to_string_pretty` at `serde_json::Value`: the text depends on
/// the value alone. Should `serde_json` fail, the text is empty.
#[verifier::external_body]
fn pretty_text(j: &Json) -> (out: String)
    ensures
        out@ == text_of_json(j@),
{
    serde_json::to_string_pretty(&value_from_json(j)).unwrap_or_default()
}

/// The text of a value, with line breaks and indentation.
pub fn write_json(j: &Json) -> (out: String)
    ensures
        out@ == text_of_json(j@),
{
    pretty_text(j)
}

/// The message of a `serde_json::Error`, as its `Display` gives it.
#[verifier::external_body]
fn json_error_message(e: &serde_json::Error) -> String {
    e.to_string()
}

/// Reads a text as JSON. The error is the reader's own message.
pub fn parse_json(text: &str) -> (r: Result<Json, String>)
    ensures
        r is Ok <==> json_of_text(text@) is Some,
        r matches Ok(j) ==> json_of_text(text@) == Some(j@),
{
    match read_json(text) {
        Ok(j) => Ok(j),
        Err(e) => Err(json_error_message(&e)),
    }
}

impl Json {
    /// A copy that holds the same.
    pub fn duplicate(&self) -> (out: Json)
        ensures
            out@ == self@,
        decreases self,
    {
        match self {
            Json::Null => Json::Null,
            Json::Bool(b) => Json::Bool(*b),
            Json::Number(n) => Json::Number(n.clone()),
            Json::Text(s) => Json::Text(s.clone()),
            Json::Array(items) => {
                let mut copies: Vec<Json> = Vec::new();
                let mut i: usize = 0;
                while i < items.len()
                    invariant
                        i <= items.len(),
                        *self == Json::Array(*items),
                        copies@.len() == i,
                        forall|k: int| 0 <= k < i ==> (#[trigger] copies@[k])@ == items@[k]@,
                    decreases items.len() - i,
                {
                    proof {
                        assert(self matches Json::Array(v) && v == items);
                        assert(decreases_to!(*self => items@[i as int]));
                    }
                    copies.push(items[i].duplicate());
                    i = i + 1;
                }
                let out = Json::Array(copies);
                assert(out@->Array_0 =~= self@->Array_0);
                out
            },
            Json::Object(members) => {
                let mut copies: Vec<(String, Json)> = Vec::new();
                let mut i: usize = 0;
                while i < members.len()
                    invariant
                        i <= members.len(),
                        *self == Json::Object(*members),
                        copies@.len() == i,
                        forall|k: int|
                            0 <= k < i ==> (#[trigger] copies@[k]).0@ == members@[k].0@
                                && copies@[k].1@ == members@[k].1@,
                    decreases members.len() - i,
                {
                    proof {
                        assert(self matches Json::Object(v) && v == members);
                        assert(decreases_to!(*self => members@[i as int].1));
                    }
                    copies.push((members[i].0.clone(), members[i].1.duplicate()));
                    i = i + 1;
                }
                let out = Json::Object(copies);
                assert(out@->Object_0 =~= self@->Object_0);
                out
            },
        }
    }

    /// The member called `key`, if this is an object that has one.
    pub fn get(&self, key: &str) -> (r: Option<&Json>)
        ensures
            r is Some <==> self@.field(key@) is Some,
            r matches Some(j) ==> self@.field(key@) == Some(j@),
    {
        match self {
            Json::Object(members) => {
                let ghost all = self@->Object_0;
                let mut i: usize = 0;
                assert(all.skip(0) == all);
                while i < members.len()
                    invariant
                        i <= members.len(),
                        self@ == JsonValue::Object(all),
                        *self == Json::Object(*members),
                        member(all, key@) == member(all.skip(i as int), key@),
                    decreases members.len() - i,
                {
                    assert(all.skip(i as int)[0] == all[i as int]);
                    assert(all.skip(i as int).skip(1) == all.skip(i + 1));
                    if str_eq(members[i].0.as_str(), key) {
                        return Some(&members[i].1);
                    }
                    i = i + 1;
                }
                None
            },
            _ => None,
        }
    }

    pub fn as_str(&self) -> (r: Option<&String>)
        ensures
            r is Some <==> self@.text() is Some,
            r matches Some(s) ==> self@.text() == Some(s@),
    {
        match self {
            Json::Text(s) => Some(s),
            _ => None,
        }
    }

    pub fn as_bool(&self) -> (r: Option<bool>)
        ensures
            r == self@.boolean(),
    {
        match self {
            Json::Bool(b) => Some(*b),
            _ => None,
        }
    }

    pub fn as_array(&self) -> (r: Option<&Vec<Json>>)
        ensures
            r is Some <==> self@.items() is Some,
            r matches Some(v) ==> self@ == JsonValue::Array(v@.map_values(|j: Json| j@)),
    {
        match self {
            Json::Array(items) => {
                assert(self@->Array_0 == items@.map_values(|j: Json| j@));
                Some(items)
            },
            _ => None,
        }
    }

    pub fn as_u64(&self) -> (r: Option<u64>)
        ensures
            r is Some <==> self@.natural() is Some,
            r matches Some(v) ==> self@.natural() == Some(v as nat),
    {
        match self {
            Json::Number(n) => {
                let digits = to_chars(n.as_str());
                parse_u64(&digits)
            },
            _ => None,
        }
    }

    pub fn as_millis(&self) -> (r: Option<u64>)
        ensures
            r is Some <==> self@.millis() is Some,
            r matches Some(v) ==> self@.millis() == Some(v as nat),
    {
        match self {
            Json::Number(n) => {
                let digits = to_chars(n.as_str());
                parse_thousandths(&digits)
            },
            _ => None,
        }
    }

    /// The text of member `key`.
    pub fn str_field(&self, key: &str) -> (r: Option<String>)
        ensures
            r is Some <==> self@.text_field(key@) is Some,
            r matches Some(s) ==> self@.text_field(key@) == Some(s@),
    {
        match self.get(key) {
            Some(v) => match v.as_str() {
                Some(s) => Some(s.clone()),
                None => None,
            },
            None => None,
        }
    }

    /// The natural number of member `key`.
    pub fn u64_field(&self, key: &str) -> (r: Option<u64>)
        ensures
            r is Some <==> self@.natural_field(key@) is Some,
            r matches Some(v) ==> self@.natural_field(key@) == Some(v as nat),
    {
        match self.get(key) {
            Some(v) => v.as_u64(),
            None => None,
        }
    }

    /// The milliseconds of member `key`.
    pub fn millis_field(&self, key: &str) -> (r: Option<u64>)
        ensures
            r is Some <==> self@.millis_field(key@) is Some,
            r matches Some(v) ==> self@.millis_field(key@) == Some(v as nat),
    {
        match self.get(key) {
            Some(v) => v.as_millis(),
            None => None,
        }
    }

    /// The truth value of member `key`.
    pub fn bool_field(&self, key: &str) -> (r: Option<bool>)
        ensures
            r == self@.boolean_field(key@),
    {
        match self.get(key) {
            Some(v) => v.as_bool(),
            None => None,
        }
    }
}

} // verus!
