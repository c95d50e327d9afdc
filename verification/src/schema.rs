//! How a tool describes the arguments it takes.

use crate::decimal::{decimal, push_decimal};
use crate::json::{Json, JsonValue};
use crate::text::{from_chars, string_of};
use vstd::prelude::*;

verus! {

/// The kind of an argument.
#[derive(Debug, Clone, Copy, PartialEq, Eq)]
pub enum ParamKind {
    Text,
    Integer,
    Number,
    Flag,
}

/// What an argument is taken to be where none is given.
#[derive(Debug, Clone)]
pub enum ParamDefault {
    Nothing,
    Natural(u64),
    Flag(bool),
    /// A number, as its numeral.
    Numeral(String),
}

/// One argument of a tool.
#[derive(Debug, Clone)]
pub struct ParamSpec {
    pub name: String,
    pub kind: ParamKind,
    pub description: String,
    pub required: bool,
    pub default: ParamDefault,
}

/// A tool as it is offered to a model or a client.
#[derive(Debug, Clone)]
pub struct ToolSpec {
    pub name: String,
    pub description: String,
    pub parameters: Vec<ParamSpec>,
    /// Whether the description names the required arguments even where there
    /// are none.
    pub lists_required: bool,
}

/// The name of a kind in a description.
pub open spec fn kind_name(kind: ParamKind) -> Seq<char> {
    match kind {
        ParamKind::Text => "string"@,
        ParamKind::Integer => "integer"@,
        ParamKind::Number => "number"@,
        ParamKind::Flag => "boolean"@,
    }
}

/// A default as a JSON value, where there is one.
pub open spec fn default_value(d: ParamDefault) -> Option<JsonValue> {
    match d {
        ParamDefault::Nothing => None,
        ParamDefault::Natural(n) => Some(JsonValue::Number(decimal(n as nat))),
        ParamDefault::Flag(b) => Some(JsonValue::Bool(b)),
        ParamDefault::Numeral(s) => Some(JsonValue::Number(s@)),
    }
}

/// The description of one argument: its kind, what it is, and its default
/// where it has one.
pub open spec fn property(p: ParamSpec) -> JsonValue {
    let base = seq![
        ("type"@, JsonValue::Text(kind_name(p.kind))),
        ("description"@, JsonValue::Text(p.description@)),
    ];
    match default_value(p.default) {
        Some(d) => JsonValue::Object(base.push(("default"@, d))),
        None => JsonValue::Object(base),
    }
}

/// The descriptions of the arguments, by name.
pub open spec fn properties(params: Seq<ParamSpec>) -> Seq<(Seq<char>, JsonValue)> {
    Seq::new(params.len(), |i: int| (params[i].name@, property(params[i])))
}

/// The names of the arguments that are required, in order.
pub open spec fn required_names(params: Seq<ParamSpec>) -> Seq<JsonValue>
    decreases params.len(),
{
    if params.len() == 0 {
        Seq::<JsonValue>::empty()
    } else if params.last().required {
        required_names(params.drop_last()).push(JsonValue::Text(params.last().name@))
    } else {
        required_names(params.drop_last())
    }
}

/// The description of the arguments of a tool: an object with the
/// descriptions of its arguments and, where any is required or the tool says
/// so, the names of the required ones.
pub open spec fn schema(tool: ToolSpec) -> JsonValue {
    let base = seq![
        ("type"@, JsonValue::Text("object"@)),
        ("properties"@, JsonValue::Object(properties(tool.parameters@))),
    ];
    if tool.lists_required || required_names(tool.parameters@).len() > 0 {
        JsonValue::Object(
            base.push(("required"@, JsonValue::Array(required_names(tool.parameters@)))),
        )
    } else {
        JsonValue::Object(base)
    }
}

fn text_json(s: &str) -> (j: Json)
    ensures
        j@ == JsonValue::Text(s@),
{
    Json::Text(string_of(s))
}

fn default_json(d: &ParamDefault) -> (r: Option<Json>)
    ensures
        r is Some <==> default_value(*d) is Some,
        r matches Some(j) ==> default_value(*d) == Some(j@),
{
    match d {
        ParamDefault::Nothing => None,
        ParamDefault::Natural(n) => {
            let mut m: Vec<char> = Vec::new();
            push_decimal(&mut m, *n);
            assert(Seq::<char>::empty() + decimal(*n as nat) == decimal(*n as nat));
            Some(Json::Number(from_chars(&m)))
        },
        ParamDefault::Flag(b) => Some(Json::Bool(*b)),
        ParamDefault::Numeral(s) => Some(Json::Number(s.clone())),
    }
}

fn kind_text(kind: ParamKind) -> (out: String)
    ensures
        out@ == kind_name(kind),
{
    match kind {
        ParamKind::Text => string_of("string"),
        ParamKind::Integer => string_of("integer"),
        ParamKind::Number => string_of("number"),
        ParamKind::Flag => string_of("boolean"),
    }
}

fn property_json(p: &ParamSpec) -> (j: Json)
    ensures
        j@ == property(*p),
{
    let mut members: Vec<(String, Json)> = Vec::new();
    members.push((string_of("type"), Json::Text(kind_text(p.kind))));
    members.push((string_of("description"), Json::Text(p.description.clone())));
    match default_json(&p.default) {
        Some(d) => {
            members.push((string_of("default"), d));
        },
        None => {},
    }
    let j = Json::Object(members);
    proof {
        reveal_with_fuel(Json::view, 2);
        assert(j@->Object_0 =~= property(*p)->Object_0);
    }
    j
}

impl ParamSpec {
    /// An argument that has to be given.
    pub fn required(name: &str, kind: ParamKind, description: &str) -> (p: ParamSpec)
        ensures
            p.name@ == name@,
            p.kind == kind,
            p.description@ == description@,
            p.required,
            p.default is Nothing,
    {
        ParamSpec {
            name: string_of(name),
            kind,
            description: string_of(description),
            required: true,
            default: ParamDefault::Nothing,
        }
    }

    /// An argument that may be left out.
    pub fn optional(name: &str, kind: ParamKind, description: &str, default: ParamDefault) -> (p:
        ParamSpec)
        ensures
            p.name@ == name@,
            p.kind == kind,
            p.description@ == description@,
            !p.required,
            p.default == default,
    {
        ParamSpec {
            name: string_of(name),
            kind,
            description: string_of(description),
            required: false,
            default,
        }
    }
}

impl ToolSpec {
    /// The description of the arguments of the tool, as JSON.
    pub fn input_schema(&self) -> (j: Json)
        ensures
            j@ == schema(*self),
    {
        let mut props: Vec<(String, Json)> = Vec::new();
        let mut required: Vec<Json> = Vec::new();
        let mut i: usize = 0;
        assert(self.parameters@.take(0) == Seq::<ParamSpec>::empty());
        while i < self.parameters.len()
            invariant
                i <= self.parameters.len(),
                props@.len() == i,
                forall|k: int|
                    0 <= k < i ==> (#[trigger] props@[k]).0@ == self.parameters@[k].name@
                        && props@[k].1@ == property(self.parameters@[k]),
                required@.len() == required_names(self.parameters@.take(i as int)).len(),
                forall|k: int|
                    0 <= k < required@.len() ==> (#[trigger] required@[k])@ == required_names(
                        self.parameters@.take(i as int),
                    )[k],
            decreases self.parameters.len() - i,
        {
            let p = &self.parameters[i];
            assert(self.parameters@.take(i + 1).drop_last() == self.parameters@.take(i as int));
            assert(self.parameters@.take(i + 1).last() == *p);
            props.push((p.name.clone(), property_json(p)));
            if p.required {
                required.push(text_json(p.name.as_str()));
            }
            i = i + 1;
        }
        assert(self.parameters@.take(self.parameters.len() as int) == self.parameters@);
        let with_required = self.lists_required || required.len() > 0;
        let properties_json = Json::Object(props);
        let required_json = Json::Array(required);
        proof {
            reveal_with_fuel(Json::view, 2);
            assert(properties_json@->Object_0 =~= properties(self.parameters@));
            assert(required_json@->Array_0 =~= required_names(self.parameters@));
        }
        let mut members: Vec<(String, Json)> = Vec::new();
        members.push((string_of("type"), text_json("object")));
        members.push((string_of("properties"), properties_json));
        if with_required {
            members.push((string_of("required"), required_json));
        }
        let j = Json::Object(members);
        proof {
            assert(j@->Object_0 =~= schema(*self)->Object_0);
        }
        j
    }
}

/// The names and kinds of arguments, and whether they are required.
pub open spec fn signature(params: Seq<ParamSpec>) -> Seq<(Seq<char>, ParamKind, bool)> {
    Seq::new(params.len(), |i: int| (params[i].name@, params[i].kind, params[i].required))
}

/// The tools by name, each with the signature of its arguments.
pub open spec fn outline(tools: Seq<ToolSpec>) -> Seq<(Seq<char>, Seq<(Seq<char>, ParamKind, bool)>)> {
    Seq::new(tools.len(), |i: int| (tools[i].name@, signature(tools[i].parameters@)))
}

} // verus!
