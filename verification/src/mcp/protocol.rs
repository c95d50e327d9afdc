//! The messages of the protocol, and how they are written as JSON.

use crate::decimal::{decimal, push_decimal};
use crate::json::{Json, JsonValue};
use crate::text::{from_chars, string_of};
use vstd::prelude::*;

verus! {

/// The codes of the errors that the server answers with.
pub const PARSE_ERROR: i32 = -32700;

pub const METHOD_NOT_FOUND: i32 = -32601;

pub const INVALID_PARAMS: i32 = -32602;

pub const INIT_FAILED: i32 = -32000;

/// The version of the protocol that the server speaks.
pub const PROTOCOL_VERSION: &'static str = "2024-11-05";

/// A request of a client.
#[derive(Debug)]
pub struct JsonRpcRequest {
    pub jsonrpc: String,
    pub id: Option<Json>,
    pub method: String,
    pub params: Option<Json>,
}

/// What went wrong with a request.
#[derive(Debug)]
pub struct JsonRpcError {
    pub code: i32,
    pub message: String,
    pub data: Option<Json>,
}

/// The answer to a request: a result or an error.
#[derive(Debug)]
pub struct JsonRpcResponse {
    pub jsonrpc: String,
    pub id: Option<Json>,
    pub result: Option<Json>,
    pub error: Option<JsonRpcError>,
}

#[derive(Debug, Clone)]
pub struct ClientInfo {
    pub name: String,
    pub version: String,
}

#[derive(Debug, Clone, Copy, PartialEq, Eq)]
pub struct ToolsCapability {
    pub list_changed: bool,
}

#[derive(Debug, Clone, Copy, PartialEq, Eq)]
pub struct ServerCapabilities {
    pub tools: ToolsCapability,
}

#[derive(Debug, Clone)]
pub struct ServerInfo {
    pub name: String,
    pub version: String,
}

/// What the server answers when a client introduces itself.
#[derive(Debug, Clone)]
pub struct InitializeResult {
    pub protocol_version: String,
    pub capabilities: ServerCapabilities,
    pub server_info: ServerInfo,
}

/// A part of what a tool answered.
#[derive(Debug, Clone)]
pub enum ToolContent {
    Text { text: String },
}

/// What a tool answered, and whether it failed.
#[derive(Debug, Clone)]
pub struct ToolCallResult {
    pub content: Vec<ToolContent>,
    pub is_error: Option<bool>,
}

/// The call of a tool: its name and its arguments.
#[derive(Debug)]
pub struct ToolCallParams {
    pub name: String,
    pub arguments: Option<Json>,
}

/// The view of an optional JSON value.
pub open spec fn optional_json(j: Option<Json>) -> Option<JsonValue> {
    match j {
        Some(v) => Some(v@),
        None => None,
    }
}

/// The numeral of a whole number.
pub open spec fn signed_decimal(n: int) -> Seq<char> {
    if n < 0 {
        seq!['-'] + decimal((-n) as nat)
    } else {
        decimal(n as nat)
    }
}

/// The request that a JSON value is: an object with the version of the
/// protocol and a method as texts; its identifier and its parameters are
/// those that it has, where they are not `null`.
pub open spec fn request_of(j: JsonValue) -> Option<(Seq<char>, Option<JsonValue>, Seq<char>, Option<JsonValue>)> {
    match (j.text_field("jsonrpc"@), j.text_field("method"@)) {
        (Some(version), Some(method)) => Some(
            (version, present(j.field("id"@)), method, present(j.field("params"@))),
        ),
        _ => None,
    }
}

/// A member that is there and is not `null`.
pub open spec fn present(member: Option<JsonValue>) -> Option<JsonValue> {
    match member {
        Some(JsonValue::Null) => None,
        Some(v) => Some(v),
        None => None,
    }
}

/// The call of a tool that a JSON value is: an object with a name as text;
/// its arguments are those that it has, where they are not `null`.
pub open spec fn call_of(j: JsonValue) -> Option<(Seq<char>, Option<JsonValue>)> {
    match j.text_field("name"@) {
        Some(name) => Some((name, present(j.field("arguments"@)))),
        None => None,
    }
}

/// One member, where there is a value for it.
pub open spec fn member_if(key: Seq<char>, value: Option<JsonValue>) -> Seq<(Seq<char>, JsonValue)> {
    match value {
        Some(v) => seq![(key, v)],
        None => Seq::<(Seq<char>, JsonValue)>::empty(),
    }
}

/// The members of an error: its code, its message and, where it has any,
/// its data.
pub open spec fn error_members(e: JsonRpcError) -> Seq<(Seq<char>, JsonValue)> {
    seq![
        ("code"@, JsonValue::Number(signed_decimal(e.code as int))),
        ("message"@, JsonValue::Text(e.message@)),
    ] + member_if("data"@, optional_json(e.data))
}

/// The members of an answer: the version of the protocol and, where it has
/// them, its identifier, its result and its error.
pub open spec fn response_members(r: JsonRpcResponse) -> Seq<(Seq<char>, JsonValue)> {
    seq![("jsonrpc"@, JsonValue::Text(r.jsonrpc@))] + member_if("id"@, optional_json(r.id))
        + member_if("result"@, optional_json(r.result)) + member_if(
        "error"@,
        match r.error {
            Some(e) => Some(JsonValue::Object(error_members(e))),
            None => None,
        },
    )
}

/// An answer as JSON.
pub open spec fn response_json(r: JsonRpcResponse) -> JsonValue {
    JsonValue::Object(response_members(r))
}

/// One part of what a tool answered, as JSON.
pub open spec fn part_json(part: ToolContent) -> JsonValue {
    match part {
        ToolContent::Text { text } => JsonValue::Object(
            seq![("type"@, JsonValue::Text("text"@)), ("text"@, JsonValue::Text(text@))],
        ),
    }
}

/// What a tool answered, as JSON: its parts, and whether it failed where
/// that is said.
pub open spec fn result_json(r: ToolCallResult) -> JsonValue {
    let content = (
        "content"@,
        JsonValue::Array(Seq::new(r.content@.len(), |i: int| part_json(r.content@[i]))),
    );
    match r.is_error {
        Some(flag) => JsonValue::Object(seq![content, ("isError"@, JsonValue::Bool(flag))]),
        None => JsonValue::Object(seq![content]),
    }
}

/// What the server answers to an introduction, as JSON.
pub open spec fn initialize_json(r: InitializeResult) -> JsonValue {
    JsonValue::Object(
        seq![
            ("protocolVersion"@, JsonValue::Text(r.protocol_version@)),
            (
                "capabilities"@,
                JsonValue::Object(
                    seq![
                        (
                            "tools"@,
                            JsonValue::Object(
                                seq![
                                    (
                                        "listChanged"@,
                                        JsonValue::Bool(r.capabilities.tools.list_changed),
                                    ),
                                ],
                            ),
                        ),
                    ],
                ),
            ),
            (
                "serverInfo"@,
                JsonValue::Object(
                    seq![
                        ("name"@, JsonValue::Text(r.server_info.name@)),
                        ("version"@, JsonValue::Text(r.server_info.version@)),
                    ],
                ),
            ),
        ],
    )
}

fn copy_present(member: Option<&Json>) -> (r: Option<Json>)
    ensures
        optional_json(r) == present(
            match member {
                Some(v) => Some(v@),
                None => None,
            },
        ),
{
    match member {
        Some(v) => match v {
            Json::Null => None,
            _ => Some(v.duplicate()),
        },
        None => None,
    }
}

/// A whole number as a JSON number.
pub fn number_json(n: i32) -> (j: Json)
    ensures
        j@ == JsonValue::Number(signed_decimal(n as int)),
{
    let mut m: Vec<char> = Vec::new();
    if n < 0 {
        m.push('-');
        push_decimal(&mut m, (-(n as i64)) as u64);
    } else {
        push_decimal(&mut m, n as u64);
        assert(Seq::<char>::empty() + decimal(n as nat) == decimal(n as nat));
    }
    Json::Number(from_chars(&m))
}

impl JsonRpcRequest {
    /// Reads a request.
    pub fn from_json(j: &Json) -> (r: Option<JsonRpcRequest>)
        ensures
            r is Some <==> request_of(j@) is Some,
            r matches Some(q) ==> request_of(j@) == Some(
                (q.jsonrpc@, optional_json(q.id), q.method@, optional_json(q.params)),
            ),
    {
        let jsonrpc = match j.str_field("jsonrpc") {
            Some(v) => v,
            None => {
                return None;
            },
        };
        let method = match j.str_field("method") {
            Some(m) => m,
            None => {
                return None;
            },
        };
        Some(
            JsonRpcRequest {
                jsonrpc,
                id: copy_present(j.get("id")),
                method,
                params: copy_present(j.get("params")),
            },
        )
    }
}

impl ToolCallParams {
    /// Reads the call of a tool.
    pub fn from_json(j: &Json) -> (r: Option<ToolCallParams>)
        ensures
            r is Some <==> call_of(j@) is Some,
            r matches Some(c) ==> call_of(j@) == Some((c.name@, optional_json(c.arguments))),
    {
        match j.str_field("name") {
            Some(name) => Some(ToolCallParams { name, arguments: copy_present(j.get("arguments")) }),
            None => None,
        }
    }
}

impl JsonRpcResponse {
    /// The answer that carries a result.
    pub fn success(id: Option<Json>, result: Json) -> (r: JsonRpcResponse)
        ensures
            r.jsonrpc@ == "2.0"@,
            r.id == id,
            r.result == Some(result),
            r.error is None,
    {
        JsonRpcResponse { jsonrpc: string_of("2.0"), id, result: Some(result), error: None }
    }

    /// The answer that carries an error.
    pub fn error(id: Option<Json>, code: i32, message: &str) -> (r: JsonRpcResponse)
        ensures
            r.jsonrpc@ == "2.0"@,
            r.id == id,
            r.result is None,
            r.error matches Some(e) && e.code == code && e.message@ == message@ && e.data is None,
    {
        JsonRpcResponse {
            jsonrpc: string_of("2.0"),
            id,
            result: None,
            error: Some(JsonRpcError { code, message: string_of(message), data: None }),
        }
    }

    /// The answer as JSON: the version of the protocol, and of identifier,
    /// result and error those that it has.
    pub fn to_json(self) -> (j: Json)
        ensures
            j@ == response_json(self),
    {
        proof {
            reveal_with_fuel(Json::view, 3);
        }
        let ghost wanted = response_members(self);
        let mut members: Vec<(String, Json)> = Vec::new();
        members.push((string_of("jsonrpc"), Json::Text(self.jsonrpc)));
        match self.id {
            Some(id) => {
                members.push((string_of("id"), id));
            },
            None => {},
        }
        match self.result {
            Some(result) => {
                members.push((string_of("result"), result));
            },
            None => {},
        }
        match self.error {
            Some(e) => {
                let ghost inner_wanted = error_members(e);
                let mut inner: Vec<(String, Json)> = Vec::new();
                inner.push((string_of("code"), number_json(e.code)));
                inner.push((string_of("message"), Json::Text(e.message)));
                match e.data {
                    Some(d) => {
                        inner.push((string_of("data"), d));
                    },
                    None => {},
                }
                let inner_json = Json::Object(inner);
                assert(inner_json@->Object_0 =~= inner_wanted);
                members.push((string_of("error"), inner_json));
            },
            None => {},
        }
        let j = Json::Object(members);
        assert(j@->Object_0 =~= wanted);
        j
    }
}

impl InitializeResult {
    /// The answer to an introduction, as JSON.
    pub fn to_json(&self) -> (j: Json)
        ensures
            j@ == initialize_json(*self),
    {
        proof {
            reveal_with_fuel(Json::view, 4);
        }
        let mut tools: Vec<(String, Json)> = Vec::new();
        tools.push((string_of("listChanged"), Json::Bool(self.capabilities.tools.list_changed)));
        let tools_json = Json::Object(tools);
        assert(tools_json@->Object_0 =~= seq![
            ("listChanged"@, JsonValue::Bool(self.capabilities.tools.list_changed)),
        ]);
        let mut capabilities: Vec<(String, Json)> = Vec::new();
        capabilities.push((string_of("tools"), tools_json));
        let capabilities_json = Json::Object(capabilities);
        assert(capabilities_json@->Object_0 =~= seq![("tools"@, tools_json@)]);
        let mut info: Vec<(String, Json)> = Vec::new();
        info.push((string_of("name"), Json::Text(self.server_info.name.clone())));
        info.push((string_of("version"), Json::Text(self.server_info.version.clone())));
        let info_json = Json::Object(info);
        assert(info_json@->Object_0 =~= seq![
            ("name"@, JsonValue::Text(self.server_info.name@)),
            ("version"@, JsonValue::Text(self.server_info.version@)),
        ]);
        let mut members: Vec<(String, Json)> = Vec::new();
        members.push((string_of("protocolVersion"), Json::Text(self.protocol_version.clone())));
        members.push((string_of("capabilities"), capabilities_json));
        members.push((string_of("serverInfo"), info_json));
        let j = Json::Object(members);
        assert(j@->Object_0 =~= initialize_json(*self)->Object_0);
        j
    }
}

impl ToolCallResult {
    /// The text of the answer: that of its first part.
    pub open spec fn shown(self) -> Seq<char> {
        match self.content@[0] {
            ToolContent::Text { text } => text@,
        }
    }

    /// An answer of a tool that succeeded.
    pub fn text(text: String) -> (r: ToolCallResult)
        ensures
            r.content@.len() == 1,
            r.shown() == text@,
            r.is_error is None,
    {
        let mut content: Vec<ToolContent> = Vec::new();
        content.push(ToolContent::Text { text });
        ToolCallResult { content, is_error: None }
    }

    /// An answer of a tool that failed.
    pub fn error(message: String) -> (r: ToolCallResult)
        ensures
            r.content@.len() == 1,
            r.shown() == message@,
            r.is_error == Some(true),
    {
        let mut content: Vec<ToolContent> = Vec::new();
        content.push(ToolContent::Text { text: message });
        ToolCallResult { content, is_error: Some(true) }
    }

    /// The answer of a tool as JSON.
    pub fn to_json(&self) -> (j: Json)
        ensures
            j@ == result_json(*self),
    {
        proof {
            reveal_with_fuel(Json::view, 4);
        }
        let mut parts: Vec<Json> = Vec::new();
        let mut i: usize = 0;
        while i < self.content.len()
            invariant
                i <= self.content.len(),
                parts@.len() == i,
                forall|k: int| 0 <= k < i ==> (#[trigger] parts@[k])@ == part_json(self.content@[k]),
            decreases self.content.len() - i,
        {
            proof {
                reveal_with_fuel(Json::view, 4);
            }
            let text = match &self.content[i] {
                ToolContent::Text { text } => text.clone(),
            };
            let mut part: Vec<(String, Json)> = Vec::new();
            part.push((string_of("type"), Json::Text(string_of("text"))));
            part.push((string_of("text"), Json::Text(text)));
            let item = Json::Object(part);
            assert(item@->Object_0 =~= part_json(self.content@[i as int])->Object_0);
            parts.push(item);
            i = i + 1;
        }
        let parts_json = Json::Array(parts);
        assert(parts_json@->Array_0 =~= Seq::new(
            self.content@.len(),
            |i: int| part_json(self.content@[i]),
        ));
        let mut members: Vec<(String, Json)> = Vec::new();
        members.push((string_of("content"), parts_json));
        match self.is_error {
            Some(flag) => {
                members.push((string_of("isError"), Json::Bool(flag)));
            },
            None => {},
        }
        let j = Json::Object(members);
        assert(j@->Object_0 =~= result_json(*self)->Object_0);
        j
    }
}

} // verus!
