//! The tools that the server offers to a client.

use crate::json::{Json, JsonValue};
use crate::schema::{outline, schema, signature, ParamDefault, ParamKind, ParamSpec, ToolSpec};
use crate::text::string_of;
use vstd::prelude::*;

verus! {

/// The tools by name, each with the names and kinds of its arguments and
/// whether they are required.
pub open spec fn server_tool_table() -> Seq<(Seq<char>, Seq<(Seq<char>, ParamKind, bool)>)> {
    seq![
        ("transcribe"@, seq![("input"@, ParamKind::Text, true), ("force"@, ParamKind::Flag, false)]),
        ("search"@, seq![("query"@, ParamKind::Text, true), ("limit"@, ParamKind::Integer, false), ("min_score"@, ParamKind::Number, false)]),
        ("ask"@, seq![("question"@, ParamKind::Text, true), ("max_chunks"@, ParamKind::Integer, false)]),
        ("list_media"@, Seq::<(Seq<char>, ParamKind, bool)>::empty()),
        ("get_transcript"@, seq![("video_id"@, ParamKind::Text, true)]),
    ]
}

/// The tools that the server offers.
pub fn get_tools() -> (tools: Vec<ToolSpec>)
    ensures
        outline(tools@) == server_tool_table(),
{
    let mut tools: Vec<ToolSpec> = Vec::new();
    {
        let mut parameters: Vec<ParamSpec> = Vec::new();
        parameters.push(ParamSpec::required("input", ParamKind::Text, "YouTube URL, video ID, or local file path"));
        parameters.push(
            ParamSpec::optional("force", ParamKind::Flag, "Force re-processing even if already indexed", ParamDefault::Flag(false)),
        );
        let tool = ToolSpec {
            name: string_of("transcribe"),
            description: string_of(
                "Transcribe audio or video content from a YouTube URL or local file. Returns the transcript with timestamps. Use this to add new content to the knowledge base.",
            ),
            parameters,
            lists_required: false,
        };
        assert(signature(tool.parameters@) =~= server_tool_table()[tools@.len() as int].1);
        tools.push(tool);
    }
    {
        let mut parameters: Vec<ParamSpec> = Vec::new();
        parameters.push(ParamSpec::required("query", ParamKind::Text, "Search query"));
        parameters.push(
            ParamSpec::optional("limit", ParamKind::Integer, "Maximum number of results", ParamDefault::Natural(5)),
        );
        parameters.push(
            ParamSpec::optional("min_score", ParamKind::Number, "Minimum similarity score (0.0-1.0)", ParamDefault::Numeral(string_of("0.3"))),
        );
        let tool = ToolSpec {
            name: string_of("search"),
            description: string_of(
                "Search the audio knowledge base for relevant content. Returns matching segments with timestamps and relevance scores.",
            ),
            parameters,
            lists_required: false,
        };
        assert(signature(tool.parameters@) =~= server_tool_table()[tools@.len() as int].1);
        tools.push(tool);
    }
    {
        let mut parameters: Vec<ParamSpec> = Vec::new();
        parameters.push(ParamSpec::required("question", ParamKind::Text, "The question to ask"));
        parameters.push(
            ParamSpec::optional("max_chunks", ParamKind::Integer, "Maximum context chunks to include", ParamDefault::Natural(10)),
        );
        let tool = ToolSpec {
            name: string_of("ask"),
            description: string_of(
                "Ask a question and get an AI-generated answer based on the audio knowledge base. The answer includes citations with video titles and timestamps.",
            ),
            parameters,
            lists_required: false,
        };
        assert(signature(tool.parameters@) =~= server_tool_table()[tools@.len() as int].1);
        tools.push(tool);
    }
    {
        let mut parameters: Vec<ParamSpec> = Vec::new();
        let tool = ToolSpec {
            name: string_of("list_media"),
            description: string_of(
                "List all indexed audio/video content in the knowledge base.",
            ),
            parameters,
            lists_required: true,
        };
        assert(signature(tool.parameters@) =~= server_tool_table()[tools@.len() as int].1);
        tools.push(tool);
    }
    {
        let mut parameters: Vec<ParamSpec> = Vec::new();
        parameters.push(ParamSpec::required("video_id", ParamKind::Text, "The video ID to get transcript for"));
        let tool = ToolSpec {
            name: string_of("get_transcript"),
            description: string_of(
                "Get the full transcript of a specific indexed video by its ID.",
            ),
            parameters,
            lists_required: false,
        };
        assert(signature(tool.parameters@) =~= server_tool_table()[tools@.len() as int].1);
        tools.push(tool);
    }
    assert(outline(tools@) =~= server_tool_table());
    tools
}

/// A tool as a client is told of it: its name, what it does, and what its
/// arguments are.
pub open spec fn tool_json(tool: ToolSpec) -> JsonValue {
    JsonValue::Object(
        seq![
            ("name"@, JsonValue::Text(tool.name@)),
            ("description"@, JsonValue::Text(tool.description@)),
            ("inputSchema"@, schema(tool)),
        ],
    )
}

/// The tools as a client is told of them: one member, `tools`, with the tools
/// in order.
pub open spec fn tools_list_json(tools: Seq<ToolSpec>) -> JsonValue {
    JsonValue::Object(
        seq![("tools"@, JsonValue::Array(Seq::new(tools.len(), |i: int| tool_json(tools[i]))))],
    )
}

/// A tool as JSON.
pub fn tool_to_json(tool: &ToolSpec) -> (j: Json)
    ensures
        j@ == tool_json(*tool),
{
    proof {
        reveal_with_fuel(Json::view, 2);
    }
    let mut members: Vec<(String, Json)> = Vec::new();
    members.push((string_of("name"), Json::Text(tool.name.clone())));
    members.push((string_of("description"), Json::Text(tool.description.clone())));
    members.push((string_of("inputSchema"), tool.input_schema()));
    let j = Json::Object(members);
    assert(j@->Object_0 =~= tool_json(*tool)->Object_0);
    j
}

/// The answer to a client that asks which tools there are.
pub fn tools_list(tools: &Vec<ToolSpec>) -> (j: Json)
    ensures
        j@ == tools_list_json(tools@),
{
    let mut items: Vec<Json> = Vec::new();
    let mut i: usize = 0;
    while i < tools.len()
        invariant
            i <= tools.len(),
            items@.len() == i,
            forall|k: int| 0 <= k < i ==> (#[trigger] items@[k])@ == tool_json(tools@[k]),
        decreases tools.len() - i,
    {
        items.push(tool_to_json(&tools[i]));
        i = i + 1;
    }
    let list = Json::Array(items);
    proof {
        reveal_with_fuel(Json::view, 2);
        assert(list@->Array_0 =~= Seq::new(tools@.len(), |i: int| tool_json(tools@[i])));
    }
    let mut members: Vec<(String, Json)> = Vec::new();
    members.push((string_of("tools"), list));
    let j = Json::Object(members);
    proof {
        assert(j@->Object_0 =~= tools_list_json(tools@)->Object_0);
    }
    j
}

} // verus!
