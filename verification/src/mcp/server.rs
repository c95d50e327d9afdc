//! What the server decides: which method a request names, which tool a call
//! names and with which arguments, and what is answered.

use crate::config::settings::Settings;
use crate::decimal::{decimal, push_decimal};
use crate::error::LyttError;
use crate::json::{Json, JsonValue};
use crate::mcp::protocol::{
    InitializeResult, JsonRpcResponse, ServerCapabilities, ServerInfo, ToolCallResult,
    ToolsCapability, INIT_FAILED, INVALID_PARAMS, METHOD_NOT_FOUND, PARSE_ERROR, PROTOCOL_VERSION,
};
use crate::cli::output::cut;
use crate::orchestrator::ProcessResult;
use crate::rag::context::{push_score, score_text};
use crate::rag::response::RagResponse;
use crate::rag::{context_views, ContextView};
use crate::sorting::{reorder, sort_by_keys, stable_order};
use crate::text::{append_chars, append_str, from_chars, str_eq, string_of, take_chars, to_chars};
use crate::timefmt::{clock, clock_seconds, push_clock, span};
use crate::vector_store::{Document, IndexedVideo, SearchResult};
use vstd::prelude::*;

verus! {

/// The name under which the server introduces itself.
pub const SERVER_NAME: &'static str = "lytt";

/// The least score, in millionths, of a result of the search tool where the
/// call names none.
pub const SEARCH_MIN_SCORE: i32 = 300000;

/// The server: its settings, and whether a client has introduced itself.
#[derive(Debug, Clone)]
pub struct McpServer {
    pub settings: Settings,
    pub initialized: bool,
}

/// The methods of the protocol.
#[derive(Debug, Clone, Copy, PartialEq, Eq)]
pub enum McpMethod {
    Initialize,
    Initialized,
    ToolsList,
    ToolsCall,
    Unknown,
}

/// The call of a tool of the server, with its arguments read. A score is in
/// millionths.
#[derive(Debug, Clone)]
pub enum McpToolCall {
    Transcribe { input: String, force: bool },
    Search { query: String, limit: usize, min_score: i32 },
    Ask { question: String, max_chunks: usize },
    ListMedia,
    GetTranscript { video_id: String },
}

/// What an `McpToolCall` holds.
pub enum McpToolCallView {
    Transcribe { input: Seq<char>, force: bool },
    Search { query: Seq<char>, limit: usize, min_score: i32 },
    Ask { question: Seq<char>, max_chunks: usize },
    ListMedia,
    GetTranscript { video_id: Seq<char> },
}

impl View for McpToolCall {
    type V = McpToolCallView;

    open spec fn view(&self) -> McpToolCallView {
        match self {
            McpToolCall::Transcribe { input, force } => McpToolCallView::Transcribe {
                input: input@,
                force: *force,
            },
            McpToolCall::Search { query, limit, min_score } => McpToolCallView::Search {
                query: query@,
                limit: *limit,
                min_score: *min_score,
            },
            McpToolCall::Ask { question, max_chunks } => McpToolCallView::Ask {
                question: question@,
                max_chunks: *max_chunks,
            },
            McpToolCall::ListMedia => McpToolCallView::ListMedia,
            McpToolCall::GetTranscript { video_id } => McpToolCallView::GetTranscript {
                video_id: video_id@,
            },
        }
    }
}

/// The method that a name names.
pub open spec fn method_of(name: Seq<char>) -> McpMethod {
    if name == "initialize"@ {
        McpMethod::Initialize
    } else if name == "initialized"@ {
        McpMethod::Initialized
    } else if name == "tools/list"@ {
        McpMethod::ToolsList
    } else if name == "tools/call"@ {
        McpMethod::ToolsCall
    } else {
        McpMethod::Unknown
    }
}

/// A count that a call gives, held to the machine's range, or the default.
pub open spec fn count_of(args: JsonValue, key: Seq<char>, default: usize) -> usize {
    match args.natural_field(key) {
        Some(n) => if n <= usize::MAX {
            n as usize
        } else {
            usize::MAX
        },
        None => default,
    }
}

/// The least score that a call gives, in millionths and held to one, or the
/// default: the thousandths of the number given, each as a thousand
/// millionths.
pub open spec fn min_score_of(args: JsonValue) -> i32 {
    match args.millis_field("min_score"@) {
        Some(t) => if t <= 1000 {
            (t * 1000) as i32
        } else {
            1000000
        },
        None => SEARCH_MIN_SCORE,
    }
}

/// What is said of an argument that is missing or of the wrong kind.
pub open spec fn missing_argument(key: Seq<char>) -> Seq<char> {
    "Missing '"@ + key + "' argument"@
}

/// The call that the name of a tool and its arguments make for a server that
/// is, or is not, ready; or what is answered in its place.
///
/// A name that names no tool is answered first. Then the arguments are
/// looked at: a tool that takes arguments needs them, and the one that it
/// cannot do without. Only then is it minded whether a client has
/// introduced itself.
pub open spec fn tool_call_for(
    name: Seq<char>,
    args: Option<JsonValue>,
    ready: bool,
) -> Result<McpToolCallView, Seq<char>> {
    if name == "list_media"@ {
        if ready {
            Ok(McpToolCallView::ListMedia)
        } else {
            Err("Server not initialized"@)
        }
    } else if name == "transcribe"@ || name == "search"@ || name == "ask"@ || name
        == "get_transcript"@ {
        match args {
            None => Err("Missing arguments"@),
            Some(a) => {
                let key = if name == "transcribe"@ {
                    "input"@
                } else if name == "search"@ {
                    "query"@
                } else if name == "ask"@ {
                    "question"@
                } else {
                    "video_id"@
                };
                match a.text_field(key) {
                    None => Err(missing_argument(key)),
                    Some(main) => if !ready {
                        Err("Server not initialized"@)
                    } else if name == "transcribe"@ {
                        Ok(
                            McpToolCallView::Transcribe {
                                input: main,
                                force: match a.boolean_field("force"@) {
                                    Some(b) => b,
                                    None => false,
                                },
                            },
                        )
                    } else if name == "search"@ {
                        Ok(
                            McpToolCallView::Search {
                                query: main,
                                limit: count_of(a, "limit"@, 5),
                                min_score: min_score_of(a),
                            },
                        )
                    } else if name == "ask"@ {
                        Ok(
                            McpToolCallView::Ask {
                                question: main,
                                max_chunks: count_of(a, "max_chunks"@, 10),
                            },
                        )
                    } else {
                        Ok(McpToolCallView::GetTranscript { video_id: main })
                    },
                }
            },
        }
    } else {
        Err("Unknown tool: "@ + name)
    }
}

/// What is answered for a media that was processed.
pub open spec fn processed_text(r: ProcessResult) -> Seq<char> {
    if r.skipped {
        "'"@ + r.title@ + "' is already indexed ("@ + decimal(r.chunks_indexed as nat)
            + " chunks). Use force=true to reprocess."@
    } else {
        "Successfully transcribed and indexed '"@ + r.title@ + "' ("@ + decimal(
            r.chunks_indexed as nat,
        ) + " chunks created)."@
    }
}

fn count_from(args: &Json, key: &str, default: usize) -> (n: usize)
    ensures
        n == count_of(args@, key@, default),
{
    match args.u64_field(key) {
        Some(v) => {
            if v > usize::MAX as u64 {
                usize::MAX
            } else {
                v as usize
            }
        },
        None => default,
    }
}

fn failed(text: &str) -> (r: ToolCallResult)
    ensures
        r.content@.len() == 1,
        r.shown() == text@,
        r.is_error == Some(true),
{
    ToolCallResult::error(string_of(text))
}

fn missing(key: &str) -> (r: ToolCallResult)
    ensures
        r.content@.len() == 1,
        r.shown() == missing_argument(key@),
        r.is_error == Some(true),
{
    let mut m: Vec<char> = Vec::new();
    append_str(&mut m, "Missing '");
    append_str(&mut m, key);
    append_str(&mut m, "' argument");
    ToolCallResult::error(from_chars(&m))
}

impl McpServer {
    /// A server to which no client has introduced itself.
    pub fn new(settings: Settings) -> (s: McpServer)
        ensures
            s.settings == settings,
            !s.initialized,
    {
        McpServer { settings, initialized: false }
    }

    /// The method that a request names.
    pub fn route(method: &str) -> (m: McpMethod)
        ensures
            m == method_of(method@),
    {
        if str_eq(method, "initialize") {
            McpMethod::Initialize
        } else if str_eq(method, "initialized") {
            McpMethod::Initialized
        } else if str_eq(method, "tools/list") {
            McpMethod::ToolsList
        } else if str_eq(method, "tools/call") {
            McpMethod::ToolsCall
        } else {
            McpMethod::Unknown
        }
    }

    /// The answer to a line that is no request.
    pub fn parse_error() -> (r: JsonRpcResponse)
        ensures
            r.id is None,
            r.result is None,
            r.error matches Some(e) && e.code == PARSE_ERROR && e.message@ == "Parse error"@,
    {
        JsonRpcResponse::error(None, PARSE_ERROR, "Parse error")
    }

    /// The answer to a request that names no method of the protocol.
    pub fn method_not_found(id: Option<Json>, method: &str) -> (r: JsonRpcResponse)
        ensures
            r.id == id,
            r.result is None,
            r.error matches Some(e) && e.code == METHOD_NOT_FOUND && e.message@
                == "Method not found: "@ + method@,
    {
        let mut m: Vec<char> = Vec::new();
        append_str(&mut m, "Method not found: ");
        append_str(&mut m, method);
        JsonRpcResponse::error(id, METHOD_NOT_FOUND, from_chars(&m).as_str())
    }

    /// The answer to a call without parameters.
    pub fn missing_params(id: Option<Json>) -> (r: JsonRpcResponse)
        ensures
            r.id == id,
            r.error matches Some(e) && e.code == INVALID_PARAMS && e.message@ == "Missing params"@,
    {
        JsonRpcResponse::error(id, INVALID_PARAMS, "Missing params")
    }

    /// The answer to a call whose parameters are no call.
    pub fn invalid_params(id: Option<Json>, reason: &str) -> (r: JsonRpcResponse)
        ensures
            r.id == id,
            r.error matches Some(e) && e.code == INVALID_PARAMS && e.message@
                == "Invalid params: "@ + reason@,
    {
        let mut m: Vec<char> = Vec::new();
        append_str(&mut m, "Invalid params: ");
        append_str(&mut m, reason);
        JsonRpcResponse::error(id, INVALID_PARAMS, from_chars(&m).as_str())
    }

    /// The answer to an introduction that could not be served.
    pub fn init_failed(id: Option<Json>, reason: &str) -> (r: JsonRpcResponse)
        ensures
            r.id == id,
            r.error matches Some(e) && e.code == INIT_FAILED && e.message@ == "Init failed: "@
                + reason@,
    {
        let mut m: Vec<char> = Vec::new();
        append_str(&mut m, "Init failed: ");
        append_str(&mut m, reason);
        JsonRpcResponse::error(id, INIT_FAILED, from_chars(&m).as_str())
    }

    /// Takes in the introduction of a client: the server is ready from then
    /// on, and answers with the version of the protocol, what it can do, and
    /// its name and version.
    pub fn initialize(&mut self, version: &str) -> (r: InitializeResult)
        ensures
            final(self).initialized,
            final(self).settings == old(self).settings,
            r.protocol_version@ == PROTOCOL_VERSION@,
            !r.capabilities.tools.list_changed,
            r.server_info.name@ == SERVER_NAME@,
            r.server_info.version@ == version@,
    {
        self.initialized = true;
        InitializeResult {
            protocol_version: string_of(PROTOCOL_VERSION),
            capabilities: ServerCapabilities { tools: ToolsCapability { list_changed: false } },
            server_info: ServerInfo { name: string_of(SERVER_NAME), version: string_of(version) },
        }
    }

    /// Reads the call of a tool.
    pub fn tool_call(&self, name: &str, arguments: Option<&Json>) -> (r: Result<
        McpToolCall,
        ToolCallResult,
    >)
        ensures
            match tool_call_for(
                name@,
                match arguments {
                    Some(a) => Some(a@),
                    None => None,
                },
                self.initialized,
            ) {
                Ok(call) => r matches Ok(c) && c@ == call,
                Err(text) => r matches Err(answer) && answer.content@.len() == 1 && answer.shown()
                    == text && answer.is_error == Some(true),
            },
    {
        proof {
            reveal_strlit("transcribe");
            reveal_strlit("search");
            reveal_strlit("ask");
            reveal_strlit("list_media");
            reveal_strlit("get_transcript");
            assert("transcribe"@.len() == 10 && "search"@.len() == 6 && "ask"@.len() == 3
                && "list_media"@.len() == 10 && "get_transcript"@.len() == 14);
            assert("transcribe"@[0] == 't' && "list_media"@[0] == 'l');
        }
        if str_eq(name, "list_media") {
            if self.initialized {
                return Ok(McpToolCall::ListMedia);
            } else {
                return Err(failed("Server not initialized"));
            }
        }
        let key = if str_eq(name, "transcribe") {
            "input"
        } else if str_eq(name, "search") {
            "query"
        } else if str_eq(name, "ask") {
            "question"
        } else if str_eq(name, "get_transcript") {
            "video_id"
        } else {
            let mut m: Vec<char> = Vec::new();
            append_str(&mut m, "Unknown tool: ");
            append_str(&mut m, name);
            return Err(ToolCallResult::error(from_chars(&m)));
        };
        let args = match arguments {
            Some(a) => a,
            None => {
                return Err(failed("Missing arguments"));
            },
        };
        let main = match args.str_field(key) {
            Some(v) => v,
            None => {
                return Err(missing(key));
            },
        };
        if !self.initialized {
            return Err(failed("Server not initialized"));
        }
        if str_eq(name, "transcribe") {
            let force = match args.bool_field("force") {
                Some(b) => b,
                None => false,
            };
            Ok(McpToolCall::Transcribe { input: main, force })
        } else if str_eq(name, "search") {
            let min_score: i32 = match args.millis_field("min_score") {
                Some(t) => {
                    if t <= 1000 {
                        (t * 1000) as i32
                    } else {
                        1000000
                    }
                },
                None => SEARCH_MIN_SCORE,
            };
            Ok(McpToolCall::Search { query: main, limit: count_from(args, "limit", 5), min_score })
        } else if str_eq(name, "ask") {
            Ok(McpToolCall::Ask { question: main, max_chunks: count_from(args, "max_chunks", 10) })
        } else {
            Ok(McpToolCall::GetTranscript { video_id: main })
        }
    }

    /// The answer of the transcribe tool for a media that was processed.
    pub fn transcribed(result: &ProcessResult) -> (r: ToolCallResult)
        ensures
            r.content@.len() == 1,
            r.shown() == processed_text(*result),
            r.is_error is None,
    {
        let mut m: Vec<char> = Vec::new();
        if result.skipped {
            append_str(&mut m, "'");
            append_str(&mut m, result.title.as_str());
            append_str(&mut m, "' is already indexed (");
            push_decimal(&mut m, result.chunks_indexed as u64);
            append_str(&mut m, " chunks). Use force=true to reprocess.");
        } else {
            append_str(&mut m, "Successfully transcribed and indexed '");
            append_str(&mut m, result.title.as_str());
            append_str(&mut m, "' (");
            push_decimal(&mut m, result.chunks_indexed as u64);
            append_str(&mut m, " chunks created).");
        }
        ToolCallResult::text(from_chars(&m))
    }

    /// The answer of a tool that failed: what the tool was doing, and the
    /// message of the error.
    pub fn tool_failed(doing: &str, error: &LyttError) -> (r: ToolCallResult)
        ensures
            r.content@.len() == 1,
            r.shown() == doing@ + ": "@ + error.message(),
            r.is_error == Some(true),
    {
        let mut m: Vec<char> = Vec::new();
        append_str(&mut m, doing);
        append_str(&mut m, ": ");
        append_str(&mut m, error.to_string().as_str());
        ToolCallResult::error(from_chars(&m))
    }
}

/// How many characters of a passage a result of the search tool shows.
pub const RESULT_CHARS: usize = 200;

/// One result of the search tool, numbered from one.
pub open spec fn result_entry(i: int, r: SearchResult) -> Seq<char> {
    decimal((i + 1) as nat) + ". **"@ + r.document.video_title@ + "** @ "@ + clock(
        clock_seconds(r.document.start_ms as nat),
    ) + "\n   Score: "@ + score_text(r.score) + "\n   "@ + cut(
        r.document.content@,
        RESULT_CHARS,
    ) + "\n\n"@
}

/// The results of the search tool, one after the other.
pub open spec fn result_entries(results: Seq<SearchResult>) -> Seq<char>
    decreases results.len(),
{
    if results.len() == 0 {
        Seq::<char>::empty()
    } else {
        result_entries(results.drop_last()) + result_entry(results.len() - 1, results.last())
    }
}

/// What the search tool answers.
pub open spec fn search_text(results: Seq<SearchResult>) -> Seq<char> {
    if results.len() == 0 {
        "No matching results found."@
    } else {
        "Found "@ + decimal(results.len()) + " results:\n\n"@ + result_entries(results)
    }
}

/// A source under an answer.
pub open spec fn source_item(c: ContextView) -> Seq<char> {
    "- "@ + c.video_title + " @ "@ + c.timestamp + " (score: "@ + score_text(c.score) + ")\n"@
}

/// The sources under an answer, one after the other.
pub open spec fn source_items(sources: Seq<ContextView>) -> Seq<char>
    decreases sources.len(),
{
    if sources.len() == 0 {
        Seq::<char>::empty()
    } else {
        source_items(sources.drop_last()) + source_item(sources.last())
    }
}

/// What the ask tool answers.
pub open spec fn ask_text(answer: Seq<char>, sources: Seq<ContextView>) -> Seq<char> {
    if sources.len() == 0 {
        answer + "\n\n"@
    } else {
        answer + "\n\n"@ + "**Sources:**\n"@ + source_items(sources)
    }
}

/// One media of the listing tool.
pub open spec fn media_item(v: IndexedVideo) -> Seq<char> {
    "- **"@ + v.video_title@ + "** (ID: "@ + v.video_id@ + ")\n  "@ + decimal(v.chunk_count as nat)
        + " chunks, "@ + span(clock_seconds(v.total_duration_ms as nat)) + "\n\n"@
}

/// The media of the listing tool, one after the other.
pub open spec fn media_items(media: Seq<IndexedVideo>) -> Seq<char>
    decreases media.len(),
{
    if media.len() == 0 {
        Seq::<char>::empty()
    } else {
        media_items(media.drop_last()) + media_item(media.last())
    }
}

/// What the listing tool answers.
pub open spec fn media_text(media: Seq<IndexedVideo>) -> Seq<char> {
    if media.len() == 0 {
        "No media indexed yet. Use the transcribe tool to add content."@
    } else {
        "Indexed media ("@ + decimal(media.len()) + " items):\n\n"@ + media_items(media)
    }
}

/// The keys that put passages in the order of their starts.
pub open spec fn passage_start_keys(docs: Seq<Document>) -> Seq<i128> {
    Seq::new(docs.len(), |i: int| docs[i].start_ms as i128)
}

/// One passage of the transcript tool: under its time and the title of its
/// section, or `Segment` where it has none.
pub open spec fn passage_item(d: Document) -> Seq<char> {
    "["@ + clock(clock_seconds(d.start_ms as nat)) + "] **"@ + (match d.section_title {
        Some(t) => t@,
        None => "Segment"@,
    }) + "**\n"@ + d.content@ + "\n\n"@
}

/// The passages of the transcript tool, one after the other.
pub open spec fn passage_items(docs: Seq<Document>) -> Seq<char>
    decreases docs.len(),
{
    if docs.len() == 0 {
        Seq::<char>::empty()
    } else {
        passage_items(docs.drop_last()) + passage_item(docs.last())
    }
}

/// What the transcript tool answers for a media that has passages: the
/// passages in the order of their starts, under the title of the first.
pub open spec fn transcript_text(docs: Seq<Document>) -> Seq<char> {
    let sorted = reorder(docs, stable_order(passage_start_keys(docs)));
    "**"@ + sorted[0].video_title@ + "**\n\n"@ + passage_items(sorted)
}

fn push_cut(out: &mut Vec<char>, text: &str, max_len: usize)
    ensures
        final(out)@ == old(out)@ + cut(text@, max_len),
{
    let chars = to_chars(text);
    if chars.len() <= max_len {
        append_chars(out, &chars);
    } else {
        let mut shown = take_chars(&chars, max_len);
        append_str(&mut shown, "...");
        append_chars(out, &shown);
    }
}

impl McpServer {
    /// The answer of the search tool for the results that the index ranked.
    pub fn search_answer(results: &Vec<SearchResult>) -> (r: ToolCallResult)
        ensures
            r.content@.len() == 1,
            r.shown() == search_text(results@),
            r.is_error is None,
    {
        if results.len() == 0 {
            return ToolCallResult::text(string_of("No matching results found."));
        }
        let mut out: Vec<char> = Vec::new();
        append_str(&mut out, "Found ");
        push_decimal(&mut out, results.len() as u64);
        append_str(&mut out, " results:\n\n");
        let ghost head = out@;
        let mut i: usize = 0;
        assert(results@.take(0) == Seq::<SearchResult>::empty());
        assert(head + Seq::<char>::empty() == head);
        while i < results.len()
            invariant
                i <= results.len(),
                out@ == head + result_entries(results@.take(i as int)),
            decreases results.len() - i,
        {
            let r = &results[i];
            let mut e: Vec<char> = Vec::new();
            push_decimal(&mut e, (i + 1) as u64);
            append_str(&mut e, ". **");
            append_str(&mut e, r.document.video_title.as_str());
            append_str(&mut e, "** @ ");
            push_clock(&mut e, r.document.start_ms);
            append_str(&mut e, "\n   Score: ");
            push_score(&mut e, r.score);
            append_str(&mut e, "\n   ");
            push_cut(&mut e, r.document.content.as_str(), RESULT_CHARS);
            append_str(&mut e, "\n\n");
            assert(e@ == result_entry(i as int, *r));
            append_chars(&mut out, &e);
            assert(results@.take(i + 1).drop_last() == results@.take(i as int));
            assert(results@.take(i + 1).last() == *r);
            assert(head + (result_entries(results@.take(i as int)) + result_entry(i as int, *r))
                == (head + result_entries(results@.take(i as int))) + result_entry(i as int, *r));
            i = i + 1;
        }
        assert(results@.take(results.len() as int) == results@);
        ToolCallResult::text(from_chars(&out))
    }

    /// The answer of the ask tool: the answer, and under it the sources.
    pub fn ask_answer(response: &RagResponse) -> (r: ToolCallResult)
        ensures
            r.content@.len() == 1,
            r.shown() == ask_text(response.answer@, context_views(response.sources@)),
            r.is_error is None,
    {
        let mut out: Vec<char> = Vec::new();
        append_str(&mut out, response.answer.as_str());
        append_str(&mut out, "\n\n");
        if response.sources.len() > 0 {
            append_str(&mut out, "**Sources:**\n");
            let ghost head = out@;
            let ghost all = context_views(response.sources@);
            let mut i: usize = 0;
            assert(all.take(0) == Seq::<ContextView>::empty());
            assert(head + Seq::<char>::empty() == head);
            while i < response.sources.len()
                invariant
                    i <= response.sources.len(),
                    all == context_views(response.sources@),
                    out@ == head + source_items(all.take(i as int)),
                decreases response.sources.len() - i,
            {
                let c = &response.sources[i];
                let mut e: Vec<char> = Vec::new();
                append_str(&mut e, "- ");
                append_str(&mut e, c.video_title.as_str());
                append_str(&mut e, " @ ");
                append_str(&mut e, c.timestamp.as_str());
                append_str(&mut e, " (score: ");
                push_score(&mut e, c.score);
                append_str(&mut e, ")\n");
                assert(e@ == source_item(c@));
                append_chars(&mut out, &e);
                assert(all.take(i + 1).drop_last() == all.take(i as int));
                assert(all.take(i + 1).last() == c@);
                assert(head + (source_items(all.take(i as int)) + source_item(c@)) == (head
                    + source_items(all.take(i as int))) + source_item(c@));
                i = i + 1;
            }
            assert(all.take(response.sources.len() as int) == all);
        }
        ToolCallResult::text(from_chars(&out))
    }

    /// The answer of the listing tool for the media that the index knows.
    pub fn media_answer(media: &Vec<IndexedVideo>) -> (r: ToolCallResult)
        ensures
            r.content@.len() == 1,
            r.shown() == media_text(media@),
            r.is_error is None,
    {
        if media.len() == 0 {
            return ToolCallResult::text(
                string_of("No media indexed yet. Use the transcribe tool to add content."),
            );
        }
        let mut out: Vec<char> = Vec::new();
        append_str(&mut out, "Indexed media (");
        push_decimal(&mut out, media.len() as u64);
        append_str(&mut out, " items):\n\n");
        let ghost head = out@;
        let mut i: usize = 0;
        assert(media@.take(0) == Seq::<IndexedVideo>::empty());
        assert(head + Seq::<char>::empty() == head);
        while i < media.len()
            invariant
                i <= media.len(),
                out@ == head + media_items(media@.take(i as int)),
            decreases media.len() - i,
        {
            let v = &media[i];
            let mut e: Vec<char> = Vec::new();
            append_str(&mut e, "- **");
            append_str(&mut e, v.video_title.as_str());
            append_str(&mut e, "** (ID: ");
            append_str(&mut e, v.video_id.as_str());
            append_str(&mut e, ")\n  ");
            push_decimal(&mut e, v.chunk_count as u64);
            append_str(&mut e, " chunks, ");
            append_str(&mut e, crate::timefmt::format_duration(v.total_duration_ms).as_str());
            append_str(&mut e, "\n\n");
            assert(e@ == media_item(*v));
            append_chars(&mut out, &e);
            assert(media@.take(i + 1).drop_last() == media@.take(i as int));
            assert(media@.take(i + 1).last() == *v);
            assert(head + (media_items(media@.take(i as int)) + media_item(*v)) == (head
                + media_items(media@.take(i as int))) + media_item(*v));
            i = i + 1;
        }
        assert(media@.take(media.len() as int) == media@);
        ToolCallResult::text(from_chars(&out))
    }

    /// The answer of the transcript tool for the passages of a media. A media
    /// without passages has no transcript.
    pub fn transcript_answer(video_id: &str, documents: Vec<Document>) -> (r: ToolCallResult)
        ensures
            r.content@.len() == 1,
            documents@.len() == 0 ==> r.is_error == Some(true) && r.shown()
                == "No transcript found for video ID: "@ + video_id@,
            documents@.len() > 0 ==> r.is_error is None && r.shown() == transcript_text(
                documents@,
            ),
    {
        if documents.len() == 0 {
            let mut m: Vec<char> = Vec::new();
            append_str(&mut m, "No transcript found for video ID: ");
            append_str(&mut m, video_id);
            return ToolCallResult::error(from_chars(&m));
        }
        let mut sorted = documents;
        let mut keys: Vec<i128> = Vec::new();
        let mut k: usize = 0;
        while k < sorted.len()
            invariant
                k <= sorted.len(),
                keys@ == passage_start_keys(sorted@).take(k as int),
            decreases sorted.len() - k,
        {
            keys.push(sorted[k].start_ms as i128);
            assert(keys@ =~= passage_start_keys(sorted@).take(k + 1));
            k = k + 1;
        }
        assert(passage_start_keys(sorted@).take(sorted.len() as int) == passage_start_keys(
            sorted@,
        ));
        sort_by_keys(&mut sorted, &mut keys);
        let mut out: Vec<char> = Vec::new();
        append_str(&mut out, "**");
        append_str(&mut out, sorted[0].video_title.as_str());
        append_str(&mut out, "**\n\n");
        let ghost head = out@;
        let mut i: usize = 0;
        assert(sorted@.take(0) == Seq::<Document>::empty());
        assert(head + Seq::<char>::empty() == head);
        while i < sorted.len()
            invariant
                i <= sorted.len(),
                out@ == head + passage_items(sorted@.take(i as int)),
            decreases sorted.len() - i,
        {
            let d = &sorted[i];
            let mut e: Vec<char> = Vec::new();
            append_str(&mut e, "[");
            push_clock(&mut e, d.start_ms);
            append_str(&mut e, "] **");
            match &d.section_title {
                Some(t) => {
                    append_str(&mut e, t.as_str());
                },
                None => {
                    append_str(&mut e, "Segment");
                },
            }
            append_str(&mut e, "**\n");
            append_str(&mut e, d.content.as_str());
            append_str(&mut e, "\n\n");
            assert(e@ == passage_item(*d));
            append_chars(&mut out, &e);
            assert(sorted@.take(i + 1).drop_last() == sorted@.take(i as int));
            assert(sorted@.take(i + 1).last() == *d);
            assert(head + (passage_items(sorted@.take(i as int)) + passage_item(*d)) == (head
                + passage_items(sorted@.take(i as int))) + passage_item(*d));
            i = i + 1;
        }
        assert(sorted@.take(sorted.len() as int) == sorted@);
        ToolCallResult::text(from_chars(&out))
    }
}

} // verus!
