use lytt::config::Settings;
use lytt::error::LyttError;
use lytt::json::{parse_json, write_json, Json};
use lytt::mcp::protocol::{
    number_json, JsonRpcRequest, JsonRpcResponse, ToolCallParams, ToolCallResult, ToolContent,
};
use lytt::mcp::server::{McpMethod, McpServer, McpToolCall};
use lytt::mcp::tools::get_tools;
use lytt::orchestrator::ProcessResult;
use lytt::rag::context::ContextBuilder;
use lytt::rag::response::RagResponse;
use lytt::vector_store::{Document, IndexedVideo, SearchResult};

fn text_of(r: &ToolCallResult) -> &str {
    match &r.content[0] {
        ToolContent::Text { text } => text.as_str(),
    }
}

fn ready() -> McpServer {
    let mut s = McpServer::new(Settings::default());
    s.initialize("1.2.3");
    s
}

fn refused(server: &McpServer, name: &str, arguments: Option<&Json>) -> String {
    match server.tool_call(name, arguments) {
        Err(answer) => {
            assert_eq!(answer.is_error, Some(true));
            text_of(&answer).to_string()
        }
        Ok(_) => panic!("the call is refused"),
    }
}

#[test]
fn tool_results_are_text() {
    let ok = ToolCallResult::text("fine".to_string());
    assert_eq!(text_of(&ok), "fine");
    assert!(ok.is_error.is_none());
    let bad = ToolCallResult::error("broken".to_string());
    assert_eq!(text_of(&bad), "broken");
    assert_eq!(bad.is_error, Some(true));
    assert_eq!(
        write_json(&bad.to_json()).replace(['\n', ' '], ""),
        "{\"content\":[{\"type\":\"text\",\"text\":\"broken\"}],\"isError\":true}"
    );
    assert!(ok.to_json().get("isError").is_none());
}

#[test]
fn requests_are_read() {
    let j = parse_json(r#"{"jsonrpc": "2.0", "id": 7, "method": "tools/list"}"#).unwrap();
    let r = JsonRpcRequest::from_json(&j).unwrap();
    assert_eq!((r.jsonrpc.as_str(), r.method.as_str()), ("2.0", "tools/list"));
    assert_eq!(r.id.as_ref().and_then(|i| i.as_u64()), Some(7));
    assert!(r.params.is_none());
    let note = parse_json(r#"{"jsonrpc": "2.0", "id": null, "method": "initialized", "params": {}}"#).unwrap();
    let n = JsonRpcRequest::from_json(&note).unwrap();
    assert!(n.id.is_none());
    assert!(n.params.is_some());
    for wrong in [r#"{"id": 1, "method": "x"}"#, r#"{"jsonrpc": "2.0"}"#, r#"[1]"#, r#"{"jsonrpc": 2, "method": "x"}"#] {
        assert!(JsonRpcRequest::from_json(&parse_json(wrong).unwrap()).is_none());
    }
    let call = parse_json(r#"{"name": "search", "arguments": {"query": "q"}}"#).unwrap();
    let c = ToolCallParams::from_json(&call).unwrap();
    assert_eq!(c.name, "search");
    assert!(c.arguments.is_some());
    assert!(ToolCallParams::from_json(&parse_json(r#"{"arguments": {}}"#).unwrap()).is_none());
}

#[test]
fn methods_are_routed() {
    assert_eq!(McpServer::route("initialize"), McpMethod::Initialize);
    assert_eq!(McpServer::route("initialized"), McpMethod::Initialized);
    assert_eq!(McpServer::route("tools/list"), McpMethod::ToolsList);
    assert_eq!(McpServer::route("tools/call"), McpMethod::ToolsCall);
    assert_eq!(McpServer::route("tools/other"), McpMethod::Unknown);
    assert_eq!(McpServer::route(""), McpMethod::Unknown);
}

#[test]
fn errors_carry_their_codes() {
    let cases = [
        (McpServer::parse_error(), -32700, "Parse error"),
        (McpServer::method_not_found(None, "fly"), -32601, "Method not found: fly"),
        (McpServer::missing_params(None), -32602, "Missing params"),
        (McpServer::invalid_params(None, "no name"), -32602, "Invalid params: no name"),
        (McpServer::init_failed(None, "no disk"), -32000, "Init failed: no disk"),
    ];
    for (response, code, message) in cases {
        assert_eq!(response.jsonrpc, "2.0");
        assert!(response.result.is_none());
        let e = response.error.as_ref().unwrap();
        assert_eq!((e.code, e.message.as_str()), (code, message));
    }
    let text = write_json(&McpServer::method_not_found(Some(number_json(3)), "fly").to_json());
    assert_eq!(
        text.replace(['\n', ' '], ""),
        "{\"jsonrpc\":\"2.0\",\"id\":3,\"error\":{\"code\":-32601,\"message\":\"Methodnotfound:fly\"}}"
    );
    let ok = JsonRpcResponse::success(Some(number_json(-4)), Json::Bool(true)).to_json();
    assert_eq!(write_json(&ok).replace(['\n', ' '], ""), "{\"jsonrpc\":\"2.0\",\"id\":-4,\"result\":true}");
}

#[test]
fn the_server_introduces_itself() {
    let mut server = McpServer::new(Settings::default());
    assert!(!server.initialized);
    let r = server.initialize("0.9.0");
    assert!(server.initialized);
    assert_eq!(r.protocol_version, "2024-11-05");
    assert!(!r.capabilities.tools.list_changed);
    assert_eq!((r.server_info.name.as_str(), r.server_info.version.as_str()), ("lytt", "0.9.0"));
    assert_eq!(
        write_json(&r.to_json()).replace(['\n', ' '], ""),
        "{\"protocolVersion\":\"2024-11-05\",\"capabilities\":{\"tools\":{\"listChanged\":false}},\"serverInfo\":{\"name\":\"lytt\",\"version\":\"0.9.0\"}}"
    );
}

#[test]
fn tool_calls_are_read_with_their_defaults() {
    let server = ready();
    let args = parse_json(r#"{"input": "dQw4w9WgXcQ"}"#).unwrap();
    match server.tool_call("transcribe", Some(&args)) {
        Ok(McpToolCall::Transcribe { input, force }) => {
            assert_eq!(input, "dQw4w9WgXcQ");
            assert!(!force);
        }
        _ => panic!("the call can be read"),
    }
    let forced = parse_json(r#"{"input": "x", "force": true}"#).unwrap();
    assert!(matches!(
        server.tool_call("transcribe", Some(&forced)),
        Ok(McpToolCall::Transcribe { force: true, .. })
    ));
    let search = parse_json(r#"{"query": "q"}"#).unwrap();
    match server.tool_call("search", Some(&search)) {
        Ok(McpToolCall::Search { query, limit, min_score }) => {
            assert_eq!((query.as_str(), limit, min_score), ("q", 5, 300000));
        }
        _ => panic!("the call can be read"),
    }
    let narrow = parse_json(r#"{"query": "q", "limit": 2, "min_score": 0.75}"#).unwrap();
    match server.tool_call("search", Some(&narrow)) {
        Ok(McpToolCall::Search { limit, min_score, .. }) => assert_eq!((limit, min_score), (2, 750000)),
        _ => panic!("the call can be read"),
    }
    let high = parse_json(r#"{"query": "q", "min_score": 7}"#).unwrap();
    match server.tool_call("search", Some(&high)) {
        Ok(McpToolCall::Search { min_score, .. }) => assert_eq!(min_score, 1000000),
        _ => panic!("the call can be read"),
    }
    let ask = parse_json(r#"{"question": "why", "max_chunks": 3}"#).unwrap();
    match server.tool_call("ask", Some(&ask)) {
        Ok(McpToolCall::Ask { question, max_chunks }) => assert_eq!((question.as_str(), max_chunks), ("why", 3)),
        _ => panic!("the call can be read"),
    }
    assert!(matches!(server.tool_call("list_media", None), Ok(McpToolCall::ListMedia)));
    let get = parse_json(r#"{"video_id": "v"}"#).unwrap();
    match server.tool_call("get_transcript", Some(&get)) {
        Ok(McpToolCall::GetTranscript { video_id }) => assert_eq!(video_id, "v"),
        _ => panic!("the call can be read"),
    }
}

#[test]
fn tool_calls_that_cannot_be_served_are_answered() {
    let server = ready();
    let empty = parse_json("{}").unwrap();
    assert_eq!(refused(&server, "fly", Some(&empty)), "Unknown tool: fly");
    assert_eq!(refused(&server, "transcribe", None), "Missing arguments");
    assert_eq!(refused(&server, "transcribe", Some(&empty)), "Missing 'input' argument");
    assert_eq!(refused(&server, "search", Some(&empty)), "Missing 'query' argument");
    assert_eq!(refused(&server, "ask", Some(&empty)), "Missing 'question' argument");
    assert_eq!(refused(&server, "get_transcript", Some(&empty)), "Missing 'video_id' argument");
    let fresh = McpServer::new(Settings::default());
    let args = parse_json(r#"{"input": "x"}"#).unwrap();
    assert_eq!(refused(&fresh, "transcribe", Some(&args)), "Server not initialized");
    assert_eq!(refused(&fresh, "list_media", None), "Server not initialized");
    assert_eq!(refused(&fresh, "transcribe", Some(&empty)), "Missing 'input' argument");
    assert_eq!(refused(&fresh, "fly", None), "Unknown tool: fly");
}

#[test]
fn processing_is_reported() {
    let done = ProcessResult {
        media_id: "v".to_string(),
        title: "A Talk".to_string(),
        chunks_indexed: 4,
        skipped: false,
    };
    assert_eq!(
        text_of(&McpServer::transcribed(&done)),
        "Successfully transcribed and indexed 'A Talk' (4 chunks created)."
    );
    let skipped = ProcessResult {
        media_id: "v".to_string(),
        title: "Already indexed".to_string(),
        chunks_indexed: 0,
        skipped: true,
    };
    assert_eq!(
        text_of(&McpServer::transcribed(&skipped)),
        "'Already indexed' is already indexed (0 chunks). Use force=true to reprocess."
    );
    let failed = McpServer::tool_failed("Transcription failed", &LyttError::ToolNotFound("ffmpeg".to_string()));
    assert_eq!(failed.is_error, Some(true));
    assert_eq!(
        text_of(&failed),
        "Transcription failed: External tool not found: ffmpeg. Please install it and ensure it's in your PATH."
    );
}

#[test]
fn the_server_offers_five_tools() {
    let tools = get_tools();
    let names: Vec<&str> = tools.iter().map(|t| t.name.as_str()).collect();
    assert_eq!(names, vec!["transcribe", "search", "ask", "list_media", "get_transcript"]);
    let search = tools[1].input_schema();
    assert_eq!(
        write_json(search.get("properties").unwrap().get("min_score").unwrap()).replace(['\n', ' '], ""),
        "{\"type\":\"number\",\"description\":\"Minimumsimilarityscore(0.0-1.0)\",\"default\":0.3}"
    );
    let list = tools[3].input_schema();
    assert_eq!(
        write_json(&list).replace(['\n', ' '], ""),
        "{\"type\":\"object\",\"properties\":{},\"required\":[]}"
    );
    let transcribe = tools[0].input_schema();
    assert_eq!(
        transcribe.get("properties").unwrap().get("force").unwrap().get("default").and_then(|d| d.as_bool()),
        Some(false)
    );
}

fn passage(content: &str, section: Option<&str>, start_ms: u64) -> Document {
    Document {
        id: 1,
        video_id: "local_talk".to_string(),
        video_title: "Title".to_string(),
        section_title: section.map(|s| s.to_string()),
        content: content.to_string(),
        start_ms,
        end_ms: start_ms + 1000,
        embedding: Vec::new(),
        chunk_order: 0,
        source_created_at: None,
        indexed_at: 0,
    }
}

#[test]
fn search_answers_show_score_and_start_of_each_passage() {
    assert_eq!(text_of(&McpServer::search_answer(&Vec::new())), "No matching results found.");
    let long = "y".repeat(201);
    let results = vec![
        SearchResult { document: passage("short", None, 65000), score: 876543 },
        SearchResult { document: passage(&long, None, 0), score: 300000 },
    ];
    let expected = format!(
        "Found 2 results:\n\n1. **Title** @ 01:05\n   Score: 0.88\n   short\n\n2. **Title** @ 00:00\n   Score: 0.30\n   {}...\n\n",
        "y".repeat(200)
    );
    let answer = McpServer::search_answer(&results);
    assert_eq!(text_of(&answer), expected);
    assert!(answer.is_error.is_none());
}

#[test]
fn ask_answers_list_their_sources() {
    let bare = RagResponse { answer: "Because.".to_string(), sources: Vec::new() };
    assert_eq!(text_of(&McpServer::ask_answer(&bare)), "Because.\n\n");
    let sources = ContextBuilder::from_results(&vec![SearchResult {
        document: passage("short", None, 65000),
        score: 876543,
    }]);
    let full = RagResponse { answer: "Because.".to_string(), sources };
    assert_eq!(
        text_of(&McpServer::ask_answer(&full)),
        "Because.\n\n**Sources:**\n- Title @ 01:05 (score: 0.88)\n"
    );
}

#[test]
fn media_answers_list_what_is_indexed() {
    assert_eq!(
        text_of(&McpServer::media_answer(&Vec::new())),
        "No media indexed yet. Use the transcribe tool to add content."
    );
    let media = vec![IndexedVideo {
        video_id: "v".to_string(),
        video_title: "Title".to_string(),
        chunk_count: 3,
        total_duration_ms: 3723000,
        indexed_at: 0,
    }];
    assert_eq!(
        text_of(&McpServer::media_answer(&media)),
        "Indexed media (1 items):\n\n- **Title** (ID: v)\n  3 chunks, 1h 2m 3s\n\n"
    );
}

#[test]
fn transcript_answers_put_passages_in_the_order_of_their_starts() {
    let docs = vec![passage("later", Some("Part two"), 30000), passage("first", None, 0)];
    assert_eq!(
        text_of(&McpServer::transcript_answer("local_talk", docs)),
        "**Title**\n\n[00:00] **Segment**\nfirst\n\n[00:30] **Part two**\nlater\n\n"
    );
    let none = McpServer::transcript_answer("gone", Vec::new());
    assert_eq!(none.is_error, Some(true));
    assert_eq!(text_of(&none), "No transcript found for video ID: gone");
}

#[test]
fn answers_of_tools_are_written_with_all_their_parts() {
    let two = ToolCallResult {
        content: vec![
            ToolContent::Text { text: "one".to_string() },
            ToolContent::Text { text: "two".to_string() },
        ],
        is_error: Some(false),
    };
    assert_eq!(
        write_json(&two.to_json()).replace(['\n', ' '], ""),
        r#"{"content":[{"type":"text","text":"one"},{"type":"text","text":"two"}],"isError":false}"#
    );
    let none = ToolCallResult { content: Vec::new(), is_error: None };
    assert_eq!(write_json(&none.to_json()).replace(['\n', ' '], ""), r#"{"content":[]}"#);
}
