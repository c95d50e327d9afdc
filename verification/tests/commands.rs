use lytt::agent::runner::{AgentMessage, AgentStep, ToolRequest};
use lytt::agent::tools::ToolCall;
use lytt::cli::commands::chat::{
    ChatSession, CHAT_HISTORY_LIMIT, CHAT_SYSTEM_PROMPT, MAX_TOOL_ITERATIONS,
};
use lytt::cli::commands::doctor::{
    check_data_directory, check_database, check_tool, CheckStatus,
};
use lytt::cli::commands::export::{export_documents, export_to_json, in_start_order};
use lytt::cli::commands::init::confirms;
use lytt::cli::commands::transcribe::{chunks_fit, plan_transcribe, saved_message, TranscribeMode};
use lytt::cli::preflight::ToolStatus;
use lytt::error::LyttError;
use lytt::json::{parse_json, Json};
use lytt::mcp::tools::{get_tools, tool_to_json, tools_list};
use lytt::transcription::format::OutputFormat;
use lytt::vector_store::Document;

fn passage(title: Option<&str>, content: &str, start_ms: u64, end_ms: u64) -> Document {
    Document {
        id: start_ms as u128,
        video_id: "vid".to_string(),
        video_title: "A Talk".to_string(),
        section_title: title.map(|t| t.to_string()),
        content: content.to_string(),
        start_ms,
        end_ms,
        embedding: Vec::new(),
        chunk_order: 0,
        source_created_at: None,
        indexed_at: 0,
    }
}

fn request(id: &str, name: &str, arguments: &str) -> ToolRequest {
    ToolRequest { id: id.to_string(), name: name.to_string(), arguments: arguments.to_string() }
}

#[test]
fn working_tools_show_the_first_line_of_their_output() {
    let r = check_tool("ffmpeg", &ToolStatus::Working, "  ffmpeg version 6.0 \nbuilt with gcc\n", "hint");
    assert_eq!(r.status, CheckStatus::Passed);
    assert_eq!(r.name, "ffmpeg");
    assert_eq!(r.message, "ffmpeg version 6.0");
    assert_eq!(r.hint, None);
    let silent = check_tool("yt-dlp", &ToolStatus::Working, "", "hint");
    assert_eq!(silent.message, "installed");
    let long = "v".repeat(60);
    let cut = check_tool("yt-dlp", &ToolStatus::Working, &long, "hint");
    assert_eq!(cut.message, format!("{}...", "v".repeat(50)));
}

#[test]
fn tools_that_do_not_work_are_errors_with_a_hint() {
    let broken = check_tool("ffmpeg", &ToolStatus::Broken, "", "Install with: brew install ffmpeg");
    assert_eq!(broken.status, CheckStatus::Error);
    assert_eq!(broken.message, "installed but not working");
    assert_eq!(broken.hint.as_deref(), Some("Install with: brew install ffmpeg"));
    let missing = check_tool("ffprobe", &ToolStatus::Missing, "", "h");
    assert_eq!((missing.status, missing.message.as_str()), (CheckStatus::Error, "not found"));
    let other = check_tool("yt-dlp", &ToolStatus::Unavailable("permission denied".to_string()), "", "h");
    assert_eq!((other.status, other.message.as_str()), (CheckStatus::Error, "error: permission denied"));
}

#[test]
fn directories_and_database_are_checked() {
    let there = check_data_directory("/home/u/.lytt", true);
    assert_eq!((there.status, there.message.as_str()), (CheckStatus::Passed, "/home/u/.lytt"));
    let missing = check_data_directory("/home/u/.lytt", false);
    assert_eq!(missing.status, CheckStatus::Warning);
    assert_eq!(missing.message, "/home/u/.lytt (will be created)");
    assert_eq!(missing.hint.as_deref(), Some("Directory will be created on first use"));

    let db = check_database("/d/lytt.db", true, Some(1536));
    assert_eq!((db.status, db.message.as_str()), (CheckStatus::Passed, "/d/lytt.db (1.5 KB)"));
    let unknown = check_database("/d/lytt.db", true, None);
    assert_eq!(unknown.message, "/d/lytt.db (unknown size)");
    let none = check_database("/d/lytt.db", false, None);
    assert_eq!((none.status, none.message.as_str()), (CheckStatus::Warning, "/d/lytt.db (not created yet)"));
    assert_eq!(none.hint.as_deref(), Some("Database will be created on first transcription"));
}

#[test]
fn only_y_and_yes_confirm() {
    assert!(confirms("y\n"));
    assert!(confirms("  YES  "));
    assert!(confirms("Yes"));
    assert!(!confirms(""));
    assert!(!confirms("n"));
    assert!(!confirms("yeah"));
    assert!(!confirms("y e s"));
}

#[test]
fn flags_of_transcribe_must_go_together() {
    let e = plan_transcribe(false, true, true, false).unwrap_err();
    assert_eq!((e.shown.as_str(), e.returned.as_str()), ("--embed requires --chunk flag", "--embed requires --chunk"));
    let e = plan_transcribe(true, false, false, false).unwrap_err();
    assert_eq!(e.shown, "--chunk and --embed require --output flag");
    assert_eq!(e.returned, "--chunk/--embed require --output");
    let e = plan_transcribe(false, false, true, true).unwrap_err();
    assert_eq!(e.shown, "--playlist cannot be combined with --output");
    assert_eq!(plan_transcribe(false, false, false, true).unwrap(), TranscribeMode::Playlist);
    assert_eq!(plan_transcribe(true, true, true, false).unwrap(), TranscribeMode::ToFile);
    assert_eq!(plan_transcribe(false, false, true, false).unwrap(), TranscribeMode::ToFile);
    assert_eq!(plan_transcribe(false, false, false, false).unwrap(), TranscribeMode::Index);
    assert!(chunks_fit(true, OutputFormat::Json));
    assert!(!chunks_fit(true, OutputFormat::Srt));
    assert!(chunks_fit(false, OutputFormat::Vtt));
}

#[test]
fn saved_files_are_announced() {
    assert_eq!(saved_message("out.json", true, true, 4, 9), "Saved 4 chunks with embeddings to out.json");
    assert_eq!(saved_message("out.json", true, false, 4, 9), "Saved 4 chunks to out.json");
    assert_eq!(saved_message("out.srt", false, false, 0, 9), "Transcript saved to out.srt (9 segments)");
}

#[test]
fn exported_passages_come_in_the_order_of_their_starts() {
    let docs = vec![
        passage(Some("Second"), "later", 60000, 90500),
        passage(None, "first", 0, 60000),
        passage(Some("Also second"), "same start", 60000, 70000),
    ];
    let sorted = in_start_order(docs.clone());
    let contents: Vec<&str> = sorted.iter().map(|d| d.content.as_str()).collect();
    assert_eq!(contents, vec!["first", "later", "same start"]);

    let j = export_to_json("vid", docs.clone());
    assert_eq!(j.str_field("video_id").as_deref(), Some("vid"));
    assert_eq!(j.str_field("video_title").as_deref(), Some("A Talk"));
    assert_eq!(j.millis_field("total_duration_seconds"), Some(90500));
    assert_eq!(j.u64_field("chunk_count"), Some(3));
    let segments = j.get("segments").and_then(|s| s.as_array()).unwrap();
    assert_eq!(segments.len(), 3);
    assert_eq!(segments[0].str_field("title").as_deref(), Some(""));
    assert_eq!(segments[0].str_field("text").as_deref(), Some("first"));
    assert_eq!(segments[1].str_field("title").as_deref(), Some("Second"));
    assert_eq!(segments[1].millis_field("start_seconds"), Some(60000));
    assert_eq!(segments[1].millis_field("end_seconds"), Some(90500));

    let text = export_documents("vid", docs.clone(), OutputFormat::Json);
    let read = parse_json(&text).unwrap();
    assert_eq!(read.u64_field("chunk_count"), Some(3));
    let keys: Vec<&str> = match &read {
        Json::Object(members) => members.iter().map(|(k, _)| k.as_str()).collect(),
        _ => Vec::new(),
    };
    assert_eq!(keys, vec!["video_id", "video_title", "total_duration_seconds", "chunk_count", "segments"]);
}

#[test]
fn exported_subtitles_hold_one_cue_for_each_passage() {
    let docs = vec![passage(None, "later", 60000, 90500), passage(None, "first", 0, 60000)];
    let srt = export_documents("vid", docs.clone(), OutputFormat::Srt);
    assert_eq!(
        srt,
        "1\n00:00:00,000 --> 00:01:00,000\nfirst\n\n2\n00:01:00,000 --> 00:01:30,500\nlater\n\n"
    );
    let vtt = export_documents("vid", docs, OutputFormat::Vtt);
    assert_eq!(
        vtt,
        "WEBVTT\n\n1\n00:00:00.000 --> 00:01:00.000\nfirst\n\n2\n00:01:00.000 --> 00:01:30.500\nlater\n\n"
    );
    assert_eq!(export_documents("vid", Vec::new(), OutputFormat::Srt), "");
}

#[test]
fn tools_are_listed_for_a_client() {
    let tools = get_tools();
    let one = tool_to_json(&tools[0]);
    assert_eq!(one.str_field("name").as_deref(), Some("transcribe"));
    assert!(one.str_field("description").unwrap().starts_with("Transcribe audio or video"));
    let schema = one.get("inputSchema").unwrap();
    assert_eq!(schema.str_field("type").as_deref(), Some("object"));
    assert!(schema.get("properties").and_then(|p| p.get("input")).is_some());

    let list = tools_list(&tools);
    let listed = list.get("tools").and_then(|t| t.as_array()).unwrap();
    let names: Vec<String> = listed.iter().map(|t| t.str_field("name").unwrap()).collect();
    assert_eq!(names, vec!["transcribe", "search", "ask", "list_media", "get_transcript"]);
}

#[test]
fn a_conversation_starts_with_what_the_assistant_is_told() {
    let chat = ChatSession::new("gpt-4o-mini");
    assert_eq!(chat.agent.model, "gpt-4o-mini");
    assert_eq!(chat.agent.max_iterations, MAX_TOOL_ITERATIONS);
    assert_eq!(MAX_TOOL_ITERATIONS, 10);
    assert_eq!(CHAT_HISTORY_LIMIT, 30);
    assert_eq!(chat.run.messages.len(), 1);
    match &chat.run.messages[0] {
        AgentMessage::System(s) => {
            assert_eq!(s, CHAT_SYSTEM_PROMPT);
            assert!(s.starts_with("You are a helpful assistant for exploring video and audio content."));
            assert!(s.ends_with("Remember context from earlier in the conversation."));
        }
        _ => panic!("the conversation starts with the system message"),
    }
    assert_eq!(chat.next_tool(), None);
}

#[test]
fn a_message_is_answered_after_its_tools_have_run() {
    let mut chat = ChatSession::new("m");
    chat.send("what is there?");
    assert!(matches!(chat.advance(), AgentStep::CallModel));
    assert_eq!(chat.run.iterations, 1);
    let asked = chat.model_replied(
        Some("ignored".to_string()),
        Some(vec![request("c1", "list_videos", "{}"), request("c2", "nothing", "{}")]),
    );
    assert_eq!(asked, None);
    assert_eq!(chat.next_tool().as_deref(), Some("list_videos"));
    assert!(matches!(chat.advance(), AgentStep::RunTool(ToolCall::ListVideos)));
    chat.tool_finished(Ok("two videos".to_string()));
    assert_eq!(chat.next_tool().as_deref(), Some("nothing"));
    assert!(matches!(chat.advance(), AgentStep::Continue));
    assert_eq!(chat.next_tool(), None);
    assert!(matches!(chat.advance(), AgentStep::CallModel));
    assert_eq!(chat.run.iterations, 2);
    let answer = chat.model_replied(Some("There are two.".to_string()), None);
    assert_eq!(answer.as_deref(), Some("There are two."));

    let kinds: Vec<&str> = chat
        .run
        .messages
        .iter()
        .map(|m| match m {
            AgentMessage::System(_) => "system",
            AgentMessage::User(_) => "user",
            AgentMessage::Assistant(_) => "assistant",
            AgentMessage::ToolCalls(_) => "calls",
            AgentMessage::ToolResult { .. } => "result",
        })
        .collect();
    assert_eq!(kinds, vec!["system", "user", "calls", "result", "result", "assistant"]);
    match &chat.run.messages[3] {
        AgentMessage::ToolResult { tool_call_id, content } => {
            assert_eq!((tool_call_id.as_str(), content.as_str()), ("c1", "two videos"));
        }
        _ => panic!("the tool's answer follows the calls"),
    }
    match &chat.run.messages[4] {
        AgentMessage::ToolResult { tool_call_id, content } => {
            assert_eq!(tool_call_id, "c2");
            assert_eq!(content, "Tool error: Agent error: Unknown tool: nothing");
        }
        _ => panic!("the unread call is answered too"),
    }

    chat.send("and then?");
    assert_eq!(chat.run.iterations, 0);
    assert_eq!(chat.run.messages.len(), 7);
    let empty = chat.model_replied(None, Some(Vec::new()));
    assert_eq!(empty.as_deref(), Some(""));
    assert_eq!(chat.run.messages.len(), 8);
}

#[test]
fn the_model_is_asked_ten_times_at_most_for_a_message() {
    let mut chat = ChatSession::new("m");
    chat.send("go on");
    for round in 0..10 {
        assert!(matches!(chat.advance(), AgentStep::CallModel), "round {}", round);
        assert_eq!(chat.model_replied(None, Some(vec![request("c", "list_videos", "{}")])), None);
        assert!(matches!(chat.advance(), AgentStep::RunTool(ToolCall::ListVideos)));
        chat.tool_finished(Err(LyttError::VectorStore("locked".to_string())));
    }
    let before = chat.run.messages.len();
    match chat.advance() {
        AgentStep::Failed(LyttError::Agent(m)) => assert_eq!(m, "Too many tool iterations"),
        _ => panic!("the rounds are used up"),
    }
    assert_eq!(chat.run.messages.len(), before);
    match chat.run.messages.last() {
        Some(AgentMessage::ToolResult { content, .. }) => {
            assert_eq!(content, "Tool error: Vector store error: locked")
        }
        _ => panic!("the last message is the tool's failure"),
    }
    chat.send("again");
    assert!(matches!(chat.advance(), AgentStep::CallModel));
    match ChatSession::model_failed("timeout") {
        LyttError::OpenAI(m) => assert_eq!(m, "Chat API error: timeout"),
        _ => panic!("a failure of the model is an error of the provider"),
    }
}

#[test]
fn a_conversation_is_held_to_thirty_messages() {
    let mut chat = ChatSession::new("m");
    for turn in 0..14 {
        chat.send(&format!("question {}", turn));
        assert_eq!(chat.model_replied(Some(format!("answer {}", turn)), None).unwrap(), format!("answer {}", turn));
    }
    assert_eq!(chat.run.messages.len(), 29);
    chat.send("question 14");
    assert_eq!(chat.run.messages.len(), 30);
    chat.model_replied(Some("answer 14".to_string()), None);
    assert_eq!(chat.run.messages.len(), 30);
    assert!(matches!(&chat.run.messages[0], AgentMessage::System(s) if s == CHAT_SYSTEM_PROMPT));
    assert!(matches!(&chat.run.messages[1], AgentMessage::Assistant(s) if s == "answer 0"));
    assert!(matches!(&chat.run.messages[2], AgentMessage::User(s) if s == "question 1"));
    assert!(matches!(&chat.run.messages[29], AgentMessage::Assistant(s) if s == "answer 14"));

    chat.send("question 15");
    chat.model_replied(Some("answer 15".to_string()), Some(Vec::new()));
    assert_eq!(chat.run.messages.len(), 32);

    chat.clear_history();
    assert_eq!(chat.run.messages.len(), 1);
    assert!(matches!(&chat.run.messages[0], AgentMessage::System(_)));
}
