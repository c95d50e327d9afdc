use lytt::agent::runner::{
    Agent, AgentMessage, AgentStep, AgentTurn, ToolCallRecord, ToolRequest,
};
use lytt::agent::tools::{
    format_seconds, parse_tool_call, tool_definitions, ToolCall, ToolContext,
};
use lytt::error::LyttError;
use lytt::vector_store::{Document, IndexedVideo, SearchResult};

fn doc(video_id: &str, content: &str, start_ms: u64, end_ms: u64, order: usize) -> Document {
    Document {
        id: order as u128 + 1,
        video_id: video_id.to_string(),
        video_title: "Title".to_string(),
        section_title: None,
        content: content.to_string(),
        start_ms,
        end_ms,
        embedding: Vec::new(),
        chunk_order: order,
        source_created_at: None,
        indexed_at: 0,
    }
}

fn request(id: &str, name: &str, arguments: &str) -> ToolRequest {
    ToolRequest { id: id.to_string(), name: name.to_string(), arguments: arguments.to_string() }
}

#[test]
fn test_tool_call_record_display() {
    let record = ToolCallRecord {
        name: "search".to_string(),
        arguments: r#"{"query": "test"}"#.to_string(),
        result: "Found results".to_string(),
    };
    assert_eq!(record.to_string(), r#"search({"query": "test"})"#);
}

#[test]
fn test_parse_search_tool() {
    let tool = parse_tool_call("search", r#"{"query": "authentication", "limit": 10}"#).unwrap();
    match tool {
        ToolCall::Search { query, limit } => {
            assert_eq!(query, "authentication");
            assert_eq!(limit, 10);
        }
        _ => panic!("Expected Search tool"),
    }
}

#[test]
fn test_parse_get_transcript_tool() {
    let tool = parse_tool_call("get_transcript", r#"{"video_id": "abc123"}"#).unwrap();
    match tool {
        ToolCall::GetTranscript { video_id } => {
            assert_eq!(video_id, "abc123");
        }
        _ => panic!("Expected GetTranscript tool"),
    }
}

#[test]
fn test_format_seconds() {
    assert_eq!(format_seconds(65000), "01:05");
    assert_eq!(format_seconds(3665000), "01:01:05");
    assert_eq!(format_seconds(0), "00:00");
}

#[test]
fn search_tool_has_a_default_limit() {
    match parse_tool_call("search", r#"{"query": "q"}"#).unwrap() {
        ToolCall::Search { limit, .. } => assert_eq!(limit, 5),
        _ => panic!("Expected Search tool"),
    }
    match parse_tool_call("search", r#"{"query": "q", "limit": 2.5}"#).unwrap() {
        ToolCall::Search { limit, .. } => assert_eq!(limit, 5),
        _ => panic!("Expected Search tool"),
    }
    match parse_tool_call("search", r#"{"query": "q", "limit": 4294967297}"#).unwrap() {
        ToolCall::Search { limit, .. } => assert_eq!(limit, 1),
        _ => panic!("Expected Search tool"),
    }
}

#[test]
fn segment_tool_reads_seconds() {
    let call = parse_tool_call(
        "get_segment",
        r#"{"video_id": "v", "start_seconds": 12.5, "end_seconds": 60}"#,
    )
    .unwrap();
    match call {
        ToolCall::GetSegment { video_id, start_ms, end_ms } => {
            assert_eq!(video_id, "v");
            assert_eq!((start_ms, end_ms), (12500, 60000));
        }
        _ => panic!("Expected GetSegment tool"),
    }
}

#[test]
fn tools_without_arguments_are_read() {
    assert!(matches!(parse_tool_call("list_videos", "{}"), Ok(ToolCall::ListVideos)));
    match parse_tool_call("get_video_info", r#"{"video_id": "v"}"#) {
        Ok(ToolCall::GetVideoInfo { video_id }) => assert_eq!(video_id, "v"),
        _ => panic!("Expected GetVideoInfo tool"),
    }
}

#[test]
fn unread_tool_calls_say_what_is_wrong() {
    let cases = [
        ("search", "{}", "Missing 'query' argument"),
        ("search", r#"{"query": 5}"#, "Missing 'query' argument"),
        ("get_transcript", "[]", "Missing 'video_id' argument"),
        ("get_segment", r#"{"video_id": "v"}"#, "Missing 'start_seconds' argument"),
        ("get_segment", r#"{"video_id": "v", "start_seconds": 1}"#, "Missing 'end_seconds' argument"),
        ("get_video_info", "{}", "Missing 'video_id' argument"),
        ("fly", "{}", "Unknown tool: fly"),
    ];
    for (name, arguments, expected) in cases {
        match parse_tool_call(name, arguments) {
            Err(LyttError::Agent(m)) => assert_eq!(m, expected),
            _ => panic!("the call is wrong"),
        }
    }
    match parse_tool_call("list_videos", "{") {
        Err(LyttError::Agent(m)) => {
            assert!(m.starts_with("Invalid tool arguments: "));
            assert!(m.len() > "Invalid tool arguments: ".len());
        }
        _ => panic!("the arguments are no JSON"),
    }
}

#[test]
fn five_tools_are_offered() {
    let tools = tool_definitions();
    let names: Vec<&str> = tools.iter().map(|t| t.name.as_str()).collect();
    assert_eq!(names, vec!["search", "get_transcript", "get_segment", "list_videos", "get_video_info"]);
    let search = tools[0].input_schema();
    let properties = search.get("properties").unwrap();
    assert_eq!(
        properties.get("limit").unwrap().get("default").and_then(|d| d.as_u64()),
        Some(5)
    );
    assert_eq!(
        properties.get("query").unwrap().get("type").and_then(|d| d.as_str()).map(|s| s.as_str()),
        Some("string")
    );
    assert_eq!(search.get("required").and_then(|r| r.as_array()).map(|r| r.len()), Some(1));
    assert!(tools[3].input_schema().get("required").is_none());
}

#[test]
fn search_results_are_written_out() {
    assert_eq!(ToolContext::execute_search(&Vec::new()), "No relevant results found.");
    let long: String = "x".repeat(600);
    let results = vec![
        SearchResult { document: doc("vid", "short", 65000, 70000, 0), score: 900000 },
        SearchResult { document: doc("vid", &long, 0, 1000, 1), score: 800000 },
    ];
    let out = ToolContext::execute_search(&results);
    let expected = format!(
        "Found 2 results:\n\n1. [vid] Title @ 01:05\n   short\n\n2. [vid] Title @ 00:00\n   {}",
        "x".repeat(500)
    );
    assert_eq!(out, expected);
}

#[test]
fn transcript_tool_puts_passages_in_order() {
    let docs = vec![doc("v", "second", 30000, 60499, 1), doc("v", "first", 0, 30000, 0)];
    assert_eq!(
        ToolContext::execute_get_transcript("v", docs).unwrap(),
        "# Title\n\nDuration: 60 seconds\n\n[00:00] first\n\n[00:30] second"
    );
    match ToolContext::execute_get_transcript("v", Vec::new()) {
        Err(LyttError::VideoNotFound(id)) => assert_eq!(id, "v"),
        _ => panic!("there are no passages"),
    }
}

#[test]
fn segment_tool_returns_what_shares_time() {
    let docs = vec![
        doc("v", "first", 0, 30000, 0),
        doc("v", "second", 30000, 60000, 1),
        doc("v", "third", 60000, 90000, 2),
    ];
    assert_eq!(
        ToolContext::execute_get_segment("v", &docs, 30000, 60000).unwrap(),
        "[00:30 - 01:00] second"
    );
    assert_eq!(
        ToolContext::execute_get_segment("v", &docs, 29999, 60001).unwrap(),
        "[00:00 - 00:30] first\n\n[00:30 - 01:00] second\n\n[01:00 - 01:30] third"
    );
    assert_eq!(
        ToolContext::execute_get_segment("v", &docs, 90000, 100500).unwrap(),
        "No content found between 90 and 100.5 seconds."
    );
    assert!(matches!(
        ToolContext::execute_get_segment("v", &Vec::new(), 0, 1),
        Err(LyttError::VideoNotFound(_))
    ));
}

#[test]
fn listing_and_information_are_written_out() {
    assert_eq!(ToolContext::execute_list_videos(&Vec::new()), "No videos indexed yet.");
    let video = IndexedVideo {
        video_id: "v".to_string(),
        video_title: "Title".to_string(),
        chunk_count: 3,
        total_duration_ms: 90500,
        indexed_at: 0,
    };
    assert_eq!(
        ToolContext::execute_list_videos(&vec![video.clone()]),
        "Indexed videos (1):\n\n- Title (ID: v, 3 chunks, 90s)"
    );
    assert_eq!(
        ToolContext::execute_get_video_info("v", Some(&video)).unwrap(),
        "Video: Title\nID: v\nChunks: 3\nDuration: 90 seconds\nIndexed: 1970-01-01 00:00:00"
    );
    match ToolContext::execute_get_video_info("w", None) {
        Err(LyttError::VideoNotFound(id)) => assert_eq!(id, "w"),
        _ => panic!("the media is not known"),
    }
}

#[test]
fn whole_seconds_round_half_to_even() {
    let mut video = IndexedVideo {
        video_id: "v".to_string(),
        video_title: "T".to_string(),
        chunk_count: 1,
        total_duration_ms: 500,
        indexed_at: 0,
    };
    assert!(ToolContext::execute_list_videos(&vec![video.clone()]).ends_with(", 0s)"));
    video.total_duration_ms = 1500;
    assert!(ToolContext::execute_list_videos(&vec![video.clone()]).ends_with(", 2s)"));
    video.total_duration_ms = 2501;
    assert!(ToolContext::execute_list_videos(&vec![video]).ends_with(", 3s)"));
}

#[test]
fn agent_starts_with_system_and_task() {
    let plain = Agent::new("gpt-4o-mini");
    assert_eq!(plain.max_iterations, 15);
    assert!(plain.system_prompt.starts_with("You are an intelligent assistant with access to a video knowledge base."));
    assert!(plain.system_prompt.ends_with("(headers, lists, etc.)."));
    let agent = plain.with_system_prompt("You help.");
    let run = agent.begin("Summarise", Some("video abc"));
    assert_eq!(run.messages.len(), 2);
    match &run.messages[0] {
        AgentMessage::System(s) => assert_eq!(s, "You help."),
        _ => panic!("the system message comes first"),
    }
    match &run.messages[1] {
        AgentMessage::User(s) => assert_eq!(s, "Context: video abc\n\nTask: Summarise"),
        _ => panic!("the task comes second"),
    }
    let plain = agent.begin("Summarise", None);
    match &plain.messages[1] {
        AgentMessage::User(s) => assert_eq!(s, "Summarise"),
        _ => panic!("the task comes second"),
    }
}

#[test]
fn agent_answers_when_the_model_asks_for_no_tool() {
    let agent = Agent::new("m");
    let mut run = agent.begin("task", None);
    assert!(matches!(agent.advance(&mut run), AgentStep::CallModel));
    match agent.model_replied(run, Some("done".to_string()), Some(Vec::new())) {
        AgentTurn::Done(r) => {
            assert_eq!(r.content, "done");
            assert_eq!(r.iterations, 1);
            assert!(r.tool_calls.is_empty());
        }
        AgentTurn::Continue(_) => panic!("the model has answered"),
    }
    let mut again = agent.begin("task", None);
    agent.advance(&mut again);
    match agent.model_replied(again, None, None) {
        AgentTurn::Done(r) => assert_eq!(r.content, ""),
        AgentTurn::Continue(_) => panic!("the model has answered"),
    }
}

#[test]
fn agent_is_bounded_by_its_iterations() {
    let agent = Agent::new("m").with_max_iterations(3);
    let mut run = agent.begin("task", None);
    let mut asked = 0;
    let failure = loop {
        match agent.advance(&mut run) {
            AgentStep::CallModel => {
                asked += 1;
                let calls = vec![request("c", "list_videos", "{}")];
                run = match agent.model_replied(run, None, Some(calls)) {
                    AgentTurn::Continue(next) => next,
                    AgentTurn::Done(_) => panic!("the model asked for a tool"),
                };
            }
            AgentStep::RunTool(tool) => {
                assert!(matches!(tool, ToolCall::ListVideos));
                agent.tool_finished(&mut run, Ok("No videos indexed yet.".to_string()));
            }
            AgentStep::Continue => {}
            AgentStep::Failed(e) => break e,
        }
    };
    assert_eq!(asked, 3);
    assert_eq!(run.iterations, 3);
    match failure {
        LyttError::Agent(m) => assert_eq!(m, "Agent exceeded maximum iterations (3)"),
        _ => panic!("the agent fails as an agent"),
    }
    assert_eq!(run.tool_calls_made.len(), 3);
    assert_eq!(run.tool_calls_made[0].name, "list_videos");
    assert_eq!(run.tool_calls_made[0].result, "No videos indexed yet.");
    assert_eq!(run.messages.len(), 2 + 3 * 2);
}

#[test]
fn agent_tells_the_model_of_failed_tools() {
    let agent = Agent::new("m");
    let mut run = agent.begin("task", None);
    agent.advance(&mut run);
    let calls = vec![
        request("a", "search", "{}"),
        request("b", "get_transcript", r#"{"video_id": "v"}"#),
        request("c", "search", "nonsense"),
    ];
    let mut run = match agent.model_replied(run, None, Some(calls)) {
        AgentTurn::Continue(next) => next,
        AgentTurn::Done(_) => panic!("the model asked for tools"),
    };
    assert!(matches!(agent.advance(&mut run), AgentStep::Continue));
    assert_eq!(
        run.tool_calls_made[0].result,
        "Tool error: Agent error: Missing 'query' argument"
    );
    match agent.advance(&mut run) {
        AgentStep::RunTool(ToolCall::GetTranscript { video_id }) => assert_eq!(video_id, "v"),
        _ => panic!("the second call can be read"),
    }
    agent.tool_finished(&mut run, Err(LyttError::VideoNotFound("v".to_string())));
    assert_eq!(run.tool_calls_made[1].result, "Tool error: Media not found: v");
    assert!(matches!(agent.advance(&mut run), AgentStep::Continue));
    assert!(run.tool_calls_made[2]
        .result
        .starts_with("Tool error: Agent error: Invalid tool arguments: "));
    match &run.messages[4] {
        AgentMessage::ToolResult { tool_call_id, content } => {
            assert_eq!(tool_call_id, "b");
            assert_eq!(content, "Tool error: Media not found: v");
        }
        _ => panic!("the result of the tool follows the request"),
    }
    assert!(matches!(agent.advance(&mut run), AgentStep::CallModel));
    assert_eq!(run.iterations, 2);
}

#[test]
fn agent_errors_of_the_model_are_named() {
    assert_eq!(
        Agent::model_failed("timeout").to_string(),
        "OpenAI API error: Agent API error: timeout"
    );
    assert_eq!(Agent::no_response().to_string(), "Agent error: No response from model");
    let agent = Agent::new("m").with_system_prompt("other").with_max_iterations(0);
    let mut run = agent.begin("t", None);
    assert!(matches!(agent.advance(&mut run), AgentStep::Failed(_)));
    assert_eq!(agent.system_prompt, "other");
}
