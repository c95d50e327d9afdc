use lytt::config::Prompts;
use lytt::rag::context::{format_context_for_display, format_context_for_prompt, ContextBuilder};
use lytt::rag::response::{AskPlan, ChatRole, RagEngine, RagResponse};
use lytt::rag::ContextChunk;
use lytt::vector_store::{Document, SearchResult};

fn result(video_id: &str, content: &str, start_ms: u64, score: i32) -> SearchResult {
    SearchResult {
        document: Document {
            id: 1,
            video_id: video_id.to_string(),
            video_title: "Title".to_string(),
            section_title: None,
            content: content.to_string(),
            start_ms,
            end_ms: start_ms + 1000,
            embedding: Vec::new(),
            chunk_order: 0,
            source_created_at: None,
            indexed_at: 0,
        },
        score,
    }
}

fn chunks() -> Vec<ContextChunk> {
    ContextBuilder::from_results(&vec![
        result("dQw4w9WgXcQ", "first", 154900, 876543),
        result("local__a_b.mp3", "second", 0, 300000),
    ])
}

#[test]
fn context_is_built_from_results() {
    let c = chunks();
    assert_eq!(c.len(), 2);
    assert_eq!(c[0].timestamp, "02:34");
    assert_eq!(c[0].url.as_deref(), Some("https://youtube.com/watch?v=dQw4w9WgXcQ&t=154s"));
    assert_eq!((c[0].start_ms, c[0].score), (154900, 876543));
    assert!(c[1].url.is_none());
    assert_eq!(c[1].video_id, "local__a_b.mp3");
    let plain = ContextChunk::from(&result("dQw4w9WgXcQ", "first", 154900, 1));
    assert!(plain.url.is_none());
    let b = ContextBuilder::new();
    assert_eq!((b.max_chunks, b.min_score), (10, 300000));
    let other = b.with_max_chunks(3).with_min_score(500000);
    assert_eq!((other.max_chunks, other.min_score), (3, 500000));
}

#[test]
fn context_is_written_for_a_prompt() {
    assert_eq!(
        format_context_for_prompt(&chunks()),
        "---\n[1] Title @ 02:34\nfirst\n---\n\n---\n[2] Title @ 00:00\nsecond\n---"
    );
    assert_eq!(format_context_for_prompt(&Vec::new()), "");
}

#[test]
fn context_is_written_for_a_reader() {
    assert_eq!(
        format_context_for_display(&chunks()),
        "Title @ 02:34 (score: 0.88)\n  Link: https://youtube.com/watch?v=dQw4w9WgXcQ&t=154s\n\nTitle @ 00:00 (score: 0.30)"
    );
}

#[test]
fn scores_are_shown_with_two_digits() {
    let show = |score: i32| {
        let c = ContextBuilder::from_results(&vec![result("local_x", "c", 0, score)]);
        format_context_for_display(&c)
    };
    assert_eq!(show(1000000), "Title @ 00:00 (score: 1.00)");
    assert_eq!(show(-1000000), "Title @ 00:00 (score: -1.00)");
    assert_eq!(show(0), "Title @ 00:00 (score: 0.00)");
    assert_eq!(show(125000), "Title @ 00:00 (score: 0.12)");
    assert_eq!(show(135000), "Title @ 00:00 (score: 0.14)");
    assert_eq!(show(999999), "Title @ 00:00 (score: 1.00)");
    assert_eq!(show(-4000), "Title @ 00:00 (score: -0.00)");
}

#[test]
fn questions_without_context_get_a_canned_answer() {
    let engine = RagEngine::new("gpt-4o-mini", 10);
    match engine.plan_ask("What?", Vec::new()) {
        AskPlan::Answer(r) => {
            assert_eq!(
                r.answer,
                "I couldn't find any relevant information in your video library for this question."
            );
            assert!(r.sources.is_empty());
        }
        AskPlan::AskModel { .. } => panic!("there is nothing to ask with"),
    }
}

#[test]
fn questions_with_context_are_asked() {
    let mut prompts = Prompts::default();
    prompts.rag.user = "Q: {{question}}\nC:\n{{context}}".to_string();
    let engine = RagEngine::new("gpt-4o-mini", 10).with_prompts(prompts);
    match engine.plan_ask("What?", chunks()) {
        AskPlan::AskModel { system, user } => {
            assert_eq!(system, Prompts::default().rag.system);
            assert_eq!(
                user,
                "Q: What?\nC:\n---\n[1] Title @ 02:34\nfirst\n---\n\n---\n[2] Title @ 00:00\nsecond\n---"
            );
        }
        AskPlan::Answer(_) => panic!("the model is to be asked"),
    }
    let r = RagEngine::finish_ask("Because.".to_string(), chunks());
    assert_eq!(r.answer, "Because.");
    assert_eq!(r.sources.len(), 2);
}

#[test]
fn chat_keeps_its_history() {
    let mut engine = RagEngine::new("m", 5);
    assert_eq!(engine.context_builder.max_chunks, 5);
    assert_eq!(engine.conversation_history.len(), 1);
    assert_eq!(engine.conversation_history[0].role, ChatRole::System);
    assert_eq!(engine.conversation_history[0].content, Prompts::default().rag.chat_system);
    let messages = engine.begin_chat("Why?", &Vec::new());
    assert_eq!(messages.len(), 2);
    assert_eq!(messages[1].role, ChatRole::User);
    assert_eq!(
        messages[1].content,
        "Question: Why?\n\n(No relevant context found in video library)"
    );
    let r = engine.finish_chat("Because.".to_string(), Vec::new());
    assert_eq!(r.answer, "Because.");
    assert_eq!(engine.conversation_history.len(), 3);
    assert_eq!(engine.conversation_history[2].role, ChatRole::Assistant);
    let with = engine.begin_chat("And?", &chunks());
    assert_eq!(
        with[3].content,
        "Question: And?\n\nRelevant context from videos:\n---\n[1] Title @ 02:34\nfirst\n---\n\n---\n[2] Title @ 00:00\nsecond\n---"
    );
    engine.clear_history();
    assert_eq!(engine.conversation_history.len(), 1);
    assert_eq!(engine.conversation_history[0].role, ChatRole::System);
}

#[test]
fn chat_history_is_held_to_twenty_messages() {
    let mut engine = RagEngine::new("m", 5);
    for turn in 0..15 {
        engine.begin_chat(&format!("q{}", turn), &Vec::new());
        engine.finish_chat(format!("a{}", turn), Vec::new());
        assert!(engine.conversation_history.len() <= 20);
        assert_eq!(engine.conversation_history[0].role, ChatRole::System);
    }
    assert_eq!(engine.conversation_history.len(), 20);
    assert_eq!(engine.conversation_history[19].content, "a14");
    assert_eq!(
        engine.conversation_history[18].content,
        "Question: q14\n\n(No relevant context found in video library)"
    );
    assert_eq!(engine.conversation_history[1].content, "a5");
    assert_eq!(engine.conversation_history[0].content, Prompts::default().rag.chat_system);
}

#[test]
fn answers_are_shown_with_their_sources() {
    let r = RagResponse { answer: "Because.".to_string(), sources: chunks() };
    assert_eq!(
        r.format_for_display(),
        "Because.\n\n--- Sources ---\n\nTitle @ 02:34 (score: 0.88)\n  https://youtube.com/watch?v=dQw4w9WgXcQ&t=154s\nTitle @ 00:00 (score: 0.30)"
    );
    let bare = RagResponse { answer: "Because.".to_string(), sources: Vec::new() };
    assert_eq!(bare.format_for_display(), "Because.");
}

#[test]
fn rag_errors_are_named() {
    assert_eq!(
        RagEngine::response_failed("timeout").to_string(),
        "OpenAI API error: Failed to generate response: timeout"
    );
    assert_eq!(RagEngine::empty_response().to_string(), "RAG error: Empty response from LLM");
}
