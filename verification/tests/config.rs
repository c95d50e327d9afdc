use lytt::config::{
    ChunkingSettings, EmbeddingSettings, GeneralSettings, PromptSettings, Prompts, RagSettings,
    Settings, TranscriptionProcessingSettings, TranscriptionProvider, TranscriptionSettings,
    Variables, VectorStoreSettings, YoutubeSettings,
};

fn variables(pairs: &[(&str, &str)]) -> Variables {
    let mut vars = Variables::new();
    for (k, v) in pairs {
        vars.insert(k.to_string(), v.to_string());
    }
    vars
}

#[test]
fn test_default_prompts() {
    let prompts = Prompts::default();
    assert!(!prompts.chunking.system.is_empty());
    assert!(!prompts.rag.system.is_empty());
}

#[test]
fn test_render_template() {
    let template = "Hello {{name}}, you have {{count}} messages.";
    let mut vars = Variables::new();
    vars.insert("name".to_string(), "Alice".to_string());
    vars.insert("count".to_string(), "5".to_string());
    let result = Prompts::render(template, &vars);
    assert_eq!(result, "Hello Alice, you have 5 messages.");
}

#[test]
fn templates_are_filled_variable_by_variable() {
    assert_eq!(Prompts::render("{{a}}{{a}} {{b}}", &variables(&[("a", "x")])), "xx {{b}}");
    assert_eq!(Prompts::render("{{a}}", &variables(&[("a", "{{b}}"), ("b", "c")])), "c");
    assert_eq!(Prompts::render("{{b}}", &variables(&[("a", "{{b}}"), ("b", "{{a}}")])), "{{a}}");
    assert_eq!(Prompts::render("{{{a}}}", &variables(&[("a", "x")])), "{x}");
    assert_eq!(Prompts::render("", &variables(&[("a", "x")])), "");
    assert_eq!(Prompts::render("{{}}", &variables(&[("", "x")])), "x");
    assert_eq!(Prompts::render("plain", &Variables::new()), "plain");
}

#[test]
fn given_variables_go_before_those_of_the_prompts() {
    let mut prompts = Prompts::default();
    prompts.variables = variables(&[("who", "settings"), ("where", "here")]);
    let out = prompts.render_with_custom("{{who}} {{where}} {{what}}", &variables(&[("who", "call"), ("what", "now")]));
    assert_eq!(out, "call here now");
}

#[test]
fn variables_hold_a_name_once() {
    let mut vars = Variables::new();
    vars.insert("a".to_string(), "1".to_string());
    vars.insert("b".to_string(), "2".to_string());
    vars.insert("a".to_string(), "3".to_string());
    assert_eq!(vars.len(), 2);
    assert_eq!(vars.entries[0], ("a".to_string(), "3".to_string()));
    assert_eq!(vars.duplicate().entries, vars.entries);
}

#[test]
fn default_prompts_refer_to_their_variables() {
    let prompts = Prompts::default();
    assert!(prompts.chunking.user.contains("{{transcript}}"));
    assert!(prompts.chunking.user.contains("{{target_duration}}"));
    assert!(prompts.rag.user.contains("{{question}}"));
    assert!(prompts.rag.chat_system.starts_with("You are a helpful assistant for exploring video content."));
    assert!(prompts.cleanup.system.contains("\"segments\""));
    assert_eq!(prompts.variables.len(), 0);
}

#[test]
fn settings_have_their_defaults() {
    let s = Settings::default();
    assert_eq!(s.general.data_dir, "~/.lytt");
    assert_eq!(s.general.temp_dir, "/tmp/lytt");
    assert_eq!(s.general.log_level, "info");
    assert_eq!(s.transcription.provider, TranscriptionProvider::Whisper);
    assert_eq!(s.transcription.model, "whisper-1");
    assert_eq!(s.transcription.chunk_duration_seconds, 120);
    assert_eq!(s.transcription.max_duration_seconds, 7200);
    assert_eq!(s.transcription.max_concurrent_chunks, 3);
    assert_eq!(s.transcription.processing.cleanup_model, "gpt-4.1");
    assert_eq!(s.embedding.model, "text-embedding-3-small");
    assert_eq!(s.embedding.dimensions, 1536);
    assert_eq!(s.chunking.strategy, "semantic");
    assert_eq!((s.chunking.target_chunk_seconds, s.chunking.min_chunk_seconds, s.chunking.max_chunk_seconds), (180, 60, 600));
    assert_eq!(s.vector_store.sqlite_path, "~/.lytt/vectors.db");
    assert!(s.youtube.api_key.is_none());
    assert!(s.rag.enabled && s.rag.include_timestamps);
    assert_eq!(s.rag.max_context_chunks, 10);
    assert!(s.prompts.custom_dir.is_none());
    assert_eq!(GeneralSettings::default().data_dir, "~/.lytt");
    assert_eq!(TranscriptionSettings::default().model, "whisper-1");
    assert_eq!(EmbeddingSettings::default().provider, "openai");
    assert_eq!(ChunkingSettings::default().model, "gpt-4o-mini");
    assert_eq!(VectorStoreSettings::default().provider, "sqlite");
    assert!(YoutubeSettings::default().api_key.is_none());
    assert_eq!(RagSettings::default().model, "gpt-4o-mini");
    assert_eq!(PromptSettings::default().variables.len(), 0);
}

#[test]
fn text_model_counts_only_where_it_is_named() {
    let mut p = TranscriptionProcessingSettings::default();
    assert_eq!(p.timestamp_model, "whisper-1");
    assert_eq!(p.max_concurrent, 2);
    assert!(p.has_text_model());
    p.text_model = Some(String::new());
    assert!(!p.has_text_model());
    p.text_model = None;
    assert!(!p.has_text_model());
}

#[test]
fn providers_are_read_by_name() {
    assert_eq!("whisper".parse::<TranscriptionProvider>(), Ok(TranscriptionProvider::Whisper));
    assert_eq!(TranscriptionProvider::parse("OpenAI"), Ok(TranscriptionProvider::Whisper));
    assert_eq!(TranscriptionProvider::parse("FUSION"), Ok(TranscriptionProvider::Fusion));
    assert_eq!(
        TranscriptionProvider::parse("Other"),
        Err("Unknown transcription provider: Other".to_string())
    );
    assert_eq!(TranscriptionProvider::Fusion.to_string(), "fusion");
    assert_eq!(TranscriptionProvider::default().to_string(), "whisper");
}

#[test]
fn paths_are_expanded() {
    let mut s = Settings::default();
    s.general.data_dir = "/var/lytt".to_string();
    s.general.temp_dir = "relative/tmp".to_string();
    s.vector_store.sqlite_path = "/var/lytt/v.db".to_string();
    assert_eq!(s.data_dir(), "/var/lytt");
    assert_eq!(s.temp_dir(), "relative/tmp");
    assert_eq!(s.sqlite_path(), "/var/lytt/v.db");
    assert_eq!(Settings::expand_path("a~b"), "a~b");
    assert!(!Settings::expand_path("~/x").is_empty());
    assert!(Settings::expand_path("~/x").ends_with("/x"));
    assert_eq!(Settings::expand_path("~other/x"), "~other/x");
}
