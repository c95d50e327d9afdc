use lytt::audio_source::{MediaMetadata, SourceType};
use lytt::chunking::{ChunkingStrategy, ContentChunk};
use lytt::config::{Prompts, Settings, TranscriptionProvider};
use lytt::error::LyttError;
use lytt::orchestrator::{
    MediaRun, Orchestrator, PipelineAction, PipelineEvent, PipelineStage,
};
use lytt::transcription::models::{Transcript, TranscriptSegment};
use lytt::vector_store::MemoryVectorStore;

fn orchestrator() -> Orchestrator {
    Orchestrator::new(Settings::default(), Prompts::default())
}

fn metadata(id: &str, duration: Option<u32>) -> MediaMetadata {
    MediaMetadata {
        id: id.to_string(),
        title: "A Talk".to_string(),
        description: None,
        duration_seconds: duration,
        source_type: SourceType::YouTube,
        source_url: format!("https://www.youtube.com/watch?v={}", id),
        published_at: Some(42),
        channel: None,
        thumbnail_url: None,
    }
}

fn transcript() -> Transcript {
    Transcript::new("id1".to_string(), vec![TranscriptSegment::new(0, 60000, "said".to_string())])
}

fn chunk(content: &str, order: usize) -> ContentChunk {
    ContentChunk::new(None, content.to_string(), 0, 60000, order)
}

/// Drives a run against an index in memory, with stubs for everything else.
fn process(
    o: &Orchestrator,
    store: &mut MemoryVectorStore,
    input: &str,
    force: bool,
    transcribed: &mut usize,
) -> (MediaRun, PipelineAction) {
    let (mut run, mut action) = o.begin(input, false, force);
    loop {
        let event = match action {
            PipelineAction::CheckIndexed => PipelineEvent::Indexed(store.is_video_indexed(&run.media_id)),
            PipelineAction::FetchMetadata => PipelineEvent::Metadata(metadata(&run.media_id, Some(60))),
            PipelineAction::ExtractAudio => PipelineEvent::Audio("/tmp/a.mp3".to_string()),
            PipelineAction::Transcribe => {
                *transcribed += 1;
                PipelineEvent::Transcribed(transcript())
            }
            PipelineAction::StoreTranscript => {
                let m = run.metadata.as_ref().unwrap();
                store.store_transcript(&m.id, &m.title, run.transcript.as_ref().unwrap(), 7);
                PipelineEvent::TranscriptStored(true)
            }
            PipelineAction::Chunk => {
                PipelineEvent::Chunked(vec![chunk("one", 0), chunk(&format!("run {}", *transcribed), 1)])
            }
            PipelineAction::DeleteDocuments => {
                store.delete_by_video_id(&run.metadata.as_ref().unwrap().id);
                PipelineEvent::Deleted
            }
            PipelineAction::Embed => {
                let texts = Orchestrator::texts(&run);
                PipelineEvent::Embedded(texts.iter().map(|t| vec![t.len() as u32]).collect(), 1700000000000000)
            }
            PipelineAction::Upsert => {
                let docs = std::mem::take(&mut run.documents);
                PipelineEvent::Upserted(store.upsert_batch(docs))
            }
            PipelineAction::RemoveAudio => PipelineEvent::AudioRemoved,
            PipelineAction::Finish | PipelineAction::Fail => return (run, action),
        };
        action = o.advance(&mut run, event);
    }
}

#[test]
fn media_are_processed_then_skipped_then_replaced() {
    let o = orchestrator();
    let mut store = MemoryVectorStore::new();
    let mut transcribed = 0;
    let (run, action) = process(&o, &mut store, "dQw4w9WgXcQ", false, &mut transcribed);
    assert_eq!(action, PipelineAction::Finish);
    let first = run.result.unwrap();
    assert!(first.chunks_indexed > 0 && !first.skipped);
    assert_eq!((first.media_id.as_str(), first.title.as_str()), ("dQw4w9WgXcQ", "A Talk"));
    assert_eq!(transcribed, 1);
    assert!(store.has_transcript("dQw4w9WgXcQ"));

    let (run, action) = process(&o, &mut store, "dQw4w9WgXcQ", false, &mut transcribed);
    assert_eq!(action, PipelineAction::Finish);
    let second = run.result.unwrap();
    assert!(second.skipped);
    assert_eq!(second.chunks_indexed, 0);
    assert_eq!(second.title, "Already indexed");
    assert_eq!(transcribed, 1);

    let (run, _) = process(&o, &mut store, "dQw4w9WgXcQ", true, &mut transcribed);
    let third = run.result.unwrap();
    assert_eq!((third.chunks_indexed, third.skipped), (2, false));
    assert_eq!(transcribed, 2);
    let docs = store.get_by_video_id("dQw4w9WgXcQ");
    let contents: Vec<&str> = docs.iter().map(|d| d.content.as_str()).collect();
    assert_eq!(contents, vec!["one", "run 2"]);
    assert_eq!(docs[1].embedding, vec![5]);
    assert_eq!(docs[1].source_created_at, Some(42));
    assert_eq!(docs[1].video_title, "A Talk");
}

#[test]
fn inputs_that_name_no_media_fail_at_once() {
    let o = orchestrator();
    let (run, action) = o.begin("nothing here", false, false);
    assert_eq!(action, PipelineAction::Fail);
    assert_eq!(run.stage, PipelineStage::Failed);
    match run.error {
        Some(LyttError::InvalidInput(m)) => assert_eq!(m, "Could not parse input: nothing here"),
        _ => panic!("the input names no media"),
    }
    let (local, action) = o.begin("talk.mp3", false, true);
    assert_eq!(action, PipelineAction::FetchMetadata);
    assert_eq!((local.source, local.media_id.as_str()), (SourceType::Local, "talk.mp3"));
}

#[test]
fn media_that_are_too_long_fail() {
    let o = orchestrator();
    let (mut run, _) = o.begin("dQw4w9WgXcQ", false, true);
    let action = o.advance(&mut run, PipelineEvent::Metadata(metadata("dQw4w9WgXcQ", Some(7201))));
    assert_eq!(action, PipelineAction::Fail);
    match run.error {
        Some(LyttError::InvalidInput(m)) => {
            assert_eq!(m, "Media duration (7201 seconds) exceeds maximum (7200 seconds)")
        }
        _ => panic!("the media is too long"),
    }
    let (mut run, _) = o.begin("dQw4w9WgXcQ", false, true);
    assert_eq!(
        o.advance(&mut run, PipelineEvent::Metadata(metadata("dQw4w9WgXcQ", Some(7200)))),
        PipelineAction::ExtractAudio
    );
    let (mut run, _) = o.begin("dQw4w9WgXcQ", false, true);
    assert_eq!(
        o.advance(&mut run, PipelineEvent::Metadata(metadata("dQw4w9WgXcQ", None))),
        PipelineAction::ExtractAudio
    );
}

#[test]
fn failures_after_the_audio_is_there_remove_it() {
    let o = orchestrator();
    let (mut run, _) = o.begin("dQw4w9WgXcQ", false, true);
    o.advance(&mut run, PipelineEvent::Metadata(metadata("dQw4w9WgXcQ", None)));
    assert_eq!(o.advance(&mut run, PipelineEvent::Audio("/a".to_string())), PipelineAction::Transcribe);
    let action = o.advance(&mut run, PipelineEvent::Failed(LyttError::Transcription("no".to_string())));
    assert_eq!(action, PipelineAction::RemoveAudio);
    assert_eq!(o.advance(&mut run, PipelineEvent::AudioRemoved), PipelineAction::Fail);
    assert!(matches!(run.error, Some(LyttError::Transcription(_))));
    assert_eq!(o.advance(&mut run, PipelineEvent::Transcribed(transcript())), PipelineAction::Fail);

    let (mut early, _) = o.begin("dQw4w9WgXcQ", false, true);
    assert_eq!(
        o.advance(&mut early, PipelineEvent::Failed(LyttError::VideoSource("gone".to_string()))),
        PipelineAction::Fail
    );
}

#[test]
fn a_transcript_that_cannot_be_kept_does_not_stop_the_run() {
    let o = orchestrator();
    let (mut run, _) = o.begin("dQw4w9WgXcQ", false, true);
    o.advance(&mut run, PipelineEvent::Metadata(metadata("dQw4w9WgXcQ", None)));
    o.advance(&mut run, PipelineEvent::Audio("/a".to_string()));
    assert_eq!(o.advance(&mut run, PipelineEvent::Transcribed(transcript())), PipelineAction::StoreTranscript);
    assert_eq!(o.advance(&mut run, PipelineEvent::TranscriptStored(false)), PipelineAction::Chunk);
    let (mut other, _) = o.begin("dQw4w9WgXcQ", false, true);
    o.advance(&mut other, PipelineEvent::Metadata(metadata("dQw4w9WgXcQ", None)));
    o.advance(&mut other, PipelineEvent::Audio("/a".to_string()));
    o.advance(&mut other, PipelineEvent::Transcribed(transcript()));
    assert_eq!(
        o.advance(&mut other, PipelineEvent::Failed(LyttError::Database("locked".to_string()))),
        PipelineAction::Chunk
    );
    assert!(other.error.is_none());
}

#[test]
fn without_chunks_the_old_documents_are_removed_all_the_same() {
    let o = orchestrator();
    let (mut run, _) = o.begin("dQw4w9WgXcQ", false, true);
    assert!(run.error.is_none());
    assert_eq!(o.advance(&mut run, PipelineEvent::Deleted), PipelineAction::FetchMetadata);
    assert_eq!(run.stage, PipelineStage::FetchingMetadata);
    o.advance(&mut run, PipelineEvent::Metadata(metadata("dQw4w9WgXcQ", None)));
    o.advance(&mut run, PipelineEvent::Audio("/a".to_string()));
    o.advance(&mut run, PipelineEvent::Transcribed(transcript()));
    o.advance(&mut run, PipelineEvent::TranscriptStored(true));
    assert_eq!(o.advance(&mut run, PipelineEvent::Chunked(Vec::new())), PipelineAction::DeleteDocuments);
    assert!(run.result.is_none());
    assert_eq!(o.advance(&mut run, PipelineEvent::Deleted), PipelineAction::Embed);
    assert!(Orchestrator::texts(&run).is_empty());
    assert_eq!(o.advance(&mut run, PipelineEvent::Embedded(Vec::new(), 0)), PipelineAction::Upsert);
    assert!(run.documents.is_empty());
    assert_eq!(o.advance(&mut run, PipelineEvent::Upserted(0)), PipelineAction::RemoveAudio);
    assert_eq!(
        o.advance(&mut run, PipelineEvent::Failed(LyttError::Io("busy".to_string()))),
        PipelineAction::Finish
    );
    assert_eq!(run.audio_path.as_deref(), Some("/a"));
    assert!(run.error.is_none());
    let r = run.result.unwrap();
    assert_eq!((r.chunks_indexed, r.skipped), (0, false));
    assert_eq!(r.title, "A Talk");
}

#[test]
fn a_step_leaves_alone_what_it_does_not_name() {
    let o = orchestrator();
    let (mut run, _) = o.begin("dQw4w9WgXcQ", false, true);
    o.advance(&mut run, PipelineEvent::Metadata(metadata("dQw4w9WgXcQ", Some(60))));
    o.advance(&mut run, PipelineEvent::Audio("/a".to_string()));
    o.advance(&mut run, PipelineEvent::Transcribed(transcript()));
    o.advance(&mut run, PipelineEvent::TranscriptStored(false));
    o.advance(&mut run, PipelineEvent::Chunked(vec![chunk("one", 0), chunk("two", 1), chunk("three", 2)]));
    o.advance(&mut run, PipelineEvent::Deleted);
    assert_eq!(run.chunks.len(), 3);
    assert!(run.documents.is_empty());
    o.advance(&mut run, PipelineEvent::Embedded(vec![vec![1], vec![2]], 99));
    assert_eq!(run.documents.len(), 2);
    assert_eq!(run.documents[1].content, "two");
    assert_eq!(run.documents[1].embedding, vec![2]);
    assert_eq!(run.documents[1].indexed_at, 99);
    assert_eq!(run.chunks.len(), 3);
    o.advance(&mut run, PipelineEvent::Upserted(2));
    assert_eq!(run.documents.len(), 2);
    assert_eq!(o.advance(&mut run, PipelineEvent::AudioRemoved), PipelineAction::Finish);
    let r = run.result.as_ref().unwrap();
    assert_eq!((r.media_id.as_str(), r.title.as_str(), r.chunks_indexed, r.skipped), ("dQw4w9WgXcQ", "A Talk", 2, false));
    assert_eq!(run.metadata.as_ref().unwrap().title, "A Talk");
    assert!(run.transcript.is_some());
    assert!(run.error.is_none());
}

#[test]
fn kept_transcripts_are_divided_anew() {
    let o = orchestrator();
    let (run, action) = o.begin_rechunk("id1", None);
    assert_eq!(action, PipelineAction::Fail);
    match run.error {
        Some(LyttError::InvalidInput(m)) => assert_eq!(
            m,
            "No stored transcript for 'id1'. Transcripts are only stored for videos transcribed after this feature was added. Use --force to re-transcribe."
        ),
        _ => panic!("no transcript is kept"),
    }
    let (mut run, action) = o.begin_rechunk("id1", Some(("Kept".to_string(), transcript())));
    assert_eq!(action, PipelineAction::Chunk);
    assert_eq!(o.advance(&mut run, PipelineEvent::Chunked(Vec::new())), PipelineAction::DeleteDocuments);
    assert_eq!(o.advance(&mut run, PipelineEvent::Deleted), PipelineAction::Embed);
    assert_eq!(o.advance(&mut run, PipelineEvent::Embedded(Vec::new(), 0)), PipelineAction::Upsert);
    assert_eq!(o.advance(&mut run, PipelineEvent::Upserted(0)), PipelineAction::Finish);
    let r = run.result.unwrap();
    assert_eq!((r.media_id.as_str(), r.title.as_str(), r.chunks_indexed), ("id1", "Kept", 0));
    let (mut failing, _) = o.begin_rechunk("id1", Some(("Kept".to_string(), transcript())));
    assert_eq!(
        o.advance(&mut failing, PipelineEvent::Failed(LyttError::OpenAI("down".to_string()))),
        PipelineAction::Fail
    );
}

#[test]
fn documents_are_made_of_chunks_and_embeddings() {
    let m = metadata("v", None);
    let mut with_title = chunk("a", 0);
    with_title.title = Some("Section".to_string());
    let chunks = vec![with_title, chunk("b", 1), chunk("c", 2)];
    let docs = Orchestrator::documents_from(&m, &chunks, &vec![vec![1], vec![2]], 1234);
    assert_eq!(docs.len(), 2);
    assert_eq!(docs[0].section_title.as_deref(), Some("Section"));
    assert_eq!((docs[1].content.as_str(), docs[1].chunk_order), ("b", 1));
    assert_eq!(docs[1].embedding, vec![2]);
    assert_eq!((docs[1].start_ms, docs[1].end_ms), (0, 60000));
    assert_eq!(docs[1].video_id, "v");
    assert_ne!(docs[0].id, docs[1].id);
}

#[test]
fn settings_decide_models_and_chunking() {
    let mut settings = Settings::default();
    settings.transcription.model = "whisper-x".to_string();
    let o = Orchestrator::new(settings.clone(), Prompts::default());
    let p = o.processing_settings();
    assert_eq!(p.timestamp_model, "whisper-x");
    assert!(p.text_model.is_none());
    assert_eq!(p.max_concurrent, 3);
    assert_eq!(o.chunking_strategy(), ChunkingStrategy::Semantic);
    let c = o.chunking_config();
    assert_eq!((c.target_duration, c.min_duration, c.max_duration), (180, 60, 600));
    settings.transcription.provider = TranscriptionProvider::Fusion;
    settings.chunking.strategy = "Temporal".to_string();
    let o = Orchestrator::new(settings.clone(), Prompts::default());
    let p = o.processing_settings();
    assert_eq!(p.timestamp_model, "whisper-1");
    assert_eq!(p.text_model.as_deref(), Some("gpt-4o-transcribe"));
    assert_eq!(p.max_concurrent, 2);
    assert_eq!(o.chunking_strategy(), ChunkingStrategy::Temporal);
    settings.chunking.strategy = "unheard of".to_string();
    assert_eq!(
        Orchestrator::new(settings, Prompts::default()).chunking_strategy(),
        ChunkingStrategy::Semantic
    );
    assert_eq!(o.settings().embedding.dimensions, 1536);
}
