//! The pipeline from an input to indexed passages, as steps: what comes
//! next, given what has happened. Whoever drives the pipeline fetches,
//! transcribes, embeds and stores; every decision is taken here.

use crate::audio_source::{detect_source_of, parse_input, youtube, MediaMetadata, SourceType};
use crate::chunking::{ChunkingConfig, ChunkingStrategy, ContentChunk};
use crate::config::prompts::Prompts;
use crate::config::settings::{
    Settings, TranscriptionProcessingSettings, TranscriptionProvider,
};
use crate::decimal::{decimal, push_decimal};
use crate::error::LyttError;
use crate::text::{append_str, from_chars, lowercase_of, string_of};
use crate::transcription::models::Transcript;
use crate::vector_store::{copy_optional, copy_words, Document};
use vstd::prelude::*;

verus! {

/// How the processing of a media ended.
#[derive(Debug)]
pub struct ProcessResult {
    pub media_id: String,
    pub title: String,
    pub chunks_indexed: usize,
    /// Whether nothing was done because the media was indexed already.
    pub skipped: bool,
}

/// What the pipeline is set up with.
#[derive(Debug, Clone)]
pub struct Orchestrator {
    pub settings: Settings,
    pub prompts: Prompts,
}

/// Where a run stands: what it waits for.
#[derive(Debug, Clone, Copy, PartialEq, Eq)]
pub enum PipelineStage {
    CheckingIndex,
    FetchingMetadata,
    ExtractingAudio,
    Transcribing,
    StoringTranscript,
    Chunking,
    Deleting,
    Embedding,
    Upserting,
    RemovingAudio,
    Finished,
    Failed,
}

/// What is to be done outside for a run. What the work needs is held by the run.
#[derive(Debug, Clone, Copy, PartialEq, Eq)]
pub enum PipelineAction {
    /// Ask the index whether it holds the media.
    CheckIndexed,
    /// Ask the source what it knows of the media.
    FetchMetadata,
    /// Fetch the audio of the media.
    ExtractAudio,
    /// Transcribe the audio.
    Transcribe,
    /// Keep the transcript.
    StoreTranscript,
    /// Divide the transcript into passages.
    Chunk,
    /// Remove the documents of the media from the index.
    DeleteDocuments,
    /// Embed the texts of the passages.
    Embed,
    /// Put the documents of the run into the index.
    Upsert,
    /// Remove the audio.
    RemoveAudio,
    /// Return the result of the run.
    Finish,
    /// Return the error of the run.
    Fail,
}

/// What has happened outside.
#[derive(Debug)]
pub enum PipelineEvent {
    /// The index holds the media, or does not.
    Indexed(bool),
    Metadata(MediaMetadata),
    /// The audio is at this path.
    Audio(String),
    Transcribed(Transcript),
    /// The transcript was kept, or could not be.
    TranscriptStored(bool),
    Chunked(Vec<ContentChunk>),
    Deleted,
    /// The embeddings of the texts, and the instant at which they came.
    Embedded(Vec<Vec<u32>>, i64),
    /// So many documents were put into the index.
    Upserted(usize),
    AudioRemoved,
    /// The work failed.
    Failed(LyttError),
}

/// A run of the pipeline for one media.
#[derive(Debug)]
pub struct MediaRun {
    pub stage: PipelineStage,
    /// Whether the run divides a kept transcript anew, without audio.
    pub rechunk: bool,
    pub source: SourceType,
    pub media_id: String,
    pub metadata: Option<MediaMetadata>,
    pub audio_path: Option<String>,
    pub transcript: Option<Transcript>,
    pub chunks: Vec<ContentChunk>,
    pub documents: Vec<Document>,
    pub result: Option<ProcessResult>,
    pub error: Option<LyttError>,
}

/// What of an event decides the next stage.
pub enum EventKind {
    Indexed(bool),
    /// What the source knows, and whether the media is longer than allowed.
    Metadata { too_long: bool },
    Audio,
    Transcribed,
    TranscriptStored,
    Chunked,
    Deleted,
    Embedded,
    Upserted,
    AudioRemoved,
    Failed,
}

/// Whether a media is longer than allowed.
pub open spec fn exceeds(m: MediaMetadata, max_seconds: u32) -> bool {
    m.duration_seconds matches Some(d) && d > max_seconds
}

/// What of an event decides the next stage.
pub open spec fn kind_of(event: PipelineEvent, max_seconds: u32) -> EventKind {
    match event {
        PipelineEvent::Indexed(b) => EventKind::Indexed(b),
        PipelineEvent::Metadata(m) => EventKind::Metadata { too_long: exceeds(m, max_seconds) },
        PipelineEvent::Audio(_) => EventKind::Audio,
        PipelineEvent::Transcribed(_) => EventKind::Transcribed,
        PipelineEvent::TranscriptStored(_) => EventKind::TranscriptStored,
        PipelineEvent::Chunked(_) => EventKind::Chunked,
        PipelineEvent::Deleted => EventKind::Deleted,
        PipelineEvent::Embedded(_, _) => EventKind::Embedded,
        PipelineEvent::Upserted(_) => EventKind::Upserted,
        PipelineEvent::AudioRemoved => EventKind::AudioRemoved,
        PipelineEvent::Failed(_) => EventKind::Failed,
    }
}

/// Whether audio is on disk for a run at the stage.
pub open spec fn holds_audio(stage: PipelineStage, rechunk: bool) -> bool {
    !rechunk && (stage is Transcribing || stage is StoringTranscript || stage is Chunking
        || stage is Deleting || stage is Embedding || stage is Upserting)
}

/// The stage that follows, given where the run stands, whether it divides
/// anew, whether a failure is remembered, and what has happened.
///
/// A media that is indexed is finished at once. A media that is too long
/// fails. A transcript that could not be kept does not stop the run. A run
/// that fetched audio removes it before it ends, whether it succeeds or
/// fails, and does not mind if that fails. Once the passages are there,
/// the documents of the media are removed from the index, however many
/// passages there are. What is not awaited changes nothing.
pub open spec fn next_stage(
    stage: PipelineStage,
    rechunk: bool,
    failing: bool,
    event: EventKind,
) -> PipelineStage {
    match (stage, event) {
        (PipelineStage::CheckingIndex, EventKind::Indexed(true)) => PipelineStage::Finished,
        (PipelineStage::CheckingIndex, EventKind::Indexed(false)) => PipelineStage::FetchingMetadata,
        (PipelineStage::FetchingMetadata, EventKind::Metadata { too_long: true }) => PipelineStage::Failed,
        (PipelineStage::FetchingMetadata, EventKind::Metadata { too_long: false }) => PipelineStage::ExtractingAudio,
        (PipelineStage::ExtractingAudio, EventKind::Audio) => PipelineStage::Transcribing,
        (PipelineStage::Transcribing, EventKind::Transcribed) => PipelineStage::StoringTranscript,
        (PipelineStage::StoringTranscript, EventKind::TranscriptStored) => PipelineStage::Chunking,
        (PipelineStage::StoringTranscript, EventKind::Failed) => PipelineStage::Chunking,
        (PipelineStage::Chunking, EventKind::Chunked) => PipelineStage::Deleting,
        (PipelineStage::Deleting, EventKind::Deleted) => PipelineStage::Embedding,
        (PipelineStage::Embedding, EventKind::Embedded) => PipelineStage::Upserting,
        (PipelineStage::Upserting, EventKind::Upserted) => if rechunk {
            PipelineStage::Finished
        } else {
            PipelineStage::RemovingAudio
        },
        (PipelineStage::RemovingAudio, EventKind::AudioRemoved) => if failing {
            PipelineStage::Failed
        } else {
            PipelineStage::Finished
        },
        (PipelineStage::RemovingAudio, EventKind::Failed) => if failing {
            PipelineStage::Failed
        } else {
            PipelineStage::Finished
        },
        (PipelineStage::Finished, _) => PipelineStage::Finished,
        (PipelineStage::Failed, _) => PipelineStage::Failed,
        (_, EventKind::Failed) => if holds_audio(stage, rechunk) {
            PipelineStage::RemovingAudio
        } else {
            PipelineStage::Failed
        },
        _ => stage,
    }
}

/// What is to be done for a run at a stage.
pub open spec fn action_for(stage: PipelineStage) -> PipelineAction {
    match stage {
        PipelineStage::CheckingIndex => PipelineAction::CheckIndexed,
        PipelineStage::FetchingMetadata => PipelineAction::FetchMetadata,
        PipelineStage::ExtractingAudio => PipelineAction::ExtractAudio,
        PipelineStage::Transcribing => PipelineAction::Transcribe,
        PipelineStage::StoringTranscript => PipelineAction::StoreTranscript,
        PipelineStage::Chunking => PipelineAction::Chunk,
        PipelineStage::Deleting => PipelineAction::DeleteDocuments,
        PipelineStage::Embedding => PipelineAction::Embed,
        PipelineStage::Upserting => PipelineAction::Upsert,
        PipelineStage::RemovingAudio => PipelineAction::RemoveAudio,
        PipelineStage::Finished => PipelineAction::Finish,
        PipelineStage::Failed => PipelineAction::Fail,
    }
}

/// What is answered for a media that is indexed already.
pub open spec fn already_indexed() -> Seq<char> {
    "Already indexed"@
}

/// What is said of a media that is too long.
pub open spec fn too_long(seconds: u32, max_seconds: u32) -> Seq<char> {
    "Media duration ("@ + decimal(seconds as nat) + " seconds) exceeds maximum ("@ + decimal(
        max_seconds as nat,
    ) + " seconds)"@
}

/// What is said of an input that names no media.
pub open spec fn unparsed(input: Seq<char>) -> Seq<char> {
    "Could not parse input: "@ + input
}

/// What is said of a media of which no transcript is kept.
pub open spec fn no_transcript(video_id: Seq<char>) -> Seq<char> {
    "No stored transcript for '"@ + video_id
        + "'. Transcripts are only stored for videos transcribed after this feature was added. Use --force to re-transcribe."@
}

/// The document of a passage with its embedding, indexed at an instant.
pub open spec fn is_document_of(
    d: Document,
    m: MediaMetadata,
    c: ContentChunk,
    embedding: Vec<u32>,
    at: i64,
) -> bool {
    &&& d.indexed_at == at
    &&& d.video_id@ == m.id@
    &&& d.video_title@ == m.title@
    &&& d@.section_title == c@.title
    &&& d.content@ == c.content@
    &&& d.start_ms == c.start_ms
    &&& d.end_ms == c.end_ms
    &&& d.embedding@ == embedding@
    &&& d.chunk_order == c.order
    &&& d.source_created_at == m.published_at
}

/// Whether a step takes in what the source knows of the media: the
/// metadata come while they are awaited, and the media is not too long.
pub open spec fn keeps_metadata(stage: PipelineStage, event: PipelineEvent, max_seconds: u32) -> bool {
    stage is FetchingMetadata && (event matches PipelineEvent::Metadata(m) && !exceeds(
        m,
        max_seconds,
    ))
}

/// Whether a step makes the documents of a run: the embeddings come while
/// they are awaited, and the media is known.
pub open spec fn makes_documents(run: MediaRun, event: PipelineEvent) -> bool {
    run.stage is Embedding && event is Embedded && run.metadata is Some
}

/// Whether a step remembers a failure as the error of the run: work failed
/// that the run cannot do without.
pub open spec fn remembers_failure(stage: PipelineStage, event: PipelineEvent) -> bool {
    event is Failed && !(stage is Finished) && !(stage is Failed) && !(stage is RemovingAudio)
        && !(stage is StoringTranscript)
}

/// The identifier under which the result of a run is given: that of the
/// metadata, or that of the input where the media is not known.
pub open spec fn known_id(run: MediaRun) -> Seq<char> {
    match run.metadata {
        Some(m) => m.id@,
        None => run.media_id@,
    }
}

/// The title under which the result of a run is given: that of the
/// metadata, or none where the media is not known.
pub open spec fn known_title(run: MediaRun) -> Seq<char> {
    match run.metadata {
        Some(m) => m.title@,
        None => Seq::<char>::empty(),
    }
}

fn stage_action(stage: PipelineStage) -> (a: PipelineAction)
    ensures
        a == action_for(stage),
{
    match stage {
        PipelineStage::CheckingIndex => PipelineAction::CheckIndexed,
        PipelineStage::FetchingMetadata => PipelineAction::FetchMetadata,
        PipelineStage::ExtractingAudio => PipelineAction::ExtractAudio,
        PipelineStage::Transcribing => PipelineAction::Transcribe,
        PipelineStage::StoringTranscript => PipelineAction::StoreTranscript,
        PipelineStage::Chunking => PipelineAction::Chunk,
        PipelineStage::Deleting => PipelineAction::DeleteDocuments,
        PipelineStage::Embedding => PipelineAction::Embed,
        PipelineStage::Upserting => PipelineAction::Upsert,
        PipelineStage::RemovingAudio => PipelineAction::RemoveAudio,
        PipelineStage::Finished => PipelineAction::Finish,
        PipelineStage::Failed => PipelineAction::Fail,
    }
}

impl Orchestrator {
    /// A pipeline with the given settings and prompts.
    pub fn new(settings: Settings, prompts: Prompts) -> (o: Orchestrator)
        ensures
            o.settings == settings,
            o.prompts == prompts,
    {
        Orchestrator { settings, prompts }
    }

    /// The settings.
    pub fn settings(&self) -> (s: &Settings)
        ensures
            *s == self.settings,
    {
        &self.settings
    }

    /// The models of the transcription: with the provider that fuses, those
    /// of the settings; else the one model of the transcription, and none for
    /// the text.
    pub fn processing_settings(&self) -> (p: TranscriptionProcessingSettings)
        ensures
            self.settings.transcription.provider == TranscriptionProvider::Whisper ==> p.timestamp_model@
                == self.settings.transcription.model@ && p.text_model is None && p.cleanup_model@
                == self.settings.transcription.processing.cleanup_model@ && p.max_concurrent
                == self.settings.transcription.max_concurrent_chunks,
            self.settings.transcription.provider == TranscriptionProvider::Fusion ==> p.timestamp_model@
                == self.settings.transcription.processing.timestamp_model@ && p.cleanup_model@
                == self.settings.transcription.processing.cleanup_model@ && p.max_concurrent
                == self.settings.transcription.processing.max_concurrent && p.text_model
                == self.settings.transcription.processing.text_model,
    {
        match self.settings.transcription.provider {
            TranscriptionProvider::Whisper => TranscriptionProcessingSettings {
                timestamp_model: self.settings.transcription.model.clone(),
                text_model: None,
                cleanup_model: self.settings.transcription.processing.cleanup_model.clone(),
                max_concurrent: self.settings.transcription.max_concurrent_chunks,
            },
            TranscriptionProvider::Fusion => TranscriptionProcessingSettings {
                timestamp_model: self.settings.transcription.processing.timestamp_model.clone(),
                text_model: copy_optional(&self.settings.transcription.processing.text_model),
                cleanup_model: self.settings.transcription.processing.cleanup_model.clone(),
                max_concurrent: self.settings.transcription.processing.max_concurrent,
            },
        }
    }

    /// The strategy of the settings; the semantic one where the settings name
    /// none that is known.
    pub fn chunking_strategy(&self) -> (s: ChunkingStrategy)
        ensures
            s == (if lowercase_of(self.settings.chunking.strategy@) == "temporal"@ {
                ChunkingStrategy::Temporal
            } else if lowercase_of(self.settings.chunking.strategy@) == "hybrid"@ {
                ChunkingStrategy::Hybrid
            } else {
                ChunkingStrategy::Semantic
            }),
    {
        proof {
            reveal_strlit("semantic");
            reveal_strlit("temporal");
            reveal_strlit("hybrid");
            assert("semantic"@[0] == 's' && "temporal"@[0] == 't');
            assert("semantic"@.len() == 8 && "temporal"@.len() == 8 && "hybrid"@.len() == 6);
        }
        match ChunkingStrategy::parse(self.settings.chunking.strategy.as_str()) {
            Ok(s) => s,
            Err(_) => ChunkingStrategy::Semantic,
        }
    }

    /// The durations of the settings.
    pub fn chunking_config(&self) -> (c: ChunkingConfig)
        ensures
            c.target_duration == self.settings.chunking.target_chunk_seconds,
            c.min_duration == self.settings.chunking.min_chunk_seconds,
            c.max_duration == self.settings.chunking.max_chunk_seconds,
    {
        ChunkingConfig {
            target_duration: self.settings.chunking.target_chunk_seconds,
            min_duration: self.settings.chunking.min_chunk_seconds,
            max_duration: self.settings.chunking.max_chunk_seconds,
        }
    }

    /// Starts a run for an input. `on_disk` says whether the input is a path
    /// that exists. An input that names no media fails at once. Unless the
    /// run is forced, the index is asked first whether it holds the media.
    pub fn begin(&self, input: &str, on_disk: bool, force: bool) -> (r: (MediaRun, PipelineAction))
        ensures
            r.1 == action_for(r.0.stage),
            !r.0.rechunk,
            r.0.stage is Failed || r.0.stage is CheckingIndex || r.0.stage is FetchingMetadata,
            r.0.stage is Failed <==> (detect_source_of(input@, on_disk) is None || (
            detect_source_of(input@, on_disk) == Some(SourceType::YouTube) && youtube::video_id_of(
                input@,
            ) is None)),
            r.0.stage is Failed ==> (r.0.error matches Some(LyttError::InvalidInput(m)) && m@
                == unparsed(input@)),
            !(r.0.stage is Failed) ==> r.0.error is None,
            r.0.stage is CheckingIndex ==> !force,
            r.0.stage is FetchingMetadata ==> force,
            !(r.0.stage is Failed) ==> detect_source_of(input@, on_disk) == Some(r.0.source) && (
            match r.0.source {
                SourceType::YouTube => youtube::video_id_of(input@) == Some(r.0.media_id@),
                SourceType::Local => r.0.media_id@ == input@,
            }),
            r.0.metadata is None && r.0.audio_path is None && r.0.transcript is None
                && r.0.result is None && r.0.chunks@.len() == 0 && r.0.documents@.len() == 0,
    {
        match parse_input(input, on_disk) {
            Some((source, media_id)) => {
                let stage = if force {
                    PipelineStage::FetchingMetadata
                } else {
                    PipelineStage::CheckingIndex
                };
                (
                    MediaRun {
                        stage,
                        rechunk: false,
                        source,
                        media_id,
                        metadata: None,
                        audio_path: None,
                        transcript: None,
                        chunks: Vec::new(),
                        documents: Vec::new(),
                        result: None,
                        error: None,
                    },
                    stage_action(stage),
                )
            },
            None => {
                let mut m: Vec<char> = Vec::new();
                append_str(&mut m, "Could not parse input: ");
                append_str(&mut m, input);
                (
                    MediaRun {
                        stage: PipelineStage::Failed,
                        rechunk: false,
                        source: SourceType::Local,
                        media_id: string_of(input),
                        metadata: None,
                        audio_path: None,
                        transcript: None,
                        chunks: Vec::new(),
                        documents: Vec::new(),
                        result: None,
                        error: Some(LyttError::InvalidInput(from_chars(&m))),
                    },
                    PipelineAction::Fail,
                )
            },
        }
    }

    /// Starts a run that divides the kept transcript of a media anew. Without
    /// a kept transcript the run fails at once.
    pub fn begin_rechunk(&self, video_id: &str, stored: Option<(String, Transcript)>) -> (r: (
        MediaRun,
        PipelineAction,
    ))
        ensures
            r.1 == action_for(r.0.stage),
            r.0.rechunk,
            r.0.media_id@ == video_id@,
            stored is None ==> r.0.stage is Failed && (r.0.error matches Some(
                LyttError::InvalidInput(m),
            ) && m@ == no_transcript(video_id@)),
            stored matches Some(kept) ==> r.0.stage is Chunking && r.0.transcript == Some(kept.1)
                && (r.0.metadata matches Some(m) && m.id@ == video_id@ && m.title@ == kept.0@
                && m.published_at is None),
            stored is Some ==> r.0.error is None,
            r.0.audio_path is None && r.0.result is None && r.0.chunks@.len() == 0
                && r.0.documents@.len() == 0,
    {
        match stored {
            Some((title, transcript)) => {
                let metadata = MediaMetadata {
                    id: string_of(video_id),
                    title,
                    description: None,
                    duration_seconds: None,
                    source_type: SourceType::Local,
                    source_url: String::new(),
                    published_at: None,
                    channel: None,
                    thumbnail_url: None,
                };
                (
                    MediaRun {
                        stage: PipelineStage::Chunking,
                        rechunk: true,
                        source: SourceType::Local,
                        media_id: string_of(video_id),
                        metadata: Some(metadata),
                        audio_path: None,
                        transcript: Some(transcript),
                        chunks: Vec::new(),
                        documents: Vec::new(),
                        result: None,
                        error: None,
                    },
                    PipelineAction::Chunk,
                )
            },
            None => {
                let mut m: Vec<char> = Vec::new();
                append_str(&mut m, "No stored transcript for '");
                append_str(&mut m, video_id);
                append_str(
                    &mut m,
                    "'. Transcripts are only stored for videos transcribed after this feature was added. Use --force to re-transcribe.",
                );
                (
                    MediaRun {
                        stage: PipelineStage::Failed,
                        rechunk: true,
                        source: SourceType::Local,
                        media_id: string_of(video_id),
                        metadata: None,
                        audio_path: None,
                        transcript: None,
                        chunks: Vec::new(),
                        documents: Vec::new(),
                        result: None,
                        error: Some(LyttError::InvalidInput(from_chars(&m))),
                    },
                    PipelineAction::Fail,
                )
            },
        }
    }

    /// The documents of passages and their embeddings, one for each passage
    /// that has an embedding: each with a new identifier, indexed at the
    /// given instant.
    pub fn documents_from(
        metadata: &MediaMetadata,
        chunks: &Vec<ContentChunk>,
        embeddings: &Vec<Vec<u32>>,
        at: i64,
    ) -> (docs: Vec<Document>)
        ensures
            docs@.len() == if chunks@.len() <= embeddings@.len() {
                chunks@.len()
            } else {
                embeddings@.len()
            },
            forall|i: int|
                0 <= i < docs@.len() ==> is_document_of(
                    #[trigger] docs@[i],
                    *metadata,
                    chunks@[i],
                    embeddings@[i],
                    at,
                ),
    {
        let mut docs: Vec<Document> = Vec::new();
        let mut i: usize = 0;
        while i < chunks.len() && i < embeddings.len()
            invariant
                i <= chunks.len(),
                i <= embeddings.len(),
                docs@.len() == i,
                forall|k: int|
                    0 <= k < i ==> is_document_of(
                        #[trigger] docs@[k],
                        *metadata,
                        chunks@[k],
                        embeddings@[k],
                        at,
                    ),
            decreases chunks.len() - i,
        {
            let c = &chunks[i];
            let d = Document::new(
                metadata.id.clone(),
                metadata.title.clone(),
                copy_optional(&c.title),
                c.content.clone(),
                c.start_ms,
                c.end_ms,
                copy_words(&embeddings[i]),
                c.order,
                metadata.published_at,
                at,
            );
            docs.push(d);
            i = i + 1;
        }
        docs
    }

    /// Takes in what has happened and says what is to be done next.
    ///
    /// The stage moves as `next_stage` says, and the action is the one of the
    /// new stage. What an event brings while it is awaited is kept by the
    /// run: the metadata, the path of the audio, the transcript, the
    /// passages, and the documents made of passages and embeddings, one for
    /// each passage that has an embedding. The result is set when the media
    /// proves indexed and when the documents are in the index; the error,
    /// when the media is too long and when work fails that the run cannot
    /// do without. Everything else a step leaves as it was.
    pub fn advance(&self, run: &mut MediaRun, event: PipelineEvent) -> (action: PipelineAction)
        ensures
            final(run).stage == next_stage(
                old(run).stage,
                old(run).rechunk,
                old(run).error is Some,
                kind_of(event, self.settings.transcription.max_duration_seconds),
            ),
            action == action_for(final(run).stage),
            final(run).rechunk == old(run).rechunk,
            final(run).media_id == old(run).media_id,
            final(run).source == old(run).source,
            action is Transcribe ==> old(run).stage is ExtractingAudio || old(run).stage
                is Transcribing,
            final(run).metadata == (if keeps_metadata(
                old(run).stage,
                event,
                self.settings.transcription.max_duration_seconds,
            ) {
                Some(event->Metadata_0)
            } else {
                old(run).metadata
            }),
            final(run).audio_path == (if old(run).stage is ExtractingAudio && event is Audio {
                Some(event->Audio_0)
            } else {
                old(run).audio_path
            }),
            final(run).transcript == (if old(run).stage is Transcribing && event is Transcribed {
                Some(event->Transcribed_0)
            } else {
                old(run).transcript
            }),
            final(run).chunks == (if old(run).stage is Chunking && event is Chunked {
                event->Chunked_0
            } else {
                old(run).chunks
            }),
            makes_documents(*old(run), event) ==> final(run).documents@.len() == (if old(run).chunks@.len() <= event->Embedded_0@.len() {
                old(run).chunks@.len()
            } else {
                event->Embedded_0@.len()
            }) && (forall|i: int|
                0 <= i < final(run).documents@.len() ==> is_document_of(
                    #[trigger] final(run).documents@[i],
                    old(run).metadata->0,
                    old(run).chunks@[i],
                    event->Embedded_0@[i],
                    event->Embedded_1,
                )),
            !makes_documents(*old(run), event) ==> final(run).documents == old(run).documents,
            old(run).stage is CheckingIndex && (event matches PipelineEvent::Indexed(true)) ==> (
            final(run).result matches Some(r) && r.skipped && r.chunks_indexed == 0 && r.media_id@
                == old(run).media_id@ && r.title@ == already_indexed()),
            old(run).stage is Upserting && event is Upserted ==> (final(run).result matches Some(r)
                && !r.skipped && r.chunks_indexed == event->Upserted_0 && r.media_id@
                == known_id(*old(run)) && r.title@ == known_title(*old(run))),
            !(old(run).stage is CheckingIndex && (event matches PipelineEvent::Indexed(true)))
                && !(old(run).stage is Upserting && event is Upserted) ==> final(run).result
                == old(run).result,
            old(run).stage is FetchingMetadata && (event matches PipelineEvent::Metadata(m)
                && exceeds(m, self.settings.transcription.max_duration_seconds)) ==> (final(run).error matches Some(LyttError::InvalidInput(text)) && text@ == too_long(
                event->Metadata_0.duration_seconds->0,
                self.settings.transcription.max_duration_seconds,
            )),
            remembers_failure(old(run).stage, event) ==> final(run).error == Some(
                event->Failed_0,
            ),
            !remembers_failure(old(run).stage, event) && !(old(run).stage is FetchingMetadata && (
            event matches PipelineEvent::Metadata(m) && exceeds(
                m,
                self.settings.transcription.max_duration_seconds,
            ))) ==> final(run).error == old(run).error,
    {
        let max: u32 = self.settings.transcription.max_duration_seconds;
        match (run.stage, event) {
            (PipelineStage::CheckingIndex, PipelineEvent::Indexed(indexed)) => {
                if indexed {
                    run.result = Some(
                        ProcessResult {
                            media_id: run.media_id.clone(),
                            title: string_of("Already indexed"),
                            chunks_indexed: 0,
                            skipped: true,
                        },
                    );
                    run.stage = PipelineStage::Finished;
                } else {
                    run.stage = PipelineStage::FetchingMetadata;
                }
            },
            (PipelineStage::FetchingMetadata, PipelineEvent::Metadata(m)) => {
                let over = match m.duration_seconds {
                    Some(d) => d > max,
                    None => false,
                };
                if over {
                    let d: u32 = match m.duration_seconds {
                        Some(d) => d,
                        None => 0,
                    };
                    let mut text: Vec<char> = Vec::new();
                    append_str(&mut text, "Media duration (");
                    push_decimal(&mut text, d as u64);
                    append_str(&mut text, " seconds) exceeds maximum (");
                    push_decimal(&mut text, max as u64);
                    append_str(&mut text, " seconds)");
                    run.error = Some(LyttError::InvalidInput(from_chars(&text)));
                    run.stage = PipelineStage::Failed;
                } else {
                    run.metadata = Some(m);
                    run.stage = PipelineStage::ExtractingAudio;
                }
            },
            (PipelineStage::ExtractingAudio, PipelineEvent::Audio(path)) => {
                run.audio_path = Some(path);
                run.stage = PipelineStage::Transcribing;
            },
            (PipelineStage::Transcribing, PipelineEvent::Transcribed(t)) => {
                run.transcript = Some(t);
                run.stage = PipelineStage::StoringTranscript;
            },
            (PipelineStage::StoringTranscript, PipelineEvent::TranscriptStored(_)) => {
                run.stage = PipelineStage::Chunking;
            },
            (PipelineStage::StoringTranscript, PipelineEvent::Failed(_)) => {
                run.stage = PipelineStage::Chunking;
            },
            (PipelineStage::Chunking, PipelineEvent::Chunked(chunks)) => {
                run.chunks = chunks;
                run.stage = PipelineStage::Deleting;
            },
            (PipelineStage::Deleting, PipelineEvent::Deleted) => {
                run.stage = PipelineStage::Embedding;
            },
            (PipelineStage::Embedding, PipelineEvent::Embedded(vectors, at)) => {
                match &run.metadata {
                    Some(m) => {
                        run.documents = Self::documents_from(m, &run.chunks, &vectors, at);
                    },
                    None => {},
                }
                run.stage = PipelineStage::Upserting;
            },
            (PipelineStage::Upserting, PipelineEvent::Upserted(count)) => {
                let (media_id, title) = match &run.metadata {
                    Some(m) => (m.id.clone(), m.title.clone()),
                    None => (run.media_id.clone(), String::new()),
                };
                run.result = Some(
                    ProcessResult { media_id, title, chunks_indexed: count, skipped: false },
                );
                if run.rechunk {
                    run.stage = PipelineStage::Finished;
                } else {
                    run.stage = PipelineStage::RemovingAudio;
                }
            },
            (PipelineStage::RemovingAudio, PipelineEvent::AudioRemoved) => {
                if run.error.is_some() {
                    run.stage = PipelineStage::Failed;
                } else {
                    run.stage = PipelineStage::Finished;
                }
            },
            (PipelineStage::RemovingAudio, PipelineEvent::Failed(_)) => {
                if run.error.is_some() {
                    run.stage = PipelineStage::Failed;
                } else {
                    run.stage = PipelineStage::Finished;
                }
            },
            (PipelineStage::Finished, _) => {},
            (PipelineStage::Failed, _) => {},
            (stage, PipelineEvent::Failed(e)) => {
                run.error = Some(e);
                let with_audio = !run.rechunk && match stage {
                    PipelineStage::Transcribing => true,
                    PipelineStage::StoringTranscript => true,
                    PipelineStage::Chunking => true,
                    PipelineStage::Deleting => true,
                    PipelineStage::Embedding => true,
                    PipelineStage::Upserting => true,
                    _ => false,
                };
                if with_audio {
                    run.stage = PipelineStage::RemovingAudio;
                } else {
                    run.stage = PipelineStage::Failed;
                }
            },
            _ => {},
        }
        stage_action(run.stage)
    }

    /// The texts that are embedded for a run: those of its passages.
    pub fn texts(run: &MediaRun) -> (out: Vec<String>)
        ensures
            out@.len() == run.chunks@.len(),
            forall|i: int| 0 <= i < out@.len() ==> (#[trigger] out@[i])@ == run.chunks@[i].content@,
    {
        let mut out: Vec<String> = Vec::new();
        let mut i: usize = 0;
        while i < run.chunks.len()
            invariant
                i <= run.chunks.len(),
                out@.len() == i,
                forall|k: int| 0 <= k < i ==> (#[trigger] out@[k])@ == run.chunks@[k].content@,
            decreases run.chunks.len() - i,
        {
            out.push(run.chunks[i].content.clone());
            i = i + 1;
        }
        out
    }
}

/// A media that the index holds is not transcribed: a run that is not forced
/// and learns that its media is indexed ends at once, skipped and with no
/// passage indexed, and whatever happens after that, no audio is fetched
/// and nothing is transcribed.
pub proof fn lemma_skip(rechunk: bool, failing: bool, later: EventKind)
    ensures
        next_stage(PipelineStage::CheckingIndex, rechunk, failing, EventKind::Indexed(true))
            == PipelineStage::Finished,
        next_stage(PipelineStage::Finished, rechunk, failing, later) == PipelineStage::Finished,
        action_for(PipelineStage::Finished) == PipelineAction::Finish,
{
}

} // verus!
