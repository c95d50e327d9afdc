//! Speech to text: the data of a transcription and the steps that do not
//! need a provider.

pub mod format;
pub mod fusion;
pub mod gpt4o;
pub mod models;
pub mod stored;
pub mod whisper;

pub use models::{
    format_timestamp, FusedSegment, PlainTranscript, Transcript, TranscriptSegment, WhisperWord,
    WordLevelTranscript,
};
pub use format::{format_transcript, OutputFormat, SegmentExport, TranscriptExport};
pub use fusion::TranscriptionProcessor;
