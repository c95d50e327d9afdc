//! Transcription, chunking, indexing and retrieval of spoken-audio media:
//! the decisions of the pipeline, with their contracts.

pub mod agent;
pub mod audio;
pub mod audio_source;
pub mod calendar;
pub mod chunking;
pub mod cli;
pub mod config;
pub mod decimal;
pub mod embedding;
pub mod error;
pub mod json;
pub mod mcp;
pub mod orchestrator;
pub mod rag;
pub mod schema;
pub mod seqs;
pub mod sorting;
pub mod text;
pub mod timefmt;
pub mod transcription;
pub mod vector_store;

pub use error::LyttError;
