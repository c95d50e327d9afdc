//! The errors of the library.

use crate::text::{append_str, from_chars};
use vstd::prelude::*;

verus! {

/// What can go wrong, each kind with its detail.
#[derive(Debug, Clone)]
pub enum LyttError {
    Config(String),
    VideoSource(String),
    AudioDownload(String),
    Transcription(String),
    Embedding(String),
    VectorStore(String),
    Rag(String),
    Io(String),
    Json(String),
    TomlParse(String),
    Http(String),
    Database(String),
    OpenAI(String),
    VideoNotFound(String),
    ToolNotFound(String),
    ToolFailed(String),
    InvalidInput(String),
    Agent(String),
}

impl LyttError {
    /// The detail that the error carries.
    pub open spec fn detail(self) -> Seq<char> {
        match self {
            LyttError::Config(d) => d@,
            LyttError::VideoSource(d) => d@,
            LyttError::AudioDownload(d) => d@,
            LyttError::Transcription(d) => d@,
            LyttError::Embedding(d) => d@,
            LyttError::VectorStore(d) => d@,
            LyttError::Rag(d) => d@,
            LyttError::Io(d) => d@,
            LyttError::Json(d) => d@,
            LyttError::TomlParse(d) => d@,
            LyttError::Http(d) => d@,
            LyttError::Database(d) => d@,
            LyttError::OpenAI(d) => d@,
            LyttError::VideoNotFound(d) => d@,
            LyttError::ToolNotFound(d) => d@,
            LyttError::ToolFailed(d) => d@,
            LyttError::InvalidInput(d) => d@,
            LyttError::Agent(d) => d@,
        }
    }

    /// What stands before the detail in the message.
    pub open spec fn heading(self) -> Seq<char> {
        match self {
            LyttError::Config(_) => "Configuration error: "@,
            LyttError::VideoSource(_) => "Media source error: "@,
            LyttError::AudioDownload(_) => "Audio download failed: "@,
            LyttError::Transcription(_) => "Transcription failed: "@,
            LyttError::Embedding(_) => "Embedding generation failed: "@,
            LyttError::VectorStore(_) => "Vector store error: "@,
            LyttError::Rag(_) => "RAG error: "@,
            LyttError::Io(_) => "IO error: "@,
            LyttError::Json(_) => "JSON error: "@,
            LyttError::TomlParse(_) => "TOML parse error: "@,
            LyttError::Http(_) => "HTTP error: "@,
            LyttError::Database(_) => "Database error: "@,
            LyttError::OpenAI(_) => "OpenAI API error: "@,
            LyttError::VideoNotFound(_) => "Media not found: "@,
            LyttError::ToolNotFound(_) => "External tool not found: "@,
            LyttError::ToolFailed(_) => "External tool failed: "@,
            LyttError::InvalidInput(_) => "Invalid input: "@,
            LyttError::Agent(_) => "Agent error: "@,
        }
    }

    /// What stands behind the detail in the message.
    pub open spec fn closing(self) -> Seq<char> {
        match self {
            LyttError::ToolNotFound(_) => ". Please install it and ensure it's in your PATH."@,
            _ => Seq::<char>::empty(),
        }
    }

    /// The message of the error.
    pub open spec fn message(self) -> Seq<char> {
        self.heading() + self.detail() + self.closing()
    }

    /// The message of the error: heading, detail and, for a missing tool, the
    /// advice to install it.
    pub fn to_string(&self) -> (out: String)
        ensures
            out@ == self.message(),
    {
        let mut buf: Vec<char> = Vec::new();
        assert(buf@ + self.heading() == self.heading());
        match self {
            LyttError::Config(d) => {
                append_str(&mut buf, "Configuration error: ");
                append_str(&mut buf, d.as_str());
            },
            LyttError::VideoSource(d) => {
                append_str(&mut buf, "Media source error: ");
                append_str(&mut buf, d.as_str());
            },
            LyttError::AudioDownload(d) => {
                append_str(&mut buf, "Audio download failed: ");
                append_str(&mut buf, d.as_str());
            },
            LyttError::Transcription(d) => {
                append_str(&mut buf, "Transcription failed: ");
                append_str(&mut buf, d.as_str());
            },
            LyttError::Embedding(d) => {
                append_str(&mut buf, "Embedding generation failed: ");
                append_str(&mut buf, d.as_str());
            },
            LyttError::VectorStore(d) => {
                append_str(&mut buf, "Vector store error: ");
                append_str(&mut buf, d.as_str());
            },
            LyttError::Rag(d) => {
                append_str(&mut buf, "RAG error: ");
                append_str(&mut buf, d.as_str());
            },
            LyttError::Io(d) => {
                append_str(&mut buf, "IO error: ");
                append_str(&mut buf, d.as_str());
            },
            LyttError::Json(d) => {
                append_str(&mut buf, "JSON error: ");
                append_str(&mut buf, d.as_str());
            },
            LyttError::TomlParse(d) => {
                append_str(&mut buf, "TOML parse error: ");
                append_str(&mut buf, d.as_str());
            },
            LyttError::Http(d) => {
                append_str(&mut buf, "HTTP error: ");
                append_str(&mut buf, d.as_str());
            },
            LyttError::Database(d) => {
                append_str(&mut buf, "Database error: ");
                append_str(&mut buf, d.as_str());
            },
            LyttError::OpenAI(d) => {
                append_str(&mut buf, "OpenAI API error: ");
                append_str(&mut buf, d.as_str());
            },
            LyttError::VideoNotFound(d) => {
                append_str(&mut buf, "Media not found: ");
                append_str(&mut buf, d.as_str());
            },
            LyttError::ToolNotFound(d) => {
                append_str(&mut buf, "External tool not found: ");
                append_str(&mut buf, d.as_str());
                append_str(&mut buf, ". Please install it and ensure it's in your PATH.");
            },
            LyttError::ToolFailed(d) => {
                append_str(&mut buf, "External tool failed: ");
                append_str(&mut buf, d.as_str());
            },
            LyttError::InvalidInput(d) => {
                append_str(&mut buf, "Invalid input: ");
                append_str(&mut buf, d.as_str());
            },
            LyttError::Agent(d) => {
                append_str(&mut buf, "Agent error: ");
                append_str(&mut buf, d.as_str());
            },
        }
        assert(buf@ == self.heading() + self.detail() + self.closing());
        from_chars(&buf)
    }
}

} // verus!
