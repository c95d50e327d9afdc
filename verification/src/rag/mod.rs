//! Answering questions from the passages that a search returns.

pub mod context;
pub mod response;

pub use context::{format_context_for_display, format_context_for_prompt, ContextBuilder};
pub use response::{ChatMessage, ChatRole, RagEngine, RagResponse};

use crate::timefmt::{clock, clock_seconds, format_clock};
use crate::vector_store::SearchResult;
use vstd::prelude::*;

verus! {

/// A passage as it is shown to a model or a reader. The score is in
/// millionths, the start in milliseconds.
#[derive(Debug, Clone)]
pub struct ContextChunk {
    pub video_id: String,
    pub video_title: String,
    pub timestamp: String,
    pub start_ms: u64,
    pub content: String,
    pub score: i32,
    pub url: Option<String>,
}

/// What a `ContextChunk` holds.
pub struct ContextView {
    pub video_id: Seq<char>,
    pub video_title: Seq<char>,
    pub timestamp: Seq<char>,
    pub start_ms: u64,
    pub content: Seq<char>,
    pub score: i32,
    pub url: Option<Seq<char>>,
}

impl View for ContextChunk {
    type V = ContextView;

    open spec fn view(&self) -> ContextView {
        ContextView {
            video_id: self.video_id@,
            video_title: self.video_title@,
            timestamp: self.timestamp@,
            start_ms: self.start_ms,
            content: self.content@,
            score: self.score,
            url: match self.url {
                Some(u) => Some(u@),
                None => None,
            },
        }
    }
}

/// The views of passages, in order.
pub open spec fn context_views(chunks: Seq<ContextChunk>) -> Seq<ContextView> {
    Seq::new(chunks.len(), |i: int| chunks[i]@)
}

/// The passage of a search result, without an address.
pub open spec fn plain_context(r: SearchResult) -> ContextView {
    ContextView {
        video_id: r.document.video_id@,
        video_title: r.document.video_title@,
        timestamp: clock(clock_seconds(r.document.start_ms as nat)),
        start_ms: r.document.start_ms,
        content: r.document.content@,
        score: r.score,
        url: None,
    }
}

impl ContextChunk {
    /// The passage of a search result, without an address.
    pub fn from(result: &SearchResult) -> (c: ContextChunk)
        ensures
            c@ == plain_context(*result),
    {
        ContextChunk {
            video_id: result.document.video_id.clone(),
            video_title: result.document.video_title.clone(),
            timestamp: format_clock(result.document.start_ms),
            start_ms: result.document.start_ms,
            content: result.document.content.clone(),
            score: result.score,
            url: None,
        }
    }

    /// A copy that holds the same.
    pub fn duplicate(&self) -> (c: ContextChunk)
        ensures
            c@ == self@,
    {
        ContextChunk {
            video_id: self.video_id.clone(),
            video_title: self.video_title.clone(),
            timestamp: self.timestamp.clone(),
            start_ms: self.start_ms,
            content: self.content.clone(),
            score: self.score,
            url: match &self.url {
                Some(u) => Some(u.clone()),
                None => None,
            },
        }
    }
}

} // verus!
