//! Breaking a transcript into passages.

pub mod semantic;
pub mod temporal;

pub use semantic::SemanticChunker;
pub use temporal::TemporalChunker;

use crate::config::prompts::Prompts;
use crate::text::{append_str, from_chars, lowercase_of, str_eq, to_lowercase};
use crate::timefmt::{clock, clock_seconds, format_clock};
use crate::transcription::models::Transcript;
use vstd::prelude::*;

verus! {

/// A passage of a transcript. Times are whole milliseconds.
#[derive(Debug, Clone)]
pub struct ContentChunk {
    pub title: Option<String>,
    pub content: String,
    pub start_ms: u64,
    pub end_ms: u64,
    /// The place of the passage among the passages of its media, from zero.
    pub order: usize,
    pub summary: Option<String>,
}

/// What a `ContentChunk` holds.
pub struct ChunkView {
    pub title: Option<Seq<char>>,
    pub content: Seq<char>,
    pub start_ms: u64,
    pub end_ms: u64,
    pub order: nat,
    pub summary: Option<Seq<char>>,
}

/// How passages are found.
#[derive(Debug, Clone, Copy, PartialEq, Eq)]
pub enum ChunkingStrategy {
    /// A model names the sections.
    Semantic,
    /// Windows of equal length.
    Temporal,
    /// As `Semantic`, which falls back on windows by itself.
    Hybrid,
}

/// The lengths that passages should have, in seconds.
#[derive(Debug, Clone)]
pub struct ChunkingConfig {
    pub target_duration: u32,
    pub min_duration: u32,
    pub max_duration: u32,
}

/// The view of an optional string.
pub open spec fn optional_view(s: Option<String>) -> Option<Seq<char>> {
    match s {
        Some(t) => Some(t@),
        None => None,
    }
}

impl View for ContentChunk {
    type V = ChunkView;

    open spec fn view(&self) -> ChunkView {
        ChunkView {
            title: optional_view(self.title),
            content: self.content@,
            start_ms: self.start_ms,
            end_ms: self.end_ms,
            order: self.order as nat,
            summary: optional_view(self.summary),
        }
    }
}

/// The views of passages, in order.
pub open spec fn chunk_views(chunks: Seq<ContentChunk>) -> Seq<ChunkView> {
    Seq::new(chunks.len(), |i: int| chunks[i]@)
}

/// Whether the passages come in the order of their starts and are numbered
/// from zero without a gap.
pub open spec fn in_order(chunks: Seq<ChunkView>) -> bool {
    &&& forall|i: int| 0 <= i < chunks.len() ==> (#[trigger] chunks[i]).order == i
    &&& forall|i: int, j: int|
        0 <= i <= j < chunks.len() ==> (#[trigger] chunks[i]).start_ms <= (
        #[trigger] chunks[j]).start_ms
}

/// The one passage of a transcript that is too short to be divided.
pub open spec fn whole_chunk(t: Transcript) -> ChunkView {
    ChunkView {
        title: None,
        content: t.full_text@,
        start_ms: 0,
        end_ms: t.duration_ms,
        order: 0,
        summary: None,
    }
}

impl ContentChunk {
    /// A passage without a summary.
    pub fn new(title: Option<String>, content: String, start_ms: u64, end_ms: u64, order: usize) -> (c:
        ContentChunk)
        ensures
            c.title == title,
            c.content == content,
            c.start_ms == start_ms,
            c.end_ms == end_ms,
            c.order == order,
            c.summary is None,
    {
        ContentChunk { title, content, start_ms, end_ms, order, summary: None }
    }

    /// The length of the passage; zero where it ends before it starts.
    pub fn duration(&self) -> (d: u64)
        ensures
            d == if self.end_ms >= self.start_ms {
                self.end_ms - self.start_ms
            } else {
                0
            },
    {
        if self.end_ms >= self.start_ms {
            self.end_ms - self.start_ms
        } else {
            0
        }
    }

    /// The clock reading of the start of the passage.
    pub fn format_timestamp(&self) -> (out: String)
        ensures
            out@ == clock(clock_seconds(self.start_ms as nat)),
    {
        format_clock(self.start_ms)
    }
}

impl ChunkingStrategy {
    /// The strategy that a word names, whatever its case.
    pub fn parse(s: &str) -> (r: Result<ChunkingStrategy, String>)
        ensures
            lowercase_of(s@) == "semantic"@ ==> r == Ok::<ChunkingStrategy, String>(
                ChunkingStrategy::Semantic,
            ),
            lowercase_of(s@) == "temporal"@ ==> r == Ok::<ChunkingStrategy, String>(
                ChunkingStrategy::Temporal,
            ),
            lowercase_of(s@) == "hybrid"@ ==> r == Ok::<ChunkingStrategy, String>(
                ChunkingStrategy::Hybrid,
            ),
            lowercase_of(s@) != "semantic"@ && lowercase_of(s@) != "temporal"@ && lowercase_of(s@)
                != "hybrid"@ ==> (r matches Err(m) && m@ == "Unknown chunking strategy: "@ + s@),
    {
        let lower = to_lowercase(s);
        proof {
            reveal_strlit("semantic");
            reveal_strlit("temporal");
            reveal_strlit("hybrid");
            assert("semantic"@[0] == 's' && "temporal"@[0] == 't');
            assert("semantic"@.len() == 8 && "temporal"@.len() == 8 && "hybrid"@.len() == 6);
        }
        if str_eq(lower.as_str(), "semantic") {
            Ok(ChunkingStrategy::Semantic)
        } else if str_eq(lower.as_str(), "temporal") {
            Ok(ChunkingStrategy::Temporal)
        } else if str_eq(lower.as_str(), "hybrid") {
            Ok(ChunkingStrategy::Hybrid)
        } else {
            let mut m: Vec<char> = Vec::new();
            append_str(&mut m, "Unknown chunking strategy: ");
            append_str(&mut m, s);
            Err(from_chars(&m))
        }
    }
}

/// The strategy that a word in lower case names, if it names one.
pub open spec fn strategy_named(word: Seq<char>) -> Option<ChunkingStrategy> {
    if word == "semantic"@ {
        Some(ChunkingStrategy::Semantic)
    } else if word == "temporal"@ {
        Some(ChunkingStrategy::Temporal)
    } else if word == "hybrid"@ {
        Some(ChunkingStrategy::Hybrid)
    } else {
        None
    }
}

impl std::str::FromStr for ChunkingStrategy {
    type Err = String;

    fn from_str(s: &str) -> (r: Result<ChunkingStrategy, String>)
        ensures
            match strategy_named(lowercase_of(s@)) {
                Some(strategy) => r == Ok::<ChunkingStrategy, String>(strategy),
                None => r matches Err(m) && m@ == "Unknown chunking strategy: "@ + s@,
            },
    {
        ChunkingStrategy::parse(s)
    }
}

impl Default for ChunkingConfig {
    fn default() -> (c: ChunkingConfig)
        ensures
            c.target_duration == 180,
            c.min_duration == 60,
            c.max_duration == 600,
    {
        ChunkingConfig { target_duration: 180, min_duration: 60, max_duration: 600 }
    }
}

/// One of the chunkers.
#[derive(Debug, Clone)]
pub enum Chunker {
    Semantic(SemanticChunker),
    Temporal(TemporalChunker),
}

/// The chunker of a strategy, with the default prompts.
pub fn create_chunker(strategy: ChunkingStrategy) -> (c: Chunker)
    ensures
        strategy == ChunkingStrategy::Temporal <==> c is Temporal,
        c matches Chunker::Semantic(s) ==> s.model@ == "gpt-4o-mini"@ && s.prompts.is_default(),
{
    match strategy {
        ChunkingStrategy::Semantic => Chunker::Semantic(SemanticChunker::new()),
        ChunkingStrategy::Temporal => Chunker::Temporal(TemporalChunker::new()),
        ChunkingStrategy::Hybrid => Chunker::Semantic(SemanticChunker::new()),
    }
}

/// The chunker of a strategy, with the given prompts: the semantic chunker
/// takes them, the temporal one needs none.
pub fn create_chunker_with_prompts(strategy: ChunkingStrategy, prompts: Prompts) -> (c: Chunker)
    ensures
        strategy == ChunkingStrategy::Temporal <==> c is Temporal,
        c matches Chunker::Semantic(s) ==> s.model@ == "gpt-4o-mini"@ && s.prompts == prompts,
{
    match strategy {
        ChunkingStrategy::Semantic => Chunker::Semantic(
            SemanticChunker::new().with_prompts(prompts),
        ),
        ChunkingStrategy::Temporal => Chunker::Temporal(TemporalChunker::new()),
        ChunkingStrategy::Hybrid => Chunker::Semantic(SemanticChunker::new().with_prompts(prompts)),
    }
}

} // verus!
