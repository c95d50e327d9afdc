//! The index: embedded passages, what is known of each indexed media, and the
//! ranking of search results.

pub mod memory;
pub mod sqlite;

pub use memory::MemoryVectorStore;

use crate::seqs::{lemma_filter_empty, lemma_filter_members, lemma_filter_next};
use crate::sorting::{lemma_stable_order, reorder, sort_by_keys, stable_order};
use crate::timefmt::{clock, clock_seconds, format_clock};
use vstd::prelude::*;

verus! {

/// A stored passage with its embedding. The embedding holds the bit patterns of
/// single-precision numbers; instants are microseconds since the Unix epoch;
/// a score is in millionths.
#[derive(Debug, Clone)]
pub struct Document {
    pub id: u128,
    pub video_id: String,
    pub video_title: String,
    pub section_title: Option<String>,
    pub content: String,
    pub start_ms: u64,
    pub end_ms: u64,
    pub embedding: Vec<u32>,
    pub chunk_order: usize,
    pub source_created_at: Option<i64>,
    pub indexed_at: i64,
}

/// What a `Document` holds.
pub struct DocumentView {
    pub id: u128,
    pub video_id: Seq<char>,
    pub video_title: Seq<char>,
    pub section_title: Option<Seq<char>>,
    pub content: Seq<char>,
    pub start_ms: u64,
    pub end_ms: u64,
    pub embedding: Seq<u32>,
    pub chunk_order: usize,
    pub source_created_at: Option<i64>,
    pub indexed_at: i64,
}

/// A document with how well it answers a query, in millionths.
#[derive(Debug, Clone)]
pub struct SearchResult {
    pub document: Document,
    pub score: i32,
}

/// What the index knows of one media.
#[derive(Debug, Clone)]
pub struct IndexedVideo {
    pub video_id: String,
    pub video_title: String,
    pub chunk_count: usize,
    pub total_duration_ms: u64,
    pub indexed_at: i64,
}

/// What an `IndexedVideo` holds.
pub struct IndexedVideoView {
    pub video_id: Seq<char>,
    pub video_title: Seq<char>,
    pub chunk_count: usize,
    pub total_duration_ms: u64,
    pub indexed_at: i64,
}

/// The view of an optional string.
pub open spec fn optional_text(s: Option<String>) -> Option<Seq<char>> {
    match s {
        Some(t) => Some(t@),
        None => None,
    }
}

/// `uuid::Uuid::new_v4` as a number: a random identifier, of which nothing is
/// promised.
#[verifier::external_body]
fn fresh_id() -> u128 {
    uuid::Uuid::new_v4().as_u128()
}

impl View for Document {
    type V = DocumentView;

    open spec fn view(&self) -> DocumentView {
        DocumentView {
            id: self.id,
            video_id: self.video_id@,
            video_title: self.video_title@,
            section_title: optional_text(self.section_title),
            content: self.content@,
            start_ms: self.start_ms,
            end_ms: self.end_ms,
            embedding: self.embedding@,
            chunk_order: self.chunk_order,
            source_created_at: self.source_created_at,
            indexed_at: self.indexed_at,
        }
    }
}

impl View for IndexedVideo {
    type V = IndexedVideoView;

    open spec fn view(&self) -> IndexedVideoView {
        IndexedVideoView {
            video_id: self.video_id@,
            video_title: self.video_title@,
            chunk_count: self.chunk_count,
            total_duration_ms: self.total_duration_ms,
            indexed_at: self.indexed_at,
        }
    }
}

/// The views of documents, in order.
pub open spec fn document_views(docs: Seq<Document>) -> Seq<DocumentView> {
    Seq::new(docs.len(), |i: int| docs[i]@)
}

/// A copy of an optional string.
pub fn copy_optional(s: &Option<String>) -> (out: Option<String>)
    ensures
        out == *s,
{
    match s {
        Some(t) => Some(t.clone()),
        None => None,
    }
}

/// A copy of a vector of words.
pub fn copy_words(v: &Vec<u32>) -> (out: Vec<u32>)
    ensures
        out@ == v@,
{
    let mut out: Vec<u32> = Vec::new();
    let mut i: usize = 0;
    while i < v.len()
        invariant
            i <= v.len(),
            out@ == v@.take(i as int),
        decreases v.len() - i,
    {
        out.push(v[i]);
        i = i + 1;
    }
    assert(v@.take(v.len() as int) == v@);
    out
}

impl Document {
    /// A document of the given passage, with a new random identifier, indexed
    /// at the given instant.
    pub fn new(
        video_id: String,
        video_title: String,
        section_title: Option<String>,
        content: String,
        start_ms: u64,
        end_ms: u64,
        embedding: Vec<u32>,
        chunk_order: usize,
        source_created_at: Option<i64>,
        indexed_at: i64,
    ) -> (d: Document)
        ensures
            d.indexed_at == indexed_at,
            d.video_id == video_id,
            d.video_title == video_title,
            d.section_title == section_title,
            d.content == content,
            d.start_ms == start_ms,
            d.end_ms == end_ms,
            d.embedding == embedding,
            d.chunk_order == chunk_order,
            d.source_created_at == source_created_at,
    {
        Document {
            id: fresh_id(),
            video_id,
            video_title,
            section_title,
            content,
            start_ms,
            end_ms,
            embedding,
            chunk_order,
            source_created_at,
            indexed_at,
        }
    }

    /// A copy that holds the same.
    pub fn duplicate(&self) -> (d: Document)
        ensures
            d@ == self@,
    {
        Document {
            id: self.id,
            video_id: self.video_id.clone(),
            video_title: self.video_title.clone(),
            section_title: copy_optional(&self.section_title),
            content: self.content.clone(),
            start_ms: self.start_ms,
            end_ms: self.end_ms,
            embedding: copy_words(&self.embedding),
            chunk_order: self.chunk_order,
            source_created_at: self.source_created_at,
            indexed_at: self.indexed_at,
        }
    }

    /// The clock reading of the start of the passage.
    pub fn format_timestamp(&self) -> (out: String)
        ensures
            out@ == clock(clock_seconds(self.start_ms as nat)),
    {
        format_clock(self.start_ms)
    }
}

impl IndexedVideo {
    /// A copy that holds the same.
    pub fn duplicate(&self) -> (v: IndexedVideo)
        ensures
            v@ == self@,
    {
        IndexedVideo {
            video_id: self.video_id.clone(),
            video_title: self.video_title.clone(),
            chunk_count: self.chunk_count,
            total_duration_ms: self.total_duration_ms,
            indexed_at: self.indexed_at,
        }
    }
}

/// Holds of the results that score `min_score` or more.
pub open spec fn scores_at_least(min_score: i32) -> spec_fn(SearchResult) -> bool {
    |r: SearchResult| r.score >= min_score
}

/// Keys that rise as the scores fall.
pub open spec fn falling_score_keys(results: Seq<SearchResult>) -> Seq<i128> {
    Seq::new(results.len(), |i: int| (-(results[i].score as int)) as i128)
}

/// The results that score `min_score` or more, the best first and, among equal
/// scores, in the order they came in; no more than `limit` of them.
pub open spec fn ranked(results: Seq<SearchResult>, limit: nat, min_score: i32) -> Seq<
    SearchResult,
> {
    let passing = results.filter(scores_at_least(min_score));
    let sorted = reorder(passing, stable_order(falling_score_keys(passing)));
    if limit < sorted.len() {
        sorted.take(limit as int)
    } else {
        sorted
    }
}

/// Ranks scored documents: drops those below `min_score`, puts the best first
/// and cuts the list at `limit`.
pub fn rank_results(candidates: Vec<SearchResult>, limit: usize, min_score: i32) -> (out: Vec<
    SearchResult,
>)
    ensures
        out@ == ranked(candidates@, limit as nat, min_score),
{
    let ghost all = candidates@;
    let ghost keep = scores_at_least(min_score);
    let mut kept = candidates;
    let mut i: usize = 0;
    let ghost mut seen: int = 0;
    proof {
        lemma_filter_empty(all.take(0), keep);
        assert(kept@.take(0) == Seq::<SearchResult>::empty());
        assert(kept@.skip(0) == all.skip(0));
    }
    while i < kept.len()
        invariant
            0 <= seen <= all.len(),
            i <= kept.len(),
            kept@.len() - i == all.len() - seen,
            kept@.take(i as int) == all.take(seen).filter(keep),
            kept@.skip(i as int) == all.skip(seen),
            keep == scores_at_least(min_score),
        decreases kept.len() - i,
    {
        proof {
            lemma_filter_next(all, keep, seen);
            assert(kept@[i as int] == kept@.skip(i as int)[0]);
            assert(all[seen] == all.skip(seen)[0]);
            assert(kept@.skip(i as int).skip(1) == kept@.skip(i + 1));
            assert(all.skip(seen).skip(1) == all.skip(seen + 1));
        }
        let ghost before = kept@;
        if kept[i].score >= min_score {
            assert(before.take(i + 1) == before.take(i as int).push(before[i as int]));
            assert(before.skip(i + 1) == all.skip(seen + 1));
            i = i + 1;
        } else {
            kept.remove(i);
            assert(kept@.take(i as int) == before.take(i as int));
            assert(kept@.skip(i as int) == before.skip(i + 1));
            assert(before.skip(i + 1) == all.skip(seen + 1));
        }
        proof {
            seen = seen + 1;
        }
    }
    assert(kept@.take(kept.len() as int) == kept@);
    assert(all.take(all.len() as int) == all);
    let mut keys: Vec<i128> = Vec::new();
    let mut k: usize = 0;
    while k < kept.len()
        invariant
            k <= kept.len(),
            keys@ == falling_score_keys(kept@).take(k as int),
        decreases kept.len() - k,
    {
        let key: i128 = -(kept[k].score as i128);
        keys.push(key);
        assert(falling_score_keys(kept@).take(k + 1) == falling_score_keys(kept@).take(
            k as int,
        ).push(key));
        k = k + 1;
    }
    assert(falling_score_keys(kept@).take(kept.len() as int) == falling_score_keys(kept@));
    sort_by_keys(&mut kept, &mut keys);
    if limit < kept.len() {
        kept.truncate(limit);
        assert(kept@ == ranked(all, limit as nat, min_score));
    }
    kept
}

/// Ranked results hold no more than `limit` results, each of which was a
/// candidate and scores `min_score` or more, and the scores never rise.
pub proof fn lemma_ranked(results: Seq<SearchResult>, limit: nat, min_score: i32)
    ensures
        ranked(results, limit, min_score).len() <= limit,
        ranked(results, limit, min_score).len() <= results.len(),
        forall|i: int|
            0 <= i < ranked(results, limit, min_score).len() ==> (#[trigger] ranked(
                results,
                limit,
                min_score,
            )[i]).score >= min_score && results.contains(ranked(results, limit, min_score)[i]),
        forall|i: int, j: int|
            0 <= i < j < ranked(results, limit, min_score).len() ==> (#[trigger] ranked(
                results,
                limit,
                min_score,
            )[i]).score >= (#[trigger] ranked(results, limit, min_score)[j]).score,
{
    let passing = results.filter(scores_at_least(min_score));
    let keys = falling_score_keys(passing);
    let order = stable_order(keys);
    let sorted = reorder(passing, order);
    let out = ranked(results, limit, min_score);
    lemma_filter_members(results, scores_at_least(min_score));
    lemma_stable_order(keys);
    assert forall|i: int| 0 <= i < out.len() implies (#[trigger] out[i]).score >= min_score
        && results.contains(out[i]) by {
        assert(out[i] == passing[order[i]]);
        assert(0 <= order[i] < passing.len());
    }
    assert forall|i: int, j: int| 0 <= i < j < out.len() implies (#[trigger] out[i]).score >= (
    #[trigger] out[j]).score by {
        assert(out[i] == passing[order[i]]);
        assert(out[j] == passing[order[j]]);
        assert(keys[order[i]] <= keys[order[j]]);
    }
}

} // verus!
