//! Passages by the clock: windows of equal length.

use crate::chunking::{chunk_views, in_order, whole_chunk, ChunkView, ChunkingConfig, ContentChunk};
use crate::text::{
    from_chars, is_blank, join, lemma_join_not_blank, lemma_trim_blank, trim, trim_chars,
};
use crate::transcription::models::{
    overlaps, space, texts_where, Transcript, TranscriptSegment,
};
use vstd::prelude::*;

verus! {

/// The chunker that divides by the clock.
#[derive(Debug, Clone, Copy)]
pub struct TemporalChunker {}

/// What the segments say within the window `[start, end)`, trimmed.
pub open spec fn window_text(t: Transcript, start: u64, end: u64) -> Seq<char> {
    trim(join(texts_where(t.segments@, overlaps(start, end)), space()))
}

/// Where the window that starts at `start` ends: after `target`, or with the
/// transcript.
pub open spec fn window_end(t: Transcript, target: u64, start: u64) -> u64 {
    if start + target < t.duration_ms {
        (start + target) as u64
    } else {
        t.duration_ms
    }
}

/// The passages of the windows from `start` on, numbered from `order`: one
/// passage for each window in which something is said.
pub open spec fn windows_from(t: Transcript, target: u64, start: u64, order: nat) -> Seq<
    ChunkView,
>
    decreases t.duration_ms - start,
{
    if start >= t.duration_ms || target == 0 {
        Seq::<ChunkView>::empty()
    } else {
        let end = window_end(t, target, start);
        let content = window_text(t, start, end);
        if content.len() > 0 {
            seq![
                ChunkView {
                    title: None,
                    content,
                    start_ms: start,
                    end_ms: end,
                    order,
                    summary: None,
                },
            ] + windows_from(t, target, end, order + 1)
        } else {
            windows_from(t, target, end, order)
        }
    }
}

/// The passages of a transcript by the clock: none for a transcript without
/// segments; the whole as one passage for a transcript shorter than the least
/// duration; else one passage for each window of the target duration in which
/// something is said.
pub open spec fn temporal_chunks(t: Transcript, config: ChunkingConfig) -> Seq<ChunkView> {
    if t.segments@.len() == 0 {
        Seq::<ChunkView>::empty()
    } else if t.duration_ms < config.min_duration * 1000 {
        seq![whole_chunk(t)]
    } else {
        windows_from(t, (config.target_duration * 1000) as u64, 0, 0)
    }
}

impl TemporalChunker {
    pub fn new() -> (c: TemporalChunker) {
        TemporalChunker {  }
    }

    /// Divides a transcript into passages by the clock.
    pub fn chunk(&self, transcript: &Transcript, config: &ChunkingConfig) -> (out: Vec<
        ContentChunk,
    >)
        ensures
            chunk_views(out@) == temporal_chunks(*transcript, *config),
    {
        let mut out: Vec<ContentChunk> = Vec::new();
        if transcript.segments.len() == 0 {
            assert(chunk_views(out@) =~= Seq::<ChunkView>::empty());
            return out;
        }
        let total: u64 = transcript.duration_ms;
        if total < (config.min_duration as u64) * 1000 {
            out.push(ContentChunk::new(None, transcript.full_text.clone(), 0, total, 0));
            assert(chunk_views(out@) =~= seq![whole_chunk(*transcript)]);
            return out;
        }
        let target: u64 = (config.target_duration as u64) * 1000;
        let mut start: u64 = 0;
        assert(chunk_views(out@) =~= Seq::<ChunkView>::empty());
        if target == 0 {
            return out;
        }
        assert(chunk_views(out@) + windows_from(*transcript, target, 0, 0) == windows_from(
            *transcript,
            target,
            0,
            0,
        ));
        while start < total
            invariant
                target > 0,
                total == transcript.duration_ms,
                chunk_views(out@) + windows_from(*transcript, target, start, out.len() as nat)
                    == windows_from(*transcript, target, 0, 0),
            decreases total - start,
        {
            let end: u64 = if target < total - start {
                start + target
            } else {
                total
            };
            assert(end == window_end(*transcript, target, start));
            let content = trim_chars(&transcript.text_overlapping(start, end));
            if content.len() > 0 {
                let ghost prior = out@;
                let chunk = ContentChunk::new(None, from_chars(&content), start, end, out.len());
                out.push(chunk);
                assert(chunk_views(out@) =~= chunk_views(prior).push(chunk@));
                assert(chunk_views(prior) + (seq![chunk@] + windows_from(
                    *transcript,
                    target,
                    end,
                    out.len() as nat,
                )) =~= chunk_views(prior).push(chunk@) + windows_from(
                    *transcript,
                    target,
                    end,
                    out.len() as nat,
                ));
            }
            start = end;
        }
        assert(chunk_views(out@) + Seq::<ChunkView>::empty() == chunk_views(out@));
        out
    }
}

/// The passages of windows come in the order of their starts, none starts
/// before the first window, and they are numbered without a gap.
pub proof fn lemma_windows_in_order(t: Transcript, target: u64, start: u64, order: nat)
    ensures
        forall|i: int|
            0 <= i < windows_from(t, target, start, order).len() ==> (#[trigger] windows_from(
                t,
                target,
                start,
                order,
            )[i]).order == order + i && windows_from(t, target, start, order)[i].start_ms >= start,
        forall|i: int, j: int|
            0 <= i <= j < windows_from(t, target, start, order).len() ==> (#[trigger] windows_from(
                t,
                target,
                start,
                order,
            )[i]).start_ms <= (#[trigger] windows_from(t, target, start, order)[j]).start_ms,
    decreases t.duration_ms - start,
{
    if start >= t.duration_ms || target == 0 {
    } else {
        let end = window_end(t, target, start);
        let content = window_text(t, start, end);
        let all = windows_from(t, target, start, order);
        if content.len() > 0 {
            let rest = windows_from(t, target, end, order + 1);
            lemma_windows_in_order(t, target, end, order + 1);
            assert forall|i: int| 0 <= i < all.len() implies (#[trigger] all[i]).order == order + i
                && all[i].start_ms >= start by {
                if i > 0 {
                    assert(all[i] == rest[i - 1]);
                }
            }
            assert forall|i: int, j: int| 0 <= i <= j < all.len() implies (#[trigger] all[i]).start_ms
                <= (#[trigger] all[j]).start_ms by {
                if i > 0 {
                    assert(all[i] == rest[i - 1]);
                    assert(all[j] == rest[j - 1]);
                } else if j > 0 {
                    assert(all[j] == rest[j - 1]);
                }
            }
        } else {
            lemma_windows_in_order(t, target, end, order);
        }
    }
}

/// The passages of a transcript by the clock come in the order of their
/// starts and are numbered from zero without a gap.
pub proof fn lemma_temporal_in_order(t: Transcript, config: ChunkingConfig)
    ensures
        in_order(temporal_chunks(t, config)),
{
    if t.segments@.len() == 0 {
    } else if t.duration_ms < config.min_duration * 1000 {
    } else {
        lemma_windows_in_order(t, (config.target_duration * 1000) as u64, 0, 0);
    }
}

/// Whether the segment at index `i` says something within a transcript: it
/// has a length, starts before the transcript ends, and its text is not
/// blank.
pub open spec fn speaks_at(t: Transcript, i: int) -> bool {
    &&& 0 <= i < t.segments@.len()
    &&& t.segments@[i].start_ms < t.segments@[i].end_ms
    &&& t.segments@[i].start_ms < t.duration_ms
    &&& !is_blank(t.segments@[i].text@)
}

/// Whether something is said in a transcript: by some segment.
pub open spec fn speaks(t: Transcript) -> bool {
    exists|i: int| speaks_at(t, i)
}

proof fn lemma_texts_hold(
    segments: Seq<TranscriptSegment>,
    keep: spec_fn(TranscriptSegment) -> bool,
    i: int,
) -> (j: int)
    requires
        0 <= i < segments.len(),
        keep(segments[i]),
    ensures
        0 <= j < texts_where(segments, keep).len(),
        texts_where(segments, keep)[j] == segments[i].text@,
    decreases segments.len(),
{
    if i == segments.len() - 1 {
        texts_where(segments.drop_last(), keep).len() as int
    } else {
        assert(segments.drop_last()[i] == segments[i]);
        lemma_texts_hold(segments.drop_last(), keep, i)
    }
}

proof fn lemma_window_speaks(t: Transcript, start: u64, end: u64, i: int)
    requires
        0 <= i < t.segments@.len(),
        !is_blank(t.segments@[i].text@),
        t.segments@[i].start_ms < end,
        t.segments@[i].end_ms > start,
    ensures
        window_text(t, start, end).len() > 0,
{
    let keep = overlaps(start, end);
    assert(keep(t.segments@[i]));
    let j = lemma_texts_hold(t.segments@, keep, i);
    let texts = texts_where(t.segments@, keep);
    lemma_join_not_blank(texts, space(), j);
    lemma_trim_blank(join(texts, space()));
}

proof fn lemma_windows_not_empty(t: Transcript, target: u64, start: u64, order: nat, i: int)
    requires
        speaks_at(t, i),
        t.segments@[i].end_ms > start,
        target > 0,
        start < t.duration_ms,
    ensures
        windows_from(t, target, start, order).len() >= 1,
    decreases t.duration_ms - start,
{
    let end = window_end(t, target, start);
    if t.segments@[i].start_ms < end {
        lemma_window_speaks(t, start, end, i);
    } else if window_text(t, start, end).len() == 0 {
        lemma_windows_not_empty(t, target, end, order, i);
    }
}

/// A transcript in which something is said has at least one passage by the
/// clock, whatever the least duration, where the target duration is not
/// zero.
pub proof fn lemma_temporal_not_empty(t: Transcript, config: ChunkingConfig)
    requires
        config.target_duration > 0,
        speaks(t),
    ensures
        temporal_chunks(t, config).len() >= 1,
{
    let i = choose|i: int| speaks_at(t, i);
    if t.duration_ms >= config.min_duration * 1000 {
        lemma_windows_not_empty(t, (config.target_duration * 1000) as u64, 0, 0, i);
    }
}

} // verus!
