//! Transcripts and what they are made of. Times are whole milliseconds from
//! the start of the media.

use crate::text::{append_str, from_chars, join, join_chars, to_chars, views};
use crate::timefmt::{clock, clock_seconds, format_clock, push_clock};
use vstd::prelude::*;

verus! {

/// One word with the time at which it is spoken.
#[derive(Debug, Clone)]
pub struct WhisperWord {
    pub word: String,
    pub start_ms: u64,
    pub end_ms: u64,
}

/// The words of a media in order, with their text and the end of the last.
#[derive(Debug, Clone)]
pub struct WordLevelTranscript {
    pub media_id: String,
    pub words: Vec<WhisperWord>,
    pub full_text: String,
    pub duration_ms: u64,
}

/// A transcription without times.
#[derive(Debug, Clone)]
pub struct PlainTranscript {
    pub media_id: String,
    pub text: String,
    pub language: Option<String>,
}

/// A sentence with its times, as fusion produces it.
#[derive(Debug, Clone)]
pub struct FusedSegment {
    pub text: String,
    pub start_ms: u64,
    pub end_ms: u64,
}

/// A stretch of a transcript: a text and the time it spans.
#[derive(Debug, Clone)]
pub struct TranscriptSegment {
    pub start_ms: u64,
    pub end_ms: u64,
    pub text: String,
}

/// The segments of a media in order, with their text and the end of the last.
#[derive(Debug, Clone)]
pub struct Transcript {
    pub video_id: String,
    pub segments: Vec<TranscriptSegment>,
    pub full_text: String,
    pub duration_ms: u64,
}

/// What a `WhisperWord` holds.
pub struct WordView {
    pub word: Seq<char>,
    pub start_ms: u64,
    pub end_ms: u64,
}

/// What a `TranscriptSegment` or a `FusedSegment` holds.
pub struct SegmentView {
    pub start_ms: u64,
    pub end_ms: u64,
    pub text: Seq<char>,
}

impl View for WhisperWord {
    type V = WordView;

    open spec fn view(&self) -> WordView {
        WordView { word: self.word@, start_ms: self.start_ms, end_ms: self.end_ms }
    }
}

impl View for TranscriptSegment {
    type V = SegmentView;

    open spec fn view(&self) -> SegmentView {
        SegmentView { start_ms: self.start_ms, end_ms: self.end_ms, text: self.text@ }
    }
}

impl View for FusedSegment {
    type V = SegmentView;

    open spec fn view(&self) -> SegmentView {
        SegmentView { start_ms: self.start_ms, end_ms: self.end_ms, text: self.text@ }
    }
}

/// What a `Transcript` holds.
pub struct TranscriptView {
    pub video_id: Seq<char>,
    pub segments: Seq<SegmentView>,
    pub full_text: Seq<char>,
    pub duration_ms: u64,
}

/// The views of words, in order.
pub open spec fn word_views(words: Seq<WhisperWord>) -> Seq<WordView> {
    Seq::new(words.len(), |i: int| words[i]@)
}

/// The views of segments, in order.
pub open spec fn segment_views(segments: Seq<TranscriptSegment>) -> Seq<SegmentView> {
    Seq::new(segments.len(), |i: int| segments[i]@)
}

/// The views of fused segments, in order.
pub open spec fn fused_views(segments: Seq<FusedSegment>) -> Seq<SegmentView> {
    Seq::new(segments.len(), |i: int| segments[i]@)
}

/// What stands between two texts that are joined.
pub open spec fn space() -> Seq<char> {
    seq![' ']
}

/// The texts of the words, in order.
pub open spec fn word_texts(words: Seq<WhisperWord>) -> Seq<Seq<char>> {
    Seq::new(words.len(), |i: int| words[i].word@)
}

/// The texts of the segments, in order.
pub open spec fn segment_texts(segments: Seq<TranscriptSegment>) -> Seq<Seq<char>> {
    Seq::new(segments.len(), |i: int| segments[i].text@)
}

/// The end of the last word, or zero where there is none.
pub open spec fn words_end(words: Seq<WhisperWord>) -> nat {
    if words.len() == 0 {
        0
    } else {
        words.last().end_ms as nat
    }
}

/// The end of the last segment, or zero where there is none.
pub open spec fn segments_end(segments: Seq<TranscriptSegment>) -> nat {
    if segments.len() == 0 {
        0
    } else {
        segments.last().end_ms as nat
    }
}

/// The texts of those segments that `keep` holds of, in order.
pub open spec fn texts_where(
    segments: Seq<TranscriptSegment>,
    keep: spec_fn(TranscriptSegment) -> bool,
) -> Seq<Seq<char>>
    decreases segments.len(),
{
    if segments.len() == 0 {
        Seq::<Seq<char>>::empty()
    } else if keep(segments.last()) {
        texts_where(segments.drop_last(), keep).push(segments.last().text@)
    } else {
        texts_where(segments.drop_last(), keep)
    }
}

/// Holds of the segments that lie within `[start, end]`.
pub open spec fn lies_within(start: u64, end: u64) -> spec_fn(TranscriptSegment) -> bool {
    |s: TranscriptSegment| s.start_ms >= start && s.end_ms <= end
}

/// Holds of the segments that share time with `[start, end)`.
pub open spec fn overlaps(start: u64, end: u64) -> spec_fn(TranscriptSegment) -> bool {
    |s: TranscriptSegment| s.start_ms < end && s.end_ms > start
}

/// A segment as a line: its two clock readings in brackets, then its text.
pub open spec fn stamped_line(s: TranscriptSegment) -> Seq<char> {
    seq!['['] + clock(clock_seconds(s.start_ms as nat)) + seq![' ', '-', ' '] + clock(
        clock_seconds(s.end_ms as nat),
    ) + seq![']', ' '] + s.text@
}

/// The segments as lines, in order.
pub open spec fn stamped_lines(segments: Seq<TranscriptSegment>) -> Seq<Seq<char>> {
    Seq::new(segments.len(), |i: int| stamped_line(segments[i]))
}

fn single(c: char) -> (out: Vec<char>)
    ensures
        out@ == seq![c],
{
    let mut out: Vec<char> = Vec::new();
    out.push(c);
    out
}

impl WordLevelTranscript {
    /// The transcript of the given words: its text is the words joined by single
    /// spaces, its duration the end of the last word.
    pub fn new(media_id: String, words: Vec<WhisperWord>) -> (t: WordLevelTranscript)
        ensures
            t.media_id == media_id,
            t.words == words,
            t.full_text@ == join(word_texts(words@), space()),
            t.duration_ms == words_end(words@),
    {
        let mut parts: Vec<Vec<char>> = Vec::new();
        let mut i: usize = 0;
        while i < words.len()
            invariant
                i <= words.len(),
                views(parts@) == word_texts(words@).take(i as int),
            decreases words.len() - i,
        {
            let ghost before = parts@;
            parts.push(to_chars(words[i].word.as_str()));
            assert(views(parts@) == views(before).push(words@[i as int].word@));
            assert(word_texts(words@).take(i + 1) == word_texts(words@).take(i as int).push(
                words@[i as int].word@,
            ));
            i = i + 1;
        }
        assert(word_texts(words@).take(words.len() as int) == word_texts(words@));
        let full_text = from_chars(&join_chars(&parts, &single(' ')));
        let duration_ms: u64 = if words.len() == 0 {
            0
        } else {
            words[words.len() - 1].end_ms
        };
        WordLevelTranscript { media_id, words, full_text, duration_ms }
    }
}

impl TranscriptSegment {
    pub fn new(start_ms: u64, end_ms: u64, text: String) -> (s: TranscriptSegment)
        ensures
            s.start_ms == start_ms,
            s.end_ms == end_ms,
            s.text == text,
    {
        TranscriptSegment { start_ms, end_ms, text }
    }

    /// The segment that a fused sentence becomes.
    pub fn from_fused(fused: FusedSegment) -> (s: TranscriptSegment)
        ensures
            s.start_ms == fused.start_ms,
            s.end_ms == fused.end_ms,
            s.text == fused.text,
    {
        TranscriptSegment { start_ms: fused.start_ms, end_ms: fused.end_ms, text: fused.text }
    }

    /// The length of the segment; zero where it ends before it starts.
    pub fn duration(&self) -> (d: u64)
        ensures
            d == if self.end_ms >= self.start_ms {
                self.end_ms - self.start_ms
            } else {
                0
            },
    {
        if self.end_ms >= self.start_ms {
            self.end_ms - self.start_ms
        } else {
            0
        }
    }
}

impl View for Transcript {
    type V = TranscriptView;

    open spec fn view(&self) -> TranscriptView {
        TranscriptView {
            video_id: self.video_id@,
            segments: segment_views(self.segments@),
            full_text: self.full_text@,
            duration_ms: self.duration_ms,
        }
    }
}

impl TranscriptSegment {
    /// A copy that holds the same.
    pub fn duplicate(&self) -> (s: TranscriptSegment)
        ensures
            s@ == self@,
    {
        TranscriptSegment { start_ms: self.start_ms, end_ms: self.end_ms, text: self.text.clone() }
    }
}

impl Transcript {
    /// A copy that holds the same.
    pub fn duplicate(&self) -> (t: Transcript)
        ensures
            t@ == self@,
    {
        let mut segments: Vec<TranscriptSegment> = Vec::new();
        let mut i: usize = 0;
        while i < self.segments.len()
            invariant
                i <= self.segments.len(),
                segment_views(segments@) == segment_views(self.segments@).take(i as int),
            decreases self.segments.len() - i,
        {
            let s = self.segments[i].duplicate();
            let ghost prior = segments@;
            segments.push(s);
            assert(segment_views(segments@) =~= segment_views(prior).push(s@));
            assert(segment_views(self.segments@).take(i + 1) =~= segment_views(
                self.segments@,
            ).take(i as int).push(s@));
            i = i + 1;
        }
        assert(segment_views(self.segments@).take(self.segments.len() as int) == segment_views(
            self.segments@,
        ));
        Transcript {
            video_id: self.video_id.clone(),
            segments,
            full_text: self.full_text.clone(),
            duration_ms: self.duration_ms,
        }
    }

    /// Whether text and duration are those of the segments.
    pub open spec fn covers(self) -> bool {
        &&& self.full_text@ == join(segment_texts(self.segments@), space())
        &&& self.duration_ms == segments_end(self.segments@)
    }

    /// Whether the segments come in the order of their starts and none reaches
    /// into the next.
    pub open spec fn well_formed(self) -> bool {
        &&& forall|i: int, j: int|
            0 <= i <= j < self.segments@.len() ==> self.segments@[i].start_ms
                <= self.segments@[j].start_ms
        &&& forall|i: int|
            0 <= i && i + 1 < self.segments@.len() ==> (#[trigger] self.segments@[i]).end_ms
                <= self.segments@[i + 1].start_ms
    }

    /// The transcript of the given segments: its text is their texts joined by
    /// single spaces, its duration the end of the last segment.
    pub fn new(video_id: String, segments: Vec<TranscriptSegment>) -> (t: Transcript)
        ensures
            t.video_id == video_id,
            t.segments == segments,
            t.covers(),
    {
        let mut parts: Vec<Vec<char>> = Vec::new();
        let mut i: usize = 0;
        while i < segments.len()
            invariant
                i <= segments.len(),
                views(parts@) == segment_texts(segments@).take(i as int),
            decreases segments.len() - i,
        {
            let ghost before = parts@;
            parts.push(to_chars(segments[i].text.as_str()));
            assert(views(parts@) == views(before).push(segments@[i as int].text@));
            assert(segment_texts(segments@).take(i + 1) == segment_texts(segments@).take(
                i as int,
            ).push(segments@[i as int].text@));
            i = i + 1;
        }
        assert(segment_texts(segments@).take(segments.len() as int) == segment_texts(segments@));
        let full_text = from_chars(&join_chars(&parts, &single(' ')));
        let duration_ms: u64 = if segments.len() == 0 {
            0
        } else {
            segments[segments.len() - 1].end_ms
        };
        Transcript { video_id, segments, full_text, duration_ms }
    }

    /// The texts of the segments that start at or after `start` and end at or
    /// before `end`, joined by single spaces.
    pub fn text_between(&self, start: u64, end: u64) -> (out: String)
        ensures
            out@ == join(texts_where(self.segments@, lies_within(start, end)), space()),
    {
        let mut parts: Vec<Vec<char>> = Vec::new();
        let mut i: usize = 0;
        assert(self.segments@.take(0) == Seq::<TranscriptSegment>::empty());
        while i < self.segments.len()
            invariant
                i <= self.segments.len(),
                views(parts@) == texts_where(
                    self.segments@.take(i as int),
                    lies_within(start, end),
                ),
            decreases self.segments.len() - i,
        {
            let seg = &self.segments[i];
            assert(self.segments@.take(i + 1).drop_last() == self.segments@.take(i as int));
            assert(self.segments@.take(i + 1).last() == *seg);
            if seg.start_ms >= start && seg.end_ms <= end {
                let ghost before = parts@;
                parts.push(to_chars(seg.text.as_str()));
                assert(views(parts@) == views(before).push(seg.text@));
            }
            i = i + 1;
        }
        assert(self.segments@.take(self.segments.len() as int) == self.segments@);
        from_chars(&join_chars(&parts, &single(' ')))
    }

    /// The texts of the segments that share time with `[start, end)`, joined by
    /// single spaces.
    pub fn text_overlapping(&self, start: u64, end: u64) -> (out: Vec<char>)
        ensures
            out@ == join(texts_where(self.segments@, overlaps(start, end)), space()),
    {
        let mut parts: Vec<Vec<char>> = Vec::new();
        let mut i: usize = 0;
        assert(self.segments@.take(0) == Seq::<TranscriptSegment>::empty());
        while i < self.segments.len()
            invariant
                i <= self.segments.len(),
                views(parts@) == texts_where(self.segments@.take(i as int), overlaps(start, end)),
            decreases self.segments.len() - i,
        {
            let seg = &self.segments[i];
            assert(self.segments@.take(i + 1).drop_last() == self.segments@.take(i as int));
            assert(self.segments@.take(i + 1).last() == *seg);
            if seg.start_ms < end && seg.end_ms > start {
                let ghost before = parts@;
                parts.push(to_chars(seg.text.as_str()));
                assert(views(parts@) == views(before).push(seg.text@));
            }
            i = i + 1;
        }
        assert(self.segments@.take(self.segments.len() as int) == self.segments@);
        join_chars(&parts, &single(' '))
    }

    /// One line for each segment, with its clock readings in front.
    pub fn format_with_timestamps(&self) -> (out: String)
        ensures
            out@ == join(stamped_lines(self.segments@), seq!['\n']),
    {
        let mut lines: Vec<Vec<char>> = Vec::new();
        let mut i: usize = 0;
        while i < self.segments.len()
            invariant
                i <= self.segments.len(),
                views(lines@) == stamped_lines(self.segments@).take(i as int),
            decreases self.segments.len() - i,
        {
            let seg = &self.segments[i];
            let mut line: Vec<char> = Vec::new();
            line.push('[');
            push_clock(&mut line, seg.start_ms);
            line.push(' ');
            line.push('-');
            line.push(' ');
            push_clock(&mut line, seg.end_ms);
            line.push(']');
            line.push(' ');
            append_str(&mut line, seg.text.as_str());
            assert(line@ == stamped_line(*seg));
            let ghost before = lines@;
            lines.push(line);
            assert(views(lines@) == views(before).push(stamped_line(*seg)));
            assert(stamped_lines(self.segments@).take(i + 1) == stamped_lines(
                self.segments@,
            ).take(i as int).push(stamped_line(*seg)));
            i = i + 1;
        }
        assert(stamped_lines(self.segments@).take(self.segments.len() as int) == stamped_lines(
            self.segments@,
        ));
        from_chars(&join_chars(&lines, &single('\n')))
    }
}

/// The clock reading of a time: `MM:SS`, or `HH:MM:SS` from one hour on.
pub fn format_timestamp(ms: u64) -> (out: String)
    ensures
        out@ == clock(clock_seconds(ms as nat)),
{
    format_clock(ms)
}

} // verus!
