//! What is made of the answers of a model that gives times: words where it
//! gave only sentences, and one transcript from the answers for the parts of
//! a long recording.

use crate::decimal::{decimal, push_decimal};
use crate::error::LyttError;
use crate::sorting::{reorder, sort_by_keys, stable_order};
use crate::text::{
    append_chars, append_str, from_chars, join, join_chars, lemma_views_push, split_words, to_chars,
    trim, trim_chars, views, words,
};
use crate::timefmt::{later, round_seconds, rounded_seconds, shift};
use crate::transcription::models::{
    segment_views, word_views, SegmentView, Transcript, TranscriptSegment, WhisperWord,
    WordLevelTranscript, WordView,
};
use vstd::prelude::*;

verus! {

/// The length of a stretch of time; zero where it ends before it starts.
pub open spec fn stretch(start: u64, end: u64) -> int {
    if end >= start {
        end - start
    } else {
        0
    }
}

/// The `i`-th of `n` words that share a stretch of time in equal parts.
pub open spec fn spread_word(word: Seq<char>, start: u64, end: u64, i: int, n: int) -> WordView {
    WordView {
        word,
        start_ms: (start + i * stretch(start, end) / n) as u64,
        end_ms: (start + (i + 1) * stretch(start, end) / n) as u64,
    }
}

/// The words of a sentence, with the time of the sentence shared among them
/// in equal parts.
pub open spec fn spread(sentence: TranscriptSegment) -> Seq<WordView> {
    let ws = words(sentence.text@);
    Seq::new(
        ws.len(),
        |i: int| spread_word(ws[i], sentence.start_ms, sentence.end_ms, i, ws.len() as int),
    )
}

/// The words of the sentences in order, each sentence spread over its words.
pub open spec fn approximated(sentences: Seq<TranscriptSegment>) -> Seq<WordView>
    decreases sentences.len(),
{
    if sentences.len() == 0 {
        Seq::<WordView>::empty()
    } else {
        approximated(sentences.drop_last()) + spread(sentences.last())
    }
}

proof fn lemma_part_fits(i: int, d: int, n: int)
    requires
        0 <= i <= n,
        0 < n,
        0 <= d,
    ensures
        0 <= i * d / n <= d,
{
    assert(i * d <= n * d) by (nonlinear_arith)
        requires
            0 <= i <= n,
            0 <= d,
    ;
    assert(0 <= i * d) by (nonlinear_arith)
        requires
            0 <= i,
            0 <= d,
    ;
    assert(i * d / n <= d) by (nonlinear_arith)
        requires
            i * d <= n * d,
            0 < n,
    ;
    assert(0 <= i * d / n) by (nonlinear_arith)
        requires
            0 <= i * d,
            0 < n,
    ;
}

proof fn lemma_product_fits(i: int, d: int)
    requires
        0 <= i <= 0x1_0000_0000_0000_0000,
        0 <= d <= 0xFFFF_FFFF_FFFF_FFFF,
    ensures
        0 <= i * d <= 0x1_0000_0000_0000_0000 * 0xFFFF_FFFF_FFFF_FFFF,
{
    assert(0 <= i * d <= 0x1_0000_0000_0000_0000 * 0xFFFF_FFFF_FFFF_FFFF) by (nonlinear_arith)
        requires
            0 <= i <= 0x1_0000_0000_0000_0000,
            0 <= d <= 0xFFFF_FFFF_FFFF_FFFF,
    ;
}

/// Words with times for sentences with times: every sentence gives its time
/// to its words in equal parts.
pub fn approximate_words(sentences: &Vec<TranscriptSegment>) -> (out: Vec<WhisperWord>)
    ensures
        word_views(out@) == approximated(sentences@),
{
    let mut out: Vec<WhisperWord> = Vec::new();
    let mut s: usize = 0;
    assert(sentences@.take(0) == Seq::<TranscriptSegment>::empty());
    assert(word_views(out@) == Seq::<WordView>::empty());
    while s < sentences.len()
        invariant
            s <= sentences.len(),
            word_views(out@) == approximated(sentences@.take(s as int)),
        decreases sentences.len() - s,
    {
        let sentence = &sentences[s];
        let pieces = split_words(&to_chars(sentence.text.as_str()));
        let n = pieces.len();
        let start: u64 = sentence.start_ms;
        let d: u64 = if sentence.end_ms >= start {
            sentence.end_ms - start
        } else {
            0
        };
        let ghost before = word_views(out@);
        assert(views(pieces@).len() == n);
        let mut i: usize = 0;
        while i < n
            invariant
                i <= n,
                n == pieces.len(),
                views(pieces@) == words(sentence.text@),
                start == sentence.start_ms,
                d == stretch(sentence.start_ms, sentence.end_ms),
                word_views(out@) == before + spread(*sentence).take(i as int),
            decreases n - i,
        {
            proof {
                lemma_part_fits(i as int, d as int, n as int);
                lemma_part_fits(i + 1, d as int, n as int);
                lemma_product_fits(i as int, d as int);
                lemma_product_fits(i + 1, d as int);
            }
            let from: u64 = start + ((i as u128 * d as u128) / (n as u128)) as u64;
            let to: u64 = start + (((i as u128 + 1) * d as u128) / (n as u128)) as u64;
            let word = from_chars(&pieces[i]);
            let ghost prior = out@;
            let w = WhisperWord { word, start_ms: from, end_ms: to };
            assert(w@ == spread(*sentence)[i as int]);
            out.push(w);
            assert(word_views(out@) =~= word_views(prior).push(w@));
            assert(spread(*sentence).take(i + 1) =~= spread(*sentence).take(i as int).push(w@));
            assert(before + spread(*sentence).take(i + 1) =~= (before + spread(*sentence).take(
                i as int,
            )).push(w@));
            i = i + 1;
        }
        assert(spread(*sentence).take(n as int) == spread(*sentence));
        assert(sentences@.take(s + 1).drop_last() == sentences@.take(s as int));
        assert(sentences@.take(s + 1).last() == *sentence);
        s = s + 1;
    }
    assert(sentences@.take(sentences.len() as int) == sentences@);
    out
}

/// The words of an answer: the words the model gave, else the words of its
/// sentences with approximate times, else none.
pub fn words_from_response(
    words: Option<Vec<WhisperWord>>,
    sentences: Option<Vec<TranscriptSegment>>,
) -> (out: Vec<WhisperWord>)
    ensures
        match words {
            Some(w) => out == w,
            None => match sentences {
                Some(s) => word_views(out@) == approximated(s@),
                None => out@.len() == 0,
            },
        },
{
    match words {
        Some(w) => w,
        None => match sentences {
            Some(s) => approximate_words(&s),
            None => Vec::new(),
        },
    }
}

/// The sentences with their texts trimmed.
pub open spec fn trimmed(sentences: Seq<TranscriptSegment>) -> Seq<SegmentView> {
    Seq::new(
        sentences.len(),
        |i: int|
            SegmentView {
                start_ms: sentences[i].start_ms,
                end_ms: sentences[i].end_ms,
                text: trim(sentences[i].text@),
            },
    )
}

/// The segments of an answer: the sentences the model gave, trimmed; else one
/// segment from zero to the duration with the whole text, trimmed.
pub fn segments_from_response(
    sentences: Option<Vec<TranscriptSegment>>,
    duration_ms: u64,
    text: &str,
) -> (out: Vec<TranscriptSegment>)
    ensures
        match sentences {
            Some(s) => segment_views(out@) == trimmed(s@),
            None => segment_views(out@) == seq![
                SegmentView { start_ms: 0, end_ms: duration_ms, text: trim(text@) },
            ],
        },
{
    let mut out: Vec<TranscriptSegment> = Vec::new();
    match sentences {
        Some(s) => {
            let mut i: usize = 0;
            while i < s.len()
                invariant
                    i <= s.len(),
                    segment_views(out@) == trimmed(s@).take(i as int),
                decreases s.len() - i,
            {
                let text = from_chars(&trim_chars(&to_chars(s[i].text.as_str())));
                let seg = TranscriptSegment { start_ms: s[i].start_ms, end_ms: s[i].end_ms, text };
                let ghost prior = out@;
                out.push(seg);
                assert(segment_views(out@) =~= segment_views(prior).push(seg@));
                assert(trimmed(s@).take(i + 1) =~= trimmed(s@).take(i as int).push(seg@));
                i = i + 1;
            }
            assert(trimmed(s@).take(s.len() as int) == trimmed(s@));
        },
        None => {
            let whole = from_chars(&trim_chars(&to_chars(text)));
            out.push(TranscriptSegment { start_ms: 0, end_ms: duration_ms, text: whole });
            assert(segment_views(out@) =~= seq![
                SegmentView { start_ms: 0, end_ms: duration_ms, text: trim(text@) },
            ]);
        },
    }
    out
}

/// The answer for one part of a recording: which part, where it starts in the
/// recording, and its segments with times from the start of the part.
#[derive(Debug)]
pub struct SegmentChunk {
    pub index: usize,
    pub offset_ms: u64,
    pub segments: Vec<TranscriptSegment>,
}

/// The answer for one part of a recording: which part, where it starts in the
/// recording, and its words with times from the start of the part, or why
/// there are none.
#[derive(Debug)]
pub struct WordChunk {
    pub index: usize,
    pub offset_ms: u64,
    pub outcome: Result<Vec<WhisperWord>, LyttError>,
}

/// The segments, each `offset` later.
pub open spec fn segments_later(segments: Seq<TranscriptSegment>, offset: u64) -> Seq<
    SegmentView,
> {
    Seq::new(
        segments.len(),
        |i: int|
            SegmentView {
                start_ms: later(segments[i].start_ms, offset),
                end_ms: later(segments[i].end_ms, offset),
                text: segments[i].text@,
            },
    )
}

/// The words, each `offset` later.
pub open spec fn words_later(words: Seq<WhisperWord>, offset: u64) -> Seq<WordView> {
    Seq::new(
        words.len(),
        |i: int|
            WordView {
                word: words[i].word@,
                start_ms: later(words[i].start_ms, offset),
                end_ms: later(words[i].end_ms, offset),
            },
    )
}

/// The segments of the parts one after the other, each at its place in the
/// recording.
pub open spec fn segments_in_sequence(chunks: Seq<SegmentChunk>) -> Seq<SegmentView>
    decreases chunks.len(),
{
    if chunks.len() == 0 {
        Seq::<SegmentView>::empty()
    } else {
        segments_in_sequence(chunks.drop_last()) + segments_later(
            chunks.last().segments@,
            chunks.last().offset_ms,
        )
    }
}

/// The keys that put parts of segments in their order.
pub open spec fn segment_chunk_keys(chunks: Seq<SegmentChunk>) -> Seq<i128> {
    Seq::new(chunks.len(), |i: int| chunks[i].index as i128)
}

/// The keys that put parts of words in their order.
pub open spec fn word_chunk_keys(chunks: Seq<WordChunk>) -> Seq<i128> {
    Seq::new(chunks.len(), |i: int| chunks[i].index as i128)
}

/// One transcript from the answers for the parts of a recording, in whatever
/// order they came: the parts are put in their order, and the times of each
/// are counted from the start of the recording.
pub fn merge_chunk_segments(video_id: String, chunks: Vec<SegmentChunk>) -> (t: Transcript)
    ensures
        t.video_id == video_id,
        segment_views(t.segments@) == segments_in_sequence(
            reorder(chunks@, stable_order(segment_chunk_keys(chunks@))),
        ),
        t.covers(),
{
    let mut sorted = chunks;
    let mut keys: Vec<i128> = Vec::new();
    let mut k: usize = 0;
    while k < sorted.len()
        invariant
            k <= sorted.len(),
            keys@ == segment_chunk_keys(sorted@).take(k as int),
        decreases sorted.len() - k,
    {
        keys.push(sorted[k].index as i128);
        assert(keys@ =~= segment_chunk_keys(sorted@).take(k + 1));
        k = k + 1;
    }
    assert(segment_chunk_keys(sorted@).take(sorted.len() as int) == segment_chunk_keys(sorted@));
    sort_by_keys(&mut sorted, &mut keys);
    let mut all: Vec<TranscriptSegment> = Vec::new();
    let mut c: usize = 0;
    assert(sorted@.take(0) == Seq::<SegmentChunk>::empty());
    assert(segment_views(all@) == Seq::<SegmentView>::empty());
    while c < sorted.len()
        invariant
            c <= sorted.len(),
            segment_views(all@) == segments_in_sequence(sorted@.take(c as int)),
        decreases sorted.len() - c,
    {
        let chunk = &sorted[c];
        let ghost before = segment_views(all@);
        let ghost moved = segments_later(chunk.segments@, chunk.offset_ms);
        let mut i: usize = 0;
        while i < chunk.segments.len()
            invariant
                i <= chunk.segments.len(),
                moved == segments_later(chunk.segments@, chunk.offset_ms),
                segment_views(all@) == before + moved.take(i as int),
            decreases chunk.segments.len() - i,
        {
            let seg = &chunk.segments[i];
            let moved_seg = TranscriptSegment {
                start_ms: shift(seg.start_ms, chunk.offset_ms),
                end_ms: shift(seg.end_ms, chunk.offset_ms),
                text: seg.text.clone(),
            };
            let ghost prior = all@;
            all.push(moved_seg);
            assert(segment_views(all@) =~= segment_views(prior).push(moved_seg@));
            assert(moved.take(i + 1) =~= moved.take(i as int).push(moved_seg@));
            assert(before + moved.take(i + 1) =~= (before + moved.take(i as int)).push(
                moved_seg@,
            ));
            i = i + 1;
        }
        assert(moved.take(chunk.segments.len() as int) == moved);
        assert(sorted@.take(c + 1).drop_last() == sorted@.take(c as int));
        assert(sorted@.take(c + 1).last() == *chunk);
        c = c + 1;
    }
    assert(sorted@.take(sorted.len() as int) == sorted@);
    Transcript::new(video_id, all)
}

/// What is said of the part `index` that failed.
pub open spec fn chunk_complaint(index: usize, error: LyttError) -> Seq<char> {
    "Chunk "@ + decimal(index as nat) + ": "@ + error.message()
}

/// What is said of each part that failed, in order.
pub open spec fn complaints(chunks: Seq<WordChunk>) -> Seq<Seq<char>>
    decreases chunks.len(),
{
    if chunks.len() == 0 {
        Seq::<Seq<char>>::empty()
    } else {
        match chunks.last().outcome {
            Ok(_) => complaints(chunks.drop_last()),
            Err(e) => complaints(chunks.drop_last()).push(chunk_complaint(chunks.last().index, e)),
        }
    }
}

/// The words of the parts that have words one after the other, each at its
/// place in the recording.
pub open spec fn words_in_sequence(chunks: Seq<WordChunk>) -> Seq<WordView>
    decreases chunks.len(),
{
    if chunks.len() == 0 {
        Seq::<WordView>::empty()
    } else {
        match chunks.last().outcome {
            Ok(words) => words_in_sequence(chunks.drop_last()) + words_later(
                words@,
                chunks.last().offset_ms,
            ),
            Err(_) => words_in_sequence(chunks.drop_last()),
        }
    }
}

/// What is said when parts failed.
pub open spec fn words_failure(complaints: Seq<Seq<char>>) -> Seq<char> {
    "Word-level transcription failed for "@ + decimal(complaints.len()) + " chunk(s):\n"@ + join(
        complaints,
        "\n"@,
    )
}

/// One word-level transcript from the answers for the parts of a recording,
/// in whatever order they came. Where a part failed, the error names every
/// part that did, in the order of the parts.
pub fn merge_chunk_words(media_id: String, chunks: Vec<WordChunk>) -> (r: Result<
    WordLevelTranscript,
    LyttError,
>)
    ensures
        ({
            let sorted = reorder(chunks@, stable_order(word_chunk_keys(chunks@)));
            if complaints(sorted).len() == 0 {
                r matches Ok(t) && t.media_id == media_id && word_views(t.words@)
                    == words_in_sequence(sorted) && t.full_text@ == join(
                    crate::transcription::models::word_texts(t.words@),
                    crate::transcription::models::space(),
                ) && t.duration_ms == crate::transcription::models::words_end(t.words@)
            } else {
                r matches Err(LyttError::Transcription(m)) && m@ == words_failure(
                    complaints(sorted),
                )
            }
        }),
{
    let mut sorted = chunks;
    let mut keys: Vec<i128> = Vec::new();
    let mut k: usize = 0;
    while k < sorted.len()
        invariant
            k <= sorted.len(),
            keys@ == word_chunk_keys(sorted@).take(k as int),
        decreases sorted.len() - k,
    {
        keys.push(sorted[k].index as i128);
        assert(keys@ =~= word_chunk_keys(sorted@).take(k + 1));
        k = k + 1;
    }
    assert(word_chunk_keys(sorted@).take(sorted.len() as int) == word_chunk_keys(sorted@));
    sort_by_keys(&mut sorted, &mut keys);
    let mut all: Vec<WhisperWord> = Vec::new();
    let mut errors: Vec<Vec<char>> = Vec::new();
    let mut c: usize = 0;
    assert(sorted@.take(0) == Seq::<WordChunk>::empty());
    assert(word_views(all@) == Seq::<WordView>::empty());
    assert(views(errors@) == Seq::<Seq<char>>::empty());
    while c < sorted.len()
        invariant
            c <= sorted.len(),
            word_views(all@) == words_in_sequence(sorted@.take(c as int)),
            views(errors@) == complaints(sorted@.take(c as int)),
        decreases sorted.len() - c,
    {
        let chunk = &sorted[c];
        assert(sorted@.take(c + 1).drop_last() == sorted@.take(c as int));
        assert(sorted@.take(c + 1).last() == *chunk);
        match &chunk.outcome {
            Ok(words) => {
                let ghost before = word_views(all@);
                let ghost moved = words_later(words@, chunk.offset_ms);
                let mut i: usize = 0;
                while i < words.len()
                    invariant
                        i <= words.len(),
                        moved == words_later(words@, chunk.offset_ms),
                        word_views(all@) == before + moved.take(i as int),
                    decreases words.len() - i,
                {
                    let w = &words[i];
                    let moved_word = WhisperWord {
                        word: w.word.clone(),
                        start_ms: shift(w.start_ms, chunk.offset_ms),
                        end_ms: shift(w.end_ms, chunk.offset_ms),
                    };
                    let ghost prior = all@;
                    all.push(moved_word);
                    assert(word_views(all@) =~= word_views(prior).push(moved_word@));
                    assert(moved.take(i + 1) =~= moved.take(i as int).push(moved_word@));
                    assert(before + moved.take(i + 1) =~= (before + moved.take(i as int)).push(
                        moved_word@,
                    ));
                    i = i + 1;
                }
                assert(moved.take(words.len() as int) == moved);
            },
            Err(e) => {
                let mut line: Vec<char> = Vec::new();
                append_str(&mut line, "Chunk ");
                push_decimal(&mut line, chunk.index as u64);
                append_str(&mut line, ": ");
                append_str(&mut line, e.to_string().as_str());
                assert(line@ == chunk_complaint(chunk.index, *e));
                proof {
                    lemma_views_push(errors@, line);
                }
                errors.push(line);
            },
        }
        c = c + 1;
    }
    assert(sorted@.take(sorted.len() as int) == sorted@);
    if errors.len() > 0 {
        let mut m: Vec<char> = Vec::new();
        append_str(&mut m, "Word-level transcription failed for ");
        push_decimal(&mut m, errors.len() as u64);
        append_str(&mut m, " chunk(s):\n");
        let body = join_chars(&errors, &to_chars("\n"));
        append_chars(&mut m, &body);
        return Err(LyttError::Transcription(from_chars(&m)));
    }
    Ok(WordLevelTranscript::new(media_id, all))
}

/// What is said of a part that failed while others were still under way.
pub open spec fn chunk_failure(index: usize, offset_ms: u64, error: LyttError) -> Seq<char> {
    "Chunk "@ + decimal(index as nat) + " at "@ + decimal(rounded_seconds(offset_ms as nat))
        + "s failed: "@ + error.message()
}

/// The error that ends a transcription at the first part that fails.
pub fn chunk_failed(index: usize, offset_ms: u64, error: &LyttError) -> (e: LyttError)
    ensures
        e matches LyttError::Transcription(m) && m@ == chunk_failure(index, offset_ms, *error),
{
    let mut m: Vec<char> = Vec::new();
    append_str(&mut m, "Chunk ");
    push_decimal(&mut m, index as u64);
    append_str(&mut m, " at ");
    push_decimal(&mut m, round_seconds(offset_ms));
    append_str(&mut m, "s failed: ");
    append_str(&mut m, error.to_string().as_str());
    LyttError::Transcription(from_chars(&m))
}

} // verus!
