//! Fusion: sentences with times from the words of one model and the text of
//! another. Here stand the rule that needs no model, and what is decided
//! before and after the model is asked.

use crate::agent::tools::seconds_text;
use crate::decimal::{decimal, push_decimal};
use crate::error::LyttError;
use crate::json::{json_of_text, parse_json, text_of_json, write_json, Json, JsonValue};
use crate::sorting::{lemma_stable_order, reorder, sort_by_keys, stable_order};
use crate::text::{
    append_str, clone_chars, from_chars, is_blank, join, join_chars, lemma_trim_blank,
    lemma_views_push, split, split_chars, split_words, string_of, to_chars, trim, trim_chars,
    views, words,
};
use crate::timefmt::{later, round_seconds, rounded_seconds, shift};
use crate::transcription::format::seconds_number;
use crate::transcription::models::{
    fused_views, space, word_texts, FusedSegment, SegmentView, Transcript, TranscriptSegment,
    WhisperWord,
};
use vstd::prelude::*;

verus! {

/// How long a stretch of speech is taken to be where no word tells.
pub const UNKNOWN_DURATION_MS: u64 = 10000;

/// How far the last sentence may end before the last word.
pub const END_SLACK_MS: u64 = 1000;

/// The characters that end a sentence.
pub open spec fn sentence_marks() -> Seq<char> {
    seq!['.', '!', '?']
}

/// The pieces trimmed, without those that trimming leaves empty.
pub open spec fn trimmed_pieces(pieces: Seq<Seq<char>>) -> Seq<Seq<char>>
    decreases pieces.len(),
{
    if pieces.len() == 0 {
        Seq::<Seq<char>>::empty()
    } else if trim(pieces.last()).len() > 0 {
        trimmed_pieces(pieces.drop_last()).push(trim(pieces.last()))
    } else {
        trimmed_pieces(pieces.drop_last())
    }
}

/// The sentences of a text: what stands between `.`, `!` and `?`, trimmed,
/// where that is not empty.
pub open spec fn sentences(text: Seq<char>) -> Seq<Seq<char>> {
    trimmed_pieces(split(text, sentence_marks().to_set()))
}

/// The end of the last word, or the duration taken where there is no word.
pub open spec fn speech_end(words: Seq<WhisperWord>) -> u64 {
    if words.len() == 0 {
        UNKNOWN_DURATION_MS
    } else {
        words.last().end_ms
    }
}

/// The smaller of two numbers.
pub open spec fn least(a: int, b: int) -> int {
    if a <= b {
        a
    } else {
        b
    }
}

/// The sentence that takes the `count` words from `first` on: it starts with
/// the first of them and ends with the last, or with the last word there is;
/// its text ends in a period.
pub open spec fn placed(
    sentence: Seq<char>,
    spoken: Seq<WhisperWord>,
    first: int,
    count: int,
    offset: u64,
) -> SegmentView {
    let total = spoken.len() as int;
    let start = spoken[least(first, total - 1)].start_ms;
    let end = spoken[least(first + count, total) - 1].end_ms;
    SegmentView { text: sentence.push('.'), start_ms: later(offset, start), end_ms: later(offset, end) }
}

/// The sentences placed one after the other on the words, and the number of
/// words they take.
pub open spec fn placed_all(all: Seq<Seq<char>>, spoken: Seq<WhisperWord>, offset: u64) -> (
    Seq<SegmentView>,
    int,
)
    decreases all.len(),
{
    if all.len() == 0 {
        (Seq::<SegmentView>::empty(), 0)
    } else {
        let (before, taken) = placed_all(all.drop_last(), spoken, offset);
        let count = words(all.last()).len() as int;
        if count == 0 {
            (before, taken)
        } else {
            (before.push(placed(all.last(), spoken, taken, count, offset)), taken + count)
        }
    }
}

/// The segments with the last one drawn out to `end` where it ends more than
/// the slack before it.
pub open spec fn reaching(segments: Seq<SegmentView>, end: u64) -> Seq<SegmentView> {
    if segments.len() > 0 && segments.last().end_ms + END_SLACK_MS < end {
        segments.drop_last().push(SegmentView { end_ms: end, ..segments.last() })
    } else {
        segments
    }
}

/// The whole text as one segment from `offset` to the end of the speech.
pub open spec fn unaligned(spoken: Seq<WhisperWord>, text: Seq<char>, offset: u64) -> Seq<
    SegmentView,
> {
    seq![
        SegmentView {
            text,
            start_ms: offset,
            end_ms: later(offset, speech_end(spoken)),
        },
    ]
}

/// Sentences with times, from the words in the order they are spoken and a
/// text of the same speech: the sentences of the text take the words one after
/// the other, as many as each has words of its own; the last sentence is
/// drawn out to the end of the speech. Without words or without sentences
/// the text stays whole.
pub open spec fn alignment(spoken: Seq<WhisperWord>, text: Seq<char>, offset: u64) -> Seq<
    SegmentView,
> {
    if spoken.len() == 0 || text.len() == 0 || sentences(text).len() == 0 {
        unaligned(spoken, text, offset)
    } else {
        reaching(placed_all(sentences(text), spoken, offset).0, later(offset, speech_end(spoken)))
    }
}

fn sentence_pieces(text: &Vec<char>) -> (out: Vec<Vec<char>>)
    ensures
        views(out@) == sentences(text@),
{
    let mut marks: Vec<char> = Vec::new();
    marks.push('.');
    marks.push('!');
    marks.push('?');
    assert(marks@ == sentence_marks());
    let pieces = split_chars(text, &marks);
    let mut out: Vec<Vec<char>> = Vec::new();
    let mut i: usize = 0;
    assert(views(pieces@).take(0) == Seq::<Seq<char>>::empty());
    assert(views(out@) == Seq::<Seq<char>>::empty());
    while i < pieces.len()
        invariant
            i <= pieces.len(),
            views(out@) == trimmed_pieces(views(pieces@).take(i as int)),
        decreases pieces.len() - i,
    {
        let t = trim_chars(&pieces[i]);
        assert(views(pieces@).take(i + 1).drop_last() == views(pieces@).take(i as int));
        assert(views(pieces@).take(i + 1).last() == pieces@[i as int]@);
        if t.len() > 0 {
            proof {
                lemma_views_push(out@, t);
            }
            out.push(t);
        }
        i = i + 1;
    }
    assert(views(pieces@).take(pieces.len() as int) == views(pieces@));
    out
}

fn last_word_end(words: &Vec<WhisperWord>) -> (end: u64)
    ensures
        end == speech_end(words@),
{
    if words.len() == 0 {
        UNKNOWN_DURATION_MS
    } else {
        words[words.len() - 1].end_ms
    }
}

/// Aligns a text to the words of the same speech by position alone.
pub fn align_by_position(words: &Vec<WhisperWord>, text: &str, time_offset: u64) -> (out: Vec<
    FusedSegment,
>)
    ensures
        fused_views(out@) == alignment(words@, text@, time_offset),
{
    let chars = to_chars(text);
    let mut out: Vec<FusedSegment> = Vec::new();
    if words.len() == 0 || chars.len() == 0 {
        out.push(
            FusedSegment {
                text: from_chars(&chars),
                start_ms: time_offset,
                end_ms: shift(time_offset, last_word_end(words)),
            },
        );
        assert(fused_views(out@) =~= unaligned(words@, text@, time_offset));
        return out;
    }
    let all = sentence_pieces(&chars);
    if all.len() == 0 {
        out.push(
            FusedSegment {
                text: from_chars(&chars),
                start_ms: time_offset,
                end_ms: shift(time_offset, last_word_end(words)),
            },
        );
        assert(fused_views(out@) =~= unaligned(words@, text@, time_offset));
        return out;
    }
    let total = words.len();
    let mut taken: usize = 0;
    let mut i: usize = 0;
    assert(views(all@).take(0) == Seq::<Seq<char>>::empty());
    assert(fused_views(out@) == Seq::<SegmentView>::empty());
    while i < all.len()
        invariant
            i <= all.len(),
            total == words.len(),
            total > 0,
            taken <= total,
            fused_views(out@) == placed_all(views(all@).take(i as int), words@, time_offset).0,
            taken == least(
                placed_all(views(all@).take(i as int), words@, time_offset).1,
                total as int,
            ),
            placed_all(views(all@).take(i as int), words@, time_offset).1 >= 0,
        decreases all.len() - i,
    {
        let sentence = &all[i];
        let parts = split_words(sentence);
        let count = parts.len();
        assert(views(parts@).len() == count);
        assert(views(all@).take(i + 1).drop_last() == views(all@).take(i as int));
        assert(views(all@).take(i + 1).last() == sentence@);
        if count > 0 {
            let ghost spec_taken = placed_all(views(all@).take(i as int), words@, time_offset).1;
            let first: usize = if taken < total - 1 {
                taken
            } else {
                total - 1
            };
            let reach: usize = if count >= total - taken {
                total
            } else {
                taken + count
            };
            assert(first == least(spec_taken, total - 1));
            assert(reach == least(spec_taken + count, total as int));
            let start: u64 = words[first].start_ms;
            let end: u64 = words[reach - 1].end_ms;
            let mut line = clone_chars(sentence);
            line.push('.');
            let seg = FusedSegment {
                text: from_chars(&line),
                start_ms: shift(time_offset, start),
                end_ms: shift(time_offset, end),
            };
            assert(seg@ == placed(sentence@, words@, spec_taken, count as int, time_offset));
            let ghost prior = out@;
            out.push(seg);
            assert(fused_views(out@) =~= fused_views(prior).push(seg@));
            taken = reach;
        }
        i = i + 1;
    }
    assert(views(all@).take(all.len() as int) == views(all@));
    let speech_end: u64 = shift(time_offset, last_word_end(words));
    let n = out.len();
    if n > 0 {
        let last_end: u64 = out[n - 1].end_ms;
        if last_end < speech_end && speech_end - last_end > END_SLACK_MS {
            let last = out.pop().unwrap();
            let ghost prior = out@;
            let drawn = FusedSegment { text: last.text, start_ms: last.start_ms, end_ms: speech_end };
            out.push(drawn);
            assert(fused_views(out@) =~= reaching(
                placed_all(sentences(text@), words@, time_offset).0,
                speech_end,
            ));
        }
    }
    out
}

/// A word with its times in seconds, as a JSON object.
pub open spec fn word_json(w: WhisperWord) -> JsonValue {
    JsonValue::Object(
        seq![
            ("word"@, JsonValue::Text(w.word@)),
            ("start"@, JsonValue::Number(seconds_text(w.start_ms as nat))),
            ("end"@, JsonValue::Number(seconds_text(w.end_ms as nat))),
        ],
    )
}

/// The words with their times, as a JSON array.
pub open spec fn words_json(words: Seq<WhisperWord>) -> JsonValue {
    JsonValue::Array(Seq::new(words.len(), |i: int| word_json(words[i])))
}

/// The words with their times as the fusing model is shown them: as the
/// text of a JSON array.
pub fn words_to_json(words: &Vec<WhisperWord>) -> (out: String)
    ensures
        out@ == text_of_json(words_json(words@)),
{
    let mut items: Vec<Json> = Vec::new();
    let mut i: usize = 0;
    while i < words.len()
        invariant
            i <= words.len(),
            items@.len() == i,
            forall|k: int| 0 <= k < i ==> (#[trigger] items@[k])@ == word_json(words@[k]),
        decreases words.len() - i,
    {
        proof {
            reveal_with_fuel(Json::view, 2);
        }
        let w = &words[i];
        let mut members: Vec<(String, Json)> = Vec::new();
        members.push((string_of("word"), Json::Text(w.word.clone())));
        members.push((string_of("start"), seconds_number(w.start_ms)));
        members.push((string_of("end"), seconds_number(w.end_ms)));
        let item = Json::Object(members);
        assert(item@->Object_0 =~= word_json(*w)->Object_0);
        items.push(item);
        i = i + 1;
    }
    let list = Json::Array(items);
    proof {
        reveal_with_fuel(Json::view, 2);
        assert(list@->Array_0 =~= words_json(words@)->Array_0);
    }
    write_json(&list)
}

/// The texts of the words joined by single spaces: the text of a speech of
/// which only the words are known.
pub fn text_of_words(words: &Vec<WhisperWord>) -> (out: String)
    ensures
        out@ == join(word_texts(words@), space()),
{
    let mut parts: Vec<Vec<char>> = Vec::new();
    let mut i: usize = 0;
    while i < words.len()
        invariant
            i <= words.len(),
            views(parts@) == word_texts(words@).take(i as int),
        decreases words.len() - i,
    {
        let w = to_chars(words[i].word.as_str());
        proof {
            lemma_views_push(parts@, w);
            assert(word_texts(words@).take(i + 1) == word_texts(words@).take(i as int).push(
                words@[i as int].word@,
            ));
        }
        parts.push(w);
        i = i + 1;
    }
    assert(word_texts(words@).take(words.len() as int) == word_texts(words@));
    let mut sep: Vec<char> = Vec::new();
    sep.push(' ');
    from_chars(&join_chars(&parts, &sep))
}

/// What the fusing model is asked: the words with their times as JSON, the
/// text, and the form of the answer.
pub open spec fn fusion_request(words_json: Seq<char>, text: Seq<char>) -> Seq<char> {
    "Word timestamps:\n"@ + words_json + "\n\nAccurate text:\n"@ + text
        + "\n\nReturn JSON: {\"segments\": [{\"text\": \"...\", \"start_seconds\": 0.0, \"end_seconds\": 5.0}]}"@
}

/// The request to the fusing model.
pub fn fusion_prompt(words_json: &str, text: &str) -> (out: String)
    ensures
        out@ == fusion_request(words_json@, text@),
{
    let mut m: Vec<char> = Vec::new();
    append_str(&mut m, "Word timestamps:\n");
    append_str(&mut m, words_json);
    append_str(&mut m, "\n\nAccurate text:\n");
    append_str(&mut m, text);
    append_str(
        &mut m,
        "\n\nReturn JSON: {\"segments\": [{\"text\": \"...\", \"start_seconds\": 0.0, \"end_seconds\": 5.0}]}",
    );
    from_chars(&m)
}

/// The sentence that a JSON value describes: an object with a text and the
/// two times in seconds.
pub open spec fn fused_of(item: JsonValue) -> Option<SegmentView> {
    match (
        item.text_field("text"@),
        item.millis_field("start_seconds"@),
        item.millis_field("end_seconds"@),
    ) {
        (Some(text), Some(start), Some(end)) => Some(
            SegmentView { text, start_ms: start as u64, end_ms: end as u64 },
        ),
        _ => None,
    }
}

/// The sentences that JSON values describe, where every one describes one.
pub open spec fn fused_list(items: Seq<JsonValue>) -> Option<Seq<SegmentView>>
    decreases items.len(),
{
    if items.len() == 0 {
        Some(Seq::<SegmentView>::empty())
    } else {
        match (fused_list(items.drop_last()), fused_of(items.last())) {
            (Some(before), Some(last)) => Some(before.push(last)),
            _ => None,
        }
    }
}

/// The sentences of an answer of the fusing model: those of its member
/// `segments`, where that is an array of sentences.
pub open spec fn fused_answer(answer: JsonValue) -> Option<Seq<SegmentView>> {
    match answer.field("segments"@) {
        Some(JsonValue::Array(items)) => fused_list(items),
        _ => None,
    }
}

/// Reads the sentences of an answer of the fusing model.
pub fn fused_from_json(answer: &Json) -> (r: Option<Vec<FusedSegment>>)
    ensures
        r is Some <==> fused_answer(answer@) is Some,
        r matches Some(v) ==> fused_answer(answer@) == Some(fused_views(v@)),
{
    let list = match answer.get("segments") {
        Some(l) => l,
        None => {
            return None;
        },
    };
    let items = match list.as_array() {
        Some(a) => a,
        None => {
            return None;
        },
    };
    let ghost values = items@.map_values(|j: Json| j@);
    let mut out: Vec<FusedSegment> = Vec::new();
    let mut i: usize = 0;
    assert(values.take(0) == Seq::<JsonValue>::empty());
    assert(fused_views(out@) == Seq::<SegmentView>::empty());
    while i < items.len()
        invariant
            i <= items.len(),
            values == items@.map_values(|j: Json| j@),
            answer@.field("segments"@) == Some(JsonValue::Array(values)),
            fused_list(values.take(i as int)) == Some(fused_views(out@)),
        decreases items.len() - i,
    {
        let item = &items[i];
        assert(values.take(i + 1).drop_last() == values.take(i as int));
        assert(values.take(i + 1).last() == item@);
        let text = item.str_field("text");
        let start = item.millis_field("start_seconds");
        let end = item.millis_field("end_seconds");
        match (text, start, end) {
            (Some(text), Some(start_ms), Some(end_ms)) => {
                let seg = FusedSegment { text, start_ms, end_ms };
                let ghost prior = out@;
                out.push(seg);
                assert(fused_views(out@) =~= fused_views(prior).push(seg@));
            },
            _ => {
                proof {
                    lemma_fused_list_fails(values, i as int);
                }
                return None;
            },
        }
        i = i + 1;
    }
    assert(values.take(items.len() as int) == values);
    Some(out)
}

proof fn lemma_fused_list_fails(items: Seq<JsonValue>, i: int)
    requires
        0 <= i < items.len(),
        fused_of(items[i]) is None,
    ensures
        fused_list(items) is None,
    decreases items.len(),
{
    if i < items.len() - 1 {
        assert(items.drop_last()[i] == items[i]);
        lemma_fused_list_fails(items.drop_last(), i);
    }
}

/// The sentences, each `offset` later.
pub open spec fn sentences_later(segments: Seq<SegmentView>, offset: u64) -> Seq<SegmentView> {
    Seq::new(
        segments.len(),
        |i: int|
            SegmentView {
                text: segments[i].text,
                start_ms: later(segments[i].start_ms, offset),
                end_ms: later(segments[i].end_ms, offset),
            },
    )
}

/// The sentences of a stretch of speech, given what the fusing model made of
/// it: its sentences at their place in the recording, or, where it made none,
/// the alignment by position.
pub open spec fn fusion_of(
    spoken: Seq<WhisperWord>,
    text: Seq<char>,
    offset: u64,
    fused: Option<Seq<SegmentView>>,
) -> Seq<SegmentView> {
    match fused {
        Some(s) => if s.len() > 0 {
            sentences_later(s, offset)
        } else {
            alignment(spoken, text, offset)
        },
        None => alignment(spoken, text, offset),
    }
}

/// What is to be done for a stretch of speech before any model is asked.
#[derive(Debug)]
pub enum FusionPlan {
    /// Nothing to fuse: these are the sentences.
    Done(Vec<FusedSegment>),
    /// Ask the fusing model.
    AskModel,
}

/// A recording is transcribed in stretches of this many seconds.
pub const SEGMENT_SECONDS: u32 = 300;

/// How a recording is transcribed: the models, the prompt of the fusing model,
/// the length of a stretch and how many stretches are under way at once.
#[derive(Debug, Clone)]
pub struct TranscriptionProcessor {
    pub timestamp_model: String,
    pub text_model: Option<String>,
    pub cleanup_model: String,
    pub system_prompt: String,
    pub segment_duration_seconds: u32,
    pub max_concurrent_segments: usize,
}

impl TranscriptionProcessor {
    /// A processor with the given models. The model for the text is used where
    /// the settings name one.
    pub fn with_config(
        settings: &crate::config::TranscriptionProcessingSettings,
        system_prompt: &str,
    ) -> (r: Result<TranscriptionProcessor, LyttError>)
        ensures
            r matches Ok(p) && p.timestamp_model@ == settings.timestamp_model@ && p.cleanup_model@
                == settings.cleanup_model@ && p.system_prompt@ == system_prompt@
                && p.segment_duration_seconds == SEGMENT_SECONDS && p.max_concurrent_segments
                == settings.max_concurrent && (match settings.text_model {
                Some(m) => if m@.len() > 0 {
                    p.text_model matches Some(t) && t@ == m@
                } else {
                    p.text_model is None
                },
                None => p.text_model is None,
            }),
    {
        let text_model = if settings.has_text_model() {
            match &settings.text_model {
                Some(m) => Some(m.clone()),
                None => None,
            }
        } else {
            None
        };
        Ok(
            TranscriptionProcessor {
                timestamp_model: settings.timestamp_model.clone(),
                text_model,
                cleanup_model: settings.cleanup_model.clone(),
                system_prompt: from_chars(&to_chars(system_prompt)),
                segment_duration_seconds: SEGMENT_SECONDS,
                max_concurrent_segments: settings.max_concurrent,
            },
        )
    }

    /// Whether a second model gives the text.
    pub fn is_full_fusion(&self) -> (b: bool)
        ensures
            b == self.text_model is Some,
    {
        self.text_model.is_some()
    }

    /// Decides whether the fusing model is asked: it is, where there are words
    /// and the text is not blank. Without words, a text that is not blank is one
    /// sentence of the duration taken; a blank text gives no sentence.
    pub fn plan_fusion(&self, words: &Vec<WhisperWord>, text: &str, time_offset: u64) -> (plan:
        FusionPlan)
        ensures
            words@.len() > 0 && !is_blank(text@) ==> plan is AskModel,
            words@.len() == 0 && !is_blank(text@) ==> (plan matches FusionPlan::Done(s)
                && fused_views(s@) == seq![
                SegmentView {
                    text: trim(text@),
                    start_ms: time_offset,
                    end_ms: later(time_offset, UNKNOWN_DURATION_MS),
                },
            ]),
            is_blank(text@) ==> (plan matches FusionPlan::Done(s) && s@.len() == 0),
    {
        let trimmed = trim_chars(&to_chars(text));
        proof {
            lemma_trim_blank(text@);
        }
        if words.len() == 0 || trimmed.len() == 0 {
            let mut out: Vec<FusedSegment> = Vec::new();
            if trimmed.len() > 0 {
                out.push(
                    FusedSegment {
                        text: from_chars(&trimmed),
                        start_ms: time_offset,
                        end_ms: shift(time_offset, last_word_end(words)),
                    },
                );
                assert(fused_views(out@) =~= seq![
                    SegmentView {
                        text: trim(text@),
                        start_ms: time_offset,
                        end_ms: later(time_offset, UNKNOWN_DURATION_MS),
                    },
                ]);
            }
            FusionPlan::Done(out)
        } else {
            FusionPlan::AskModel
        }
    }

    /// The sentences of a stretch of speech, given the sentences that were read
    /// from the answer of the fusing model, if any were.
    pub fn finish_fusion(
        &self,
        words: &Vec<WhisperWord>,
        text: &str,
        time_offset: u64,
        fused: Option<Vec<FusedSegment>>,
    ) -> (out: Vec<FusedSegment>)
        ensures
            fused_views(out@) == fusion_of(
                words@,
                text@,
                time_offset,
                match fused {
                    Some(v) => Some(fused_views(v@)),
                    None => None,
                },
            ),
    {
        match fused {
            Some(v) => {
                if v.len() > 0 {
                    let mut out: Vec<FusedSegment> = Vec::new();
                    let mut i: usize = 0;
                    let ghost moved = sentences_later(fused_views(v@), time_offset);
                    while i < v.len()
                        invariant
                            i <= v.len(),
                            moved == sentences_later(fused_views(v@), time_offset),
                            fused_views(out@) == moved.take(i as int),
                        decreases v.len() - i,
                    {
                        let seg = FusedSegment {
                            text: v[i].text.clone(),
                            start_ms: shift(v[i].start_ms, time_offset),
                            end_ms: shift(v[i].end_ms, time_offset),
                        };
                        let ghost prior = out@;
                        out.push(seg);
                        assert(fused_views(out@) =~= fused_views(prior).push(seg@));
                        assert(moved.take(i + 1) =~= moved.take(i as int).push(seg@));
                        i = i + 1;
                    }
                    assert(moved.take(v.len() as int) == moved);
                    out
                } else {
                    align_by_position(words, text, time_offset)
                }
            },
            None => align_by_position(words, text, time_offset),
        }
    }

    /// The sentences of a stretch of speech, given how the fusing model
    /// answered: the sentences of its answer where it is JSON that holds some,
    /// else the alignment by position. A failure of the model is no failure
    /// of the stretch.
    pub fn fuse_reply(
        &self,
        words: &Vec<WhisperWord>,
        text: &str,
        time_offset: u64,
        reply: &Result<String, LyttError>,
    ) -> (out: Vec<FusedSegment>)
        ensures
            fused_views(out@) == fusion_of(
                words@,
                text@,
                time_offset,
                match reply {
                    Ok(content) => match json_of_text(content@) {
                        Some(answer) => fused_answer(answer),
                        None => None,
                    },
                    Err(_) => None,
                },
            ),
    {
        let fused = match reply {
            Ok(content) => match parse_json(content.as_str()) {
                Ok(answer) => fused_from_json(&answer),
                Err(_) => None,
            },
            Err(_) => None,
        };
        self.finish_fusion(words, text, time_offset, fused)
    }
}

/// What is said of a stretch of speech that failed.
pub open spec fn segment_failure(offset_ms: u64, error: LyttError) -> Seq<char> {
    "Segment at "@ + decimal(rounded_seconds(offset_ms as nat)) + "s failed: "@ + error.message()
}

/// The error that ends a transcription at the first stretch that fails.
pub fn segment_failed(offset_ms: u64, error: &LyttError) -> (e: LyttError)
    ensures
        e matches LyttError::Transcription(m) && m@ == segment_failure(offset_ms, *error),
{
    let mut m: Vec<char> = Vec::new();
    append_str(&mut m, "Segment at ");
    push_decimal(&mut m, round_seconds(offset_ms));
    append_str(&mut m, "s failed: ");
    append_str(&mut m, error.to_string().as_str());
    LyttError::Transcription(from_chars(&m))
}

/// The keys that put segments in the order of their starts.
pub open spec fn start_keys(segments: Seq<TranscriptSegment>) -> Seq<i128> {
    Seq::new(segments.len(), |i: int| segments[i].start_ms as i128)
}

/// The segments in the order of their starts; segments that start together
/// stay as they came.
pub open spec fn in_start_order(segments: Seq<TranscriptSegment>) -> Seq<TranscriptSegment> {
    reorder(segments, stable_order(start_keys(segments)))
}

/// The transcript of the segments of all stretches, in whatever order they
/// came: the segments are put in the order of their starts.
pub fn assemble_transcript(media_id: String, segments: Vec<TranscriptSegment>) -> (t: Transcript)
    ensures
        t.video_id == media_id,
        t.segments@ == in_start_order(segments@),
        t.covers(),
        forall|i: int, j: int|
            0 <= i <= j < t.segments@.len() ==> t.segments@[i].start_ms <= t.segments@[j].start_ms,
{
    let mut sorted = segments;
    let mut keys: Vec<i128> = Vec::new();
    let mut k: usize = 0;
    while k < sorted.len()
        invariant
            k <= sorted.len(),
            keys@ == start_keys(sorted@).take(k as int),
        decreases sorted.len() - k,
    {
        keys.push(sorted[k].start_ms as i128);
        assert(keys@ =~= start_keys(sorted@).take(k + 1));
        k = k + 1;
    }
    assert(start_keys(sorted@).take(sorted.len() as int) == start_keys(sorted@));
    proof {
        lemma_stable_order(start_keys(segments@));
    }
    sort_by_keys(&mut sorted, &mut keys);
    Transcript::new(media_id, sorted)
}

/// Whether every segment ends after it starts and no two segments share time.
pub open spec fn disjoint(segments: Seq<TranscriptSegment>) -> bool {
    &&& forall|i: int|
        0 <= i < segments.len() ==> (#[trigger] segments[i]).start_ms < segments[i].end_ms
    &&& forall|i: int, j: int|
        0 <= i < segments.len() && 0 <= j < segments.len() && i != j ==> (
        #[trigger] segments[i]).end_ms <= (#[trigger] segments[j]).start_ms || segments[j].end_ms
            <= segments[i].start_ms
}

/// Segments of which no two share time make a well-formed transcript when
/// they are put in the order of their starts: the starts never fall, and each
/// segment ends before the next starts.
pub proof fn lemma_assembled_well_formed(t: Transcript, segments: Seq<TranscriptSegment>)
    requires
        t.segments@ == in_start_order(segments),
        disjoint(segments),
    ensures
        t.well_formed(),
{
    let keys = start_keys(segments);
    let order = stable_order(keys);
    lemma_stable_order(keys);
    assert forall|i: int, j: int| 0 <= i <= j < t.segments@.len() implies t.segments@[i].start_ms
        <= t.segments@[j].start_ms by {
        if i < j {
            assert(keys[order[i]] <= keys[order[j]]);
        }
    }
    assert forall|i: int| 0 <= i && i + 1 < t.segments@.len() implies (
    #[trigger] t.segments@[i]).end_ms <= t.segments@[i + 1].start_ms by {
        let a = order[i];
        let b = order[i + 1];
        assert(a != b);
        assert(keys[a] <= keys[b]);
        assert(t.segments@[i] == segments[a]);
        assert(t.segments@[i + 1] == segments[b]);
        assert(segments[a].end_ms <= segments[b].start_ms || segments[b].end_ms
            <= segments[a].start_ms);
        assert(segments[b].start_ms < segments[b].end_ms);
    }
}

} // verus!
