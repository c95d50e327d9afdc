//! What is made of the answers of a model that gives text without times.

use crate::decimal::{decimal, push_decimal};
use crate::error::LyttError;
use crate::sorting::{reorder, sort_by_keys, stable_order};
use crate::text::{append_str, from_chars};
use crate::timefmt::{round_seconds, rounded_seconds};
use crate::transcription::models::{space, PlainTranscript};
use vstd::prelude::*;

verus! {

/// The text for one part of a recording.
#[derive(Debug)]
pub struct TextChunk {
    pub index: usize,
    pub text: String,
}

/// The keys that put parts of text in their order.
pub open spec fn text_chunk_keys(chunks: Seq<TextChunk>) -> Seq<i128> {
    Seq::new(chunks.len(), |i: int| chunks[i].index as i128)
}

/// The texts of the parts one after the other, with a space before each text
/// that does not start the whole.
pub open spec fn texts_in_sequence(chunks: Seq<TextChunk>) -> Seq<char>
    decreases chunks.len(),
{
    if chunks.len() == 0 {
        Seq::<char>::empty()
    } else {
        let before = texts_in_sequence(chunks.drop_last());
        if before.len() == 0 {
            chunks.last().text@
        } else {
            before + space() + chunks.last().text@
        }
    }
}

/// One text from the texts for the parts of a recording, in whatever order
/// they came.
pub fn merge_chunk_texts(media_id: String, language: Option<String>, chunks: Vec<TextChunk>) -> (t:
    PlainTranscript)
    ensures
        t.media_id == media_id,
        t.language == language,
        t.text@ == texts_in_sequence(reorder(chunks@, stable_order(text_chunk_keys(chunks@)))),
{
    let mut sorted = chunks;
    let mut keys: Vec<i128> = Vec::new();
    let mut k: usize = 0;
    while k < sorted.len()
        invariant
            k <= sorted.len(),
            keys@ == text_chunk_keys(sorted@).take(k as int),
        decreases sorted.len() - k,
    {
        keys.push(sorted[k].index as i128);
        assert(keys@ =~= text_chunk_keys(sorted@).take(k + 1));
        k = k + 1;
    }
    assert(text_chunk_keys(sorted@).take(sorted.len() as int) == text_chunk_keys(sorted@));
    sort_by_keys(&mut sorted, &mut keys);
    let mut full: Vec<char> = Vec::new();
    let mut c: usize = 0;
    assert(sorted@.take(0) == Seq::<TextChunk>::empty());
    while c < sorted.len()
        invariant
            c <= sorted.len(),
            full@ == texts_in_sequence(sorted@.take(c as int)),
        decreases sorted.len() - c,
    {
        assert(sorted@.take(c + 1).drop_last() == sorted@.take(c as int));
        assert(sorted@.take(c + 1).last() == sorted@[c as int]);
        let ghost before = full@;
        if full.len() > 0 {
            full.push(' ');
            assert(full@ == before + space());
        } else {
            assert(Seq::<char>::empty() + sorted@[c as int].text@ == sorted@[c as int].text@);
        }
        append_str(&mut full, sorted[c].text.as_str());
        c = c + 1;
    }
    assert(sorted@.take(sorted.len() as int) == sorted@);
    PlainTranscript { media_id, text: from_chars(&full), language }
}

/// What is said of a part that failed while others were still under way.
pub open spec fn text_chunk_failure(
    model: Seq<char>,
    index: usize,
    offset_ms: u64,
    error: LyttError,
) -> Seq<char> {
    model + " chunk "@ + decimal(index as nat) + " at "@ + decimal(
        rounded_seconds(offset_ms as nat),
    ) + "s failed: "@ + error.message()
}

/// The error that ends a transcription at the first part that fails.
pub fn text_chunk_failed(model: &str, index: usize, offset_ms: u64, error: &LyttError) -> (e:
    LyttError)
    ensures
        e matches LyttError::Transcription(m) && m@ == text_chunk_failure(
            model@,
            index,
            offset_ms,
            *error,
        ),
{
    let mut m: Vec<char> = Vec::new();
    append_str(&mut m, model);
    append_str(&mut m, " chunk ");
    push_decimal(&mut m, index as u64);
    append_str(&mut m, " at ");
    push_decimal(&mut m, round_seconds(offset_ms));
    append_str(&mut m, "s failed: ");
    append_str(&mut m, error.to_string().as_str());
    LyttError::Transcription(from_chars(&m))
}

} // verus!
