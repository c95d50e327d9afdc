//! The passages of a media as a file: as JSON with what is known of the
//! media, or as subtitles.

use crate::agent::tools::seconds_text;
use crate::decimal::{decimal, push_decimal};
use crate::json::{text_of_json, write_json, Json, JsonValue};
use crate::sorting::{reorder, sort_by_keys, stable_order};
use crate::text::{from_chars, string_of};
use crate::transcription::format::{cues, format_srt, format_vtt, seconds_number, OutputFormat};
use crate::transcription::models::{Transcript, TranscriptSegment};
use crate::vector_store::Document;
use vstd::prelude::*;

verus! {

/// The keys that put passages in the order of their starts.
pub open spec fn start_keys(docs: Seq<Document>) -> Seq<i128> {
    Seq::new(docs.len(), |i: int| docs[i].start_ms as i128)
}

/// The passages in the order of their starts; passages that start together
/// stay as they came.
pub open spec fn by_start(docs: Seq<Document>) -> Seq<Document> {
    reorder(docs, stable_order(start_keys(docs)))
}

/// The latest end of any of the passages; zero where there are none.
pub open spec fn latest_end(docs: Seq<Document>) -> u64
    decreases docs.len(),
{
    if docs.len() == 0 {
        0
    } else if docs.last().end_ms > latest_end(docs.drop_last()) {
        docs.last().end_ms
    } else {
        latest_end(docs.drop_last())
    }
}

/// The title of the media of the passages: that of the first, as they came.
pub open spec fn media_title(docs: Seq<Document>) -> Seq<char> {
    if docs.len() > 0 {
        docs[0].video_title@
    } else {
        Seq::<char>::empty()
    }
}

/// A passage as a JSON object: the title of its section, or nothing where it
/// has none, its text and its times in seconds.
pub open spec fn passage_json(d: Document) -> JsonValue {
    JsonValue::Object(
        seq![
            (
                "title"@,
                JsonValue::Text(
                    match d.section_title {
                        Some(t) => t@,
                        None => Seq::<char>::empty(),
                    },
                ),
            ),
            ("text"@, JsonValue::Text(d.content@)),
            ("start_seconds"@, JsonValue::Number(seconds_text(d.start_ms as nat))),
            ("end_seconds"@, JsonValue::Number(seconds_text(d.end_ms as nat))),
        ],
    )
}

/// The passages of a media as a JSON object: the media, its title, the
/// latest end of its passages in seconds, how many passages there are, and
/// the passages in the order of their starts.
pub open spec fn exported_json(video_id: Seq<char>, docs: Seq<Document>) -> JsonValue {
    JsonValue::Object(
        seq![
            ("video_id"@, JsonValue::Text(video_id)),
            ("video_title"@, JsonValue::Text(media_title(docs))),
            ("total_duration_seconds"@, JsonValue::Number(seconds_text(latest_end(docs) as nat))),
            ("chunk_count"@, JsonValue::Number(decimal(docs.len()))),
            (
                "segments"@,
                JsonValue::Array(Seq::new(docs.len(), |i: int| passage_json(by_start(docs)[i]))),
            ),
        ],
    )
}

/// The passages as the segments of a transcript.
pub open spec fn passage_segments(docs: Seq<Document>) -> Seq<TranscriptSegment> {
    Seq::new(
        docs.len(),
        |i: int|
            TranscriptSegment {
                start_ms: docs[i].start_ms,
                end_ms: docs[i].end_ms,
                text: docs[i].content,
            },
    )
}

/// The passages of a media as the text of a file in the given format.
pub open spec fn exported_text(video_id: Seq<char>, docs: Seq<Document>, format: OutputFormat) -> Seq<
    char,
> {
    match format {
        OutputFormat::Json => text_of_json(exported_json(video_id, docs)),
        OutputFormat::Srt => cues(passage_segments(by_start(docs)), ','),
        OutputFormat::Vtt => seq!['W', 'E', 'B', 'V', 'T', 'T', '\n', '\n'] + cues(
            passage_segments(by_start(docs)),
            '.',
        ),
    }
}

/// The passages in the order of their starts.
pub fn in_start_order(documents: Vec<Document>) -> (sorted: Vec<Document>)
    ensures
        sorted@ == by_start(documents@),
{
    let mut sorted = documents;
    let mut keys: Vec<i128> = Vec::new();
    let mut k: usize = 0;
    while k < sorted.len()
        invariant
            k <= sorted.len(),
            sorted@ == documents@,
            keys@ == start_keys(sorted@).take(k as int),
        decreases sorted.len() - k,
    {
        keys.push(sorted[k].start_ms as i128);
        assert(keys@ =~= start_keys(sorted@).take(k + 1));
        k = k + 1;
    }
    assert(start_keys(sorted@).take(sorted.len() as int) == start_keys(sorted@));
    sort_by_keys(&mut sorted, &mut keys);
    sorted
}

fn latest_end_of(documents: &Vec<Document>) -> (end: u64)
    ensures
        end == latest_end(documents@),
{
    let mut end: u64 = 0;
    let mut i: usize = 0;
    assert(documents@.take(0) == Seq::<Document>::empty());
    while i < documents.len()
        invariant
            i <= documents.len(),
            end == latest_end(documents@.take(i as int)),
        decreases documents.len() - i,
    {
        assert(documents@.take(i + 1).drop_last() == documents@.take(i as int));
        assert(documents@.take(i + 1).last() == documents@[i as int]);
        if documents[i].end_ms > end {
            end = documents[i].end_ms;
        }
        i = i + 1;
    }
    assert(documents@.take(documents.len() as int) == documents@);
    end
}

fn passage_to_json(d: &Document) -> (j: Json)
    ensures
        j@ == passage_json(*d),
{
    proof {
        reveal_with_fuel(Json::view, 2);
    }
    let title = match &d.section_title {
        Some(t) => t.clone(),
        None => String::new(),
    };
    let mut members: Vec<(String, Json)> = Vec::new();
    members.push((string_of("title"), Json::Text(title)));
    members.push((string_of("text"), Json::Text(d.content.clone())));
    members.push((string_of("start_seconds"), seconds_number(d.start_ms)));
    members.push((string_of("end_seconds"), seconds_number(d.end_ms)));
    let j = Json::Object(members);
    assert(j@->Object_0 =~= passage_json(*d)->Object_0);
    j
}

/// The passages of a media as a JSON value.
pub fn export_to_json(video_id: &str, documents: Vec<Document>) -> (j: Json)
    ensures
        j@ == exported_json(video_id@, documents@),
{
    let title = if documents.len() > 0 {
        documents[0].video_title.clone()
    } else {
        String::new()
    };
    let end = latest_end_of(&documents);
    let count = documents.len();
    let ghost docs = documents@;
    let sorted = in_start_order(documents);
    assert(sorted@.len() == docs.len()) by {
        crate::sorting::lemma_stable_order(start_keys(docs));
    }
    let mut items: Vec<Json> = Vec::new();
    let mut i: usize = 0;
    while i < sorted.len()
        invariant
            i <= sorted.len(),
            items@.len() == i,
            forall|k: int| 0 <= k < i ==> (#[trigger] items@[k])@ == passage_json(sorted@[k]),
        decreases sorted.len() - i,
    {
        items.push(passage_to_json(&sorted[i]));
        i = i + 1;
    }
    let list = Json::Array(items);
    proof {
        reveal_with_fuel(Json::view, 2);
        assert(list@->Array_0 =~= Seq::new(docs.len(), |i: int| passage_json(by_start(docs)[i])));
    }
    let mut number: Vec<char> = Vec::new();
    push_decimal(&mut number, count as u64);
    assert(number@ =~= decimal(docs.len()));
    let mut members: Vec<(String, Json)> = Vec::new();
    members.push((string_of("video_id"), Json::Text(string_of(video_id))));
    members.push((string_of("video_title"), Json::Text(title)));
    members.push((string_of("total_duration_seconds"), seconds_number(end)));
    members.push((string_of("chunk_count"), Json::Number(from_chars(&number))));
    members.push((string_of("segments"), list));
    let j = Json::Object(members);
    proof {
        assert(j@->Object_0 =~= exported_json(video_id@, docs)->Object_0);
    }
    j
}

/// The passages of a media as the text of a file in the given format: as
/// JSON, or as subtitles with one cue for each passage, in the order of
/// their starts.
pub fn export_documents(video_id: &str, documents: Vec<Document>, format: OutputFormat) -> (out:
    String)
    ensures
        out@ == exported_text(video_id@, documents@, format),
{
    match format {
        OutputFormat::Json => write_json(&export_to_json(video_id, documents)),
        _ => {
            let ghost docs = documents@;
            let sorted = in_start_order(documents);
            let mut segments: Vec<TranscriptSegment> = Vec::new();
            let mut i: usize = 0;
            while i < sorted.len()
                invariant
                    i <= sorted.len(),
                    segments@ == passage_segments(sorted@).take(i as int),
                decreases sorted.len() - i,
            {
                let d = &sorted[i];
                segments.push(
                    TranscriptSegment {
                        start_ms: d.start_ms,
                        end_ms: d.end_ms,
                        text: d.content.clone(),
                    },
                );
                assert(segments@ =~= passage_segments(sorted@).take(i + 1));
                i = i + 1;
            }
            assert(passage_segments(sorted@).take(sorted.len() as int) == passage_segments(
                sorted@,
            ));
            let transcript = Transcript::new(string_of(video_id), segments);
            match format {
                OutputFormat::Srt => format_srt(&transcript),
                _ => format_vtt(&transcript),
            }
        },
    }
}

} // verus!
