//! Transcripts as they are kept: as JSON, with times in seconds.

use crate::agent::tools::{lemma_seconds_read_back, seconds_text};
use crate::json::{member, Json, JsonValue};
use crate::text::string_of;
use crate::transcription::format::{seconds_number, segment_json, transcript_json};
use crate::transcription::fusion::{fused_answer, fused_from_json, fused_list, fused_of};
use crate::transcription::models::{
    fused_views, segment_views, SegmentView, Transcript, TranscriptSegment, TranscriptView,
};
use vstd::prelude::*;

verus! {

/// A segment as it is kept: its times in seconds, and its text.
pub open spec fn kept_segment(s: SegmentView) -> JsonValue {
    JsonValue::Object(
        seq![
            ("start_seconds"@, JsonValue::Number(seconds_text(s.start_ms as nat))),
            ("end_seconds"@, JsonValue::Number(seconds_text(s.end_ms as nat))),
            ("text"@, JsonValue::Text(s.text)),
        ],
    )
}

/// Segments as they are kept, in order.
pub open spec fn kept_segments(segments: Seq<SegmentView>) -> Seq<JsonValue> {
    Seq::new(segments.len(), |i: int| kept_segment(segments[i]))
}

/// A transcript as it is kept: the media, the segments, the whole text, and
/// the duration in seconds.
pub open spec fn kept_transcript(t: TranscriptView) -> JsonValue {
    JsonValue::Object(
        seq![
            ("video_id"@, JsonValue::Text(t.video_id)),
            ("segments"@, JsonValue::Array(kept_segments(t.segments))),
            ("full_text"@, JsonValue::Text(t.full_text)),
            ("duration_seconds"@, JsonValue::Number(seconds_text(t.duration_ms as nat))),
        ],
    )
}

/// The transcript that a JSON value describes: an object with the media,
/// an array of segments, the whole text and the duration in seconds.
pub open spec fn transcript_read(j: JsonValue) -> Option<TranscriptView> {
    match (
        j.text_field("video_id"@),
        fused_answer(j),
        j.text_field("full_text"@),
        j.millis_field("duration_seconds"@),
    ) {
        (Some(video_id), Some(segments), Some(full_text), Some(duration)) => Some(
            TranscriptView { video_id, segments, full_text, duration_ms: duration as u64 },
        ),
        _ => None,
    }
}

/// A transcript as the JSON value that is kept.
pub fn transcript_to_json(transcript: &Transcript) -> (j: Json)
    ensures
        j@ == kept_transcript(transcript@),
{
    proof {
        reveal_with_fuel(Json::view, 3);
    }
    let mut items: Vec<Json> = Vec::new();
    let mut i: usize = 0;
    while i < transcript.segments.len()
        invariant
            i <= transcript.segments.len(),
            items@.len() == i,
            forall|k: int| 0 <= k < i ==> (#[trigger] items@[k])@ == kept_segment(
                transcript.segments@[k]@,
            ),
        decreases transcript.segments.len() - i,
    {
        proof {
            reveal_with_fuel(Json::view, 3);
        }
        let s = &transcript.segments[i];
        let mut members: Vec<(String, Json)> = Vec::new();
        members.push((string_of("start_seconds"), seconds_number(s.start_ms)));
        members.push((string_of("end_seconds"), seconds_number(s.end_ms)));
        members.push((string_of("text"), Json::Text(s.text.clone())));
        let item = Json::Object(members);
        assert(item@->Object_0 =~= kept_segment(s@)->Object_0);
        items.push(item);
        i = i + 1;
    }
    let list = Json::Array(items);
    assert(list@->Array_0 =~= kept_segments(transcript@.segments));
    let mut members: Vec<(String, Json)> = Vec::new();
    members.push((string_of("video_id"), Json::Text(transcript.video_id.clone())));
    members.push((string_of("segments"), list));
    members.push((string_of("full_text"), Json::Text(transcript.full_text.clone())));
    members.push((string_of("duration_seconds"), seconds_number(transcript.duration_ms)));
    let whole = Json::Object(members);
    assert(whole@->Object_0 =~= kept_transcript(transcript@)->Object_0);
    whole
}

/// Reads a transcript from the JSON value that was kept. A value that lacks
/// one of the four members, or holds a segment that is none, is no
/// transcript.
pub fn transcript_from_json(j: &Json) -> (r: Option<Transcript>)
    ensures
        r is Some <==> transcript_read(j@) is Some,
        r matches Some(t) ==> transcript_read(j@) == Some(t@),
{
    let video_id = match j.str_field("video_id") {
        Some(v) => v,
        None => {
            return None;
        },
    };
    let fused = match fused_from_json(j) {
        Some(f) => f,
        None => {
            return None;
        },
    };
    let full_text = match j.str_field("full_text") {
        Some(v) => v,
        None => {
            return None;
        },
    };
    let duration_ms = match j.millis_field("duration_seconds") {
        Some(v) => v,
        None => {
            return None;
        },
    };
    let ghost read = fused_views(fused@);
    let mut segments: Vec<TranscriptSegment> = Vec::new();
    let mut rest = fused;
    let mut i: usize = 0;
    while i < rest.len()
        invariant
            i <= rest.len(),
            fused_views(rest@) == read,
            segment_views(segments@) == read.take(i as int),
        decreases rest.len() - i,
    {
        let f = &rest[i];
        let s = TranscriptSegment { start_ms: f.start_ms, end_ms: f.end_ms, text: f.text.clone() };
        let ghost prior = segments@;
        segments.push(s);
        assert(segment_views(segments@) =~= segment_views(prior).push(s@));
        assert(read.take(i + 1) =~= read.take(i as int).push(rest@[i as int]@));
        i = i + 1;
    }
    assert(read.take(rest.len() as int) == read);
    Some(Transcript { video_id, segments, full_text, duration_ms })
}

proof fn lemma_member_names()
    ensures
        "start_seconds"@ != "end_seconds"@,
        "start_seconds"@ != "text"@,
        "end_seconds"@ != "text"@,
        "video_id"@ != "segments"@,
        "video_id"@ != "full_text"@,
        "video_id"@ != "duration_seconds"@,
        "segments"@ != "full_text"@,
        "segments"@ != "duration_seconds"@,
        "full_text"@ != "duration_seconds"@,
        "media_id"@ != "segments"@,
        "duration_seconds"@ != "segments"@,
{
    reveal_strlit("start_seconds");
    reveal_strlit("end_seconds");
    reveal_strlit("text");
    reveal_strlit("video_id");
    reveal_strlit("segments");
    reveal_strlit("full_text");
    reveal_strlit("duration_seconds");
    assert("start_seconds"@.len() == 13 && "end_seconds"@.len() == 11 && "text"@.len() == 4);
    assert("video_id"@.len() == 8 && "segments"@.len() == 8 && "full_text"@.len() == 9);
    assert("duration_seconds"@.len() == 16);
    assert("video_id"@[0] == 'v' && "segments"@[0] == 's');
    reveal_strlit("media_id");
    assert("media_id"@[0] == 'm');
}

/// A segment that is written is read back as it was.
pub proof fn lemma_segment_round_trip(s: SegmentView)
    ensures
        fused_of(kept_segment(s)) == Some(s),
{
    lemma_member_names();
    lemma_seconds_read_back(s.start_ms as nat);
    lemma_seconds_read_back(s.end_ms as nat);
    reveal_with_fuel(member, 4);
    let members = kept_segment(s)->Object_0;
    assert(members.skip(1)[0] == members[1]);
    assert(members.skip(1).skip(1)[0] == members[2]);
    assert(member(members, "start_seconds"@) == Some(members[0].1));
    assert(member(members, "end_seconds"@) == Some(members[1].1));
    assert(member(members, "text"@) == Some(members[2].1));
}

/// Segments that are written are read back as they were.
pub proof fn lemma_segments_round_trip(segments: Seq<SegmentView>)
    ensures
        fused_list(kept_segments(segments)) == Some(segments),
    decreases segments.len(),
{
    let items = kept_segments(segments);
    if segments.len() == 0 {
        assert(segments == Seq::<SegmentView>::empty());
    } else {
        lemma_segments_round_trip(segments.drop_last());
        lemma_segment_round_trip(segments.last());
        assert(items.drop_last() == kept_segments(segments.drop_last()));
        assert(items.last() == kept_segment(segments.last()));
        assert(segments.drop_last().push(segments.last()) == segments);
    }
}

/// A transcript that is written as JSON is read back as it was: the same
/// media, segments with the same times and texts, the same whole text and
/// the same duration.
pub proof fn lemma_transcript_round_trip(t: TranscriptView)
    ensures
        transcript_read(kept_transcript(t)) == Some(t),
{
    lemma_member_names();
    lemma_segments_round_trip(t.segments);
    lemma_seconds_read_back(t.duration_ms as nat);
    reveal_with_fuel(member, 5);
    let members = kept_transcript(t)->Object_0;
    assert(members.skip(1)[0] == members[1]);
    assert(members.skip(1).skip(1)[0] == members[2]);
    assert(members.skip(1).skip(1).skip(1)[0] == members[3]);
    assert(member(members, "video_id"@) == Some(members[0].1));
    assert(member(members, "segments"@) == Some(members[1].1));
    assert(member(members, "full_text"@) == Some(members[2].1));
    assert(member(members, "duration_seconds"@) == Some(members[3].1));
}

/// The segments of a transcript that is written out for other systems are
/// read back from it as they were: with the same times and texts.
pub proof fn lemma_exported_segments_read_back(t: Transcript)
    ensures
        fused_answer(transcript_json(t)) == Some(segment_views(t.segments@)),
{
    lemma_member_names();
    let segments = segment_views(t.segments@);
    let items = Seq::new(t.segments@.len(), |i: int| segment_json(t.segments@[i]));
    assert forall|i: int| 0 <= i < items.len() implies fused_of(#[trigger] items[i]) == Some(
        segments[i],
    ) by {
        let s = t.segments@[i];
        lemma_seconds_read_back(s.start_ms as nat);
        lemma_seconds_read_back(s.end_ms as nat);
        reveal_with_fuel(member, 4);
        let members = segment_json(s)->Object_0;
        assert(members.skip(1)[0] == members[1]);
        assert(members.skip(1).skip(1)[0] == members[2]);
        assert(member(members, "text"@) == Some(members[0].1));
        assert(member(members, "start_seconds"@) == Some(members[1].1));
        assert(member(members, "end_seconds"@) == Some(members[2].1));
    }
    lemma_fused_list_of(items, segments);
    reveal_with_fuel(member, 4);
    let members = transcript_json(t)->Object_0;
    assert(members.skip(1)[0] == members[1]);
    assert(members.skip(1).skip(1)[0] == members[2]);
    assert(member(members, "segments"@) == Some(members[2].1));
}

/// Values that each describe a segment describe the segments.
proof fn lemma_fused_list_of(items: Seq<JsonValue>, segments: Seq<SegmentView>)
    requires
        items.len() == segments.len(),
        forall|i: int| 0 <= i < items.len() ==> fused_of(#[trigger] items[i]) == Some(segments[i]),
    ensures
        fused_list(items) == Some(segments),
    decreases items.len(),
{
    if items.len() == 0 {
        assert(segments == Seq::<SegmentView>::empty());
    } else {
        lemma_fused_list_of(items.drop_last(), segments.drop_last());
        assert(segments.drop_last().push(segments.last()) == segments);
    }
}

} // verus!
