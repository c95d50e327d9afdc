//! Transcripts as files: JSON, SubRip subtitles and WebVTT.

use crate::agent::tools::seconds_text;
use crate::decimal::{decimal, push_decimal};
use crate::json::{text_of_json, write_json, Json, JsonValue};
use crate::text::{
    append_str, from_chars, lowercase_of, str_eq, string_of, to_lowercase,
};
use crate::timefmt::{push_subtitle_time, subtitle_time};
use crate::transcription::models::{Transcript, TranscriptSegment};
use vstd::prelude::*;

verus! {

/// The formats in which a transcript is written.
#[derive(Debug, Clone, Copy, PartialEq, Eq)]
pub enum OutputFormat {
    Json,
    Srt,
    Vtt,
}

/// A segment as it is exported.
#[derive(Debug, Clone)]
pub struct SegmentExport {
    pub text: String,
    pub start_ms: u64,
    pub end_ms: u64,
    pub title: Option<String>,
}

/// A transcript as it is exported.
#[derive(Debug, Clone)]
pub struct TranscriptExport {
    pub media_id: String,
    pub duration_ms: u64,
    pub segments: Vec<SegmentExport>,
}

/// One cue of a subtitle file: its number, its two times with `mark` before
/// the milliseconds, its text and an empty line.
pub open spec fn cue(number: nat, s: TranscriptSegment, mark: char) -> Seq<char> {
    decimal(number) + seq!['\n'] + subtitle_time(s.start_ms as nat, mark) + seq![
        ' ',
        '-',
        '-',
        '>',
        ' ',
    ] + subtitle_time(s.end_ms as nat, mark) + seq!['\n'] + s.text@ + seq!['\n', '\n']
}

/// The cues of the segments, numbered from one.
pub open spec fn cues(segments: Seq<TranscriptSegment>, mark: char) -> Seq<char>
    decreases segments.len(),
{
    if segments.len() == 0 {
        Seq::<char>::empty()
    } else {
        cues(segments.drop_last(), mark) + cue(segments.len(), segments.last(), mark)
    }
}

/// A transcript as SubRip subtitles.
pub open spec fn srt_text(t: Transcript) -> Seq<char> {
    cues(t.segments@, ',')
}

/// A transcript as WebVTT.
pub open spec fn vtt_text(t: Transcript) -> Seq<char> {
    seq!['W', 'E', 'B', 'V', 'T', 'T', '\n', '\n'] + cues(t.segments@, '.')
}

/// A segment as a JSON object.
pub open spec fn segment_json(s: TranscriptSegment) -> JsonValue {
    JsonValue::Object(
        seq![
            ("text"@, JsonValue::Text(s.text@)),
            ("start_seconds"@, JsonValue::Number(seconds_text(s.start_ms as nat))),
            ("end_seconds"@, JsonValue::Number(seconds_text(s.end_ms as nat))),
        ],
    )
}

/// A transcript as a JSON object: media, duration in seconds, segments.
pub open spec fn transcript_json(t: Transcript) -> JsonValue {
    JsonValue::Object(
        seq![
            ("media_id"@, JsonValue::Text(t.video_id@)),
            ("duration_seconds"@, JsonValue::Number(seconds_text(t.duration_ms as nat))),
            (
                "segments"@,
                JsonValue::Array(Seq::new(t.segments@.len(), |i: int| segment_json(t.segments@[i]))),
            ),
        ],
    )
}

fn push_cue(out: &mut Vec<char>, number: u64, s: &TranscriptSegment, mark: char)
    ensures
        final(out)@ == old(out)@ + cue(number as nat, *s, mark),
{
    let mut line: Vec<char> = Vec::new();
    push_decimal(&mut line, number);
    line.push('\n');
    push_subtitle_time(&mut line, s.start_ms, mark);
    line.push(' ');
    line.push('-');
    line.push('-');
    line.push('>');
    line.push(' ');
    let ghost head = line@;
    assert(head == decimal(number as nat) + seq!['\n'] + subtitle_time(s.start_ms as nat, mark)
        + seq![' ', '-', '-', '>', ' ']);
    push_subtitle_time(&mut line, s.end_ms, mark);
    line.push('\n');
    append_str(&mut line, s.text.as_str());
    line.push('\n');
    line.push('\n');
    assert(line@ == head + subtitle_time(s.end_ms as nat, mark) + seq!['\n'] + s.text@ + seq![
        '\n',
        '\n',
    ]);
    crate::text::append_chars(out, &line);
}

fn push_cues(out: &mut Vec<char>, segments: &Vec<TranscriptSegment>, mark: char)
    ensures
        final(out)@ == old(out)@ + cues(segments@, mark),
{
    let mut i: usize = 0;
    assert(segments@.take(0) == Seq::<TranscriptSegment>::empty());
    assert(out@ + Seq::<char>::empty() == out@);
    while i < segments.len()
        invariant
            i <= segments.len(),
            out@ == old(out)@ + cues(segments@.take(i as int), mark),
        decreases segments.len() - i,
    {
        let s = &segments[i];
        push_cue(out, (i + 1) as u64, s, mark);
        assert(segments@.take(i + 1).drop_last() == segments@.take(i as int));
        assert(segments@.take(i + 1).last() == *s);
        assert(old(out)@ + (cues(segments@.take(i as int), mark) + cue((i + 1) as nat, *s, mark))
            == (old(out)@ + cues(segments@.take(i as int), mark)) + cue(
            (i + 1) as nat,
            *s,
            mark,
        ));
        i = i + 1;
    }
    assert(segments@.take(segments.len() as int) == segments@);
}

pub(crate) fn seconds_number(ms: u64) -> (j: Json)
    ensures
        j@ == JsonValue::Number(seconds_text(ms as nat)),
        j is Number,
{
    let mut m: Vec<char> = Vec::new();
    crate::agent::tools::push_seconds(&mut m, ms);
    assert(Seq::<char>::empty() + seconds_text(ms as nat) == seconds_text(ms as nat));
    Json::Number(from_chars(&m))
}

impl OutputFormat {
    /// The format that a word names, whatever its case.
    pub fn parse(s: &str) -> (r: Result<OutputFormat, String>)
        ensures
            lowercase_of(s@) == "json"@ ==> r == Ok::<OutputFormat, String>(OutputFormat::Json),
            lowercase_of(s@) == "srt"@ ==> r == Ok::<OutputFormat, String>(OutputFormat::Srt),
            lowercase_of(s@) == "vtt"@ || lowercase_of(s@) == "webvtt"@ ==> r == Ok::<
                OutputFormat,
                String,
            >(OutputFormat::Vtt),
            lowercase_of(s@) != "json"@ && lowercase_of(s@) != "srt"@ && lowercase_of(s@) != "vtt"@
                && lowercase_of(s@) != "webvtt"@ ==> (r matches Err(m) && m@ == "Unknown format: "@
                + s@ + ". Use json, srt, or vtt."@),
    {
        let lower = to_lowercase(s);
        proof {
            reveal_strlit("json");
            reveal_strlit("srt");
            reveal_strlit("vtt");
            reveal_strlit("webvtt");
            assert("json"@.len() == 4 && "srt"@.len() == 3 && "vtt"@.len() == 3 && "webvtt"@.len()
                == 6);
            assert("srt"@[0] == 's' && "vtt"@[0] == 'v');
        }
        if str_eq(lower.as_str(), "json") {
            Ok(OutputFormat::Json)
        } else if str_eq(lower.as_str(), "srt") {
            Ok(OutputFormat::Srt)
        } else if str_eq(lower.as_str(), "vtt") || str_eq(lower.as_str(), "webvtt") {
            Ok(OutputFormat::Vtt)
        } else {
            let mut m: Vec<char> = Vec::new();
            append_str(&mut m, "Unknown format: ");
            append_str(&mut m, s);
            append_str(&mut m, ". Use json, srt, or vtt.");
            Err(from_chars(&m))
        }
    }
}

/// The format that a word in lower case names, if it names one.
pub open spec fn format_named(word: Seq<char>) -> Option<OutputFormat> {
    if word == "json"@ {
        Some(OutputFormat::Json)
    } else if word == "srt"@ {
        Some(OutputFormat::Srt)
    } else if word == "vtt"@ || word == "webvtt"@ {
        Some(OutputFormat::Vtt)
    } else {
        None
    }
}

impl std::str::FromStr for OutputFormat {
    type Err = String;

    fn from_str(s: &str) -> (r: Result<OutputFormat, String>)
        ensures
            match format_named(lowercase_of(s@)) {
                Some(format) => r == Ok::<OutputFormat, String>(format),
                None => r matches Err(m) && m@ == "Unknown format: "@ + s@
                    + ". Use json, srt, or vtt."@,
            },
    {
        OutputFormat::parse(s)
    }
}

impl TranscriptExport {
    /// What is exported of a transcript: its segments, none with a title.
    pub fn from(transcript: &Transcript) -> (e: TranscriptExport)
        ensures
            e.media_id@ == transcript.video_id@,
            e.duration_ms == transcript.duration_ms,
            e.segments@.len() == transcript.segments@.len(),
            forall|i: int|
                0 <= i < e.segments@.len() ==> (#[trigger] e.segments@[i]).text@
                    == transcript.segments@[i].text@ && e.segments@[i].start_ms
                    == transcript.segments@[i].start_ms && e.segments@[i].end_ms
                    == transcript.segments@[i].end_ms && e.segments@[i].title is None,
    {
        let mut segments: Vec<SegmentExport> = Vec::new();
        let mut i: usize = 0;
        while i < transcript.segments.len()
            invariant
                i <= transcript.segments.len(),
                segments@.len() == i,
                forall|k: int|
                    0 <= k < i ==> (#[trigger] segments@[k]).text@ == transcript.segments@[k].text@
                        && segments@[k].start_ms == transcript.segments@[k].start_ms
                        && segments@[k].end_ms == transcript.segments@[k].end_ms
                        && segments@[k].title is None,
            decreases transcript.segments.len() - i,
        {
            let s = &transcript.segments[i];
            segments.push(
                SegmentExport {
                    text: s.text.clone(),
                    start_ms: s.start_ms,
                    end_ms: s.end_ms,
                    title: None,
                },
            );
            i = i + 1;
        }
        TranscriptExport {
            media_id: transcript.video_id.clone(),
            duration_ms: transcript.duration_ms,
            segments,
        }
    }
}

/// A transcript as a JSON value.
pub fn export_json(transcript: &Transcript) -> (j: Json)
    ensures
        j@ == transcript_json(*transcript),
{
    proof {
        reveal_with_fuel(Json::view, 3);
    }
    let mut items: Vec<Json> = Vec::new();
    let mut i: usize = 0;
    let ghost wanted = Seq::new(
        transcript.segments@.len(),
        |i: int| segment_json(transcript.segments@[i]),
    );
    while i < transcript.segments.len()
        invariant
            i <= transcript.segments.len(),
            items@.len() == i,
            forall|k: int| 0 <= k < i ==> (#[trigger] items@[k])@ == segment_json(
                transcript.segments@[k],
            ),
        decreases transcript.segments.len() - i,
    {
        proof {
            reveal_with_fuel(Json::view, 3);
        }
        let s = &transcript.segments[i];
        let mut members: Vec<(String, Json)> = Vec::new();
        members.push((string_of("text"), Json::Text(s.text.clone())));
        members.push((string_of("start_seconds"), seconds_number(s.start_ms)));
        members.push((string_of("end_seconds"), seconds_number(s.end_ms)));
        let item = Json::Object(members);
        assert(item@->Object_0 =~= segment_json(*s)->Object_0);
        items.push(item);
        i = i + 1;
    }
    let list = Json::Array(items);
    assert(list@->Array_0 =~= wanted);
    let mut members: Vec<(String, Json)> = Vec::new();
    members.push((string_of("media_id"), Json::Text(transcript.video_id.clone())));
    members.push((string_of("duration_seconds"), seconds_number(transcript.duration_ms)));
    members.push((string_of("segments"), list));
    let whole = Json::Object(members);
    assert(whole@->Object_0 =~= transcript_json(*transcript)->Object_0);
    whole
}

/// A transcript as SubRip subtitles.
pub fn format_srt(transcript: &Transcript) -> (out: String)
    ensures
        out@ == srt_text(*transcript),
{
    let mut m: Vec<char> = Vec::new();
    push_cues(&mut m, &transcript.segments, ',');
    assert(Seq::<char>::empty() + cues(transcript.segments@, ',') == cues(
        transcript.segments@,
        ',',
    ));
    from_chars(&m)
}

/// A transcript as WebVTT.
pub fn format_vtt(transcript: &Transcript) -> (out: String)
    ensures
        out@ == vtt_text(*transcript),
{
    let mut m: Vec<char> = Vec::new();
    append_str(&mut m, "WEBVTT\n\n");
    proof {
        reveal_strlit("WEBVTT\n\n");
        assert("WEBVTT\n\n"@ =~= seq!['W', 'E', 'B', 'V', 'T', 'T', '\n', '\n']);
    }
    push_cues(&mut m, &transcript.segments, '.');
    from_chars(&m)
}

/// A subtitle timestamp of SubRip: `HH:MM:SS,mmm`.
pub fn format_srt_timestamp(ms: u64) -> (out: String)
    ensures
        out@ == subtitle_time(ms as nat, ','),
{
    let mut m: Vec<char> = Vec::new();
    push_subtitle_time(&mut m, ms, ',');
    assert(Seq::<char>::empty() + subtitle_time(ms as nat, ',') == subtitle_time(ms as nat, ','));
    from_chars(&m)
}

/// A subtitle timestamp of WebVTT: `HH:MM:SS.mmm`.
pub fn format_vtt_timestamp(ms: u64) -> (out: String)
    ensures
        out@ == subtitle_time(ms as nat, '.'),
{
    let mut m: Vec<char> = Vec::new();
    push_subtitle_time(&mut m, ms, '.');
    assert(Seq::<char>::empty() + subtitle_time(ms as nat, '.') == subtitle_time(ms as nat, '.'));
    from_chars(&m)
}

/// A transcript in the given format.
pub fn format_transcript(transcript: &Transcript, format: OutputFormat) -> (out: String)
    ensures
        out@ == (match format {
            OutputFormat::Json => text_of_json(transcript_json(*transcript)),
            OutputFormat::Srt => srt_text(*transcript),
            OutputFormat::Vtt => vtt_text(*transcript),
        }),
{
    match format {
        OutputFormat::Json => write_json(&export_json(transcript)),
        OutputFormat::Srt => format_srt(transcript),
        OutputFormat::Vtt => format_vtt(transcript),
    }
}

} // verus!
