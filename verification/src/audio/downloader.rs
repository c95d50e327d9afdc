//! Downloading, converting, probing and cutting audio with outside tools.
//! The tools are run elsewhere; here stand their arguments, the plan of a cut
//! and the reading of their answers.

use crate::decimal::{decimal, padded, parse_thousandths, push_decimal, push_padded, thousandths};
use crate::error::LyttError;
use crate::json::{json_of_text, parse_json, Json, JsonValue};
use crate::text::{append_str, from_chars, string_of, string_views, to_chars};
use vstd::prelude::*;

verus! {

/// An outside tool.
#[derive(Debug, Clone, Copy, PartialEq, Eq)]
pub enum Tool {
    YtDlp,
    Ffmpeg,
    Ffprobe,
}

/// One part of a recording that is cut: which part, where it starts and how
/// long it is, in milliseconds.
#[derive(Debug, Clone, Copy, PartialEq, Eq)]
pub struct SegmentPlan {
    pub index: u64,
    pub offset_ms: u64,
    pub length_ms: u64,
}

/// How a recording is cut.
#[derive(Debug)]
pub enum SplitPlan {
    /// Not at all: the recording is short enough.
    Whole,
    /// Into these parts.
    Parts(Vec<SegmentPlan>),
}

/// The name of a tool.
pub open spec fn tool_name(tool: Tool) -> Seq<char> {
    match tool {
        Tool::YtDlp => "yt-dlp"@,
        Tool::Ffmpeg => "ffmpeg"@,
        Tool::Ffprobe => "ffprobe"@,
    }
}

/// The `k`-th part of a recording of `total` milliseconds that is cut every
/// `every` milliseconds.
pub open spec fn part(total: u64, every: u64, k: int) -> SegmentPlan {
    SegmentPlan {
        index: k as u64,
        offset_ms: (k * every) as u64,
        length_ms: if total - k * every < every {
            (total - k * every) as u64
        } else {
            every
        },
    }
}

/// How many parts a recording of `total` milliseconds has that is cut every
/// `every` milliseconds.
pub open spec fn part_count(total: u64, every: u64) -> int {
    (total + every - 1) / (every as int)
}

/// A time as seconds with three digits behind the point.
pub open spec fn seconds_argument(ms: u64) -> Seq<char> {
    decimal((ms / 1000) as nat) + seq!['.'] + padded((ms % 1000) as nat, 3)
}

/// The name of the file of a part: the name of the recording, the number of
/// the part in four digits at least, and the extension.
pub open spec fn part_name(stem: Seq<char>, index: u64) -> Seq<char> {
    stem + seq!['_'] + padded(index as nat, 4) + ".mp3"@
}

/// The duration that an answer of the prober gives, in milliseconds: that of
/// the numeral in `format.duration`.
pub open spec fn probed_millis(answer: JsonValue) -> Option<nat> {
    match answer.field("format"@) {
        Some(format) => match format.text_field("duration"@) {
            Some(d) => thousandths(d),
            None => None,
        },
        None => None,
    }
}

impl Tool {
    /// The name by which the tool is run.
    pub fn name(&self) -> (out: String)
        ensures
            out@ == tool_name(*self),
    {
        match self {
            Tool::YtDlp => string_of("yt-dlp"),
            Tool::Ffmpeg => string_of("ffmpeg"),
            Tool::Ffprobe => string_of("ffprobe"),
        }
    }

    /// The error of a tool that could not be run: the tool is not found where
    /// the system says so, else it has failed for the reason given.
    pub fn launch_failed(&self, not_found: bool, reason: &str) -> (e: LyttError)
        ensures
            not_found ==> (e matches LyttError::ToolNotFound(m) && m@ == tool_name(*self)),
            !not_found ==> (e matches LyttError::ToolFailed(m) && m@ == tool_name(*self)
                + " could not be run: "@ + reason@),
    {
        if not_found {
            LyttError::ToolNotFound(self.name())
        } else {
            let mut m: Vec<char> = Vec::new();
            append_str(&mut m, self.name().as_str());
            append_str(&mut m, " could not be run: ");
            append_str(&mut m, reason);
            LyttError::ToolFailed(from_chars(&m))
        }
    }

    /// The error of a tool that ran and did not succeed, with what it wrote of
    /// its failure.
    pub fn run_failed(&self, complaint: &str) -> (e: LyttError)
        ensures
            e matches LyttError::ToolFailed(m) && m@ == tool_name(*self) + " failed: "@
                + complaint@,
    {
        let mut m: Vec<char> = Vec::new();
        append_str(&mut m, self.name().as_str());
        append_str(&mut m, " failed: ");
        append_str(&mut m, complaint);
        LyttError::ToolFailed(from_chars(&m))
    }
}

/// Plans the cut of a recording of `total_ms` milliseconds into parts of
/// `chunk_seconds` seconds: none where the recording is no longer than a
/// part; else parts one after the other, the last as long as what is left.
/// A recording that lasts cannot be cut into parts of no length.
pub fn plan_split(total_ms: u64, chunk_seconds: u32) -> (plan: SplitPlan)
    requires
        chunk_seconds > 0 || total_ms == 0,
    ensures
        total_ms <= chunk_seconds * 1000 ==> plan is Whole,
        total_ms > chunk_seconds * 1000 ==> (plan matches SplitPlan::Parts(parts) && parts@.len()
            == part_count(total_ms, (chunk_seconds * 1000) as u64) && forall|k: int|
            0 <= k < parts@.len() ==> #[trigger] parts@[k] == part(
                total_ms,
                (chunk_seconds * 1000) as u64,
                k,
            )),
{
    let every: u64 = (chunk_seconds as u64) * 1000;
    if total_ms <= every {
        return SplitPlan::Whole;
    }
    let mut parts: Vec<SegmentPlan> = Vec::new();
    let mut offset: u64 = 0;
    let mut index: u64 = 0;
    let mut done = false;
    assert(0 < part_count(total_ms, every)) by (nonlinear_arith)
        requires
            total_ms > every,
            every > 0,
    {
    }
    while !done
        invariant
            every > 0,
            every == chunk_seconds * 1000,
            offset == index * every,
            !done ==> index == parts@.len(),
            !done ==> offset < total_ms,
            !done ==> parts@.len() < part_count(total_ms, every),
            done ==> parts@.len() == part_count(total_ms, every),
            forall|k: int| 0 <= k < parts@.len() ==> #[trigger] parts@[k] == part(total_ms, every, k),
        decreases
                (if done {
                    0int
                } else {
                    total_ms - offset + 1
                }),
    {
        let left: u64 = total_ms - offset;
        let length_ms: u64 = if left < every {
            left
        } else {
            every
        };
        assert(index * every == offset);
        parts.push(SegmentPlan { index, offset_ms: offset, length_ms });
        if left <= every {
            done = true;
            assert(parts@.len() == part_count(total_ms, every)) by (nonlinear_arith)
                requires
                    parts@.len() == index + 1,
                    offset == index * every,
                    0 < total_ms - offset <= every,
                    every > 0,
            {
            }
        } else {
            assert(index + 1 < part_count(total_ms, every)) by (nonlinear_arith)
                requires
                    offset == index * every,
                    total_ms - offset > every,
                    every > 0,
            {
            }
            assert((index + 1) * every == offset + every) by (nonlinear_arith)
                requires
                    offset == index * every,
            {
            }
            assert(index <= offset) by (nonlinear_arith)
                requires
                    offset == index * every,
                    every > 0,
            {
            }
            offset = offset + every;
            index = index + 1;
        }
    }
    SplitPlan::Parts(parts)
}

/// The name of the file of a part.
pub fn segment_file_name(stem: &str, index: u64) -> (out: String)
    ensures
        out@ == part_name(stem@, index),
{
    let mut m: Vec<char> = Vec::new();
    append_str(&mut m, stem);
    m.push('_');
    push_padded(&mut m, index, 4);
    append_str(&mut m, ".mp3");
    from_chars(&m)
}

/// A time as the cutting tool takes it: seconds with three digits behind the
/// point.
pub fn seconds_arg(ms: u64) -> (out: String)
    ensures
        out@ == seconds_argument(ms),
{
    let mut m: Vec<char> = Vec::new();
    push_decimal(&mut m, ms / 1000);
    m.push('.');
    push_padded(&mut m, ms % 1000, 3);
    assert(m@ == seconds_argument(ms));
    from_chars(&m)
}

/// The duration of a recording in milliseconds, from the prober's answer as
/// JSON.
pub fn duration_from_json(answer: &Json) -> (r: Option<u64>)
    ensures
        r is Some <==> probed_millis(answer@) is Some,
        r matches Some(ms) ==> probed_millis(answer@) == Some(ms as nat),
{
    match answer.get("format") {
        Some(format) => match format.str_field("duration") {
            Some(d) => parse_thousandths(&to_chars(d.as_str())),
            None => None,
        },
        None => None,
    }
}

/// The duration of a recording in milliseconds, from the text of the prober's
/// answer. An answer that is no JSON, or that tells no duration, is a failure
/// of the prober.
pub fn duration_from_output(output: &str) -> (r: Result<u64, LyttError>)
    ensures
        match json_of_text(output@) {
            Some(answer) => match probed_millis(answer) {
                Some(ms) => r == Ok::<u64, LyttError>(ms as u64),
                None => r matches Err(LyttError::ToolFailed(m)) && m@
                    == "Could not determine audio duration"@,
            },
            None => r matches Err(LyttError::ToolFailed(m)) && m@ == "Invalid ffprobe output"@,
        },
{
    match parse_json(output) {
        Ok(answer) => match duration_from_json(&answer) {
            Some(ms) => Ok(ms),
            None => Err(LyttError::ToolFailed(string_of("Could not determine audio duration"))),
        },
        Err(_) => Err(LyttError::ToolFailed(string_of("Invalid ffprobe output"))),
    }
}

/// What the downloader is asked: the best audio of one video as mp3, written
/// to the given place, without a word.
pub fn download_args(url: &str, output_template: &str) -> (args: Vec<String>)
    ensures
        string_views(args@) == seq![
            "--extract-audio"@,
            "--audio-format"@,
            "mp3"@,
            "--audio-quality"@,
            "0"@,
            "--output"@,
            output_template@,
            "--no-playlist"@,
            "--quiet"@,
            "--no-warnings"@,
            url@,
        ],
{
    let mut args: Vec<String> = Vec::new();
    args.push(string_of("--extract-audio"));
    args.push(string_of("--audio-format"));
    args.push(string_of("mp3"));
    args.push(string_of("--audio-quality"));
    args.push(string_of("0"));
    args.push(string_of("--output"));
    args.push(string_of(output_template));
    args.push(string_of("--no-playlist"));
    args.push(string_of("--quiet"));
    args.push(string_of("--no-warnings"));
    args.push(string_of(url));
    assert(string_views(args@) =~= seq![
        "--extract-audio"@,
        "--audio-format"@,
        "mp3"@,
        "--audio-quality"@,
        "0"@,
        "--output"@,
        output_template@,
        "--no-playlist"@,
        "--quiet"@,
        "--no-warnings"@,
        url@,
    ]);
    args
}

/// What the converter is asked to make an mp3 of a file.
pub fn normalize_args(source: &str, dest: &str) -> (args: Vec<String>)
    ensures
        string_views(args@) == seq![
            "-i"@,
            source@,
            "-vn"@,
            "-codec:a"@,
            "libmp3lame"@,
            "-qscale:a"@,
            "2"@,
            "-y"@,
            "-loglevel"@,
            "error"@,
            dest@,
        ],
{
    let mut args: Vec<String> = Vec::new();
    args.push(string_of("-i"));
    args.push(string_of(source));
    args.push(string_of("-vn"));
    args.push(string_of("-codec:a"));
    args.push(string_of("libmp3lame"));
    args.push(string_of("-qscale:a"));
    args.push(string_of("2"));
    args.push(string_of("-y"));
    args.push(string_of("-loglevel"));
    args.push(string_of("error"));
    args.push(string_of(dest));
    assert(string_views(args@) =~= seq![
        "-i"@,
        source@,
        "-vn"@,
        "-codec:a"@,
        "libmp3lame"@,
        "-qscale:a"@,
        "2"@,
        "-y"@,
        "-loglevel"@,
        "error"@,
        dest@,
    ]);
    args
}

/// What the converter is asked to cut a part out by copying.
pub fn copy_segment_args(source: &str, dest: &str, part: &SegmentPlan) -> (args: Vec<String>)
    ensures
        string_views(args@) == seq![
            "-ss"@,
            seconds_argument(part.offset_ms),
            "-i"@,
            source@,
            "-t"@,
            seconds_argument(part.length_ms),
            "-c"@,
            "copy"@,
            "-y"@,
            "-loglevel"@,
            "warning"@,
            dest@,
        ],
{
    let mut args: Vec<String> = Vec::new();
    args.push(string_of("-ss"));
    args.push(seconds_arg(part.offset_ms));
    args.push(string_of("-i"));
    args.push(string_of(source));
    args.push(string_of("-t"));
    args.push(seconds_arg(part.length_ms));
    args.push(string_of("-c"));
    args.push(string_of("copy"));
    args.push(string_of("-y"));
    args.push(string_of("-loglevel"));
    args.push(string_of("warning"));
    args.push(string_of(dest));
    assert(string_views(args@) =~= seq![
        "-ss"@,
        seconds_argument(part.offset_ms),
        "-i"@,
        source@,
        "-t"@,
        seconds_argument(part.length_ms),
        "-c"@,
        "copy"@,
        "-y"@,
        "-loglevel"@,
        "warning"@,
        dest@,
    ]);
    args
}

/// What the converter is asked to cut a part out by encoding it anew.
pub fn encode_segment_args(source: &str, dest: &str, part: &SegmentPlan) -> (args: Vec<String>)
    ensures
        string_views(args@) == seq![
            "-ss"@,
            seconds_argument(part.offset_ms),
            "-i"@,
            source@,
            "-t"@,
            seconds_argument(part.length_ms),
            "-codec:a"@,
            "libmp3lame"@,
            "-qscale:a"@,
            "2"@,
            "-y"@,
            "-loglevel"@,
            "error"@,
            dest@,
        ],
{
    let mut args: Vec<String> = Vec::new();
    args.push(string_of("-ss"));
    args.push(seconds_arg(part.offset_ms));
    args.push(string_of("-i"));
    args.push(string_of(source));
    args.push(string_of("-t"));
    args.push(seconds_arg(part.length_ms));
    args.push(string_of("-codec:a"));
    args.push(string_of("libmp3lame"));
    args.push(string_of("-qscale:a"));
    args.push(string_of("2"));
    args.push(string_of("-y"));
    args.push(string_of("-loglevel"));
    args.push(string_of("error"));
    args.push(string_of(dest));
    assert(string_views(args@) =~= seq![
        "-ss"@,
        seconds_argument(part.offset_ms),
        "-i"@,
        source@,
        "-t"@,
        seconds_argument(part.length_ms),
        "-codec:a"@,
        "libmp3lame"@,
        "-qscale:a"@,
        "2"@,
        "-y"@,
        "-loglevel"@,
        "error"@,
        dest@,
    ]);
    args
}

/// What the prober is asked to tell the format of a file as JSON.
pub fn probe_args(path: &str) -> (args: Vec<String>)
    ensures
        string_views(args@) == seq![
            "-v"@,
            "quiet"@,
            "-print_format"@,
            "json"@,
            "-show_format"@,
            path@,
        ],
{
    let mut args: Vec<String> = Vec::new();
    args.push(string_of("-v"));
    args.push(string_of("quiet"));
    args.push(string_of("-print_format"));
    args.push(string_of("json"));
    args.push(string_of("-show_format"));
    args.push(string_of(path));
    assert(string_views(args@) =~= seq![
        "-v"@,
        "quiet"@,
        "-print_format"@,
        "json"@,
        "-show_format"@,
        path@,
    ]);
    args
}

/// The name of the file in which the audio of a media is kept.
pub fn audio_file_name(media_id: &str) -> (out: String)
    ensures
        out@ == media_id@ + ".mp3"@,
{
    let mut m: Vec<char> = Vec::new();
    append_str(&mut m, media_id);
    append_str(&mut m, ".mp3");
    from_chars(&m)
}

/// The pattern of the names under which the downloader may write.
pub fn download_template(media_id: &str) -> (out: String)
    ensures
        out@ == media_id@ + ".%(ext)s"@,
{
    let mut m: Vec<char> = Vec::new();
    append_str(&mut m, media_id);
    append_str(&mut m, ".%(ext)s");
    from_chars(&m)
}

} // verus!
