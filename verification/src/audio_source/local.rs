//! Files on disk.

use crate::decimal::{parse_thousandths, thousandths};
use crate::error::LyttError;
use crate::json::{json_of_text, parse_json, Json, JsonValue};
use crate::timefmt::clock_seconds;
use crate::text::{append_str, from_chars, lowercase_of, str_eq, string_of, to_chars, to_lowercase};
use vstd::prelude::*;

verus! {

/// The source of files on disk.
#[derive(Debug, Clone, Copy)]
pub struct LocalSource {}

/// The extension of the file that a path names, if it has one.
pub uninterp spec fn extension_of(path: Seq<char>) -> Option<Seq<char>>;

/// The name of the file that a path names, without its extension.
pub uninterp spec fn stem_of(path: Seq<char>) -> Option<Seq<char>>;

/// `std::path::Path::extension`, as text. On the platform that the crate is
/// built for, the result depends on the path alone; which part of a path is
/// its extension is left to `std`.
#[verifier::external_body]
fn path_extension(path: &str) -> (r: Option<String>)
    ensures
        r is Some <==> extension_of(path@) is Some,
        r matches Some(e) ==> extension_of(path@) == Some(e@),
{
    std::path::Path::new(path).extension().and_then(|e| e.to_str()).map(|e| e.to_string())
}

/// `std::path::Path::file_stem`, as text. On the platform that the crate is
/// built for, the result depends on the path alone; which part of a path is
/// its stem is left to `std`.
#[verifier::external_body]
pub(crate) fn path_stem(path: &str) -> (r: Option<String>)
    ensures
        r is Some <==> stem_of(path@) is Some,
        r matches Some(e) ==> stem_of(path@) == Some(e@),
{
    std::path::Path::new(path).file_stem().and_then(|e| e.to_str()).map(|e| e.to_string())
}

/// Whether an extension, in lower case, is that of an audio file.
pub open spec fn is_audio_name(ext: Seq<char>) -> bool {
    ext == "mp3"@ || ext == "wav"@ || ext == "flac"@ || ext == "aac"@ || ext == "ogg"@ || ext
        == "opus"@ || ext == "m4a"@ || ext == "wma"@ || ext == "aiff"@ || ext == "alac"@
}

/// Whether an extension, in lower case, is that of a video file.
pub open spec fn is_video_name(ext: Seq<char>) -> bool {
    ext == "mp4"@ || ext == "mkv"@ || ext == "avi"@ || ext == "mov"@ || ext == "webm"@ || ext
        == "flv"@ || ext == "wmv"@ || ext == "m4v"@ || ext == "mpeg"@ || ext == "mpg"@ || ext
        == "3gp"@
}

/// Whether a path names an audio file, by its extension in any case.
pub open spec fn is_audio_path(path: Seq<char>) -> bool {
    extension_of(path) matches Some(e) && is_audio_name(lowercase_of(e))
}

/// Whether a path names a video file, by its extension in any case.
pub open spec fn is_video_path(path: Seq<char>) -> bool {
    extension_of(path) matches Some(e) && is_video_name(lowercase_of(e))
}

/// Whether a path names an audio or a video file.
pub open spec fn is_media_path(path: Seq<char>) -> bool {
    is_audio_path(path) || is_video_path(path)
}

/// Whether an extension is that of an audio file, in any case.
pub fn is_audio_extension(ext: &str) -> (b: bool)
    ensures
        b == is_audio_name(lowercase_of(ext@)),
{
    let lower = to_lowercase(ext);
    let e = lower.as_str();
    str_eq(e, "mp3") || str_eq(e, "wav") || str_eq(e, "flac") || str_eq(e, "aac") || str_eq(
        e,
        "ogg",
    ) || str_eq(e, "opus") || str_eq(e, "m4a") || str_eq(e, "wma") || str_eq(e, "aiff") || str_eq(
        e,
        "alac",
    )
}

/// Whether an extension is that of a video file, in any case.
pub fn is_video_extension(ext: &str) -> (b: bool)
    ensures
        b == is_video_name(lowercase_of(ext@)),
{
    let lower = to_lowercase(ext);
    let e = lower.as_str();
    str_eq(e, "mp4") || str_eq(e, "mkv") || str_eq(e, "avi") || str_eq(e, "mov") || str_eq(
        e,
        "webm",
    ) || str_eq(e, "flv") || str_eq(e, "wmv") || str_eq(e, "m4v") || str_eq(e, "mpeg") || str_eq(
        e,
        "mpg",
    ) || str_eq(e, "3gp")
}

/// The characters of a path that an identifier does not keep.
pub open spec fn is_replaced(c: char) -> bool {
    c == '/' || c == '\\' || c == ' '
}

/// The identifier of the file with the given path: `local_`, then the path
/// with `_` for every separator and space.
pub open spec fn local_id(path: Seq<char>) -> Seq<char> {
    "local_"@ + Seq::new(
        path.len(),
        |i: int|
            if is_replaced(path[i]) {
                '_'
            } else {
                path[i]
            },
    )
}

impl LocalSource {
    pub fn new() -> (s: LocalSource) {
        LocalSource {  }
    }

    /// Whether a path names an audio file.
    pub fn is_audio_file(path: &str) -> (b: bool)
        ensures
            b == is_audio_path(path@),
    {
        match path_extension(path) {
            Some(e) => is_audio_extension(e.as_str()),
            None => false,
        }
    }

    /// Whether a path names a video file.
    pub fn is_video_file(path: &str) -> (b: bool)
        ensures
            b == is_video_path(path@),
    {
        match path_extension(path) {
            Some(e) => is_video_extension(e.as_str()),
            None => false,
        }
    }

    /// Whether a path names an audio or a video file.
    pub fn is_media_file(path: &str) -> (b: bool)
        ensures
            b == is_media_path(path@),
    {
        Self::is_audio_file(path) || Self::is_video_file(path)
    }

    /// Whether this source takes the input: a path that exists, or one that
    /// names a media file.
    pub fn can_handle(&self, input: &str, on_disk: bool) -> (b: bool)
        ensures
            b == (on_disk || is_media_path(input@)),
    {
        on_disk || Self::is_media_file(input)
    }

    /// The identifier that this source reads from an input it takes: the input.
    pub fn extract_id(&self, input: &str, on_disk: bool) -> (r: Option<String>)
        ensures
            on_disk || is_media_path(input@) ==> (r matches Some(id) && id@ == input@),
            !(on_disk || is_media_path(input@)) ==> r is None,
    {
        if on_disk || Self::is_media_file(input) {
            Some(string_of(input))
        } else {
            None
        }
    }

    /// The identifier of the file with the given path, which should be the
    /// path in its canonical form.
    pub fn media_id(path: &str) -> (out: String)
        ensures
            out@ == local_id(path@),
    {
        let chars = to_chars(path);
        let mut id: Vec<char> = Vec::new();
        append_str(&mut id, "local_");
        let ghost head = id@;
        let mut i: usize = 0;
        while i < chars.len()
            invariant
                i <= chars.len(),
                head == "local_"@,
                chars@ == path@,
                id@ == head + Seq::new(
                    i as nat,
                    |k: int|
                        if is_replaced(path@[k]) {
                            '_'
                        } else {
                            path@[k]
                        },
                ),
            decreases chars.len() - i,
        {
            let c = chars[i];
            let ghost before = id@;
            if c == '/' || c == '\\' || c == ' ' {
                id.push('_');
            } else {
                id.push(c);
            }
            assert(id@ =~= head + Seq::new(
                (i + 1) as nat,
                |k: int|
                    if is_replaced(path@[k]) {
                        '_'
                    } else {
                        path@[k]
                    },
            ));
            i = i + 1;
        }
        from_chars(&id)
    }

    /// The title of a file: the one that its tags give, else the name of the
    /// file without its extension, else `Unknown`.
    pub fn title_of(path: &str, tagged: Option<String>) -> (out: String)
        ensures
            out@ == (match tagged {
                Some(t) => t@,
                None => match stem_of(path@) {
                    Some(s) => s,
                    None => "Unknown"@,
                },
            }),
    {
        match tagged {
            Some(t) => t,
            None => match path_stem(path) {
                Some(s) => s,
                None => string_of("Unknown"),
            },
        }
    }
}

/// The duration that an answer of the prober gives, in whole seconds held
/// to 32 bits: that of the numeral in `format.duration`.
pub open spec fn probed_duration(answer: JsonValue) -> Option<u32> {
    match answer.field("format"@) {
        Some(format) => match format.text_field("duration"@) {
            Some(d) => match thousandths(d) {
                Some(ms) => Some(clock_seconds(ms) as u32),
                None => None,
            },
            None => None,
        },
        None => None,
    }
}

/// The title that an answer of the prober gives: that of `format.tags.title`.
pub open spec fn probed_title(answer: JsonValue) -> Option<Seq<char>> {
    match answer.field("format"@) {
        Some(format) => match format.field("tags"@) {
            Some(tags) => tags.text_field("title"@),
            None => None,
        },
        None => None,
    }
}

impl LocalSource {
    /// Duration and title of a file, from the prober's answer as JSON.
    pub fn probe_from_json(answer: &Json) -> (r: (Option<u32>, Option<String>))
        ensures
            r.0 == probed_duration(answer@),
            r.1 is Some <==> probed_title(answer@) is Some,
            r.1 matches Some(t) ==> probed_title(answer@) == Some(t@),
    {
        let format = match answer.get("format") {
            Some(f) => f,
            None => {
                return (None, None);
            },
        };
        let duration = match format.str_field("duration") {
            Some(d) => match parse_thousandths(&to_chars(d.as_str())) {
                Some(ms) => {
                    let whole: u64 = ms / 1000;
                    if whole > crate::timefmt::CLOCK_LIMIT {
                        Some(crate::timefmt::CLOCK_LIMIT as u32)
                    } else {
                        Some(whole as u32)
                    }
                },
                None => None,
            },
            None => None,
        };
        let title = match format.get("tags") {
            Some(tags) => tags.str_field("title"),
            None => None,
        };
        (duration, title)
    }

    /// Duration and title of a file, from the text of the prober's answer. An
    /// answer that is no JSON tells neither.
    pub fn probe_from_output(output: &str) -> (r: (Option<u32>, Option<String>))
        ensures
            match json_of_text(output@) {
                Some(answer) => r.0 == probed_duration(answer) && (r.1 is Some <==> probed_title(
                    answer,
                ) is Some) && (r.1 matches Some(t) ==> probed_title(answer) == Some(t@)),
                None => r.0 is None && r.1 is None,
            },
    {
        match parse_json(output) {
            Ok(answer) => Self::probe_from_json(&answer),
            Err(_) => (None, None),
        }
    }

    /// The error of a file that is not there.
    pub fn file_not_found(path: &str) -> (e: LyttError)
        ensures
            e matches LyttError::VideoNotFound(m) && m@ == "File not found: "@ + path@,
    {
        let mut m: Vec<char> = Vec::new();
        append_str(&mut m, "File not found: ");
        append_str(&mut m, path);
        LyttError::VideoNotFound(from_chars(&m))
    }

    /// The error of a file that is no media file.
    pub fn not_media(path: &str) -> (e: LyttError)
        ensures
            e matches LyttError::InvalidInput(m) && m@
                == "Not a recognized audio or video file: "@ + path@,
    {
        let mut m: Vec<char> = Vec::new();
        append_str(&mut m, "Not a recognized audio or video file: ");
        append_str(&mut m, path);
        LyttError::InvalidInput(from_chars(&m))
    }
}

} // verus!
