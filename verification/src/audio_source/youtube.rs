//! Videos on the web: which inputs name one, and what the downloader tells
//! of them.

use crate::audio_source::{metadata_views, MediaMetadata, MetadataView, SourceType};
use crate::decimal::{decimal, push_decimal};
use crate::timefmt::clock_seconds;
use crate::calendar::{day_start, parse_day};
use crate::error::LyttError;
use crate::json::{json_of_text, parse_json, Json, JsonValue};
use crate::text::{
    append_str, contains, contains_str, from_chars, is_blank, is_blank_chars, matches_at,
    occurs_at, split, split_chars, string_of, string_views, sub_chars, to_chars, trim,
    trim_chars, views,
};
use vstd::prelude::*;

verus! {

/// The source of videos on the web.
#[derive(Debug, Clone, Copy)]
pub struct YoutubeSource {}

/// How long the identifier of a video is.
pub const ID_LENGTH: usize = 11;

/// Whether a character may stand in the identifier of a video: a letter or
/// digit of ASCII, `_` or `-`.
pub open spec fn is_id_char(c: char) -> bool {
    ('a' <= c && c <= 'z') || ('A' <= c && c <= 'Z') || ('0' <= c && c <= '9') || c == '_' || c
        == '-'
}

/// Whether `ID_LENGTH` characters of an identifier stand in `s` from `at` on.
pub open spec fn id_at(s: Seq<char>, at: int) -> bool {
    &&& 0 <= at
    &&& at + ID_LENGTH <= s.len()
    &&& forall|k: int| at <= k < at + ID_LENGTH ==> is_id_char(#[trigger] s[k])
}

/// Whether, at `i`, `s` holds the marker `m` and then an identifier.
pub open spec fn marked(s: Seq<char>, i: int, m: Seq<char>) -> bool {
    occurs_at(s, i, m) && id_at(s, i + m.len())
}

/// The length of the marker that stands at `i` with an identifier behind it,
/// if one does.
pub open spec fn marker_at(s: Seq<char>, i: int) -> Option<int> {
    if marked(s, i, "youtube.com/watch?v="@) {
        Some("youtube.com/watch?v="@.len() as int)
    } else if marked(s, i, "youtu.be/"@) {
        Some("youtu.be/"@.len() as int)
    } else if marked(s, i, "youtube.com/embed/"@) {
        Some("youtube.com/embed/"@.len() as int)
    } else if marked(s, i, "youtube.com/v/"@) {
        Some("youtube.com/v/"@.len() as int)
    } else {
        None
    }
}

/// The identifier behind the first marker at or after `from`, if there is one.
pub open spec fn first_marked(s: Seq<char>, from: int) -> Option<Seq<char>>
    decreases s.len() - from,
{
    if from < 0 || from >= s.len() {
        None
    } else {
        match marker_at(s, from) {
            Some(len) => Some(s.subrange(from + len, from + len + ID_LENGTH)),
            None => first_marked(s, from + 1),
        }
    }
}

/// The identifier of the video that an input names: the input itself where,
/// trimmed, it is an identifier; else the identifier behind the first marker
/// of an address in it.
pub open spec fn video_id_of(input: Seq<char>) -> Option<Seq<char>> {
    let t = trim(input);
    if t.len() == ID_LENGTH && id_at(t, 0) {
        Some(t)
    } else {
        first_marked(t, 0)
    }
}

/// Whether the source of videos takes an input: one that names a video, or
/// the address of a playlist or a channel.
pub open spec fn handles(input: Seq<char>) -> bool {
    video_id_of(input) is Some || contains(input, "youtube.com/playlist"@) || contains(
        input,
        "youtube.com/channel"@,
    ) || contains(input, "youtube.com/@"@)
}

/// The address of a video.
pub open spec fn video_url(id: Seq<char>) -> Seq<char> {
    "https://www.youtube.com/watch?v="@ + id
}

fn id_char(c: char) -> (b: bool)
    ensures
        b == is_id_char(c),
{
    ('a' <= c && c <= 'z') || ('A' <= c && c <= 'Z') || ('0' <= c && c <= '9') || c == '_' || c
        == '-'
}

fn has_id_at(s: &Vec<char>, at: usize) -> (b: bool)
    ensures
        b == id_at(s@, at as int),
{
    if at > s.len() || s.len() - at < ID_LENGTH {
        return false;
    }
    let mut k: usize = at;
    while k < at + ID_LENGTH
        invariant
            at <= k <= at + ID_LENGTH,
            at + ID_LENGTH <= s.len(),
            forall|j: int| at <= j < k ==> is_id_char(#[trigger] s@[j]),
        decreases at + ID_LENGTH - k,
    {
        if !id_char(s[k]) {
            return false;
        }
        k = k + 1;
    }
    true
}

fn has_marked(s: &Vec<char>, i: usize, marker: &str) -> (b: bool)
    ensures
        b == marked(s@, i as int, marker@),
{
    let m = to_chars(marker);
    if matches_at(s, i, &m) {
        let n = s.len();
        assert(i + m@.len() <= n);
        has_id_at(s, i + m.len())
    } else {
        false
    }
}

fn marker_length(s: &Vec<char>, i: usize) -> (r: Option<usize>)
    ensures
        r is Some <==> marker_at(s@, i as int) is Some,
        r matches Some(len) ==> marker_at(s@, i as int) == Some(len as int) && i + len + ID_LENGTH
            <= s.len(),
{
    if has_marked(s, i, "youtube.com/watch?v=") {
        Some(to_chars("youtube.com/watch?v=").len())
    } else if has_marked(s, i, "youtu.be/") {
        Some(to_chars("youtu.be/").len())
    } else if has_marked(s, i, "youtube.com/embed/") {
        Some(to_chars("youtube.com/embed/").len())
    } else if has_marked(s, i, "youtube.com/v/") {
        Some(to_chars("youtube.com/v/").len())
    } else {
        None
    }
}

impl YoutubeSource {
    pub fn new() -> (s: YoutubeSource) {
        YoutubeSource {  }
    }

    /// The identifier of the video that an input names.
    pub fn extract_video_id(&self, input: &str) -> (r: Option<String>)
        ensures
            r is Some <==> video_id_of(input@) is Some,
            r matches Some(id) ==> video_id_of(input@) == Some(id@),
    {
        let t = trim_chars(&to_chars(input));
        if t.len() == ID_LENGTH && has_id_at(&t, 0) {
            return Some(from_chars(&t));
        }
        let mut i: usize = 0;
        while i < t.len()
            invariant
                i <= t.len(),
                t@ == trim(input@),
                !(t@.len() == ID_LENGTH && id_at(t@, 0)),
                first_marked(t@, 0) == first_marked(t@, i as int),
            decreases t.len() - i,
        {
            match marker_length(&t, i) {
                Some(len) => {
                    return Some(from_chars(&sub_chars(&t, i + len, i + len + ID_LENGTH)));
                },
                None => {},
            }
            i = i + 1;
        }
        None
    }

    /// Whether this source takes the input.
    pub fn can_handle(&self, input: &str) -> (b: bool)
        ensures
            b == handles(input@),
    {
        if self.extract_video_id(input).is_some() {
            return true;
        }
        let chars = to_chars(input);
        contains_str(&chars, &to_chars("youtube.com/playlist")) || contains_str(
            &chars,
            &to_chars("youtube.com/channel"),
        ) || contains_str(&chars, &to_chars("youtube.com/@"))
    }

    /// The identifier that this source reads from an input.
    pub fn extract_id(&self, input: &str) -> (r: Option<String>)
        ensures
            r is Some <==> video_id_of(input@) is Some,
            r matches Some(id) ==> video_id_of(input@) == Some(id@),
    {
        self.extract_video_id(input)
    }

    /// The address of a video.
    pub fn watch_address(video_id: &str) -> (out: String)
        ensures
            out@ == video_url(video_id@),
    {
        let mut m: Vec<char> = Vec::new();
        append_str(&mut m, "https://www.youtube.com/watch?v=");
        append_str(&mut m, video_id);
        from_chars(&m)
    }
}

/// The title of a video of which the downloader tells none.
pub open spec fn unknown_title() -> Seq<char> {
    "Unknown Title"@
}

/// The duration that an answer of the downloader gives, in whole seconds
/// held to 32 bits.
pub open spec fn duration_in(answer: JsonValue) -> Option<u32> {
    match answer.millis_field("duration"@) {
        Some(ms) => Some(clock_seconds(ms) as u32),
        None => None,
    }
}

/// The title that an answer of the downloader gives.
pub open spec fn title_in(answer: JsonValue) -> Seq<char> {
    match answer.text_field("title"@) {
        Some(t) => t,
        None => unknown_title(),
    }
}

/// The channel that an answer of the downloader gives: the channel, else
/// the uploader.
pub open spec fn channel_in(answer: JsonValue) -> Option<Seq<char>> {
    match answer.text_field("channel"@) {
        Some(c) => Some(c),
        None => answer.text_field("uploader"@),
    }
}

/// The time of publication that an answer of the downloader gives: the start
/// of the day that its eight characters write.
pub open spec fn published_in(answer: JsonValue) -> Option<i64> {
    match answer.text_field("upload_date"@) {
        Some(d) => if d.len() == 8 {
            day_start(d)
        } else {
            None
        },
        None => None,
    }
}

/// What the downloader tells of a video.
pub open spec fn video_metadata(video_id: Seq<char>, answer: JsonValue) -> MetadataView {
    MetadataView {
        id: video_id,
        title: title_in(answer),
        description: answer.text_field("description"@),
        duration_seconds: duration_in(answer),
        source_type: SourceType::YouTube,
        source_url: video_url(video_id),
        published_at: published_in(answer),
        channel: channel_in(answer),
        thumbnail_url: answer.text_field("thumbnail"@),
    }
}

/// The identifier of an entry of a list: the one that its text names, else
/// the text.
pub open spec fn listed_id(text: Seq<char>) -> Seq<char> {
    match video_id_of(text) {
        Some(id) => id,
        None => text,
    }
}

/// What an entry of a list tells of a video, where it names one: by its
/// member `id`, else by its member `url`.
pub open spec fn entry_metadata(entry: JsonValue) -> Option<MetadataView> {
    let named = match entry.text_field("id"@) {
        Some(t) => Some(t),
        None => entry.text_field("url"@),
    };
    match named {
        Some(t) => Some(
            MetadataView {
                id: listed_id(t),
                title: title_in(entry),
                description: None,
                duration_seconds: duration_in(entry),
                source_type: SourceType::YouTube,
                source_url: video_url(listed_id(t)),
                published_at: None,
                channel: entry.text_field("channel"@),
                thumbnail_url: None,
            },
        ),
        None => None,
    }
}

/// What a line of a list tells of a video: nothing where the line is blank,
/// is no JSON or names no video.
pub open spec fn line_metadata(line: Seq<char>) -> Option<MetadataView> {
    if is_blank(line) {
        None
    } else {
        match json_of_text(line) {
            Some(entry) => entry_metadata(entry),
            None => None,
        }
    }
}

/// What the lines of a list tell, in order.
pub open spec fn lines_metadata(lines: Seq<Seq<char>>) -> Seq<MetadataView>
    decreases lines.len(),
{
    if lines.len() == 0 {
        Seq::<MetadataView>::empty()
    } else {
        match line_metadata(lines.last()) {
            Some(m) => lines_metadata(lines.drop_last()).push(m),
            None => lines_metadata(lines.drop_last()),
        }
    }
}

fn seconds_from(ms: Option<u64>) -> (r: Option<u32>)
    ensures
        r == (match ms {
            Some(v) => Some(clock_seconds(v as nat) as u32),
            None => None,
        }),
{
    match ms {
        Some(v) => {
            let whole: u64 = v / 1000;
            if whole > crate::timefmt::CLOCK_LIMIT {
                Some(crate::timefmt::CLOCK_LIMIT as u32)
            } else {
                Some(whole as u32)
            }
        },
        None => None,
    }
}

fn title_from(answer: &Json) -> (t: String)
    ensures
        t@ == title_in(answer@),
{
    match answer.str_field("title") {
        Some(t) => t,
        None => string_of("Unknown Title"),
    }
}

impl YoutubeSource {
    /// What the downloader tells of a video, from its answer as JSON.
    pub fn metadata_from_json(video_id: &str, answer: &Json) -> (m: MediaMetadata)
        ensures
            m@ == video_metadata(video_id@, answer@),
    {
        let channel = match answer.str_field("channel") {
            Some(c) => Some(c),
            None => answer.str_field("uploader"),
        };
        let published_at = match answer.str_field("upload_date") {
            Some(d) => {
                if to_chars(d.as_str()).len() == 8 {
                    parse_day(d.as_str())
                } else {
                    None
                }
            },
            None => None,
        };
        MediaMetadata {
            id: string_of(video_id),
            title: title_from(answer),
            description: answer.str_field("description"),
            duration_seconds: seconds_from(answer.millis_field("duration")),
            source_type: SourceType::YouTube,
            source_url: Self::watch_address(video_id),
            published_at,
            channel,
            thumbnail_url: answer.str_field("thumbnail"),
        }
    }

    /// What the downloader tells of a video, from the text of its answer. An
    /// answer that is no JSON is a failure of the source.
    pub fn metadata_from_output(video_id: &str, output: &str) -> (r: Result<
        MediaMetadata,
        LyttError,
    >)
        ensures
            match json_of_text(output@) {
                Some(answer) => r matches Ok(m) && m@ == video_metadata(video_id@, answer),
                None => r matches Err(LyttError::VideoSource(m))
                    && "Failed to parse yt-dlp output: "@.is_prefix_of(m@),
            },
    {
        match parse_json(output) {
            Ok(answer) => Ok(Self::metadata_from_json(video_id, &answer)),
            Err(reason) => {
                let mut m: Vec<char> = Vec::new();
                append_str(&mut m, "Failed to parse yt-dlp output: ");
                append_str(&mut m, reason.as_str());
                Err(LyttError::VideoSource(from_chars(&m)))
            },
        }
    }

    /// What an entry of a list tells of a video.
    pub fn entry_from_json(&self, entry: &Json) -> (r: Option<MediaMetadata>)
        ensures
            r is Some <==> entry_metadata(entry@) is Some,
            r matches Some(m) ==> entry_metadata(entry@) == Some(m@),
    {
        let named = match entry.str_field("id") {
            Some(t) => Some(t),
            None => entry.str_field("url"),
        };
        match named {
            Some(t) => {
                let id = match self.extract_video_id(t.as_str()) {
                    Some(id) => id,
                    None => t,
                };
                let source_url = Self::watch_address(id.as_str());
                Some(
                    MediaMetadata {
                        id,
                        title: title_from(entry),
                        description: None,
                        duration_seconds: seconds_from(entry.millis_field("duration")),
                        source_type: SourceType::YouTube,
                        source_url,
                        published_at: None,
                        channel: entry.str_field("channel"),
                        thumbnail_url: None,
                    },
                )
            },
            None => None,
        }
    }

    /// The videos of a list, from the text of the downloader's answer: one
    /// entry to a line. Lines that tell of no video are passed over.
    pub fn entries_from_output(&self, output: &str) -> (out: Vec<MediaMetadata>)
        ensures
            metadata_views(out@) == lines_metadata(split(output@, seq!['\n'].to_set())),
    {
        let mut breaks: Vec<char> = Vec::new();
        breaks.push('\n');
        let lines = split_chars(&to_chars(output), &breaks);
        let ghost all = views(lines@);
        let mut out: Vec<MediaMetadata> = Vec::new();
        let mut i: usize = 0;
        assert(all.take(0) == Seq::<Seq<char>>::empty());
        assert(metadata_views(out@) =~= Seq::<MetadataView>::empty());
        while i < lines.len()
            invariant
                i <= lines.len(),
                all == views(lines@),
                metadata_views(out@) == lines_metadata(all.take(i as int)),
            decreases lines.len() - i,
        {
            assert(all.take(i + 1).drop_last() == all.take(i as int));
            assert(all.take(i + 1).last() == lines@[i as int]@);
            if !is_blank_chars(&lines[i]) {
                match parse_json(from_chars(&lines[i]).as_str()) {
                    Ok(entry) => match self.entry_from_json(&entry) {
                        Some(m) => {
                            let ghost prior = out@;
                            out.push(m);
                            assert(metadata_views(out@) =~= metadata_views(prior).push(m@));
                        },
                        None => {},
                    },
                    Err(_) => {},
                }
            }
            i = i + 1;
        }
        assert(all.take(lines.len() as int) == all);
        out
    }

    /// How many entries of a list are asked for: as many as wanted, or fifty.
    pub fn limit_argument(limit: Option<usize>) -> (out: String)
        ensures
            out@ == (match limit {
                Some(n) => decimal(n as nat),
                None => "50"@,
            }),
    {
        match limit {
            Some(n) => {
                let mut m: Vec<char> = Vec::new();
                push_decimal(&mut m, n as u64);
                assert(Seq::<char>::empty() + decimal(n as nat) == decimal(n as nat));
                from_chars(&m)
            },
            None => string_of("50"),
        }
    }

    /// What the downloader is asked to tell of a video as JSON, without
    /// fetching it.
    pub fn metadata_args(video_id: &str) -> (args: Vec<String>)
        ensures
            string_views(args@) == seq![
                "--dump-json"@,
                "--no-download"@,
                "--no-warnings"@,
                "--ignore-errors"@,
                video_url(video_id@),
            ],
    {
        let mut args: Vec<String> = Vec::new();
        args.push(string_of("--dump-json"));
        args.push(string_of("--no-download"));
        args.push(string_of("--no-warnings"));
        args.push(string_of("--ignore-errors"));
        args.push(Self::watch_address(video_id));
        assert(string_views(args@) =~= seq![
            "--dump-json"@,
            "--no-download"@,
            "--no-warnings"@,
            "--ignore-errors"@,
            video_url(video_id@),
        ]);
        args
    }

    /// What the downloader is asked to tell of the videos of a list, one
    /// line of JSON for each, as many as wanted or fifty.
    pub fn listing_args(source: &str, limit: Option<usize>) -> (args: Vec<String>)
        ensures
            string_views(args@) == seq![
                "--dump-json"@,
                "--no-download"@,
                "--no-warnings"@,
                "--flat-playlist"@,
                "--playlist-end"@,
                match limit {
                    Some(n) => decimal(n as nat),
                    None => "50"@,
                },
                source@,
            ],
    {
        let mut args: Vec<String> = Vec::new();
        args.push(string_of("--dump-json"));
        args.push(string_of("--no-download"));
        args.push(string_of("--no-warnings"));
        args.push(string_of("--flat-playlist"));
        args.push(string_of("--playlist-end"));
        args.push(Self::limit_argument(limit));
        args.push(string_of(source));
        assert(string_views(args@) =~= seq![
            "--dump-json"@,
            "--no-download"@,
            "--no-warnings"@,
            "--flat-playlist"@,
            "--playlist-end"@,
            match limit {
                Some(n) => decimal(n as nat),
                None => "50"@,
            },
            source@,
        ]);
        args
    }

    /// The error of a video that the downloader did not find.
    pub fn not_found(video_id: &str, complaint: &str) -> (e: LyttError)
        ensures
            e matches LyttError::VideoNotFound(m) && m@ == "Video "@ + video_id@
                + " not found or unavailable: "@ + complaint@,
    {
        let mut m: Vec<char> = Vec::new();
        append_str(&mut m, "Video ");
        append_str(&mut m, video_id);
        append_str(&mut m, " not found or unavailable: ");
        append_str(&mut m, complaint);
        LyttError::VideoNotFound(from_chars(&m))
    }

    /// The error of an input that names no video.
    pub fn invalid_input(input: &str) -> (e: LyttError)
        ensures
            e matches LyttError::InvalidInput(m) && m@ == "Invalid YouTube video ID or URL: "@
                + input@,
    {
        let mut m: Vec<char> = Vec::new();
        append_str(&mut m, "Invalid YouTube video ID or URL: ");
        append_str(&mut m, input);
        LyttError::InvalidInput(from_chars(&m))
    }

    /// The error of a list that the downloader did not give.
    pub fn listing_failed(complaint: &str) -> (e: LyttError)
        ensures
            e matches LyttError::VideoSource(m) && m@ == "Failed to list videos: "@ + complaint@,
    {
        let mut m: Vec<char> = Vec::new();
        append_str(&mut m, "Failed to list videos: ");
        append_str(&mut m, complaint);
        LyttError::VideoSource(from_chars(&m))
    }
}

} // verus!
