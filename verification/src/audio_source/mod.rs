//! Where media come from: videos on the web and files on disk.

pub mod local;
pub mod youtube;

pub use local::LocalSource;
pub use youtube::YoutubeSource;

use crate::decimal::{decimal, push_decimal};
use crate::text::{append_str, from_chars, string_of};
use crate::timefmt::{clock, clock_seconds, format_clock};
use vstd::prelude::*;

verus! {

/// The kind of a source.
#[derive(Debug, Clone, Copy, PartialEq, Eq)]
pub enum SourceType {
    YouTube,
    Local,
}

/// What is known of a media. The duration is in whole seconds, the time of
/// publication in microseconds since the Unix epoch.
#[derive(Debug, Clone)]
pub struct MediaMetadata {
    pub id: String,
    pub title: String,
    pub description: Option<String>,
    pub duration_seconds: Option<u32>,
    pub source_type: SourceType,
    pub source_url: String,
    pub published_at: Option<i64>,
    pub channel: Option<String>,
    pub thumbnail_url: Option<String>,
}

/// What a `MediaMetadata` holds.
pub struct MetadataView {
    pub id: Seq<char>,
    pub title: Seq<char>,
    pub description: Option<Seq<char>>,
    pub duration_seconds: Option<u32>,
    pub source_type: SourceType,
    pub source_url: Seq<char>,
    pub published_at: Option<i64>,
    pub channel: Option<Seq<char>>,
    pub thumbnail_url: Option<Seq<char>>,
}

/// The view of an optional string.
pub open spec fn optional_text(s: Option<String>) -> Option<Seq<char>> {
    match s {
        Some(t) => Some(t@),
        None => None,
    }
}

impl View for MediaMetadata {
    type V = MetadataView;

    open spec fn view(&self) -> MetadataView {
        MetadataView {
            id: self.id@,
            title: self.title@,
            description: optional_text(self.description),
            duration_seconds: self.duration_seconds,
            source_type: self.source_type,
            source_url: self.source_url@,
            published_at: self.published_at,
            channel: optional_text(self.channel),
            thumbnail_url: optional_text(self.thumbnail_url),
        }
    }
}

/// The views of metadata, in order.
pub open spec fn metadata_views(all: Seq<MediaMetadata>) -> Seq<MetadataView> {
    Seq::new(all.len(), |i: int| all[i]@)
}

/// The whole seconds of a time, held to 32 bits.
pub open spec fn whole_seconds(ms: u64) -> nat {
    clock_seconds(ms as nat)
}

/// The address of a point in a video on the web.
pub open spec fn watch_url(id: Seq<char>, ms: u64) -> Seq<char> {
    "https://youtube.com/watch?v="@ + id + "&t="@ + decimal(whole_seconds(ms)) + "s"@
}

/// The address of a point in a file.
pub open spec fn file_url(path: Seq<char>, ms: u64) -> Seq<char> {
    path + "#t="@ + decimal(whole_seconds(ms))
}

/// The address of a point in a video on the web.
pub fn youtube_link(id: &str, ms: u64) -> (out: String)
    ensures
        out@ == watch_url(id@, ms),
{
    let mut m: Vec<char> = Vec::new();
    append_str(&mut m, "https://youtube.com/watch?v=");
    append_str(&mut m, id);
    append_str(&mut m, "&t=");
    push_decimal(&mut m, seconds_of(ms));
    append_str(&mut m, "s");
    from_chars(&m)
}

fn seconds_of(ms: u64) -> (s: u64)
    ensures
        s == whole_seconds(ms),
{
    let whole: u64 = ms / 1000;
    if whole > crate::timefmt::CLOCK_LIMIT {
        crate::timefmt::CLOCK_LIMIT
    } else {
        whole
    }
}

impl SourceType {
    /// The name of the kind.
    pub fn to_string(&self) -> (out: String)
        ensures
            out@ == (match self {
                SourceType::YouTube => "youtube"@,
                SourceType::Local => "local"@,
            }),
    {
        match self {
            SourceType::YouTube => string_of("youtube"),
            SourceType::Local => string_of("local"),
        }
    }
}

impl MediaMetadata {
    /// The address of a point in the media.
    pub fn url_with_timestamp(&self, ms: u64) -> (out: String)
        ensures
            out@ == (match self.source_type {
                SourceType::YouTube => watch_url(self.id@, ms),
                SourceType::Local => file_url(self.source_url@, ms),
            }),
    {
        match self.source_type {
            SourceType::YouTube => youtube_link(self.id.as_str(), ms),
            SourceType::Local => {
                let mut m: Vec<char> = Vec::new();
                append_str(&mut m, self.source_url.as_str());
                append_str(&mut m, "#t=");
                push_decimal(&mut m, seconds_of(ms));
                from_chars(&m)
            },
        }
    }

    /// The clock reading of a time: `MM:SS`, or `HH:MM:SS` from one hour on.
    pub fn format_timestamp(ms: u64) -> (out: String)
        ensures
            out@ == clock(clock_seconds(ms as nat)),
    {
        format_clock(ms)
    }
}

/// The source that takes an input: a video on the web where the input names
/// one, else a file where the input names one. `on_disk` says whether the input
/// is a path that exists.
pub fn detect_source(input: &str, on_disk: bool) -> (r: Option<SourceType>)
    ensures
        r == if youtube::handles(input@) {
            Some(SourceType::YouTube)
        } else if on_disk || local::is_media_path(input@) {
            Some(SourceType::Local)
        } else {
            None
        },
{
    let web = YoutubeSource::new();
    if web.can_handle(input) {
        return Some(SourceType::YouTube);
    }
    let files = LocalSource::new();
    if files.can_handle(input, on_disk) {
        return Some(SourceType::Local);
    }
    None
}

/// The source that takes an input, and the identifier that the source reads
/// from it.
pub fn parse_input(input: &str, on_disk: bool) -> (r: Option<(SourceType, String)>)
    ensures
        match r {
            Some((kind, id)) => {
                &&& detect_source_of(input@, on_disk) == Some(kind)
                &&& match kind {
                    SourceType::YouTube => youtube::video_id_of(input@) == Some(id@),
                    SourceType::Local => id@ == input@,
                }
            },
            None => detect_source_of(input@, on_disk) is None || (detect_source_of(input@, on_disk)
                == Some(SourceType::YouTube) && youtube::video_id_of(input@) is None),
        },
{
    match detect_source(input, on_disk) {
        Some(SourceType::YouTube) => {
            let web = YoutubeSource::new();
            match web.extract_id(input) {
                Some(id) => Some((SourceType::YouTube, id)),
                None => None,
            }
        },
        Some(SourceType::Local) => {
            let files = LocalSource::new();
            match files.extract_id(input, on_disk) {
                Some(id) => Some((SourceType::Local, id)),
                None => None,
            }
        },
        None => None,
    }
}

/// The kind of source that takes an input.
pub open spec fn detect_source_of(input: Seq<char>, on_disk: bool) -> Option<SourceType> {
    if youtube::handles(input) {
        Some(SourceType::YouTube)
    } else if on_disk || local::is_media_path(input) {
        Some(SourceType::Local)
    } else {
        None
    }
}

} // verus!
