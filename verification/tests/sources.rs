use lytt::audio::downloader::{
    audio_file_name, copy_segment_args, download_args, download_template, duration_from_output,
    encode_segment_args, normalize_args, plan_split, probe_args, seconds_arg, segment_file_name,
    SegmentPlan, SplitPlan, Tool,
};
use lytt::audio_source::local::{is_audio_extension, is_video_extension};
use lytt::audio_source::{
    detect_source, parse_input, LocalSource, MediaMetadata, SourceType, YoutubeSource,
};
use lytt::error::LyttError;
use lytt::json::parse_json;

#[test]
fn test_is_audio_file() {
    assert!(LocalSource::is_audio_file("audio.mp3"));
    assert!(LocalSource::is_audio_file("audio.WAV"));
    assert!(LocalSource::is_audio_file("/path/to/audio.flac"));
    assert!(!LocalSource::is_audio_file("video.mp4"));
    assert!(!LocalSource::is_audio_file("document.pdf"));
}

#[test]
fn test_is_video_file() {
    assert!(LocalSource::is_video_file("video.mp4"));
    assert!(LocalSource::is_video_file("video.MKV"));
    assert!(!LocalSource::is_video_file("audio.mp3"));
}

#[test]
fn test_is_media_file() {
    assert!(LocalSource::is_media_file("video.mp4"));
    assert!(LocalSource::is_media_file("audio.mp3"));
    assert!(!LocalSource::is_media_file("document.pdf"));
}

#[test]
fn extensions_are_known_in_any_case() {
    for e in ["mp3", "wav", "flac", "aac", "ogg", "opus", "m4a", "wma", "aiff", "alac", "Mp3"] {
        assert!(is_audio_extension(e));
        assert!(!is_video_extension(e));
    }
    for e in ["mp4", "mkv", "avi", "mov", "webm", "flv", "wmv", "m4v", "mpeg", "mpg", "3gp", "MOV"] {
        assert!(is_video_extension(e));
        assert!(!is_audio_extension(e));
    }
    assert!(!is_audio_extension(""));
    assert!(!LocalSource::is_media_file("mp3"));
    assert!(!LocalSource::is_media_file(".mp3"));
}

#[test]
fn test_extract_video_id() {
    let source = YoutubeSource::new();
    assert_eq!(
        source.extract_video_id("https://www.youtube.com/watch?v=dQw4w9WgXcQ"),
        Some("dQw4w9WgXcQ".to_string())
    );
    assert_eq!(
        source.extract_video_id("https://youtu.be/dQw4w9WgXcQ"),
        Some("dQw4w9WgXcQ".to_string())
    );
    assert_eq!(
        source.extract_video_id("https://youtube.com/embed/dQw4w9WgXcQ"),
        Some("dQw4w9WgXcQ".to_string())
    );
    assert_eq!(source.extract_video_id("dQw4w9WgXcQ"), Some("dQw4w9WgXcQ".to_string()));
    assert_eq!(source.extract_video_id("not-a-video-id"), None);
    assert_eq!(source.extract_video_id(""), None);
}

#[test]
fn video_ids_are_found_behind_the_first_marker() {
    let source = YoutubeSource::new();
    assert_eq!(
        source.extract_video_id("  youtube.com/v/abcdefghijkLMNOP  "),
        Some("abcdefghijk".to_string())
    );
    assert_eq!(
        source.extract_video_id("see youtu.be/short and youtu.be/AAAAAAAAAAA&t=1"),
        Some("AAAAAAAAAAA".to_string())
    );
    assert_eq!(source.extract_video_id(" dQw4w9WgXcQ\n"), Some("dQw4w9WgXcQ".to_string()));
    assert_eq!(source.extract_video_id("dQw4w9WgXcQx"), None);
    assert_eq!(source.extract_video_id("dQw4w9WgXc"), None);
    assert_eq!(source.extract_video_id("dQw4w9WgXc!"), None);
    assert_eq!(source.extract_video_id("https://youtube.com/watch?v=tooshort"), None);
}

#[test]
fn test_can_handle() {
    let source = YoutubeSource::new();
    assert!(source.can_handle("dQw4w9WgXcQ"));
    assert!(source.can_handle("https://www.youtube.com/watch?v=dQw4w9WgXcQ"));
    assert!(source.can_handle("https://youtube.com/playlist?list=PLtest"));
    assert!(!source.can_handle("/path/to/video.mp4"));
}

#[test]
fn sources_are_asked_in_order() {
    assert_eq!(detect_source("dQw4w9WgXcQ", true), Some(SourceType::YouTube));
    assert_eq!(detect_source("/path/to/video.mp4", false), Some(SourceType::Local));
    assert_eq!(detect_source("/some/dir", true), Some(SourceType::Local));
    assert_eq!(detect_source("/some/dir", false), None);
    assert_eq!(detect_source("https://youtube.com/@someone", false), Some(SourceType::YouTube));
    assert_eq!(
        parse_input("https://youtu.be/dQw4w9WgXcQ", false),
        Some((SourceType::YouTube, "dQw4w9WgXcQ".to_string()))
    );
    assert_eq!(
        parse_input("talk.mp3", false),
        Some((SourceType::Local, "talk.mp3".to_string()))
    );
    assert_eq!(parse_input("https://youtube.com/playlist?list=PLtest", false), None);
    assert_eq!(parse_input("nothing", false), None);
    assert_eq!(SourceType::YouTube.to_string(), "youtube");
    assert_eq!(SourceType::Local.to_string(), "local");
}

#[test]
fn local_files_get_stable_identifiers() {
    assert_eq!(LocalSource::media_id("/home/me/My Talk.mp3"), "local__home_me_My_Talk.mp3");
    assert_eq!(LocalSource::media_id("C:\\a b"), "local_C:_a_b");
    assert_eq!(LocalSource::title_of("/a/talk.mp3", None), "talk");
    assert_eq!(LocalSource::title_of("/a/talk.mp3", Some("Tagged".to_string())), "Tagged");
    assert_eq!(LocalSource::title_of("/", None), "Unknown");
    let files = LocalSource::new();
    assert_eq!(files.extract_id("x.mp3", false), Some("x.mp3".to_string()));
    assert_eq!(files.extract_id("x.txt", false), None);
    assert_eq!(files.extract_id("x.txt", true), Some("x.txt".to_string()));
}

#[test]
fn prober_answers_are_read_for_local_files() {
    let (duration, title) = LocalSource::probe_from_output(
        r#"{"format": {"duration": "125.900000", "tags": {"title": "A Talk"}}}"#,
    );
    assert_eq!(duration, Some(125));
    assert_eq!(title, Some("A Talk".to_string()));
    assert_eq!(LocalSource::probe_from_output("nonsense"), (None, None));
    assert_eq!(LocalSource::probe_from_output(r#"{"format": {"duration": 5}}"#), (None, None));
    assert_eq!(
        LocalSource::file_not_found("x").to_string(),
        "Media not found: File not found: x"
    );
    assert_eq!(
        LocalSource::not_media("x").to_string(),
        "Invalid input: Not a recognized audio or video file: x"
    );
}

#[test]
fn downloader_answers_are_read() {
    let answer = r#"{"title": "A Video", "description": "About", "duration": 213.7,
        "uploader": "Someone", "thumbnail": "http://t", "upload_date": "20240115"}"#;
    let m = YoutubeSource::metadata_from_output("dQw4w9WgXcQ", answer).unwrap();
    assert_eq!(m.id, "dQw4w9WgXcQ");
    assert_eq!(m.title, "A Video");
    assert_eq!(m.description.as_deref(), Some("About"));
    assert_eq!(m.duration_seconds, Some(213));
    assert_eq!(m.source_type, SourceType::YouTube);
    assert_eq!(m.source_url, "https://www.youtube.com/watch?v=dQw4w9WgXcQ");
    assert_eq!(m.channel.as_deref(), Some("Someone"));
    assert_eq!(m.thumbnail_url.as_deref(), Some("http://t"));
    assert_eq!(m.published_at, Some(1705276800000000));
    let bare = YoutubeSource::metadata_from_output("x", "{}").unwrap();
    assert_eq!(bare.title, "Unknown Title");
    assert_eq!(bare.duration_seconds, None);
    assert_eq!(bare.published_at, None);
    let odd = YoutubeSource::metadata_from_output("x", r#"{"upload_date": "2024115", "channel": "C", "uploader": "U"}"#).unwrap();
    assert_eq!(odd.published_at, None);
    assert_eq!(odd.channel.as_deref(), Some("C"));
    match YoutubeSource::metadata_from_output("x", "not json") {
        Err(LyttError::VideoSource(m)) => assert!(m.starts_with("Failed to parse yt-dlp output: ")),
        _ => panic!("the answer is no JSON"),
    }
}

#[test]
fn lists_are_read_line_by_line() {
    let source = YoutubeSource::new();
    let output = "{\"id\": \"dQw4w9WgXcQ\", \"title\": \"One\", \"duration\": 10, \"channel\": \"C\"}\n\n  \nbroken\n{\"url\": \"https://youtu.be/AAAAAAAAAAA\"}\n{\"id\": \"odd\"}\n{\"title\": \"nameless\"}\n";
    let entries = source.entries_from_output(output);
    assert_eq!(entries.len(), 3);
    assert_eq!(entries[0].id, "dQw4w9WgXcQ");
    assert_eq!(entries[0].title, "One");
    assert_eq!(entries[0].duration_seconds, Some(10));
    assert_eq!(entries[0].channel.as_deref(), Some("C"));
    assert_eq!(entries[1].id, "AAAAAAAAAAA");
    assert_eq!(entries[1].title, "Unknown Title");
    assert_eq!(entries[1].source_url, "https://www.youtube.com/watch?v=AAAAAAAAAAA");
    assert_eq!(entries[2].id, "odd");
    assert_eq!(YoutubeSource::limit_argument(None), "50");
    assert_eq!(YoutubeSource::limit_argument(Some(7)), "7");
    let entry = parse_json("{\"id\": 5, \"url\": \"plain\"}").unwrap();
    assert_eq!(source.entry_from_json(&entry).map(|m| m.id), Some("plain".to_string()));
}

#[test]
fn source_errors_are_named() {
    assert_eq!(
        YoutubeSource::not_found("v", "gone").to_string(),
        "Media not found: Video v not found or unavailable: gone"
    );
    assert_eq!(
        YoutubeSource::invalid_input("??").to_string(),
        "Invalid input: Invalid YouTube video ID or URL: ??"
    );
    assert_eq!(
        YoutubeSource::listing_failed("no").to_string(),
        "Media source error: Failed to list videos: no"
    );
}

#[test]
fn media_addresses_carry_the_time() {
    let mut m = MediaMetadata {
        id: "dQw4w9WgXcQ".to_string(),
        title: "T".to_string(),
        description: None,
        duration_seconds: None,
        source_type: SourceType::YouTube,
        source_url: "/a/b.mp3".to_string(),
        published_at: None,
        channel: None,
        thumbnail_url: None,
    };
    assert_eq!(m.url_with_timestamp(125900), "https://youtube.com/watch?v=dQw4w9WgXcQ&t=125s");
    m.source_type = SourceType::Local;
    assert_eq!(m.url_with_timestamp(125900), "/a/b.mp3#t=125");
    assert_eq!(MediaMetadata::format_timestamp(125000), "02:05");
}

#[test]
fn short_audio_is_not_cut() {
    assert!(matches!(plan_split(120000, 120), SplitPlan::Whole));
    assert!(matches!(plan_split(0, 120), SplitPlan::Whole));
    assert!(matches!(plan_split(119999, 120), SplitPlan::Whole));
}

#[test]
fn long_audio_is_cut_into_parts() {
    match plan_split(300500, 120) {
        SplitPlan::Parts(parts) => assert_eq!(
            parts,
            vec![
                SegmentPlan { index: 0, offset_ms: 0, length_ms: 120000 },
                SegmentPlan { index: 1, offset_ms: 120000, length_ms: 120000 },
                SegmentPlan { index: 2, offset_ms: 240000, length_ms: 60500 },
            ]
        ),
        SplitPlan::Whole => panic!("the audio is long"),
    }
    match plan_split(240000, 120) {
        SplitPlan::Parts(parts) => {
            assert_eq!(parts.len(), 2);
            assert_eq!(parts[1].length_ms, 120000);
        }
        SplitPlan::Whole => panic!("the audio is long"),
    }
    match plan_split(120001, 120) {
        SplitPlan::Parts(parts) => {
            assert_eq!(parts.len(), 2);
            assert_eq!(parts[1].length_ms, 1);
        }
        SplitPlan::Whole => panic!("the audio is long"),
    }
}

#[test]
fn tools_are_asked_with_these_arguments() {
    assert_eq!(segment_file_name("talk", 7), "talk_0007.mp3");
    assert_eq!(segment_file_name("talk", 12345), "talk_12345.mp3");
    assert_eq!(seconds_arg(120000), "120.000");
    assert_eq!(seconds_arg(60500), "60.500");
    assert_eq!(seconds_arg(7), "0.007");
    assert_eq!(audio_file_name("id"), "id.mp3");
    assert_eq!(download_template("id"), "id.%(ext)s");
    assert_eq!(
        download_args("http://u", "/t/id.%(ext)s"),
        vec![
            "--extract-audio", "--audio-format", "mp3", "--audio-quality", "0", "--output",
            "/t/id.%(ext)s", "--no-playlist", "--quiet", "--no-warnings", "http://u",
        ]
    );
    assert_eq!(
        normalize_args("a.opus", "a.mp3"),
        vec![
            "-i", "a.opus", "-vn", "-codec:a", "libmp3lame", "-qscale:a", "2", "-y", "-loglevel",
            "error", "a.mp3",
        ]
    );
    let part = SegmentPlan { index: 1, offset_ms: 120000, length_ms: 60500 };
    assert_eq!(
        copy_segment_args("a.mp3", "a_0001.mp3", &part),
        vec![
            "-ss", "120.000", "-i", "a.mp3", "-t", "60.500", "-c", "copy", "-y", "-loglevel",
            "warning", "a_0001.mp3",
        ]
    );
    assert_eq!(
        encode_segment_args("a.mp3", "a_0001.mp3", &part),
        vec![
            "-ss", "120.000", "-i", "a.mp3", "-t", "60.500", "-codec:a", "libmp3lame",
            "-qscale:a", "2", "-y", "-loglevel", "error", "a_0001.mp3",
        ]
    );
    assert_eq!(
        probe_args("a.mp3"),
        vec!["-v", "quiet", "-print_format", "json", "-show_format", "a.mp3"]
    );
}

#[test]
fn prober_tells_the_duration() {
    assert_eq!(
        duration_from_output(r#"{"format": {"duration": "300.500000"}}"#).unwrap(),
        300500
    );
    assert_eq!(duration_from_output(r#"{"format": {"duration": "12"}}"#).unwrap(), 12000);
    match duration_from_output("{") {
        Err(LyttError::ToolFailed(m)) => assert_eq!(m, "Invalid ffprobe output"),
        _ => panic!("the answer is no JSON"),
    }
    for answer in [r#"{"format": {}}"#, r#"{"format": {"duration": "long"}}"#, "[]"] {
        match duration_from_output(answer) {
            Err(LyttError::ToolFailed(m)) => assert_eq!(m, "Could not determine audio duration"),
            _ => panic!("the answer tells no duration"),
        }
    }
}

#[test]
fn tool_failures_are_told_apart() {
    match Tool::Ffmpeg.launch_failed(true, "no such file") {
        LyttError::ToolNotFound(name) => assert_eq!(name, "ffmpeg"),
        _ => panic!("the tool is missing"),
    }
    assert_eq!(
        Tool::YtDlp.launch_failed(true, "").to_string(),
        "External tool not found: yt-dlp. Please install it and ensure it's in your PATH."
    );
    assert_eq!(
        Tool::Ffprobe.launch_failed(false, "denied").to_string(),
        "External tool failed: ffprobe could not be run: denied"
    );
    assert_eq!(
        Tool::YtDlp.run_failed("HTTP 403").to_string(),
        "External tool failed: yt-dlp failed: HTTP 403"
    );
    assert_eq!(Tool::Ffprobe.name(), "ffprobe");
}

#[test]
fn the_downloader_is_asked_for_metadata_and_lists() {
    assert_eq!(
        YoutubeSource::metadata_args("dQw4w9WgXcQ"),
        vec![
            "--dump-json",
            "--no-download",
            "--no-warnings",
            "--ignore-errors",
            "https://www.youtube.com/watch?v=dQw4w9WgXcQ",
        ]
    );
    assert_eq!(
        YoutubeSource::listing_args("https://www.youtube.com/playlist?list=PL1", Some(7)),
        vec![
            "--dump-json",
            "--no-download",
            "--no-warnings",
            "--flat-playlist",
            "--playlist-end",
            "7",
            "https://www.youtube.com/playlist?list=PL1",
        ]
    );
    assert_eq!(YoutubeSource::listing_args("x", None)[5], "50");
}

#[test]
fn a_recording_of_no_length_is_whole_whatever_the_part_length() {
    assert!(matches!(plan_split(0, 0), SplitPlan::Whole));
    assert!(matches!(plan_split(0, 1), SplitPlan::Whole));
}
