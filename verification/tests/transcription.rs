use lytt::error::LyttError;
use lytt::json::{parse_json, write_json};
use lytt::transcription::stored::{transcript_from_json, transcript_to_json};
use lytt::transcription::format::{
    export_json, format_srt_timestamp, format_transcript, format_vtt_timestamp, OutputFormat,
    TranscriptExport,
};
use lytt::transcription::fusion::{
    align_by_position, assemble_transcript, fused_from_json, fusion_prompt, segment_failed,
    text_of_words, words_to_json, FusionPlan, TranscriptionProcessor,
};
use lytt::transcription::gpt4o::{merge_chunk_texts, text_chunk_failed, TextChunk};
use lytt::transcription::models::{
    format_timestamp, FusedSegment, Transcript, TranscriptSegment, WhisperWord,
    WordLevelTranscript,
};
use lytt::transcription::whisper::{
    approximate_words, chunk_failed, merge_chunk_segments, merge_chunk_words,
    segments_from_response, words_from_response, SegmentChunk, WordChunk,
};

fn word(text: &str, start_ms: u64, end_ms: u64) -> WhisperWord {
    WhisperWord { word: text.to_string(), start_ms, end_ms }
}

fn six_words() -> Vec<WhisperWord> {
    vec![
        word("Hello", 0, 500),
        word("world", 500, 1000),
        word("this", 1000, 1300),
        word("is", 1300, 1500),
        word("a", 1500, 1600),
        word("test", 1600, 2000),
    ]
}

fn sample_transcript() -> Transcript {
    Transcript::new(
        "test123".to_string(),
        vec![
            TranscriptSegment { text: "Hello world.".to_string(), start_ms: 0, end_ms: 2500 },
            TranscriptSegment { text: "This is a test.".to_string(), start_ms: 2500, end_ms: 5000 },
        ],
    )
}

fn processor() -> TranscriptionProcessor {
    TranscriptionProcessor {
        timestamp_model: "whisper-1".to_string(),
        text_model: Some("gpt-4o-transcribe".to_string()),
        cleanup_model: "gpt-4.1".to_string(),
        system_prompt: "Test".to_string(),
        segment_duration_seconds: 120,
        max_concurrent_segments: 2,
    }
}

#[test]
fn test_transcript_creation() {
    let segments = vec![
        TranscriptSegment::new(0, 5000, "Hello world".to_string()),
        TranscriptSegment::new(5000, 10000, "This is a test".to_string()),
    ];
    let transcript = Transcript::new("test_video".to_string(), segments);
    assert_eq!(transcript.video_id, "test_video");
    assert_eq!(transcript.full_text, "Hello world This is a test");
    assert_eq!(transcript.duration_ms, 10000);
}

#[test]
fn test_format_timestamp() {
    assert_eq!(format_timestamp(0), "00:00");
    assert_eq!(format_timestamp(65000), "01:05");
    assert_eq!(format_timestamp(3665000), "01:01:05");
}

#[test]
fn test_text_between() {
    let segments = vec![
        TranscriptSegment::new(0, 5000, "First".to_string()),
        TranscriptSegment::new(5000, 10000, "Second".to_string()),
        TranscriptSegment::new(10000, 15000, "Third".to_string()),
    ];
    let transcript = Transcript::new("test".to_string(), segments);
    assert_eq!(transcript.text_between(5000, 10000), "Second");
}

#[test]
fn text_between_joins_with_single_spaces() {
    let segments = vec![
        TranscriptSegment::new(0, 5000, "First".to_string()),
        TranscriptSegment::new(5000, 10000, "Second".to_string()),
        TranscriptSegment::new(10000, 15000, "Third".to_string()),
    ];
    let transcript = Transcript::new("test".to_string(), segments);
    assert_eq!(transcript.text_between(0, 15000), "First Second Third");
    assert_eq!(transcript.text_between(1, 4999), "");
}

#[test]
fn empty_transcript_has_no_text_and_no_duration() {
    let transcript = Transcript::new("none".to_string(), Vec::new());
    assert_eq!(transcript.full_text, "");
    assert_eq!(transcript.duration_ms, 0);
    assert_eq!(transcript.format_with_timestamps(), "");
}

#[test]
fn transcript_lines_carry_clock_readings() {
    let transcript = sample_transcript();
    assert_eq!(
        transcript.format_with_timestamps(),
        "[00:00 - 00:02] Hello world.\n[00:02 - 00:05] This is a test."
    );
}

#[test]
fn clock_reading_is_held_to_its_limit() {
    assert_eq!(format_timestamp(59999), "00:59");
    assert_eq!(format_timestamp(360000000), "100:00:00");
    assert_eq!(format_timestamp(u64::MAX), "1193046:28:15");
}

#[test]
fn segment_duration_is_never_negative() {
    assert_eq!(TranscriptSegment::new(1000, 3500, String::new()).duration(), 2500);
    assert_eq!(TranscriptSegment::new(3500, 1000, String::new()).duration(), 0);
}

#[test]
fn word_level_transcript_joins_words() {
    let t = WordLevelTranscript::new("m".to_string(), six_words());
    assert_eq!(t.full_text, "Hello world this is a test");
    assert_eq!(t.duration_ms, 2000);
    let none = WordLevelTranscript::new("m".to_string(), Vec::new());
    assert_eq!(none.full_text, "");
    assert_eq!(none.duration_ms, 0);
}

#[test]
fn test_format_json() {
    let transcript = sample_transcript();
    let json = format_transcript(&transcript, OutputFormat::Json);
    assert!(json.contains("\"media_id\": \"test123\""));
    assert!(json.contains("Hello world."));
}

#[test]
fn json_export_writes_seconds() {
    let transcript = sample_transcript();
    let json = format_transcript(&transcript, OutputFormat::Json);
    assert!(json.starts_with("{\n  \"media_id\": \"test123\",\n  \"duration_seconds\": 5,\n  \"segments\": [\n    {\n      \"text\": \"Hello world.\",\n      \"start_seconds\": 0,\n      \"end_seconds\": 2.5\n    },"));
    assert!(json.contains("\"end_seconds\": 2.5"));
    assert!(json.contains("\"start_seconds\": 0"));
    let value = export_json(&transcript);
    assert_eq!(value.get("media_id").and_then(|v| v.as_str()).map(|s| s.as_str()), Some("test123"));
    assert_eq!(value.get("segments").and_then(|v| v.as_array()).map(|a| a.len()), Some(2));
}

#[test]
fn test_format_srt() {
    let transcript = sample_transcript();
    let srt = format_transcript(&transcript, OutputFormat::Srt);
    assert!(srt.contains("1\n00:00:00,000 --> 00:00:02,500"));
    assert!(srt.contains("Hello world."));
}

#[test]
fn srt_is_written_cue_by_cue() {
    let srt = format_transcript(&sample_transcript(), OutputFormat::Srt);
    assert_eq!(
        srt,
        "1\n00:00:00,000 --> 00:00:02,500\nHello world.\n\n2\n00:00:02,500 --> 00:00:05,000\nThis is a test.\n\n"
    );
    let none = Transcript::new("none".to_string(), Vec::new());
    assert_eq!(format_transcript(&none, OutputFormat::Srt), "");
    assert_eq!(format_transcript(&none, OutputFormat::Vtt), "WEBVTT\n\n");
}

#[test]
fn test_format_vtt() {
    let transcript = sample_transcript();
    let vtt = format_transcript(&transcript, OutputFormat::Vtt);
    assert!(vtt.starts_with("WEBVTT"));
    assert!(vtt.contains("00:00:00.000 --> 00:00:02.500"));
}

#[test]
fn test_parse_format() {
    assert_eq!("json".parse::<OutputFormat>().unwrap(), OutputFormat::Json);
    assert_eq!("srt".parse::<OutputFormat>().unwrap(), OutputFormat::Srt);
    assert_eq!("vtt".parse::<OutputFormat>().unwrap(), OutputFormat::Vtt);
    assert_eq!("webvtt".parse::<OutputFormat>().unwrap(), OutputFormat::Vtt);
}

#[test]
fn format_names_are_read_in_any_case() {
    assert_eq!(OutputFormat::parse("JSON"), Ok(OutputFormat::Json));
    assert_eq!(OutputFormat::parse("WebVTT"), Ok(OutputFormat::Vtt));
    assert_eq!(
        OutputFormat::parse("pdf"),
        Err("Unknown format: pdf. Use json, srt, or vtt.".to_string())
    );
}

#[test]
fn test_srt_timestamp() {
    assert_eq!(format_srt_timestamp(0), "00:00:00,000");
    assert_eq!(format_srt_timestamp(61500), "00:01:01,500");
    assert_eq!(format_srt_timestamp(3661123), "01:01:01,123");
}

#[test]
fn vtt_timestamp_uses_a_point() {
    assert_eq!(format_vtt_timestamp(3661123), "01:01:01.123");
    assert_eq!(format_vtt_timestamp(360000000), "100:00:00.000");
}

#[test]
fn export_takes_over_the_segments() {
    let e = TranscriptExport::from(&sample_transcript());
    assert_eq!(e.media_id, "test123");
    assert_eq!(e.duration_ms, 5000);
    assert_eq!(e.segments.len(), 2);
    assert_eq!(e.segments[1].text, "This is a test.");
    assert_eq!(e.segments[1].start_ms, 2500);
    assert!(e.segments[1].title.is_none());
}

#[test]
fn test_align_by_position() {
    let words = six_words();
    let text = "Hello world. This is a test.";
    let segments = align_by_position(&words, text, 0);
    assert_eq!(segments.len(), 2);
    assert_eq!(segments[0].text, "Hello world.");
    assert_eq!(segments[0].start_ms, 0);
    assert_eq!(segments[1].text, "This is a test.");
}

#[test]
fn alignment_places_every_sentence() {
    let segments = align_by_position(&six_words(), "Hello world. This is a test.", 0);
    assert_eq!(segments[0].start_ms, 0);
    assert_eq!(segments[0].end_ms, 1000);
    assert_eq!(segments[1].start_ms, 1000);
    assert_eq!(segments[1].end_ms, 2000);
}

#[test]
fn alignment_with_offset_moves_every_time() {
    let segments = align_by_position(&six_words(), "Hello world. This is a test.", 120000);
    assert_eq!(segments.len(), 2);
    assert_eq!((segments[0].start_ms, segments[0].end_ms), (120000, 121000));
    assert_eq!((segments[1].start_ms, segments[1].end_ms), (121000, 122000));
}

#[test]
fn test_align_with_offset() {
    let words = vec![word("Hello", 0, 500), word("world", 500, 1000)];
    let segments = align_by_position(&words, "Hello world.", 120000);
    assert_eq!(segments.len(), 1);
    assert_eq!(segments[0].start_ms, 120000);
    assert_eq!(segments[0].end_ms, 121000);
}

#[test]
fn test_align_empty_input() {
    let segments = align_by_position(&Vec::new(), "Hello", 5000);
    assert_eq!(segments.len(), 1);
    assert_eq!(segments[0].text, "Hello");
    assert_eq!(segments[0].start_ms, 5000);
}

#[test]
fn alignment_without_words_takes_ten_seconds() {
    let segments = align_by_position(&Vec::new(), "Hello", 5000);
    assert_eq!(segments[0].end_ms, 15000);
}

#[test]
fn alignment_without_sentences_keeps_the_text() {
    let words = vec![word("x", 0, 700)];
    let segments = align_by_position(&words, " ... ", 1000);
    assert_eq!(segments.len(), 1);
    assert_eq!(segments[0].text, " ... ");
    assert_eq!((segments[0].start_ms, segments[0].end_ms), (1000, 1700));
    let empty = align_by_position(&words, "", 0);
    assert_eq!(empty.len(), 1);
    assert_eq!(empty[0].text, "");
    assert_eq!(empty[0].end_ms, 700);
}

#[test]
fn alignment_draws_the_last_sentence_out() {
    let words = vec![word("One", 0, 500), word("two", 500, 1000), word("three", 4000, 5000)];
    let segments = align_by_position(&words, "One two.", 0);
    assert_eq!(segments.len(), 1);
    assert_eq!(segments[0].text, "One two.");
    assert_eq!((segments[0].start_ms, segments[0].end_ms), (0, 5000));
    let near = vec![word("One", 0, 500), word("two", 500, 1000), word("three", 1000, 2000)];
    let kept = align_by_position(&near, "One two.", 0);
    assert_eq!(kept[0].end_ms, 1000);
}

#[test]
fn alignment_holds_to_the_words_there_are() {
    let words = vec![word("One", 0, 500), word("two", 500, 1000)];
    let segments = align_by_position(&words, "One two three four! Five six?", 0);
    assert_eq!(segments.len(), 2);
    assert_eq!(segments[0].text, "One two three four.");
    assert_eq!((segments[0].start_ms, segments[0].end_ms), (0, 1000));
    assert_eq!(segments[1].text, "Five six.");
    assert_eq!((segments[1].start_ms, segments[1].end_ms), (500, 1000));
}

#[test]
fn fusion_is_planned_by_words_and_text() {
    let p = processor();
    assert!(p.is_full_fusion());
    assert!(matches!(p.plan_fusion(&six_words(), "Hello world.", 0), FusionPlan::AskModel));
    match p.plan_fusion(&Vec::new(), "  Hello world.  ", 3000) {
        FusionPlan::Done(s) => {
            assert_eq!(s.len(), 1);
            assert_eq!(s[0].text, "Hello world.");
            assert_eq!((s[0].start_ms, s[0].end_ms), (3000, 13000));
        }
        FusionPlan::AskModel => panic!("nothing to fuse"),
    }
    match p.plan_fusion(&six_words(), "   ", 3000) {
        FusionPlan::Done(s) => assert!(s.is_empty()),
        FusionPlan::AskModel => panic!("nothing to fuse"),
    }
}

#[test]
fn fusion_takes_the_sentences_of_the_model() {
    let p = processor();
    let reply = Ok(
        "{\"segments\": [{\"text\": \"Hello world.\", \"start_seconds\": 0.0, \"end_seconds\": 1.25}, {\"text\": \"Bye.\", \"start_seconds\": 1.25, \"end_seconds\": 2}]}"
            .to_string(),
    );
    let out = p.fuse_reply(&six_words(), "Hello world. Bye.", 60000, &reply);
    assert_eq!(out.len(), 2);
    assert_eq!(out[0].text, "Hello world.");
    assert_eq!((out[0].start_ms, out[0].end_ms), (60000, 61250));
    assert_eq!((out[1].start_ms, out[1].end_ms), (61250, 62000));
}

#[test]
fn fusion_falls_back_on_alignment() {
    let p = processor();
    let text = "Hello world. This is a test.";
    let expected = align_by_position(&six_words(), text, 0);
    for reply in [
        Ok("not json".to_string()),
        Ok("{\"segments\": []}".to_string()),
        Ok("{\"other\": 1}".to_string()),
        Ok("{\"segments\": [{\"text\": \"x\", \"start_seconds\": 0}]}".to_string()),
        Err(LyttError::OpenAI("down".to_string())),
    ] {
        let out = p.fuse_reply(&six_words(), text, 0, &reply);
        assert_eq!(out.len(), expected.len());
        assert_eq!(out[0].text, expected[0].text);
        assert_eq!(out[1].end_ms, expected[1].end_ms);
    }
}

#[test]
fn fused_sentences_are_read_from_json() {
    let answer = parse_json(
        "{\"segments\": [{\"text\": \"A\", \"start_seconds\": 1, \"end_seconds\": 2.5, \"more\": true}]}",
    )
    .unwrap();
    let read = fused_from_json(&answer).unwrap();
    assert_eq!(read.len(), 1);
    assert_eq!((read[0].start_ms, read[0].end_ms), (1000, 2500));
    let wrong = parse_json("{\"segments\": {\"text\": \"A\"}}").unwrap();
    assert!(fused_from_json(&wrong).is_none());
}

#[test]
fn fusion_prompt_holds_words_and_text() {
    assert_eq!(
        fusion_prompt("[]", "Hi."),
        "Word timestamps:\n[]\n\nAccurate text:\nHi.\n\nReturn JSON: {\"segments\": [{\"text\": \"...\", \"start_seconds\": 0.0, \"end_seconds\": 5.0}]}"
    );
    assert_eq!(text_of_words(&six_words()), "Hello world this is a test");
}

#[test]
fn processor_takes_the_text_model_of_the_settings() {
    let mut settings = lytt::config::TranscriptionProcessingSettings::default();
    let with = TranscriptionProcessor::with_config(&settings, "prompt").unwrap();
    assert!(with.is_full_fusion());
    assert_eq!(with.segment_duration_seconds, 300);
    assert_eq!(with.max_concurrent_segments, 2);
    settings.text_model = Some(String::new());
    assert!(!TranscriptionProcessor::with_config(&settings, "prompt").unwrap().is_full_fusion());
    settings.text_model = None;
    assert!(!TranscriptionProcessor::with_config(&settings, "prompt").unwrap().is_full_fusion());
}

#[test]
fn transcript_is_assembled_in_the_order_of_starts() {
    let segments = vec![
        TranscriptSegment::new(300000, 301000, "c".to_string()),
        TranscriptSegment::new(0, 1000, "a".to_string()),
        TranscriptSegment::new(1000, 2000, "b".to_string()),
        TranscriptSegment::new(0, 500, "a2".to_string()),
    ];
    let t = assemble_transcript("m".to_string(), segments);
    let starts: Vec<u64> = t.segments.iter().map(|s| s.start_ms).collect();
    assert_eq!(starts, vec![0, 0, 1000, 300000]);
    assert_eq!(t.full_text, "a a2 b c");
    assert_eq!(t.duration_ms, 301000);
}

#[test]
fn assembled_transcript_of_disjoint_segments_is_well_formed() {
    let segments = vec![
        TranscriptSegment::new(2000, 3000, "c".to_string()),
        TranscriptSegment::new(0, 1000, "a".to_string()),
        TranscriptSegment::new(1000, 2000, "b".to_string()),
    ];
    let t = assemble_transcript("m".to_string(), segments);
    for pair in t.segments.windows(2) {
        assert!(pair[0].start_ms <= pair[1].start_ms);
        assert!(pair[0].end_ms <= pair[1].start_ms);
    }
    assert_eq!(t.duration_ms, t.segments.last().unwrap().end_ms);
}

#[test]
fn failures_of_parts_are_named() {
    let cause = LyttError::OpenAI("down".to_string());
    assert_eq!(
        segment_failed(120400, &cause).to_string(),
        "Transcription failed: Segment at 120s failed: OpenAI API error: down"
    );
    assert_eq!(
        chunk_failed(3, 360500, &cause).to_string(),
        "Transcription failed: Chunk 3 at 360s failed: OpenAI API error: down"
    );
    assert_eq!(
        text_chunk_failed("gpt-4o-transcribe", 1, 121500, &cause).to_string(),
        "Transcription failed: gpt-4o-transcribe chunk 1 at 122s failed: OpenAI API error: down"
    );
}

#[test]
fn words_are_spread_over_their_sentence() {
    let sentences = vec![
        TranscriptSegment::new(1000, 4000, " one  two three ".to_string()),
        TranscriptSegment::new(4000, 5000, "   ".to_string()),
        TranscriptSegment::new(5000, 5001, "a b".to_string()),
    ];
    let words = approximate_words(&sentences);
    assert_eq!(words.len(), 5);
    assert_eq!((words[0].word.as_str(), words[0].start_ms, words[0].end_ms), ("one", 1000, 2000));
    assert_eq!((words[1].word.as_str(), words[1].start_ms, words[1].end_ms), ("two", 2000, 3000));
    assert_eq!((words[2].word.as_str(), words[2].start_ms, words[2].end_ms), ("three", 3000, 4000));
    assert_eq!((words[3].start_ms, words[3].end_ms), (5000, 5000));
    assert_eq!((words[4].start_ms, words[4].end_ms), (5000, 5001));
}

#[test]
fn words_of_an_answer_are_taken_or_approximated() {
    let given = words_from_response(Some(six_words()), None);
    assert_eq!(given.len(), 6);
    let sentences = vec![TranscriptSegment::new(0, 1000, "a b".to_string())];
    let made = words_from_response(None, Some(sentences));
    assert_eq!(made.len(), 2);
    assert_eq!(made[1].start_ms, 500);
    assert!(words_from_response(None, None).is_empty());
}

#[test]
fn segments_of_an_answer_are_trimmed() {
    let sentences = vec![TranscriptSegment::new(0, 1000, "  a b \n".to_string())];
    let out = segments_from_response(Some(sentences), 9000, " whole ");
    assert_eq!(out.len(), 1);
    assert_eq!(out[0].text, "a b");
    let one = segments_from_response(None, 9000, " whole ");
    assert_eq!(one.len(), 1);
    assert_eq!((one[0].start_ms, one[0].end_ms, one[0].text.as_str()), (0, 9000, "whole"));
}

#[test]
fn parts_are_merged_in_their_order() {
    let chunks = vec![
        SegmentChunk {
            index: 1,
            offset_ms: 120000,
            segments: vec![TranscriptSegment::new(0, 1000, "second".to_string())],
        },
        SegmentChunk {
            index: 0,
            offset_ms: 0,
            segments: vec![
                TranscriptSegment::new(0, 1000, "first".to_string()),
                TranscriptSegment::new(1000, 2000, "more".to_string()),
            ],
        },
    ];
    let t = merge_chunk_segments("v".to_string(), chunks);
    assert_eq!(t.full_text, "first more second");
    assert_eq!(t.segments[2].start_ms, 120000);
    assert_eq!(t.duration_ms, 121000);
}

#[test]
fn word_parts_are_merged_or_all_failures_named() {
    let good = vec![
        WordChunk { index: 1, offset_ms: 60000, outcome: Ok(vec![word("b", 0, 500)]) },
        WordChunk { index: 0, offset_ms: 0, outcome: Ok(vec![word("a", 0, 500)]) },
    ];
    let t = merge_chunk_words("m".to_string(), good).unwrap();
    assert_eq!(t.full_text, "a b");
    assert_eq!(t.words[1].start_ms, 60000);
    assert_eq!(t.duration_ms, 60500);
    let bad = vec![
        WordChunk { index: 2, offset_ms: 0, outcome: Err(LyttError::OpenAI("x".to_string())) },
        WordChunk { index: 0, offset_ms: 0, outcome: Ok(vec![word("a", 0, 500)]) },
        WordChunk { index: 1, offset_ms: 0, outcome: Err(LyttError::Io("y".to_string())) },
    ];
    match merge_chunk_words("m".to_string(), bad) {
        Err(LyttError::Transcription(m)) => assert_eq!(
            m,
            "Word-level transcription failed for 2 chunk(s):\nChunk 1: IO error: y\nChunk 2: OpenAI API error: x"
        ),
        _ => panic!("a part failed"),
    }
}

#[test]
fn texts_of_parts_are_joined_in_their_order() {
    let chunks = vec![
        TextChunk { index: 2, text: "three".to_string() },
        TextChunk { index: 0, text: String::new() },
        TextChunk { index: 1, text: "two".to_string() },
    ];
    let t = merge_chunk_texts("m".to_string(), Some("en".to_string()), chunks);
    assert_eq!(t.text, "two three");
    assert_eq!(t.language.as_deref(), Some("en"));
    assert_eq!(t.media_id, "m");
}

#[test]
fn fused_segment_becomes_a_segment() {
    let s = TranscriptSegment::from_fused(FusedSegment {
        text: "x".to_string(),
        start_ms: 1,
        end_ms: 2,
    });
    assert_eq!((s.start_ms, s.end_ms, s.text.as_str()), (1, 2, "x"));
}

fn read_time(text: &str, mark: char) -> u64 {
    let (clock, millis) = text.split_once(mark).unwrap();
    let parts: Vec<u64> = clock.split(':').map(|p| p.parse().unwrap()).collect();
    ((parts[0] * 60 + parts[1]) * 60 + parts[2]) * 1000 + millis.parse::<u64>().unwrap()
}

fn read_cues(text: &str, mark: char) -> Vec<(u64, u64, String)> {
    text.split("\n\n")
        .filter(|block| !block.is_empty())
        .map(|block| {
            let mut lines = block.splitn(3, '\n');
            lines.next().unwrap().parse::<usize>().unwrap();
            let (start, end) = lines.next().unwrap().split_once(" --> ").unwrap();
            (read_time(start, mark), read_time(end, mark), lines.next().unwrap().to_string())
        })
        .collect()
}

#[test]
fn subtitles_parse_back_to_the_segments() {
    let transcript = Transcript::new(
        "t".to_string(),
        vec![
            TranscriptSegment::new(0, 2500, "Hello world.".to_string()),
            TranscriptSegment::new(2500, 3661123, "This is\na test.".to_string()),
            TranscriptSegment::new(3661123, 360000000, "The end.".to_string()),
        ],
    );
    let wanted: Vec<(u64, u64, String)> =
        transcript.segments.iter().map(|s| (s.start_ms, s.end_ms, s.text.clone())).collect();
    let srt = format_transcript(&transcript, OutputFormat::Srt);
    assert_eq!(read_cues(&srt, ','), wanted);
    let vtt = format_transcript(&transcript, OutputFormat::Vtt);
    assert_eq!(read_cues(vtt.strip_prefix("WEBVTT\n\n").unwrap(), '.'), wanted);
}

#[test]
fn exported_json_reads_back_with_the_same_segments() {
    let transcript = sample_transcript();
    let text = format_transcript(&transcript, OutputFormat::Json);
    let read = parse_json(&text).unwrap();
    assert_eq!(read.str_field("media_id").as_deref(), Some("test123"));
    assert_eq!(read.millis_field("duration_seconds"), Some(transcript.duration_ms));
    let segments = read.get("segments").unwrap().as_array().unwrap();
    assert_eq!(segments.len(), transcript.segments.len());
    for (j, s) in segments.iter().zip(transcript.segments.iter()) {
        assert_eq!(j.str_field("text").as_deref(), Some(s.text.as_str()));
        assert_eq!(j.millis_field("start_seconds"), Some(s.start_ms));
        assert_eq!(j.millis_field("end_seconds"), Some(s.end_ms));
    }
    assert_eq!(format_transcript(&transcript, OutputFormat::Json), write_again(&read));
}

fn write_again(j: &lytt::json::Json) -> String {
    write_json(j)
}

#[test]
fn kept_transcripts_are_read_back_as_they_were() {
    let t = Transcript::new(
        "vid".to_string(),
        vec![
            TranscriptSegment::new(0, 2500, "Hello world.".to_string()),
            TranscriptSegment::new(2500, 61001, "This is \"quoted\".".to_string()),
            TranscriptSegment::new(61001, 3600000, String::new()),
        ],
    );
    let j = transcript_to_json(&t);
    assert_eq!(j.str_field("video_id").as_deref(), Some("vid"));
    assert_eq!(j.millis_field("duration_seconds"), Some(3600000));
    let text = write_json(&j);
    let read = transcript_from_json(&parse_json(&text).unwrap()).unwrap();
    assert_eq!(read.video_id, t.video_id);
    assert_eq!(read.full_text, t.full_text);
    assert_eq!(read.duration_ms, t.duration_ms);
    assert_eq!(read.segments.len(), 3);
    for (a, b) in read.segments.iter().zip(t.segments.iter()) {
        assert_eq!((a.start_ms, a.end_ms, a.text.as_str()), (b.start_ms, b.end_ms, b.text.as_str()));
    }
    let again = write_json(&transcript_to_json(&read));
    assert_eq!(again, text);
}

#[test]
fn kept_transcripts_with_fractions_written_in_full_are_read() {
    let text = r#"{"video_id":"v","segments":[{"start_seconds":0.0,"end_seconds":2.5,"text":"Hello"}],"full_text":"Hello","duration_seconds":2.5}"#;
    let read = transcript_from_json(&parse_json(text).unwrap()).unwrap();
    assert_eq!(read.video_id, "v");
    assert_eq!(read.duration_ms, 2500);
    assert_eq!(read.segments.len(), 1);
    assert_eq!((read.segments[0].start_ms, read.segments[0].end_ms), (0, 2500));
    assert_eq!(read.segments[0].text, "Hello");
    let lacking = r#"{"video_id":"v","segments":[],"duration_seconds":2.5}"#;
    assert!(transcript_from_json(&parse_json(lacking).unwrap()).is_none());
    let broken = r#"{"video_id":"v","segments":[{"start_seconds":0.0,"text":"Hello"}],"full_text":"Hello","duration_seconds":2.5}"#;
    assert!(transcript_from_json(&parse_json(broken).unwrap()).is_none());
}

#[test]
fn words_are_shown_to_the_fusing_model_as_json() {
    let text = words_to_json(&vec![word("Hello", 0, 500), word("wor\"ld", 500, 1250)]);
    let read = parse_json(&text).unwrap();
    let items = read.as_array().unwrap();
    assert_eq!(items.len(), 2);
    assert_eq!(items[0].str_field("word").as_deref(), Some("Hello"));
    assert_eq!(items[0].millis_field("start"), Some(0));
    assert_eq!(items[0].millis_field("end"), Some(500));
    assert_eq!(items[1].str_field("word").as_deref(), Some("wor\"ld"));
    assert_eq!(items[1].millis_field("end"), Some(1250));
    assert_eq!(
        text.replace(['\n', ' '], ""),
        r#"[{"word":"Hello","start":0,"end":0.5},{"word":"wor\"ld","start":0.5,"end":1.25}]"#
    );
    assert_eq!(words_to_json(&Vec::new()), "[]");
}

#[test]
fn aligned_sentences_end_with_their_last_word() {
    let words = vec![word("Hi", 1000, 1040), word("there", 1040, 1050)];
    let out = align_by_position(&words, "Hi. There.", 0);
    let times: Vec<(u64, u64)> = out.iter().map(|s| (s.start_ms, s.end_ms)).collect();
    assert_eq!(times, vec![(1000, 1040), (1040, 1050)]);
}
