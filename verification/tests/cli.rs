use lytt::audio::downloader::Tool;
use lytt::cli::commands::doctor::{
    check_config_file, check_openai_api_key, format_size, install_hint_ffmpeg, install_hint_ytdlp,
    tally, tool_found, CheckResult, CheckStatus, Platform,
};
use lytt::cli::commands::init::install_hint;
use lytt::cli::output::{content_preview, format_duration, truncate};
use lytt::cli::preflight::{check, version_arg, Environment, Operation, ToolStatus};
use lytt::error::LyttError;

fn bare() -> Environment {
    Environment {
        api_key: None,
        yt_dlp: ToolStatus::Missing,
        ffmpeg: ToolStatus::Missing,
        ffprobe: ToolStatus::Missing,
    }
}

fn ready() -> Environment {
    Environment {
        api_key: Some(format!("{}-{}", "sk", "key")),
        yt_dlp: ToolStatus::Working,
        ffmpeg: ToolStatus::Working,
        ffprobe: ToolStatus::Working,
    }
}

#[test]
fn test_check_result_ok() {
    let result = CheckResult::ok("test", "passed");
    assert_eq!(result.status, CheckStatus::Passed);
    assert!(result.hint.is_none());
}

#[test]
fn test_check_result_error() {
    let result = CheckResult::error("test", "failed", "fix it");
    assert_eq!(result.status, CheckStatus::Error);
    assert_eq!(result.hint, Some("fix it".to_string()));
}

#[test]
fn check_result_warning_carries_its_hint() {
    let result = CheckResult::warning("test", "hm", "mind it");
    assert_eq!(result.status, CheckStatus::Warning);
    assert_eq!(result.name, "test");
    assert_eq!(result.message, "hm");
    assert_eq!(result.hint, Some("mind it".to_string()));
}

#[test]
fn test_format_size() {
    assert_eq!(format_size(500), "500 B");
    assert_eq!(format_size(1024), "1.0 KB");
    assert_eq!(format_size(1024 * 1024), "1.0 MB");
    assert_eq!(format_size(1024 * 1024 * 1024), "1.0 GB");
}

#[test]
fn sizes_are_rounded_to_a_tenth() {
    assert_eq!(format_size(0), "0 B");
    assert_eq!(format_size(1023), "1023 B");
    assert_eq!(format_size(1536), "1.5 KB");
    assert_eq!(format_size(1100), "1.1 KB");
    assert_eq!(format_size(1048575), "1024.0 KB");
    assert_eq!(format_size(1310720), "1.2 MB");
    assert_eq!(format_size(1835008), "1.8 MB");
    assert_eq!(format_size(u64::MAX), "17179869184.0 GB");
}

#[test]
fn test_install_hint_ytdlp() {
    for platform in [Platform::MacOs, Platform::Linux, Platform::Other] {
        let hint = install_hint("yt-dlp", platform);
        assert!(hint.contains("yt-dlp"));
    }
}

#[test]
fn test_install_hint_ffmpeg() {
    for platform in [Platform::MacOs, Platform::Linux, Platform::Other] {
        let hint = install_hint("ffmpeg", platform);
        assert!(hint.contains("ffmpeg"));
    }
}

#[test]
fn hints_depend_on_tool_and_platform() {
    assert_eq!(install_hint("yt-dlp", Platform::Linux), "Install with: pip install yt-dlp");
    assert_eq!(install_hint("ffprobe", Platform::MacOs), "Install with: brew install ffmpeg");
    assert_eq!(install_hint("ffmpeg", Platform::Other), "Install from: https://ffmpeg.org/download.html");
    assert_eq!(install_hint("make", Platform::Linux), "Check the documentation for installation instructions");
    assert_eq!(
        install_hint_ytdlp(Platform::Linux),
        "Install with: pip install yt-dlp (or your package manager)"
    );
    assert_eq!(install_hint_ytdlp(Platform::MacOs), "Install with: brew install yt-dlp");
    assert_eq!(
        install_hint_ffmpeg(Platform::Linux),
        "Install with: sudo apt install ffmpeg (or your package manager)"
    );
    assert_eq!(install_hint_ffmpeg(Platform::Other), "Install from: https://ffmpeg.org/download.html");
}

#[test]
fn test_check_search_no_requirements() {
    assert!(check(Operation::Search, &bare()).is_ok());
}

#[test]
fn checks_name_the_first_thing_missing() {
    assert!(check(Operation::Transcribe, &ready()).is_ok());
    assert!(check(Operation::Ask, &ready()).is_ok());
    match check(Operation::Ask, &bare()) {
        Err(LyttError::Config(m)) => {
            assert_eq!(m, "OPENAI_API_KEY not set. Set it with: export OPENAI_API_KEY='sk-...'")
        }
        _ => panic!("the key is not set"),
    }
    let mut env = ready();
    env.api_key = Some(String::new());
    match check(Operation::Transcribe, &env) {
        Err(LyttError::Config(m)) => {
            assert_eq!(m, "OPENAI_API_KEY is empty. Set it with: export OPENAI_API_KEY='sk-...'")
        }
        _ => panic!("the key is empty"),
    }
    let mut env = ready();
    env.ffmpeg = ToolStatus::Broken;
    env.ffprobe = ToolStatus::Missing;
    match check(Operation::Transcribe, &env) {
        Err(LyttError::ToolNotFound(m)) => {
            assert_eq!(m, "ffmpeg is installed but not working correctly")
        }
        _ => panic!("the converter is broken"),
    }
    env.ffmpeg = ToolStatus::Working;
    match check(Operation::Transcribe, &env) {
        Err(LyttError::ToolNotFound(m)) => assert_eq!(m, "ffprobe"),
        _ => panic!("the prober is missing"),
    }
    env.yt_dlp = ToolStatus::Unavailable("denied".to_string());
    match check(Operation::Transcribe, &env) {
        Err(LyttError::ToolNotFound(m)) => assert_eq!(m, "yt-dlp: denied"),
        _ => panic!("the downloader cannot be run"),
    }
    assert!(check(Operation::Ask, &env).is_ok());
    assert_eq!(version_arg(Tool::YtDlp), "--version");
    assert_eq!(version_arg(Tool::Ffmpeg), "-version");
    assert_eq!(version_arg(Tool::Ffprobe), "-version");
}

/// A key made of a prefix and the letters of the alphabet.
fn key_of(prefix: &str) -> String {
    let letters: String = ('a'..='z').collect();
    format!("{}-{}", prefix, letters)
}

#[test]
fn keys_are_checked_and_masked() {
    let key = key_of("sk");
    assert_eq!(key.len(), 29);
    let good = check_openai_api_key(Some(key.as_str()));
    assert_eq!(good.status, CheckStatus::Passed);
    let shown = format!("configured ({}...{})", &key[..7], &key[key.len() - 4..]);
    assert_eq!(shown, ["configured (", "sk", "-abcd", "...", "wxyz", ")"].concat());
    assert_eq!(good.message, shown);
    assert_eq!(check_openai_api_key(Some("")).message, "empty");
    assert_eq!(check_openai_api_key(Some("")).status, CheckStatus::Error);
    let short = format!("{}-{}", "sk", "short");
    let odd = check_openai_api_key(Some(short.as_str()));
    assert_eq!(odd.status, CheckStatus::Warning);
    assert_eq!(odd.message, "set but format looks unusual");
    assert_eq!(check_openai_api_key(Some(key_of("key").as_str())).status, CheckStatus::Warning);
    let none = check_openai_api_key(None);
    assert_eq!((none.status, none.message.as_str()), (CheckStatus::Error, "not set"));
    assert_eq!(none.name, "OPENAI_API_KEY");
}

#[test]
fn tool_versions_are_cut() {
    assert_eq!(tool_found("ffmpeg", "ffmpeg version 6").message, "ffmpeg version 6");
    let long = "v".repeat(60);
    assert_eq!(tool_found("x", &long).message, format!("{}...", "v".repeat(50)));
    let c = check_config_file("/c/config.toml", true);
    assert_eq!((c.status, c.message.as_str()), (CheckStatus::Passed, "/c/config.toml"));
    let d = check_config_file("/c/config.toml", false);
    assert_eq!((d.status, d.message.as_str()), (CheckStatus::Warning, "using defaults"));
}

#[test]
fn checks_are_tallied() {
    let checks = vec![
        CheckResult::ok("a", "fine"),
        CheckResult::error("b", "bad", "fix"),
        CheckResult::warning("c", "hm", "mind"),
        CheckResult::error("d", "bad", "fix"),
    ];
    assert_eq!(tally(&checks), (2, 1));
    assert_eq!(tally(&Vec::new()), (0, 0));
}

#[test]
fn texts_are_cut_to_length() {
    assert_eq!(truncate("short", 10), "short");
    assert_eq!(truncate("exactly 10", 10), "exactly 10");
    assert_eq!(truncate("more than ten", 10), "more than ...");
    assert_eq!(truncate("é日本語", 2), "é日...");
    assert_eq!(content_preview("a\nb\nc", 10), "a b c");
    assert_eq!(content_preview("a\nb\nc", 3), "a b...");
    assert_eq!(format_duration(3723000), "1h 2m 3s");
    assert_eq!(format_duration(123999), "2m 3s");
    assert_eq!(format_duration(3000), "3s");
    assert_eq!(format_duration(0), "0s");
    assert_eq!(format_duration(3600000), "1h 0m 0s");
}
