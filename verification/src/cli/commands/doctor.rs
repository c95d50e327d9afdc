//! The checks of the machine and the settings, and how they are reported.

use crate::cli::preflight::ToolStatus;
use crate::decimal::{decimal, digit_char, push_decimal};
use crate::text::{
    append_chars, append_str, find_char, first_index, from_chars, lemma_index_bounds,
    starts_with, string_of, sub_chars, take_chars, to_chars, trim, trim_chars,
};
use vstd::prelude::*;

verus! {

/// How a check ended.
#[derive(Debug, Clone, Copy, PartialEq, Eq)]
pub enum CheckStatus {
    Passed,
    Warning,
    Error,
}

/// The outcome of one check: what was checked, how it ended, what was found,
/// and what to do about it.
#[derive(Debug, Clone)]
pub struct CheckResult {
    pub name: String,
    pub status: CheckStatus,
    pub message: String,
    pub hint: Option<String>,
}

/// The kind of machine, as far as advice on installing depends on it.
#[derive(Debug, Clone, Copy, PartialEq, Eq)]
pub enum Platform {
    MacOs,
    Linux,
    Other,
}

/// A kilobyte, a megabyte and a gigabyte, in bytes.
pub const KB: u64 = 1024;

pub const MB: u64 = 1048576;

pub const GB: u64 = 1073741824;

/// How much of the output of a tool is shown as its version.
pub const VERSION_CHARS: usize = 50;

/// The tenths of a unit nearest to so many bytes; a half goes to the even
/// side.
pub open spec fn tenths(bytes: u64, unit: u64) -> nat {
    let q = (bytes * 10) / (unit as int);
    let r = (bytes * 10) % (unit as int);
    if 2 * r > unit || (2 * r == unit && q % 2 == 1) {
        (q + 1) as nat
    } else {
        q as nat
    }
}

/// So many tenths with one digit behind the point.
pub open spec fn one_decimal(t: nat) -> Seq<char> {
    decimal(t / 10) + seq!['.', digit_char((t % 10) as int)]
}

/// A size in words: in bytes below a kilobyte, else in the largest unit that
/// it reaches, with one digit behind the point.
pub open spec fn size_text(bytes: u64) -> Seq<char> {
    if bytes >= GB {
        one_decimal(tenths(bytes, GB)) + " GB"@
    } else if bytes >= MB {
        one_decimal(tenths(bytes, MB)) + " MB"@
    } else if bytes >= KB {
        one_decimal(tenths(bytes, KB)) + " KB"@
    } else {
        decimal(bytes as nat) + " B"@
    }
}

/// What is shown of a key: its first seven and its last four characters.
pub open spec fn masked(key: Seq<char>) -> Seq<char> {
    key.take(7) + "..."@ + key.subrange(key.len() - 4, key.len() as int)
}

/// Whether a key looks like one of the provider: it starts with `sk-` and is
/// longer than twenty characters.
pub open spec fn looks_like_key(key: Seq<char>) -> bool {
    "sk-"@.is_prefix_of(key) && key.len() > 20
}

/// What is shown as the version of a tool: the first line of its output, or
/// the start of it where it is long.
pub open spec fn version_shown(line: Seq<char>) -> Seq<char> {
    if line.len() > VERSION_CHARS {
        line.take(VERSION_CHARS as int) + "..."@
    } else {
        line
    }
}

fn push_tenths(out: &mut Vec<char>, bytes: u64, unit: u64)
    requires
        unit == KB || unit == MB || unit == GB,
    ensures
        final(out)@ == old(out)@ + one_decimal(tenths(bytes, unit)),
{
    let scaled: u128 = (bytes as u128) * 10;
    let q: u128 = scaled / (unit as u128);
    let r: u128 = scaled % (unit as u128);
    let t: u128 = if 2 * r > unit as u128 || (2 * r == unit as u128 && q % 2 == 1) {
        q + 1
    } else {
        q
    };
    assert(t == tenths(bytes, unit));
    let ghost before = out@;
    push_decimal(out, (t / 10) as u64);
    out.push('.');
    let d: u64 = (t % 10) as u64;
    let ghost mid = out@;
    push_decimal(out, d);
    assert(decimal(d as nat) == seq![digit_char(d as int)]);
    assert(out@ == before + (decimal((t / 10) as nat) + seq!['.', digit_char(d as int)]));
}

/// A size in words.
pub fn format_size(bytes: u64) -> (out: String)
    ensures
        out@ == size_text(bytes),
{
    let mut m: Vec<char> = Vec::new();
    if bytes >= GB {
        push_tenths(&mut m, bytes, GB);
        append_str(&mut m, " GB");
    } else if bytes >= MB {
        push_tenths(&mut m, bytes, MB);
        append_str(&mut m, " MB");
    } else if bytes >= KB {
        push_tenths(&mut m, bytes, KB);
        append_str(&mut m, " KB");
    } else {
        push_decimal(&mut m, bytes);
        append_str(&mut m, " B");
    }
    from_chars(&m)
}

/// How to install the downloader.
pub fn install_hint_ytdlp(platform: Platform) -> (out: String)
    ensures
        out@ == (match platform {
            Platform::MacOs => "Install with: brew install yt-dlp"@,
            Platform::Linux => "Install with: pip install yt-dlp (or your package manager)"@,
            Platform::Other => "Install from: https://github.com/yt-dlp/yt-dlp"@,
        }),
{
    match platform {
        Platform::MacOs => string_of("Install with: brew install yt-dlp"),
        Platform::Linux => string_of("Install with: pip install yt-dlp (or your package manager)"),
        Platform::Other => string_of("Install from: https://github.com/yt-dlp/yt-dlp"),
    }
}

/// How to install the converter and the prober.
pub fn install_hint_ffmpeg(platform: Platform) -> (out: String)
    ensures
        out@ == (match platform {
            Platform::MacOs => "Install with: brew install ffmpeg"@,
            Platform::Linux => "Install with: sudo apt install ffmpeg (or your package manager)"@,
            Platform::Other => "Install from: https://ffmpeg.org/download.html"@,
        }),
{
    match platform {
        Platform::MacOs => string_of("Install with: brew install ffmpeg"),
        Platform::Linux => string_of(
            "Install with: sudo apt install ffmpeg (or your package manager)",
        ),
        Platform::Other => string_of("Install from: https://ffmpeg.org/download.html"),
    }
}

impl CheckResult {
    /// A check that found everything in order.
    pub fn ok(name: &str, message: &str) -> (r: CheckResult)
        ensures
            r.name@ == name@,
            r.status == CheckStatus::Passed,
            r.message@ == message@,
            r.hint is None,
    {
        CheckResult {
            name: string_of(name),
            status: CheckStatus::Passed,
            message: string_of(message),
            hint: None,
        }
    }

    /// A check that found something to mind.
    pub fn warning(name: &str, message: &str, hint: &str) -> (r: CheckResult)
        ensures
            r.name@ == name@,
            r.status == CheckStatus::Warning,
            r.message@ == message@,
            r.hint matches Some(h) && h@ == hint@,
    {
        CheckResult {
            name: string_of(name),
            status: CheckStatus::Warning,
            message: string_of(message),
            hint: Some(string_of(hint)),
        }
    }

    /// A check that found something wrong.
    pub fn error(name: &str, message: &str, hint: &str) -> (r: CheckResult)
        ensures
            r.name@ == name@,
            r.status == CheckStatus::Error,
            r.message@ == message@,
            r.hint matches Some(h) && h@ == hint@,
    {
        CheckResult {
            name: string_of(name),
            status: CheckStatus::Error,
            message: string_of(message),
            hint: Some(string_of(hint)),
        }
    }
}

/// The check of the key of the provider: in order where it looks like a key,
/// wrong where it is not set or empty, to be minded where it looks unusual.
pub fn check_openai_api_key(key: Option<&str>) -> (r: CheckResult)
    ensures
        r.name@ == "OPENAI_API_KEY"@,
        match key {
            Some(k) => if looks_like_key(k@) {
                r.status == CheckStatus::Passed && r.message@ == "configured ("@ + masked(k@) + ")"@
                    && r.hint is None
            } else if k@.len() == 0 {
                r.status == CheckStatus::Error && r.message@ == "empty"@
            } else {
                r.status == CheckStatus::Warning && r.message@ == "set but format looks unusual"@
            },
            None => r.status == CheckStatus::Error && r.message@ == "not set"@,
        },
{
    match key {
        Some(k) => {
            let chars = to_chars(k);
            proof {
                reveal_strlit("sk-");
            }
            if starts_with(&chars, &to_chars("sk-")) && chars.len() > 20 {
                let mut m: Vec<char> = Vec::new();
                append_str(&mut m, "configured (");
                append_chars(&mut m, &take_chars(&chars, 7));
                append_str(&mut m, "...");
                append_chars(&mut m, &sub_chars(&chars, chars.len() - 4, chars.len()));
                append_str(&mut m, ")");
                assert(m@ == "configured ("@ + masked(k@) + ")"@) by {
                    assert(m@ == "configured ("@ + k@.take(7) + "..."@ + k@.subrange(
                        k@.len() - 4,
                        k@.len() as int,
                    ) + ")"@);
                    assert("configured ("@ + k@.take(7) + "..."@ + k@.subrange(
                        k@.len() - 4,
                        k@.len() as int,
                    ) == "configured ("@ + (k@.take(7) + "..."@ + k@.subrange(
                        k@.len() - 4,
                        k@.len() as int,
                    )));
                }
                CheckResult::ok("OPENAI_API_KEY", from_chars(&m).as_str())
            } else if chars.len() == 0 {
                CheckResult::error(
                    "OPENAI_API_KEY",
                    "empty",
                    "Set with: export OPENAI_API_KEY='sk-...'",
                )
            } else {
                CheckResult::warning(
                    "OPENAI_API_KEY",
                    "set but format looks unusual",
                    "Expected format: sk-... (OpenAI API key)",
                )
            }
        },
        None => CheckResult::error(
            "OPENAI_API_KEY",
            "not set",
            "Set with: export OPENAI_API_KEY='sk-...'",
        ),
    }
}

/// The check of a tool that ran and succeeded: in order, with the version
/// that the first line of its output shows.
pub fn tool_found(name: &str, first_line: &str) -> (r: CheckResult)
    ensures
        r.name@ == name@,
        r.status == CheckStatus::Passed,
        r.message@ == version_shown(first_line@),
        r.hint is None,
{
    let chars = to_chars(first_line);
    if chars.len() > VERSION_CHARS {
        let mut m = take_chars(&chars, VERSION_CHARS);
        append_str(&mut m, "...");
        CheckResult::ok(name, from_chars(&m).as_str())
    } else {
        CheckResult::ok(name, first_line)
    }
}

/// The line of the output of a tool that tells its version: the first line
/// without the white space around it; `installed` where there is no output.
pub open spec fn version_line(output: Seq<char>) -> Seq<char> {
    if output.len() == 0 {
        "installed"@
    } else {
        match first_index(output, '\n') {
            Some(i) => trim(output.take(i)),
            None => trim(output),
        }
    }
}

/// What is found of a tool, given what a try to run it showed.
pub open spec fn tool_finding(status: ToolStatus, output: Seq<char>) -> Seq<char> {
    match status {
        ToolStatus::Working => version_shown(version_line(output)),
        ToolStatus::Broken => "installed but not working"@,
        ToolStatus::Missing => "not found"@,
        ToolStatus::Unavailable(reason) => "error: "@ + reason@,
    }
}

/// The check of a tool, from what a try to run it showed and what it
/// printed: in order where it ran and succeeded, wrong otherwise, with the
/// hint on how to install it.
pub fn check_tool(name: &str, status: &ToolStatus, output: &str, hint: &str) -> (r: CheckResult)
    ensures
        r.name@ == name@,
        r.message@ == tool_finding(*status, output@),
        status is Working ==> r.status == CheckStatus::Passed && r.hint is None,
        !(status is Working) ==> r.status == CheckStatus::Error && (r.hint matches Some(h) && h@
            == hint@),
{
    match status {
        ToolStatus::Working => {
            let chars = to_chars(output);
            if chars.len() == 0 {
                tool_found(name, "installed")
            } else {
                let line = match find_char(&chars, '\n') {
                    Some(i) => {
                        proof {
                            lemma_index_bounds(chars@, '\n');
                        }
                        take_chars(&chars, i)
                    },
                    None => chars,
                };
                let shown = from_chars(&trim_chars(&line));
                tool_found(name, shown.as_str())
            }
        },
        ToolStatus::Broken => CheckResult::error(name, "installed but not working", hint),
        ToolStatus::Missing => CheckResult::error(name, "not found", hint),
        ToolStatus::Unavailable(reason) => {
            let mut m: Vec<char> = Vec::new();
            append_str(&mut m, "error: ");
            append_str(&mut m, reason.as_str());
            CheckResult::error(name, from_chars(&m).as_str(), hint)
        },
    }
}

/// The check of the directory for data: in order where it is there, to be
/// minded where it will be made.
pub fn check_data_directory(path: &str, on_disk: bool) -> (r: CheckResult)
    ensures
        r.name@ == "Data directory"@,
        on_disk ==> r.status == CheckStatus::Passed && r.message@ == path@,
        !on_disk ==> r.status == CheckStatus::Warning && r.message@ == path@
            + " (will be created)"@,
{
    if on_disk {
        CheckResult::ok("Data directory", path)
    } else {
        let mut m: Vec<char> = Vec::new();
        append_str(&mut m, path);
        append_str(&mut m, " (will be created)");
        CheckResult::warning(
            "Data directory",
            from_chars(&m).as_str(),
            "Directory will be created on first use",
        )
    }
}

/// The size of a file in words, where it is known.
pub open spec fn size_shown(size: Option<u64>) -> Seq<char> {
    match size {
        Some(bytes) => size_text(bytes),
        None => "unknown size"@,
    }
}

/// The check of the file of the index: in order where it is there, with its
/// size; to be minded where it is not made yet.
pub fn check_database(path: &str, on_disk: bool, size: Option<u64>) -> (r: CheckResult)
    ensures
        r.name@ == "Database"@,
        on_disk ==> r.status == CheckStatus::Passed && r.message@ == path@ + " ("@ + size_shown(
            size,
        ) + ")"@,
        !on_disk ==> r.status == CheckStatus::Warning && r.message@ == path@
            + " (not created yet)"@,
{
    let mut m: Vec<char> = Vec::new();
    append_str(&mut m, path);
    if on_disk {
        append_str(&mut m, " (");
        match size {
            Some(bytes) => append_str(&mut m, format_size(bytes).as_str()),
            None => append_str(&mut m, "unknown size"),
        }
        append_str(&mut m, ")");
        CheckResult::ok("Database", from_chars(&m).as_str())
    } else {
        append_str(&mut m, " (not created yet)");
        CheckResult::warning(
            "Database",
            from_chars(&m).as_str(),
            "Database will be created on first transcription",
        )
    }
}

/// The check of the settings file: in order where there is one, to be
/// minded where the defaults are used.
pub fn check_config_file(path: &str, on_disk: bool) -> (r: CheckResult)
    ensures
        r.name@ == "Config file"@,
        on_disk ==> r.status == CheckStatus::Passed && r.message@ == path@,
        !on_disk ==> r.status == CheckStatus::Warning && r.message@ == "using defaults"@,
{
    if on_disk {
        CheckResult::ok("Config file", path)
    } else {
        CheckResult::warning(
            "Config file",
            "using defaults",
            "Create with: lytt init (or lytt config edit)",
        )
    }
}

/// How many of the checks found something wrong, and how many found
/// something to mind.
pub fn tally(checks: &Vec<CheckResult>) -> (r: (usize, usize))
    ensures
        r.0 == checks@.filter(|c: CheckResult| c.status == CheckStatus::Error).len(),
        r.1 == checks@.filter(|c: CheckResult| c.status == CheckStatus::Warning).len(),
{
    let ghost wrong = |c: CheckResult| c.status == CheckStatus::Error;
    let ghost minded = |c: CheckResult| c.status == CheckStatus::Warning;
    let mut errors: usize = 0;
    let mut warnings: usize = 0;
    let mut i: usize = 0;
    proof {
        crate::seqs::lemma_filter_empty(checks@.take(0), wrong);
        crate::seqs::lemma_filter_empty(checks@.take(0), minded);
    }
    while i < checks.len()
        invariant
            i <= checks.len(),
            wrong == |c: CheckResult| c.status == CheckStatus::Error,
            minded == |c: CheckResult| c.status == CheckStatus::Warning,
            errors == checks@.take(i as int).filter(wrong).len(),
            warnings == checks@.take(i as int).filter(minded).len(),
            errors <= i,
            warnings <= i,
        decreases checks.len() - i,
    {
        proof {
            crate::seqs::lemma_filter_next(checks@, wrong, i as int);
            crate::seqs::lemma_filter_next(checks@, minded, i as int);
        }
        match checks[i].status {
            CheckStatus::Error => {
                errors = errors + 1;
            },
            CheckStatus::Warning => {
                warnings = warnings + 1;
            },
            CheckStatus::Passed => {},
        }
        i = i + 1;
    }
    assert(checks@.take(checks.len() as int) == checks@);
    (errors, warnings)
}

} // verus!
