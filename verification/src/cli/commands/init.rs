//! Advice on installing what is missing.

use crate::cli::commands::doctor::Platform;
use crate::text::{
    from_chars, lowercase_of, str_eq, string_of, to_chars, to_lowercase, trim, trim_chars,
};
use vstd::prelude::*;

verus! {

/// How to install a tool on a platform.
pub open spec fn hint_for(tool: Seq<char>, platform: Platform) -> Seq<char> {
    if tool == "yt-dlp"@ {
        match platform {
            Platform::MacOs => "Install with: brew install yt-dlp"@,
            Platform::Linux => "Install with: pip install yt-dlp"@,
            Platform::Other => "Install from: https://github.com/yt-dlp/yt-dlp"@,
        }
    } else if tool == "ffmpeg"@ || tool == "ffprobe"@ {
        match platform {
            Platform::MacOs => "Install with: brew install ffmpeg"@,
            Platform::Linux => "Install with: sudo apt install ffmpeg"@,
            Platform::Other => "Install from: https://ffmpeg.org/download.html"@,
        }
    } else {
        "Check the documentation for installation instructions"@
    }
}

/// How to install a tool on a platform.
pub fn install_hint(tool: &str, platform: Platform) -> (out: String)
    ensures
        out@ == hint_for(tool@, platform),
{
    if str_eq(tool, "yt-dlp") {
        match platform {
            Platform::MacOs => string_of("Install with: brew install yt-dlp"),
            Platform::Linux => string_of("Install with: pip install yt-dlp"),
            Platform::Other => string_of("Install from: https://github.com/yt-dlp/yt-dlp"),
        }
    } else if str_eq(tool, "ffmpeg") || str_eq(tool, "ffprobe") {
        match platform {
            Platform::MacOs => string_of("Install with: brew install ffmpeg"),
            Platform::Linux => string_of("Install with: sudo apt install ffmpeg"),
            Platform::Other => string_of("Install from: https://ffmpeg.org/download.html"),
        }
    } else {
        string_of("Check the documentation for installation instructions")
    }
}

/// Whether an answer to a question says yes: `y` or `yes`, in whatever case
/// and with whatever white space around it.
pub open spec fn says_yes(answer: Seq<char>) -> bool {
    lowercase_of(trim(answer)) == "y"@ || lowercase_of(trim(answer)) == "yes"@
}

/// Whether an answer to a question says yes.
pub fn confirms(answer: &str) -> (b: bool)
    ensures
        b == says_yes(answer@),
{
    let trimmed = from_chars(&trim_chars(&to_chars(answer)));
    let lower = to_lowercase(trimmed.as_str());
    str_eq(lower.as_str(), "y") || str_eq(lower.as_str(), "yes")
}

} // verus!
