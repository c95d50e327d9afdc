//! What has to be in place before an operation is started.

use crate::audio::downloader::{tool_name, Tool};
use crate::error::LyttError;
use crate::text::{append_str, from_chars, string_of};
use vstd::prelude::*;

verus! {

/// An operation that may need tools and a key.
#[derive(Debug, Clone, Copy, PartialEq, Eq)]
pub enum Operation {
    /// Needs the key and the three tools.
    Transcribe,
    /// Needs the key.
    Ask,
    /// Needs nothing.
    Search,
}

/// What a try to run a tool showed.
#[derive(Debug, Clone)]
pub enum ToolStatus {
    /// The tool ran and succeeded.
    Working,
    /// The tool ran and did not succeed.
    Broken,
    /// There is no such tool.
    Missing,
    /// The tool could not be run, for the reason given.
    Unavailable(String),
}

/// What was found on the machine: the key for the provider, if it is set, and
/// what a try to run each tool showed.
#[derive(Debug, Clone)]
pub struct Environment {
    pub api_key: Option<String>,
    pub yt_dlp: ToolStatus,
    pub ffmpeg: ToolStatus,
    pub ffprobe: ToolStatus,
}

/// What is wrong with the key, if anything.
pub open spec fn key_complaint(key: Option<String>) -> Option<Seq<char>> {
    match key {
        Some(k) => if k@.len() > 0 {
            None
        } else {
            Some("OPENAI_API_KEY is empty. Set it with: export OPENAI_API_KEY='sk-...'"@)
        },
        None => Some("OPENAI_API_KEY not set. Set it with: export OPENAI_API_KEY='sk-...'"@),
    }
}

/// What is wrong with a tool, if anything.
pub open spec fn tool_complaint(tool: Tool, status: ToolStatus) -> Option<Seq<char>> {
    match status {
        ToolStatus::Working => None,
        ToolStatus::Broken => Some(tool_name(tool) + " is installed but not working correctly"@),
        ToolStatus::Missing => Some(tool_name(tool)),
        ToolStatus::Unavailable(reason) => Some(tool_name(tool) + ": "@ + reason@),
    }
}

/// The first thing that is wrong for an operation, if anything is: the key
/// comes before the tools, the downloader before the converter, the converter
/// before the prober.
pub open spec fn first_complaint(operation: Operation, env: Environment) -> Option<LyttErrorKind> {
    match operation {
        Operation::Search => None,
        Operation::Ask => match key_complaint(env.api_key) {
            Some(m) => Some(LyttErrorKind::Config(m)),
            None => None,
        },
        Operation::Transcribe => match key_complaint(env.api_key) {
            Some(m) => Some(LyttErrorKind::Config(m)),
            None => match tool_complaint(Tool::YtDlp, env.yt_dlp) {
                Some(m) => Some(LyttErrorKind::ToolNotFound(m)),
                None => match tool_complaint(Tool::Ffmpeg, env.ffmpeg) {
                    Some(m) => Some(LyttErrorKind::ToolNotFound(m)),
                    None => match tool_complaint(Tool::Ffprobe, env.ffprobe) {
                        Some(m) => Some(LyttErrorKind::ToolNotFound(m)),
                        None => None,
                    },
                },
            },
        },
    }
}

/// The two kinds of error that a check gives, with their detail.
pub enum LyttErrorKind {
    Config(Seq<char>),
    ToolNotFound(Seq<char>),
}

/// Whether an error is of the kind and detail given.
pub open spec fn is_error(e: LyttError, kind: LyttErrorKind) -> bool {
    match kind {
        LyttErrorKind::Config(m) => e matches LyttError::Config(d) && d@ == m,
        LyttErrorKind::ToolNotFound(m) => e matches LyttError::ToolNotFound(d) && d@ == m,
    }
}

/// How a tool is asked for its version.
pub fn version_arg(tool: Tool) -> (out: String)
    ensures
        out@ == (match tool {
            Tool::YtDlp => "--version"@,
            _ => "-version"@,
        }),
{
    match tool {
        Tool::YtDlp => string_of("--version"),
        _ => string_of("-version"),
    }
}

fn check_api_key(key: &Option<String>) -> (r: Result<(), LyttError>)
    ensures
        match key_complaint(*key) {
            Some(m) => r matches Err(LyttError::Config(d)) && d@ == m,
            None => r is Ok,
        },
{
    match key {
        Some(k) => {
            if !k.as_str().is_empty() {
                Ok(())
            } else {
                Err(
                    LyttError::Config(
                        string_of(
                            "OPENAI_API_KEY is empty. Set it with: export OPENAI_API_KEY='sk-...'",
                        ),
                    ),
                )
            }
        },
        None => Err(
            LyttError::Config(
                string_of("OPENAI_API_KEY not set. Set it with: export OPENAI_API_KEY='sk-...'"),
            ),
        ),
    }
}

fn check_tool(tool: Tool, status: &ToolStatus) -> (r: Result<(), LyttError>)
    ensures
        match tool_complaint(tool, *status) {
            Some(m) => r matches Err(LyttError::ToolNotFound(d)) && d@ == m,
            None => r is Ok,
        },
{
    match status {
        ToolStatus::Working => Ok(()),
        ToolStatus::Broken => {
            let mut m: Vec<char> = Vec::new();
            append_str(&mut m, tool.name().as_str());
            append_str(&mut m, " is installed but not working correctly");
            Err(LyttError::ToolNotFound(from_chars(&m)))
        },
        ToolStatus::Missing => Err(LyttError::ToolNotFound(tool.name())),
        ToolStatus::Unavailable(reason) => {
            let mut m: Vec<char> = Vec::new();
            append_str(&mut m, tool.name().as_str());
            append_str(&mut m, ": ");
            append_str(&mut m, reason.as_str());
            Err(LyttError::ToolNotFound(from_chars(&m)))
        },
    }
}

/// Checks that what an operation needs is in place, and names the first
/// thing that is not.
pub fn check(operation: Operation, env: &Environment) -> (r: Result<(), LyttError>)
    ensures
        match first_complaint(operation, *env) {
            Some(kind) => r matches Err(e) && is_error(e, kind),
            None => r is Ok,
        },
{
    match operation {
        Operation::Transcribe => {
            match check_api_key(&env.api_key) {
                Err(e) => {
                    return Err(e);
                },
                Ok(_) => {},
            }
            match check_tool(Tool::YtDlp, &env.yt_dlp) {
                Err(e) => {
                    return Err(e);
                },
                Ok(_) => {},
            }
            match check_tool(Tool::Ffmpeg, &env.ffmpeg) {
                Err(e) => {
                    return Err(e);
                },
                Ok(_) => {},
            }
            check_tool(Tool::Ffprobe, &env.ffprobe)
        },
        Operation::Ask => check_api_key(&env.api_key),
        Operation::Search => Ok(()),
    }
}

} // verus!
