//! What the transcribe command is asked to do, read from its flags.

use crate::decimal::{decimal, push_decimal};
use crate::text::{append_str, from_chars, string_of};
use crate::transcription::format::OutputFormat;
use vstd::prelude::*;

verus! {

/// What the command does with its input.
#[derive(Debug, Clone, Copy, PartialEq, Eq)]
pub enum TranscribeMode {
    /// Transcribe and index every video of a playlist or channel.
    Playlist,
    /// Transcribe one media and write the transcript out, without indexing.
    ToFile,
    /// Transcribe one media and index it.
    Index,
}

/// Flags that do not go together: what the user is shown, and what the
/// command fails with.
#[derive(Debug, Clone)]
pub struct FlagError {
    pub shown: String,
    pub returned: String,
}

/// What is wrong with the flags, if anything: what is shown and what is
/// returned. Embeddings need passages; passages and embeddings need a file
/// to go to; a playlist goes to no file.
pub open spec fn flag_complaint(chunk: bool, embed: bool, has_output: bool, playlist: bool) -> Option<
    (Seq<char>, Seq<char>),
> {
    if embed && !chunk {
        Some(("--embed requires --chunk flag"@, "--embed requires --chunk"@))
    } else if (chunk || embed) && !has_output {
        Some(("--chunk and --embed require --output flag"@, "--chunk/--embed require --output"@))
    } else if playlist && has_output {
        Some(
            (
                "--playlist cannot be combined with --output"@,
                "--playlist cannot be combined with --output"@,
            ),
        )
    } else {
        None
    }
}

/// What the command does where its flags go together.
pub open spec fn mode_of(has_output: bool, playlist: bool) -> TranscribeMode {
    if playlist {
        TranscribeMode::Playlist
    } else if has_output {
        TranscribeMode::ToFile
    } else {
        TranscribeMode::Index
    }
}

/// Reads the flags of the command.
pub fn plan_transcribe(chunk: bool, embed: bool, has_output: bool, playlist: bool) -> (r: Result<
    TranscribeMode,
    FlagError,
>)
    ensures
        match flag_complaint(chunk, embed, has_output, playlist) {
            Some(c) => r matches Err(e) && e.shown@ == c.0 && e.returned@ == c.1,
            None => r == Ok::<TranscribeMode, FlagError>(mode_of(has_output, playlist)),
        },
{
    if embed && !chunk {
        Err(
            FlagError {
                shown: string_of("--embed requires --chunk flag"),
                returned: string_of("--embed requires --chunk"),
            },
        )
    } else if (chunk || embed) && !has_output {
        Err(
            FlagError {
                shown: string_of("--chunk and --embed require --output flag"),
                returned: string_of("--chunk/--embed require --output"),
            },
        )
    } else if playlist && has_output {
        Err(
            FlagError {
                shown: string_of("--playlist cannot be combined with --output"),
                returned: string_of("--playlist cannot be combined with --output"),
            },
        )
    } else if playlist {
        Ok(TranscribeMode::Playlist)
    } else if has_output {
        Ok(TranscribeMode::ToFile)
    } else {
        Ok(TranscribeMode::Index)
    }
}

/// Whether passages can be written in the format: only as JSON.
pub fn chunks_fit(chunk: bool, format: OutputFormat) -> (b: bool)
    ensures
        b == (!chunk || format == OutputFormat::Json),
{
    !chunk || matches!(format, OutputFormat::Json)
}

/// What is said once a file is written.
pub open spec fn saved_text(path: Seq<char>, chunk: bool, embed: bool, chunks: nat, segments: nat) -> Seq<
    char,
> {
    if embed {
        "Saved "@ + decimal(chunks) + " chunks with embeddings to "@ + path
    } else if chunk {
        "Saved "@ + decimal(chunks) + " chunks to "@ + path
    } else {
        "Transcript saved to "@ + path + " ("@ + decimal(segments) + " segments)"@
    }
}

/// What is said once a file is written: how many passages it holds, or how
/// many segments where it holds the transcript as it is.
pub fn saved_message(path: &str, chunk: bool, embed: bool, chunks: usize, segments: usize) -> (out:
    String)
    ensures
        out@ == saved_text(path@, chunk, embed, chunks as nat, segments as nat),
{
    let mut m: Vec<char> = Vec::new();
    if embed {
        append_str(&mut m, "Saved ");
        push_decimal(&mut m, chunks as u64);
        append_str(&mut m, " chunks with embeddings to ");
        append_str(&mut m, path);
    } else if chunk {
        append_str(&mut m, "Saved ");
        push_decimal(&mut m, chunks as u64);
        append_str(&mut m, " chunks to ");
        append_str(&mut m, path);
    } else {
        append_str(&mut m, "Transcript saved to ");
        append_str(&mut m, path);
        append_str(&mut m, " (");
        push_decimal(&mut m, segments as u64);
        append_str(&mut m, " segments)");
    }
    from_chars(&m)
}

} // verus!
