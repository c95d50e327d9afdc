//! The settings of the application, with their defaults.

use crate::config::prompts::Variables;
use crate::text::{append_str, from_chars, lowercase_of, str_eq, string_of, to_lowercase};
use vstd::prelude::*;

verus! {

/// Where data and temporary files go, and how much is logged.
#[derive(Debug, Clone)]
pub struct GeneralSettings {
    pub data_dir: String,
    pub temp_dir: String,
    pub log_level: String,
}

/// Who transcribes.
#[derive(Debug, Clone, Copy, PartialEq, Eq)]
pub enum TranscriptionProvider {
    /// One model, which gives words with times.
    Whisper,
    /// Two models, fused: one gives the times, the other the text.
    Fusion,
}

/// The models of the transcription pipeline.
#[derive(Debug, Clone)]
pub struct TranscriptionProcessingSettings {
    pub timestamp_model: String,
    /// The model for the text; without one, the text is that of the words.
    pub text_model: Option<String>,
    pub cleanup_model: String,
    pub max_concurrent: usize,
}

#[derive(Debug, Clone)]
pub struct TranscriptionSettings {
    pub provider: TranscriptionProvider,
    pub model: String,
    pub chunk_duration_seconds: u32,
    pub max_duration_seconds: u32,
    pub max_concurrent_chunks: usize,
    pub processing: TranscriptionProcessingSettings,
}

#[derive(Debug, Clone)]
pub struct EmbeddingSettings {
    pub provider: String,
    pub model: String,
    pub dimensions: u32,
}

#[derive(Debug, Clone)]
pub struct ChunkingSettings {
    pub strategy: String,
    pub target_chunk_seconds: u32,
    pub min_chunk_seconds: u32,
    pub max_chunk_seconds: u32,
    pub model: String,
}

#[derive(Debug, Clone)]
pub struct VectorStoreSettings {
    pub provider: String,
    pub sqlite_path: String,
}

#[derive(Debug, Clone)]
pub struct YoutubeSettings {
    pub api_key: Option<String>,
}

#[derive(Debug, Clone)]
pub struct RagSettings {
    pub enabled: bool,
    pub model: String,
    pub max_context_chunks: u32,
    pub include_timestamps: bool,
}

#[derive(Debug, Clone)]
pub struct PromptSettings {
    pub custom_dir: Option<String>,
    pub variables: Variables,
}

/// All settings.
#[derive(Debug, Clone)]
pub struct Settings {
    pub general: GeneralSettings,
    pub transcription: TranscriptionSettings,
    pub embedding: EmbeddingSettings,
    pub chunking: ChunkingSettings,
    pub vector_store: VectorStoreSettings,
    pub youtube: YoutubeSettings,
    pub rag: RagSettings,
    pub prompts: PromptSettings,
}

/// Whether a path starts at the home directory: it is `~`, or starts with
/// `~` and a separator.
pub open spec fn names_home(path: Seq<char>) -> bool {
    path.len() >= 1 && path[0] == '~' && (path.len() == 1 || path[1] == '/' || path[1] == '\\')
}

/// What holds of a path once it is expanded: one that does not start at the
/// home directory is unchanged; of one that does, what follows the `~` stays
/// at the end, whatever the home directory is.
pub open spec fn expanded(path: Seq<char>, out: Seq<char>) -> bool {
    if names_home(path) {
        path.skip(1).is_suffix_of(out)
    } else {
        out == path
    }
}

/// `shellexpand::tilde`: a path that does not start with `~`, or that has
/// anything but a separator behind the `~`, comes back as it is; else the
/// `~` is replaced by the home directory of whoever runs the process, or
/// stays where there is none.
#[verifier::external_body]
fn expand_tilde(path: &str) -> (out: String)
    ensures
        expanded(path@, out@),
{
    shellexpand::tilde(path).to_string()
}

impl Default for GeneralSettings {
    fn default() -> (s: GeneralSettings)
        ensures
            s.data_dir@ == "~/.lytt"@,
            s.temp_dir@ == "/tmp/lytt"@,
            s.log_level@ == "info"@,
    {
        GeneralSettings {
            data_dir: string_of("~/.lytt"),
            temp_dir: string_of("/tmp/lytt"),
            log_level: string_of("info"),
        }
    }
}

impl Default for TranscriptionProvider {
    fn default() -> (p: TranscriptionProvider)
        ensures
            p == TranscriptionProvider::Whisper,
    {
        TranscriptionProvider::Whisper
    }
}

impl TranscriptionProvider {
    /// The provider that a word names, whatever its case: `whisper` or
    /// `openai`, or `fusion`.
    pub fn parse(s: &str) -> (r: Result<TranscriptionProvider, String>)
        ensures
            lowercase_of(s@) == "whisper"@ || lowercase_of(s@) == "openai"@ ==> r == Ok::<
                TranscriptionProvider,
                String,
            >(TranscriptionProvider::Whisper),
            lowercase_of(s@) == "fusion"@ ==> r == Ok::<TranscriptionProvider, String>(
                TranscriptionProvider::Fusion,
            ),
            lowercase_of(s@) != "whisper"@ && lowercase_of(s@) != "openai"@ && lowercase_of(s@)
                != "fusion"@ ==> (r matches Err(m) && m@ == "Unknown transcription provider: "@
                + s@),
    {
        let lower = to_lowercase(s);
        proof {
            reveal_strlit("whisper");
            reveal_strlit("openai");
            reveal_strlit("fusion");
            assert("fusion"@[0] == 'f' && "openai"@[0] == 'o');
            assert("fusion"@.len() == 6 && "whisper"@.len() == 7);
        }
        if str_eq(lower.as_str(), "whisper") || str_eq(lower.as_str(), "openai") {
            Ok(TranscriptionProvider::Whisper)
        } else if str_eq(lower.as_str(), "fusion") {
            Ok(TranscriptionProvider::Fusion)
        } else {
            let mut m: Vec<char> = Vec::new();
            append_str(&mut m, "Unknown transcription provider: ");
            append_str(&mut m, s);
            Err(from_chars(&m))
        }
    }

    /// The name of the provider.
    pub fn to_string(&self) -> (out: String)
        ensures
            out@ == (match self {
                TranscriptionProvider::Whisper => "whisper"@,
                TranscriptionProvider::Fusion => "fusion"@,
            }),
    {
        match self {
            TranscriptionProvider::Whisper => string_of("whisper"),
            TranscriptionProvider::Fusion => string_of("fusion"),
        }
    }
}

/// The provider that a word in lower case names, if it names one.
pub open spec fn provider_named(word: Seq<char>) -> Option<TranscriptionProvider> {
    if word == "whisper"@ || word == "openai"@ {
        Some(TranscriptionProvider::Whisper)
    } else if word == "fusion"@ {
        Some(TranscriptionProvider::Fusion)
    } else {
        None
    }
}

impl std::str::FromStr for TranscriptionProvider {
    type Err = String;

    fn from_str(s: &str) -> (r: Result<TranscriptionProvider, String>)
        ensures
            match provider_named(lowercase_of(s@)) {
                Some(provider) => r == Ok::<TranscriptionProvider, String>(provider),
                None => r matches Err(m) && m@ == "Unknown transcription provider: "@ + s@,
            },
    {
        TranscriptionProvider::parse(s)
    }
}

impl Default for TranscriptionProcessingSettings {
    fn default() -> (s: TranscriptionProcessingSettings)
        ensures
            s.timestamp_model@ == "whisper-1"@,
            s.text_model matches Some(m) && m@ == "gpt-4o-transcribe"@,
            s.cleanup_model@ == "gpt-4.1"@,
            s.max_concurrent == 2,
    {
        TranscriptionProcessingSettings {
            timestamp_model: string_of("whisper-1"),
            text_model: Some(string_of("gpt-4o-transcribe")),
            cleanup_model: string_of("gpt-4.1"),
            max_concurrent: 2,
        }
    }
}

impl TranscriptionProcessingSettings {
    /// Whether a model for the text is named.
    pub fn has_text_model(&self) -> (b: bool)
        ensures
            b == (self.text_model matches Some(m) && m@.len() > 0),
    {
        match &self.text_model {
            Some(m) => !m.as_str().is_empty(),
            None => false,
        }
    }
}

impl Default for TranscriptionSettings {
    fn default() -> (s: TranscriptionSettings)
        ensures
            s.provider == TranscriptionProvider::Whisper,
            s.model@ == "whisper-1"@,
            s.chunk_duration_seconds == 120,
            s.max_duration_seconds == 7200,
            s.max_concurrent_chunks == 3,
            s.processing.max_concurrent == 2,
    {
        TranscriptionSettings {
            provider: TranscriptionProvider::Whisper,
            model: string_of("whisper-1"),
            chunk_duration_seconds: 120,
            max_duration_seconds: 7200,
            max_concurrent_chunks: 3,
            processing: TranscriptionProcessingSettings::default(),
        }
    }
}

impl Default for EmbeddingSettings {
    fn default() -> (s: EmbeddingSettings)
        ensures
            s.provider@ == "openai"@,
            s.model@ == "text-embedding-3-small"@,
            s.dimensions == 1536,
    {
        EmbeddingSettings {
            provider: string_of("openai"),
            model: string_of("text-embedding-3-small"),
            dimensions: 1536,
        }
    }
}

impl Default for ChunkingSettings {
    fn default() -> (s: ChunkingSettings)
        ensures
            s.strategy@ == "semantic"@,
            s.target_chunk_seconds == 180,
            s.min_chunk_seconds == 60,
            s.max_chunk_seconds == 600,
            s.model@ == "gpt-4o-mini"@,
    {
        ChunkingSettings {
            strategy: string_of("semantic"),
            target_chunk_seconds: 180,
            min_chunk_seconds: 60,
            max_chunk_seconds: 600,
            model: string_of("gpt-4o-mini"),
        }
    }
}

impl Default for VectorStoreSettings {
    fn default() -> (s: VectorStoreSettings)
        ensures
            s.provider@ == "sqlite"@,
            s.sqlite_path@ == "~/.lytt/vectors.db"@,
    {
        VectorStoreSettings {
            provider: string_of("sqlite"),
            sqlite_path: string_of("~/.lytt/vectors.db"),
        }
    }
}

impl Default for YoutubeSettings {
    fn default() -> (s: YoutubeSettings)
        ensures
            s.api_key is None,
    {
        YoutubeSettings { api_key: None }
    }
}

impl Default for RagSettings {
    fn default() -> (s: RagSettings)
        ensures
            s.enabled,
            s.model@ == "gpt-4o-mini"@,
            s.max_context_chunks == 10,
            s.include_timestamps,
    {
        RagSettings {
            enabled: true,
            model: string_of("gpt-4o-mini"),
            max_context_chunks: 10,
            include_timestamps: true,
        }
    }
}

impl Default for PromptSettings {
    fn default() -> (s: PromptSettings)
        ensures
            s.custom_dir is None,
            s.variables@.len() == 0,
    {
        PromptSettings { custom_dir: None, variables: Variables::new() }
    }
}

impl Default for Settings {
    fn default() -> (s: Settings)
        ensures
            s.general.data_dir@ == "~/.lytt"@,
            s.general.temp_dir@ == "/tmp/lytt"@,
            s.transcription.provider == TranscriptionProvider::Whisper,
            s.transcription.max_duration_seconds == 7200,
            s.embedding.dimensions == 1536,
            s.chunking.strategy@ == "semantic"@,
            s.chunking.target_chunk_seconds == 180,
            s.chunking.min_chunk_seconds == 60,
            s.chunking.max_chunk_seconds == 600,
            s.vector_store.sqlite_path@ == "~/.lytt/vectors.db"@,
            s.rag.max_context_chunks == 10,
            s.prompts.variables@.len() == 0,
    {
        Settings {
            general: GeneralSettings::default(),
            transcription: TranscriptionSettings::default(),
            embedding: EmbeddingSettings::default(),
            chunking: ChunkingSettings::default(),
            vector_store: VectorStoreSettings::default(),
            youtube: YoutubeSettings::default(),
            rag: RagSettings::default(),
            prompts: PromptSettings::default(),
        }
    }
}

impl Settings {
    /// A path with a leading `~` replaced by the home directory.
    pub fn expand_path(path: &str) -> (out: String)
        ensures
            expanded(path@, out@),
    {
        expand_tilde(path)
    }

    /// The directory for data, expanded.
    pub fn data_dir(&self) -> (out: String)
        ensures
            expanded(self.general.data_dir@, out@),
    {
        expand_tilde(self.general.data_dir.as_str())
    }

    /// The directory for temporary files, expanded.
    pub fn temp_dir(&self) -> (out: String)
        ensures
            expanded(self.general.temp_dir@, out@),
    {
        expand_tilde(self.general.temp_dir.as_str())
    }

    /// The path of the database, expanded.
    pub fn sqlite_path(&self) -> (out: String)
        ensures
            expanded(self.vector_store.sqlite_path@, out@),
    {
        expand_tilde(self.vector_store.sqlite_path.as_str())
    }
}

} // verus!
