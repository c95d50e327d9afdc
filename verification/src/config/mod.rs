//! Settings and prompts.

pub mod prompts;
pub mod settings;

pub use prompts::{ChunkingPrompts, CleanupPrompts, Prompts, RagPrompts, Variables};
pub use settings::{
    ChunkingSettings, EmbeddingSettings, GeneralSettings, PromptSettings, RagSettings, Settings,
    TranscriptionProcessingSettings, TranscriptionProvider, TranscriptionSettings,
    VectorStoreSettings, YoutubeSettings,
};
