//! Embeddings: how texts are handed to a provider in batches, and how its
//! answers are put together.

pub mod openai;

pub use openai::{OpenAIEmbedder, ProviderEmbedding};
