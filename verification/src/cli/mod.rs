//! What the command line decides before it prints: checks, hints and the
//! shortening of texts.

pub mod commands;
pub mod output;
pub mod preflight;
