//! The commands that decide something of their own.

pub mod chat;
pub mod doctor;
pub mod export;
pub mod init;
pub mod transcribe;

pub use doctor::{CheckResult, CheckStatus, Platform};
