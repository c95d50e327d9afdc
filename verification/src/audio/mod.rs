//! The tools that fetch and cut audio: what they are asked, and what is made
//! of their answers.

pub mod downloader;

pub use downloader::{plan_split, SegmentPlan, SplitPlan, Tool};
