//! vouch: closed-loop review of git diffs.
//!
//! The library holds the verified logic: the unified-diff parser, the grouping of
//! raw hunks into semantic units, the review queue and its key handling, the
//! feedback texts sent back to the author of a change, and the small decisions
//! that the command-line program makes around its subprocesses.

pub mod cache;
pub mod cmux;
pub mod diff_input;
pub mod display;
pub mod feedback;
pub mod llm;
pub mod models;
pub mod parser;
pub mod pipeline;
pub mod review;
pub mod text;
