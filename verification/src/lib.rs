//! Authoring of language-learning exercises.
//!
//! The crate holds the data model of an exercise collection, the prompt-driven
//! entry session that builds new exercises from a user's answers, the rule by
//! which newly authored exercises join the ones already stored, and the reading
//! of the command line of the tool that does all this.

pub mod cli;
pub mod entry;
pub mod exercise;
pub mod store;
pub mod text;
