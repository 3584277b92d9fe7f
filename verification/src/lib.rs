//! Catalog tracking for a video channel: link extraction, the data model,
//! and the synchronisation rules between a remote feed and a local store.

pub mod catalog;
pub mod date;
pub mod duration;
pub mod flags;
pub mod grid;
pub mod model;
pub mod pass;
pub mod sorting;
pub mod sync;
pub mod seqs;
pub mod setup;
pub mod text;
