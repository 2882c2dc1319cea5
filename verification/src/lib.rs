//! Inventory, summaries and cleanup decisions for locally stored
//! conversation transcripts.

pub mod batch;
pub mod cascade;
pub mod conversation;
pub mod flags;
pub mod frame;
pub mod lexical;
pub mod names;
pub mod ranking;
pub mod scan;
pub mod selector;
pub mod text;
pub mod timestamp;
pub mod transcript;
pub mod workspace;
