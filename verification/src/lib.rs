//! Verified core of a concurrent downloader for Netease Cloud Music.
//!
//! The library holds the decisions of the downloader: how song lists are
//! merged, how request URLs and file names are formed, how a resumed session
//! reconciles its stored configuration with the command line, which tag edits
//! a downloaded track receives, and the per-song retry state machine.
//! Network, disk and terminal work is left to the program that drives it.

pub mod text;
pub mod args;
pub mod utils;
pub mod config;
pub mod api;
pub mod metadata;
pub mod download;
