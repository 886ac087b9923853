//! Decision logic for fetching a subtree of files from a repository hosting
//! service: classifying directory listings, walking the tree depth first,
//! retrying downloads, and planning the writes of a streaming walk.
//!
//! The library performs no I/O. A walk is a state machine: it names the next
//! request, the caller performs it and hands back what the remote answered.
//!
//! - [`json`]: JSON documents, read and queried through `serde_json`.
//! - [`entry`]: what an entry descriptor stands for, and what a listing
//!   response holds.
//! - [`file`]: fetched files and where they go on disk.
//! - [`model`]: a walk as a mathematical state machine.
//! - [`walk`]: the walk that a driver runs, and how one is started.
//! - [`outcome`]: what a walk comes to when it is run against a remote.
//! - [`tree`]: remote directory trees and the files that a walk of one returns.

pub mod entry;
pub mod file;
pub mod json;
pub mod model;
pub mod outcome;
pub mod tree;
pub mod walk;

pub use entry::{classify, decode_listing, listing_from, DirectoryEntry, Listing};
pub use file::{wrapped_first, Files, GhfcFile, PlannedWrite};
pub use model::MAX_ATTEMPTS;
pub use walk::{fetch, fetch_dir, speedrun, Action, Event, Walk, WalkError, USER_AGENT};
