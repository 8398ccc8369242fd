//! Catalog enumeration and download bookkeeping for a purchased-media collection.
//!
//! The crate holds the decisions of a collection downloader: how pages of a
//! catalog are merged, where an item is stored, how a response is turned into
//! a file name, when an existing file is kept, and how outcomes are counted.
//! Transport, storage and presentation are left to the caller.

pub mod api;
pub mod cookies;
pub mod dict;
pub mod http;
pub mod orchestrate;
pub mod paths;
pub mod progress;
pub mod text;
