//! Discovery and download planning for course document assets.
//!
//! The library scans a raw metadata buffer for identifier pairs, drives a
//! bounded-concurrency resolution of those pairs into asset URLs, and plans
//! the concurrent download of the resolved assets. All I/O is left to the
//! caller: the functions here work on plain byte buffers and strings, and
//! every one of them carries a verified contract.

pub mod download;
pub mod extract;
pub mod protocol;
pub mod query_string;
pub mod resolve;
pub mod scan;
