//! Scanning a collection of e-books for duplicate and foreign-language copies.
//!
//! The library holds the decisions of the scan: how a creator name is
//! normalised, how a record's fingerprint is formed, which copy of a work is
//! retained, when the language gate samples a book's pages, how paths are
//! batched and which tag a scanned file gets.
pub mod dedup;
pub mod language;
pub mod metadata;
pub mod scan;
pub mod text;
