//! Paginated video-site search: extraction of typed result records from
//! the embedded data blob of a result page, merging of concurrently
//! fetched pages, and a line-oriented selection protocol over the merged
//! records.
//!
//! The record model lives in [`records`], page extraction in [`extract`]
//! over the document model of [`jsondata`], the coordinator's pure half in
//! [`search`], and the selection protocol in [`select`]; [`numerals`] and
//! [`scan`] hold the character-level groundwork they share.

pub mod extract;
pub mod jsondata;
pub mod numerals;
pub mod records;
pub mod scan;
pub mod search;
pub mod select;
