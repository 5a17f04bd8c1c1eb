//! The decisions of an HTTP header filter for conditional requests.
//!
//! The filter compares `If-Modified-Since`, `If-Unmodified-Since`, `If-Match`
//! and `If-None-Match` of a request against the `Last-Modified` time and the
//! `ETag` of its response, and turns a `200 OK` into `304 Not Modified` or asks
//! for `412 Precondition Failed` where the conditions call for it.

pub mod chain;
pub mod etag;
pub mod etag_laws;
pub mod etag_meaning;
pub mod filter;
pub mod filter_laws;
pub mod filter_meaning;
pub mod request;
