//! Resolution of a streaming-video manifest behind a web page, and a verified
//! plan for reassembling the video from its byte-addressed segments.
//!
//! The pipeline has four stages, each a pure computation over the bytes that
//! the caller fetched: extracting the configuration URL embedded in an HTML
//! page, following the configuration document to the manifest URL, decoding
//! the manifest into variant streams, and planning the segment downloads with
//! an exact byte-count integrity check.

use vstd::prelude::*;

pub mod b64;
pub mod config;
pub mod download;
pub mod json;
pub mod keys;
pub mod manifest;
pub mod page;
pub mod textnum;
pub mod urlres;

verus! {

/// The failure taxonomy of the whole pipeline.
///
/// `Transport` and `Io` are constructed by the caller that performs network
/// and file I/O; the pure stages here produce only `NotFound`,
/// `InvalidFormat` and `Integrity`.
#[derive(Clone, Copy, Debug, PartialEq, Eq, Structural)]
pub enum Error {
    /// A network-level failure (connection, timeout, non-success status).
    Transport,
    /// An expected structural marker was absent from a document.
    NotFound,
    /// A document parsed as its container format but a required field was
    /// absent, of the wrong shape, or an encoded payload failed to decode.
    InvalidFormat,
    /// A downloaded segment's byte count differed from its declared size.
    Integrity { expected: u64, observed: u64 },
    /// Failure to create or write the output resource.
    Io,
}

} // verus!
