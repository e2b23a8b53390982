//! A verified link-resolution engine for changelog-style documents.
//!
//! The library scans a document for textual references (issue/PR numbers,
//! contributor handles, commit hashes), derives a candidate URL for each,
//! resolves the URL through a bounded-retry existence check with a per-run
//! cache, and rewrites resolved references into markdown links. All text
//! handling, caching and retry decisions are verified; the actual HTTP
//! probing is performed by the caller, which feeds probe outcomes back in.
//!
//! - [`pattern`] defines the reference shapes, their candidate URLs and
//!   their markdown replacements.
//! - [`engine`] runs the ordered scan-and-substitute passes and the whole
//!   pipeline, including the fail-fast validation of the repository's base
//!   URL.
//! - [`retry`], [`cache`] and [`resolver`] govern when a URL is probed
//!   again, when a cached outcome is reused, and when a resolution is
//!   terminal.
//! - [`laws`] proves the engine-wide properties: rewritten references are
//!   complete markdown links, links are never scanned inside, a text with no
//!   fresh reference is a fixed point, and a URL resolved once is never
//!   probed again in the same run.

pub mod bytes;
pub mod cache;
pub mod engine;
pub mod laws;
pub mod outcome;
pub mod pattern;
pub mod resolver;
pub mod retry;
