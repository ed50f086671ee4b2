//! Decision logic of a two-stage media pipeline: a batch of downloads driven by a
//! list of links, then a batch of side-by-side stereoscopic conversions.
//!
//! The external tools themselves are run by the application around this library;
//! here live the link-list decoding, the command lines, the progress-line scanners
//! with their throttling rules, the skip and mode rules of the converter, and the
//! per-batch tally.
pub mod batch;
pub mod convert;
pub mod links;
pub mod progress;
pub mod text;
