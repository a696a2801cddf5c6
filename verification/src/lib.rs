//! Incremental refresh pipeline for a video synchronization engine.
//!
//! Four kinds of remote video sources (favorite lists, collections, a
//! creator's submissions, the watch-later queue) are unified behind one
//! streaming / filtering / persistence contract.  Each source carries a
//! watermark: the newest release timestamp already ingested.  A refresh
//! cycle pages the remote feed newest-first, stops at the first item at or
//! below the watermark, persists what is new, and advances the watermark
//! only after the stream finished without a fatal error.

pub mod kinds;
pub mod video;
pub mod feed;
pub mod source;
pub mod store;
pub mod cycle;
pub(crate) mod clock;
pub mod laws;
