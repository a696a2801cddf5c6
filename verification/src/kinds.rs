//! Small copy types shared across the pipeline: source identity, the
//! download-state of a persisted video, and the platform error taxonomy.

use vstd::prelude::*;

verus! {

/// Discriminant of the four source variants.
#[derive(Clone, Copy, PartialEq, Eq, Structural, Debug)]
pub enum SourceVariant {
    Favorite,
    Collection,
    Submission,
    WatchLater,
}

/// The two shapes a remote collection can have.
#[derive(Clone, Copy, PartialEq, Eq, Structural, Debug)]
pub enum CollectionKind {
    Series,
    Season,
}

/// Identity of one configured source: its variant together with the
/// identifier that is unique within that variant.
#[derive(Clone, Copy, PartialEq, Eq, Structural, Debug)]
pub struct SourceKey {
    pub variant: SourceVariant,
    pub id: i64,
}

/// Lifecycle of a persisted video row; a freshly discovered row starts at
/// `Discovered` and is moved on by the downloader, which is outside the
/// refresh pipeline.
#[derive(Clone, Copy, PartialEq, Eq, Structural, Debug)]
pub enum DownloadState {
    Discovered,
    MetadataFetched,
    Downloading,
    Complete,
    Failed,
}

/// Categorized errors surfaced by the platform client.
#[derive(Clone, Copy, PartialEq, Eq, Structural, Debug)]
pub enum ErrorKind {
    Auth,
    RateLimited,
    NetworkTransient,
    NotFound,
    MalformedResponse,
}

impl ErrorKind {
    /// A fatal error ends the refresh of its source and keeps the
    /// watermark where it was; every other kind is an item-level error
    /// that the stream simply carries past.
    pub open spec fn is_fatal_spec(self) -> bool {
        self == ErrorKind::Auth || self == ErrorKind::NotFound
    }

    pub fn is_fatal(&self) -> (b: bool)
        ensures
            b == self.is_fatal_spec(),
    {
        matches!(self, ErrorKind::Auth | ErrorKind::NotFound)
    }
}

} // verus!
