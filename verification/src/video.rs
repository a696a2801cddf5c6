//! The transient metadatum yielded while listing a source, the persisted
//! row derived from it, and the builder that bridges the two.

use vstd::prelude::*;

use crate::kinds::{DownloadState, SourceKey, SourceVariant};

verus! {

/// In-memory metadatum produced while paging a source: the identifying
/// subset of a persisted row plus the raw fields needed to persist it.
pub struct VideoInfo {
    /// Platform-wide numeric id of the video.
    pub aid: i64,
    pub title: String,
    /// Release timestamp, the authoritative ordering key.
    pub release_ts: i64,
}

/// The persisted row for one remote video, owned by exactly one source.
pub struct VideoRecord {
    pub variant: SourceVariant,
    pub source_id: i64,
    pub aid: i64,
    pub title: String,
    pub release_ts: i64,
    /// Local relative path under which the download lands.
    pub path: String,
    /// Ingestion timestamp: when the refresh cycle first saw the video.
    pub created_at: i64,
    pub state: DownloadState,
}

impl VideoRecord {
    /// The composite key on which the store is unique.
    pub open spec fn key(self) -> (SourceVariant, i64, i64) {
        (self.variant, self.source_id, self.aid)
    }
}

/// A video row under construction: all payload fields are fixed up front,
/// the owning source is bound afterwards through
/// [`crate::source::VideoSource::set_relation_id`].
pub struct VideoBuilder {
    /// Back-reference to the owning source; `None` until bound.
    pub relation: Option<SourceKey>,
    pub aid: i64,
    pub title: String,
    pub release_ts: i64,
    pub path: String,
    pub created_at: i64,
    pub state: DownloadState,
}

impl VideoBuilder {
    /// Start a row for a freshly listed video, discovered `now`, landing
    /// under `path`.
    pub fn from_info(info: VideoInfo, path: String, now: i64) -> (b: VideoBuilder)
        ensures
            b.relation is None,
            b.aid == info.aid,
            b.title == info.title,
            b.release_ts == info.release_ts,
            b.path == path,
            b.created_at == now,
            b.state == DownloadState::Discovered,
    {
        VideoBuilder {
            relation: None,
            aid: info.aid,
            title: info.title,
            release_ts: info.release_ts,
            path,
            created_at: now,
            state: DownloadState::Discovered,
        }
    }

    /// Finish the row.  The caller must have bound the owning source
    /// first; the refresh cycle always does so before building.
    pub fn build(self) -> (r: VideoRecord)
        requires
            self.relation is Some,
        ensures
            r.variant == self.relation.unwrap().variant,
            r.source_id == self.relation.unwrap().id,
            r.aid == self.aid,
            r.title == self.title,
            r.release_ts == self.release_ts,
            r.path == self.path,
            r.created_at == self.created_at,
            r.state == self.state,
    {
        let key = match self.relation {
            Some(k) => k,
            None => unreached(),
        };
        VideoRecord {
            variant: key.variant,
            source_id: key.id,
            aid: self.aid,
            title: self.title,
            release_ts: self.release_ts,
            path: self.path,
            created_at: self.created_at,
            state: self.state,
        }
    }
}

} // verus!
