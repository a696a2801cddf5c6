//! The four source variants and the polymorphic contract that unifies
//! them: identify their rows in the store, bind new rows to themselves,
//! expose and stage their watermark, decide the boundary policy, and
//! turn a remote feed into the stream a refresh cycle consumes.

use vstd::prelude::*;

use crate::feed::{pages_spec, scan_pages, stream_spec, take_check, take_spec, RemoteFeed};
use crate::kinds::{CollectionKind, ErrorKind, SourceKey, SourceVariant};
use crate::video::{VideoBuilder, VideoInfo};

verus! {

/// The watch-later queue is a singleton; its rows are keyed by this id.
pub const WATCH_LATER_ID: i64 = 1;

/// A first-class selection predicate over persisted video rows: it holds
/// of exactly the rows that back-reference one source.
#[derive(Clone, Copy, PartialEq, Eq, Structural, Debug)]
pub struct FilterExpr {
    pub key: SourceKey,
}

impl FilterExpr {
    /// Whether a row with this back-reference belongs to the source.
    pub open spec fn selects(self, variant: SourceVariant, source_id: i64) -> bool {
        self.key.variant == variant && self.key.id == source_id
    }

    pub fn matches(&self, variant: SourceVariant, source_id: i64) -> (b: bool)
        ensures
            b == self.selects(variant, source_id),
    {
        self.key.variant == variant && self.key.id == source_id
    }
}

/// One line of observable progress, named after the pipeline phase it
/// marks and the source it concerns.
#[derive(Clone, Copy, PartialEq, Eq, Structural, Debug)]
pub enum LogEvent {
    RefreshStart(SourceKey),
    RefreshEnd(SourceKey, usize),
    RefreshFatal(SourceKey, ErrorKind),
    FetchStart(SourceKey),
    FetchEnd(SourceKey),
    DownloadStart(SourceKey),
    DownloadEnd(SourceKey),
}

/// A staged watermark advancement.  Each variant persists to its own
/// table, so the pending update is a tagged per-variant record; the
/// orchestrator commits it through [`_ActiveModel::save`] without
/// knowing the variant.
#[derive(Clone, Copy, PartialEq, Eq, Structural, Debug)]
pub enum _ActiveModel {
    Favorite { fid: i64, latest_row_at: i64 },
    Collection { sid: i64, latest_row_at: i64 },
    Submission { upper_id: i64, latest_row_at: i64 },
    WatchLater { id: i64, latest_row_at: i64 },
}

impl _ActiveModel {
    /// Which source the staged update targets.
    pub open spec fn target(self) -> SourceKey {
        match self {
            _ActiveModel::Favorite { fid, .. } => SourceKey {
                variant: SourceVariant::Favorite,
                id: fid,
            },
            _ActiveModel::Collection { sid, .. } => SourceKey {
                variant: SourceVariant::Collection,
                id: sid,
            },
            _ActiveModel::Submission { upper_id, .. } => SourceKey {
                variant: SourceVariant::Submission,
                id: upper_id,
            },
            _ActiveModel::WatchLater { id, .. } => SourceKey {
                variant: SourceVariant::WatchLater,
                id: id,
            },
        }
    }

    /// The watermark value the staged update carries.
    pub open spec fn staged_at(self) -> i64 {
        match self {
            _ActiveModel::Favorite { latest_row_at, .. } => latest_row_at,
            _ActiveModel::Collection { latest_row_at, .. } => latest_row_at,
            _ActiveModel::Submission { latest_row_at, .. } => latest_row_at,
            _ActiveModel::WatchLater { latest_row_at, .. } => latest_row_at,
        }
    }
}

/// What a fallible stream item turns into before persistence: the
/// default sieve passes parsed videos through and drops errors.
pub open spec fn filter_spec(item: Result<VideoInfo, ErrorKind>) -> Option<VideoInfo> {
    match item {
        Ok(v) => Some(v),
        Err(_) => None,
    }
}

/// Shared body of [`VideoSource::should_filter`] for every variant that
/// keeps the default sieve.
fn default_should_filter(video_info: Result<VideoInfo, ErrorKind>) -> (o: Option<VideoInfo>)
    ensures
        o == filter_spec(video_info),
{
    match video_info {
        Ok(v) => Some(v),
        Err(_) => None,
    }
}

/// One configured favorite list.
pub struct Favorite {
    pub fid: i64,
    pub name: String,
    pub path: String,
    pub latest_row_at: i64,
}

/// One configured collection: a series or season owned by a creator.
pub struct Collection {
    pub sid: i64,
    pub mid: i64,
    pub kind: CollectionKind,
    pub path: String,
    pub latest_row_at: i64,
}

/// The uploads of one creator.
pub struct Submission {
    pub upper_id: i64,
    pub path: String,
    pub latest_row_at: i64,
}

/// The viewer's watch-later queue.  The queue re-orders on the watermark
/// boundary, so its boundary policy is inclusive and it leans on the
/// store's uniqueness for dedup.
pub struct WatchLater {
    pub path: String,
    pub latest_row_at: i64,
}

/// The capability set every source variant offers the orchestrator.
pub trait VideoSource: Sized {
    /// The identity of this source: variant plus identifier.
    spec fn key_spec(&self) -> SourceKey;

    /// The watermark as last persisted, snapshotted into the descriptor.
    spec fn watermark_spec(&self) -> i64;

    /// The configured download path.
    spec fn path_spec(&self) -> String;

    /// The boundary policy of [`Self::should_take`].
    spec fn inclusive_spec(&self) -> bool;

    /// This source wrapped for uniform dispatch.
    spec fn wrapped(self) -> VideoSourceEnum;

    /// The selection predicate for the video rows of this source.
    fn filter_expr(&self) -> (e: FilterExpr)
        ensures
            e.key == self.key_spec(),
    ;

    /// Bind a row under construction to this source; every other field
    /// of the builder is left alone.
    fn set_relation_id(&self, video_model: &mut VideoBuilder)
        ensures
            final(video_model).relation == Some(self.key_spec()),
            final(video_model).aid == old(video_model).aid,
            final(video_model).title == old(video_model).title,
            final(video_model).release_ts == old(video_model).release_ts,
            final(video_model).path == old(video_model).path,
            final(video_model).created_at == old(video_model).created_at,
            final(video_model).state == old(video_model).state,
    ;

    /// The path downloads of this source land under; stable for the
    /// whole cycle.
    fn path(&self) -> (p: &String)
        ensures
            *p == self.path_spec(),
    ;

    /// The watermark this descriptor was loaded with.
    fn get_latest_row_at(&self) -> (t: i64)
        ensures
            t == self.watermark_spec(),
    ;

    /// Stage `datetime` as the new watermark of this source.  The staged
    /// update only takes effect once committed through
    /// [`_ActiveModel::save`].
    fn update_latest_row_at(&self, datetime: i64) -> (m: _ActiveModel)
        ensures
            m.target() == self.key_spec(),
            m.staged_at() == datetime,
    ;

    /// The cheap early cutoff during pagination: is an item with this
    /// release timestamp still worth taking against the watermark?
    fn should_take(&self, release_ts: i64, latest_row_at: i64) -> (b: bool)
        ensures
            b == take_spec(release_ts, latest_row_at, self.inclusive_spec()),
    ;

    /// The second-stage sieve on fully populated metadata.
    fn should_filter(&self, video_info: Result<VideoInfo, ErrorKind>, _latest_row_at: i64) -> (o:
        Option<VideoInfo>)
        ensures
            o == filter_spec(video_info),
    ;

    fn log_refresh_video_start(&self) -> (e: LogEvent)
        ensures
            e == LogEvent::RefreshStart(self.key_spec()),
    ;

    fn log_refresh_video_end(&self, count: usize) -> (e: LogEvent)
        ensures
            e == LogEvent::RefreshEnd(self.key_spec(), count),
    ;

    fn log_fetch_video_start(&self) -> (e: LogEvent)
        ensures
            e == LogEvent::FetchStart(self.key_spec()),
    ;

    fn log_fetch_video_end(&self) -> (e: LogEvent)
        ensures
            e == LogEvent::FetchEnd(self.key_spec()),
    ;

    fn log_download_video_start(&self) -> (e: LogEvent)
        ensures
            e == LogEvent::DownloadStart(self.key_spec()),
    ;

    fn log_download_video_end(&self) -> (e: LogEvent)
        ensures
            e == LogEvent::DownloadEnd(self.key_spec()),
    ;

    /// Page the remote feed of this source, newest first, and yield the
    /// stream of new items: everything up to the first video at or below
    /// the watermark.  The second component is the stream, the third the
    /// number of pages fetched; the short-circuit keeps it minimal.
    fn refresh(self, feed: &RemoteFeed) -> (r: (
        VideoSourceEnum,
        Vec<Result<VideoInfo, ErrorKind>>,
        usize,
    ))
        ensures
            r.0 == self.wrapped(),
            r.1@ == stream_spec(feed.pages@, self.watermark_spec(), self.inclusive_spec()),
            r.2 as int == pages_spec(feed.pages@, self.watermark_spec(), self.inclusive_spec()),
            r.2 <= feed.pages.len(),
    ;
}

/// Uniform static dispatch over the four source variants.
pub enum VideoSourceEnum {
    Favorite(Favorite),
    Collection(Collection),
    Submission(Submission),
    WatchLater(WatchLater),
}

impl VideoSource for Favorite {
    open spec fn key_spec(&self) -> SourceKey {
        SourceKey { variant: SourceVariant::Favorite, id: self.fid }
    }

    open spec fn watermark_spec(&self) -> i64 {
        self.latest_row_at
    }

    open spec fn path_spec(&self) -> String {
        self.path
    }

    open spec fn inclusive_spec(&self) -> bool {
        false
    }

    open spec fn wrapped(self) -> VideoSourceEnum {
        VideoSourceEnum::Favorite(self)
    }

    fn filter_expr(&self) -> (e: FilterExpr) {
        FilterExpr { key: SourceKey { variant: SourceVariant::Favorite, id: self.fid } }
    }

    fn set_relation_id(&self, video_model: &mut VideoBuilder) {
        video_model.relation = Some(
            SourceKey { variant: SourceVariant::Favorite, id: self.fid },
        );
    }

    fn path(&self) -> (p: &String) {
        &self.path
    }

    fn get_latest_row_at(&self) -> (t: i64) {
        self.latest_row_at
    }

    fn update_latest_row_at(&self, datetime: i64) -> (m: _ActiveModel) {
        _ActiveModel::Favorite { fid: self.fid, latest_row_at: datetime }
    }

    fn should_take(&self, release_ts: i64, latest_row_at: i64) -> (b: bool) {
        take_check(release_ts, latest_row_at, false)
    }

    fn should_filter(&self, video_info: Result<VideoInfo, ErrorKind>, _latest_row_at: i64) -> (o:
        Option<VideoInfo>) {
        default_should_filter(video_info)
    }

    fn log_refresh_video_start(&self) -> (e: LogEvent) {
        LogEvent::RefreshStart(SourceKey { variant: SourceVariant::Favorite, id: self.fid })
    }

    fn log_refresh_video_end(&self, count: usize) -> (e: LogEvent) {
        LogEvent::RefreshEnd(SourceKey { variant: SourceVariant::Favorite, id: self.fid }, count)
    }

    fn log_fetch_video_start(&self) -> (e: LogEvent) {
        LogEvent::FetchStart(SourceKey { variant: SourceVariant::Favorite, id: self.fid })
    }

    fn log_fetch_video_end(&self) -> (e: LogEvent) {
        LogEvent::FetchEnd(SourceKey { variant: SourceVariant::Favorite, id: self.fid })
    }

    fn log_download_video_start(&self) -> (e: LogEvent) {
        LogEvent::DownloadStart(SourceKey { variant: SourceVariant::Favorite, id: self.fid })
    }

    fn log_download_video_end(&self) -> (e: LogEvent) {
        LogEvent::DownloadEnd(SourceKey { variant: SourceVariant::Favorite, id: self.fid })
    }

    fn refresh(self, feed: &RemoteFeed) -> (r: (
        VideoSourceEnum,
        Vec<Result<VideoInfo, ErrorKind>>,
        usize,
    )) {
        let (stream, fetched) = scan_pages(&feed.pages, 0, self.latest_row_at, false);
        (VideoSourceEnum::Favorite(self), stream, fetched)
    }
}

impl VideoSource for Collection {
    open spec fn key_spec(&self) -> SourceKey {
        SourceKey { variant: SourceVariant::Collection, id: self.sid }
    }

    open spec fn watermark_spec(&self) -> i64 {
        self.latest_row_at
    }

    open spec fn path_spec(&self) -> String {
        self.path
    }

    open spec fn inclusive_spec(&self) -> bool {
        false
    }

    open spec fn wrapped(self) -> VideoSourceEnum {
        VideoSourceEnum::Collection(self)
    }

    fn filter_expr(&self) -> (e: FilterExpr) {
        FilterExpr { key: SourceKey { variant: SourceVariant::Collection, id: self.sid } }
    }

    fn set_relation_id(&self, video_model: &mut VideoBuilder) {
        video_model.relation = Some(
            SourceKey { variant: SourceVariant::Collection, id: self.sid },
        );
    }

    fn path(&self) -> (p: &String) {
        &self.path
    }

    fn get_latest_row_at(&self) -> (t: i64) {
        self.latest_row_at
    }

    fn update_latest_row_at(&self, datetime: i64) -> (m: _ActiveModel) {
        _ActiveModel::Collection { sid: self.sid, latest_row_at: datetime }
    }

    fn should_take(&self, release_ts: i64, latest_row_at: i64) -> (b: bool) {
        take_check(release_ts, latest_row_at, false)
    }

    fn should_filter(&self, video_info: Result<VideoInfo, ErrorKind>, _latest_row_at: i64) -> (o:
        Option<VideoInfo>) {
        default_should_filter(video_info)
    }

    fn log_refresh_video_start(&self) -> (e: LogEvent) {
        LogEvent::RefreshStart(SourceKey { variant: SourceVariant::Collection, id: self.sid })
    }

    fn log_refresh_video_end(&self, count: usize) -> (e: LogEvent) {
        LogEvent::RefreshEnd(SourceKey { variant: SourceVariant::Collection, id: self.sid }, count)
    }

    fn log_fetch_video_start(&self) -> (e: LogEvent) {
        LogEvent::FetchStart(SourceKey { variant: SourceVariant::Collection, id: self.sid })
    }

    fn log_fetch_video_end(&self) -> (e: LogEvent) {
        LogEvent::FetchEnd(SourceKey { variant: SourceVariant::Collection, id: self.sid })
    }

    fn log_download_video_start(&self) -> (e: LogEvent) {
        LogEvent::DownloadStart(SourceKey { variant: SourceVariant::Collection, id: self.sid })
    }

    fn log_download_video_end(&self) -> (e: LogEvent) {
        LogEvent::DownloadEnd(SourceKey { variant: SourceVariant::Collection, id: self.sid })
    }

    fn refresh(self, feed: &RemoteFeed) -> (r: (
        VideoSourceEnum,
        Vec<Result<VideoInfo, ErrorKind>>,
        usize,
    )) {
        let (stream, fetched) = scan_pages(&feed.pages, 0, self.latest_row_at, false);
        (VideoSourceEnum::Collection(self), stream, fetched)
    }
}

impl VideoSource for Submission {
    open spec fn key_spec(&self) -> SourceKey {
        SourceKey { variant: SourceVariant::Submission, id: self.upper_id }
    }

    open spec fn watermark_spec(&self) -> i64 {
        self.latest_row_at
    }

    open spec fn path_spec(&self) -> String {
        self.path
    }

    open spec fn inclusive_spec(&self) -> bool {
        false
    }

    open spec fn wrapped(self) -> VideoSourceEnum {
        VideoSourceEnum::Submission(self)
    }

    fn filter_expr(&self) -> (e: FilterExpr) {
        FilterExpr { key: SourceKey { variant: SourceVariant::Submission, id: self.upper_id } }
    }

    fn set_relation_id(&self, video_model: &mut VideoBuilder) {
        video_model.relation = Some(
            SourceKey { variant: SourceVariant::Submission, id: self.upper_id },
        );
    }

    fn path(&self) -> (p: &String) {
        &self.path
    }

    fn get_latest_row_at(&self) -> (t: i64) {
        self.latest_row_at
    }

    fn update_latest_row_at(&self, datetime: i64) -> (m: _ActiveModel) {
        _ActiveModel::Submission { upper_id: self.upper_id, latest_row_at: datetime }
    }

    fn should_take(&self, release_ts: i64, latest_row_at: i64) -> (b: bool) {
        take_check(release_ts, latest_row_at, false)
    }

    fn should_filter(&self, video_info: Result<VideoInfo, ErrorKind>, _latest_row_at: i64) -> (o:
        Option<VideoInfo>) {
        default_should_filter(video_info)
    }

    fn log_refresh_video_start(&self) -> (e: LogEvent) {
        LogEvent::RefreshStart(SourceKey { variant: SourceVariant::Submission, id: self.upper_id })
    }

    fn log_refresh_video_end(&self, count: usize) -> (e: LogEvent) {
        LogEvent::RefreshEnd(
            SourceKey { variant: SourceVariant::Submission, id: self.upper_id },
            count,
        )
    }

    fn log_fetch_video_start(&self) -> (e: LogEvent) {
        LogEvent::FetchStart(SourceKey { variant: SourceVariant::Submission, id: self.upper_id })
    }

    fn log_fetch_video_end(&self) -> (e: LogEvent) {
        LogEvent::FetchEnd(SourceKey { variant: SourceVariant::Submission, id: self.upper_id })
    }

    fn log_download_video_start(&self) -> (e: LogEvent) {
        LogEvent::DownloadStart(SourceKey { variant: SourceVariant::Submission, id: self.upper_id })
    }

    fn log_download_video_end(&self) -> (e: LogEvent) {
        LogEvent::DownloadEnd(SourceKey { variant: SourceVariant::Submission, id: self.upper_id })
    }

    fn refresh(self, feed: &RemoteFeed) -> (r: (
        VideoSourceEnum,
        Vec<Result<VideoInfo, ErrorKind>>,
        usize,
    )) {
        let (stream, fetched) = scan_pages(&feed.pages, 0, self.latest_row_at, false);
        (VideoSourceEnum::Submission(self), stream, fetched)
    }
}

impl VideoSource for WatchLater {
    open spec fn key_spec(&self) -> SourceKey {
        SourceKey { variant: SourceVariant::WatchLater, id: WATCH_LATER_ID }
    }

    open spec fn watermark_spec(&self) -> i64 {
        self.latest_row_at
    }

    open spec fn path_spec(&self) -> String {
        self.path
    }

    open spec fn inclusive_spec(&self) -> bool {
        true
    }

    open spec fn wrapped(self) -> VideoSourceEnum {
        VideoSourceEnum::WatchLater(self)
    }

    fn filter_expr(&self) -> (e: FilterExpr) {
        FilterExpr { key: SourceKey { variant: SourceVariant::WatchLater, id: WATCH_LATER_ID } }
    }

    fn set_relation_id(&self, video_model: &mut VideoBuilder) {
        video_model.relation = Some(
            SourceKey { variant: SourceVariant::WatchLater, id: WATCH_LATER_ID },
        );
    }

    fn path(&self) -> (p: &String) {
        &self.path
    }

    fn get_latest_row_at(&self) -> (t: i64) {
        self.latest_row_at
    }

    fn update_latest_row_at(&self, datetime: i64) -> (m: _ActiveModel) {
        _ActiveModel::WatchLater { id: WATCH_LATER_ID, latest_row_at: datetime }
    }

    fn should_take(&self, release_ts: i64, latest_row_at: i64) -> (b: bool) {
        take_check(release_ts, latest_row_at, true)
    }

    fn should_filter(&self, video_info: Result<VideoInfo, ErrorKind>, _latest_row_at: i64) -> (o:
        Option<VideoInfo>) {
        default_should_filter(video_info)
    }

    fn log_refresh_video_start(&self) -> (e: LogEvent) {
        LogEvent::RefreshStart(SourceKey { variant: SourceVariant::WatchLater, id: WATCH_LATER_ID })
    }

    fn log_refresh_video_end(&self, count: usize) -> (e: LogEvent) {
        LogEvent::RefreshEnd(
            SourceKey { variant: SourceVariant::WatchLater, id: WATCH_LATER_ID },
            count,
        )
    }

    fn log_fetch_video_start(&self) -> (e: LogEvent) {
        LogEvent::FetchStart(SourceKey { variant: SourceVariant::WatchLater, id: WATCH_LATER_ID })
    }

    fn log_fetch_video_end(&self) -> (e: LogEvent) {
        LogEvent::FetchEnd(SourceKey { variant: SourceVariant::WatchLater, id: WATCH_LATER_ID })
    }

    fn log_download_video_start(&self) -> (e: LogEvent) {
        LogEvent::DownloadStart(
            SourceKey { variant: SourceVariant::WatchLater, id: WATCH_LATER_ID },
        )
    }

    fn log_download_video_end(&self) -> (e: LogEvent) {
        LogEvent::DownloadEnd(SourceKey { variant: SourceVariant::WatchLater, id: WATCH_LATER_ID })
    }

    fn refresh(self, feed: &RemoteFeed) -> (r: (
        VideoSourceEnum,
        Vec<Result<VideoInfo, ErrorKind>>,
        usize,
    )) {
        let (stream, fetched) = scan_pages(&feed.pages, 0, self.latest_row_at, true);
        (VideoSourceEnum::WatchLater(self), stream, fetched)
    }
}

impl VideoSource for VideoSourceEnum {
    open spec fn key_spec(&self) -> SourceKey {
        match self {
            VideoSourceEnum::Favorite(s) => s.key_spec(),
            VideoSourceEnum::Collection(s) => s.key_spec(),
            VideoSourceEnum::Submission(s) => s.key_spec(),
            VideoSourceEnum::WatchLater(s) => s.key_spec(),
        }
    }

    open spec fn watermark_spec(&self) -> i64 {
        match self {
            VideoSourceEnum::Favorite(s) => s.watermark_spec(),
            VideoSourceEnum::Collection(s) => s.watermark_spec(),
            VideoSourceEnum::Submission(s) => s.watermark_spec(),
            VideoSourceEnum::WatchLater(s) => s.watermark_spec(),
        }
    }

    open spec fn path_spec(&self) -> String {
        match self {
            VideoSourceEnum::Favorite(s) => s.path_spec(),
            VideoSourceEnum::Collection(s) => s.path_spec(),
            VideoSourceEnum::Submission(s) => s.path_spec(),
            VideoSourceEnum::WatchLater(s) => s.path_spec(),
        }
    }

    open spec fn inclusive_spec(&self) -> bool {
        match self {
            VideoSourceEnum::Favorite(s) => s.inclusive_spec(),
            VideoSourceEnum::Collection(s) => s.inclusive_spec(),
            VideoSourceEnum::Submission(s) => s.inclusive_spec(),
            VideoSourceEnum::WatchLater(s) => s.inclusive_spec(),
        }
    }

    open spec fn wrapped(self) -> VideoSourceEnum {
        self
    }

    fn filter_expr(&self) -> (e: FilterExpr) {
        match self {
            VideoSourceEnum::Favorite(s) => s.filter_expr(),
            VideoSourceEnum::Collection(s) => s.filter_expr(),
            VideoSourceEnum::Submission(s) => s.filter_expr(),
            VideoSourceEnum::WatchLater(s) => s.filter_expr(),
        }
    }

    fn set_relation_id(&self, video_model: &mut VideoBuilder) {
        match self {
            VideoSourceEnum::Favorite(s) => s.set_relation_id(video_model),
            VideoSourceEnum::Collection(s) => s.set_relation_id(video_model),
            VideoSourceEnum::Submission(s) => s.set_relation_id(video_model),
            VideoSourceEnum::WatchLater(s) => s.set_relation_id(video_model),
        }
    }

    fn path(&self) -> (p: &String) {
        match self {
            VideoSourceEnum::Favorite(s) => s.path(),
            VideoSourceEnum::Collection(s) => s.path(),
            VideoSourceEnum::Submission(s) => s.path(),
            VideoSourceEnum::WatchLater(s) => s.path(),
        }
    }

    fn get_latest_row_at(&self) -> (t: i64) {
        match self {
            VideoSourceEnum::Favorite(s) => s.get_latest_row_at(),
            VideoSourceEnum::Collection(s) => s.get_latest_row_at(),
            VideoSourceEnum::Submission(s) => s.get_latest_row_at(),
            VideoSourceEnum::WatchLater(s) => s.get_latest_row_at(),
        }
    }

    fn update_latest_row_at(&self, datetime: i64) -> (m: _ActiveModel) {
        match self {
            VideoSourceEnum::Favorite(s) => s.update_latest_row_at(datetime),
            VideoSourceEnum::Collection(s) => s.update_latest_row_at(datetime),
            VideoSourceEnum::Submission(s) => s.update_latest_row_at(datetime),
            VideoSourceEnum::WatchLater(s) => s.update_latest_row_at(datetime),
        }
    }

    fn should_take(&self, release_ts: i64, latest_row_at: i64) -> (b: bool) {
        match self {
            VideoSourceEnum::Favorite(s) => s.should_take(release_ts, latest_row_at),
            VideoSourceEnum::Collection(s) => s.should_take(release_ts, latest_row_at),
            VideoSourceEnum::Submission(s) => s.should_take(release_ts, latest_row_at),
            VideoSourceEnum::WatchLater(s) => s.should_take(release_ts, latest_row_at),
        }
    }

    fn should_filter(&self, video_info: Result<VideoInfo, ErrorKind>, _latest_row_at: i64) -> (o:
        Option<VideoInfo>) {
        match self {
            VideoSourceEnum::Favorite(s) => s.should_filter(video_info, _latest_row_at),
            VideoSourceEnum::Collection(s) => s.should_filter(video_info, _latest_row_at),
            VideoSourceEnum::Submission(s) => s.should_filter(video_info, _latest_row_at),
            VideoSourceEnum::WatchLater(s) => s.should_filter(video_info, _latest_row_at),
        }
    }

    fn log_refresh_video_start(&self) -> (e: LogEvent) {
        match self {
            VideoSourceEnum::Favorite(s) => s.log_refresh_video_start(),
            VideoSourceEnum::Collection(s) => s.log_refresh_video_start(),
            VideoSourceEnum::Submission(s) => s.log_refresh_video_start(),
            VideoSourceEnum::WatchLater(s) => s.log_refresh_video_start(),
        }
    }

    fn log_refresh_video_end(&self, count: usize) -> (e: LogEvent) {
        match self {
            VideoSourceEnum::Favorite(s) => s.log_refresh_video_end(count),
            VideoSourceEnum::Collection(s) => s.log_refresh_video_end(count),
            VideoSourceEnum::Submission(s) => s.log_refresh_video_end(count),
            VideoSourceEnum::WatchLater(s) => s.log_refresh_video_end(count),
        }
    }

    fn log_fetch_video_start(&self) -> (e: LogEvent) {
        match self {
            VideoSourceEnum::Favorite(s) => s.log_fetch_video_start(),
            VideoSourceEnum::Collection(s) => s.log_fetch_video_start(),
            VideoSourceEnum::Submission(s) => s.log_fetch_video_start(),
            VideoSourceEnum::WatchLater(s) => s.log_fetch_video_start(),
        }
    }

    fn log_fetch_video_end(&self) -> (e: LogEvent) {
        match self {
            VideoSourceEnum::Favorite(s) => s.log_fetch_video_end(),
            VideoSourceEnum::Collection(s) => s.log_fetch_video_end(),
            VideoSourceEnum::Submission(s) => s.log_fetch_video_end(),
            VideoSourceEnum::WatchLater(s) => s.log_fetch_video_end(),
        }
    }

    fn log_download_video_start(&self) -> (e: LogEvent) {
        match self {
            VideoSourceEnum::Favorite(s) => s.log_download_video_start(),
            VideoSourceEnum::Collection(s) => s.log_download_video_start(),
            VideoSourceEnum::Submission(s) => s.log_download_video_start(),
            VideoSourceEnum::WatchLater(s) => s.log_download_video_start(),
        }
    }

    fn log_download_video_end(&self) -> (e: LogEvent) {
        match self {
            VideoSourceEnum::Favorite(s) => s.log_download_video_end(),
            VideoSourceEnum::Collection(s) => s.log_download_video_end(),
            VideoSourceEnum::Submission(s) => s.log_download_video_end(),
            VideoSourceEnum::WatchLater(s) => s.log_download_video_end(),
        }
    }

    fn refresh(self, feed: &RemoteFeed) -> (r: (
        VideoSourceEnum,
        Vec<Result<VideoInfo, ErrorKind>>,
        usize,
    )) {
        match self {
            VideoSourceEnum::Favorite(s) => s.refresh(feed),
            VideoSourceEnum::Collection(s) => s.refresh(feed),
            VideoSourceEnum::Submission(s) => s.refresh(feed),
            VideoSourceEnum::WatchLater(s) => s.refresh(feed),
        }
    }
}

} // verus!
