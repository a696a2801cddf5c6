//! The refresh orchestrator: drive one source's adapter, persist what
//! the stream yields, and advance the watermark only after the stream
//! finished without a fatal error.
//!
//! The cycle is deliberately step-wise.  [`cycle_start`] snapshots the
//! watermark, [`process_item`] handles one stream item, and
//! [`finish_cycle`] commits.  A caller that drops the state mid-stream
//! models cancellation or a crash: nothing is rolled back, the watermark
//! stays put, and the next cycle recovers through the store's unique
//! key.  [`run_cycle`] drives a whole cycle over a remote feed.

use vstd::prelude::*;

use crate::feed::{clone_item, lemma_stream_taken, pages_spec, stream_spec, take_spec, RemoteFeed};
use crate::kinds::{DownloadState, ErrorKind, SourceKey, SourceVariant};
use crate::source::{LogEvent, VideoSource, VideoSourceEnum};
use crate::store::Database;
use crate::video::{VideoBuilder, VideoInfo, VideoRecord};

verus! {

/// Running state of one source's refresh cycle.
#[derive(Clone, Copy, PartialEq, Eq, Structural, Debug)]
pub struct CycleState {
    /// The watermark snapshotted when the cycle started.
    pub watermark: i64,
    /// The largest release timestamp seen at rest so far; starts at the
    /// watermark.
    pub max_seen: i64,
    /// How many rows this cycle inserted.
    pub new_count: usize,
    /// The first fatal error the stream carried, if any.
    pub fatal: Option<ErrorKind>,
}

/// What one finished cycle reports.
#[derive(Clone, Copy, PartialEq, Eq, Structural, Debug)]
pub struct CycleReport {
    pub new_count: usize,
    /// The watermark at rest after the cycle.
    pub watermark: i64,
    /// Whether the watermark advanced.
    pub committed: bool,
    pub fatal: Option<ErrorKind>,
    pub pages_fetched: usize,
}

/// Whether a video row with this composite key stands in `videos`.
pub open spec fn has_key(
    videos: Seq<VideoRecord>,
    variant: SourceVariant,
    source_id: i64,
    aid: i64,
) -> bool {
    exists|i: int|
        0 <= i < videos.len() && (#[trigger] videos[i]).key() == (variant, source_id, aid)
}

/// The row a cycle builds for a listed video of a source, discovered
/// `now`.
pub open spec fn record_of(src: VideoSourceEnum, v: VideoInfo, now: i64) -> VideoRecord {
    VideoRecord {
        variant: src.key_spec().variant,
        source_id: src.key_spec().id,
        aid: v.aid,
        title: v.title,
        release_ts: v.release_ts,
        path: src.path_spec(),
        created_at: now,
        state: DownloadState::Discovered,
    }
}

/// How one stream item changes the video table: a parsed video is
/// inserted unless its key is already at rest; an error changes nothing.
pub open spec fn step_videos(
    videos: Seq<VideoRecord>,
    src: VideoSourceEnum,
    now: i64,
    item: Result<VideoInfo, ErrorKind>,
) -> Seq<VideoRecord> {
    match item {
        Ok(v) => {
            if has_key(videos, src.key_spec().variant, src.key_spec().id, v.aid) {
                videos
            } else {
                videos.push(record_of(src, v, now))
            }
        },
        Err(_) => videos,
    }
}

/// How one stream item changes the cycle state: a parsed video raises
/// the running maximum and, when inserted, the new-row count; an error
/// is dropped, remembering the first fatal kind.
pub open spec fn step_cycle(
    st: CycleState,
    videos: Seq<VideoRecord>,
    src: VideoSourceEnum,
    item: Result<VideoInfo, ErrorKind>,
) -> CycleState {
    match item {
        Ok(v) => CycleState {
            watermark: st.watermark,
            max_seen: if v.release_ts > st.max_seen {
                v.release_ts
            } else {
                st.max_seen
            },
            new_count: if has_key(videos, src.key_spec().variant, src.key_spec().id, v.aid) {
                st.new_count
            } else {
                (st.new_count + 1) as usize
            },
            fatal: st.fatal,
        },
        Err(k) => CycleState {
            watermark: st.watermark,
            max_seen: st.max_seen,
            new_count: st.new_count,
            fatal: if st.fatal is None && k.is_fatal_spec() {
                Some(k)
            } else {
                st.fatal
            },
        },
    }
}

/// The video table after the first `n` stream items.
pub open spec fn fold_videos(
    videos: Seq<VideoRecord>,
    src: VideoSourceEnum,
    now: i64,
    stream: Seq<Result<VideoInfo, ErrorKind>>,
    n: int,
) -> Seq<VideoRecord>
    decreases n,
{
    if n <= 0 {
        videos
    } else {
        step_videos(fold_videos(videos, src, now, stream, n - 1), src, now, stream[n - 1])
    }
}

/// The cycle state after the first `n` stream items.
pub open spec fn fold_state(
    st: CycleState,
    videos: Seq<VideoRecord>,
    src: VideoSourceEnum,
    now: i64,
    stream: Seq<Result<VideoInfo, ErrorKind>>,
    n: int,
) -> CycleState
    decreases n,
{
    if n <= 0 {
        st
    } else {
        step_cycle(
            fold_state(st, videos, src, now, stream, n - 1),
            fold_videos(videos, src, now, stream, n - 1),
            src,
            stream[n - 1],
        )
    }
}

/// The state a cycle starts from: both the snapshot and the running
/// maximum sit at the source's watermark.
pub open spec fn init_state(src: VideoSourceEnum) -> CycleState {
    CycleState { watermark: src.watermark_spec(), max_seen: src.watermark_spec(), new_count: 0, fatal: None }
}

/// Snapshot the watermark of a source at the start of its cycle.
pub fn cycle_start(source: &VideoSourceEnum) -> (st: CycleState)
    ensures
        st == init_state(*source),
{
    let w = source.get_latest_row_at();
    CycleState { watermark: w, max_seen: w, new_count: 0, fatal: None }
}

/// Handle one stream item: sieve it, bind it to the source, insert it
/// with dedup, and track the running maximum and the first fatal error.
pub fn process_item(
    state: &mut CycleState,
    source: &VideoSourceEnum,
    item: Result<VideoInfo, ErrorKind>,
    db: &mut Database,
    now: i64,
)
    requires
        old(db).wf(),
        old(state).new_count < usize::MAX,
    ensures
        final(db).wf(),
        final(db).videos@ == step_videos(old(db).videos@, *source, now, item),
        *final(state) == step_cycle(*old(state), old(db).videos@, *source, item),
        final(db).favorites == old(db).favorites,
        final(db).collections == old(db).collections,
        final(db).submissions == old(db).submissions,
        final(db).watch_laters == old(db).watch_laters,
{
    let errk: Option<ErrorKind> = match &item {
        Ok(_) => None,
        Err(k) => Some(*k),
    };
    let filtered = source.should_filter(item, state.watermark);
    match filtered {
        Some(v) => {
            if v.release_ts > state.max_seen {
                state.max_seen = v.release_ts;
            }
            let ghost vv = v;
            let path = source.path().clone();
            let mut builder = VideoBuilder::from_info(v, path, now);
            source.set_relation_id(&mut builder);
            let rec = builder.build();
            proof {
                assert(rec == record_of(*source, vv, now));
            }
            let inserted = db.insert_video(rec);
            if inserted {
                state.new_count += 1;
            }
        },
        None => {
            match errk {
                Some(k) => {
                    if state.fatal.is_none() && k.is_fatal() {
                        state.fatal = Some(k);
                    }
                },
                None => {},
            }
        },
    }
}

/// Whether a finished cycle advances the watermark: the stream carried
/// no fatal error and something newer than the snapshot is at rest.
pub open spec fn commits(st: CycleState) -> bool {
    st.fatal is None && st.max_seen > st.watermark
}

/// The watermark at rest once a cycle with final state `st` finished.
pub open spec fn final_wm(st: CycleState) -> i64 {
    if commits(st) {
        st.max_seen
    } else {
        st.watermark
    }
}

/// Close a cycle: stage and commit the watermark advancement if it is
/// owed, and report.  The new watermark is never below the old one.
pub fn finish_cycle(
    state: CycleState,
    source: &VideoSourceEnum,
    pages_fetched: usize,
    db: &mut Database,
) -> (report: CycleReport)
    requires
        old(db).wf(),
        old(db).source_wm(source.key_spec()) == Some(state.watermark),
    ensures
        final(db).wf(),
        final(db).videos == old(db).videos,
        report == (CycleReport {
            new_count: state.new_count,
            watermark: final_wm(state),
            committed: commits(state),
            fatal: state.fatal,
            pages_fetched: pages_fetched,
        }),
        report.watermark >= state.watermark,
        final(db).source_wm(source.key_spec()) == Some(report.watermark),
        forall|k: SourceKey|
            k != source.key_spec() ==> final(db).source_wm(k) == old(db).source_wm(k),
        forall|k: SourceKey| final(db).source_path(k) == old(db).source_path(k),
        forall|k: SourceKey| final(db).has_source(k) == old(db).has_source(k),
    {
        let advance = match state.fatal {
            None => state.max_seen > state.watermark,
            Some(_) => false,
        };
        if advance {
            let staged = source.update_latest_row_at(state.max_seen);
            let saved = staged.save(db);
            proof {
                assert(saved is Ok);
            }
            CycleReport {
                new_count: state.new_count,
                watermark: state.max_seen,
                committed: true,
                fatal: state.fatal,
                pages_fetched,
            }
        } else {
            CycleReport {
                new_count: state.new_count,
                watermark: state.watermark,
                committed: false,
                fatal: state.fatal,
                pages_fetched,
            }
        }
    }

/// Folding a stream never touches the snapshot and never lowers the
/// running maximum.
pub proof fn lemma_fold_wm(
    st: CycleState,
    videos: Seq<VideoRecord>,
    src: VideoSourceEnum,
    now: i64,
    stream: Seq<Result<VideoInfo, ErrorKind>>,
    n: int,
)
    ensures
        fold_state(st, videos, src, now, stream, n).watermark == st.watermark,
        fold_state(st, videos, src, now, stream, n).max_seen >= st.max_seen,
    decreases n,
{
    if n > 0 {
        lemma_fold_wm(st, videos, src, now, stream, n - 1);
    }
}

/// Whether a row was built from one of the first `n` parsed items of a
/// stream.
pub open spec fn from_stream(
    r: VideoRecord,
    src: VideoSourceEnum,
    now: i64,
    stream: Seq<Result<VideoInfo, ErrorKind>>,
    n: int,
) -> bool {
    exists|m: int|
        0 <= m < n && #[trigger] stream[m] is Ok && r == record_of(src, stream[m]->Ok_0, now)
}

/// Folding a stream keeps every old row in place; every appended row
/// was built from a parsed item of the processed prefix.
pub proof fn lemma_fold_shape(
    videos: Seq<VideoRecord>,
    src: VideoSourceEnum,
    now: i64,
    stream: Seq<Result<VideoInfo, ErrorKind>>,
    n: int,
)
    requires
        0 <= n <= stream.len(),
    ensures
        fold_videos(videos, src, now, stream, n).len() >= videos.len(),
        forall|j: int|
            0 <= j < videos.len() ==> fold_videos(videos, src, now, stream, n)[j] == videos[j],
        forall|j: int|
            videos.len() <= j < fold_videos(videos, src, now, stream, n).len() ==> from_stream(
                #[trigger] fold_videos(videos, src, now, stream, n)[j],
                src,
                now,
                stream,
                n,
            ),
    decreases n,
{
    if n > 0 {
        lemma_fold_shape(videos, src, now, stream, n - 1);
        let prev = fold_videos(videos, src, now, stream, n - 1);
        let cur = fold_videos(videos, src, now, stream, n);
        assert forall|j: int|
            videos.len() <= j < cur.len() implies from_stream(cur[j], src, now, stream, n) by {
            if j < prev.len() {
                assert(from_stream(prev[j], src, now, stream, n - 1));
                let m = choose|m: int|
                    0 <= m < n - 1 && #[trigger] stream[m] is Ok && prev[j] == record_of(
                        src,
                        stream[m]->Ok_0,
                        now,
                    );
                assert(0 <= m < n && stream[m] is Ok && cur[j] == record_of(
                    src,
                    stream[m]->Ok_0,
                    now,
                ));
            } else {
                assert(stream[n - 1] is Ok);
                assert(cur[j] == record_of(src, stream[n - 1]->Ok_0, now));
            }
        }
    }
}

/// Everything one refresh cycle of a source guarantees: how the store
/// after it relates to the store before it, what the report says, and
/// which log trail was emitted.
pub open spec fn cycle_post(
    source: VideoSourceEnum,
    pages: Seq<crate::feed::RemotePage>,
    pre: Database,
    post: Database,
    out: VideoSourceEnum,
    report: CycleReport,
    logs: Seq<LogEvent>,
    now: i64,
) -> bool {
    let w = source.watermark_spec();
    let incl = source.inclusive_spec();
    let key = source.key_spec();
    let stream = stream_spec(pages, w, incl);
    let st = fold_state(init_state(source), pre.videos@, source, now, stream, stream.len() as int);
    &&& post.wf()
    &&& out == source
    &&& post.videos@ == fold_videos(pre.videos@, source, now, stream, stream.len() as int)
    &&& report.new_count == st.new_count
    &&& report.fatal == st.fatal
    &&& report.committed == commits(st)
    &&& report.watermark == final_wm(st)
    &&& report.watermark >= w
    &&& report.pages_fetched as int == pages_spec(pages, w, incl)
    &&& post.source_wm(key) == Some(report.watermark)
    &&& (forall|k: SourceKey| k != key ==> post.source_wm(k) == pre.source_wm(k))
    &&& (forall|k: SourceKey| post.has_source(k) == pre.has_source(k))
    &&& (forall|k: SourceKey| post.source_path(k) == pre.source_path(k))
    &&& post.videos@.len() >= pre.videos@.len()
    &&& (forall|j: int| 0 <= j < pre.videos@.len() ==> post.videos@[j] == pre.videos@[j])
    &&& (forall|j: int|
        pre.videos@.len() <= j < post.videos@.len() ==> {
            &&& take_spec((#[trigger] post.videos@[j]).release_ts, w, incl)
            &&& post.videos@[j].variant == key.variant
            &&& post.videos@[j].source_id == key.id
            &&& post.videos@[j].path == source.path_spec()
            &&& post.videos@[j].created_at == now
            &&& post.videos@[j].state == DownloadState::Discovered
            &&& from_stream(post.videos@[j], source, now, stream, stream.len() as int)
        })
    &&& logs == (match st.fatal {
        Some(k) => seq![
            LogEvent::RefreshStart(key),
            LogEvent::RefreshFatal(key, k),
            LogEvent::RefreshEnd(key, st.new_count),
        ],
        None => seq![LogEvent::RefreshStart(key), LogEvent::RefreshEnd(key, st.new_count)],
    })
}

/// Run one whole refresh cycle of a source against its remote feed:
/// page the feed newest first, sieve and persist the stream, and
/// advance the watermark if the stream finished clean and carried
/// something new.
pub fn run_cycle(source: VideoSourceEnum, feed: &RemoteFeed, db: &mut Database, now: i64) -> (r: (
    VideoSourceEnum,
    CycleReport,
    Vec<LogEvent>,
))
    requires
        old(db).wf(),
        old(db).source_wm(source.key_spec()) == Some(source.watermark_spec()),
    ensures
        cycle_post(source, feed.pages@, *old(db), *final(db), r.0, r.1, r.2@, now),
{
    let mut logs: Vec<LogEvent> = Vec::new();
    logs.push(source.log_refresh_video_start());
    let mut st = cycle_start(&source);
    let (src, stream, pages_fetched) = source.refresh(feed);
    let n = stream.len();
    let mut i: usize = 0;
    while i < n
        invariant
            src == source,
            n == stream.len(),
            stream@ == stream_spec(feed.pages@, source.watermark_spec(), source.inclusive_spec()),
            i <= n,
            db.wf(),
            st.new_count <= i,
            db.videos@ == fold_videos(old(db).videos@, source, now, stream@, i as int),
            st == fold_state(init_state(source), old(db).videos@, source, now, stream@, i as int),
            db.favorites == old(db).favorites,
            db.collections == old(db).collections,
            db.submissions == old(db).submissions,
            db.watch_laters == old(db).watch_laters,
        decreases n - i,
    {
        let item = clone_item(&stream[i]);
        process_item(&mut st, &src, item, db, now);
        i += 1;
    }
    proof {
        assert(db.source_rows(SourceVariant::Favorite) =~= old(db).source_rows(
            SourceVariant::Favorite,
        ));
        assert(db.source_rows(SourceVariant::Collection) =~= old(db).source_rows(
            SourceVariant::Collection,
        ));
        assert(db.source_rows(SourceVariant::Submission) =~= old(db).source_rows(
            SourceVariant::Submission,
        ));
        assert(db.source_rows(SourceVariant::WatchLater) =~= old(db).source_rows(
            SourceVariant::WatchLater,
        ));
        assert forall|v: SourceVariant| #[trigger]
            old(db).source_rows(v) == db.source_rows(v) by {}
        crate::store::lemma_same_sources(*old(db), *db);
        lemma_fold_wm(
            init_state(source),
            old(db).videos@,
            source,
            now,
            stream@,
            n as int,
        );
    }
    match st.fatal {
        Some(k) => {
            let e = src.filter_expr();
            logs.push(LogEvent::RefreshFatal(e.key, k));
        },
        None => {},
    }
    let report = finish_cycle(st, &src, pages_fetched, db);
    logs.push(src.log_refresh_video_end(report.new_count));
    proof {
        let w = source.watermark_spec();
        let incl = source.inclusive_spec();
        lemma_fold_shape(old(db).videos@, source, now, stream@, n as int);
        lemma_stream_taken(feed.pages@, 0, w, incl);
        assert forall|j: int|
            old(db).videos@.len() <= j < db.videos@.len() implies {
            &&& take_spec((#[trigger] db.videos@[j]).release_ts, w, incl)
            &&& db.videos@[j].variant == source.key_spec().variant
            &&& db.videos@[j].source_id == source.key_spec().id
            &&& db.videos@[j].path == source.path_spec()
            &&& db.videos@[j].created_at == now
            &&& db.videos@[j].state == DownloadState::Discovered
            &&& from_stream(db.videos@[j], source, now, stream@, n as int)
        } by {
            assert(from_stream(db.videos@[j], source, now, stream@, n as int));
            let m = choose|m: int|
                0 <= m < n && #[trigger] stream@[m] is Ok && db.videos@[j] == record_of(
                    source,
                    stream@[m]->Ok_0,
                    now,
                );
            assert(stream@[m] is Ok);
            assert(take_spec(stream@[m]->Ok_0.release_ts, w, incl));
        }
        match st.fatal {
            Some(k) => {
                assert(logs@ =~= seq![
                    LogEvent::RefreshStart(source.key_spec()),
                    LogEvent::RefreshFatal(source.key_spec(), k),
                    LogEvent::RefreshEnd(source.key_spec(), st.new_count),
                ]);
            },
            None => {
                assert(logs@ =~= seq![
                    LogEvent::RefreshStart(source.key_spec()),
                    LogEvent::RefreshEnd(source.key_spec(), st.new_count),
                ]);
            },
        }
    }
    (src, report, logs)
}

/// Run one refresh cycle with the ingestion timestamps stamped from the
/// system clock.
pub fn run_cycle_now(source: VideoSourceEnum, feed: &RemoteFeed, db: &mut Database) -> (r: (
    VideoSourceEnum,
    CycleReport,
    Vec<LogEvent>,
))
    requires
        old(db).wf(),
        old(db).source_wm(source.key_spec()) == Some(source.watermark_spec()),
    ensures
        exists|now: i64|
            cycle_post(source, feed.pages@, *old(db), *final(db), r.0, r.1, r.2@, now),
{
    let now = crate::clock::current_timestamp();
    let r = run_cycle(source, feed, db, now);
    proof {
        assert(cycle_post(source, feed.pages@, *old(db), *db, r.0, r.1, r.2@, now));
    }
    r
}

} // verus!
