//! The laws of the refresh pipeline that relate whole cycles: dedup
//! idempotence, short-circuit pagination, and crash recovery.  Each law
//! is a public proof function whose contract states it over the same
//! spec functions the executable contracts use.

use vstd::prelude::*;

use vstd::arithmetic::div_mod::{lemma_fundamental_div_mod, lemma_fundamental_div_mod_converse,
    lemma_mod_pos_bound};

use crate::cycle::{commits, cycle_post, final_wm, fold_state, fold_videos, has_key, init_state,
    lemma_fold_wm, record_of, CycleReport, CycleState};
use crate::feed::{page_stopped_from, page_stream_from, pages_fetched_from, pages_spec,
    stream_from, stream_spec, take_spec, RemoteItem, RemotePage};
use crate::kinds::{ErrorKind, SourceVariant};
use crate::source::{LogEvent, VideoSource, VideoSourceEnum};
use crate::store::Database;
use crate::video::{VideoInfo, VideoRecord};

verus! {

/// How many of the first `n` stream items are parsed videos.
pub open spec fn ok_count(stream: Seq<Result<VideoInfo, ErrorKind>>, n: int) -> int
    decreases n,
{
    if n <= 0 {
        0
    } else {
        ok_count(stream, n - 1) + (if stream[n - 1] is Ok {
            1int
        } else {
            0int
        })
    }
}

/// The largest release timestamp among the first `n` parsed items,
/// floored at `w`.
pub open spec fn max_ok(w: i64, stream: Seq<Result<VideoInfo, ErrorKind>>, n: int) -> i64
    decreases n,
{
    if n <= 0 {
        w
    } else {
        let p = max_ok(w, stream, n - 1);
        match stream[n - 1] {
            Ok(v) => if v.release_ts > p {
                v.release_ts
            } else {
                p
            },
            Err(_) => p,
        }
    }
}

/// Whether a parsed video stands somewhere in a stream.
pub open spec fn ok_in(stream: Seq<Result<VideoInfo, ErrorKind>>, v: VideoInfo) -> bool {
    exists|m: int| 0 <= m < stream.len() && (#[trigger] stream[m]) == Ok::<VideoInfo, ErrorKind>(v)
}

/// Membership in a concatenation is membership in either part.
proof fn lemma_ok_in_concat(
    s1: Seq<Result<VideoInfo, ErrorKind>>,
    s2: Seq<Result<VideoInfo, ErrorKind>>,
    v: VideoInfo,
)
    ensures
        ok_in(s1 + s2, v) == (ok_in(s1, v) || ok_in(s2, v)),
{
    if ok_in(s1, v) {
        let m = choose|m: int|
            0 <= m < s1.len() && (#[trigger] s1[m]) == Ok::<VideoInfo, ErrorKind>(v);
        assert(((s1 + s2)[m]) == Ok::<VideoInfo, ErrorKind>(v));
    }
    if ok_in(s2, v) {
        let m = choose|m: int|
            0 <= m < s2.len() && (#[trigger] s2[m]) == Ok::<VideoInfo, ErrorKind>(v);
        assert(((s1 + s2)[s1.len() + m]) == Ok::<VideoInfo, ErrorKind>(v));
    }
    if ok_in(s1 + s2, v) {
        let m = choose|m: int|
            0 <= m < (s1 + s2).len() && (#[trigger] (s1 + s2)[m]) == Ok::<VideoInfo, ErrorKind>(v);
        if m < s1.len() {
            assert(s1[m] == Ok::<VideoInfo, ErrorKind>(v));
        } else {
            assert(s2[m - s1.len()] == Ok::<VideoInfo, ErrorKind>(v));
        }
    }
}

/// Appending a row keeps old keys and adds exactly the new row's key.
proof fn lemma_has_key_push(
    videos: Seq<VideoRecord>,
    r: VideoRecord,
    variant: SourceVariant,
    source_id: i64,
    aid: i64,
)
    ensures
        has_key(videos.push(r), variant, source_id, aid) == (has_key(
            videos,
            variant,
            source_id,
            aid,
        ) || r.key() == (variant, source_id, aid)),
{
    if has_key(videos, variant, source_id, aid) {
        let i = choose|i: int|
            0 <= i < videos.len() && (#[trigger] videos[i]).key() == (variant, source_id, aid);
        assert((videos.push(r)[i]).key() == (variant, source_id, aid));
    }
    if r.key() == (variant, source_id, aid) {
        assert((videos.push(r)[videos.len() as int]).key() == (variant, source_id, aid));
    }
    if has_key(videos.push(r), variant, source_id, aid) {
        let i = choose|i: int|
            0 <= i < videos.push(r).len() && (#[trigger] videos.push(r)[i]).key() == (
                variant,
                source_id,
                aid,
            );
        if i < videos.len() {
            assert(videos[i].key() == (variant, source_id, aid));
        }
    }
}

/// The snapshot, running maximum and fatal outcome of a fold do not
/// depend on the table it runs against.
proof fn lemma_fold_indep(
    st: CycleState,
    v1: Seq<VideoRecord>,
    v2: Seq<VideoRecord>,
    src1: VideoSourceEnum,
    src2: VideoSourceEnum,
    now1: i64,
    now2: i64,
    stream: Seq<Result<VideoInfo, ErrorKind>>,
    n: int,
)
    ensures
        fold_state(st, v1, src1, now1, stream, n).max_seen == fold_state(
            st,
            v2,
            src2,
            now2,
            stream,
            n,
        ).max_seen,
        fold_state(st, v1, src1, now1, stream, n).fatal == fold_state(
            st,
            v2,
            src2,
            now2,
            stream,
            n,
        ).fatal,
    decreases n,
{
    if n > 0 {
        lemma_fold_indep(st, v1, v2, src1, src2, now1, now2, stream, n - 1);
    }
}

/// The running maximum of a fold is the spec maximum of its items.
proof fn lemma_fold_max_eq(
    st: CycleState,
    videos: Seq<VideoRecord>,
    src: VideoSourceEnum,
    now: i64,
    stream: Seq<Result<VideoInfo, ErrorKind>>,
    n: int,
)
    ensures
        fold_state(st, videos, src, now, stream, n).max_seen == max_ok(st.max_seen, stream, n),
    decreases n,
{
    if n > 0 {
        lemma_fold_max_eq(st, videos, src, now, stream, n - 1);
    }
}

/// The spec maximum bounds every parsed item and never drops below the
/// floor.
proof fn lemma_max_ok_bounds(w: i64, stream: Seq<Result<VideoInfo, ErrorKind>>, n: int)
    ensures
        max_ok(w, stream, n) >= w,
        forall|m: int|
            0 <= m < n && #[trigger] stream[m] is Ok ==> stream[m]->Ok_0.release_ts <= max_ok(
                w,
                stream,
                n,
            ),
    decreases n,
{
    if n > 0 {
        lemma_max_ok_bounds(w, stream, n - 1);
    }
}

/// A fold whose stream carries no fatal error ends without one.
proof fn lemma_fold_fatal_none(
    st: CycleState,
    videos: Seq<VideoRecord>,
    src: VideoSourceEnum,
    now: i64,
    stream: Seq<Result<VideoInfo, ErrorKind>>,
    n: int,
)
    requires
        st.fatal is None,
        forall|m: int|
            0 <= m < n && #[trigger] stream[m] is Err ==> !stream[m]->Err_0.is_fatal_spec(),
    ensures
        fold_state(st, videos, src, now, stream, n).fatal is None,
    decreases n,
{
    if n > 0 {
        lemma_fold_fatal_none(st, videos, src, now, stream, n - 1);
    }
}

/// After a fold, every parsed item of the processed prefix has its key
/// at rest.
proof fn lemma_fold_adds(
    videos: Seq<VideoRecord>,
    src: VideoSourceEnum,
    now: i64,
    stream: Seq<Result<VideoInfo, ErrorKind>>,
    n: int,
)
    ensures
        forall|m: int|
            0 <= m < n && #[trigger] stream[m] is Ok ==> has_key(
                fold_videos(videos, src, now, stream, n),
                src.key_spec().variant,
                src.key_spec().id,
                stream[m]->Ok_0.aid,
            ),
    decreases n,
{
    if n > 0 {
        lemma_fold_adds(videos, src, now, stream, n - 1);
        let prev = fold_videos(videos, src, now, stream, n - 1);
        let cur = fold_videos(videos, src, now, stream, n);
        assert forall|m: int|
            0 <= m < n && #[trigger] stream[m] is Ok implies has_key(
            cur,
            src.key_spec().variant,
            src.key_spec().id,
            stream[m]->Ok_0.aid,
        ) by {
            match stream[n - 1] {
                Ok(v) => {
                    if has_key(prev, src.key_spec().variant, src.key_spec().id, v.aid) {
                        if m < n - 1 {
                        } else {
                        }
                    } else {
                        lemma_has_key_push(
                            prev,
                            record_of(src, v, now),
                            src.key_spec().variant,
                            src.key_spec().id,
                            stream[m]->Ok_0.aid,
                        );
                    }
                },
                Err(_) => {},
            }
        }
    }
}

/// A fold whose parsed items are all already at rest changes neither
/// the table nor the new-row count.
proof fn lemma_fold_no_new(
    st: CycleState,
    videos: Seq<VideoRecord>,
    src: VideoSourceEnum,
    now: i64,
    stream: Seq<Result<VideoInfo, ErrorKind>>,
    n: int,
)
    requires
        forall|m: int|
            0 <= m < n && #[trigger] stream[m] is Ok ==> has_key(
                videos,
                src.key_spec().variant,
                src.key_spec().id,
                stream[m]->Ok_0.aid,
            ),
    ensures
        fold_videos(videos, src, now, stream, n) == videos,
        fold_state(st, videos, src, now, stream, n).new_count == st.new_count,
    decreases n,
{
    if n > 0 {
        lemma_fold_no_new(st, videos, src, now, stream, n - 1);
    }
}

/// A page that scans clean against a raised watermark scans clean
/// against a lower one.
proof fn lemma_page_not_stopped(items: Seq<RemoteItem>, from: int, w: i64, w2: i64, incl: bool)
    requires
        w <= w2,
        !page_stopped_from(items, from, w2, incl),
    ensures
        !page_stopped_from(items, from, w, incl),
    decreases items.len() - from,
{
    if from < 0 || from >= items.len() {
    } else {
        lemma_page_not_stopped(items, from + 1, w, w2, incl);
    }
}

/// Every parsed item a page yields against a raised watermark is also
/// yielded against a lower one.
proof fn lemma_page_stream_subset(items: Seq<RemoteItem>, from: int, w: i64, w2: i64, incl: bool)
    requires
        w <= w2,
    ensures
        forall|v: VideoInfo|
            #[trigger] ok_in(page_stream_from(items, from, w2, incl), v) ==> ok_in(
                page_stream_from(items, from, w, incl),
                v,
            ),
    decreases items.len() - from,
{
    if from < 0 || from >= items.len() {
    } else {
        lemma_page_stream_subset(items, from + 1, w, w2, incl);
        let t1 = page_stream_from(items, from + 1, w, incl);
        let t2 = page_stream_from(items, from + 1, w2, incl);
        assert forall|v: VideoInfo|
            #[trigger] ok_in(page_stream_from(items, from, w2, incl), v) implies ok_in(
            page_stream_from(items, from, w, incl),
            v,
        ) by {
            match items[from] {
                RemoteItem::Video(v0) => {
                    if take_spec(v0.release_ts, w2, incl) {
                        lemma_ok_in_concat(seq![Ok(v0)], t2, v);
                        lemma_ok_in_concat(seq![Ok(v0)], t1, v);
                        if v != v0 {
                            assert(!ok_in(seq![Ok::<VideoInfo, ErrorKind>(v0)], v)) by {
                                if ok_in(seq![Ok::<VideoInfo, ErrorKind>(v0)], v) {
                                    let m = choose|m: int|
                                        0 <= m < 1 && (#[trigger] seq![
                                            Ok::<VideoInfo, ErrorKind>(v0),
                                        ][m]) == Ok::<VideoInfo, ErrorKind>(v);
                                }
                            }
                        } else {
                            assert((seq![Ok::<VideoInfo, ErrorKind>(v0)] + t1)[0]
                                == Ok::<VideoInfo, ErrorKind>(v));
                        }
                    } else {
                        // the raised scan yields nothing here
                        assert(!ok_in(page_stream_from(items, from, w2, incl), v));
                    }
                },
                RemoteItem::Broken(k) => {
                    lemma_ok_in_concat(seq![Err(k)], t2, v);
                    lemma_ok_in_concat(seq![Err(k)], t1, v);
                    assert(!ok_in(seq![Err::<VideoInfo, ErrorKind>(k)], v)) by {
                        if ok_in(seq![Err::<VideoInfo, ErrorKind>(k)], v) {
                            let m = choose|m: int|
                                0 <= m < 1 && (#[trigger] seq![
                                    Err::<VideoInfo, ErrorKind>(k),
                                ][m]) == Ok::<VideoInfo, ErrorKind>(v);
                        }
                    }
                },
            }
        }
    }
}

/// Every parsed item the whole scan yields against a raised watermark
/// is also yielded against a lower one.
proof fn lemma_stream_subset(pages: Seq<RemotePage>, from: int, w: i64, w2: i64, incl: bool)
    requires
        w <= w2,
    ensures
        forall|v: VideoInfo|
            #[trigger] ok_in(stream_from(pages, from, w2, incl), v) ==> ok_in(
                stream_from(pages, from, w, incl),
                v,
            ),
    decreases pages.len() - from,
{
    if from < 0 || from >= pages.len() {
    } else {
        lemma_stream_subset(pages, from + 1, w, w2, incl);
        assert forall|v: VideoInfo|
            #[trigger] ok_in(stream_from(pages, from, w2, incl), v) implies ok_in(
            stream_from(pages, from, w, incl),
            v,
        ) by {
            match pages[from] {
                RemotePage::Fail(k) => {
                    assert(!ok_in(seq![Err::<VideoInfo, ErrorKind>(k)], v)) by {
                        if ok_in(seq![Err::<VideoInfo, ErrorKind>(k)], v) {
                            let m = choose|m: int|
                                0 <= m < 1 && (#[trigger] seq![
                                    Err::<VideoInfo, ErrorKind>(k),
                                ][m]) == Ok::<VideoInfo, ErrorKind>(v);
                        }
                    }
                },
                RemotePage::Items(items) => {
                    lemma_page_stream_subset(items@, 0, w, w2, incl);
                    let h1 = page_stream_from(items@, 0, w, incl);
                    let h2 = page_stream_from(items@, 0, w2, incl);
                    let r1 = stream_from(pages, from + 1, w, incl);
                    let r2 = stream_from(pages, from + 1, w2, incl);
                    if page_stopped_from(items@, 0, w2, incl) {
                        // raised scan ends in this page; its items sit in
                        // the head of the lower scan
                        if !page_stopped_from(items@, 0, w, incl) {
                            lemma_ok_in_concat(h1, r1, v);
                        }
                    } else {
                        lemma_page_not_stopped(items@, 0, w, w2, incl);
                        lemma_ok_in_concat(h2, r2, v);
                        lemma_ok_in_concat(h1, r1, v);
                    }
                },
            }
        }
    }
}

/// Dedup idempotence: a second refresh cycle over an unchanged remote
/// feed, run with the descriptor reloaded at the watermark the first
/// cycle left, inserts no row and leaves the watermark where it was.
pub proof fn lemma_dedup_idempotent(
    source: VideoSourceEnum,
    source2: VideoSourceEnum,
    pages: Seq<RemotePage>,
    pre: Database,
    mid: Database,
    post: Database,
    out1: VideoSourceEnum,
    out2: VideoSourceEnum,
    r1: CycleReport,
    r2: CycleReport,
    logs1: Seq<LogEvent>,
    logs2: Seq<LogEvent>,
    now1: i64,
    now2: i64,
)
    requires
        cycle_post(source, pages, pre, mid, out1, r1, logs1, now1),
        source2.key_spec() == source.key_spec(),
        source2.inclusive_spec() == source.inclusive_spec(),
        source2.watermark_spec() == r1.watermark,
        cycle_post(source2, pages, mid, post, out2, r2, logs2, now2),
    ensures
        r2.new_count == 0,
        r2.watermark == r1.watermark,
        post.videos@ == mid.videos@,
{
    let w = source.watermark_spec();
    let w2 = source2.watermark_spec();
    let incl = source.inclusive_spec();
    let key = source.key_spec();
    let stream1 = stream_spec(pages, w, incl);
    let stream2 = stream_spec(pages, w2, incl);
    let st1 = fold_state(init_state(source), pre.videos@, source, now1, stream1, stream1.len() as int);
    let st2 = fold_state(
        init_state(source2),
        mid.videos@,
        source2,
        now2,
        stream2,
        stream2.len() as int,
    );
    lemma_fold_wm(init_state(source), pre.videos@, source, now1, stream1, stream1.len() as int);
    lemma_fold_max_eq(init_state(source), pre.videos@, source, now1, stream1, stream1.len() as int);
    lemma_max_ok_bounds(w, stream1, stream1.len() as int);
    lemma_stream_subset(pages, 0, w, w2, incl);
    lemma_fold_adds(pre.videos@, source, now1, stream1, stream1.len() as int);
    // every parsed item of the second stream is already at rest in `mid`
    assert forall|m: int|
        0 <= m < stream2.len() && #[trigger] stream2[m] is Ok implies has_key(
        mid.videos@,
        key.variant,
        key.id,
        stream2[m]->Ok_0.aid,
    ) by {
        let v = stream2[m]->Ok_0;
        assert(stream2[m] == Ok::<VideoInfo, ErrorKind>(v));
        assert(ok_in(stream2, v));
        assert(ok_in(stream1, v));
        let m1 = choose|m1: int|
            0 <= m1 < stream1.len() && (#[trigger] stream1[m1]) == Ok::<VideoInfo, ErrorKind>(v);
        assert(stream1[m1] is Ok && stream1[m1]->Ok_0.aid == v.aid);
        assert(has_key(
            fold_videos(pre.videos@, source, now1, stream1, stream1.len() as int),
            key.variant,
            key.id,
            v.aid,
        ));
    }
    lemma_fold_no_new(init_state(source2), mid.videos@, source2, now2, stream2, stream2.len() as int);
    assert(post.videos@ == mid.videos@);
    assert(r2.new_count == 0);
    // the second cycle does not commit: either every parsed item sits
    // at or below the new watermark, or the unchanged feed carries the
    // same fatal error again
    lemma_fold_wm(init_state(source2), mid.videos@, source2, now2, stream2, stream2.len() as int);
    lemma_fold_max_eq(
        init_state(source2),
        mid.videos@,
        source2,
        now2,
        stream2,
        stream2.len() as int,
    );
    if st1.fatal is Some {
        // the watermark stayed at the old snapshot, so both scans ran
        // against the same value and saw the same stream
        assert(w2 == w);
        assert(stream2 == stream1);
        lemma_fold_indep(
            init_state(source),
            pre.videos@,
            mid.videos@,
            source,
            source2,
            now1,
            now2,
            stream1,
            stream1.len() as int,
        );
        assert(init_state(source2) == init_state(source));
        assert(st2.fatal == st1.fatal);
        assert(!commits(st2));
    } else {
        assert forall|m: int|
            0 <= m < stream2.len() && #[trigger] stream2[m] is Ok implies stream2[m]->Ok_0.release_ts
            <= w2 by {
            let v = stream2[m]->Ok_0;
            assert(stream2[m] == Ok::<VideoInfo, ErrorKind>(v));
            assert(ok_in(stream2, v));
            assert(ok_in(stream1, v));
            let m1 = choose|m1: int|
                0 <= m1 < stream1.len() && (#[trigger] stream1[m1]) == Ok::<VideoInfo, ErrorKind>(
                    v,
                );
            // its timestamp is bounded by the first cycle's running
            // maximum, which the new watermark covers
            assert(v.release_ts <= max_ok(w, stream1, stream1.len() as int));
            assert(st1.max_seen == max_ok(w, stream1, stream1.len() as int));
        }
        lemma_max_ok_le(w2, stream2, stream2.len() as int);
        assert(!commits(st2));
    }
    assert(r2.watermark == w2);
}

/// How many of the first `n` stream items are parsed videos whose key
/// is not yet at rest in `videos`.
pub open spec fn new_count_spec(
    videos: Seq<VideoRecord>,
    src: VideoSourceEnum,
    stream: Seq<Result<VideoInfo, ErrorKind>>,
    n: int,
) -> int
    decreases n,
{
    if n <= 0 {
        0
    } else {
        new_count_spec(videos, src, stream, n - 1) + (if stream[n - 1] is Ok && !has_key(
            videos,
            src.key_spec().variant,
            src.key_spec().id,
            stream[n - 1]->Ok_0.aid,
        ) {
            1int
        } else {
            0int
        })
    }
}

/// Both counters stay within the number of items counted.
proof fn lemma_count_bounds(
    videos: Seq<VideoRecord>,
    src: VideoSourceEnum,
    stream: Seq<Result<VideoInfo, ErrorKind>>,
    n: int,
)
    ensures
        0 <= new_count_spec(videos, src, stream, n) <= ok_count(stream, n),
        ok_count(stream, n) <= (if n >= 0 {
            n
        } else {
            0
        }),
    decreases n,
{
    if n > 0 {
        lemma_count_bounds(videos, src, stream, n - 1);
    }
}

/// Folding a stream of pairwise distinct parsed items inserts exactly
/// the ones whose key was absent, and the keys afterwards are the keys
/// before plus the parsed items' keys.
proof fn lemma_fold_exact(
    st: CycleState,
    videos: Seq<VideoRecord>,
    src: VideoSourceEnum,
    now: i64,
    stream: Seq<Result<VideoInfo, ErrorKind>>,
    n: int,
)
    requires
        st.new_count + n <= usize::MAX,
        forall|a: int, b: int|
            0 <= a < b < n && #[trigger] stream[a] is Ok && #[trigger] stream[b] is Ok ==> stream[a]->Ok_0.aid
                != stream[b]->Ok_0.aid,
    ensures
        fold_videos(videos, src, now, stream, n).len() == videos.len() + new_count_spec(
            videos,
            src,
            stream,
            n,
        ),
        fold_state(st, videos, src, now, stream, n).new_count == st.new_count + new_count_spec(
            videos,
            src,
            stream,
            n,
        ),
        forall|vv: SourceVariant, sid: i64, a: i64|
            #[trigger] has_key(fold_videos(videos, src, now, stream, n), vv, sid, a) == (has_key(
                videos,
                vv,
                sid,
                a,
            ) || (vv == src.key_spec().variant && sid == src.key_spec().id && exists|mm: int|
                0 <= mm < n && #[trigger] stream[mm] is Ok && stream[mm]->Ok_0.aid == a)),
    decreases n,
{
    lemma_count_bounds(videos, src, stream, n);
    if n <= 0 {
        assert forall|vv: SourceVariant, sid: i64, a: i64|
            #[trigger] has_key(fold_videos(videos, src, now, stream, n), vv, sid, a) == (has_key(
            videos,
            vv,
            sid,
            a,
        ) || (vv == src.key_spec().variant && sid == src.key_spec().id && exists|mm: int|
            0 <= mm < n && #[trigger] stream[mm] is Ok && stream[mm]->Ok_0.aid == a)) by {
            if exists|mm: int| 0 <= mm < n && #[trigger] stream[mm] is Ok && stream[mm]->Ok_0.aid
                == a {
                let mm = choose|mm: int|
                    0 <= mm < n && #[trigger] stream[mm] is Ok && stream[mm]->Ok_0.aid == a;
            }
        }
    } else {
        lemma_count_bounds(videos, src, stream, n - 1);
        lemma_fold_exact(st, videos, src, now, stream, n - 1);
        let prev = fold_videos(videos, src, now, stream, n - 1);
        let cur = fold_videos(videos, src, now, stream, n);
        let kv = src.key_spec().variant;
        let ki = src.key_spec().id;
        match stream[n - 1] {
            Ok(v) => {
                // no earlier parsed item shares this aid
                assert(!(exists|mm: int|
                    0 <= mm < n - 1 && #[trigger] stream[mm] is Ok && stream[mm]->Ok_0.aid
                        == v.aid)) by {
                    if exists|mm: int|
                        0 <= mm < n - 1 && #[trigger] stream[mm] is Ok && stream[mm]->Ok_0.aid
                            == v.aid {
                        let mm = choose|mm: int|
                            0 <= mm < n - 1 && #[trigger] stream[mm] is Ok && stream[mm]->Ok_0.aid
                                == v.aid;
                        assert(stream[mm]->Ok_0.aid != stream[n - 1]->Ok_0.aid);
                    }
                }
                assert(has_key(prev, kv, ki, v.aid) == has_key(videos, kv, ki, v.aid));
                assert forall|vv: SourceVariant, sid: i64, a: i64|
                    #[trigger] has_key(cur, vv, sid, a) == (has_key(videos, vv, sid, a) || (vv
                    == kv && sid == ki && exists|mm: int|
                    0 <= mm < n && #[trigger] stream[mm] is Ok && stream[mm]->Ok_0.aid == a)) by {
                    if !has_key(videos, kv, ki, v.aid) {
                        lemma_has_key_push(prev, record_of(src, v, now), vv, sid, a);
                    }
                    if has_key(cur, vv, sid, a) && !has_key(videos, vv, sid, a) {
                        // the witness parsed item carries this key
                        let mm0 = choose|mm: int|
                            0 <= mm < n - 1 && #[trigger] stream[mm] is Ok && stream[mm]->Ok_0.aid
                                == a;
                        if !(vv == kv && sid == ki && exists|mm: int|
                            0 <= mm < n - 1 && #[trigger] stream[mm] is Ok && stream[mm]->Ok_0.aid
                                == a)  {
                            // only the new row can explain the key
                            assert(record_of(src, v, now).key() == (vv, sid, a));
                            assert(stream[n - 1] is Ok && stream[n - 1]->Ok_0.aid == a);
                        }
                    }
                    if vv == kv && sid == ki && exists|mm: int|
                        0 <= mm < n && #[trigger] stream[mm] is Ok && stream[mm]->Ok_0.aid == a {
                        let mm = choose|mm: int|
                            0 <= mm < n && #[trigger] stream[mm] is Ok && stream[mm]->Ok_0.aid
                                == a;
                        if mm < n - 1 {
                            assert(has_key(prev, vv, sid, a));
                            if !has_key(videos, kv, ki, v.aid) {
                                lemma_has_key_push(prev, record_of(src, v, now), vv, sid, a);
                            }
                        } else {
                            // the item is this step's own video
                            if has_key(videos, kv, ki, v.aid) {
                                assert(has_key(cur, vv, sid, a));
                            } else {
                                lemma_has_key_push(prev, record_of(src, v, now), vv, sid, a);
                                assert(record_of(src, v, now).key() == (vv, sid, a));
                            }
                        }
                    }
                }
            },
            Err(_) => {
                assert forall|vv: SourceVariant, sid: i64, a: i64|
                    #[trigger] has_key(cur, vv, sid, a) == (has_key(videos, vv, sid, a) || (vv
                    == kv && sid == ki && exists|mm: int|
                    0 <= mm < n && #[trigger] stream[mm] is Ok && stream[mm]->Ok_0.aid == a)) by {
                    if vv == kv && sid == ki && exists|mm: int|
                        0 <= mm < n && #[trigger] stream[mm] is Ok && stream[mm]->Ok_0.aid == a {
                        let mm = choose|mm: int|
                            0 <= mm < n && #[trigger] stream[mm] is Ok && stream[mm]->Ok_0.aid
                                == a;
                        assert(0 <= mm < n - 1);
                    }
                }
            },
        }
    }
}

/// Counting the unseen items of a stream whose first `m` parsed items
/// are exactly the seen ones.
proof fn lemma_count_seen_prefix(
    videos: Seq<VideoRecord>,
    src: VideoSourceEnum,
    stream: Seq<Result<VideoInfo, ErrorKind>>,
    m: int,
    n: int,
)
    requires
        0 <= m,
        n <= stream.len(),
        forall|mm: int|
            0 <= mm < stream.len() && #[trigger] stream[mm] is Ok ==> (has_key(
                videos,
                src.key_spec().variant,
                src.key_spec().id,
                stream[mm]->Ok_0.aid,
            ) <==> mm < m),
    ensures
        new_count_spec(videos, src, stream, n) == ok_count(stream, n) - ok_count(
            stream,
            if n < m {
                n
            } else {
                m
            },
        ),
    decreases n,
{
    if n > 0 {
        lemma_count_seen_prefix(videos, src, stream, m, n - 1);
    }
}

/// Crash safety: a cycle killed after `m` stream items has persisted
/// one row per parsed item it saw; rerunning the whole stream against
/// what it left persists exactly the remaining parsed items, and the
/// rerun's watermark advances to the maximum release timestamp of the
/// whole stream whenever that exceeds the snapshot.
pub proof fn lemma_crash_recovery(
    videos: Seq<VideoRecord>,
    src: VideoSourceEnum,
    w: i64,
    now1: i64,
    now2: i64,
    stream: Seq<Result<VideoInfo, ErrorKind>>,
    m: int,
)
    requires
        0 <= m <= stream.len(),
        stream.len() <= usize::MAX,
        forall|a: int, b: int|
            0 <= a < b < stream.len() && #[trigger] stream[a] is Ok && #[trigger] stream[b] is Ok
                ==> stream[a]->Ok_0.aid != stream[b]->Ok_0.aid,
        forall|a: int|
            0 <= a < stream.len() && #[trigger] stream[a] is Ok ==> !has_key(
                videos,
                src.key_spec().variant,
                src.key_spec().id,
                stream[a]->Ok_0.aid,
            ),
        forall|a: int|
            0 <= a < stream.len() && #[trigger] stream[a] is Err ==> !stream[a]->Err_0.is_fatal_spec(),
    ensures
        ({
            let part = fold_videos(videos, src, now1, stream, m);
            let full = fold_videos(part, src, now2, stream, stream.len() as int);
            let st0 = CycleState { watermark: w, max_seen: w, new_count: 0, fatal: None };
            let st2 = fold_state(st0, part, src, now2, stream, stream.len() as int);
            &&& part.len() == videos.len() + ok_count(stream, m)
            &&& full.len() == videos.len() + ok_count(stream, stream.len() as int)
            &&& st2.new_count == ok_count(stream, stream.len() as int) - ok_count(stream, m)
            &&& st2.fatal is None
            &&& st2.max_seen == max_ok(w, stream, stream.len() as int)
            &&& final_wm(st2) == (if max_ok(w, stream, stream.len() as int) > w {
                max_ok(w, stream, stream.len() as int)
            } else {
                w
            })
        }),
{
    let n = stream.len() as int;
    let st0 = CycleState { watermark: w, max_seen: w, new_count: 0, fatal: None };
    let kv = src.key_spec().variant;
    let ki = src.key_spec().id;
    lemma_count_bounds(videos, src, stream, m);
    lemma_fold_exact(st0, videos, src, now1, stream, m);
    let part = fold_videos(videos, src, now1, stream, m);
    // the killed cycle saw only unseen items, so it persisted all of them
    assert(new_count_spec(videos, src, stream, m) == ok_count(stream, m)) by {
        lemma_count_seen_prefix(videos, src, stream, 0, m);
        assert(ok_count(stream, 0) == 0);
    }
    // `part` holds exactly the keys of the first `m` parsed items
    assert forall|mm: int|
        0 <= mm < stream.len() && #[trigger] stream[mm] is Ok implies (has_key(
        part,
        kv,
        ki,
        stream[mm]->Ok_0.aid,
    ) <==> mm < m) by {
        let a = stream[mm]->Ok_0.aid;
        if mm < m {
            assert(has_key(part, kv, ki, a));
        }
        if has_key(part, kv, ki, a) && m <= mm {
            let mm2 = choose|mm2: int|
                0 <= mm2 < m && #[trigger] stream[mm2] is Ok && stream[mm2]->Ok_0.aid == a;
            assert(stream[mm2]->Ok_0.aid != stream[mm]->Ok_0.aid);
        }
    }
    lemma_count_bounds(part, src, stream, n);
    lemma_fold_exact(st0, part, src, now2, stream, n);
    lemma_count_seen_prefix(part, src, stream, m, n);
    lemma_fold_fatal_none(st0, part, src, now2, stream, n);
    lemma_fold_max_eq(st0, part, src, now2, stream, n);
    lemma_fold_wm(st0, part, src, now2, stream, n);
}

/// A page whose items are all parsed and taken scans clean.
proof fn lemma_page_all_taken(items: Seq<RemoteItem>, from: int, w: i64, incl: bool)
    requires
        forall|j: int|
            from <= j < items.len() ==> (#[trigger] items[j]) is Video && take_spec(
                items[j]->Video_0.release_ts,
                w,
                incl,
            ),
    ensures
        !page_stopped_from(items, from, w, incl),
    decreases items.len() - from,
{
    if from < 0 || from >= items.len() {
    } else {
        lemma_page_all_taken(items, from + 1, w, incl);
    }
}

/// A scan that meets a stale video behind taken ones stops.
proof fn lemma_page_stops(items: Seq<RemoteItem>, from: int, j0: int, w: i64, incl: bool)
    requires
        0 <= from <= j0 < items.len(),
        items[j0] is Video,
        !take_spec(items[j0]->Video_0.release_ts, w, incl),
        forall|j: int|
            from <= j < j0 ==> (#[trigger] items[j]) is Video && take_spec(
                items[j]->Video_0.release_ts,
                w,
                incl,
            ),
    ensures
        page_stopped_from(items, from, w, incl),
    decreases j0 - from,
{
    if from < j0 {
        lemma_page_stops(items, from + 1, j0, w, incl);
    }
}

/// Counting the fetched pages from page `i` up to the stopping page.
proof fn lemma_fetch_count(pages: Seq<RemotePage>, w: i64, incl: bool, s: int, k: int, i: int)
    requires
        s >= 1,
        0 <= k < s * pages.len(),
        forall|p: int| 0 <= p < pages.len() ==> (#[trigger] pages[p]) is Items,
        forall|p: int| 0 <= p < pages.len() ==> (#[trigger] pages[p])->Items_0@.len() == s,
        forall|p: int, q: int|
            0 <= p < pages.len() && 0 <= q < s ==> (#[trigger] pages[p]->Items_0@[q]) is Video,
        forall|p: int, q: int|
            0 <= p < pages.len() && 0 <= q < s && p * s + q < k ==> take_spec(
                (#[trigger] pages[p]->Items_0@[q])->Video_0.release_ts,
                w,
                incl,
            ),
        !take_spec(pages[k / s]->Items_0@[k % s]->Video_0.release_ts, w, incl),
        0 <= i <= k / s,
    ensures
        pages_fetched_from(pages, i, w, incl) == k / s + 1 - i,
    decreases k / s - i,
{
    let p = k / s;
    let q = k % s;
    lemma_fundamental_div_mod(k, s);
    lemma_mod_pos_bound(k, s);
    assert(p < pages.len()) by {
        if p >= pages.len() {
            assert(s * p >= s * pages.len()) by (nonlinear_arith)
                requires
                    s >= 1,
                    p >= pages.len(),
            ;
            assert(false);
        }
    }
    let items = pages[i]->Items_0@;
    if i < p {
        assert forall|j: int|
            0 <= j < items.len() implies (#[trigger] items[j]) is Video && take_spec(
            items[j]->Video_0.release_ts,
            w,
            incl,
        ) by {
            assert(i * s + j < k) by (nonlinear_arith)
                requires
                    i + 1 <= p,
                    0 <= j < s,
                    s >= 1,
                    k == s * p + q,
                    q >= 0,
            ;
            assert((#[trigger] pages[i]->Items_0@[j]) is Video);
        }
        lemma_page_all_taken(items, 0, w, incl);
        lemma_fetch_count(pages, w, incl, s, k, i + 1);
    } else {
        assert(items[q] is Video && !take_spec(items[q]->Video_0.release_ts, w, incl));
        assert forall|j: int|
            0 <= j < q implies (#[trigger] items[j]) is Video && take_spec(
            items[j]->Video_0.release_ts,
            w,
            incl,
        ) by {
            assert(p * s + j < k);
            assert((#[trigger] pages[p]->Items_0@[j]) is Video);
        }
        lemma_page_stops(items, 0, q, w, incl);
    }
}

/// Short-circuit correctness: over pages of uniform size `s`, all
/// parsed, of which exactly the first `k` flat items are newer than the
/// watermark, the scan fetches `⌈(k+1)/s⌉` pages: every page of taken
/// items and the one page holding the first stale item, which stops
/// pagination.
pub proof fn lemma_short_circuit(pages: Seq<RemotePage>, w: i64, incl: bool, s: int, k: int)
    requires
        s >= 1,
        0 <= k < s * pages.len(),
        forall|p: int| 0 <= p < pages.len() ==> (#[trigger] pages[p]) is Items,
        forall|p: int| 0 <= p < pages.len() ==> (#[trigger] pages[p])->Items_0@.len() == s,
        forall|p: int, q: int|
            0 <= p < pages.len() && 0 <= q < s ==> (#[trigger] pages[p]->Items_0@[q]) is Video,
        forall|p: int, q: int|
            0 <= p < pages.len() && 0 <= q < s && p * s + q < k ==> take_spec(
                (#[trigger] pages[p]->Items_0@[q])->Video_0.release_ts,
                w,
                incl,
            ),
        !take_spec(pages[k / s]->Items_0@[k % s]->Video_0.release_ts, w, incl),
    ensures
        pages_spec(pages, w, incl) == k / s + 1,
        k / s + 1 == (k + s) / s,
{
    lemma_fundamental_div_mod(k, s);
    lemma_mod_pos_bound(k, s);
    lemma_fetch_count(pages, w, incl, s, k, 0);
    assert(k + s == (k / s + 1) * s + k % s) by (nonlinear_arith)
        requires
            k == s * (k / s) + k % s,
    ;
    lemma_fundamental_div_mod_converse(k + s, s, k / s + 1, k % s);
}

/// A maximum over items that all sit at or below the floor stays at the
/// floor.
proof fn lemma_max_ok_le(w: i64, stream: Seq<Result<VideoInfo, ErrorKind>>, n: int)
    requires
        forall|m: int|
            0 <= m < n && #[trigger] stream[m] is Ok ==> stream[m]->Ok_0.release_ts <= w,
    ensures
        max_ok(w, stream, n) <= w,
    decreases n,
{
    if n > 0 {
        lemma_max_ok_le(w, stream, n - 1);
    }
}

} // verus!
