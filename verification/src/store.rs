//! The relational store behind the pipeline, modeled in memory: one
//! table per source variant and one video table with a composite unique
//! key.  The unique key is the dedup mechanism the whole design leans
//! on: re-inserting an already-seen video is reported, not performed.

use vstd::prelude::*;

use crate::kinds::{CollectionKind, SourceKey, SourceVariant};
use crate::source::{VideoSource, VideoSourceEnum, Collection, Favorite, Submission, WatchLater,
    _ActiveModel, FilterExpr, WATCH_LATER_ID};
use crate::video::VideoRecord;

verus! {

/// A failure the store itself reports.
#[derive(Clone, Copy, PartialEq, Eq, Structural, Debug)]
pub enum DbError {
    /// A staged update targeted a source that is not registered.
    RowMissing,
}

/// One row of the favorite-list table.
pub struct FavoriteRow {
    pub fid: i64,
    pub name: String,
    pub path: String,
    pub latest_row_at: i64,
}

/// One row of the collection table.
pub struct CollectionRow {
    pub sid: i64,
    pub mid: i64,
    pub kind: CollectionKind,
    pub path: String,
    pub latest_row_at: i64,
}

/// One row of the submission table.
pub struct SubmissionRow {
    pub upper_id: i64,
    pub path: String,
    pub latest_row_at: i64,
}

/// One row of the watch-later table; the table holds at most the one
/// singleton row.
pub struct WatchLaterRow {
    pub id: i64,
    pub path: String,
    pub latest_row_at: i64,
}

/// Whether a sequence of `(id, path, watermark)` rows has pairwise
/// distinct ids.
pub open spec fn ids_unique(rows: Seq<(i64, String, i64)>) -> bool {
    forall|i: int, j: int|
        0 <= i < j < rows.len() ==> (#[trigger] rows[i]).0 != (#[trigger] rows[j]).0
}

/// Two row indices carrying the same id coincide under uniqueness.
pub proof fn lemma_unique_index(rows: Seq<(i64, String, i64)>, i: int, j: int)
    requires
        ids_unique(rows),
        0 <= i < rows.len(),
        0 <= j < rows.len(),
        rows[i].0 == rows[j].0,
    ensures
        i == j,
{
    if i < j {
        assert(rows[i].0 != rows[j].0);
    } else if j < i {
        assert(rows[j].0 != rows[i].0);
    }
}

/// A registered favorite list is visible in the projected rows and the
/// other way round.
pub proof fn lemma_has_fav(db: Database, fid: i64)
    ensures
        db.has_source(SourceKey { variant: SourceVariant::Favorite, id: fid }) == exists|j: int|
            0 <= j < db.favorites@.len() && (#[trigger] db.favorites@[j]).fid == fid,
{
    let key = SourceKey { variant: SourceVariant::Favorite, id: fid };
    if db.has_source(key) {
        let j = db.row_index(key);
        assert(db.source_rows(key.variant)[j].0 == db.favorites@[j].fid);
        assert(db.favorites@[j].fid == fid);
    }
    if exists|j: int| 0 <= j < db.favorites@.len() && (#[trigger] db.favorites@[j]).fid == fid {
        let j = choose|j: int|
            0 <= j < db.favorites@.len() && (#[trigger] db.favorites@[j]).fid == fid;
        assert((#[trigger] db.source_rows(key.variant)[j]).0 == fid);
        assert(db.has_source(key));
    }
}

/// The same bridge for the collection table.
pub proof fn lemma_has_coll(db: Database, sid: i64)
    ensures
        db.has_source(SourceKey { variant: SourceVariant::Collection, id: sid }) == exists|j: int|
            0 <= j < db.collections@.len() && (#[trigger] db.collections@[j]).sid == sid,
{
    let key = SourceKey { variant: SourceVariant::Collection, id: sid };
    if db.has_source(key) {
        let j = db.row_index(key);
        assert(db.source_rows(key.variant)[j].0 == db.collections@[j].sid);
        assert(db.collections@[j].sid == sid);
    }
    if exists|j: int| 0 <= j < db.collections@.len() && (#[trigger] db.collections@[j]).sid == sid {
        let j = choose|j: int|
            0 <= j < db.collections@.len() && (#[trigger] db.collections@[j]).sid == sid;
        assert((#[trigger] db.source_rows(key.variant)[j]).0 == sid);
        assert(db.has_source(key));
    }
}

/// The same bridge for the submission table.
pub proof fn lemma_has_sub(db: Database, upper_id: i64)
    ensures
        db.has_source(SourceKey { variant: SourceVariant::Submission, id: upper_id })
            == exists|j: int|
            0 <= j < db.submissions@.len() && (#[trigger] db.submissions@[j]).upper_id == upper_id,
{
    let key = SourceKey { variant: SourceVariant::Submission, id: upper_id };
    if db.has_source(key) {
        let j = db.row_index(key);
        assert(db.source_rows(key.variant)[j].0 == db.submissions@[j].upper_id);
        assert(db.submissions@[j].upper_id == upper_id);
    }
    if exists|j: int|
        0 <= j < db.submissions@.len() && (#[trigger] db.submissions@[j]).upper_id == upper_id {
        let j = choose|j: int|
            0 <= j < db.submissions@.len() && (#[trigger] db.submissions@[j]).upper_id == upper_id;
        assert((#[trigger] db.source_rows(key.variant)[j]).0 == upper_id);
        assert(db.has_source(key));
    }
}

/// The same bridge for the watch-later table.
pub proof fn lemma_has_wl(db: Database, id: i64)
    ensures
        db.has_source(SourceKey { variant: SourceVariant::WatchLater, id: id }) == exists|j: int|
            0 <= j < db.watch_laters@.len() && (#[trigger] db.watch_laters@[j]).id == id,
{
    let key = SourceKey { variant: SourceVariant::WatchLater, id: id };
    if db.has_source(key) {
        let j = db.row_index(key);
        assert(db.source_rows(key.variant)[j].0 == db.watch_laters@[j].id);
        assert(db.watch_laters@[j].id == id);
    }
    if exists|j: int| 0 <= j < db.watch_laters@.len() && (#[trigger] db.watch_laters@[j]).id == id {
        let j = choose|j: int|
            0 <= j < db.watch_laters@.len() && (#[trigger] db.watch_laters@[j]).id == id;
        assert((#[trigger] db.source_rows(key.variant)[j]).0 == id);
        assert(db.has_source(key));
    }
}

/// Set the watermark of every favorite row carrying `fid`; report
/// whether any row does.  Without a match the table is untouched.
fn set_fav_wm(rows: &mut Vec<FavoriteRow>, fid: i64, t: i64) -> (ok: bool)
    ensures
        ok == exists|j: int| 0 <= j < old(rows)@.len() && (#[trigger] old(rows)@[j]).fid == fid,
        !ok ==> *final(rows) == *old(rows),
        final(rows)@.len() == old(rows)@.len(),
        forall|j: int|
            0 <= j < old(rows)@.len() ==> {
                &&& (#[trigger] final(rows)@[j]).fid == old(rows)@[j].fid
                &&& final(rows)@[j].name == old(rows)@[j].name
                &&& final(rows)@[j].path == old(rows)@[j].path
                &&& final(rows)@[j].latest_row_at == (if old(rows)@[j].fid == fid {
                    t
                } else {
                    old(rows)@[j].latest_row_at
                })
            },
{
    let n = rows.len();
    let mut i: usize = 0;
    let mut found = false;
    while i < n
        invariant
            n == rows.len(),
            i <= n,
            *rows == *old(rows),
            found == exists|j: int| 0 <= j < i && (#[trigger] rows@[j]).fid == fid,
        decreases n - i,
    {
        if rows[i].fid == fid {
            found = true;
        }
        i += 1;
    }
    if !found {
        return false;
    }
    let mut out: Vec<FavoriteRow> = Vec::new();
    let mut i: usize = 0;
    while i < n
        invariant
            n == rows.len(),
            i <= n,
            *rows == *old(rows),
            out@.len() == i,
            forall|j: int|
                0 <= j < i ==> {
                    &&& (#[trigger] out@[j]).fid == rows@[j].fid
                    &&& out@[j].name == rows@[j].name
                    &&& out@[j].path == rows@[j].path
                    &&& out@[j].latest_row_at == (if rows@[j].fid == fid {
                        t
                    } else {
                        rows@[j].latest_row_at
                    })
                },
        decreases n - i,
    {
        let row = &rows[i];
        let wm = if row.fid == fid {
            t
        } else {
            row.latest_row_at
        };
        out.push(
            FavoriteRow {
                fid: row.fid,
                name: row.name.clone(),
                path: row.path.clone(),
                latest_row_at: wm,
            },
        );
        i += 1;
    }
    *rows = out;
    true
}

/// The same update for the collection table.
fn set_coll_wm(rows: &mut Vec<CollectionRow>, sid: i64, t: i64) -> (ok: bool)
    ensures
        ok == exists|j: int| 0 <= j < old(rows)@.len() && (#[trigger] old(rows)@[j]).sid == sid,
        !ok ==> *final(rows) == *old(rows),
        final(rows)@.len() == old(rows)@.len(),
        forall|j: int|
            0 <= j < old(rows)@.len() ==> {
                &&& (#[trigger] final(rows)@[j]).sid == old(rows)@[j].sid
                &&& final(rows)@[j].mid == old(rows)@[j].mid
                &&& final(rows)@[j].kind == old(rows)@[j].kind
                &&& final(rows)@[j].path == old(rows)@[j].path
                &&& final(rows)@[j].latest_row_at == (if old(rows)@[j].sid == sid {
                    t
                } else {
                    old(rows)@[j].latest_row_at
                })
            },
{
    let n = rows.len();
    let mut i: usize = 0;
    let mut found = false;
    while i < n
        invariant
            n == rows.len(),
            i <= n,
            *rows == *old(rows),
            found == exists|j: int| 0 <= j < i && (#[trigger] rows@[j]).sid == sid,
        decreases n - i,
    {
        if rows[i].sid == sid {
            found = true;
        }
        i += 1;
    }
    if !found {
        return false;
    }
    let mut out: Vec<CollectionRow> = Vec::new();
    let mut i: usize = 0;
    while i < n
        invariant
            n == rows.len(),
            i <= n,
            *rows == *old(rows),
            out@.len() == i,
            forall|j: int|
                0 <= j < i ==> {
                    &&& (#[trigger] out@[j]).sid == rows@[j].sid
                    &&& out@[j].mid == rows@[j].mid
                    &&& out@[j].kind == rows@[j].kind
                    &&& out@[j].path == rows@[j].path
                    &&& out@[j].latest_row_at == (if rows@[j].sid == sid {
                        t
                    } else {
                        rows@[j].latest_row_at
                    })
                },
        decreases n - i,
    {
        let row = &rows[i];
        let wm = if row.sid == sid {
            t
        } else {
            row.latest_row_at
        };
        out.push(
            CollectionRow {
                sid: row.sid,
                mid: row.mid,
                kind: row.kind,
                path: row.path.clone(),
                latest_row_at: wm,
            },
        );
        i += 1;
    }
    *rows = out;
    true
}

/// The same update for the submission table.
fn set_sub_wm(rows: &mut Vec<SubmissionRow>, upper_id: i64, t: i64) -> (ok: bool)
    ensures
        ok == exists|j: int|
            0 <= j < old(rows)@.len() && (#[trigger] old(rows)@[j]).upper_id == upper_id,
        !ok ==> *final(rows) == *old(rows),
        final(rows)@.len() == old(rows)@.len(),
        forall|j: int|
            0 <= j < old(rows)@.len() ==> {
                &&& (#[trigger] final(rows)@[j]).upper_id == old(rows)@[j].upper_id
                &&& final(rows)@[j].path == old(rows)@[j].path
                &&& final(rows)@[j].latest_row_at == (if old(rows)@[j].upper_id == upper_id {
                    t
                } else {
                    old(rows)@[j].latest_row_at
                })
            },
{
    let n = rows.len();
    let mut i: usize = 0;
    let mut found = false;
    while i < n
        invariant
            n == rows.len(),
            i <= n,
            *rows == *old(rows),
            found == exists|j: int| 0 <= j < i && (#[trigger] rows@[j]).upper_id == upper_id,
        decreases n - i,
    {
        if rows[i].upper_id == upper_id {
            found = true;
        }
        i += 1;
    }
    if !found {
        return false;
    }
    let mut out: Vec<SubmissionRow> = Vec::new();
    let mut i: usize = 0;
    while i < n
        invariant
            n == rows.len(),
            i <= n,
            *rows == *old(rows),
            out@.len() == i,
            forall|j: int|
                0 <= j < i ==> {
                    &&& (#[trigger] out@[j]).upper_id == rows@[j].upper_id
                    &&& out@[j].path == rows@[j].path
                    &&& out@[j].latest_row_at == (if rows@[j].upper_id == upper_id {
                        t
                    } else {
                        rows@[j].latest_row_at
                    })
                },
        decreases n - i,
    {
        let row = &rows[i];
        let wm = if row.upper_id == upper_id {
            t
        } else {
            row.latest_row_at
        };
        out.push(SubmissionRow { upper_id: row.upper_id, path: row.path.clone(), latest_row_at: wm });
        i += 1;
    }
    *rows = out;
    true
}

/// The same update for the watch-later table.
fn set_wl_wm(rows: &mut Vec<WatchLaterRow>, id: i64, t: i64) -> (ok: bool)
    ensures
        ok == exists|j: int| 0 <= j < old(rows)@.len() && (#[trigger] old(rows)@[j]).id == id,
        !ok ==> *final(rows) == *old(rows),
        final(rows)@.len() == old(rows)@.len(),
        forall|j: int|
            0 <= j < old(rows)@.len() ==> {
                &&& (#[trigger] final(rows)@[j]).id == old(rows)@[j].id
                &&& final(rows)@[j].path == old(rows)@[j].path
                &&& final(rows)@[j].latest_row_at == (if old(rows)@[j].id == id {
                    t
                } else {
                    old(rows)@[j].latest_row_at
                })
            },
{
    let n = rows.len();
    let mut i: usize = 0;
    let mut found = false;
    while i < n
        invariant
            n == rows.len(),
            i <= n,
            *rows == *old(rows),
            found == exists|j: int| 0 <= j < i && (#[trigger] rows@[j]).id == id,
        decreases n - i,
    {
        if rows[i].id == id {
            found = true;
        }
        i += 1;
    }
    if !found {
        return false;
    }
    let mut out: Vec<WatchLaterRow> = Vec::new();
    let mut i: usize = 0;
    while i < n
        invariant
            n == rows.len(),
            i <= n,
            *rows == *old(rows),
            out@.len() == i,
            forall|j: int|
                0 <= j < i ==> {
                    &&& (#[trigger] out@[j]).id == rows@[j].id
                    &&& out@[j].path == rows@[j].path
                    &&& out@[j].latest_row_at == (if rows@[j].id == id {
                        t
                    } else {
                        rows@[j].latest_row_at
                    })
                },
        decreases n - i,
    {
        let row = &rows[i];
        let wm = if row.id == id {
            t
        } else {
            row.latest_row_at
        };
        out.push(WatchLaterRow { id: row.id, path: row.path.clone(), latest_row_at: wm });
        i += 1;
    }
    *rows = out;
    true
}

/// After one variant's table had its watermark set for one id, rows kept
/// otherwise, the store keeps every source, every path, and every other
/// watermark, and stays well formed.
proof fn lemma_wm_update(pre: Database, post: Database, vv: SourceVariant, id: i64, t: i64)
    requires
        pre.wf(),
        post.source_rows(vv).len() == pre.source_rows(vv).len(),
        forall|j: int|
            0 <= j < pre.source_rows(vv).len() ==> {
                &&& (#[trigger] post.source_rows(vv)[j]).0 == pre.source_rows(vv)[j].0
                &&& post.source_rows(vv)[j].1 == pre.source_rows(vv)[j].1
                &&& post.source_rows(vv)[j].2 == (if pre.source_rows(vv)[j].0 == id {
                    t
                } else {
                    pre.source_rows(vv)[j].2
                })
            },
        forall|v2: SourceVariant| v2 != vv ==> #[trigger] post.source_rows(v2) == pre.source_rows(v2),
        post.videos@ == pre.videos@,
        forall|j: int|
            0 <= j < post.watch_laters@.len() ==> (#[trigger] post.watch_laters@[j]).id
                == post.source_rows(SourceVariant::WatchLater)[j].0,
        post.watch_laters@.len() == post.source_rows(SourceVariant::WatchLater).len(),
    ensures
        post.wf(),
        forall|k: SourceKey| post.has_source(k) == pre.has_source(k),
        forall|k: SourceKey| post.source_path(k) == pre.source_path(k),
        forall|k: SourceKey|
            !(k.variant == vv && k.id == id) ==> post.source_wm(k) == pre.source_wm(k),
        pre.has_source(SourceKey { variant: vv, id: id }) ==> post.source_wm(
            SourceKey { variant: vv, id: id },
        ) == Some(t),
{
    assert forall|k: SourceKey| post.has_source(k) == pre.has_source(k) by {
        if k.variant == vv {
            if pre.has_source(k) {
                let j = pre.row_index(k);
                assert((#[trigger] post.source_rows(k.variant)[j]).0 == k.id);
            }
            if post.has_source(k) {
                let j = post.row_index(k);
                assert((#[trigger] pre.source_rows(k.variant)[j]).0 == k.id);
            }
        }
    }
    assert forall|v2: SourceVariant| ids_unique(#[trigger] post.source_rows(v2)) by {
        if v2 == vv {
            assert forall|a: int, b: int|
                0 <= a < b < post.source_rows(vv).len() implies (#[trigger] post.source_rows(
                vv,
            )[a]).0 != (#[trigger] post.source_rows(vv)[b]).0 by {
                assert(pre.source_rows(vv)[a].0 != pre.source_rows(vv)[b].0);
            }
        }
    }
    assert forall|j: int|
        0 <= j < post.watch_laters@.len() implies (#[trigger] post.watch_laters@[j]).id
            == WATCH_LATER_ID by {
        if vv == SourceVariant::WatchLater {
            assert(post.source_rows(vv)[j].0 == pre.source_rows(vv)[j].0);
            assert(pre.source_rows(SourceVariant::WatchLater)[j].0 == pre.watch_laters@[j].id);
        } else {
            assert(post.source_rows(SourceVariant::WatchLater) == pre.source_rows(
                SourceVariant::WatchLater,
            ));
            assert(pre.source_rows(SourceVariant::WatchLater)[j].0 == pre.watch_laters@[j].id);
        }
    }
    assert forall|k: SourceKey| post.source_path(k) == pre.source_path(k) by {
        if k.variant == vv && pre.has_source(k) {
            let j = pre.row_index(k);
            let j2 = post.row_index(k);
            assert((#[trigger] post.source_rows(k.variant)[j]).0 == k.id);
            assert(pre.source_rows(k.variant)[j2].0 == k.id);
            lemma_unique_index(pre.source_rows(k.variant), j, j2);
        }
    }
    assert forall|k: SourceKey|
        !(k.variant == vv && k.id == id) implies post.source_wm(k) == pre.source_wm(k) by {
        if k.variant == vv && pre.has_source(k) {
            let j = pre.row_index(k);
            let j2 = post.row_index(k);
            assert((#[trigger] post.source_rows(k.variant)[j]).0 == k.id);
            assert(pre.source_rows(k.variant)[j2].0 == k.id);
            lemma_unique_index(pre.source_rows(k.variant), j, j2);
        }
    }
    let target = SourceKey { variant: vv, id: id };
    if pre.has_source(target) {
        let j = pre.row_index(target);
        let j2 = post.row_index(target);
        assert((#[trigger] post.source_rows(vv)[j]).0 == id);
        assert(pre.source_rows(vv)[j2].0 == id);
        lemma_unique_index(pre.source_rows(vv), j, j2);
        assert(post.source_wm(target) == Some(t));
    }
}

/// Two stores whose source tables project to the same rows agree on
/// every source, watermark and path.
pub proof fn lemma_same_sources(a: Database, b: Database)
    requires
        a.wf(),
        forall|v: SourceVariant| #[trigger] a.source_rows(v) == b.source_rows(v),
    ensures
        forall|k: SourceKey| a.has_source(k) == b.has_source(k),
        forall|k: SourceKey| a.source_wm(k) == b.source_wm(k),
        forall|k: SourceKey| a.source_path(k) == b.source_path(k),
{
    assert forall|k: SourceKey| a.has_source(k) == b.has_source(k) by {
        if a.has_source(k) {
            let j = a.row_index(k);
            assert((#[trigger] b.source_rows(k.variant)[j]).0 == k.id);
        }
        if b.has_source(k) {
            let j = b.row_index(k);
            assert((#[trigger] a.source_rows(k.variant)[j]).0 == k.id);
        }
    }
    assert forall|k: SourceKey|
        a.source_wm(k) == b.source_wm(k) && a.source_path(k) == b.source_path(k) by {
        if a.has_source(k) && b.has_source(k) {
            let ja = a.row_index(k);
            let jb = b.row_index(k);
            assert(a.source_rows(k.variant)[ja].0 == k.id);
            assert(b.source_rows(k.variant)[jb].0 == k.id);
            assert(a.source_rows(k.variant)[jb].0 == k.id);
            lemma_unique_index(a.source_rows(k.variant), ja, jb);
        }
    }
}

/// The persistent state: one table per source variant plus the video
/// table.
pub struct Database {
    pub favorites: Vec<FavoriteRow>,
    pub collections: Vec<CollectionRow>,
    pub submissions: Vec<SubmissionRow>,
    pub watch_laters: Vec<WatchLaterRow>,
    pub videos: Vec<VideoRecord>,
}

impl Database {
    /// An empty, well-formed store.
    pub fn new() -> (db: Database)
        ensures
            db.wf(),
            db.videos@ =~= Seq::<VideoRecord>::empty(),
            forall|k: SourceKey| !db.has_source(k),
    {
        let db = Database {
            favorites: Vec::new(),
            collections: Vec::new(),
            submissions: Vec::new(),
            watch_laters: Vec::new(),
            videos: Vec::new(),
        };
        proof {
            assert(forall|v: SourceVariant| db.source_rows(v).len() == 0);
        }
        db
    }

    /// The table of one variant, projected to `(id, path, watermark)`.
    pub open spec fn source_rows(self, variant: SourceVariant) -> Seq<(i64, String, i64)> {
        match variant {
            SourceVariant::Favorite => self.favorites@.map(
                |i: int, r: FavoriteRow| (r.fid, r.path, r.latest_row_at),
            ),
            SourceVariant::Collection => self.collections@.map(
                |i: int, r: CollectionRow| (r.sid, r.path, r.latest_row_at),
            ),
            SourceVariant::Submission => self.submissions@.map(
                |i: int, r: SubmissionRow| (r.upper_id, r.path, r.latest_row_at),
            ),
            SourceVariant::WatchLater => self.watch_laters@.map(
                |i: int, r: WatchLaterRow| (r.id, r.path, r.latest_row_at),
            ),
        }
    }

    /// Whether a source with this key is registered.
    pub open spec fn has_source(self, key: SourceKey) -> bool {
        exists|i: int|
            0 <= i < self.source_rows(key.variant).len() && (#[trigger] self.source_rows(
                key.variant,
            )[i]).0 == key.id
    }

    /// The index of the row of a registered source.
    pub open spec fn row_index(self, key: SourceKey) -> int {
        choose|i: int|
            0 <= i < self.source_rows(key.variant).len() && (#[trigger] self.source_rows(
                key.variant,
            )[i]).0 == key.id
    }

    /// The watermark at rest for a source, if it is registered.
    pub open spec fn source_wm(self, key: SourceKey) -> Option<i64> {
        if self.has_source(key) {
            Some(self.source_rows(key.variant)[self.row_index(key)].2)
        } else {
            None
        }
    }

    /// The configured path of a source, if it is registered.
    pub open spec fn source_path(self, key: SourceKey) -> Option<String> {
        if self.has_source(key) {
            Some(self.source_rows(key.variant)[self.row_index(key)].1)
        } else {
            None
        }
    }

    /// Whether a video row with this composite key is at rest.
    pub open spec fn has_video(self, variant: SourceVariant, source_id: i64, aid: i64) -> bool {
        exists|i: int|
            0 <= i < self.videos@.len() && (#[trigger] self.videos@[i]).key() == (
                variant,
                source_id,
                aid,
            )
    }

    /// The composite unique index of the video table.
    pub open spec fn videos_unique(self) -> bool {
        forall|i: int, j: int|
            0 <= i < j < self.videos@.len() ==> (#[trigger] self.videos@[i]).key() != (
                #[trigger] self.videos@[j]).key()
    }

    /// Well-formedness: each source table is unique on its identifier,
    /// the watch-later table holds at most the singleton row, and the
    /// video table is unique on its composite key.
    pub open spec fn wf(self) -> bool {
        &&& forall|v: SourceVariant| ids_unique(#[trigger] self.source_rows(v))
        &&& forall|i: int|
            0 <= i < self.watch_laters@.len() ==> (#[trigger] self.watch_laters@[i]).id
                == WATCH_LATER_ID
        &&& self.videos_unique()
    }

    /// Register a favorite list with the zero watermark.  Reports
    /// whether the registration happened; an already-used id leaves the
    /// store alone.
    pub fn register_favorite(&mut self, fid: i64, name: String, path: String) -> (added: bool)
        requires
            old(self).wf(),
        ensures
            final(self).wf(),
            added == !old(self).has_source(SourceKey { variant: SourceVariant::Favorite, id: fid }),
            added ==> final(self).source_rows(SourceVariant::Favorite) == old(self).source_rows(
                SourceVariant::Favorite,
            ).push((fid, path, 0i64)),
            !added ==> *final(self) == *old(self),
            final(self).videos == old(self).videos,
            final(self).collections == old(self).collections,
            final(self).submissions == old(self).submissions,
            final(self).watch_laters == old(self).watch_laters,
    {
        let mut i: usize = 0;
        let mut found = false;
        while i < self.favorites.len()
            invariant
                i <= self.favorites.len(),
                *self == *old(self),
                found == exists|j: int|
                    0 <= j < i && (#[trigger] self.favorites@[j]).fid == fid,
            decreases self.favorites.len() - i,
        {
            if self.favorites[i].fid == fid {
                found = true;
            }
            i += 1;
        }
        proof {
            lemma_has_fav(*self, fid);
        }
        if found {
            false
        } else {
            let ghost pre = *self;
            self.favorites.push(FavoriteRow { fid, name, path, latest_row_at: 0 });
            proof {
                assert(self.source_rows(SourceVariant::Favorite) =~= pre.source_rows(
                    SourceVariant::Favorite,
                ).push((fid, self.favorites@.last().path, 0i64)));
                assert(self.source_rows(SourceVariant::Collection) =~= pre.source_rows(
                    SourceVariant::Collection,
                ));
                assert(self.source_rows(SourceVariant::Submission) =~= pre.source_rows(
                    SourceVariant::Submission,
                ));
                assert(self.source_rows(SourceVariant::WatchLater) =~= pre.source_rows(
                    SourceVariant::WatchLater,
                ));
            }
            true
        }
    }

    /// Register a collection with the zero watermark.
    pub fn register_collection(
        &mut self,
        sid: i64,
        mid: i64,
        kind: CollectionKind,
        path: String,
    ) -> (added: bool)
        requires
            old(self).wf(),
        ensures
            final(self).wf(),
            added == !old(self).has_source(
                SourceKey { variant: SourceVariant::Collection, id: sid },
            ),
            added ==> final(self).source_rows(SourceVariant::Collection) == old(self).source_rows(
                SourceVariant::Collection,
            ).push((sid, path, 0i64)),
            !added ==> *final(self) == *old(self),
            final(self).videos == old(self).videos,
            final(self).favorites == old(self).favorites,
            final(self).submissions == old(self).submissions,
            final(self).watch_laters == old(self).watch_laters,
    {
        let mut i: usize = 0;
        let mut found = false;
        while i < self.collections.len()
            invariant
                i <= self.collections.len(),
                *self == *old(self),
                found == exists|j: int|
                    0 <= j < i && (#[trigger] self.collections@[j]).sid == sid,
            decreases self.collections.len() - i,
        {
            if self.collections[i].sid == sid {
                found = true;
            }
            i += 1;
        }
        proof {
            lemma_has_coll(*self, sid);
        }
        if found {
            false
        } else {
            let ghost pre = *self;
            self.collections.push(CollectionRow { sid, mid, kind, path, latest_row_at: 0 });
            proof {
                assert(self.source_rows(SourceVariant::Collection) =~= pre.source_rows(
                    SourceVariant::Collection,
                ).push((sid, self.collections@.last().path, 0i64)));
                assert(self.source_rows(SourceVariant::Favorite) =~= pre.source_rows(
                    SourceVariant::Favorite,
                ));
                assert(self.source_rows(SourceVariant::Submission) =~= pre.source_rows(
                    SourceVariant::Submission,
                ));
                assert(self.source_rows(SourceVariant::WatchLater) =~= pre.source_rows(
                    SourceVariant::WatchLater,
                ));
            }
            true
        }
    }

    /// Register a creator's submissions with the zero watermark.
    pub fn register_submission(&mut self, upper_id: i64, path: String) -> (added: bool)
        requires
            old(self).wf(),
        ensures
            final(self).wf(),
            added == !old(self).has_source(
                SourceKey { variant: SourceVariant::Submission, id: upper_id },
            ),
            added ==> final(self).source_rows(SourceVariant::Submission) == old(self).source_rows(
                SourceVariant::Submission,
            ).push((upper_id, path, 0i64)),
            !added ==> *final(self) == *old(self),
            final(self).videos == old(self).videos,
            final(self).favorites == old(self).favorites,
            final(self).collections == old(self).collections,
            final(self).watch_laters == old(self).watch_laters,
    {
        let mut i: usize = 0;
        let mut found = false;
        while i < self.submissions.len()
            invariant
                i <= self.submissions.len(),
                *self == *old(self),
                found == exists|j: int|
                    0 <= j < i && (#[trigger] self.submissions@[j]).upper_id == upper_id,
            decreases self.submissions.len() - i,
        {
            if self.submissions[i].upper_id == upper_id {
                found = true;
            }
            i += 1;
        }
        proof {
            lemma_has_sub(*self, upper_id);
        }
        if found {
            false
        } else {
            let ghost pre = *self;
            self.submissions.push(SubmissionRow { upper_id, path, latest_row_at: 0 });
            proof {
                assert(self.source_rows(SourceVariant::Submission) =~= pre.source_rows(
                    SourceVariant::Submission,
                ).push((upper_id, self.submissions@.last().path, 0i64)));
                assert(self.source_rows(SourceVariant::Favorite) =~= pre.source_rows(
                    SourceVariant::Favorite,
                ));
                assert(self.source_rows(SourceVariant::Collection) =~= pre.source_rows(
                    SourceVariant::Collection,
                ));
                assert(self.source_rows(SourceVariant::WatchLater) =~= pre.source_rows(
                    SourceVariant::WatchLater,
                ));
            }
            true
        }
    }

    /// Register the watch-later queue with the zero watermark.
    pub fn register_watch_later(&mut self, path: String) -> (added: bool)
        requires
            old(self).wf(),
        ensures
            final(self).wf(),
            added == !old(self).has_source(
                SourceKey { variant: SourceVariant::WatchLater, id: WATCH_LATER_ID },
            ),
            added ==> final(self).source_rows(SourceVariant::WatchLater) == old(self).source_rows(
                SourceVariant::WatchLater,
            ).push((WATCH_LATER_ID, path, 0i64)),
            !added ==> *final(self) == *old(self),
            final(self).videos == old(self).videos,
            final(self).favorites == old(self).favorites,
            final(self).collections == old(self).collections,
            final(self).submissions == old(self).submissions,
    {
        let mut i: usize = 0;
        let mut found = false;
        while i < self.watch_laters.len()
            invariant
                i <= self.watch_laters.len(),
                *self == *old(self),
                found == exists|j: int|
                    0 <= j < i && (#[trigger] self.watch_laters@[j]).id == WATCH_LATER_ID,
            decreases self.watch_laters.len() - i,
        {
            if self.watch_laters[i].id == WATCH_LATER_ID {
                found = true;
            }
            i += 1;
        }
        proof {
            lemma_has_wl(*self, WATCH_LATER_ID);
        }
        if found {
            false
        } else {
            let ghost pre = *self;
            self.watch_laters.push(WatchLaterRow { id: WATCH_LATER_ID, path, latest_row_at: 0 });
            proof {
                assert(self.source_rows(SourceVariant::WatchLater) =~= pre.source_rows(
                    SourceVariant::WatchLater,
                ).push((WATCH_LATER_ID, self.watch_laters@.last().path, 0i64)));
                assert(self.source_rows(SourceVariant::Favorite) =~= pre.source_rows(
                    SourceVariant::Favorite,
                ));
                assert(self.source_rows(SourceVariant::Collection) =~= pre.source_rows(
                    SourceVariant::Collection,
                ));
                assert(self.source_rows(SourceVariant::Submission) =~= pre.source_rows(
                    SourceVariant::Submission,
                ));
            }
            true
        }
    }

    /// Insert a video row unless its composite key is already at rest.
    /// A duplicate is the expected signal that the video was ingested
    /// before; it leaves the store alone.
    pub fn insert_video(&mut self, rec: VideoRecord) -> (inserted: bool)
        requires
            old(self).wf(),
        ensures
            final(self).wf(),
            inserted == !old(self).has_video(rec.variant, rec.source_id, rec.aid),
            inserted ==> final(self).videos@ == old(self).videos@.push(rec),
            !inserted ==> *final(self) == *old(self),
            final(self).favorites == old(self).favorites,
            final(self).collections == old(self).collections,
            final(self).submissions == old(self).submissions,
            final(self).watch_laters == old(self).watch_laters,
    {
        let mut i: usize = 0;
        let mut found = false;
        while i < self.videos.len()
            invariant
                i <= self.videos.len(),
                *self == *old(self),
                found == exists|j: int|
                    0 <= j < i && (#[trigger] self.videos@[j]).key() == (
                    rec.variant,
                    rec.source_id,
                    rec.aid,
                    ),
            decreases self.videos.len() - i,
        {
            let r = &self.videos[i];
            let same = r.variant == rec.variant && r.source_id == rec.source_id && r.aid
                == rec.aid;
            proof {
                assert((self.videos@[i as int].key() == (rec.variant, rec.source_id, rec.aid))
                    == same);
            }
            if same {
                found = true;
            }
            i += 1;
        }
        if found {
            false
        } else {
            let ghost pre = *self;
            self.videos.push(rec);
            proof {
                assert forall|a: int, b: int| 0 <= a < b < self.videos@.len() implies (
                #[trigger] self.videos@[a]).key() != (#[trigger] self.videos@[b]).key() by {
                    if b == self.videos@.len() - 1 {
                        assert(self.videos@[a] == pre.videos@[a]);
                    }
                }
                assert(self.source_rows(SourceVariant::Favorite) =~= pre.source_rows(
                    SourceVariant::Favorite,
                ));
                assert(self.source_rows(SourceVariant::Collection) =~= pre.source_rows(
                    SourceVariant::Collection,
                ));
                assert(self.source_rows(SourceVariant::Submission) =~= pre.source_rows(
                    SourceVariant::Submission,
                ));
                assert(self.source_rows(SourceVariant::WatchLater) =~= pre.source_rows(
                    SourceVariant::WatchLater,
                ));
            }
            true
        }
    }

    /// Reload the descriptor of a registered source from its row.
    pub fn load_source(&self, key: SourceKey) -> (r: Option<VideoSourceEnum>)
        requires
            self.wf(),
        ensures
            r is Some <==> self.has_source(key),
            r matches Some(s) ==> {
                &&& s.key_spec() == key
                &&& Some(s.watermark_spec()) == self.source_wm(key)
                &&& Some(s.path_spec()) == self.source_path(key)
            },
    {
        match key.variant {
            SourceVariant::Favorite => {
                let mut i: usize = 0;
                while i < self.favorites.len()
                    invariant
                        i <= self.favorites.len(),
                        self.wf(),
                        key.variant == SourceVariant::Favorite,
                        forall|j: int| 0 <= j < i ==> (#[trigger] self.favorites@[j]).fid != key.id,
                    decreases self.favorites.len() - i,
                {
                    let row = &self.favorites[i];
                    if row.fid == key.id {
                        let s = Favorite {
                            fid: row.fid,
                            name: row.name.clone(),
                            path: row.path.clone(),
                            latest_row_at: row.latest_row_at,
                        };
                        proof {
                            assert(self.favorites@[i as int].fid == key.id);
                            lemma_has_fav(*self, key.id);
                            assert((#[trigger] self.source_rows(key.variant)[i as int]).0
                                == key.id);
                            assert(self.source_rows(key.variant)[self.row_index(key)].0 == key.id);
                            lemma_unique_index(
                                self.source_rows(key.variant),
                                i as int,
                                self.row_index(key),
                            );
                        }
                        return Some(VideoSourceEnum::Favorite(s));
                    }
                    i += 1;
                }
                proof {
                    lemma_has_fav(*self, key.id);
                }
                None
            },
            SourceVariant::Collection => {
                let mut i: usize = 0;
                while i < self.collections.len()
                    invariant
                        i <= self.collections.len(),
                        self.wf(),
                        key.variant == SourceVariant::Collection,
                        forall|j: int|
                            0 <= j < i ==> (#[trigger] self.collections@[j]).sid != key.id,
                    decreases self.collections.len() - i,
                {
                    let row = &self.collections[i];
                    if row.sid == key.id {
                        let s = Collection {
                            sid: row.sid,
                            mid: row.mid,
                            kind: row.kind,
                            path: row.path.clone(),
                            latest_row_at: row.latest_row_at,
                        };
                        proof {
                            assert(self.collections@[i as int].sid == key.id);
                            lemma_has_coll(*self, key.id);
                            assert((#[trigger] self.source_rows(key.variant)[i as int]).0
                                == key.id);
                            assert(self.source_rows(key.variant)[self.row_index(key)].0 == key.id);
                            lemma_unique_index(
                                self.source_rows(key.variant),
                                i as int,
                                self.row_index(key),
                            );
                        }
                        return Some(VideoSourceEnum::Collection(s));
                    }
                    i += 1;
                }
                proof {
                    lemma_has_coll(*self, key.id);
                }
                None
            },
            SourceVariant::Submission => {
                let mut i: usize = 0;
                while i < self.submissions.len()
                    invariant
                        i <= self.submissions.len(),
                        self.wf(),
                        key.variant == SourceVariant::Submission,
                        forall|j: int|
                            0 <= j < i ==> (#[trigger] self.submissions@[j]).upper_id != key.id,
                    decreases self.submissions.len() - i,
                {
                    let row = &self.submissions[i];
                    if row.upper_id == key.id {
                        let s = Submission {
                            upper_id: row.upper_id,
                            path: row.path.clone(),
                            latest_row_at: row.latest_row_at,
                        };
                        proof {
                            assert(self.submissions@[i as int].upper_id == key.id);
                            lemma_has_sub(*self, key.id);
                            assert((#[trigger] self.source_rows(key.variant)[i as int]).0
                                == key.id);
                            assert(self.source_rows(key.variant)[self.row_index(key)].0 == key.id);
                            lemma_unique_index(
                                self.source_rows(key.variant),
                                i as int,
                                self.row_index(key),
                            );
                        }
                        return Some(VideoSourceEnum::Submission(s));
                    }
                    i += 1;
                }
                proof {
                    lemma_has_sub(*self, key.id);
                }
                None
            },
            SourceVariant::WatchLater => {
                let mut i: usize = 0;
                while i < self.watch_laters.len()
                    invariant
                        i <= self.watch_laters.len(),
                        self.wf(),
                        key.variant == SourceVariant::WatchLater,
                        forall|j: int|
                            0 <= j < i ==> (#[trigger] self.watch_laters@[j]).id != key.id,
                    decreases self.watch_laters.len() - i,
                {
                    let row = &self.watch_laters[i];
                    if row.id == key.id {
                        let s = WatchLater {
                            path: row.path.clone(),
                            latest_row_at: row.latest_row_at,
                        };
                        proof {
                            assert(self.watch_laters@[i as int].id == key.id);
                            lemma_has_wl(*self, key.id);
                            assert((#[trigger] self.source_rows(key.variant)[i as int]).0
                                == key.id);
                            assert(self.source_rows(key.variant)[self.row_index(key)].0 == key.id);
                            lemma_unique_index(
                                self.source_rows(key.variant),
                                i as int,
                                self.row_index(key),
                            );
                        }
                        return Some(VideoSourceEnum::WatchLater(s));
                    }
                    i += 1;
                }
                proof {
                    lemma_has_wl(*self, key.id);
                }
                None
            },
        }
    }
}

impl _ActiveModel {
    /// Commit the staged watermark update to the owning row, whichever
    /// table that is; a missing row reports `RowMissing` and leaves the
    /// store untouched.
    pub fn save(self, connection: &mut Database) -> (r: Result<(), DbError>)
        requires
            old(connection).wf(),
        ensures
            final(connection).wf(),
            r is Ok <==> old(connection).has_source(self.target()),
            r is Err ==> *final(connection) == *old(connection),
            final(connection).videos == old(connection).videos,
            r is Ok ==> final(connection).source_wm(self.target()) == Some(self.staged_at()),
            forall|k: SourceKey|
                k != self.target() ==> final(connection).source_wm(k) == old(connection).source_wm(
                    k,
                ),
            forall|k: SourceKey|
                final(connection).source_path(k) == old(connection).source_path(k),
            forall|k: SourceKey|
                final(connection).has_source(k) == old(connection).has_source(k),
    {
        match self {
            _ActiveModel::Favorite { fid, latest_row_at } => {
                let ghost pre = *connection;
                proof {
                    lemma_has_fav(pre, fid);
                }
                let ok = set_fav_wm(&mut connection.favorites, fid, latest_row_at);
                if ok {
                    proof {
                        let vv = SourceVariant::Favorite;
                        assert forall|j: int| 0 <= j < pre.source_rows(vv).len() implies {
                            &&& (#[trigger] connection.source_rows(vv)[j]).0 == pre.source_rows(
                                vv,
                            )[j].0
                            &&& connection.source_rows(vv)[j].1 == pre.source_rows(vv)[j].1
                            &&& connection.source_rows(vv)[j].2 == (if pre.source_rows(vv)[j].0
                                == fid {
                                latest_row_at
                            } else {
                                pre.source_rows(vv)[j].2
                            })
                        } by {
                            assert(connection.source_rows(vv)[j] == (
                                connection.favorites@[j].fid,
                                connection.favorites@[j].path,
                                connection.favorites@[j].latest_row_at,
                            ));
                            assert(pre.source_rows(vv)[j] == (
                                pre.favorites@[j].fid,
                                pre.favorites@[j].path,
                                pre.favorites@[j].latest_row_at,
                            ));
                        }
                        assert(connection.source_rows(SourceVariant::Collection)
                            =~= pre.source_rows(SourceVariant::Collection));
                        assert(connection.source_rows(SourceVariant::Submission)
                            =~= pre.source_rows(SourceVariant::Submission));
                        assert(connection.source_rows(SourceVariant::WatchLater)
                            =~= pre.source_rows(SourceVariant::WatchLater));
                        assert forall|j: int|
                            0 <= j < connection.watch_laters@.len() implies (
                        #[trigger] connection.watch_laters@[j]).id == connection.source_rows(
                            SourceVariant::WatchLater,
                        )[j].0 by {}
                        lemma_wm_update(pre, *connection, vv, fid, latest_row_at);
                    }
                    Ok(())
                } else {
                    Err(DbError::RowMissing)
                }
            },
            _ActiveModel::Collection { sid, latest_row_at } => {
                let ghost pre = *connection;
                proof {
                    lemma_has_coll(pre, sid);
                }
                let ok = set_coll_wm(&mut connection.collections, sid, latest_row_at);
                if ok {
                    proof {
                        let vv = SourceVariant::Collection;
                        assert forall|j: int| 0 <= j < pre.source_rows(vv).len() implies {
                            &&& (#[trigger] connection.source_rows(vv)[j]).0 == pre.source_rows(
                                vv,
                            )[j].0
                            &&& connection.source_rows(vv)[j].1 == pre.source_rows(vv)[j].1
                            &&& connection.source_rows(vv)[j].2 == (if pre.source_rows(vv)[j].0
                                == sid {
                                latest_row_at
                            } else {
                                pre.source_rows(vv)[j].2
                            })
                        } by {
                            assert(connection.source_rows(vv)[j] == (
                                connection.collections@[j].sid,
                                connection.collections@[j].path,
                                connection.collections@[j].latest_row_at,
                            ));
                            assert(pre.source_rows(vv)[j] == (
                                pre.collections@[j].sid,
                                pre.collections@[j].path,
                                pre.collections@[j].latest_row_at,
                            ));
                        }
                        assert(connection.source_rows(SourceVariant::Favorite) =~= pre.source_rows(
                            SourceVariant::Favorite,
                        ));
                        assert(connection.source_rows(SourceVariant::Submission)
                            =~= pre.source_rows(SourceVariant::Submission));
                        assert(connection.source_rows(SourceVariant::WatchLater)
                            =~= pre.source_rows(SourceVariant::WatchLater));
                        assert forall|j: int|
                            0 <= j < connection.watch_laters@.len() implies (
                        #[trigger] connection.watch_laters@[j]).id == connection.source_rows(
                            SourceVariant::WatchLater,
                        )[j].0 by {}
                        lemma_wm_update(pre, *connection, vv, sid, latest_row_at);
                    }
                    Ok(())
                } else {
                    Err(DbError::RowMissing)
                }
            },
            _ActiveModel::Submission { upper_id, latest_row_at } => {
                let ghost pre = *connection;
                proof {
                    lemma_has_sub(pre, upper_id);
                }
                let ok = set_sub_wm(&mut connection.submissions, upper_id, latest_row_at);
                if ok {
                    proof {
                        let vv = SourceVariant::Submission;
                        assert forall|j: int| 0 <= j < pre.source_rows(vv).len() implies {
                            &&& (#[trigger] connection.source_rows(vv)[j]).0 == pre.source_rows(
                                vv,
                            )[j].0
                            &&& connection.source_rows(vv)[j].1 == pre.source_rows(vv)[j].1
                            &&& connection.source_rows(vv)[j].2 == (if pre.source_rows(vv)[j].0
                                == upper_id {
                                latest_row_at
                            } else {
                                pre.source_rows(vv)[j].2
                            })
                        } by {
                            assert(connection.source_rows(vv)[j] == (
                                connection.submissions@[j].upper_id,
                                connection.submissions@[j].path,
                                connection.submissions@[j].latest_row_at,
                            ));
                            assert(pre.source_rows(vv)[j] == (
                                pre.submissions@[j].upper_id,
                                pre.submissions@[j].path,
                                pre.submissions@[j].latest_row_at,
                            ));
                        }
                        assert(connection.source_rows(SourceVariant::Favorite) =~= pre.source_rows(
                            SourceVariant::Favorite,
                        ));
                        assert(connection.source_rows(SourceVariant::Collection)
                            =~= pre.source_rows(SourceVariant::Collection));
                        assert(connection.source_rows(SourceVariant::WatchLater)
                            =~= pre.source_rows(SourceVariant::WatchLater));
                        assert forall|j: int|
                            0 <= j < connection.watch_laters@.len() implies (
                        #[trigger] connection.watch_laters@[j]).id == connection.source_rows(
                            SourceVariant::WatchLater,
                        )[j].0 by {}
                        lemma_wm_update(pre, *connection, vv, upper_id, latest_row_at);
                    }
                    Ok(())
                } else {
                    Err(DbError::RowMissing)
                }
            },
            _ActiveModel::WatchLater { id, latest_row_at } => {
                let ghost pre = *connection;
                proof {
                    lemma_has_wl(pre, id);
                }
                let ok = set_wl_wm(&mut connection.watch_laters, id, latest_row_at);
                if ok {
                    proof {
                        let vv = SourceVariant::WatchLater;
                        assert forall|j: int| 0 <= j < pre.source_rows(vv).len() implies {
                            &&& (#[trigger] connection.source_rows(vv)[j]).0 == pre.source_rows(
                                vv,
                            )[j].0
                            &&& connection.source_rows(vv)[j].1 == pre.source_rows(vv)[j].1
                            &&& connection.source_rows(vv)[j].2 == (if pre.source_rows(vv)[j].0
                                == id {
                                latest_row_at
                            } else {
                                pre.source_rows(vv)[j].2
                            })
                        } by {
                            assert(connection.source_rows(vv)[j] == (
                                connection.watch_laters@[j].id,
                                connection.watch_laters@[j].path,
                                connection.watch_laters@[j].latest_row_at,
                            ));
                            assert(pre.source_rows(vv)[j] == (
                                pre.watch_laters@[j].id,
                                pre.watch_laters@[j].path,
                                pre.watch_laters@[j].latest_row_at,
                            ));
                        }
                        assert(connection.source_rows(SourceVariant::Favorite) =~= pre.source_rows(
                            SourceVariant::Favorite,
                        ));
                        assert(connection.source_rows(SourceVariant::Collection)
                            =~= pre.source_rows(SourceVariant::Collection));
                        assert(connection.source_rows(SourceVariant::Submission)
                            =~= pre.source_rows(SourceVariant::Submission));
                        assert forall|j: int|
                            0 <= j < connection.watch_laters@.len() implies (
                        #[trigger] connection.watch_laters@[j]).id == connection.source_rows(
                            SourceVariant::WatchLater,
                        )[j].0 by {}
                        lemma_wm_update(pre, *connection, vv, id, latest_row_at);
                    }
                    Ok(())
                } else {
                    Err(DbError::RowMissing)
                }
            },
        }
    }
}

/// How many persisted rows a selection predicate matches, scanning from
/// `from` on.
pub open spec fn selected_count_from(videos: Seq<VideoRecord>, e: FilterExpr, from: int) -> int
    decreases videos.len() - from,
{
    if from < 0 || from >= videos.len() {
        0
    } else {
        (if e.selects(videos[from].variant, videos[from].source_id) {
            1int
        } else {
            0int
        }) + selected_count_from(videos, e, from + 1)
    }
}

fn count_from(db: &Database, expr: &FilterExpr, from: usize) -> (n: usize)
    requires
        from <= db.videos.len(),
    ensures
        n as int == selected_count_from(db.videos@, *expr, from as int),
        n <= db.videos.len() - from,
    decreases db.videos.len() - from,
{
    if from >= db.videos.len() {
        0
    } else {
        let r = &db.videos[from];
        let c: usize = if expr.matches(r.variant, r.source_id) {
            1
        } else {
            0
        };
        let rest = count_from(db, expr, from + 1);
        c + rest
    }
}

impl Database {
    /// How many video rows a source's selection predicate matches: the
    /// rows the source owns.
    pub fn count_videos(&self, expr: &FilterExpr) -> (n: usize)
        ensures
            n as int == selected_count_from(self.videos@, *expr, 0),
    {
        count_from(self, expr, 0)
    }
}

} // verus!
