//! The paginated remote feed of one source and the scan that turns it
//! into the stream a refresh cycle consumes.
//!
//! The scan walks the feed page by page, in the order the platform hands
//! the pages out, and yields items until it meets a parsed video that is
//! not newer than the watermark.  That first stale video stops pagination
//! at once: no later page is fetched, and the stale video itself is not
//! yielded.  A page whose fetch failed ends the stream with a single
//! error item.

use vstd::prelude::*;
use vstd::assert_seqs_equal;

use crate::kinds::ErrorKind;
use crate::video::VideoInfo;

verus! {

/// One entry of a fetched page: a parsed video, or an item-level error
/// (a transient network failure or a malformed payload) that the stream
/// carries past.
pub enum RemoteItem {
    Video(VideoInfo),
    Broken(ErrorKind),
}

/// What fetching one page yields: its items, or the failure of the fetch
/// itself, which ends the stream of its source.
pub enum RemotePage {
    Items(Vec<RemoteItem>),
    Fail(ErrorKind),
}

/// The remote listing of one source, page by page, in the order the
/// platform would serve them.
pub struct RemoteFeed {
    pub pages: Vec<RemotePage>,
}

/// The boundary policy: is a release timestamp new relative to the
/// watermark `w`?  The default compares strictly; a variant that pages an
/// endpoint prone to re-ordering on the boundary compares inclusively and
/// leans on the store's uniqueness for dedup.
pub open spec fn take_spec(release_ts: i64, w: i64, inclusive: bool) -> bool {
    if inclusive {
        release_ts >= w
    } else {
        release_ts > w
    }
}

pub fn take_check(release_ts: i64, w: i64, inclusive: bool) -> (b: bool)
    ensures
        b == take_spec(release_ts, w, inclusive),
{
    if inclusive {
        release_ts >= w
    } else {
        release_ts > w
    }
}

/// The items one page contributes to the stream, scanning from `from`:
/// every item up to, and not including, the first stale video.
pub open spec fn page_stream_from(
    items: Seq<RemoteItem>,
    from: int,
    w: i64,
    inclusive: bool,
) -> Seq<Result<VideoInfo, ErrorKind>>
    decreases items.len() - from,
{
    if from < 0 || from >= items.len() {
        Seq::empty()
    } else {
        match items[from] {
            RemoteItem::Video(v) => {
                if take_spec(v.release_ts, w, inclusive) {
                    seq![Ok(v)] + page_stream_from(items, from + 1, w, inclusive)
                } else {
                    Seq::empty()
                }
            },
            RemoteItem::Broken(k) => seq![Err(k)] + page_stream_from(items, from + 1, w, inclusive),
        }
    }
}

/// Whether the scan of one page, from `from` on, meets a stale video and
/// therefore stops pagination.
pub open spec fn page_stopped_from(items: Seq<RemoteItem>, from: int, w: i64, inclusive: bool) -> bool
    decreases items.len() - from,
{
    if from < 0 || from >= items.len() {
        false
    } else {
        match items[from] {
            RemoteItem::Video(v) => !take_spec(v.release_ts, w, inclusive) || page_stopped_from(
                items,
                from + 1,
                w,
                inclusive,
            ),
            RemoteItem::Broken(k) => page_stopped_from(items, from + 1, w, inclusive),
        }
    }
}

/// How many pages the scan fetches, starting at page `from`: one fetch
/// per page until a page stops the scan or fails, or the feed runs out.
pub open spec fn pages_fetched_from(pages: Seq<RemotePage>, from: int, w: i64, inclusive: bool) -> int
    decreases pages.len() - from,
{
    if from < 0 || from >= pages.len() {
        0
    } else {
        match pages[from] {
            RemotePage::Fail(k) => 1,
            RemotePage::Items(items) => {
                if page_stopped_from(items@, 0, w, inclusive) {
                    1
                } else {
                    1 + pages_fetched_from(pages, from + 1, w, inclusive)
                }
            },
        }
    }
}

/// The whole stream the scan yields, starting at page `from`.
pub open spec fn stream_from(pages: Seq<RemotePage>, from: int, w: i64, inclusive: bool) -> Seq<
    Result<VideoInfo, ErrorKind>,
>
    decreases pages.len() - from,
{
    if from < 0 || from >= pages.len() {
        Seq::empty()
    } else {
        match pages[from] {
            RemotePage::Fail(k) => seq![Err(k)],
            RemotePage::Items(items) => {
                if page_stopped_from(items@, 0, w, inclusive) {
                    page_stream_from(items@, 0, w, inclusive)
                } else {
                    page_stream_from(items@, 0, w, inclusive) + stream_from(
                        pages,
                        from + 1,
                        w,
                        inclusive,
                    )
                }
            },
        }
    }
}

/// The stream a refresh of a source with watermark `w` yields.
pub open spec fn stream_spec(pages: Seq<RemotePage>, w: i64, inclusive: bool) -> Seq<
    Result<VideoInfo, ErrorKind>,
> {
    stream_from(pages, 0, w, inclusive)
}

/// The number of pages such a refresh fetches.
pub open spec fn pages_spec(pages: Seq<RemotePage>, w: i64, inclusive: bool) -> int {
    pages_fetched_from(pages, 0, w, inclusive)
}

/// An exact copy of a listed video.
fn clone_info(v: &VideoInfo) -> (r: VideoInfo)
    ensures
        r == *v,
{
    VideoInfo { aid: v.aid, title: v.title.clone(), release_ts: v.release_ts }
}

/// An exact copy of one stream item.
pub(crate) fn clone_item(it: &Result<VideoInfo, ErrorKind>) -> (r: Result<VideoInfo, ErrorKind>)
    ensures
        r == *it,
{
    match it {
        Ok(v) => Ok(clone_info(v)),
        Err(k) => Err(*k),
    }
}

/// Scan one page from `from` on: yield until the first stale video.
fn scan_items(items: &Vec<RemoteItem>, from: usize, w: i64, inclusive: bool) -> (r: (
    Vec<Result<VideoInfo, ErrorKind>>,
    bool,
))
    requires
        from <= items.len(),
    ensures
        r.0@ == page_stream_from(items@, from as int, w, inclusive),
        r.1 == page_stopped_from(items@, from as int, w, inclusive),
    decreases items.len() - from,
{
    if from >= items.len() {
        (Vec::new(), false)
    } else {
        match &items[from] {
            RemoteItem::Video(v) => {
                if take_check(v.release_ts, w, inclusive) {
                    let (mut rest, stopped) = scan_items(items, from + 1, w, inclusive);
                    let ghost tail = rest@;
                    rest.insert(0, Ok(clone_info(v)));
                    proof {
                        assert_seqs_equal!(rest@ == seq![Ok(items@[from as int]->Video_0)] + tail);
                    }
                    (rest, stopped)
                } else {
                    (Vec::new(), true)
                }
            },
            RemoteItem::Broken(k) => {
                let (mut rest, stopped) = scan_items(items, from + 1, w, inclusive);
                let ghost tail = rest@;
                rest.insert(0, Err(*k));
                proof {
                    assert_seqs_equal!(rest@ == seq![Err(items@[from as int]->Broken_0)] + tail);
                }
                (rest, stopped)
            },
        }
    }
}

/// Scan the feed from page `from` on; the second component counts the
/// pages actually fetched.
pub(crate) fn scan_pages(pages: &Vec<RemotePage>, from: usize, w: i64, inclusive: bool) -> (r: (
    Vec<Result<VideoInfo, ErrorKind>>,
    usize,
))
    requires
        from <= pages.len(),
    ensures
        r.0@ == stream_from(pages@, from as int, w, inclusive),
        r.1 as int == pages_fetched_from(pages@, from as int, w, inclusive),
        r.1 <= pages.len() - from,
    decreases pages.len() - from,
{
    if from >= pages.len() {
        (Vec::new(), 0)
    } else {
        match &pages[from] {
            RemotePage::Fail(k) => {
                let mut out: Vec<Result<VideoInfo, ErrorKind>> = Vec::new();
                out.push(Err(*k));
                proof {
                    assert_seqs_equal!(out@ == seq![Err(pages@[from as int]->Fail_0)]);
                }
                (out, 1)
            },
            RemotePage::Items(items) => {
                let (mut head, stopped) = scan_items(items, 0, w, inclusive);
                if stopped {
                    (head, 1)
                } else {
                    let (mut rest, n) = scan_pages(pages, from + 1, w, inclusive);
                    head.append(&mut rest);
                    (head, n + 1)
                }
            },
        }
    }
}

/// Every parsed video the scan yields is newer than the watermark under
/// the source's boundary policy: the short-circuit never lets a stale
/// video through.
pub proof fn lemma_page_stream_taken(items: Seq<RemoteItem>, from: int, w: i64, inclusive: bool)
    ensures
        forall|m: int|
            0 <= m < page_stream_from(items, from, w, inclusive).len() && page_stream_from(
                items,
                from,
                w,
                inclusive,
            )[m] is Ok ==> take_spec(page_stream_from(items, from, w, inclusive)[m]->Ok_0.release_ts, w, inclusive),
    decreases items.len() - from,
{
    if from < 0 || from >= items.len() {
    } else {
        lemma_page_stream_taken(items, from + 1, w, inclusive);
    }
}

/// The same, for the whole stream of a feed.
pub proof fn lemma_stream_taken(pages: Seq<RemotePage>, from: int, w: i64, inclusive: bool)
    ensures
        forall|m: int|
            0 <= m < stream_from(pages, from, w, inclusive).len() && stream_from(
                pages,
                from,
                w,
                inclusive,
            )[m] is Ok ==> take_spec(stream_from(pages, from, w, inclusive)[m]->Ok_0.release_ts, w, inclusive),
    decreases pages.len() - from,
{
    if from < 0 || from >= pages.len() {
    } else {
        match pages[from] {
            RemotePage::Fail(k) => {},
            RemotePage::Items(items) => {
                lemma_page_stream_taken(items@, 0, w, inclusive);
                if !page_stopped_from(items@, 0, w, inclusive) {
                    lemma_stream_taken(pages, from + 1, w, inclusive);
                }
            },
        }
    }
}

} // verus!
