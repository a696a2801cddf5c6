use bili_sync::cycle::{cycle_start, finish_cycle, process_item, run_cycle};
use bili_sync::feed::{RemoteFeed, RemoteItem, RemotePage};
use bili_sync::kinds::{CollectionKind, DownloadState, ErrorKind, SourceKey, SourceVariant};
use bili_sync::source::{
    Collection, Favorite, LogEvent, Submission, VideoSource, VideoSourceEnum, WatchLater,
    WATCH_LATER_ID, _ActiveModel,
};
use bili_sync::store::{Database, DbError};
use bili_sync::video::{VideoBuilder, VideoInfo};

fn vid(aid: i64, ts: i64) -> RemoteItem {
    RemoteItem::Video(VideoInfo {
        aid,
        title: format!("video {aid}"),
        release_ts: ts,
    })
}

fn fav_key(fid: i64) -> SourceKey {
    SourceKey {
        variant: SourceVariant::Favorite,
        id: fid,
    }
}

/// Register a favorite list, push its watermark to `wm`, and reload the
/// descriptor the way a cycle would.
fn favorite_at(db: &mut Database, fid: i64, wm: i64) -> VideoSourceEnum {
    assert!(db.register_favorite(fid, "list".to_string(), "/videos/fav".to_string()));
    if wm != 0 {
        let staged = _ActiveModel::Favorite {
            fid,
            latest_row_at: wm,
        };
        staged.save(db).unwrap();
    }
    db.load_source(fav_key(fid)).unwrap()
}

#[test]
fn should_take_is_strict_by_default() {
    let f = Favorite {
        fid: 1,
        name: "n".to_string(),
        path: "/p".to_string(),
        latest_row_at: 100,
    };
    assert!(f.should_take(101, 100));
    assert!(!f.should_take(100, 100));
    assert!(!f.should_take(99, 100));
}

#[test]
fn watch_later_takes_the_boundary() {
    let w = WatchLater {
        path: "/p".to_string(),
        latest_row_at: 100,
    };
    assert!(w.should_take(101, 100));
    assert!(w.should_take(100, 100));
    assert!(!w.should_take(99, 100));
}

#[test]
fn should_filter_passes_videos_and_drops_errors() {
    let f = Favorite {
        fid: 1,
        name: "n".to_string(),
        path: "/p".to_string(),
        latest_row_at: 0,
    };
    let v = VideoInfo {
        aid: 7,
        title: "t".to_string(),
        release_ts: 5,
    };
    assert_eq!(f.should_filter(Ok(v), 0).unwrap().aid, 7);
    assert!(f
        .should_filter(Err(ErrorKind::NetworkTransient), 0)
        .is_none());
}

#[test]
fn only_auth_and_not_found_are_fatal() {
    assert!(ErrorKind::Auth.is_fatal());
    assert!(ErrorKind::NotFound.is_fatal());
    assert!(!ErrorKind::RateLimited.is_fatal());
    assert!(!ErrorKind::NetworkTransient.is_fatal());
    assert!(!ErrorKind::MalformedResponse.is_fatal());
}

#[test]
fn builder_binds_the_source_relation() {
    let s = Submission {
        upper_id: 99,
        path: "/up".to_string(),
        latest_row_at: 0,
    };
    let v = VideoInfo {
        aid: 4,
        title: "t".to_string(),
        release_ts: 11,
    };
    let mut b = VideoBuilder::from_info(v, s.path().clone(), 1000);
    s.set_relation_id(&mut b);
    let rec = b.build();
    assert_eq!(rec.variant, SourceVariant::Submission);
    assert_eq!(rec.source_id, 99);
    assert_eq!(rec.aid, 4);
    assert_eq!(rec.release_ts, 11);
    assert_eq!(rec.path, "/up");
    assert_eq!(rec.created_at, 1000);
    assert_eq!(rec.state, DownloadState::Discovered);
}

#[test]
fn filter_expr_selects_exactly_own_rows() {
    let c = Collection {
        sid: 5,
        mid: 6,
        kind: CollectionKind::Season,
        path: "/c".to_string(),
        latest_row_at: 0,
    };
    let e = c.filter_expr();
    assert!(e.matches(SourceVariant::Collection, 5));
    assert!(!e.matches(SourceVariant::Collection, 6));
    assert!(!e.matches(SourceVariant::Favorite, 5));
}

#[test]
fn log_hooks_name_the_source() {
    let f = Favorite {
        fid: 3,
        name: "n".to_string(),
        path: "/p".to_string(),
        latest_row_at: 0,
    };
    assert_eq!(f.log_refresh_video_start(), LogEvent::RefreshStart(fav_key(3)));
    assert_eq!(f.log_refresh_video_end(2), LogEvent::RefreshEnd(fav_key(3), 2));
    assert_eq!(f.log_fetch_video_start(), LogEvent::FetchStart(fav_key(3)));
    assert_eq!(f.log_fetch_video_end(), LogEvent::FetchEnd(fav_key(3)));
    assert_eq!(f.log_download_video_start(), LogEvent::DownloadStart(fav_key(3)));
    assert_eq!(f.log_download_video_end(), LogEvent::DownloadEnd(fav_key(3)));
}

#[test]
fn watermark_roundtrips_through_the_store() {
    let mut db = Database::new();
    assert!(db.register_favorite(1, "l".to_string(), "/p".to_string()));
    let source = db.load_source(fav_key(1)).unwrap();
    assert_eq!(source.get_latest_row_at(), 0);
    let staged = source.update_latest_row_at(4242);
    staged.save(&mut db).unwrap();
    let reloaded = db.load_source(fav_key(1)).unwrap();
    assert_eq!(reloaded.get_latest_row_at(), 4242);
    assert_eq!(reloaded.path().as_str(), "/p");
}

#[test]
fn saving_an_unregistered_source_reports_the_missing_row() {
    let mut db = Database::new();
    let staged = _ActiveModel::Submission {
        upper_id: 8,
        latest_row_at: 10,
    };
    assert_eq!(staged.save(&mut db), Err(DbError::RowMissing));
    assert!(db.load_source(SourceKey {
        variant: SourceVariant::Submission,
        id: 8
    })
    .is_none());
}

#[test]
fn duplicate_registration_is_refused() {
    let mut db = Database::new();
    assert!(db.register_watch_later("/w".to_string()));
    assert!(!db.register_watch_later("/other".to_string()));
    assert_eq!(db.watch_laters.len(), 1);
    assert_eq!(db.watch_laters[0].id, WATCH_LATER_ID);
}

#[test]
fn inserting_a_matching_key_leaves_the_count_unchanged() {
    let mut db = Database::new();
    let source = {
        assert!(db.register_favorite(1, "l".to_string(), "/p".to_string()));
        db.load_source(fav_key(1)).unwrap()
    };
    let make = |title: &str| {
        let mut b = VideoBuilder::from_info(
            VideoInfo {
                aid: 42,
                title: title.to_string(),
                release_ts: 9,
            },
            "/p".to_string(),
            100,
        );
        source.set_relation_id(&mut b);
        b.build()
    };
    assert!(db.insert_video(make("first")));
    assert_eq!(db.videos.len(), 1);
    assert!(!db.insert_video(make("second")));
    assert_eq!(db.videos.len(), 1);
    assert_eq!(db.videos[0].title, "first");
}

#[test]
fn cold_start_favorite_ingests_everything() {
    let mut db = Database::new();
    let source = favorite_at(&mut db, 1, 0);
    let feed = RemoteFeed {
        pages: vec![
            RemotePage::Items(vec![vid(1, 100), vid(2, 90)]),
            RemotePage::Items(vec![vid(3, 80)]),
        ],
    };
    let (_, report, logs) = run_cycle(source, &feed, &mut db, 1_000);
    assert_eq!(report.new_count, 3);
    assert_eq!(report.watermark, 100);
    assert!(report.committed);
    assert_eq!(report.fatal, None);
    assert_eq!(report.pages_fetched, 2);
    assert_eq!(db.videos.len(), 3);
    assert_eq!(
        logs,
        vec![
            LogEvent::RefreshStart(fav_key(1)),
            LogEvent::RefreshEnd(fav_key(1), 3)
        ]
    );
    let reloaded = db.load_source(fav_key(1)).unwrap();
    assert_eq!(reloaded.get_latest_row_at(), 100);
}

fn submission_feed() -> RemoteFeed {
    RemoteFeed {
        pages: vec![
            RemotePage::Items(vec![vid(4, 250), vid(5, 210), vid(6, 190)]),
            RemotePage::Items(vec![vid(7, 180)]),
        ],
    }
}

fn submission_at(db: &mut Database, upper_id: i64, wm: i64) -> VideoSourceEnum {
    assert!(db.register_submission(upper_id, "/up".to_string()));
    if wm != 0 {
        let staged = _ActiveModel::Submission {
            upper_id,
            latest_row_at: wm,
        };
        staged.save(db).unwrap();
    }
    db.load_source(SourceKey {
        variant: SourceVariant::Submission,
        id: upper_id,
    })
    .unwrap()
}

#[test]
fn incremental_submission_stops_at_the_first_stale_item() {
    let mut db = Database::new();
    let source = submission_at(&mut db, 9, 200);
    let (_, report, _) = run_cycle(source, &submission_feed(), &mut db, 1_000);
    assert_eq!(report.new_count, 2);
    assert_eq!(report.watermark, 250);
    // the stale item on page one stops pagination: page two is never fetched
    assert_eq!(report.pages_fetched, 1);
    let aids: Vec<i64> = db.videos.iter().map(|r| r.aid).collect();
    assert_eq!(aids, vec![4, 5]);
}

#[test]
fn replaying_the_same_feed_persists_nothing() {
    let mut db = Database::new();
    let source = submission_at(&mut db, 9, 200);
    let (_, first, _) = run_cycle(source, &submission_feed(), &mut db, 1_000);
    assert_eq!(first.new_count, 2);
    assert_eq!(first.watermark, 250);
    let key = SourceKey {
        variant: SourceVariant::Submission,
        id: 9,
    };
    let reloaded = db.load_source(key).unwrap();
    let (_, second, _) = run_cycle(reloaded, &submission_feed(), &mut db, 2_000);
    assert_eq!(second.new_count, 0);
    assert_eq!(second.watermark, 250);
    assert!(!second.committed);
    assert_eq!(db.videos.len(), 2);
}

#[test]
fn malformed_items_are_dropped_and_the_rest_survive() {
    let mut db = Database::new();
    let source = favorite_at(&mut db, 1, 0);
    let feed = RemoteFeed {
        pages: vec![RemotePage::Items(vec![
            vid(10, 300),
            RemoteItem::Broken(ErrorKind::MalformedResponse),
            vid(11, 290),
        ])],
    };
    let (_, report, _) = run_cycle(source, &feed, &mut db, 1_000);
    assert_eq!(report.new_count, 2);
    assert_eq!(report.watermark, 300);
    assert_eq!(report.fatal, None);
    assert!(report.committed);
    assert_eq!(db.videos.len(), 2);
}

#[test]
fn cancellation_keeps_the_watermark_and_the_next_cycle_recovers() {
    let mut db = Database::new();
    let source = favorite_at(&mut db, 1, 0);
    // fifty fresh items, newest first, across five pages
    let mut pages = Vec::new();
    for p in 0..5i64 {
        let mut items = Vec::new();
        for q in 0..10i64 {
            let idx = p * 10 + q;
            items.push(vid(1000 + idx, 5000 - idx));
        }
        pages.push(RemotePage::Items(items));
    }
    let feed = RemoteFeed { pages };
    // the cycle dies after persisting the first twenty items
    let mut st = cycle_start(&source);
    let (source, stream, _) = source.refresh(&feed);
    for item in stream.into_iter().take(20) {
        process_item(&mut st, &source, item, &mut db, 1_000);
    }
    drop(st);
    assert_eq!(db.videos.len(), 20);
    let reloaded = db.load_source(fav_key(1)).unwrap();
    assert_eq!(reloaded.get_latest_row_at(), 0);
    // the next cycle replays the whole feed, skips the twenty and
    // persists the remaining thirty
    let (_, report, _) = run_cycle(reloaded, &feed, &mut db, 2_000);
    assert_eq!(report.new_count, 30);
    assert_eq!(report.watermark, 5000);
    assert_eq!(db.videos.len(), 50);
}

#[test]
fn auth_failure_persists_nothing_and_names_the_source() {
    let mut db = Database::new();
    let source = favorite_at(&mut db, 1, 77);
    let feed = RemoteFeed {
        pages: vec![RemotePage::Fail(ErrorKind::Auth)],
    };
    // the stream ends with the single fatal error
    let probe = db.load_source(fav_key(1)).unwrap();
    let (_, stream, fetched) = probe.refresh(&feed);
    assert_eq!(fetched, 1);
    assert_eq!(stream.len(), 1);
    assert!(matches!(stream[0], Err(ErrorKind::Auth)));
    let (_, report, logs) = run_cycle(source, &feed, &mut db, 1_000);
    assert_eq!(report.new_count, 0);
    assert_eq!(report.watermark, 77);
    assert!(!report.committed);
    assert_eq!(report.fatal, Some(ErrorKind::Auth));
    assert!(db.videos.is_empty());
    assert_eq!(
        logs,
        vec![
            LogEvent::RefreshStart(fav_key(1)),
            LogEvent::RefreshFatal(fav_key(1), ErrorKind::Auth),
            LogEvent::RefreshEnd(fav_key(1), 0)
        ]
    );
}

#[test]
fn watch_later_reingests_the_boundary_without_duplicates() {
    let mut db = Database::new();
    assert!(db.register_watch_later("/w".to_string()));
    let key = SourceKey {
        variant: SourceVariant::WatchLater,
        id: WATCH_LATER_ID,
    };
    let staged = _ActiveModel::WatchLater {
        id: WATCH_LATER_ID,
        latest_row_at: 100,
    };
    staged.save(&mut db).unwrap();
    let source = db.load_source(key).unwrap();
    let feed = RemoteFeed {
        pages: vec![RemotePage::Items(vec![vid(50, 100)])],
    };
    // the boundary item is taken inclusively and persisted once
    let (_, report, _) = run_cycle(source, &feed, &mut db, 1_000);
    assert_eq!(report.new_count, 1);
    assert_eq!(db.videos.len(), 1);
    assert_eq!(db.videos[0].release_ts, 100);
    // the maximum equals the watermark, so nothing advances
    assert!(!report.committed);
    assert_eq!(report.watermark, 100);
    // a replay dedups on the unique key
    let reloaded = db.load_source(key).unwrap();
    let feed2 = RemoteFeed {
        pages: vec![RemotePage::Items(vec![vid(50, 100)])],
    };
    let (_, second, _) = run_cycle(reloaded, &feed2, &mut db, 2_000);
    assert_eq!(second.new_count, 0);
    assert_eq!(db.videos.len(), 1);
}

#[test]
fn count_videos_counts_per_source() {
    let mut db = Database::new();
    let fav = favorite_at(&mut db, 1, 0);
    let sub = submission_at(&mut db, 9, 0);
    let feed_fav = RemoteFeed {
        pages: vec![RemotePage::Items(vec![vid(1, 10), vid(2, 5)])],
    };
    let feed_sub = RemoteFeed {
        pages: vec![RemotePage::Items(vec![vid(1, 20)])],
    };
    let (fav, _, _) = run_cycle(fav, &feed_fav, &mut db, 1_000);
    let (sub, _, _) = run_cycle(sub, &feed_sub, &mut db, 1_000);
    assert_eq!(db.count_videos(&fav.filter_expr()), 2);
    assert_eq!(db.count_videos(&sub.filter_expr()), 1);
    assert_eq!(db.videos.len(), 3);
}

#[test]
fn partial_cycle_state_tracks_the_maximum_and_finish_commits() {
    let mut db = Database::new();
    let source = favorite_at(&mut db, 1, 50);
    let mut st = cycle_start(&source);
    process_item(
        &mut st,
        &source,
        Ok(VideoInfo {
            aid: 70,
            title: "t".to_string(),
            release_ts: 120,
        }),
        &mut db,
        1_000,
    );
    process_item(
        &mut st,
        &source,
        Err(ErrorKind::NetworkTransient),
        &mut db,
        1_000,
    );
    assert_eq!(st.new_count, 1);
    assert_eq!(st.max_seen, 120);
    assert_eq!(st.fatal, None);
    let report = finish_cycle(st, &source, 1, &mut db);
    assert!(report.committed);
    assert_eq!(report.watermark, 120);
    let reloaded = db.load_source(fav_key(1)).unwrap();
    assert_eq!(reloaded.get_latest_row_at(), 120);
}

#[test]
fn run_cycle_now_stamps_all_rows_from_one_clock_reading() {
    let mut db = Database::new();
    let source = favorite_at(&mut db, 1, 0);
    let feed = RemoteFeed {
        pages: vec![RemotePage::Items(vec![vid(1, 100), vid(2, 90)])],
    };
    let (_, report, _) = bili_sync::cycle::run_cycle_now(source, &feed, &mut db);
    assert_eq!(report.new_count, 2);
    assert_eq!(report.watermark, 100);
    assert!(report.committed);
    assert_eq!(db.videos.len(), 2);
    // the whole cycle is stamped with a single ingestion timestamp
    assert_eq!(db.videos[0].created_at, db.videos[1].created_at);
    assert!(db.videos[0].created_at > 0);
}
