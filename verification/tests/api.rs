use y2b_rs::config::Config;
use y2b_rs::discovery::PlaylistVideo;
use y2b_rs::fault::DbError;
use y2b_rs::json::read_json;
use y2b_rs::model::{CandidateSource, TransferMode};
use y2b_rs::poll::{ApiAnswer, ApiPoll, ApiStep, Quota, Scanned};
use y2b_rs::schedule::{QuotaDegradation, ScheduleError};
use y2b_rs::store::Database;

const NOW: i64 = 1_786_752_000_000;
const RESET: i64 = NOW + 7_200_000;

const NORMAL: Quota = Quota {
    degradation: QuotaDegradation::Normal,
    reset_at: RESET,
};

const USED_UP: Quota = Quota {
    degradation: QuotaDegradation::FallbackOnly,
    reset_at: RESET,
};

fn channel(db: &mut Database, name: &str, playlist: Option<&str>) -> i64 {
    let id = db
        .add_channel(
            name,
            name,
            "https://www.youtube.com/@name",
            "https://example.invalid/feed",
            TransferMode::Direct,
            NOW - 1_000,
        )
        .unwrap();
    if let Some(playlist) = playlist {
        db.set_channel_uploads_playlist(name, playlist).unwrap();
    }
    id
}

fn video(id: &str) -> PlaylistVideo {
    PlaylistVideo {
        video_id: id.into(),
        title: Some("title".into()),
        published_at: Some(NOW),
    }
}

fn next_at(db: &Database, id: i64) -> Option<i64> {
    db.channel(id).unwrap().next_data_api_poll_at
}

#[test]
fn nothing_due_is_nothing_done() {
    let mut db = Database::new("owner");
    let config = Config::default();
    assert!(db.begin_api_poll(&config, USED_UP, NOW).unwrap().is_none());
}

#[test]
fn channels_wait_for_the_quota() {
    let mut db = Database::new("owner");
    let config = Config::default();
    let ids = [channel(&mut db, "UC-a", Some("UU-a")), channel(&mut db, "UC-b", None)];
    assert!(db.begin_api_poll(&config, USED_UP, NOW).unwrap().is_none());
    for id in ids {
        assert_eq!(next_at(&db, id), Some(RESET));
    }
    assert!(db.begin_api_poll(&config, NORMAL, NOW).unwrap().is_none());
}

#[test]
fn channels_are_asked_for_one_after_the_other() {
    let mut db = Database::new("owner");
    let config = Config::default();
    let first = channel(&mut db, "UC-a", Some("UU-a"));
    let bare = channel(&mut db, "UC-b", None);
    let last = channel(&mut db, "UC-c", Some("UU-c"));
    let mut poll = db.begin_api_poll(&config, NORMAL, NOW).unwrap().unwrap();
    assert_eq!(poll.ids, vec![first, bare, last]);

    match db.next_api_step(&config, &mut poll, NORMAL, NOW).unwrap() {
        ApiStep::Ask {
            channel_id,
            playlist,
            etag,
        } => {
            assert_eq!(channel_id, first);
            assert_eq!(playlist, "UU-a");
            assert_eq!(etag, None);
        }
        other => panic!("{other:?}"),
    }
    let page = ApiAnswer::Page {
        videos: vec![video("normalvid01"), video("bad"), video("normalvid01")],
        etag: Some("tag".into()),
    };
    db.take_api_answer(&config, &mut poll, &page, NORMAL, NOW).unwrap();
    assert_eq!(poll.found, 1);
    assert!(next_at(&db, first).unwrap() > NOW);
    assert_eq!(db.channel(first).unwrap().data_api_etag.as_deref(), Some("tag"));
    assert_eq!(
        db.get_video_candidate("normalvid01").unwrap().source,
        CandidateSource::DataApi
    );

    assert!(matches!(
        db.next_api_step(&config, &mut poll, NORMAL, NOW).unwrap(),
        ApiStep::Passed
    ));
    assert!(next_at(&db, bare).unwrap() > NOW);

    assert!(matches!(
        db.next_api_step(&config, &mut poll, NORMAL, NOW).unwrap(),
        ApiStep::Ask { .. }
    ));
    let failed = ApiAnswer::Failed("HTTP 500".into());
    db.take_api_answer(&config, &mut poll, &failed, USED_UP, NOW).unwrap();
    assert_eq!(next_at(&db, last), Some(RESET));
    assert!(matches!(
        db.next_api_step(&config, &mut poll, NORMAL, NOW).unwrap(),
        ApiStep::Done
    ));
    assert_eq!(
        poll.outcome().unwrap_err(),
        "一个或多个频道的 Data API 主发现失败: HTTP 500"
    );
}

#[test]
fn unchanged_lists_keep_their_tag() {
    let mut db = Database::new("owner");
    let config = Config::default();
    let id = channel(&mut db, "UC-a", Some("UU-a"));
    db.set_channel_data_api_etag(id, "old").unwrap();
    let mut poll = db.begin_api_poll(&config, NORMAL, NOW).unwrap().unwrap();
    let unchanged = ApiAnswer::Unchanged { etag: None };
    db.take_api_answer(&config, &mut poll, &unchanged, NORMAL, NOW).unwrap();
    assert_eq!(db.channel(id).unwrap().data_api_etag.as_deref(), Some("old"));
    assert_eq!(poll.outcome(), Ok(0));
}

#[test]
fn a_poll_that_is_given_up_puts_all_off() {
    let mut db = Database::new("owner");
    let config = Config::default();
    let ids = [channel(&mut db, "UC-a", None), channel(&mut db, "UC-b", None)];
    let poll = db.begin_api_poll(&config, NORMAL, NOW).unwrap().unwrap();
    db.give_up_api_poll(&config, &poll, NORMAL, NOW).unwrap();
    for id in ids {
        assert!(next_at(&db, id).unwrap() > NOW);
    }
    let strange = ApiPoll {
        ids: vec![99],
        next: 0,
        found: 0,
        error: None,
    };
    assert!(matches!(
        db.give_up_api_poll(&config, &strange, NORMAL, NOW),
        Err(ScheduleError::Database(DbError::NoRow))
    ));
    assert!(matches!(
        db.give_up_api_poll(&config, &strange, USED_UP, NOW),
        Err(ScheduleError::Database(DbError::NoChannel))
    ));
}

#[test]
fn scans_are_noted() {
    let mut db = Database::new("owner");
    let id = channel(&mut db, "UC-a", Some("UU-a"));
    let page = Scanned::Page {
        videos: vec![video("normalvid01")],
        etag: Some("tag".into()),
    };
    assert_eq!(db.settle_scan(id, &page, 7_200, NOW).unwrap(), 1);
    assert_eq!(db.channels[0].last_reconcile_at, Some(NOW));
    assert_eq!(db.channel(id).unwrap().data_api_etag.as_deref(), Some("tag"));

    let failed = Scanned::Failed {
        error: "timeout".into(),
        api: Some("HTTP 500".into()),
    };
    assert_eq!(db.settle_scan(id, &failed, 7_200, NOW).unwrap(), 0);
    assert_eq!(
        db.channel(id).unwrap().last_error.as_deref(),
        Some("API: HTTP 500; yt-dlp: timeout")
    );

    let listed = Scanned::Listed {
        list: read_json(
            r#"{"entries":[{"id":"normalvid02","timestamp":1786752001},{"id":"bad"}]}"#,
        )
        .unwrap(),
        api: None,
    };
    assert_eq!(db.settle_scan(id, &listed, 7_200, NOW).unwrap(), 1);
    assert_eq!(db.channel(id).unwrap().last_error, None);
    assert_eq!(db.settle_scan(99, &listed, 7_200, NOW).unwrap(), 0);
    let tag_only = Scanned::Page {
        videos: Vec::new(),
        etag: Some("tag".into()),
    };
    assert!(matches!(
        db.settle_scan(99, &tag_only, 7_200, NOW),
        Err(DbError::NoChannel)
    ));
}
