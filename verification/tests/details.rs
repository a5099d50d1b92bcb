use y2b_rs::clock::LocalTime;
use y2b_rs::config::Config;
use y2b_rs::course::completion_timing;
use y2b_rs::fault::DbError;
use y2b_rs::gate::{early_gate_verdict, late_gate_verdict, Verdict};
use y2b_rs::model::{
    ChannelPriority, GateState, JobStatus, PreparedUpload, TransferMode, VideoMetadata,
};
use y2b_rs::queue::NewJob;
use y2b_rs::schedule::{
    jitter_of, predict, DataApiPollMode, QuotaDegradation, JITTER_LEAST, JITTER_MOST, JITTER_WHOLE,
};
use y2b_rs::store::{Database, UploadState};

const NOW: i64 = 1_786_752_000_000;

fn channel(db: &mut Database, name: &str) -> i64 {
    db.add_channel(
        name,
        name,
        "https://www.youtube.com/@name",
        "https://example.invalid/feed",
        TransferMode::Direct,
        NOW,
    )
    .unwrap()
}

fn new_job(video_id: &str) -> NewJob<'_> {
    NewJob {
        channel_id: None,
        video_id,
        url: "https://youtu.be/test",
        title: None,
        published: None,
        updated: None,
        transfer_mode: TransferMode::Direct,
    }
}

fn metadata() -> VideoMetadata {
    VideoMetadata {
        id: "normalvid01".into(),
        url: "https://www.youtube.com/watch?v=normalvid01".into(),
        title: "Title".into(),
        description: None,
        uploader: None,
        upload_date: None,
        channel: None,
        channel_id: None,
        timestamp: Some(1_786_752_001),
        duration_ms: Some(60_000),
        width: None,
        height: None,
        fps_milli: None,
        thumbnail_url: None,
        webpage_url: None,
        live_status: None,
        default_audio_language: None,
    }
}

#[test]
fn taken_names_make_no_second_job() {
    let mut db = Database::new("owner");
    assert!(db.create_job_with_id("one", &new_job("a"), NOW).unwrap());
    assert!(!db.create_job_with_id("one", &new_job("b"), NOW).unwrap());
    assert!(!db.create_job_with_id("two", &new_job("a"), NOW).unwrap());
    let mut strange = new_job("c");
    strange.channel_id = Some(9);
    assert!(matches!(
        db.create_job_with_id("three", &strange, NOW),
        Err(DbError::ForeignKey)
    ));
    assert_eq!(db.jobs.len(), 1);
}

#[test]
fn subscriptions_keep_their_secrets() {
    let mut db = Database::new("owner");
    let id = channel(&mut db, "UC-a");
    let other = channel(&mut db, "UC-b");
    let first = db.ensure_websub_credentials(id, "/path", "secret").unwrap();
    assert_eq!(first.callback_path.as_deref(), Some("/path"));
    let again = db.ensure_websub_credentials(id, "/other", "new").unwrap();
    assert_eq!(again.secret.as_deref(), Some("secret"));
    assert!(matches!(
        db.ensure_websub_credentials(other, "/path", "x"),
        Err(DbError::DuplicateId)
    ));
    assert_eq!(db.websub_channel_by_callback("/path").unwrap().id, id);
    assert!(db.websub_channel_by_callback("/none").is_none());
    assert_eq!(db.websub_channel("UC-b").unwrap().id, other);
    assert_eq!(db.websub_channel(&id.to_string()).unwrap().id, id);
    db.mark_websub_lease(id, NOW + 10).unwrap();
    let due: Vec<i64> = db
        .due_websub_channels(NOW)
        .iter()
        .map(|channel| channel.id)
        .collect();
    assert_eq!(due, vec![other]);
    assert_eq!(db.list_websub_channels().len(), 2);
    db.mark_websub_received(id, NOW, NOW + 5).unwrap();
    let channel = db.channel(id).unwrap();
    assert_eq!(channel.websub_last_received_at, Some(NOW));
    assert_eq!(channel.next_data_api_poll_at, Some(NOW + 5));
}

#[test]
fn channels_are_looked_up_and_noted() {
    let mut db = Database::new("owner");
    let id = channel(&mut db, "UC-a");
    assert_eq!(db.channel_feed(id).unwrap(), "https://example.invalid/feed");
    assert_eq!(db.channel_url(id).unwrap(), "https://www.youtube.com/@name");
    assert_eq!(db.channel_baseline(id).unwrap(), Some(NOW));
    assert_eq!(db.channel_consecutive_failures(id).unwrap(), 0);
    assert!(matches!(db.channel_feed(9), Err(DbError::NoRow)));
    assert!(db.has_missing_uploads_playlist_created_after(NOW - 1));
    assert!(!db.has_missing_uploads_playlist_created_after(NOW));
    db.mark_channel_checked(id, Some("broken"), NOW);
    assert_eq!(db.channel(id).unwrap().last_error.as_deref(), Some("broken"));
    db.mark_channel_reconciled(id, None, NOW + 1);
    assert_eq!(db.channel(id).unwrap().last_error, None);
    db.defer_channel_poll_until(id, NOW + 100).unwrap();
    assert!(db.list_due_channels(NOW + 99).is_empty());
    assert_eq!(db.list_due_channels(NOW + 100).len(), 1);
    db.schedule_data_api_poll(id, NOW + 7, Some("tag")).unwrap();
    assert!(db.list_due_data_api_channels(NOW + 6).is_empty());
    assert_eq!(db.list_due_data_api_channels(NOW + 7).len(), 1);
    db.set_channel_priority(id, ChannelPriority::Priority, NOW).unwrap();
    assert!(db.is_preferred(Some(id)));
    assert!(!db.is_preferred(None));
}

#[test]
fn candidates_are_decided_with_given_names() {
    let mut db = Database::new("owner");
    let id = channel(&mut db, "UC-a");
    let candidate = y2b_rs::candidates::NewVideoCandidate {
        video_id: "normalvid01",
        channel_id: Some(id),
        url: "https://www.youtube.com/watch?v=normalvid01",
        title: Some("Title"),
        published_at: Some(NOW + 1),
        source: y2b_rs::model::CandidateSource::Rss,
    };
    assert!(db.insert_video_candidate(&candidate, NOW).unwrap());
    let found = db.get_video_candidate("normalvid01").unwrap();
    let config = Config::default();
    assert!(db
        .gate_candidate_with_id("job", &config, &found, &metadata(), NOW)
        .unwrap());
    let job = db.get_job("job").unwrap().unwrap();
    assert_eq!(job.channel_id, Some(id));
    assert_eq!(job.published_at, Some(1_786_752_001_000));
    assert_eq!(
        db.get_video_candidate("normalvid01").unwrap().gate_state,
        GateState::Promoted
    );
    assert!(!db
        .promote_video_candidate_with_id("again", &found, None, None, NOW)
        .unwrap());
    assert!(matches!(
        db.reject_video_candidate("normalvid09", "gone"),
        Err(DbError::NoCandidate)
    ));
}

#[test]
fn verdicts_come_in_order() {
    let config = Config::default();
    let mut live = metadata();
    live.live_status = Some("is_live".into());
    live.duration_ms = Some(100_000_000);
    assert!(matches!(
        early_gate_verdict(&config, &live),
        Some(Verdict::Defer(_))
    ));
    live.live_status = None;
    assert!(matches!(
        early_gate_verdict(&config, &live),
        Some(Verdict::TooLong(_))
    ));
    assert!(early_gate_verdict(&config, &metadata()).is_none());
    let at = 1_786_752_001_000;
    assert!(matches!(
        late_gate_verdict(&config, &metadata(), None, Some(at)),
        Verdict::Refuse(_)
    ));
    assert!(matches!(
        late_gate_verdict(&config, &metadata(), None, Some(at - 1)),
        Verdict::LetIn(Some(found)) if found == at
    ));
    let mut undated = metadata();
    undated.timestamp = None;
    assert!(matches!(
        late_gate_verdict(&config, &undated, None, Some(at)),
        Verdict::Refuse(_)
    ));
}

#[test]
fn predictions_follow_the_hour() {
    let config = Config::default();
    let history: Vec<LocalTime> = (0..20)
        .map(|_| LocalTime {
            weekday: 2,
            second: 43_200,
        })
        .collect();
    let at = |weekday, second| {
        predict(
            &config,
            &history,
            history.len(),
            LocalTime { weekday, second },
            QuotaDegradation::Normal,
            false,
        )
    };
    assert_eq!(at(2, 45_000).mode, DataApiPollMode::PredictedHot);
    assert_eq!(at(5, 45_000).mode, DataApiPollMode::PredictedCold);
    let few = predict(
        &config,
        &history,
        0,
        LocalTime {
            weekday: 2,
            second: 43_200,
        },
        QuotaDegradation::Normal,
        false,
    );
    assert_eq!(few.mode, DataApiPollMode::InsufficientHistory);
    assert_eq!(jitter_of(0), JITTER_LEAST);
    assert_eq!(jitter_of(u16::MAX), JITTER_MOST);
    assert_eq!(JITTER_LEAST * 2, JITTER_WHOLE);
}

#[test]
fn attempts_have_given_names() {
    let mut db = Database::new("owner");
    db.create_job_with_id("job", &new_job("a"), NOW).unwrap();
    let plan = PreparedUpload::Submission {
        video_path: "/v".into(),
        cover_path: "/c".into(),
        mode: TransferMode::Direct,
        completion_status: JobStatus::Completed,
    };
    db.queue_prepared_upload("job", &plan, NOW).unwrap();
    assert!(db.begin_prepared_upload_with_id("try", "job", NOW).unwrap());
    assert!(!db.begin_prepared_upload_with_id("next", "job", NOW).unwrap());
    db.fail_upload_attempt("job", "try", "boom", NOW).unwrap();
    assert_eq!(db.uploads[0].status, UploadState::Failed);
    assert!(matches!(
        db.fail_upload_attempt("job", "try", "boom", NOW),
        Err(DbError::AttemptGone)
    ));
    let timing = completion_timing(1_800, NOW).unwrap();
    assert_eq!(timing.next_submit_at, Some(NOW + 1_800_000));
    assert_eq!(timing.subtitle_delay_seconds, 90);
}

#[test]
fn subtitle_claims_end() {
    let mut db = Database::new("owner");
    db.create_job_with_id("job", &new_job("a"), NOW).unwrap();
    db.set_job_bvid("job", "BV1a", NOW).unwrap();
    db.queue_pending_subtitle("job", -1, NOW).unwrap();
    db.claim_subtitle_job_now("job", NOW).unwrap();
    assert!(db
        .begin_subtitle_attempt_with_id("try", "job", "BV1a", NOW)
        .unwrap()
        .is_none());
    let blocked = db
        .begin_subtitle_attempt_with_id("next", "job", "BV1a", NOW)
        .unwrap()
        .unwrap();
    assert_eq!(blocked.id, "try");
    db.finish_subtitle_claim("job", true, NOW).unwrap();
    let job = db.get_job("job").unwrap().unwrap();
    assert!(job.status.is_terminal());
    assert!(matches!(
        db.finish_subtitle_claim("job", true, NOW),
        Err(DbError::SubtitleClaimLost)
    ));
}

#[test]
fn submissions_are_kept_apart() {
    let mut db = Database::new("owner");
    for (id, video_id) in [("one", "a"), ("two", "b")] {
        db.create_job_with_id(id, &new_job(video_id), NOW).unwrap();
        let plan = PreparedUpload::Submission {
            video_path: "/v".into(),
            cover_path: "/c".into(),
            mode: TransferMode::Direct,
            completion_status: JobStatus::Completed,
        };
        db.queue_prepared_upload(id, &plan, NOW).unwrap();
    }
    assert!(db.begin_prepared_upload_with_id("try", "one", NOW).unwrap());
    let timing = completion_timing(1_800, NOW).unwrap();
    db.finish_upload_attempt(
        "one",
        "try",
        "BV1a",
        JobStatus::Completed,
        TransferMode::Direct,
        timing,
        NOW,
    )
    .unwrap();
    let last = NOW + 1_800_000 - 1;
    assert!(!db.begin_prepared_upload_with_id("next", "two", last).unwrap());
    assert!(db.begin_prepared_upload_with_id("next", "two", last + 1).unwrap());
    db.defer_bilibili_submissions(21_600, NOW).unwrap();
    assert_eq!(db.bilibili_submission_due(NOW + 21_599_999), Ok(false));
    assert_eq!(db.bilibili_submission_due(NOW + 21_600_000), Ok(true));
}
