use y2b_rs::admin::Retried;
use y2b_rs::candidates::NewVideoCandidate;
use y2b_rs::cc::{CcOutcome, SubtitleAttempt, SubtitleAttemptDecision};
use y2b_rs::fault::DbError;
use y2b_rs::model::{
    CandidateSource, ChannelPriority, JobStatus, PreparedUpload, TransferMode, VideoMetadata,
};
use y2b_rs::queue::{
    NewJob, PREPARE_CLAIM_KIND, SUBTITLE_CLAIM_KIND, UNCERTAIN_UPLOAD_RECOVERY_ERROR,
    UPLOAD_CLAIM_KIND,
};
use y2b_rs::settings::NEXT_BILIBILI_SUBMIT_AT;
use y2b_rs::store::{Database, Job, LegacyStage, SubtitleState, UploadState};
use y2b_rs::uploads::UploadCompletionTiming;

const NOW: i64 = 1_786_752_000_000;
const MINUTE: i64 = 60_000;

fn new_job(video_id: &str, mode: TransferMode) -> NewJob<'_> {
    NewJob {
        channel_id: None,
        video_id,
        url: "https://youtu.be/test",
        title: None,
        published: None,
        updated: None,
        transfer_mode: mode,
    }
}

fn create(db: &mut Database, video_id: &str, mode: TransferMode) -> String {
    db.create_job(&new_job(video_id, mode), NOW).unwrap().unwrap()
}

fn plan(mode: TransferMode, completion_status: JobStatus) -> PreparedUpload {
    PreparedUpload::Submission {
        video_path: "/tmp/video.mp4".into(),
        cover_path: "/tmp/cover.jpg".into(),
        mode,
        completion_status,
    }
}

fn status(db: &Database, id: &str) -> JobStatus {
    db.get_job(id).unwrap().unwrap().status
}

fn is_plan(found: Option<PreparedUpload>, mode: TransferMode) -> bool {
    match found {
        Some(PreparedUpload::Submission {
            video_path,
            cover_path,
            mode: kept,
            completion_status,
        }) => {
            video_path == "/tmp/video.mp4"
                && cover_path == "/tmp/cover.jpg"
                && kept == mode
                && completion_status == JobStatus::Completed
        }
        None => false,
    }
}

fn timing(next_submit_at: Option<i64>) -> UploadCompletionTiming {
    UploadCompletionTiming {
        subtitle_delay_seconds: 90,
        next_submit_at,
    }
}

fn row<'a>(db: &'a mut Database, id: &str) -> &'a mut y2b_rs::store::JobRow {
    db.jobs.iter_mut().find(|row| row.job.id == id).unwrap()
}

fn run_as(db: &mut Database, owner: &str) {
    db.claim_owner = owner.to_string();
}

fn source_metadata() -> VideoMetadata {
    VideoMetadata {
        id: "ready-video".into(),
        url: "https://youtu.be/ready-video".into(),
        title: "Ready video".into(),
        description: Some("description".into()),
        uploader: Some("uploader".into()),
        upload_date: Some("20260804".into()),
        channel: Some("channel".into()),
        channel_id: Some("UC-ready".into()),
        timestamp: Some(1_800_000_000),
        duration_ms: Some(60_000),
        width: Some(1920),
        height: Some(1080),
        fps_milli: Some(60_000),
        thumbnail_url: Some("https://i.ytimg.com/ready.jpg".into()),
        webpage_url: Some("https://youtube.com/watch?v=ready-video".into()),
        live_status: Some("not_live".into()),
        default_audio_language: Some("en".into()),
    }
}

#[test]
fn jobs_bvid_is_unique_but_allows_multiple_nulls() {
    let mut db = Database::new("owner");
    let ids: Vec<String> = ["null-bvid-one", "null-bvid-two"]
        .iter()
        .map(|video_id| create(&mut db, video_id, TransferMode::Direct))
        .collect();
    assert!(ids
        .iter()
        .all(|id| db.get_job(id).unwrap().unwrap().bvid.is_none()));

    db.set_job_bvid(&ids[0], "BV1uxE16ZE7e", NOW).unwrap();
    let error = db.set_job_bvid(&ids[1], "BV1uxE16ZE7e", NOW).unwrap_err();
    assert!(error
        .message(&ids[1], "")
        .contains("UNIQUE constraint failed"));
    assert!(db.get_job(&ids[1]).unwrap().unwrap().bvid.is_none());
}

#[test]
fn jobs_awaiting_subtitle_lists_completed_with_bvid() {
    let mut db = Database::new("owner");
    for (video_id, mode) in [
        ("done-translated", TransferMode::Translated),
        ("done-direct", TransferMode::Direct),
        ("pending", TransferMode::Translated),
        ("no-bvid", TransferMode::Translated),
    ] {
        create(&mut db, video_id, mode);
    }
    let ids = db.list_jobs(10).unwrap();
    for (video_id, status, bvid) in [
        ("done-translated", JobStatus::Completed, Some("BV1a")),
        ("done-direct", JobStatus::Completed, Some("BV1b")),
        (
            "pending",
            JobStatus::UploadedOriginalPendingSubtitle,
            Some("BV1c"),
        ),
        ("no-bvid", JobStatus::Completed, None),
    ] {
        let job = ids.iter().find(|j| j.video_id == video_id).unwrap();
        if let Some(bvid) = bvid {
            db.set_job_bvid(&job.id, bvid, NOW).unwrap();
        }
        db.update_job_status(&job.id, status, None, NOW).unwrap();
    }
    let awaiting = db.jobs_awaiting_subtitle(NOW);
    let mut bvids: Vec<_> = awaiting
        .iter()
        .map(|j| j.bvid.as_deref().unwrap())
        .collect();
    bvids.sort_unstable();
    assert_eq!(bvids, ["BV1a", "BV1b", "BV1c"]);
}

#[test]
fn completed_direct_job_is_not_listed_as_awaiting_until_has_bvid() {
    let mut db = Database::new("owner");
    let id = create(&mut db, "direct-completed", TransferMode::Direct);
    db.update_job_status(&id, JobStatus::Completed, None, NOW)
        .unwrap();
    assert!(db.jobs_awaiting_subtitle(NOW).is_empty());
    db.set_job_bvid(&id, "BV1direct", NOW).unwrap();
    assert_eq!(db.jobs_awaiting_subtitle(NOW).len(), 1);
}

fn add_channel(db: &mut Database, name: &str, mode: TransferMode) -> i64 {
    db.add_channel(
        &format!("UC-{name}"),
        name,
        &format!("https://youtube.com/@{name}/videos"),
        &format!("https://youtube.com/feeds/videos.xml?channel_id=UC-{name}"),
        mode,
        NOW,
    )
    .unwrap()
}

#[test]
fn channel_mode_is_snapshotted_on_new_jobs() {
    let mut db = Database::new("owner");
    let channel_id = add_channel(&mut db, "test", TransferMode::Direct);
    let mut job = new_job("first", db.channel_transfer_mode(channel_id).unwrap());
    job.channel_id = Some(channel_id);
    let first = db.create_job(&job, NOW).unwrap().unwrap();
    db.set_channel_transfer_mode(channel_id, TransferMode::Translated)
        .unwrap();
    let mut job = new_job("second", db.channel_transfer_mode(channel_id).unwrap());
    job.channel_id = Some(channel_id);
    let second = db.create_job(&job, NOW).unwrap().unwrap();

    assert_eq!(
        db.get_job(&first).unwrap().unwrap().transfer_mode,
        TransferMode::Direct
    );
    assert_eq!(
        db.get_job(&second).unwrap().unwrap().transfer_mode,
        TransferMode::Translated
    );
}

#[test]
fn set_channel_enabled_reports_missing_channel_and_updates_existing() {
    let mut db = Database::new("owner");
    let error = db
        .set_channel_enabled(999, false)
        .unwrap_err()
        .message("999", "");
    assert!(error.contains("频道不存在"));

    let id = add_channel(&mut db, "enable", TransferMode::Direct);
    db.set_channel_enabled(id, false).unwrap();
    assert!(!db.channel(id).unwrap().enabled);
    db.set_channel_enabled(id, true).unwrap();
    assert!(db.channel(id).unwrap().enabled);
}

#[test]
fn channel_priority_controls_discovery_and_both_job_queues() {
    let mut db = Database::new("owner");
    let normal_channel = add_channel(&mut db, "normal", TransferMode::Direct);
    let priority_channel = add_channel(&mut db, "priority", TransferMode::Direct);
    assert_eq!(
        db.channel(priority_channel).unwrap().priority,
        ChannelPriority::Normal
    );
    db.set_channel_priority(priority_channel, ChannelPriority::Priority, NOW)
        .unwrap();

    let due_at = NOW + 1_000;
    assert_eq!(
        db.list_due_priority_channels(due_at)[0].id,
        priority_channel
    );
    assert_eq!(db.list_due_normal_channels(due_at)[0].id, normal_channel);

    let create_in = |db: &mut Database, channel_id, video_id: &'static str| {
        let mut job = new_job(video_id, TransferMode::Direct);
        job.channel_id = Some(channel_id);
        db.create_job(&job, NOW).unwrap().unwrap()
    };
    let normal_job = create_in(&mut db, normal_channel, "normal-job");
    let priority_first = create_in(&mut db, priority_channel, "priority-first");
    let priority_second = create_in(&mut db, priority_channel, "priority-second");
    for (id, discovered_at) in [
        (&normal_job, 1_767_225_600_000),
        (&priority_first, 1_767_225_660_000),
        (&priority_second, 1_767_225_720_000),
    ] {
        row(&mut db, id).job.discovered_at = discovered_at;
    }
    assert_eq!(db.next_queued_job(NOW).unwrap().id, priority_first);
    db.update_job_status(&priority_first, JobStatus::Completed, None, NOW)
        .unwrap();
    assert_eq!(db.next_queued_job(NOW).unwrap().id, priority_second);
    db.update_job_status(&priority_second, JobStatus::Completed, None, NOW)
        .unwrap();
    assert_eq!(db.next_queued_job(NOW).unwrap().id, normal_job);

    let normal_upload = create_in(&mut db, normal_channel, "normal-upload");
    let priority_upload = create_in(&mut db, priority_channel, "priority-upload");
    let upload = plan(TransferMode::Direct, JobStatus::Completed);
    db.queue_prepared_upload(&normal_upload, &upload, NOW)
        .unwrap();
    db.queue_prepared_upload(&priority_upload, &upload, NOW)
        .unwrap();
    assert_eq!(
        db.next_ready_to_upload_job(NOW).unwrap().id,
        priority_upload
    );

    for (video_id, channel_id) in [
        ("normal-candidate", normal_channel),
        ("priority-candidate", priority_channel),
    ] {
        db.insert_video_candidate(
            &NewVideoCandidate {
                video_id,
                channel_id: Some(channel_id),
                url: "https://youtu.be/candidate",
                title: None,
                published_at: None,
                source: CandidateSource::Rss,
            },
            NOW,
        )
        .unwrap();
    }
    assert_eq!(
        db.due_video_candidates(NOW, 10)[0].video_id,
        "priority-candidate"
    );
}

#[test]
fn retry_wait_jobs_observe_backoff_before_reclaim() {
    let mut db = Database::new("owner");
    let id = create(&mut db, "backoff-video", TransferMode::Translated);
    db.defer_job_retry(&id, JobStatus::RetryWait, "rate limited", 600, NOW)
        .unwrap();
    assert!(db.next_queued_job(NOW).is_none());

    db.defer_job_retry(&id, JobStatus::RetryWait, "rate limited", -1, NOW)
        .unwrap();
    assert_eq!(db.next_queued_job(NOW).unwrap().id, id);

    assert!(db
        .update_job_status(&id, JobStatus::RetryWait, Some("boom"), NOW)
        .is_err());

    let found = row(&mut db, &id);
    found.job.status = JobStatus::RetryWait;
    found.retry_at = None;
    found.updated_at = NOW;
    assert!(db.next_queued_job(NOW).is_none());
    row(&mut db, &id).updated_at = NOW - 11 * MINUTE;
    assert_eq!(db.next_queued_job(NOW).unwrap().id, id);
}

#[test]
fn prepare_claim_is_atomic_leased_and_rejects_stale_owner_writes() {
    let mut db = Database::new("first");
    let id = create(&mut db, "claimed-prepare", TransferMode::Direct);

    let claimed = db.claim_next_prepare_job(NOW).unwrap();
    assert_eq!(claimed.id, id);
    assert_eq!(claimed.status, JobStatus::Inspecting);
    run_as(&mut db, "second");
    assert!(db.claim_next_prepare_job(NOW).is_none());
    assert_eq!(db.recover_incomplete_jobs(NOW), 0);

    row(&mut db, &id).claim_expires_at = Some(NOW - 1_000);
    assert_eq!(db.recover_incomplete_jobs(NOW), 1);
    assert_eq!(db.claim_next_prepare_job(NOW).unwrap().id, id);
    run_as(&mut db, "first");
    assert!(db
        .update_claimed_job_status(
            &id,
            PREPARE_CLAIM_KIND,
            JobStatus::Processing,
            None,
            false,
            NOW
        )
        .is_err());
}

#[test]
fn maintenance_hold_refuses_prepare_upload_and_subtitle_claims_until_expiry() {
    let mut db = Database::new("owner");
    let prepare_id = create(&mut db, "hold-prepare", TransferMode::Direct);
    let upload_id = create(&mut db, "hold-upload", TransferMode::Direct);
    db.queue_prepared_upload(
        &upload_id,
        &plan(TransferMode::Direct, JobStatus::Completed),
        NOW,
    )
    .unwrap();
    let subtitle_id = create(&mut db, "hold-subtitle", TransferMode::Direct);
    db.set_job_bvid(&subtitle_id, "BV1holdtest1", NOW).unwrap();
    db.queue_pending_subtitle(&subtitle_id, -1, NOW).unwrap();

    assert!(db
        .acquire_maintenance_hold("deploy:claims", "验证队列暂停", 300, NOW)
        .unwrap());
    assert!(db.next_queued_job(NOW).is_none());
    assert!(db.claim_next_prepare_job(NOW).is_none());
    assert!(db.claim_prepare_job(&prepare_id, NOW).is_none());
    assert!(db.next_ready_to_upload_job(NOW).is_none());
    assert!(!db.bilibili_submission_due(NOW).unwrap());
    assert!(db.begin_prepared_upload(&upload_id, NOW).unwrap().is_none());
    assert!(db.next_pending_subtitle_job(16, NOW).is_none());
    assert!(db.claim_next_pending_subtitle_job(16, NOW).is_none());
    assert!(db.claim_subtitle_job_now(&subtitle_id, NOW).is_none());

    db.hold.as_mut().unwrap().expires_at = NOW - 1_000;
    assert_eq!(db.claim_next_prepare_job(NOW).unwrap().id, prepare_id);
    assert!(db.begin_prepared_upload(&upload_id, NOW).unwrap().is_some());
    assert_eq!(
        db.claim_next_pending_subtitle_job(16, NOW).unwrap().id,
        subtitle_id
    );
}

#[test]
fn maintenance_hold_does_not_interrupt_already_claimed_work() {
    let mut db = Database::new("owner");
    let prepare_id = create(&mut db, "inflight-prepare", TransferMode::Direct);
    db.claim_prepare_job(&prepare_id, NOW).unwrap();

    let upload_id = create(&mut db, "inflight-upload", TransferMode::Direct);
    db.queue_prepared_upload(
        &upload_id,
        &plan(TransferMode::Direct, JobStatus::Completed),
        NOW,
    )
    .unwrap();
    let upload_attempt = db.begin_prepared_upload(&upload_id, NOW).unwrap().unwrap();

    let subtitle_id = create(&mut db, "inflight-subtitle", TransferMode::Direct);
    db.set_job_bvid(&subtitle_id, "BV1holdtest2", NOW).unwrap();
    db.queue_pending_subtitle(&subtitle_id, -1, NOW).unwrap();
    db.claim_next_pending_subtitle_job(16, NOW).unwrap();

    assert!(db
        .acquire_maintenance_hold("deploy:inflight", "等待存量任务", 300, NOW)
        .unwrap());
    assert!(db.renew_job_claim(&prepare_id, PREPARE_CLAIM_KIND, NOW));
    assert!(db.renew_job_claim(&upload_id, UPLOAD_CLAIM_KIND, NOW));
    assert!(db.renew_job_claim(&subtitle_id, SUBTITLE_CLAIM_KIND, NOW));
    db.update_claimed_job_status(
        &prepare_id,
        PREPARE_CLAIM_KIND,
        JobStatus::Processing,
        None,
        false,
        NOW,
    )
    .unwrap();
    assert!(!db
        .finish_upload_attempt(
            &upload_id,
            &upload_attempt,
            "BV1holdtest3",
            JobStatus::Completed,
            TransferMode::Direct,
            timing(None),
            NOW,
        )
        .unwrap());
    db.defer_claimed_pending_subtitle(&subtitle_id, "存量任务正常收尾", 60, NOW)
        .unwrap();

    assert_eq!(status(&db, &prepare_id), JobStatus::Processing);
    assert_eq!(status(&db, &upload_id), JobStatus::Completed);
    assert_eq!(
        status(&db, &subtitle_id),
        JobStatus::UploadedOriginalPendingSubtitle
    );
    assert!(db.claim_next_pending_subtitle_job(16, NOW).is_none());
}

fn claimed_subtitle_job(db: &mut Database, video_id: &str, bvid: &str) -> (String, Job) {
    let id = create(db, video_id, TransferMode::Translated);
    db.set_job_bvid(&id, bvid, NOW).unwrap();
    db.queue_pending_subtitle(&id, -1, NOW).unwrap();
    let job = db.claim_next_pending_subtitle_job(16, NOW).unwrap();
    (id, job)
}

fn begun(db: &mut Database, id: &str, bvid: &str) -> String {
    match db.begin_subtitle_attempt(id, bvid, NOW).unwrap() {
        SubtitleAttemptDecision::Submit(attempt_id) => attempt_id,
        decision => panic!("首次字幕提交未创建 attempt: {decision:?}"),
    }
}

fn attempt_state(db: &Database, attempt_id: &str) -> SubtitleState {
    db.subtitles
        .iter()
        .find(|attempt| attempt.id == attempt_id)
        .unwrap()
        .status
}

#[test]
fn subtitle_claim_blocks_automatic_and_manual_duplicate_submission() {
    let mut db = Database::new("first");
    let id = create(&mut db, "claimed-subtitle", TransferMode::Translated);
    db.set_job_bvid(&id, "BV1claimed", NOW).unwrap();
    db.queue_pending_subtitle(&id, -1, NOW).unwrap();

    assert_eq!(db.claim_next_pending_subtitle_job(16, NOW).unwrap().id, id);
    run_as(&mut db, "second");
    assert!(db.claim_next_pending_subtitle_job(16, NOW).is_none());
    assert!(db.claim_subtitle_job_now(&id, NOW).is_none());
    assert!(db.jobs_awaiting_subtitle(NOW).is_empty());

    run_as(&mut db, "first");
    db.defer_claimed_pending_subtitle(&id, "temporary", -1, NOW)
        .unwrap();
    run_as(&mut db, "second");
    assert_eq!(db.claim_next_pending_subtitle_job(16, NOW).unwrap().id, id);
    run_as(&mut db, "first");
    assert!(db
        .defer_claimed_pending_subtitle(&id, "stale", 60, NOW)
        .is_err());
}

#[test]
fn uncertain_subtitle_attempt_allows_only_query_and_reconciliation() {
    let mut db = Database::new("owner");
    let (id, _) = claimed_subtitle_job(&mut db, "subtitle-response-lost", "BV1subtitle1");
    let attempt_id = begun(&mut db, &id, "BV1subtitle1");
    db.mark_subtitle_attempt_uncertain(&id, &attempt_id, "平台响应丢失", NOW)
        .unwrap();
    db.defer_claimed_pending_subtitle(&id, "仅查询平台", -1, NOW)
        .unwrap();
    db.claim_next_pending_subtitle_job(16, NOW).unwrap();

    match db.begin_subtitle_attempt(&id, "BV1subtitle1", NOW).unwrap() {
        SubtitleAttemptDecision::QueryOnly(SubtitleAttempt { id, bvid, status }) => {
            assert_eq!(id, attempt_id);
            assert_eq!(bvid, "BV1subtitle1");
            assert_eq!(status.as_str(), "uncertain");
        }
        decision => panic!("{decision:?}"),
    }
    assert_eq!(db.subtitles.len(), 1, "不确定结果后又创建了第二次 submit");

    db.reconcile_subtitle_attempt(&id, &attempt_id, true, NOW)
        .unwrap();
    assert_eq!(status(&db, &id), JobStatus::Completed);
    assert_eq!(attempt_state(&db, &attempt_id).as_str(), "reconciled");
}

#[test]
fn exhausted_uncertain_subtitle_attempt_stays_manual_and_query_only() {
    let mut db = Database::new("owner");
    let (id, _) = claimed_subtitle_job(&mut db, "subtitle-manual", "BV1subtitle6");
    let attempt_id = begun(&mut db, &id, "BV1subtitle6");
    db.mark_subtitle_attempt_uncertain(&id, &attempt_id, "长期无法确认", NOW)
        .unwrap();
    db.exhaust_claimed_pending_subtitle(&id, 16, "投稿结果无法确认，已转人工", NOW)
        .unwrap();

    assert!(db.next_pending_subtitle_job(16, NOW).is_none());
    let job = db.get_job(&id).unwrap().unwrap();
    assert_eq!(job.subtitle_attempt, 16);
    assert!(job.error.as_deref().unwrap().contains("已转人工"));
    db.claim_subtitle_job_now(&id, NOW).unwrap();
    assert!(matches!(
        db.begin_subtitle_attempt(&id, "BV1subtitle6", NOW).unwrap(),
        SubtitleAttemptDecision::QueryOnly(_)
    ));
}

#[test]
fn rejected_subtitle_attempt_allows_policy_retry() {
    let mut db = Database::new("owner");
    let (id, _) = claimed_subtitle_job(&mut db, "subtitle-rejected", "BV1subtitle2");
    let first_attempt = begun(&mut db, &id, "BV1subtitle2");
    db.reject_subtitle_attempt(&id, &first_attempt, "code=1001 平台明确拒绝", NOW)
        .unwrap();

    let second_attempt = begun(&mut db, &id, "BV1subtitle2");
    assert_ne!(first_attempt, second_attempt);
    let statuses: Vec<&str> = db
        .subtitles
        .iter()
        .map(|attempt| attempt.status.as_str())
        .collect();
    assert_eq!(statuses, ["rejected", "started"]);
}

#[test]
fn interrupted_subtitle_attempt_becomes_uncertain_after_restart() {
    let mut db = Database::new("first");
    let (id, _) = claimed_subtitle_job(&mut db, "subtitle-interrupted", "BV1subtitle3");
    let attempt_id = begun(&mut db, &id, "BV1subtitle3");
    row(&mut db, &id).claim_expires_at = Some(NOW - 1_000);

    run_as(&mut db, "restarted");
    db.recover_incomplete_jobs(NOW);
    let attempt = db.blocking_subtitle_attempt(&id).unwrap();
    assert_eq!(attempt.id, attempt_id);
    assert_eq!(attempt.status.as_str(), "uncertain");
    db.claim_next_pending_subtitle_job(16, NOW).unwrap();
    assert!(matches!(
        db.begin_subtitle_attempt(&id, "BV1subtitle3", NOW).unwrap(),
        SubtitleAttemptDecision::QueryOnly(_)
    ));
    assert_eq!(db.subtitles.len(), 1);
}

#[test]
fn confirmed_subtitle_attempt_finishes_with_job_atomically() {
    let mut db = Database::new("owner");
    let (id, _) = claimed_subtitle_job(&mut db, "subtitle-confirmed", "BV1subtitle4");
    let attempt_id = begun(&mut db, &id, "BV1subtitle4");
    db.finish_subtitle_attempt(&id, &attempt_id, true, NOW)
        .unwrap();
    assert_eq!(status(&db, &id), JobStatus::Completed);
    assert_eq!(attempt_state(&db, &attempt_id).as_str(), "confirmed");
}

#[test]
fn subtitle_attempts_need_their_claim() {
    let mut db = Database::new("first");
    let (id, _) = claimed_subtitle_job(&mut db, "subtitle-stale", "BV1subtitle7");
    let attempt_id = begun(&mut db, &id, "BV1subtitle7");
    run_as(&mut db, "second");
    assert!(db
        .finish_subtitle_attempt(&id, &attempt_id, true, NOW)
        .is_err());
    assert_eq!(attempt_state(&db, &attempt_id), SubtitleState::Started);
    assert!(matches!(
        db.begin_subtitle_attempt(&id, "BV1subtitle7", NOW),
        Err(DbError::SubtitleMoved)
    ));
}

#[test]
fn preparation_and_upload_queues_are_independent_and_durable() {
    let mut db = Database::new("owner");
    let upload_id = create(&mut db, "ready-video", TransferMode::Translated);
    let queued_id = create(&mut db, "queued-video", TransferMode::Direct);
    db.save_source_metadata(&upload_id, &source_metadata(), NOW);
    db.queue_prepared_upload(
        &upload_id,
        &plan(TransferMode::Translated, JobStatus::Completed),
        NOW,
    )
    .unwrap();

    assert_eq!(db.next_queued_job(NOW).unwrap().id, queued_id);
    assert_eq!(db.next_ready_to_upload_job(NOW).unwrap().id, upload_id);

    run_as(&mut db, "reopened");
    assert_eq!(db.recover_incomplete_jobs(NOW), 0);
    let source = db.source_metadata(&upload_id).unwrap();
    assert_eq!(source.id, "ready-video");
    assert_eq!(source.uploader.as_deref(), Some("uploader"));
    assert!(is_plan(
        db.prepared_upload(&upload_id),
        TransferMode::Translated
    ));
    assert_eq!(db.next_ready_to_upload_job(NOW).unwrap().id, upload_id);
}

#[test]
fn upload_retry_wait_has_backoff_without_blocking_preparation_queue() {
    let mut db = Database::new("owner");
    let upload_id = create(&mut db, "upload-retry", TransferMode::Translated);
    let queued_id = create(&mut db, "prepare-now", TransferMode::Direct);
    db.defer_job_retry(&upload_id, JobStatus::UploadRetryWait, "test", 600, NOW)
        .unwrap();
    assert!(db.next_ready_to_upload_job(NOW).is_none());
    assert_eq!(db.next_queued_job(NOW).unwrap().id, queued_id);

    db.defer_job_retry(&upload_id, JobStatus::UploadRetryWait, "test", -1, NOW)
        .unwrap();
    assert_eq!(db.next_ready_to_upload_job(NOW).unwrap().id, upload_id);
}

#[test]
fn finishing_upload_attempt_atomically_queues_translated_cc() {
    let mut db = Database::new("owner");
    let id = create(&mut db, "upload-ready", TransferMode::Translated);
    db.queue_prepared_upload(
        &id,
        &plan(TransferMode::Translated, JobStatus::Completed),
        NOW,
    )
    .unwrap();
    let attempt_id = db.begin_prepared_upload(&id, NOW).unwrap().unwrap();
    assert!(db
        .finish_upload_attempt(
            &id,
            "wrong-attempt",
            "BV1uxE16ZE7e",
            JobStatus::Completed,
            TransferMode::Translated,
            timing(None),
            NOW,
        )
        .is_err());
    assert_eq!(status(&db, &id), JobStatus::Uploading);
    assert!(db.prepared_upload(&id).is_some());

    assert!(db
        .finish_upload_attempt(
            &id,
            &attempt_id,
            "BV1uxE16ZE7e",
            JobStatus::Completed,
            TransferMode::Translated,
            timing(Some(NOW + 30 * MINUTE)),
            NOW,
        )
        .unwrap());
    let job = db.get_job(&id).unwrap().unwrap();
    assert_eq!(job.status, JobStatus::UploadedOriginalPendingSubtitle);
    assert_eq!(job.bvid.as_deref(), Some("BV1uxE16ZE7e"));
    assert!(db.prepared_upload(&id).is_none());
    assert!(db.next_pending_subtitle_job(16, NOW).is_none());
    let attempt = db.uploads.iter().find(|a| a.id == attempt_id).unwrap();
    assert_eq!(attempt.status.as_str(), "succeeded");
    assert_eq!(attempt.bvid.as_deref(), Some("BV1uxE16ZE7e"));
    assert_eq!(
        db.get_setting(NEXT_BILIBILI_SUBMIT_AT).as_deref(),
        Some("2026-08-15T00:30:00+00:00")
    );
}

#[test]
fn failed_completion_never_reopens_submission() {
    let mut db = Database::new("owner");
    let id = create(&mut db, "upload-commit-failure", TransferMode::Direct);
    db.queue_prepared_upload(&id, &plan(TransferMode::Direct, JobStatus::Completed), NOW)
        .unwrap();
    let attempt_id = db.begin_prepared_upload(&id, NOW).unwrap().unwrap();
    assert!(matches!(
        db.finish_upload_attempt(
            &id,
            &attempt_id,
            "BV1uxE16ZE7e",
            JobStatus::Completed,
            TransferMode::Direct,
            timing(Some(i64::MAX)),
            NOW,
        ),
        Err(DbError::OutOfCalendar)
    ));
    assert_eq!(status(&db, &id), JobStatus::Uploading);
    db.mark_upload_attempt_uncertain(&id, &attempt_id, "平台已成功，本地提交失败", NOW)
        .unwrap();
    assert_eq!(status(&db, &id), JobStatus::UploadUncertain);
    assert!(db.get_setting(NEXT_BILIBILI_SUBMIT_AT).is_none());
    assert!(db.next_ready_to_upload_job(NOW).is_none());
    assert!(db.begin_prepared_upload(&id, NOW).unwrap().is_none());
    assert_eq!(db.uploads.len(), 1);
}

#[test]
fn upload_claim_atomically_observes_deadline_and_maintenance_hold() {
    let mut db = Database::new("owner");
    let id = create(&mut db, "upload-window", TransferMode::Direct);
    db.queue_prepared_upload(&id, &plan(TransferMode::Direct, JobStatus::Completed), NOW)
        .unwrap();

    db.set_setting(NEXT_BILIBILI_SUBMIT_AT, "2026-08-15T00:01:00+00:00", NOW);
    assert!(db.begin_prepared_upload(&id, NOW).unwrap().is_none());
    assert_eq!(status(&db, &id), JobStatus::ReadyToUpload);

    db.set_setting(NEXT_BILIBILI_SUBMIT_AT, "2026-08-14T23:59:59+00:00", NOW);
    assert!(db
        .acquire_maintenance_hold("LIVE_ONCE:test", "一次性直播旁路", 300, NOW)
        .unwrap());
    assert!(db.begin_prepared_upload(&id, NOW).unwrap().is_none());
    assert_eq!(status(&db, &id), JobStatus::ReadyToUpload);

    assert!(db.release_maintenance_hold("LIVE_ONCE:test", NOW).unwrap());
    assert!(db.begin_prepared_upload(&id, NOW).unwrap().is_some());
    assert_eq!(status(&db, &id), JobStatus::Uploading);
}

#[test]
fn original_without_subtitles_also_observes_initial_cc_delay() {
    let mut db = Database::new("owner");
    let id = create(&mut db, "original-cc", TransferMode::Translated);
    db.queue_prepared_upload(
        &id,
        &plan(
            TransferMode::Direct,
            JobStatus::UploadedOriginalPendingSubtitle,
        ),
        NOW,
    )
    .unwrap();
    let attempt_id = db.begin_prepared_upload(&id, NOW).unwrap().unwrap();
    assert!(db
        .finish_upload_attempt(
            &id,
            &attempt_id,
            "BV17x411w7KC",
            JobStatus::UploadedOriginalPendingSubtitle,
            TransferMode::Direct,
            timing(None),
            NOW,
        )
        .unwrap());
    assert_eq!(
        status(&db, &id),
        JobStatus::UploadedOriginalPendingSubtitle
    );
    assert!(db.next_pending_subtitle_job(16, NOW).is_none());
    assert!(db.next_pending_subtitle_job(16, NOW + 89_999).is_none());
    assert!(db.next_pending_subtitle_job(16, NOW + 90_000).is_some());
}

#[test]
fn active_upload_lease_is_not_recovered_but_expired_attempt_becomes_uncertain() {
    let mut db = Database::new("first");
    let id = create(&mut db, "uncertain-upload", TransferMode::Direct);
    db.queue_prepared_upload(&id, &plan(TransferMode::Direct, JobStatus::Completed), NOW)
        .unwrap();
    let attempt_id = db.begin_prepared_upload(&id, NOW).unwrap().unwrap();

    run_as(&mut db, "second");
    assert_eq!(db.recover_incomplete_jobs(NOW), 0);
    assert!(db.begin_prepared_upload(&id, NOW).unwrap().is_none());
    assert_eq!(status(&db, &id), JobStatus::Uploading);
    row(&mut db, &id).claim_expires_at = Some(NOW - 1_000);

    assert_eq!(db.recover_incomplete_jobs(NOW), 1);
    assert_eq!(status(&db, &id), JobStatus::UploadUncertain);
    assert!(db.retry_job(&id, NOW).is_err());
    assert!(db.pause_job(&id, NOW).is_err());
    assert!(db.prepared_upload(&id).is_some());
    let attempt = db.uploads.iter().find(|a| a.id == attempt_id).unwrap();
    assert_eq!(attempt.status.as_str(), "uncertain");
}

#[test]
fn creator_reconciliation_confirms_uncertain_attempt_without_retrying() {
    let mut db = Database::new("owner");
    let id = create(&mut db, "confirmed-upload", TransferMode::Translated);
    db.queue_prepared_upload(
        &id,
        &plan(TransferMode::Translated, JobStatus::Completed),
        NOW,
    )
    .unwrap();
    let attempt_id = db.begin_prepared_upload(&id, NOW).unwrap().unwrap();
    db.mark_upload_attempt_uncertain(&id, &attempt_id, "lost response", NOW)
        .unwrap();
    assert_eq!(db.uncertain_upload_started_at(&id), Some(NOW));
    assert!(db
        .confirm_uncertain_upload(
            &id,
            "BV17x411w7KC",
            JobStatus::Completed,
            TransferMode::Translated,
            timing(Some(NOW + 30 * MINUTE)),
            NOW,
        )
        .unwrap());

    let job = db.get_job(&id).unwrap().unwrap();
    assert_eq!(job.status, JobStatus::UploadedOriginalPendingSubtitle);
    assert_eq!(job.bvid.as_deref(), Some("BV17x411w7KC"));
    assert!(db.prepared_upload(&id).is_none());
    let attempt = db.uploads.iter().find(|a| a.id == attempt_id).unwrap();
    assert_eq!(attempt.status.as_str(), "reconciled");
    assert!(
        row(&mut db, &id).subtitle_retry_at.is_some(),
        "核对成功后没有排入字幕队列"
    );
    assert_eq!(
        db.get_setting(NEXT_BILIBILI_SUBMIT_AT).as_deref(),
        Some("2026-08-15T00:30:00+00:00")
    );
}

#[test]
fn uncertain_uploads_can_be_discarded_by_hand() {
    let mut db = Database::new("owner");
    let id = create(&mut db, "discarded-upload", TransferMode::Direct);
    db.queue_prepared_upload(&id, &plan(TransferMode::Direct, JobStatus::Completed), NOW)
        .unwrap();
    let attempt_id = db.begin_prepared_upload(&id, NOW).unwrap().unwrap();
    assert!(matches!(
        db.discard_uncertain_upload(&id, "未找到稿件", NOW),
        Err(DbError::NotUncertain)
    ));
    db.mark_upload_attempt_uncertain(&id, &attempt_id, "lost response", NOW)
        .unwrap();
    assert_eq!(
        db.discard_uncertain_upload(&id, "未找到稿件", NOW).unwrap(),
        JobStatus::ReadyToUpload
    );
    assert_eq!(db.uploads[0].status, UploadState::Failed);
    assert!(db.begin_prepared_upload(&id, NOW).unwrap().is_some());
}

#[test]
fn retry_job_resets_attempts_and_error() {
    let mut db = Database::new("owner");
    let id = create(&mut db, "retry-video", TransferMode::Direct);
    db.increment_attempt(&id, NOW).unwrap();
    db.update_job_status(&id, JobStatus::DeadLetter, Some("failed"), NOW)
        .unwrap();

    db.retry_job(&id, NOW).unwrap();
    let job = db.get_job(&id).unwrap().unwrap();
    assert_eq!(job.status, JobStatus::Queued);
    assert_eq!(job.attempt, 0);
    assert!(job.error.is_none());
}

#[test]
fn retry_job_preserves_completed_preparation() {
    let mut db = Database::new("owner");
    let id = create(&mut db, "retry-upload", TransferMode::Direct);
    db.queue_prepared_upload(&id, &plan(TransferMode::Direct, JobStatus::Completed), NOW)
        .unwrap();
    db.increment_attempt(&id, NOW).unwrap();
    db.pause_job(&id, NOW).unwrap();

    db.retry_job(&id, NOW).unwrap();
    let job = db.get_job(&id).unwrap().unwrap();
    assert_eq!(job.status, JobStatus::ReadyToUpload);
    assert_eq!(job.attempt, 0);
    assert!(job.error.is_none());
    assert!(is_plan(db.prepared_upload(&id), TransferMode::Direct));
}

#[test]
fn retry_job_rejects_completed_active_and_uncertain_upload_states() {
    let mut db = Database::new("owner");
    let id = create(&mut db, "unsafe-retry", TransferMode::Direct);

    for state in [
        JobStatus::Queued,
        JobStatus::Inspecting,
        JobStatus::Processing,
        JobStatus::ReadyToUpload,
        JobStatus::Uploading,
        JobStatus::UploadUncertain,
        JobStatus::UploadRetryWait,
        JobStatus::Completed,
        JobStatus::RetryWait,
    ] {
        if matches!(state, JobStatus::RetryWait | JobStatus::UploadRetryWait) {
            db.defer_job_retry(&id, state, "waiting", 60, NOW).unwrap();
        } else {
            db.update_job_status(&id, state, None, NOW).unwrap();
        }
        assert!(
            db.retry_job(&id, NOW).is_err(),
            "{} 不应允许手动重试",
            state.as_str()
        );
        assert_eq!(status(&db, &id), state);
    }

    db.update_job_status(
        &id,
        JobStatus::Paused,
        Some(UNCERTAIN_UPLOAD_RECOVERY_ERROR),
        NOW,
    )
    .unwrap();
    let error = db.retry_job(&id, NOW).unwrap_err().message(&id, "");
    assert!(error.contains("投稿结果不确定"));
    assert_eq!(status(&db, &id), JobStatus::Paused);
}

#[test]
fn retries_by_hand_spare_published_videos() {
    let mut db = Database::new("owner");
    let id = create(&mut db, "published", TransferMode::Translated);
    db.set_job_bvid(&id, "BV1published", NOW).unwrap();
    db.queue_pending_subtitle(&id, -1, NOW).unwrap();
    db.exhaust_pending_subtitle(&id, 16, "缺少素材", NOW);
    assert_eq!(db.retry_by_hand(&id, NOW).unwrap(), Retried::Subtitle);
    assert_eq!(
        db.next_pending_subtitle_job(16, NOW).unwrap().subtitle_attempt,
        0
    );
    let dead = create(&mut db, "dead", TransferMode::Direct);
    db.update_job_status(&dead, JobStatus::DeadLetter, Some("boom"), NOW)
        .unwrap();
    assert_eq!(db.retry_by_hand(&dead, NOW).unwrap(), Retried::Job);
    assert_eq!(status(&db, &dead), JobStatus::Queued);
    assert!(matches!(
        db.retry_by_hand("nobody", NOW),
        Err(DbError::NoJob)
    ));
    assert!(matches!(
        db.retry_by_hand(&dead, NOW),
        Err(DbError::NotRetryable(JobStatus::Queued))
    ));
}

#[test]
fn pause_revokes_prepare_claim_and_stale_worker_cannot_resume_it() {
    let mut db = Database::new("owner");
    let id = create(&mut db, "pause-active", TransferMode::Direct);
    db.claim_prepare_job(&id, NOW).unwrap();
    assert!(db.owns_job_claim(&id, PREPARE_CLAIM_KIND));

    db.pause_job(&id, NOW).unwrap();
    assert_eq!(status(&db, &id), JobStatus::Paused);
    assert!(!db.owns_job_claim(&id, PREPARE_CLAIM_KIND));
    assert!(db
        .update_claimed_job_status(
            &id,
            PREPARE_CLAIM_KIND,
            JobStatus::Processing,
            None,
            false,
            NOW
        )
        .is_err());
    assert!(db
        .queue_claimed_prepared_upload(
            &id,
            &plan(TransferMode::Direct, JobStatus::Completed),
            NOW
        )
        .is_err());
    assert_eq!(status(&db, &id), JobStatus::Paused);
}

#[test]
fn pause_rejects_uploading_post_upload_and_terminal_states() {
    let mut db = Database::new("owner");
    let id = create(&mut db, "pause-states", TransferMode::Direct);
    for state in [
        JobStatus::Uploading,
        JobStatus::UploadUncertain,
        JobStatus::UploadedOriginalPendingSubtitle,
        JobStatus::Completed,
        JobStatus::DeadLetter,
        JobStatus::Failed,
    ] {
        db.update_job_status(&id, state, None, NOW).unwrap();
        assert!(
            db.pause_job(&id, NOW).is_err(),
            "{} 不应允许暂停",
            state.as_str()
        );
        assert_eq!(status(&db, &id), state);
    }
}

#[test]
fn paused_job_cannot_be_overwritten_by_generic_preparation_completion() {
    let mut db = Database::new("owner");
    let id = create(&mut db, "pause-plan", TransferMode::Direct);
    db.pause_job(&id, NOW).unwrap();
    assert!(db
        .queue_prepared_upload(&id, &plan(TransferMode::Direct, JobStatus::Completed), NOW)
        .is_err());
    assert_eq!(status(&db, &id), JobStatus::Paused);
}

#[test]
fn recovery_still_rescues_statuses_removed_from_the_enum() {
    let mut db = Database::new("owner");
    let mut ids = Vec::new();
    for (n, legacy) in ["downloading", "segmenting", "translating", "rendering"]
        .into_iter()
        .enumerate()
    {
        let id = create(&mut db, &format!("legacy-{n}"), TransferMode::Translated);
        row(&mut db, &id).legacy = LegacyStage::from_text(legacy);
        assert!(db.get_job(&id).is_err());
        ids.push(id);
    }
    assert_eq!(db.recover_incomplete_jobs(NOW), 4);
    for id in ids {
        assert_eq!(status(&db, &id), JobStatus::Queued);
    }
}

#[test]
fn recovery_closes_running_stage_rows() {
    let mut db = Database::new("owner");
    let id = create(&mut db, "interrupted-video", TransferMode::Translated);
    db.update_job_status(&id, JobStatus::Processing, None, NOW)
        .unwrap();
    let stage = db.start_stage(&id, "render", None, None, None, NOW).unwrap();

    assert_eq!(db.recover_incomplete_jobs(NOW + 5), 1);
    let found = db.stages.iter().find(|run| run.id == stage).unwrap();
    assert_eq!(found.status, "failed");
    assert!(found.finished_at.is_some());
    assert_eq!(found.duration_ms, Some(5));
    assert_eq!(found.detail.as_deref(), Some("服务重启中断阶段"));
}

#[test]
fn pending_subtitle_queue_respects_delay_backoff_and_attempt_cap() {
    let mut db = Database::new("owner");
    let id = create(&mut db, "cc-queue", TransferMode::Translated);
    db.set_job_bvid(&id, "BV1cc", NOW).unwrap();

    db.queue_pending_subtitle(&id, 90, NOW).unwrap();
    assert!(db.next_pending_subtitle_job(8, NOW).is_none());

    db.queue_pending_subtitle(&id, -1, NOW).unwrap();
    let due = db.next_pending_subtitle_job(8, NOW).unwrap();
    assert_eq!(due.id, id);
    assert_eq!(due.subtitle_attempt, 0);

    db.defer_pending_subtitle(&id, "boom", 600, NOW).unwrap();
    assert!(db.next_pending_subtitle_job(8, NOW).is_none());
    db.defer_pending_subtitle(&id, "boom", -1, NOW).unwrap();
    let retried = db.next_pending_subtitle_job(8, NOW).unwrap();
    assert_eq!(retried.subtitle_attempt, 2);
    assert_eq!(retried.error.as_deref(), Some("boom"));

    db.exhaust_pending_subtitle(&id, 8, "缺少素材", NOW);
    assert!(db.next_pending_subtitle_job(8, NOW).is_none());
    assert_eq!(db.jobs_awaiting_subtitle(NOW).len(), 1);

    db.rearm_pending_subtitle(&id, NOW).unwrap();
    let rearmed = db.next_pending_subtitle_job(8, NOW).unwrap();
    assert_eq!(rearmed.subtitle_attempt, 0);
    assert_eq!(rearmed.error, None);

    db.update_job_status(&id, JobStatus::Completed, None, NOW)
        .unwrap();
    assert!(db.next_pending_subtitle_job(8, NOW).is_none());
    assert!(db.rearm_pending_subtitle(&id, NOW).is_err());
}

#[test]
fn pending_subtitle_queue_picks_up_pre_v8_rows_immediately() {
    let mut db = Database::new("owner");
    let id = create(&mut db, "legacy-cc", TransferMode::Translated);
    db.set_job_bvid(&id, "BV1legacy", NOW).unwrap();
    db.update_job_status(&id, JobStatus::UploadedOriginalPendingSubtitle, None, NOW)
        .unwrap();
    assert_eq!(
        db.next_pending_subtitle_job(8, NOW).map(|j| j.id),
        Some(id)
    );
}

#[test]
fn pending_subtitle_queue_skips_jobs_without_bvid() {
    let mut db = Database::new("owner");
    let id = create(&mut db, "no-bvid", TransferMode::Translated);
    db.queue_pending_subtitle(&id, -1, NOW).unwrap();
    assert!(db.next_pending_subtitle_job(8, NOW).is_none());
}

#[test]
fn paused_prepared_job_cannot_be_claimed_for_upload() {
    let mut db = Database::new("owner");
    let id = create(&mut db, "pause-upload", TransferMode::Direct);
    db.queue_prepared_upload(&id, &plan(TransferMode::Direct, JobStatus::Completed), NOW)
        .unwrap();
    db.pause_job(&id, NOW).unwrap();

    assert!(db.begin_prepared_upload(&id, NOW).unwrap().is_none());
    assert_eq!(status(&db, &id), JobStatus::Paused);

    db.retry_job(&id, NOW).unwrap();
    assert!(db.begin_prepared_upload(&id, NOW).unwrap().is_some());
    assert_eq!(status(&db, &id), JobStatus::Uploading);
}

#[test]
fn claims_and_paths_are_kept() {
    let mut db = Database::new("owner");
    let id = create(&mut db, "paths", TransferMode::Direct);
    db.set_job_paths(&id, Some("/data/raw.mp4"), NOW);
    db.set_job_paths(&id, None, NOW);
    assert_eq!(
        db.job_paths(&id).unwrap().0.as_deref(),
        Some("/data/raw.mp4")
    );
    assert!(matches!(db.job_paths("nobody"), Err(DbError::NoRow)));
    db.claim_prepare_job(&id, NOW).unwrap();
    assert!(db.release_job_claim(&id, PREPARE_CLAIM_KIND, NOW));
    assert!(!db.release_job_claim(&id, PREPARE_CLAIM_KIND, NOW));
    db.set_job_model(&id, "p", "m", "t", NOW);
    db.update_job_metadata(&id, "title", true, Some(1_500), Some(2), Some(3), NOW);
    let job = db.get_job(&id).unwrap().unwrap();
    assert_eq!(job.provider.as_deref(), Some("p"));
    assert_eq!(job.title.as_deref(), Some("title"));
    assert!(job.is_short);
    assert_eq!(job.duration_ms, Some(1_500));
    db.set_job_bvid(&id, "BV1paths", NOW).unwrap();
    assert_eq!(db.job_by_bvid("BV1paths").unwrap().unwrap().id, id);
    assert!(db.bvid_owned_by_other_job("another", "BV1paths"));
    assert!(!db.bvid_owned_by_other_job(&id, "BV1paths"));
}

#[test]
fn answers_to_a_subtitle_settle_its_attempt() {
    let mut db = Database::new("owner");
    let (id, _) = claimed_subtitle_job(&mut db, "answered", "BV1answered");
    let first = begun(&mut db, &id, "BV1answered");
    db.settle_subtitle_submission(&id, &first, &CcOutcome::Refused("code=1".into()), true, NOW)
        .unwrap();
    assert_eq!(attempt_state(&db, &first), SubtitleState::Rejected);
    assert_eq!(db.subtitles[0].detail.as_deref(), Some("code=1"));
    assert_eq!(
        db.settle_subtitle_submission(&id, &first, &CcOutcome::Accepted, true, NOW),
        Err(DbError::SubtitleAttemptGone)
    );
    let second = begun(&mut db, &id, "BV1answered");
    db.settle_subtitle_submission(&id, &second, &CcOutcome::Unknown("lost".into()), true, NOW)
        .unwrap();
    assert_eq!(attempt_state(&db, &second), SubtitleState::Uncertain);

    let (id, _) = claimed_subtitle_job(&mut db, "accepted", "BV1accepted");
    let third = begun(&mut db, &id, "BV1accepted");
    db.settle_subtitle_submission(&id, &third, &CcOutcome::Accepted, true, NOW)
        .unwrap();
    assert_eq!(attempt_state(&db, &third), SubtitleState::Confirmed);
    assert_eq!(status(&db, &id), JobStatus::Completed);
}

#[test]
fn a_subtitle_that_is_there_ends_the_claim() {
    let mut db = Database::new("owner");
    let (id, _) = claimed_subtitle_job(&mut db, "open", "BV1open");
    let attempt = begun(&mut db, &id, "BV1open");
    db.settle_present_subtitle(&id, true, NOW).unwrap();
    assert_eq!(attempt_state(&db, &attempt), SubtitleState::Reconciled);
    assert_eq!(status(&db, &id), JobStatus::Completed);

    let (id, _) = claimed_subtitle_job(&mut db, "none", "BV1none");
    db.settle_present_subtitle(&id, true, NOW).unwrap();
    assert_eq!(db.subtitles.len(), 1);
    assert_eq!(status(&db, &id), JobStatus::Completed);
    assert_eq!(
        db.settle_present_subtitle(&id, true, NOW),
        Err(DbError::SubtitleClaimLost)
    );
}
