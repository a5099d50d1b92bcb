use y2b_rs::clock::parse_timestamp;
use y2b_rs::fault::DbError;
use y2b_rs::hold::MaintenanceStatus;
use y2b_rs::model::{
    AiUsage, ChannelPriority, JobStatus, PublicationMetadata, TransferMode,
};
use y2b_rs::queue::NewJob;
use y2b_rs::rows::{
    candidate_cells, candidate_from_row, channel_from_row, channel_row_cells, channel_row_from,
    job_from_row, job_row_cells, job_row_from, maintenance_hold_event_from_row,
    maintenance_hold_from_row, usage_from_row, websub_channel_from_row, Cell, Kind, RowFault,
};
use y2b_rs::schema::{
    added_columns, alterations, check_schema, fresh_cell, has_column, missing_versions,
    schema_is_current, schema_version, MigrationFault,
    CURRENT_SCHEMA_VERSION, LEGACY_HOLD_OWNER, LEGACY_HOLD_PREVIOUS, LEGACY_HOLD_UNTIL,
};
use y2b_rs::settings::{parse_number, LIVE_REPLAY_CURSOR, NEXT_BILIBILI_SUBMIT_AT};
use y2b_rs::store::{
    AiCall, Database, Event, HoldAction, LegacyStage, StageRun, SubtitleRow, SubtitleState,
    UploadAttempt, UploadState, VideoCandidate,
};

const NOW: i64 = 1_786_752_000_000;
const DAY: i64 = 86_400_000;

fn create(db: &mut Database, video_id: &str, mode: TransferMode) -> String {
    db.create_job(
        &NewJob {
            channel_id: None,
            video_id,
            url: &format!("https://youtu.be/{video_id}"),
            title: None,
            published: None,
            updated: None,
            transfer_mode: mode,
        },
        NOW,
    )
    .unwrap()
    .unwrap()
}

fn maintenance_test_job(db: &mut Database, video_id: &str) -> String {
    create(db, video_id, TransferMode::Direct)
}

fn assert_maintenance_blocker(status: &MaintenanceStatus, kind: &str, detail: &str) {
    assert!(!status.idle);
    let blocker = status
        .blockers
        .iter()
        .find(|blocker| blocker.kind == kind)
        .unwrap_or_else(|| panic!("缺少 {kind} 阻塞项: {:?}", status.blockers));
    assert_eq!(blocker.count, blocker.details.len());
    assert!(
        blocker.details.iter().any(|value| value.contains(detail)),
        "{kind} 未指出 {detail}: {:?}",
        blocker.details
    );
}

#[test]
fn expired_maintenance_hold_can_be_taken_over_with_audit() {
    let mut db = Database::new("owner");
    assert!(db
        .acquire_maintenance_hold("deploy:old", "旧版本部署", 300, NOW)
        .unwrap());
    db.hold.as_mut().unwrap().expires_at = NOW - 1_000;
    assert!(db.maintenance_hold(NOW).is_none());

    assert!(db
        .acquire_maintenance_hold("deploy:new", "接管过期部署", 300, NOW)
        .unwrap());
    let hold = db.maintenance_hold(NOW).unwrap();
    assert_eq!(hold.owner, "deploy:new");
    let event = &db.maintenance_hold_events(1)[0];
    assert_eq!(event.action.as_str(), "taken_over");
    assert_eq!(event.owner, "deploy:new");
    assert_eq!(event.previous_owner.as_deref(), Some("deploy:old"));
    assert_eq!(event.previous_reason.as_deref(), Some("旧版本部署"));
    assert_eq!(event.reason, "接管过期部署");
}

#[test]
fn maintenance_hold_can_be_renewed_but_not_released_by_another_owner() {
    let mut db = Database::new("owner");
    assert!(db
        .acquire_maintenance_hold("deploy:owner", "发布维护", 1, NOW)
        .unwrap());
    let original_expiry = db.maintenance_hold(NOW).unwrap().expires_at;
    assert!(db.renew_maintenance_hold("deploy:owner", 300, NOW).unwrap());
    assert!(
        db.maintenance_hold(NOW).unwrap().expires_at > original_expiry,
        "续租没有延长到期时间"
    );
    assert!(!db.release_maintenance_hold("deploy:other", NOW).unwrap());
    assert_eq!(db.maintenance_hold(NOW).unwrap().owner, "deploy:owner");
    assert!(db.release_maintenance_hold("deploy:owner", NOW).unwrap());
    assert!(db.maintenance_hold(NOW).is_none());
}

#[test]
fn the_lock_has_one_owner_at_a_time() {
    let mut db = Database::new("owner");
    assert!(db
        .acquire_maintenance_hold("deploy:first", "并发部署一", 300, NOW)
        .unwrap());
    assert!(!db
        .acquire_maintenance_hold("deploy:second", "并发部署二", 300, NOW)
        .unwrap());
    assert_eq!(db.maintenance_hold(NOW).unwrap().owner, "deploy:first");
    assert_eq!(db.maintenance_hold_events(10).len(), 1);
    for (owner, reason, lease, expected) in [
        (" ", "r", 1, DbError::HoldOwner),
        ("o", "", 1, DbError::HoldReason),
        ("o", "r", 0, DbError::HoldLease),
        ("o", "r", i64::MAX, DbError::HoldRange),
    ] {
        assert_eq!(
            db.acquire_maintenance_hold(owner, reason, lease, NOW)
                .unwrap_err(),
            expected
        );
    }
}

#[test]
fn idle_status_reports_active_job() {
    let mut db = Database::new("owner");
    let id = maintenance_test_job(&mut db, "idle-active-job");
    db.update_job_status(&id, JobStatus::Processing, None, NOW)
        .unwrap();
    let status = db.maintenance_status(None, NOW);
    assert_maintenance_blocker(&status, "active_jobs", &format!("{id}:processing"));
}

#[test]
fn idle_status_reports_running_stage() {
    let mut db = Database::new("owner");
    let id = maintenance_test_job(&mut db, "idle-running-stage");
    let stage_id = db.start_stage(&id, "render", None, None, None, NOW).unwrap();
    let status = db.maintenance_status(None, NOW);
    assert_maintenance_blocker(
        &status,
        "running_stages",
        &format!("{stage_id}:{id}:render"),
    );
}

#[test]
fn idle_status_reports_only_unexpired_nonempty_claims() {
    let mut db = Database::new("owner");
    let id = maintenance_test_job(&mut db, "idle-claim");
    db.jobs[0].claim_kind = Some("prepare".into());
    db.jobs[0].claim_owner = Some("worker".into());
    db.jobs[0].claim_expires_at = Some(NOW + 60_000);
    let status = db.maintenance_status(None, NOW);
    assert_maintenance_blocker(&status, "active_claims", &format!("{id}:prepare:worker"));

    db.jobs[0].claim_expires_at = Some(NOW - 1_000);
    assert!(db.maintenance_status(None, NOW).idle);
}

#[test]
fn idle_status_reports_uploading_job() {
    let mut db = Database::new("owner");
    let id = maintenance_test_job(&mut db, "idle-uploading");
    db.update_job_status(&id, JobStatus::Uploading, None, NOW)
        .unwrap();
    let status = db.maintenance_status(None, NOW);
    assert_maintenance_blocker(&status, "uploading_jobs", &id);
}

fn upload_attempt(id: &str, job_id: &str, status: UploadState) -> UploadAttempt {
    UploadAttempt {
        id: id.into(),
        job_id: job_id.into(),
        status,
        bvid: None,
        detail: None,
        started_at: NOW,
        finished_at: None,
    }
}

#[test]
fn idle_status_reports_running_upload_attempt() {
    let mut db = Database::new("owner");
    let id = maintenance_test_job(&mut db, "idle-upload-running");
    db.uploads
        .push(upload_attempt("upload-running", &id, UploadState::Running));
    let status = db.maintenance_status(None, NOW);
    assert_maintenance_blocker(&status, "upload_attempts", "upload-running");
}

#[test]
fn idle_status_reports_uncertain_upload_attempt() {
    let mut db = Database::new("owner");
    let id = maintenance_test_job(&mut db, "idle-upload-uncertain");
    db.uploads.push(upload_attempt(
        "upload-uncertain",
        &id,
        UploadState::Uncertain,
    ));
    let status = db.maintenance_status(None, NOW);
    assert_maintenance_blocker(&status, "upload_attempts", "upload-uncertain");
}

fn subtitle_row(id: &str, job_id: &str, bvid: &str, status: SubtitleState) -> SubtitleRow {
    SubtitleRow {
        id: id.into(),
        job_id: job_id.into(),
        bvid: bvid.into(),
        status,
        detail: None,
        started_at: NOW,
        finished_at: None,
    }
}

#[test]
fn idle_status_reports_started_subtitle_attempt() {
    let mut db = Database::new("owner");
    let id = maintenance_test_job(&mut db, "idle-subtitle-started");
    db.subtitles.push(subtitle_row(
        "subtitle-started",
        &id,
        "BV1idletest1",
        SubtitleState::Started,
    ));
    let status = db.maintenance_status(None, NOW);
    assert_maintenance_blocker(&status, "subtitle_attempts", "subtitle-started");
}

#[test]
fn idle_status_reports_uncertain_subtitle_attempt() {
    let mut db = Database::new("owner");
    let id = maintenance_test_job(&mut db, "idle-subtitle-uncertain");
    db.subtitles.push(subtitle_row(
        "subtitle-uncertain",
        &id,
        "BV1idletest2",
        SubtitleState::Uncertain,
    ));
    let status = db.maintenance_status(None, NOW);
    assert_maintenance_blocker(&status, "subtitle_attempts", "subtitle-uncertain");
}

#[test]
fn idle_status_reports_live_once_lease_but_exempts_its_caller() {
    let mut db = Database::new("owner");
    let owner = "LIVE_ONCE:video:process";
    assert!(db
        .acquire_maintenance_hold(owner, "一次性直播投稿", 300, NOW)
        .unwrap());
    let status = db.maintenance_status(None, NOW);
    assert_maintenance_blocker(&status, "live_once_hold", owner);
    assert!(db.maintenance_status(Some(owner), NOW).idle);

    db.hold.as_mut().unwrap().expires_at = NOW - 1_000;
    let expired = db.maintenance_status(None, NOW);
    assert!(expired.idle);
    assert_eq!(expired.expired_hold.unwrap().owner, owner);
}

fn usage(input: i64, total: i64, cost: Option<i64>) -> AiUsage {
    AiUsage {
        input,
        output: 0,
        reasoning: 0,
        cache_read: 0,
        cache_write: 0,
        total,
        cost,
    }
}

fn call(id: i64, job_id: &str, usage: AiUsage, created_at: i64) -> AiCall {
    AiCall {
        id,
        job_id: job_id.into(),
        stage_run_id: None,
        task: "t".into(),
        provider: "p".into(),
        model: "m".into(),
        thinking: "h".into(),
        status: "success".into(),
        error: None,
        usage,
        duration_ms: None,
        input_json: None,
        output_json: None,
        created_at,
        finished_at: None,
    }
}

#[test]
fn migrates_existing_ai_calls_to_audited_lifecycle() {
    let mut db = Database::new("owner");
    let created_at = parse_timestamp("2026-08-01T00:00:00Z").unwrap();
    db.calls
        .push(call(1, "legacy-job", usage(0, 42, Some(10_000_000)), created_at));
    db.close_old_calls();
    assert_eq!(db.calls[0].status, "success");
    assert_eq!(db.calls[0].error, None);
    assert_eq!(db.calls[0].finished_at, Some(created_at));
}

fn columns(connection: &rusqlite::Connection) -> Vec<(String, String)> {
    let mut found = Vec::new();
    for table in ["channels", "jobs"] {
        let mut query = connection
            .prepare(&format!("PRAGMA table_info({table})"))
            .unwrap();
        let names = query
            .query_map([], |row| row.get::<_, String>(1))
            .unwrap();
        for name in names {
            found.push((table.to_string(), name.unwrap()));
        }
    }
    found
}

fn cell(row: &rusqlite::Row<'_>, index: usize) -> Cell {
    match row.get::<_, rusqlite::types::Value>(index).unwrap() {
        rusqlite::types::Value::Null => Cell::Null,
        rusqlite::types::Value::Integer(n) => Cell::Int(n),
        rusqlite::types::Value::Text(t) => Cell::Text(t),
        other => panic!("{other:?}"),
    }
}

#[test]
fn migrates_v3_rows_to_translated_mode() {
    let old = rusqlite::Connection::open_in_memory().unwrap();
    old.execute_batch(
        r#"
            CREATE TABLE channels(
              id INTEGER PRIMARY KEY AUTOINCREMENT,
              youtube_channel_id TEXT NOT NULL UNIQUE,
              name TEXT NOT NULL, url TEXT NOT NULL, feed_url TEXT NOT NULL,
              enabled INTEGER NOT NULL DEFAULT 1, baseline_at TEXT,
              last_checked_at TEXT, last_reconcile_at TEXT, last_error TEXT,
              created_at TEXT NOT NULL
            );
            CREATE TABLE jobs(
              id TEXT PRIMARY KEY, channel_id INTEGER REFERENCES channels(id),
              video_id TEXT NOT NULL UNIQUE, url TEXT NOT NULL, title TEXT,
              status TEXT NOT NULL, published_at TEXT, youtube_updated_at TEXT,
              discovered_at TEXT NOT NULL, is_short INTEGER NOT NULL DEFAULT 0,
              duration_seconds REAL, width INTEGER, height INTEGER, fps REAL,
              bvid TEXT, append_to_bvid TEXT, provider TEXT, ai_model TEXT, thinking TEXT,
              attempt INTEGER NOT NULL DEFAULT 0, error TEXT,
              raw_video_path TEXT, rendered_path TEXT, subtitle_path TEXT,
              created_at TEXT NOT NULL, updated_at TEXT NOT NULL
            );
            INSERT INTO channels(
              youtube_channel_id, name, url, feed_url, created_at
            ) VALUES(
              'UC-v3', 'v3 channel', 'https://youtube.com/@v3',
              'https://youtube.com/feeds/videos.xml?channel_id=UC-v3', CURRENT_TIMESTAMP
            );
            INSERT INTO jobs(
              id, channel_id, video_id, url, status, discovered_at, created_at, updated_at
            ) VALUES(
              'job-v3', 1, 'video-v3', 'https://youtu.be/video-v3', 'queued',
              CURRENT_TIMESTAMP, CURRENT_TIMESTAMP, CURRENT_TIMESTAMP
            );
            "#,
    )
    .unwrap();
    for statement in alterations(&columns(&old)) {
        if statement.starts_with("ALTER TABLE jobs ")
            || statement.starts_with("ALTER TABLE channels ")
        {
            old.execute_batch(&statement).unwrap();
        }
    }
    let job = old
        .query_row(
            "SELECT id,channel_id,video_id,url,title,status,transfer_mode,published_at,\
             youtube_updated_at,discovered_at,is_short,duration_seconds,width,height,bvid,\
             provider,ai_model,thinking,attempt,error,subtitle_attempt FROM jobs",
            [],
            |row| Ok((0..21).map(|index| cell(row, index)).collect::<Vec<_>>()),
        )
        .unwrap();
    let mut versions = vec![1, 2, 3];
    Database::new("owner").migrate(&mut versions, NOW).unwrap();
    assert_eq!(schema_version(&versions), CURRENT_SCHEMA_VERSION);
    let job = job_from_row(&job).unwrap();
    assert_eq!(job.id, "job-v3");
    assert_eq!(job.subtitle_attempt, 0);
    assert_eq!(job.transfer_mode, TransferMode::Translated);
    let channel = old
        .query_row(
            "SELECT id,youtube_channel_id,name,url,enabled,transfer_mode,priority,\
             last_checked_at,last_error,next_poll_at,consecutive_failures,uploads_playlist_id,\
             next_data_api_poll_at,data_api_etag,websub_lease_expires_at,\
             websub_last_received_at FROM channels",
            [],
            |row| Ok((0..16).map(|index| cell(row, index)).collect::<Vec<_>>()),
        )
        .unwrap();
    let channel = channel_from_row(&channel).unwrap();
    assert_eq!(channel.transfer_mode, TransferMode::Translated);
    assert_eq!(channel.priority, ChannelPriority::Normal);
    let rest: Vec<String> = alterations(&columns(&old))
        .into_iter()
        .filter(|statement| {
            statement.starts_with("ALTER TABLE jobs ")
                || statement.starts_with("ALTER TABLE channels ")
        })
        .collect();
    assert!(rest.is_empty());
}

#[test]
fn tables_that_are_up_to_date_are_not_altered() {
    let have: Vec<(String, String)> = added_columns()
        .iter()
        .map(|column| (column.table.to_string(), column.name.to_string()))
        .collect();
    assert!(alterations(&have).is_empty());
    assert!(has_column(&have, "jobs", "retry_at"));
    assert!(!has_column(&have, "channels", "retry_at"));
    assert_eq!(
        alterations(&have[1..]),
        vec!["ALTER TABLE ai_calls ADD COLUMN input_json TEXT".to_string()]
    );
    assert!(schema_is_current(CURRENT_SCHEMA_VERSION));
    assert_eq!(schema_version(&[1, 22, 3]), 22);
    assert_eq!(schema_version(&[]), 0);
}

#[test]
fn v22_migrates_legacy_permanent_live_hold_to_a_short_lease() {
    let mut db = Database::new("owner");
    let previous_deadline = "2026-08-15T00:20:00.000Z";
    db.set_setting(LEGACY_HOLD_OWNER, "LIVE_ONCE:legacy:owner", NOW);
    db.set_setting(
        LEGACY_HOLD_PREVIOUS,
        &format!("\"{previous_deadline}\""),
        NOW,
    );
    db.set_setting(NEXT_BILIBILI_SUBMIT_AT, LEGACY_HOLD_UNTIL, NOW);

    db.migrate(&mut Vec::new(), NOW).unwrap();
    assert_eq!(
        db.get_setting(NEXT_BILIBILI_SUBMIT_AT).as_deref(),
        Some(previous_deadline)
    );
    assert!(db.get_setting(LEGACY_HOLD_OWNER).is_none());
    assert!(db.get_setting(LEGACY_HOLD_PREVIOUS).is_none());
    let hold = db.maintenance_hold(NOW).unwrap();
    assert_eq!(hold.owner, "LIVE_ONCE:legacy:owner");
    assert!(hold.expires_at > NOW);
    assert!(hold.expires_at <= NOW + 300_000);
    let event = &db.maintenance_hold_events(1)[0];
    assert_eq!(event.action.as_str(), "acquired");
    assert_eq!(event.owner, hold.owner);
    assert!(event.reason.contains("v21"));
}

#[test]
fn v20_migration_reports_duplicate_bvid_before_creating_index() {
    let mut db = Database::new("owner");
    for video_id in ["duplicate-one", "duplicate-two"] {
        create(&mut db, video_id, TransferMode::Direct);
    }
    assert!(db.duplicate_bvid().is_none());
    for row in db.jobs.iter_mut() {
        row.job.bvid = Some("BV1uxE16ZE7e".into());
    }
    let mut versions: Vec<i64> = (1..20).collect();
    let error = db.migrate(&mut versions, NOW).unwrap_err();
    assert_eq!(schema_version(&versions), 19);
    assert_eq!(versions.len(), 19);
    let detail = error.message();
    assert!(detail.contains("迁移 v20 失败"), "{detail}");
    assert!(detail.contains("BV1uxE16ZE7e"), "{detail}");
    assert!(detail.contains("2 个任务重复占用"), "{detail}");
    assert!(db
        .jobs
        .iter()
        .all(|row| row.job.bvid.as_deref() == Some("BV1uxE16ZE7e")));
}

#[test]
fn the_first_repeated_video_is_told() {
    let mut db = Database::new("owner");
    for (video_id, bvid) in [("a", "BV2"), ("b", "BV1"), ("c", "BV2"), ("d", "BV1"), ("e", "BV1")] {
        create(&mut db, video_id, TransferMode::Direct);
        db.jobs.last_mut().unwrap().job.bvid = Some(bvid.into());
    }
    let mut versions = vec![1, 2, 3];
    assert!(matches!(
        db.migrate(&mut versions, NOW),
        Err(MigrationFault::Repeated { bvid, holders: 3 }) if bvid == "BV1"
    ));
    assert_eq!(versions, (1..20).collect::<Vec<i64>>());
    let odd = MigrationFault::Repeated {
        bvid: "a\"b\\\n".into(),
        holders: 2,
    };
    assert_eq!(
        odd.message(),
        "迁移 v20 失败：jobs.bvid=\"a\\\"b\\\\\\n\" 已被 2 个任务重复占用，请先人工修复重复 BVID"
    );
    let mut db = Database::new("owner");
    db.set_setting(LEGACY_HOLD_OWNER, "old", NOW);
    db.set_setting(LEGACY_HOLD_PREVIOUS, "{", NOW);
    let mut versions = Vec::new();
    let fault = db.migrate(&mut versions, NOW).unwrap_err();
    assert_eq!(schema_version(&versions), 21);
    assert!(matches!(
        fault,
        MigrationFault::Refused(DbError::BadLegacyHold)
    ));
    assert_eq!(
        fault.message(),
        "迁移 v22 失败：旧 live_once 投稿窗口的 previous 值无效"
    );
}

#[test]
fn a_migration_notes_what_lacks() {
    assert_eq!(missing_versions(&[], CURRENT_SCHEMA_VERSION).len(), 22);
    assert_eq!(missing_versions(&[2], 3), vec![1, 3]);
    assert!(missing_versions(&[], -1).is_empty());
    let mut versions = vec![3, 1, 2];
    Database::new("owner").migrate(&mut versions, NOW).unwrap();
    assert_eq!(versions[..4], [3, 1, 2, 4]);
    assert_eq!(schema_version(&versions), CURRENT_SCHEMA_VERSION);
    Database::new("owner").migrate(&mut versions, NOW).unwrap();
    assert_eq!(versions.len(), 22);
    assert!(missing_versions(&versions, CURRENT_SCHEMA_VERSION).is_empty());
}

#[test]
fn older_rows_have_values_in_newer_columns() {
    let text = |table: &str, name: &str| match fresh_cell(table, name) {
        Some(Cell::Text(text)) => text,
        other => panic!("{other:?}"),
    };
    assert_eq!(text("jobs", "transfer_mode"), "translated");
    assert_eq!(text("channels", "priority"), "normal");
    assert_eq!(text("ai_calls", "status"), "success");
    assert!(matches!(
        fresh_cell("jobs", "subtitle_attempt"),
        Some(Cell::Int(0))
    ));
    assert!(matches!(fresh_cell("jobs", "retry_at"), Some(Cell::Null)));
    assert!(fresh_cell("jobs", "id").is_none());
    assert!(fresh_cell("channels", "retry_at").is_none());
}

#[test]
fn schema_and_dedup() {
    let mut db = Database::new("owner");
    create(&mut db, "abc", TransferMode::Translated);
    assert!(db
        .create_job(
            &NewJob {
                channel_id: None,
                video_id: "abc",
                url: "https://youtu.be/abc",
                title: None,
                published: None,
                updated: None,
                transfer_mode: TransferMode::Direct,
            },
            NOW
        )
        .unwrap()
        .is_none());
    let id = db.list_jobs(1).unwrap()[0].id.clone();
    db.update_job_status(&id, JobStatus::Processing, None, NOW)
        .unwrap();
    assert_eq!(db.recover_incomplete_jobs(NOW), 1);
    assert_eq!(db.list_jobs(1).unwrap()[0].status, JobStatus::Queued);
}

fn set(cells: &mut [Cell], index: usize, text: &str) {
    cells[index] = Cell::Text(text.to_string());
}

#[test]
fn corrupted_job_and_channel_fields_return_errors() {
    let mut db = Database::new("owner");
    let channel_id = db
        .add_channel(
            "UC-corrupted",
            "corrupted",
            "https://youtube.com/@corrupted",
            "https://youtube.com/feeds/videos.xml?channel_id=UC-corrupted",
            TransferMode::Direct,
            NOW,
        )
        .unwrap();
    create(&mut db, "corrupted-job", TransferMode::Direct);

    let mut cells = channel_row_cells(&db.channels[0]);
    assert_eq!(channel_from_row(&cells).unwrap().id, channel_id);
    set(&mut cells, 5, "unknown-mode");
    assert!(channel_from_row(&cells).is_err());
    set(&mut cells, 5, "direct");
    set(&mut cells, 6, "urgent");
    assert!(channel_from_row(&cells).is_err());
    set(&mut cells, 6, "normal");
    channel_from_row(&cells).unwrap();

    let mut cells = job_row_cells(&db.jobs[0]);
    job_from_row(&cells).unwrap();
    set(&mut cells, 5, "mystery");
    assert_eq!(
        job_from_row(&cells).unwrap_err(),
        RowFault { column: 5, kind: Kind::Status }
    );
    set(&mut cells, 5, "queued");
    set(&mut cells, 6, "unknown-mode");
    assert!(job_from_row(&cells).is_err());
    set(&mut cells, 6, "direct");
    set(&mut cells, 9, "not-a-timestamp");
    assert_eq!(
        job_from_row(&cells).unwrap_err(),
        RowFault { column: 9, kind: Kind::Time }
    );
}

#[test]
fn rows_read_back_as_they_were_kept() {
    let mut db = Database::new("owner");
    let channel_id = db
        .add_channel("UC-a", "a", "url", "feed", TransferMode::Direct, NOW)
        .unwrap();
    let id = create(&mut db, "kept", TransferMode::Translated);
    db.claim_prepare_job(&id, NOW).unwrap();
    let row = &db.jobs[0];
    let again = job_row_from(&job_row_cells(row), None, None).unwrap();
    assert_eq!(again.job.id, id);
    assert_eq!(again.job.status, JobStatus::Inspecting);
    assert_eq!(again.job.discovered_at, NOW);
    assert_eq!(again.claim_owner.as_deref(), Some("owner"));
    assert_eq!(again.claim_expires_at, Some(NOW + 300_000));
    assert_eq!(again.created_at, NOW);

    let mut old = job_row_cells(row);
    set(&mut old, 5, "downloading");
    assert!(job_from_row(&old).is_err());
    assert_eq!(
        job_row_from(&old, None, None).unwrap().legacy,
        Some(LegacyStage::Downloading)
    );
    assert!(job_row_from(&old[..20], None, None).is_err());

    let channel = channel_row_from(&channel_row_cells(&db.channels[0])).unwrap();
    assert_eq!(channel.channel.id, channel_id);
    assert_eq!(channel.feed_url, "feed");

    let candidate = VideoCandidate {
        video_id: "v".into(),
        channel_id: Some(1),
        url: "u".into(),
        title: None,
        published_at: Some(NOW),
        source: y2b_rs::model::CandidateSource::DataApi,
        discovered_at: NOW,
        gate_state: y2b_rs::model::GateState::Deferred,
        gate_attempts: 3,
        next_gate_at: Some(NOW + 1),
        last_error: Some("e".into()),
        source_language: None,
        source_language_mismatch: true,
    };
    let again = candidate_from_row(&candidate_cells(&candidate)).unwrap();
    assert_eq!(again.published_at, Some(NOW));
    assert_eq!(again.gate_state, y2b_rs::model::GateState::Deferred);
    assert!(again.source_language_mismatch);
    assert!(candidate_from_row(&[]).is_err());
}

#[test]
fn times_are_read_in_both_stored_forms() {
    assert_eq!(parse_timestamp("2026-08-15T00:00:00.000Z"), Some(NOW));
    assert_eq!(parse_timestamp("2026-08-15 00:00:00"), Some(NOW));
    assert_eq!(parse_timestamp("2026-08-15"), None);
    assert_eq!(
        y2b_rs::clock::timestamp_text(NOW).as_deref(),
        Some("2026-08-15T00:00:00.000Z")
    );
}

#[test]
fn corrupted_discovery_quota_state_returns_errors_without_resetting_values() {
    let mut db = Database::new("owner");
    let next_reset = NOW + DAY;

    db.set_discovery_state("quota_used_today", "7");
    db.set_discovery_state("quota_reset_at", "not-a-timestamp");
    let error = db
        .consume_discovery_quota(1, 100, NOW, next_reset)
        .unwrap_err();
    assert!(error.message("", "").contains("quota_reset_at 无效"));
    assert_eq!(
        db.get_discovery_state("quota_used_today"),
        Some("7".into())
    );

    db.set_discovery_state("quota_reset_at", "2026-08-16T00:00:00.000Z");
    db.set_discovery_state("quota_used_today", "seven");
    let error = db
        .consume_discovery_quota(1, 100, NOW, next_reset)
        .unwrap_err();
    assert!(error.message("", "").contains("quota_used_today 无效"));
    assert_eq!(
        db.get_discovery_state("quota_used_today"),
        Some("seven".into())
    );
}

#[test]
fn setting_deadline_prevents_early_worker_claim() {
    let mut db = Database::new("owner");
    assert!(db.setting_deadline_due("missing", NOW).unwrap());
    db.set_setting("deadline", "2026-08-15T00:01:00+00:00", NOW);
    assert!(!db.setting_deadline_due("deadline", NOW).unwrap());
    assert!(db.setting_deadline_due("deadline", NOW + 120_000).unwrap());
    db.set_setting("deadline", "soon", NOW);
    assert_eq!(
        db.setting_deadline_due("deadline", NOW).unwrap_err(),
        DbError::BadDeadline
    );
    db.delete_setting("deadline");
    assert!(db.get_setting("deadline").is_none());
}

#[test]
fn the_cursor_for_recordings_is_set_once() {
    let mut db = Database::new("owner");
    assert_eq!(db.live_replay_cutoff(NOW).unwrap(), NOW);
    assert_eq!(db.live_replay_cutoff(NOW + DAY).unwrap(), NOW);
    assert_eq!(
        db.get_setting(LIVE_REPLAY_CURSOR).as_deref(),
        Some("2026-08-15T00:00:00+00:00")
    );
    assert_eq!(parse_number("0042", 100), Some(42));
    assert_eq!(parse_number("101", 100), None);
    assert_eq!(parse_number("", 100), None);
}

#[test]
fn ai_call_audit_tracks_failures_and_interruptions() {
    let mut db = Database::new("owner");
    let job_id = create(&mut db, "ai-audit", TransferMode::Translated);
    let stage_id = db
        .start_stage(
            &job_id,
            "translation",
            Some("deepseek"),
            Some("deepseek-v4-pro"),
            Some("off"),
            NOW,
        )
        .unwrap();

    let failed_id = db
        .begin_ai_call(
            &job_id,
            stage_id,
            "translate",
            "deepseek",
            "deepseek-v4-pro",
            "off",
            r#"{"task":"translate"}"#,
            NOW,
        )
        .unwrap();
    assert_eq!(db.calls[0].status, "started");

    let used = AiUsage {
        input: 11,
        output: 7,
        reasoning: 0,
        cache_read: 3,
        cache_write: 0,
        total: 21,
        cost: Some(12_300_000),
    };
    db.finish_ai_call(
        failed_id,
        "parse_error",
        &used,
        456,
        Some("not json"),
        Some("Pi 最终文本不是 JSON"),
        NOW,
    );
    let failed = &db.calls[0];
    assert_eq!(failed.status, "parse_error");
    assert_eq!(failed.usage.total, 21);
    assert_eq!(failed.usage.cost, Some(12_300_000));
    assert_eq!(failed.output_json.as_deref(), Some("not json"));
    assert_eq!(failed.error.as_deref(), Some("Pi 最终文本不是 JSON"));
    assert!(failed.finished_at.is_some());

    let interrupted_id = db
        .begin_ai_call(
            &job_id,
            stage_id,
            "segment",
            "deepseek",
            "deepseek-v4-flash",
            "off",
            r#"{"task":"segment"}"#,
            NOW,
        )
        .unwrap();
    db.interrupt_ai_call(interrupted_id, "future cancelled", NOW);
    assert_eq!(db.calls[1].status, "interrupted");
    assert_eq!(db.calls[1].error.as_deref(), Some("future cancelled"));

    let totals = db.ai_totals_for_job(&job_id).unwrap();
    assert_eq!(totals.total, 21);
    assert_eq!(totals.cost, Some(12_300_000));
    assert_eq!(db.ai_tokens_today(NOW).unwrap(), 21);
    assert_eq!(db.ai_tokens_today(NOW + DAY).unwrap(), 0);
}

#[test]
fn publication_metadata_survives_reopen_and_retry() {
    let mut db = Database::new("owner");
    let id = create(&mut db, "metadata-video", TransferMode::Direct);
    let metadata = PublicationMetadata {
        title: "中文标题".into(),
        dynamic: "本期展示精彩对局。".into(),
        tags: vec!["荒野乱斗".into(), "排位赛".into()],
        tid: 172,
        raw_json: r#"{"title":"中文标题"}"#.into(),
    };
    db.save_publication_metadata(&id, &metadata, NOW).unwrap();
    db.defer_job_retry(&id, JobStatus::RetryWait, "test", 600, NOW)
        .unwrap();

    db.claim_owner = "reopened".into();
    let found = db.publication_metadata(&id).unwrap();
    assert_eq!(found.title, metadata.title);
    assert_eq!(found.dynamic, metadata.dynamic);
    assert_eq!(found.tags, metadata.tags);
    assert_eq!(found.tid, metadata.tid);
    assert_eq!(found.raw_json, metadata.raw_json);
}

#[test]
fn over_duration_rejection_is_persistent_but_respects_config_changes() {
    let mut db = Database::new("owner");
    db.record_over_duration_video("too-long", None, 7200, "9000s > 7200s", NOW)
        .unwrap();
    assert!(db.is_over_duration_video("too-long", 7200));
    assert!(db.is_over_duration_video("too-long", 3600));
    assert!(!db.is_over_duration_video("too-long", 8000));
    assert!(!db.is_over_duration_video("too-long", 0));

    db.record_over_duration_video("too-long", None, 8000, "9000s > 8000s", NOW)
        .unwrap();
    assert!(db.is_over_duration_video("too-long", 8000));
}

#[test]
fn prune_history_removes_only_rows_older_than_retention() {
    let mut db = Database::new("owner");
    let channel_id = db
        .add_channel(
            "UC-prune",
            "prune",
            "https://youtube.com/@prune/videos",
            "https://youtube.com/feeds/videos.xml?channel_id=UC-prune",
            TransferMode::Translated,
            NOW,
        )
        .unwrap();
    let id = db
        .create_job(
            &NewJob {
                channel_id: Some(channel_id),
                video_id: "prune-video",
                url: "https://youtu.be/prune-video",
                title: None,
                published: None,
                updated: None,
                transfer_mode: TransferMode::Translated,
            },
            NOW,
        )
        .unwrap()
        .unwrap();
    for (n, stamp, input_tokens, total_tokens, cost) in [
        (1, NOW - 90 * DAY, 10, 12, Some(250_000_000)),
        (2, NOW, 20, 24, None),
    ] {
        db.calls
            .push(call(n, &id, usage(input_tokens, total_tokens, cost), stamp));
        db.events.push(Event {
            id: n,
            job_id: Some(id.clone()),
            level: "info".into(),
            message: "msg".into(),
            created_at: stamp,
        });
        db.stages.push(StageRun {
            id: n,
            job_id: id.clone(),
            stage: "s".into(),
            status: "running".into(),
            started_at: stamp,
            finished_at: None,
            duration_ms: None,
            peak_rss_kib: None,
            provider: None,
            model: None,
            thinking: None,
            detail: None,
        });
    }

    let before = db.ai_totals().unwrap();
    assert_eq!(before.input, 30);
    assert_eq!(before.total, 36);
    assert_eq!(before.cost, Some(250_000_000));
    assert_eq!(db.prune_history(30, NOW).unwrap(), (1, 1, 1));
    for found in [
        db.ai_totals().unwrap(),
        db.ai_totals_for_job(&id).unwrap(),
        db.ai_totals_for_channel(channel_id).unwrap(),
    ] {
        assert_eq!(found.input, before.input);
        assert_eq!(found.total, before.total);
        assert_eq!(found.cost, before.cost);
    }
    assert_eq!(db.prune_history(30, NOW).unwrap(), (0, 0, 0));
    let after_second_prune = db.ai_totals().unwrap();
    assert_eq!(after_second_prune.input, before.input);
    assert_eq!(after_second_prune.total, before.total);
    assert_eq!(after_second_prune.cost, before.cost);
}

#[test]
fn stages_are_listed_in_order() {
    let mut db = Database::new("owner");
    let id = create(&mut db, "stages", TransferMode::Direct);
    let first = db.start_stage(&id, "a", None, None, None, NOW).unwrap();
    let second = db.start_stage(&id, "b", None, None, None, NOW).unwrap();
    db.finish_stage(first, "completed", 5, 10, Some("done"), NOW);
    let stages = db.list_stages(&id);
    assert_eq!(stages.len(), 2);
    assert_eq!(stages[0].id, first);
    assert_eq!(stages[0].status, "completed");
    assert_eq!(stages[1].id, second);
    assert!(db
        .start_stage("nobody", "a", None, None, None, NOW)
        .is_err());
}

#[test]
fn migrating_again_leaves_the_tables() {
    let mut db = Database::new("owner");
    let id = create(&mut db, "old", TransferMode::Direct);
    db.set_job_bvid(&id, "BV1uxE16ZE7e", NOW).unwrap();
    let stage = db.start_stage(&id, "old", None, None, None, NOW).unwrap();
    let call = db
        .begin_ai_call(&id, stage, "segment", "p", "m", "off", "{}", NOW)
        .unwrap();
    assert_eq!(call, 1);
    db.calls[0].status = "success".into();
    db.set_setting(LEGACY_HOLD_OWNER, "old owner", NOW);
    let mut versions = Vec::new();
    db.migrate(&mut versions, NOW + 1).unwrap();
    assert_eq!(db.calls[0].finished_at, Some(NOW));
    assert_eq!(db.hold_events.len(), 1);
    db.migrate(&mut versions, NOW + 2).unwrap();
    assert_eq!(versions.len(), 22);
    assert_eq!(db.calls[0].finished_at, Some(NOW));
    assert_eq!(db.hold_events.len(), 1);
    assert_eq!(
        db.get_job(&id).unwrap().unwrap().bvid.as_deref(),
        Some("BV1uxE16ZE7e")
    );
}

fn cells_of(texts: &[&str]) -> Vec<Cell> {
    texts
        .iter()
        .map(|text| match (text.is_empty(), text.parse()) {
            (true, _) => Cell::Null,
            (false, Ok(number)) => Cell::Int(number),
            (false, Err(_)) => Cell::Text(text.to_string()),
        })
        .collect()
}

#[test]
fn subscriptions_read_their_row() {
    let row = cells_of(&[
        "7",
        "UC-seven",
        "seven",
        "1",
        "2026-08-15T00:00:00Z",
        "",
        "hook",
        "",
    ]);
    let found = websub_channel_from_row(&row).unwrap();
    assert_eq!(found.id, 7);
    assert_eq!(found.youtube_channel_id, "UC-seven");
    assert!(found.enabled);
    assert_eq!(found.lease_expires_at, Some(NOW));
    assert_eq!(found.secret, None);
    assert_eq!(found.callback_path.as_deref(), Some("hook"));
    assert_eq!(found.last_received_at, None);
    assert!(matches!(
        websub_channel_from_row(&row[..7]),
        Err(RowFault { column: 7, .. })
    ));
}

#[test]
fn usage_reads_its_row() {
    let row = cells_of(&["1", "2", "3", "4", "5", "6", "7"]);
    assert_eq!(
        usage_from_row(&row).unwrap(),
        AiUsage {
            input: 1,
            output: 2,
            reasoning: 3,
            cache_read: 4,
            cache_write: 5,
            total: 6,
            cost: Some(7),
        }
    );
    let row = cells_of(&["1", "2", "3", "4", "5", "6", ""]);
    assert_eq!(usage_from_row(&row).unwrap().cost, None);
    let row = cells_of(&["1", "2", "", "4", "5", "6", ""]);
    assert_eq!(
        usage_from_row(&row).unwrap_err(),
        RowFault {
            column: 2,
            kind: Kind::Whole
        }
    );
}

#[test]
fn locks_read_their_rows() {
    let at = "2026-08-15T00:00:00Z";
    let hold = maintenance_hold_from_row(&cells_of(&["me", "work", at, at, "2026-08-15 00:00:01"]))
        .unwrap();
    assert_eq!(hold.owner, "me");
    assert_eq!(hold.reason, "work");
    assert_eq!(hold.acquired_at, NOW);
    assert_eq!(hold.expires_at, NOW + 1_000);
    assert!(maintenance_hold_from_row(&cells_of(&["me", "work", at, at, "soon"])).is_err());

    let mut row = cells_of(&["3", "taken_over", "me", "you", "work", "play", at, ""]);
    let event = maintenance_hold_event_from_row(&row).unwrap();
    assert_eq!(event.id, 3);
    assert_eq!(event.action, HoldAction::TakenOver);
    assert_eq!(event.previous_owner.as_deref(), Some("you"));
    assert_eq!(event.previous_reason.as_deref(), Some("play"));
    assert_eq!(event.occurred_at, NOW);
    assert_eq!(event.expires_at, None);
    set(&mut row, 1, "borrow");
    assert_eq!(
        maintenance_hold_event_from_row(&row).unwrap_err(),
        RowFault {
            column: 1,
            kind: Kind::Action
        }
    );
}

#[test]
fn other_layouts_are_refused() {
    assert_eq!(check_schema(CURRENT_SCHEMA_VERSION), Ok(()));
    assert_eq!(
        check_schema(19),
        Err("数据库 schema 版本不兼容：当前 v19，需要 v22".to_string())
    );
    assert!(check_schema(CURRENT_SCHEMA_VERSION + 1).is_err());
}
