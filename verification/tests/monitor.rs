use chrono::TimeZone;
use y2b_rs::candidates::NewVideoCandidate;
use y2b_rs::config::Config;
use y2b_rs::discovery::{
    api_turn, circuit_turn, deep_scan_plan, feed_turns, read_feed, reconcile_after_baseline,
    reconcile_turns, scan_turn, ApiTurn, CircuitTurn, DeepScan, FeedEntry, PlaylistVideo, ScanTurn,
    Turn, API_UPLOADS_REFRESHED_AT_KEY, RECHECK_INTERVAL_MS, VIDEO_METADATA_TEMPLATE,
};
use y2b_rs::gate::{is_backlog_replay, EnqueueError};
use y2b_rs::json::{read_json, Json};
use y2b_rs::limits::{
    FallbackClaim, FallbackLimiter, RssCircuitWindow, FALLBACK_GLOBAL_WINDOW_MS,
    RSS_CIRCUIT_WINDOW_MS,
};
use y2b_rs::markup::{is_harmless, mute, MOST_NESTED};
use y2b_rs::model::{
    CandidateSource, ChannelPriority, GateState, TransferMode, VideoMetadata,
};
use y2b_rs::poll::{ApiAnswer, ApiStep, Quota};
use y2b_rs::schedule::{
    data_api_poll_decision, jittered_backoff, next_feed_try, next_poll_after, parse_retry_after,
    prediction_poll_decision, random_jitter_factor, rss_poll_interval, DataApiPollMode, FeedFailure,
    QuotaDegradation, ScheduleError, JITTER_LEAST, JITTER_MOST, JITTER_WHOLE,
};
use y2b_rs::settings::{QUOTA_RESET, QUOTA_USED};
use y2b_rs::store::Database;
use y2b_rs::youtube::{
    canonicalize_youtube_video_url, channel_from_json, contains_live_markers,
    exceeds_duration_limit, extract_thumbnail_url, is_live_content_pending, is_youtube_video_id,
    metadata_from_json, normalize_channel_url, read_printed, source_language_matches, validate_duration,
    validate_single_video, validate_youtube_video_id, ytdlp_args, AddressError, MetadataError, PrintFault, VideoAddressError,
    YOUTUBE_EXTRACTOR_ARGS,
};

const NOW: i64 = 1_786_752_000_000;

fn json(text: &str) -> Json {
    read_json(text).unwrap()
}

fn chain(messages: &[&str]) -> Vec<String> {
    messages.iter().map(|message| message.to_string()).collect()
}

fn metadata() -> VideoMetadata {
    VideoMetadata {
        id: "video".into(),
        url: "https://youtube.com/watch?v=video".into(),
        title: "Best Ranked Match 2026".into(),
        description: None,
        uploader: None,
        upload_date: None,
        channel: None,
        channel_id: None,
        timestamp: Some(1_775_347_200),
        duration_ms: Some(120_000),
        width: Some(1920),
        height: Some(1080),
        fps_milli: None,
        thumbnail_url: None,
        webpage_url: None,
        live_status: Some("not_live".into()),
        default_audio_language: None,
    }
}

fn add_test_channel(db: &mut Database, feed_url: &str, suffix: &str) -> i64 {
    db.add_channel(
        &format!("UC-{suffix}"),
        suffix,
        &format!("https://www.youtube.com/@{suffix}"),
        feed_url,
        TransferMode::Direct,
        NOW,
    )
    .unwrap()
}

fn candidate<'a>(
    video_id: &'a str,
    channel_id: Option<i64>,
    url: &'a str,
    source: CandidateSource,
) -> NewVideoCandidate<'a> {
    NewVideoCandidate {
        video_id,
        channel_id,
        url,
        title: None,
        published_at: None,
        source,
    }
}

#[test]
fn ytdlp_command_uses_web_creator_for_every_youtube_call() {
    let args = ytdlp_args(None);
    assert!(args
        .windows(2)
        .any(|pair| pair[0] == "--extractor-args" && pair[1] == YOUTUBE_EXTRACTOR_ARGS));
    let with_cookies = ytdlp_args(Some("/data/cookies.txt"));
    assert_eq!(with_cookies[4..], ["--cookies", "/data/cookies.txt"]);
}

#[test]
fn manual_queue_rejects_playlists_and_live_content() {
    assert!(
        validate_single_video(&json(r#"{"_type": "playlist", "entries": []}"#))
            .unwrap_err()
            .message()
            .contains("播放列表")
    );
    for live in ["is_live", "is_upcoming", "post_live"] {
        assert!(
            validate_single_video(&json(&format!("{{\"live_status\": \"{live}\"}}")))
                .unwrap_err()
                .message()
                .contains("直播"),
            "live_status={live} 应被推迟"
        );
    }
    validate_single_video(&json(r#"{"_type": "video", "live_status": "was_live"}"#)).unwrap();
    validate_single_video(&json(r#"{"_type": "video", "live_status": "not_live"}"#)).unwrap();
}

#[test]
fn live_content_pending_error_is_classified_through_context() {
    let error = validate_single_video(&json(r#"{"live_status": "is_live"}"#)).unwrap_err();
    assert!(is_live_content_pending(&[
        "metadata probe failed".to_string(),
        error.message()
    ]));
    assert!(!is_live_content_pending(&chain(&["network timeout"])));
    assert!(contains_live_markers("ERROR: This live event has ended"));
    assert!(!contains_live_markers("ERROR: network timeout"));
}

#[test]
fn ytdlp_live_event_begin_error_is_classified_as_live_content() {
    for message in [
        "ERROR: [youtube] ZIGzQ-zJFWc: This live event will begin in 3 days.",
        "This live stream will begin in 12 days.",
    ] {
        assert!(
            is_live_content_pending(&chain(&[message])),
            "消息应被识别为直播内容: {message}"
        );
    }
    assert!(!is_live_content_pending(&chain(&[
        "ERROR: [youtube] abc: Video unavailable"
    ])));
}

#[test]
fn metadata_uses_youtube_selected_thumbnail_or_best_fallback() {
    assert_eq!(
        extract_thumbnail_url(&json(
            r#"{"thumbnail": "https://i.ytimg.com/selected.jpg",
                "thumbnails": [{"url": "https://i.ytimg.com/fallback.jpg"}]}"#
        ))
        .as_deref(),
        Some("https://i.ytimg.com/selected.jpg")
    );
    assert_eq!(
        extract_thumbnail_url(&json(
            r#"{"thumbnail": "https://i.ytimg.com/selected-low-resolution.jpg",
                "thumbnails": [
                    {"url": "https://i.ytimg.com/small.jpg", "width": 480, "height": 360},
                    {"url": "https://i.ytimg.com/maxres.jpg", "width": 1920, "height": 1080}
                ]}"#
        ))
        .as_deref(),
        Some("https://i.ytimg.com/maxres.jpg")
    );
    assert_eq!(
        extract_thumbnail_url(&json(
            r#"{"thumbnails": [
                    {"url": "https://i.ytimg.com/small.jpg"},
                    {"url": "https://i.ytimg.com/best.jpg"},
                    {"width": 1920, "height": 1080}
                ]}"#
        ))
        .as_deref(),
        Some("https://i.ytimg.com/best.jpg")
    );
}

#[test]
fn backlog_replays_are_skipped_but_new_replays_and_normal_videos_pass() {
    let cutoff = 1_800_000_000_000;
    let replay = |status: &str, ts: Option<i64>| VideoMetadata {
        live_status: Some(status.into()),
        timestamp: ts,
        ..metadata()
    };
    assert!(is_backlog_replay(
        &replay("was_live", Some(1_799_999_999)),
        cutoff
    ));
    assert!(!is_backlog_replay(
        &replay("was_live", Some(1_800_000_001)),
        cutoff
    ));
    assert!(!is_backlog_replay(&replay("not_live", Some(1)), cutoff));
    assert!(is_backlog_replay(&replay("was_live", None), cutoff));
}

#[test]
fn duration_limit_rejects_only_videos_over_the_cap() {
    validate_duration(Some(7_200_000), 7200).unwrap();
    let error = validate_duration(Some(7_201_000), 7200).unwrap_err();
    assert!(
        exceeds_duration_limit(&[error.message()]),
        "应被识别为时长超限"
    );
    assert!(
        !is_live_content_pending(&[error.message()]),
        "不应被误判为直播内容"
    );
    assert!(exceeds_duration_limit(&[
        "元数据校验失败".to_string(),
        validate_duration(Some(14_400_000), 7200).unwrap_err().message()
    ]));
    validate_duration(None, 7200).unwrap();
    validate_duration(Some(99_999_000), 0).unwrap();
}

#[test]
fn live_recheck_throttles_but_does_not_blacklist_forever() {
    let mut db = Database::new("owner");
    db.insert_video_candidate(
        &candidate(
            "abcdefghijk",
            None,
            "https://www.youtube.com/watch?v=abcdefghijk",
            CandidateSource::Rss,
        ),
        NOW,
    )
    .unwrap();
    let next_gate_at = NOW + RECHECK_INTERVAL_MS;
    db.defer_video_candidate("abcdefghijk", next_gate_at, "直播尚未就绪")
        .unwrap();
    assert!(db.due_video_candidates(NOW, 10).is_empty());
    assert!(db.due_video_candidates(next_gate_at - 1, 10).is_empty());
    assert_eq!(
        db.due_video_candidates(next_gate_at, 10)[0].video_id,
        "abcdefghijk"
    );
}

#[test]
fn youtube_urls_and_video_ids_are_strictly_canonicalized() {
    const VIDEO_ID: &str = "dQw4w9WgXcQ";
    const CANONICAL: &str = "https://www.youtube.com/watch?v=dQw4w9WgXcQ";

    assert!(is_youtube_video_id("P3ncIFdXrO0"));
    assert!(is_youtube_video_id("-lfxKdAm3vA"));
    assert!(!is_youtube_video_id("UCoFbVpsJ-XP8zl77ntGWBqw"));
    assert!(!is_youtube_video_id("playlist"));

    for input in [
        "https://www.youtube.com/watch?v=dQw4w9WgXcQ&list=PL123#chapter",
        "http://youtu.be/dQw4w9WgXcQ?t=43",
        "https://m.youtube.com/shorts/dQw4w9WgXcQ?feature=share",
        "https://music.youtube.com/live/dQw4w9WgXcQ",
        "https://youtube.com/embed/dQw4w9WgXcQ",
    ] {
        let (video_id, url) = canonicalize_youtube_video_url(input).unwrap();
        assert_eq!(video_id, VIDEO_ID);
        assert_eq!(url, CANONICAL);
    }

    for input in [
        "dQw4w9WgXcQ",
        "ftp://www.youtube.com/watch?v=dQw4w9WgXcQ",
        "https://example.com/watch?v=dQw4w9WgXcQ",
        "https://youtube.com.evil.example/watch?v=dQw4w9WgXcQ",
        "https://youtu.be.evil.example/dQw4w9WgXcQ",
        "https://www.youtube.com:444/watch?v=dQw4w9WgXcQ",
        "https://www.youtube.com/watch?v=too-short",
        "https://www.youtube.com/watch?v=dQw4w9WgXcQ&v=P3ncIFdXrO0",
        "https://www.youtube.com/playlist?list=PL123",
        "https://youtu.be/dQw4w9WgXcQ/extra",
    ] {
        assert!(
            canonicalize_youtube_video_url(input).is_err(),
            "非法 URL 应被拒绝: {input}"
        );
    }

    assert_eq!(
        normalize_channel_url("http://m.youtube.com/@WiiBrawlStars/?view=0").unwrap(),
        "https://www.youtube.com/@WiiBrawlStars/videos"
    );
    for tab in ["videos", "shorts", "streams"] {
        let url = format!("https://www.youtube.com/@channel/{tab}");
        assert_eq!(normalize_channel_url(&url).unwrap(), url);
    }
    for input in [
        "https://example.com/@channel",
        "https://youtube.com.evil.example/@channel",
        "https://youtu.be/dQw4w9WgXcQ",
    ] {
        assert!(normalize_channel_url(input).is_err());
    }
}

#[test]
fn manual_queue_persists_only_the_canonical_url() {
    let mut db = Database::new("owner");
    let (video_id, url) =
        canonicalize_youtube_video_url("http://youtu.be/dQw4w9WgXcQ?t=43").unwrap();
    let found = json(
        r#"{"_type":"video","id":"dQw4w9WgXcQ","title":"test","duration":10,"live_status":"not_live"}"#,
    );
    let meta = metadata_from_json(&found, &video_id, &url, Some(10_000), None, 7200).unwrap();
    let outcome = db.enqueue_video(&meta, TransferMode::Direct, NOW).unwrap();
    assert!(outcome.created);
    assert_eq!(outcome.job.video_id, "dQw4w9WgXcQ");
    assert_eq!(
        outcome.job.url,
        "https://www.youtube.com/watch?v=dQw4w9WgXcQ"
    );
    let again = db.enqueue_video(&meta, TransferMode::Translated, NOW).unwrap();
    assert!(!again.created);
    assert_eq!(again.job.id, outcome.job.id);
}

#[test]
fn invalid_operator_url_is_rejected_without_creating_a_directory() {
    let error = canonicalize_youtube_video_url("https://example.invalid/watch?v=dQw4w9WgXcQ")
        .unwrap_err();
    assert!(error.message().contains("域名"));
    let mut db = Database::new("owner");
    let mut meta = metadata();
    meta.id = "../escape".into();
    assert!(matches!(
        db.enqueue_video(&meta, TransferMode::Direct, NOW),
        Err(EnqueueError::BadId)
    ));
    assert!(db.get_job_by_video_id("dQw4w9WgXcQ").unwrap().is_none());
}

#[test]
fn metadata_id_is_revalidated_before_it_can_become_a_directory_component() {
    let (requested, url) = canonicalize_youtube_video_url("https://youtu.be/dQw4w9WgXcQ").unwrap();
    for (returned_id, expected_error) in
        [("../escape", "必须是 11 位"), ("normalvid01", "不一致")]
    {
        let found = json(&format!(
            "{{\"_type\":\"video\",\"id\":\"{returned_id}\",\"title\":\"test\",\"duration\":10,\"live_status\":\"not_live\"}}"
        ));
        let error = metadata_from_json(&found, &requested, &url, Some(10_000), None, 7200)
            .unwrap_err()
            .message(returned_id, &requested);
        assert!(
            error.contains(expected_error),
            "返回 ID {returned_id:?} 的错误不明确: {error}"
        );
    }
    let unnamed = json(r#"{"_type":"video","title":"test"}"#);
    assert!(matches!(
        metadata_from_json(&unnamed, &requested, &url, None, None, 7200),
        Err(MetadataError::NoId)
    ));
}

#[test]
fn rss_404_is_not_retried() {
    let failure = FeedFailure::Http { status: 404, retry_at: None };
    assert!(!failure.retryable());
    assert_eq!(next_feed_try(&failure, 0, JITTER_WHOLE), None);
}

#[test]
fn rss_429_honors_retry_after() {
    let retry_at = parse_retry_after("123", NOW).expect("应读取 Retry-After");
    assert_eq!((retry_at - NOW) / 1000, 123);
    let failure = FeedFailure::Http { status: 429, retry_at: Some(retry_at) };
    assert_eq!(failure.retry_at(), Some(retry_at));
    assert_eq!(
        parse_retry_after("Wed, 21 Oct 2026 07:28:00 GMT", NOW),
        Some(1_792_567_680_000)
    );
    assert_eq!(parse_retry_after("soon", NOW), None);
}

#[test]
fn feeds_are_tried_again_three_times() {
    let failure = FeedFailure::Request { timeout_or_connect: true };
    assert!(failure.retryable());
    assert_eq!(next_feed_try(&failure, 0, JITTER_WHOLE), Some(1_000));
    assert_eq!(next_feed_try(&failure, 1, JITTER_WHOLE), Some(2_000));
    assert_eq!(next_feed_try(&failure, 2, JITTER_WHOLE), Some(4_000));
    assert_eq!(next_feed_try(&failure, 3, JITTER_WHOLE), None);
    assert!(!FeedFailure::BodyTooLarge.retryable());
}

#[test]
fn channel_backoff_has_jitter_and_is_persisted() {
    assert_eq!(jittered_backoff(60, 0, JITTER_LEAST), 30_000);
    assert_eq!(jittered_backoff(60, 0, JITTER_MOST), 90_000);
    assert_eq!(jittered_backoff(60, 2, JITTER_WHOLE), 240_000);

    let mut db = Database::new("owner");
    let id = add_test_channel(&mut db, "https://example.invalid/feed", "persist");
    let next = NOW + 300_000;
    db.finish_channel_poll(id, Some("failed"), true, next, NOW)
        .unwrap();

    let channel = db.list_channels().remove(0);
    assert_eq!(channel.consecutive_failures, 1);
    assert_eq!(channel.last_error.as_deref(), Some("failed"));
    assert_eq!(channel.next_poll_at, Some(next));
    assert!(db.list_due_channels(next - 1).is_empty());
    assert_eq!(db.list_due_channels(next)[0].id, id);
}

#[test]
fn jitter_stays_between_a_half_and_one_and_a_half() {
    let mut seen = Vec::new();
    for _ in 0..32 {
        let factor = random_jitter_factor();
        assert!((JITTER_LEAST..=JITTER_MOST).contains(&factor));
        seen.push(factor);
    }
    assert!(seen.iter().any(|factor| *factor != seen[0]));
}

#[test]
fn predictive_window_uses_timezone_fallback_and_rolling_history() {
    let mut config = Config::default();
    config.monitor.prediction_window_minutes = 60;
    const ZONE: &str = "America/New_York";
    let timezone: chrono_tz::Tz = ZONE.parse().unwrap();
    let time = |month, day, hour, minute| {
        timezone
            .with_ymd_and_hms(2026, month, day, hour, minute, 0)
            .single()
            .unwrap()
            .timestamp_millis()
    };
    let published = |month, day| time(month, day, 10, 10);
    let mut history = vec![
        published(1, 5),
        published(1, 12),
        published(1, 19),
        published(1, 26),
    ];
    let now = time(7, 6, 10, 30);

    let fallback =
        prediction_poll_decision(&config, &history, now, ZONE, QuotaDegradation::Normal, false)
            .unwrap();
    assert_eq!(fallback.mode, DataApiPollMode::InsufficientHistory);
    assert_eq!(fallback.interval, 5 * 60);

    history.push(published(2, 2));
    let rolled =
        prediction_poll_decision(&config, &history, now, ZONE, QuotaDegradation::Normal, false)
            .unwrap();
    assert_eq!(rolled.mode, DataApiPollMode::PredictedHot);
    assert_eq!(rolled.interval, 60);

    let wrong_timezone =
        prediction_poll_decision(&config, &history, now, "UTC", QuotaDegradation::Normal, false)
            .unwrap();
    assert_eq!(wrong_timezone.mode, DataApiPollMode::PredictedCold);

    let just_before_window = time(7, 6, 9, 50);
    let boundary_wakeup = prediction_poll_decision(
        &config,
        &history,
        just_before_window,
        ZONE,
        QuotaDegradation::Normal,
        false,
    )
    .unwrap();
    assert_eq!(boundary_wakeup.mode, DataApiPollMode::PredictedCold);
    assert_eq!(boundary_wakeup.interval, 10 * 60);

    let hot_window_edge = time(7, 6, 10, 10);
    assert_eq!(
        prediction_poll_decision(
            &config,
            &history,
            hot_window_edge,
            ZONE,
            QuotaDegradation::Normal,
            false,
        )
        .unwrap()
        .mode,
        DataApiPollMode::PredictedHot
    );
    assert_eq!(
        prediction_poll_decision(
            &config,
            &history,
            hot_window_edge,
            ZONE,
            QuotaDegradation::NarrowHot,
            false,
        )
        .unwrap()
        .mode,
        DataApiPollMode::PredictedCold
    );

    let cold_now = time(7, 6, 14, 30);
    let cold = prediction_poll_decision(
        &config,
        &history,
        cold_now,
        ZONE,
        QuotaDegradation::ExtendCold,
        false,
    )
    .unwrap();
    assert_eq!(cold.mode, DataApiPollMode::PredictedCold);
    assert_eq!(cold.interval, 60 * 60);

    assert!(matches!(
        prediction_poll_decision(
            &config,
            &history,
            now,
            "Mars/Olympus",
            QuotaDegradation::Normal,
            false
        ),
        Err(ScheduleError::Timezone)
    ));
}

#[test]
fn rss_circuit_uses_sliding_failure_rate_threshold() {
    let start: u64 = 5_000_000;
    let mut circuit = RssCircuitWindow::new();
    for index in 0..7 {
        assert!(!circuit.record(index < 5, start + index * 1_000));
    }
    assert!(circuit.record(false, start + 7_000));

    let mut below_threshold = RssCircuitWindow::new();
    for index in 0..8 {
        assert!(!below_threshold.record(index < 4, start + index * 1_000));
    }
    assert!(!below_threshold.record(false, start + RSS_CIRCUIT_WINDOW_MS));
}

#[test]
fn fallback_limiter_enforces_channel_cooldown_and_global_circuit() {
    let start: u64 = 5_000_000;
    let mut limiter = FallbackLimiter::new();
    assert_eq!(limiter.claim(1, start), FallbackClaim::Allowed);
    assert_eq!(
        limiter.claim(1, start + 1_000),
        FallbackClaim::ChannelCooldown
    );
    assert_eq!(limiter.claim(2, start), FallbackClaim::Allowed);
    assert_eq!(limiter.claim(3, start), FallbackClaim::Allowed);
    assert_eq!(limiter.claim(4, start), FallbackClaim::GlobalCircuitOpen);
    assert_eq!(
        limiter.claim(4, start + FALLBACK_GLOBAL_WINDOW_MS),
        FallbackClaim::Allowed
    );
}

#[test]
fn fallback_priority_moves_never_attempted_channels_to_the_front() {
    let start: u64 = 5_000_000;
    let mut limiter = FallbackLimiter::new();
    assert_eq!(limiter.claim(1, start), FallbackClaim::Allowed);
    assert_eq!(limiter.claim(2, start), FallbackClaim::Allowed);
    assert_eq!(limiter.claim(3, start), FallbackClaim::Allowed);

    let mut channel_ids = [1, 2, 3, 4, 5, 6];
    channel_ids.sort_by_key(|channel_id| limiter.last_attempt(*channel_id));
    assert_eq!(&channel_ids[..3], &[4, 5, 6]);
    let (ordered, _) = limiter.fallback_order(&[1, 2, 3, 4, 5, 6]);
    assert_eq!(ordered, vec![4, 5, 6, 1, 2, 3]);
}

#[test]
fn metadata_template_excludes_unbounded_format_and_fragment_lists() {
    for field in ["id", "title", "duration", "thumbnail", "live_status"] {
        assert!(VIDEO_METADATA_TEMPLATE.contains(field), "缺少字段: {field}");
    }
    assert!(!VIDEO_METADATA_TEMPLATE.contains("formats"));
    assert!(!VIDEO_METADATA_TEMPLATE.contains("fragments"));
}

#[test]
fn reconcile_only_accepts_videos_published_after_channel_baseline() {
    let baseline = 1_800_000_000_000;
    assert_eq!(
        reconcile_after_baseline(Some(baseline), Some(1_800_000_001)),
        Some(true)
    );
    assert_eq!(
        reconcile_after_baseline(Some(baseline), Some(1_800_000_000)),
        Some(false)
    );
    assert_eq!(reconcile_after_baseline(Some(baseline), None), None);
    assert_eq!(reconcile_after_baseline(None, None), Some(true));
}

const FEED: &str = r#"<?xml version="1.0" encoding="UTF-8"?>
<feed xmlns="http://www.w3.org/2005/Atom" xmlns:yt="http://www.youtube.com/xml/schemas/2015">
  <id>test</id><title>test</title><updated>2035-01-01T00:00:00Z</updated>
  <entry>
    <id>yt:video:normalvid01</id><yt:videoId>normalvid01</yt:videoId>
    <title>normal</title>
    <link rel="alternate" href="https://example.invalid/forged" />
    <published>2035-01-01T00:00:00Z</published><updated>2035-01-01T00:00:00Z</updated>
  </entry>
</feed>"#;

#[test]
fn discovery_sources_only_persist_candidates() {
    let mut db = Database::new("owner");
    let id = add_test_channel(&mut db, "https://example.invalid/feed", "rss-candidate");
    assert_eq!(
        db.take_feed(id, FEED.as_bytes(), true, 7200, NOW).unwrap(),
        Some(1)
    );
    let found = db.get_video_candidate("normalvid01").unwrap();
    assert_eq!(found.source, CandidateSource::Rss);
    assert_eq!(found.url, "https://www.youtube.com/watch?v=normalvid01");
    assert_eq!(found.title.as_deref(), Some("normal"));
    assert_eq!(found.published_at, Some(2_051_222_400_000));
    assert_eq!(found.gate_state, GateState::Pending);
    assert!(db.get_job_by_video_id("normalvid01").unwrap().is_none());

    let mut db = Database::new("owner");
    let id = add_test_channel(&mut db, "https://example.invalid/feed", "ytdlp-candidate");
    let listed = json(
        r#"{"entries":[{"id":"normalvid01","title":"normal","url":"https://example.invalid/forged"}]}"#,
    );
    assert_eq!(db.take_reconciled(id, &listed, 7200, NOW).unwrap(), 1);
    let found = db.get_video_candidate("normalvid01").unwrap();
    assert_eq!(found.source, CandidateSource::Ytdlp);
    assert_eq!(found.url, "https://www.youtube.com/watch?v=normalvid01");
    assert!(db.get_job_by_video_id("normalvid01").unwrap().is_none());
}

#[test]
fn bytes_that_are_no_feed_are_refused() {
    let mut db = Database::new("owner");
    let id = add_test_channel(&mut db, "https://example.invalid/feed", "broken");
    assert!(read_feed(b"not atom", None, true).is_none());
    assert_eq!(
        db.take_feed(id, b"not atom", true, 7200, NOW).unwrap(),
        None
    );
    let entries = vec![FeedEntry {
        id: "yt:video:normalvid01".into(),
        title: None,
        published: Some(NOW),
        updated: None,
    }];
    assert!(matches!(
        feed_turns(&entries, Some(NOW - 1), true)[0],
        Turn::Take(_)
    ));
    assert!(!matches!(
        feed_turns(&entries, Some(NOW), true)[0],
        Turn::Take(_)
    ));
}

#[test]
fn gate_worker_covers_every_state_transition() {
    let mut db = Database::new("owner");
    let channel_id = add_test_channel(&mut db, "https://example.invalid/feed", "gate");
    let answers = [
        r#"{"_type":"video","id":"livevideo01","title":"live","duration":10,"timestamp":2000000000,"live_status":"is_live"}"#,
        r#"{"_type":"video","id":"longvideo01","title":"long","duration":8000,"timestamp":2000000000,"live_status":"not_live"}"#,
        r#"{"_type":"video","id":"oldreplay01","title":"old replay","duration":10,"timestamp":1600000000,"live_status":"was_live"}"#,
        r#"{"_type":"video","id":"baseline001","title":"old normal","duration":10,"timestamp":1600000000,"live_status":"not_live"}"#,
        r#"{"_type":"video","id":"normalvid01","title":"normal","duration":10,"timestamp":2000000000,"live_status":"not_live"}"#,
        r#"{"_type":"video","id":"deferred001","title":"deferred","duration":10,"timestamp":2000000000,"live_status":"not_live"}"#,
    ];
    for video_id in [
        "livevideo01",
        "longvideo01",
        "oldreplay01",
        "baseline001",
        "normalvid01",
        "deferred001",
    ] {
        db.insert_video_candidate(
            &candidate(
                video_id,
                Some(channel_id),
                &format!("https://www.youtube.com/watch?v={video_id}"),
                CandidateSource::Rss,
            ),
            NOW,
        )
        .unwrap();
    }
    db.defer_video_candidate("deferred001", NOW - 1_000, "先前暂缓")
        .unwrap();

    let config = Config::default();
    let due = db.due_video_candidates(NOW, 20);
    let rest = db.screen_candidates(due, NOW).unwrap();
    let mut promoted = 0;
    for found in &rest {
        let answer = answers
            .iter()
            .find(|answer| answer.contains(&found.video_id))
            .unwrap();
        let value = json(answer);
        let duration_ms = value.get("duration").unwrap().as_u64().unwrap() * 1_000;
        let outcome = match metadata_from_json(
            &value,
            &found.video_id,
            &found.url,
            Some(duration_ms),
            None,
            config.youtube.max_duration_seconds,
        ) {
            Ok(meta) => db.gate_candidate_with_metadata(&config, found, &meta, NOW),
            Err(error) => {
                db.gate_candidate_failed(&config, found, &vec![error.message("", "")], NOW)
            }
        };
        if outcome.unwrap() {
            promoted += 1;
        }
    }
    assert_eq!(promoted, 2);

    let live = db.get_video_candidate("livevideo01").unwrap();
    assert_eq!(live.gate_state, GateState::Deferred);
    assert!(live.next_gate_at.is_some());
    assert_eq!(live.gate_attempts, 1);

    for video_id in ["longvideo01", "oldreplay01", "baseline001"] {
        let found = db.get_video_candidate(video_id).unwrap();
        assert_eq!(found.gate_state, GateState::Rejected);
        assert_eq!(found.gate_attempts, 1);
    }
    assert!(db.is_over_duration_video("longvideo01", 7200));

    for video_id in ["normalvid01", "deferred001"] {
        let found = db.get_video_candidate(video_id).unwrap();
        assert_eq!(found.gate_state, GateState::Promoted);
        assert!(db.get_job_by_video_id(video_id).unwrap().is_some());
    }
    assert_eq!(
        db.get_video_candidate("deferred001").unwrap().gate_attempts,
        2
    );
    assert!(db.due_video_candidates(NOW, 20).is_empty());
}

#[test]
fn data_api_discovers_upload_playlist_candidates() {
    let mut db = Database::new("owner");
    add_test_channel(&mut db, "https://example.invalid/feed", "data-api");
    let videos = vec![PlaylistVideo {
        video_id: "normalvid01".into(),
        title: Some("from api".into()),
        published_at: Some(2_051_222_400_000),
    }];
    assert_eq!(poll_api(&mut db, "data-api", videos), 1);
    let channel = db.list_channels().remove(0);
    assert_eq!(channel.uploads_playlist_id.as_deref(), Some("UU-data-api"));
    let found = db.get_video_candidate("normalvid01").unwrap();
    assert_eq!(found.source, CandidateSource::DataApi);
    assert_eq!(found.url, "https://www.youtube.com/watch?v=normalvid01");
    assert_eq!(found.title.as_deref(), Some("from api"));
    assert!(db.get_job_by_video_id("normalvid01").unwrap().is_none());
    assert_eq!(
        db.get_discovery_state("quota_used_today").as_deref(),
        Some("2")
    );
}

/// Polls the API, which tells the list of uploads of one channel and then what is in it. Each call
/// costs one unit.
fn poll_api(db: &mut Database, name: &str, videos: Vec<PlaylistVideo>) -> usize {
    let config = Config::default();
    let quota = Quota {
        degradation: QuotaDegradation::Normal,
        reset_at: NOW + 7_200_000,
    };
    let mut poll = db.begin_api_poll(&config, quota, NOW).unwrap().unwrap();
    assert!(db.uploads_refresh_due(false, NOW));
    assert!(db.consume_discovery_quota(1, 10_000, NOW, quota.reset_at).unwrap().allowed);
    db.store_upload_playlists(
        &vec![(format!("UC-{name}"), format!("UU-{name}"))],
        NOW,
    )
    .unwrap();
    match db.next_api_step(&config, &mut poll, quota, NOW).unwrap() {
        ApiStep::Ask { playlist, .. } => assert_eq!(playlist, format!("UU-{name}")),
        other => panic!("{other:?}"),
    }
    assert!(db.consume_discovery_quota(1, 10_000, NOW, quota.reset_at).unwrap().allowed);
    let page = ApiAnswer::Page { videos, etag: None };
    db.take_api_answer(&config, &mut poll, &page, quota, NOW).unwrap();
    assert!(matches!(
        db.next_api_step(&config, &mut poll, quota, NOW).unwrap(),
        ApiStep::Done
    ));
    poll.outcome().unwrap()
}

#[test]
fn data_api_refreshes_channel_added_after_recent_playlist_refresh() {
    let mut db = Database::new("owner");
    db.set_discovery_state(API_UPLOADS_REFRESHED_AT_KEY, "2026-08-14T23:59:00+00:00");
    add_test_channel(&mut db, "https://example.invalid/feed", "late-channel");
    assert!(db.uploads_refresh_due(true, NOW));
    let videos = vec![PlaylistVideo {
        video_id: "latevideo01".into(),
        title: Some("late upload".into()),
        published_at: Some(2_051_222_400_000),
    }];
    assert_eq!(poll_api(&mut db, "late-channel", videos), 1);
    assert_eq!(
        db.list_channels()[0].uploads_playlist_id.as_deref(),
        Some("UU-late-channel")
    );
    assert_eq!(
        db.get_video_candidate("latevideo01").unwrap().source,
        CandidateSource::DataApi
    );
    assert!(!db.uploads_refresh_due(true, NOW + 1));
}

#[test]
fn data_api_does_not_repeat_recent_refresh_for_still_missing_channel() {
    let mut db = Database::new("owner");
    add_test_channel(&mut db, "https://example.invalid/feed", "missing-channel");
    db.set_discovery_state(API_UPLOADS_REFRESHED_AT_KEY, "2026-08-15T00:01:00+00:00");
    assert!(!db.uploads_refresh_due(true, NOW));
    assert!(db.list_channels()[0].uploads_playlist_id.is_none());
}

#[test]
fn first_quota_degradation_stops_daily_deep_scan() {
    assert_eq!(
        deep_scan_plan(Some(QuotaDegradation::SkipDeepScan)),
        DeepScan::Skip
    );
    assert_eq!(deep_scan_plan(Some(QuotaDegradation::Normal)), DeepScan::Scan);
    assert_eq!(
        deep_scan_plan(Some(QuotaDegradation::FallbackOnly)),
        DeepScan::Reconcile
    );
    assert_eq!(deep_scan_plan(None), DeepScan::Reconcile);
    assert_eq!(scan_turn(QuotaDegradation::Normal, true), ScanTurn::Ask);
    assert_eq!(
        api_turn(QuotaDegradation::FallbackOnly, true),
        ApiTurn::WaitForReset
    );
    assert_eq!(api_turn(QuotaDegradation::Normal, false), ApiTurn::NoPlaylist);
    assert_eq!(api_turn(QuotaDegradation::NarrowHot, true), ApiTurn::Ask);
}

#[test]
fn source_language_mismatch_warns_and_marks_but_does_not_block_by_default() {
    let mut db = Database::new("owner");
    let channel_id = add_test_channel(&mut db, "https://example.invalid/feed", "language");
    db.insert_video_candidate(
        &candidate(
            "language001",
            Some(channel_id),
            "https://www.youtube.com/watch?v=language001",
            CandidateSource::DataApi,
        ),
        NOW,
    )
    .unwrap();
    let mut config = Config::default();
    assert!(!config.translation.enforce_source_lang);
    let found = db.get_video_candidate("language001").unwrap();
    let meta = VideoMetadata {
        id: "language001".into(),
        title: "language".into(),
        timestamp: Some(2_051_222_400),
        duration_ms: Some(10_000),
        default_audio_language: Some("ja".into()),
        ..metadata()
    };
    assert!(db
        .gate_candidate_with_metadata(&config, &found, &meta, NOW)
        .unwrap());
    assert!(db.get_job_by_video_id("language001").unwrap().is_some());
    let found = db.get_video_candidate("language001").unwrap();
    assert_eq!(found.source_language.as_deref(), Some("ja"));
    assert!(found.source_language_mismatch);
    assert!(source_language_matches("en", "en-GB"));

    db.insert_video_candidate(
        &candidate(
            "language002",
            Some(channel_id),
            "https://www.youtube.com/watch?v=language002",
            CandidateSource::DataApi,
        ),
        NOW,
    )
    .unwrap();
    config.translation.enforce_source_lang = true;
    let found = db.get_video_candidate("language002").unwrap();
    assert!(!db
        .gate_candidate_with_metadata(&config, &found, &meta, NOW)
        .unwrap());
    assert_eq!(
        db.get_video_candidate("language002").unwrap().gate_state,
        GateState::Rejected
    );
}

#[test]
fn unknown_language_tags_are_not_treated_as_mismatch() {
    for tag in ["zxx", "und", "ZXX", "zxx-ZZ", ""] {
        assert!(
            source_language_matches("en", tag),
            "无法判定语言时应放行: {tag:?}"
        );
        assert!(
            source_language_matches("ja", tag),
            "与期望语言无关，一律放行: {tag:?}"
        );
    }
    for tag in ["en-GB", "en-US", "en-CA", "en_AU"] {
        assert!(source_language_matches("en", tag), "地区变体应匹配: {tag}");
    }
    for tag in ["ru", "pt", "de-DE", "ja"] {
        assert!(
            !source_language_matches("en", tag),
            "真实外语不应放行: {tag}"
        );
    }
}

#[test]
fn priority_channel_forces_one_minute_data_api_polling() {
    let mut db = Database::new("owner");
    let channel_id = add_test_channel(&mut db, "https://example.invalid/feed", "priority");
    db.set_channel_priority(channel_id, ChannelPriority::Priority, NOW)
        .unwrap();
    let mut config = Config::default();
    config.monitor.poll_seconds = 60;
    let decision = data_api_poll_decision(
        &config,
        &db.channel(channel_id).unwrap(),
        &db.channel_publication_history(channel_id),
        NOW,
        QuotaDegradation::NarrowHot,
    )
    .unwrap();
    assert_eq!(decision.mode, DataApiPollMode::Priority);
    assert_eq!(decision.interval, 60);
}

#[test]
fn active_websub_lease_uses_configurable_thirty_minute_data_api_fallback() {
    let mut db = Database::new("owner");
    let channel_id = add_test_channel(&mut db, "https://example.invalid/feed", "websub");
    db.mark_websub_lease(channel_id, NOW + 86_400_000).unwrap();
    let mut config = Config::default();
    config.websub.enabled = true;
    config.websub.callback_base_url = "https://push.example.com".into();
    assert_eq!(config.websub.data_api_poll_minutes, 30);
    let channel = db.channel(channel_id).unwrap();
    let decision =
        data_api_poll_decision(&config, &channel, &[], NOW, QuotaDegradation::Normal).unwrap();
    assert_eq!(decision.mode, DataApiPollMode::WebSubFallback);
    assert_eq!(decision.interval, 30 * 60);
}

#[test]
fn active_websub_lease_overrides_priority_polling_for_data_api_and_rss() {
    let mut db = Database::new("owner");
    let channel_id = add_test_channel(&mut db, "https://example.invalid/feed", "priority");
    db.set_channel_priority(channel_id, ChannelPriority::Priority, NOW)
        .unwrap();
    let mut config = Config::default();
    config.monitor.poll_seconds = 60;
    config.websub.enabled = true;
    config.websub.callback_base_url = "https://push.example.com".into();
    config.websub.data_api_poll_minutes = 20;

    let channel = db.channel(channel_id).unwrap();
    let decision =
        data_api_poll_decision(&config, &channel, &[], NOW, QuotaDegradation::Normal).unwrap();
    assert_eq!(decision.mode, DataApiPollMode::Priority);
    assert_eq!(rss_poll_interval(&config, &channel, NOW), 60);

    db.mark_websub_lease(channel_id, NOW + 86_400_000).unwrap();
    let channel = db.channel(channel_id).unwrap();
    let decision =
        data_api_poll_decision(&config, &channel, &[], NOW, QuotaDegradation::Normal).unwrap();
    assert_eq!(decision.mode, DataApiPollMode::WebSubFallback);
    assert_eq!(decision.interval, 20 * 60);
    assert_eq!(rss_poll_interval(&config, &channel, NOW), 20 * 60);

    let expired = NOW + 2 * 86_400_000;
    let decision =
        data_api_poll_decision(&config, &channel, &[], expired, QuotaDegradation::Normal).unwrap();
    assert_eq!(decision.mode, DataApiPollMode::Priority);
    assert_eq!(rss_poll_interval(&config, &channel, expired), 60);
    config.websub.enabled = false;
    assert_eq!(rss_poll_interval(&config, &channel, NOW), 60);
}

#[test]
fn channels_are_rescheduled_by_the_quota() {
    let mut db = Database::new("owner");
    let id = add_test_channel(&mut db, "https://example.invalid/feed", "quota");
    let config = Config::default();
    let reset = NOW + 7_200_000;
    assert_eq!(
        db.reschedule_api_channel(
            &config,
            id,
            NOW,
            QuotaDegradation::FallbackOnly,
            reset,
            Some("tag")
        )
        .unwrap(),
        None
    );
    let channel = db.channel(id).unwrap();
    assert_eq!(channel.next_data_api_poll_at, Some(reset));
    assert_eq!(channel.data_api_etag.as_deref(), Some("tag"));
    let decision = db
        .reschedule_api_channel(&config, id, NOW, QuotaDegradation::Normal, reset, None)
        .unwrap()
        .unwrap();
    let channel = db.channel(id).unwrap();
    assert_eq!(
        channel.next_data_api_poll_at,
        Some(NOW + decision.interval as i64 * 1_000)
    );
    assert_eq!(channel.data_api_etag.as_deref(), Some("tag"));
    assert!(db
        .reschedule_api_channel(&config, 99, NOW, QuotaDegradation::Normal, reset, None)
        .is_err());
}

#[test]
fn failed_channels_wait_longer_each_time() {
    let mut db = Database::new("owner");
    let id = add_test_channel(&mut db, "https://example.invalid/feed", "failing");
    let config = Config::default();
    let channel = db.channel(id).unwrap();
    assert_eq!(
        next_poll_after(&config, &channel, false, None, JITTER_WHOLE, NOW),
        Some(NOW + rss_poll_interval(&config, &channel, NOW) as i64 * 1_000)
    );
    let first = next_poll_after(&config, &channel, true, None, JITTER_WHOLE, NOW).unwrap();
    db.finish_channel_poll(id, Some("failed"), true, first, NOW)
        .unwrap();
    let channel = db.channel(id).unwrap();
    let second = next_poll_after(&config, &channel, true, None, JITTER_WHOLE, NOW).unwrap();
    assert!(second > first);
    let asked = next_poll_after(
        &config,
        &channel,
        true,
        Some(NOW + 100_000_000),
        JITTER_WHOLE,
        NOW,
    )
    .unwrap();
    assert_eq!(asked, NOW + 100_000_000);
}

#[test]
fn broken_feeds_open_the_circuit() {
    let mut db = Database::new("owner");
    let mut circuit = RssCircuitWindow::new();
    for index in 0..8 {
        db.record_rss_sample(&mut circuit, true, 1_000 + index, NOW).unwrap();
    }
    let until = db.rss_circuit_open_until(NOW).unwrap();
    assert_eq!(until, NOW + 600_000);
    assert_eq!(circuit_turn(Some(until), 0), CircuitTurn::Probe);
    assert_eq!(circuit_turn(Some(until), 2), CircuitTurn::Defer(until));
    assert_eq!(circuit_turn(None, 2), CircuitTurn::Poll);
    assert_eq!(db.rss_circuit_open_until(until), None);
}

#[test]
fn addresses_are_refused_for_a_reason() {
    for (input, expected) in [
        ("dQw4w9WgXcQ", AddressError::NotAnAddress),
        ("ftp://youtube.com/watch?v=dQw4w9WgXcQ", AddressError::Scheme),
        ("https://me:pw@youtube.com/watch?v=dQw4w9WgXcQ", AddressError::UserInfo),
        ("https://youtube.com:444/watch?v=dQw4w9WgXcQ", AddressError::Port),
        ("https://example.com/watch?v=dQw4w9WgXcQ", AddressError::Host),
        ("https://youtube.com/watch", AddressError::NoVideoId),
        ("https://youtube.com/watch?v=a&v=b", AddressError::SeveralVideoIds),
        ("https://youtube.com/playlist?list=a", AddressError::NotOneVideo),
        ("https://youtu.be/a/b", AddressError::ShortAddress),
    ] {
        let error = canonicalize_youtube_video_url(input).unwrap_err();
        assert_eq!(error.message(), expected.message());
        assert_eq!(error, VideoAddressError::Address(expected), "{input}");
    }
    for (input, id) in [
        ("https://youtube.com/watch?v=short", r#""short""#),
        ("https://youtube.com/watch?v=%22%5C%0A%E9%A0%BB", r#""\"\\\n頻""#),
    ] {
        assert_eq!(
            canonicalize_youtube_video_url(input).unwrap_err().message(),
            format!("YouTube video ID 必须是 11 位 ASCII 字母、数字、连字符或下划线: {id}")
        );
    }
    let bad = validate_youtube_video_id("short").unwrap_err();
    assert_eq!(bad.id, "short");
    assert_eq!(
        bad.message(),
        "YouTube video ID 必须是 11 位 ASCII 字母、数字、连字符或下划线: \"short\""
    );
    assert_eq!(
        MetadataError::BadId.message("../x", "dQw4w9WgXcQ"),
        "YouTube video ID 必须是 11 位 ASCII 字母、数字、连字符或下划线: \"../x\""
    );
}

#[test]
fn channels_are_read_from_their_page() {
    let found = channel_from_json(
        &json(r#"{"channel_id":"UC-x","channel":"Name"}"#),
        "https://www.youtube.com/@x/videos",
    )
    .unwrap();
    assert_eq!(found.channel_id, "UC-x");
    assert_eq!(found.name, "Name");
    assert!(found.feed_url.ends_with("UC-x"));
    assert!(channel_from_json(&json("{}"), "https://www.youtube.com/@x").is_none());
}

#[test]
fn lists_hold_only_single_videos() {
    let turns = reconcile_turns(
        &json(r#"{"entries":[{"id":"UCoFbVpsJ-XP8zl77ntGWBqw"},{"id":"normalvid01","title":"n"}]}"#),
        None,
    );
    assert!(!matches!(turns[0], Turn::Take(_)));
    assert!(matches!(&turns[1], Turn::Take(found) if found.video_id == "normalvid01"));
}

#[test]
fn quota_is_counted_and_starts_anew() {
    let mut db = Database::new("owner");
    let reset = NOW + 3_600_000;
    let quota = db.consume_discovery_quota(2, 10, NOW, reset).unwrap();
    assert!(quota.allowed);
    assert_eq!(quota.used, 2);
    assert_eq!(db.get_discovery_state(QUOTA_USED).as_deref(), Some("2"));
    let refused = db.consume_discovery_quota(9, 10, NOW, reset).unwrap();
    assert!(!refused.allowed);
    assert_eq!(refused.used, 2);
    let exhausted = db.exhaust_discovery_quota(10, NOW, reset).unwrap();
    assert_eq!(exhausted.used, 10);
    let anew = db
        .consume_discovery_quota(1, 10, reset, reset + 3_600_000)
        .unwrap();
    assert!(anew.allowed);
    assert_eq!(anew.used, 1);
    assert!(db.get_discovery_state(QUOTA_RESET).is_some());
}

#[test]
fn printed_words_tell_of_live_content() {
    assert!(read_printed("\n{\"id\":\"x\"}\n", "WARNING").is_ok());
    let live = read_printed("", "ERROR: This live event will begin in 3 days").unwrap_err();
    assert_eq!(live, PrintFault::Live);
    assert!(is_live_content_pending(&[live.message()]));
    let other = read_printed("null?", "network").unwrap_err();
    assert_eq!(other.message(), "yt-dlp 输出不是 JSON");
}

#[test]
fn a_feed_that_failed_counts_even_where_help_came() {
    let mut db = Database::new("owner");
    let id = add_test_channel(&mut db, "https://example.invalid/feed", "ends");
    let config = Config::default();
    let channel = db.channel(id).unwrap();
    let later = next_poll_after(&config, &channel, true, None, JITTER_WHOLE, NOW);
    db.end_feed_poll(&config, id, None, true, None, JITTER_WHOLE, NOW)
        .unwrap();
    let channel = db.channel(id).unwrap();
    assert_eq!(channel.consecutive_failures, 1);
    assert_eq!(channel.last_error, None);
    assert_eq!(channel.next_poll_at, later);
    db.end_feed_poll(&config, id, Some("bad"), false, None, JITTER_WHOLE, NOW)
        .unwrap();
    let channel = db.channel(id).unwrap();
    assert_eq!(channel.consecutive_failures, 2);
    assert_eq!(channel.last_error.as_deref(), Some("bad"));
    db.end_feed_poll(&config, id, None, false, None, JITTER_WHOLE, NOW)
        .unwrap();
    assert_eq!(db.channel(id).unwrap().consecutive_failures, 0);
    assert!(db
        .end_feed_poll(&config, 99, None, false, None, JITTER_WHOLE, NOW)
        .is_err());
}

#[test]
fn candidates_are_screened_with_the_metadata_that_is_theirs() {
    let mut db = Database::new("owner");
    let channel_id = add_test_channel(&mut db, "https://example.invalid/feed", "listed");
    for id in ["listed00001", "listed00002"] {
        db.insert_video_candidate(
            &candidate(
                id,
                Some(channel_id),
                &format!("https://www.youtube.com/watch?v={id}"),
                CandidateSource::DataApi,
            ),
            NOW,
        )
        .unwrap();
    }
    let found = vec![
        VideoMetadata {
            id: "another0001".into(),
            timestamp: Some(2_051_222_400),
            ..metadata()
        },
        VideoMetadata {
            id: "listed00001".into(),
            timestamp: Some(2_051_222_400),
            ..metadata()
        },
    ];
    let config = Config::default();
    let first = db.get_video_candidate("listed00001").unwrap();
    assert!(db
        .gate_candidate_from(&config, &first, &found, NOW)
        .unwrap());
    assert!(db.get_job_by_video_id("listed00001").unwrap().is_some());
    let second = db.get_video_candidate("listed00002").unwrap();
    assert!(!db
        .gate_candidate_from(&config, &second, &found, NOW)
        .unwrap());
    let second = db.get_video_candidate("listed00002").unwrap();
    assert_eq!(second.gate_state, GateState::Deferred);
    assert_eq!(second.next_gate_at, Some(NOW + RECHECK_INTERVAL_MS));
    assert_eq!(
        second.last_error.as_deref(),
        Some("videos.list 未返回该视频，稍后复查")
    );
    assert!(db.get_job_by_video_id("listed00002").unwrap().is_none());
}

fn feed_with(inside: &str) -> String {
    FEED.replace(
        "<published>",
        &format!("<m:group xmlns:m=\"http://search.yahoo.com/mrss/\">{inside}</m:group><published>"),
    )
}

#[test]
fn times_of_play_are_not_parsed() {
    let nines = "9".repeat(20);
    let plain = feed_with("<m:thumbnail url=\"u\" width=\"1\"/><m:title>start = end: time=1</m:title>");
    assert_eq!(read_feed(plain.as_bytes(), None, true).unwrap().len(), 1);
    for inside in [
        format!("<m:thumbnail url=\"u\" time=\"{nines}\"/>"),
        format!("<m:thumbnail url='>'time = '{nines}:00:00'/>"),
        format!("<m:text start=\"{nines}\">t</m:text>"),
        format!("<m:text type=\"plain\"\n\tend\n=\n\"{nines}\">t</m:text>"),
        format!("<i:duration xmlns:i=\"http://www.itunes.com/dtds/podcast-1.0.dtd\">{nines}</i:duration>"),
    ] {
        let feed = feed_with(&inside);
        assert!(!is_harmless(feed.as_bytes()), "{inside}");
        let muted = mute(feed.as_bytes());
        assert!(is_harmless(&muted));
        assert_eq!(muted.len(), feed.len());
        assert_eq!(mute(&muted), muted);
        let turns = read_feed(feed.as_bytes(), None, true).unwrap();
        assert_eq!(turns.len(), 1, "{inside}");
        match &turns[0] {
            Turn::Take(found) => {
                assert_eq!(found.video_id, "normalvid01");
                assert_eq!(found.title.as_deref(), Some("normal"));
                assert_eq!(found.published_at, Some(2_051_222_400_000));
            }
            other => panic!("{other:?}: {inside}"),
        }
    }
    let told = "xmlns:m=\"http://search.yahoo.com/mrss/\"";
    for text in [
        "<published>a duration of time</published>",
        "<a datetime=\"1\" friend='x'>",
        "<a time=1>",
        "time=\"1\"",
        "</duration>",
        "",
    ] {
        assert!(is_harmless(format!("{text}<a {told}>").as_bytes()), "{text}");
    }
    assert!(is_harmless(b"<a time=\"1\">"));
    assert!(!is_harmless(format!("<a time=\"1\" {told}>").as_bytes()));
}

#[test]
fn encodings_that_spell_in_many_ways_are_not_parsed() {
    let wide: Vec<u8> = FEED.encode_utf16().flat_map(u16::to_le_bytes).collect();
    assert!(!is_harmless(&wide));
    assert!(read_feed(&wide, None, true).is_none());
    let escaped = FEED.replace("normal<", "nor\u{1b}mal<");
    assert!(is_harmless(escaped.as_bytes()));
    assert_eq!(read_feed(escaped.as_bytes(), None, true).unwrap().len(), 1);
    let japanese = escaped.replace("UTF-8", "ISO-2022-JP");
    assert!(!is_harmless(japanese.as_bytes()));
    assert!(read_feed(japanese.as_bytes(), None, true).is_none());
    let latin = FEED.replace("UTF-8", "ISO-8859-1");
    assert_eq!(read_feed(latin.as_bytes(), None, true).unwrap().len(), 1);
}

#[test]
fn elements_inside_their_own_kind_are_few() {
    let open = "<m:content url=\"https://example.invalid/\">";
    let close = "</m:content>";
    let most = feed_with(&(open.repeat(MOST_NESTED) + &close.repeat(MOST_NESTED)));
    assert!(is_harmless(most.as_bytes()));
    assert_eq!(read_feed(most.as_bytes(), None, true).unwrap().len(), 1);
    let more = feed_with(&(open.repeat(MOST_NESTED + 1) + &close.repeat(MOST_NESTED + 1)));
    assert!(!is_harmless(more.as_bytes()));
    assert_eq!(read_feed(more.as_bytes(), None, true).unwrap().len(), 1);
    let deep = feed_with(&(open.repeat(20_000) + &close.repeat(20_000)));
    assert_eq!(read_feed(deep.as_bytes(), None, true).unwrap().len(), 1);
    let plain = FEED.replace("<published>", &("<category term=\"a\"/>".repeat(300) + "<published>"));
    assert!(is_harmless(plain.as_bytes()));
    assert_eq!(read_feed(plain.as_bytes(), None, true).unwrap().len(), 1);
}

#[test]
fn within_ten_minutes_three_fallbacks_are_granted() {
    let mut limiter = FallbackLimiter::new();
    let mut granted: Vec<(i64, u64)> = Vec::new();
    for step in 0..200u64 {
        let (channel, now) = ((step * 7 % 5) as i64, step * 41_000);
        if limiter.claim(channel, now) == FallbackClaim::Allowed {
            granted.push((channel, now));
        }
    }
    assert!(granted.len() > 10);
    for pair in granted.windows(4) {
        assert!(pair[3].1 - pair[0].1 >= FALLBACK_GLOBAL_WINDOW_MS);
    }
    for (i, earlier) in granted.iter().enumerate() {
        for later in &granted[i + 1..] {
            assert!(later.0 != earlier.0 || later.1 - earlier.1 >= 600_000);
        }
    }
}

#[test]
fn addresses_that_were_made_read_back() {
    for id in ["dQw4w9WgXcQ", "-_-_-_-_-_-", "00000000000"] {
        let url = format!("https://www.youtube.com/watch?v={id}");
        let (found, made) = canonicalize_youtube_video_url(&url).unwrap();
        assert_eq!(found, id);
        assert_eq!(made, url);
    }
    for (given, page) in [
        ("https://youtube.com/@a b", "/@a%20b/videos"),
        ("http://www.youtube.com/@頻道/streams//", "/@%E9%A0%BB%E9%81%93/streams"),
        ("https://m.youtube.com/c/x/../y/%2e/z?a#b", "/c/y/z/videos"),
        ("https://music.youtube.com\\@x\\shorts", "/@x/shorts"),
        ("https://youtube.com//@x/'|^[]%", "//@x/'|^[]%/videos"),
        ("https://youtube.com/C:/..", "/C:/videos"),
        ("https://youtube.com/...", "/.../videos"),
        ("https://youtube.com/@x/{}\"<>`", "/@x/%7B%7D%22%3C%3E%60/videos"),
    ] {
        let once = normalize_channel_url(given).unwrap();
        assert_eq!(once, format!("https://www.youtube.com{page}"), "{given}");
        assert_eq!(normalize_channel_url(&once).unwrap(), once);
    }
    let refused = |url: &str| normalize_channel_url(url).unwrap_err();
    assert_eq!(refused("https://youtube.com/a/.."), AddressError::NoChannelPath);
    assert_eq!(refused("https://youtu.be/a"), AddressError::ChannelHost);
    assert_eq!(
        AddressError::ChannelHost.message(),
        "频道 URL 只允许 youtube.com 域名"
    );
    assert_eq!(
        AddressError::Host.message(),
        "视频 URL 只允许 youtube.com 或 youtu.be 域名"
    );
}

#[test]
fn the_calendar_has_two_ends() {
    for (second, known) in [
        (8_210_266_876_799, true),
        (8_210_266_876_800, false),
        (-8_334_601_228_800, true),
        (-8_334_601_228_801, false),
    ] {
        assert_eq!(
            reconcile_after_baseline(Some(0), Some(second)).is_some(),
            known,
            "{second}"
        );
    }
}
