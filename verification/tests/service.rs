use y2b_rs::admin::{
    backup_names, profile_allowed, surplus, websub_status, AUTH_YOUTUBE,
};
use y2b_rs::bilibili::{
    check_submission, credentials_from, has_subtitle_lan, language_matches, submit_form, Cookie,
    subtitle_data, view_from, VideoView,
};
use y2b_rs::captions::CcCue;
use y2b_rs::check::{
    baseline_check, baseline_items, baseline_path, finish_check, first_line, hash_bytes,
    policy_resources, run, schema_check, status_label, tool_checks, Baseline, BaselineItem,
    BaselineProbe, CheckItem, FileHash, OwnFile, Probes, ProgramFile, ToolProbe,
};
use y2b_rs::config::{Config, StorageConfig};
use y2b_rs::course::{closing, opening, Settled, SubmitLimits, Work};
use y2b_rs::fault::DbError;
use y2b_rs::json::{read_json, Json};
use y2b_rs::model::{JobStatus, PreparedUpload, PublicationMetadata, TransferMode, VideoMetadata};
use y2b_rs::prepare::{
    ai_token_budget, cover_name, ensure_disk, find_subtitle, find_video, length_accepted,
    metadata_stage_end, plan_submission, prepare_route, segmented_name, translated_name,
    translation_work, FileEntry, PrepareRefusal, Room, Route, TranslationWork,
};
use y2b_rs::queue::{NewJob, PREPARE_CLAIM_KIND};
use y2b_rs::retry::{
    classify_failure, doubled_wait, retry_delay, subtitle_base, Failure, PrepareEnd, SubtitleEnd, UploadEnd,
    CC_MAX_ATTEMPTS, CC_RETRY_BASE_SECONDS,
};
use y2b_rs::schema::CURRENT_SCHEMA_VERSION;
use y2b_rs::settings::NEXT_BILIBILI_SUBMIT_AT;
use y2b_rs::store::{Database, UploadState};
use y2b_rs::submit::{
    cc_lines, cc_step, find_bvid, judge_submission, known_of_job, published_id, stopped_text,
    submitted_text, there_text, window_text, CcFault, CcStep, Ended, Submitted, UploadFault,
    WaitStep, AUTH_BILIBILI,
};
use y2b_rs::subtitle::Cue;

const NOW: i64 = 1_786_752_000_000;

fn json(text: &str) -> Json {
    read_json(text).unwrap()
}

fn create(db: &mut Database, video_id: &str, mode: TransferMode) -> String {
    db.create_job(
        &NewJob {
            channel_id: None,
            video_id,
            url: "https://youtu.be/test",
            title: None,
            published: None,
            updated: None,
            transfer_mode: mode,
        },
        NOW,
    )
    .unwrap()
    .unwrap()
}

fn plan(mode: TransferMode) -> PreparedUpload {
    PreparedUpload::Submission {
        video_path: "/tmp/video.mp4".into(),
        cover_path: "/tmp/cover.jpg".into(),
        mode,
        completion_status: JobStatus::Completed,
    }
}

fn chain(messages: &[&str]) -> Vec<String> {
    messages.iter().map(|message| message.to_string()).collect()
}

// Checks

#[test]
fn schema_check_rejects_versions_on_both_sides() {
    assert!(schema_check(CURRENT_SCHEMA_VERSION).ok);
    assert!(!schema_check(CURRENT_SCHEMA_VERSION - 1).ok);
    assert!(!schema_check(CURRENT_SCHEMA_VERSION + 1).ok);
    assert_eq!(schema_check(21).detail, "v21，期望 v22");
}

fn fixture_config() -> Config {
    let mut config = Config::default();
    config.runtime.data_dir = "/data".into();
    for tool in [
        &mut config.ai.pi,
        &mut config.youtube.yt_dlp,
        &mut config.render.ffmpeg,
        &mut config.render.ffprobe,
        &mut config.bilibili.biliup,
    ] {
        *tool = "/data/tool".into();
    }
    config.ai.extension = "/data/extension.ts".into();
    config.ai.policy = "/data/policy.json".into();
    config
}

fn fixture_hash(path: &str) -> String {
    hash_bytes(path.as_bytes())
}

fn fixture_files(config: &Config) -> Vec<FileHash> {
    let mut paths: Vec<String> = tool_checks(config)
        .into_iter()
        .map(|tool| tool.path)
        .collect();
    paths.extend(policy_resources(config).into_iter().map(|item| item.path));
    paths.push("/data/y2b".into());
    paths
        .into_iter()
        .map(|path| FileHash {
            sha256: Some(fixture_hash(&path)),
            path,
        })
        .collect()
}

fn tool_results() -> Vec<ToolProbe> {
    (0..5)
        .map(|_| ToolProbe::Ran {
            stdout: "\nfixture-version\n".into(),
            stderr: String::new(),
        })
        .collect()
}

fn probes(config: &Config, baseline: BaselineProbe) -> Probes {
    Probes {
        tools: tool_results(),
        swaps: Some("Filename Type\n/swap file\n".into()),
        free_bytes: Ok(100 * 1_073_741_824),
        integrity: "ok".into(),
        schema: Ok(CURRENT_SCHEMA_VERSION),
        cookies: (true, true),
        resources: vec![true; 4],
        baseline,
        files: fixture_files(config),
        accounts: (Ok(Some("ok now".into())), Ok(None)),
    }
}

fn fixture_baseline(config: &Config, checks: &[CheckItem]) -> Baseline {
    let programs: Vec<ProgramFile> = (0..4)
        .map(|_| ProgramFile {
            exists: true,
            sha256: Some(fixture_hash("/data/tool")),
        })
        .collect();
    let own = Some(OwnFile {
        path: "/data/y2b".into(),
        version: "0.1.0".into(),
        sha256: Some(fixture_hash("/data/y2b")),
    });
    let resources: Vec<Option<String>> = policy_resources(config)
        .iter()
        .map(|item| Some(fixture_hash(&item.path)))
        .collect();
    Baseline {
        generated_at: "2026-08-15T00:00:00+00:00".into(),
        os: "linux".into(),
        arch: "x86_64".into(),
        items: baseline_items(config, checks, &programs, &own, &resources).unwrap(),
        details: Vec::new(),
    }
}

fn named<'a>(checks: &'a [CheckItem], name: &str) -> &'a CheckItem {
    checks.iter().find(|item| item.name == name).unwrap()
}

fn checked(config: &Config, baseline: BaselineProbe, files: Vec<FileHash>) -> CheckItem {
    let mut found = probes(config, baseline);
    found.files = files;
    let mut checks = run(config, &found);
    let index = checks
        .iter()
        .position(|item| item.name == "dependency baseline")
        .unwrap();
    checks.remove(index)
}

#[test]
fn missing_baseline_and_auth_states_are_required_failures() {
    let config = fixture_config();
    let mut found = probes(&config, BaselineProbe::Missing);
    found.tools = (0..5).map(|_| ToolProbe::Missing).collect();
    found.accounts = (Ok(None), Err("locked".into()));
    let checks = run(&config, &found);
    for name in ["dependency baseline", "YouTube auth", "Bilibili auth"] {
        let item = named(&checks, name);
        assert!(item.required);
        assert!(!item.ok);
    }
    assert_eq!(named(&checks, "pi").detail, "未找到 /data/tool");
    assert_eq!(named(&checks, "Bilibili auth").detail, "读取状态失败: locked");
    assert_eq!(
        named(&checks, "dependency baseline").detail,
        "未找到 /data/dependency-baseline.json"
    );
    assert_eq!(baseline_path(&config), "/data/dependency-baseline.json");
}

#[test]
fn missing_required_tool_does_not_create_partial_baseline() {
    let config = fixture_config();
    let checks = vec![CheckItem {
        name: "pi".into(),
        ok: false,
        required: true,
        detail: "未找到 pi".into(),
    }];
    let absent: Vec<ProgramFile> = (0..4)
        .map(|_| ProgramFile {
            exists: false,
            sha256: None,
        })
        .collect();
    let resources = vec![None, None, None, None];
    let error = baseline_items(&config, &checks, &absent, &None, &resources).unwrap_err();
    assert!(error.contains("缺少必选工具 pi"));
    let there: Vec<ProgramFile> = (0..4)
        .map(|_| ProgramFile {
            exists: true,
            sha256: Some("0".into()),
        })
        .collect();
    let error = baseline_items(&config, &checks, &there, &None, &resources).unwrap_err();
    assert_eq!(error, "生成依赖基线失败，必选工具 pi 检查未通过: 未找到 pi");
    let error = baseline_items(&config, &[], &there, &None, &resources).unwrap_err();
    assert_eq!(error, "生成依赖基线失败，缺少必选工具 pi 的检查结果");
}

#[test]
fn generated_baseline_matches_current_dependencies() {
    let config = fixture_config();
    let checks = run(&config, &probes(&config, BaselineProbe::Missing));
    assert_eq!(named(&checks, "ffprobe").detail, "fixture-version");
    let baseline = fixture_baseline(&config, &checks);
    assert!(!baseline.items.iter().any(|item| item.name == "ffprobe"));
    let item = checked(
        &config,
        BaselineProbe::Read(baseline),
        fixture_files(&config),
    );
    assert!(item.ok);
    assert_eq!(item.detail, "无漂移，基线 2026-08-15T00:00:00+00:00");
}

#[test]
fn external_dependency_drift_is_a_required_failure() {
    let config = fixture_config();
    let checks = run(&config, &probes(&config, BaselineProbe::Missing));
    let baseline = fixture_baseline(&config, &checks);
    let mut files = fixture_files(&config);
    for file in files.iter_mut() {
        if file.path == config.ai.policy {
            file.sha256 = Some(fixture_hash("changed-resource"));
        }
    }
    let item = checked(&config, BaselineProbe::Read(baseline), files);
    assert!(item.required);
    assert!(!item.ok);
    assert!(item.detail.contains("pi-policy"), "{}", item.detail);
}

#[test]
fn changed_dependency_path_cannot_keep_checking_the_old_file() {
    let mut config = fixture_config();
    let checks = run(&config, &probes(&config, BaselineProbe::Missing));
    let baseline = fixture_baseline(&config, &checks);
    config.youtube.yt_dlp = "/data/new-tool".into();
    let mut files = fixture_files(&config);
    for file in files.iter_mut() {
        if file.path == "/data/new-tool" {
            file.sha256 = Some(fixture_hash("/data/tool"));
        }
    }
    let item = baseline_check(&config, &baseline, &files);
    assert!(item.required && !item.ok, "{item:?}");
    assert!(item.detail.contains("yt-dlp"), "{}", item.detail);

    config.youtube.yt_dlp = "/data//tool".into();
    config.ai.policy = "/data/new-policy.json".into();
    let item = baseline_check(&config, &baseline, &fixture_files(&config));
    assert!(item.required && !item.ok, "{item:?}");
    assert!(item.detail.contains("pi-policy"), "{}", item.detail);
}

#[test]
fn paths_are_compared_part_by_part() {
    let mut config = fixture_config();
    let checks = run(&config, &probes(&config, BaselineProbe::Missing));
    let baseline = fixture_baseline(&config, &checks);
    config.youtube.yt_dlp = "/data//tool".into();
    let mut files = fixture_files(&config);
    files.push(FileHash {
        path: "/data//tool".into(),
        sha256: Some(fixture_hash("/data/tool")),
    });
    for file in files.iter_mut() {
        if file.path == "/data//tool" {
            file.sha256 = Some(fixture_hash("/data/tool"));
        }
    }
    assert!(baseline_check(&config, &baseline, &files).ok);
    assert_eq!(
        policy_resources(&config)[2].path,
        "/data/audit-policy.json"
    );
}

fn copy_item(item: &BaselineItem) -> BaselineItem {
    BaselineItem {
        name: item.name.clone(),
        path: item.path.clone(),
        version: item.version.clone(),
        sha256: item.sha256.clone(),
    }
}

#[test]
fn incomplete_or_ambiguous_baselines_are_required_failures() {
    let config = fixture_config();
    let checks = run(&config, &probes(&config, BaselineProbe::Missing));
    let full = || fixture_baseline(&config, &checks);
    let mut empty = full();
    empty.items.clear();
    let mut missing = full();
    missing.items.retain(|item| item.name != "pi-policy");
    let mut no_hash = full();
    no_hash
        .items
        .iter_mut()
        .find(|item| item.name == "yt-dlp")
        .unwrap()
        .sha256 = None;
    let mut duplicate = full();
    let again = copy_item(&duplicate.items[0]);
    duplicate.items.push(again);
    for (case, invalid) in [
        ("empty", empty),
        ("missing", missing),
        ("null hash", no_hash),
        ("duplicate", duplicate),
    ] {
        let item = checked(
            &config,
            BaselineProbe::Read(invalid),
            fixture_files(&config),
        );
        assert!(item.required && !item.ok, "{case}: {item:?}");
    }
    let invalid = checked(&config, BaselineProbe::Invalid, fixture_files(&config));
    assert_eq!(invalid.detail, "基线 JSON 无效");
}

#[test]
fn y2b_own_drift_is_only_a_warning() {
    let config = fixture_config();
    let checks = run(&config, &probes(&config, BaselineProbe::Missing));
    let mut baseline = fixture_baseline(&config, &checks);
    baseline
        .items
        .iter_mut()
        .find(|item| item.name == "y2b")
        .unwrap()
        .sha256 = Some("f".repeat(64));
    let item = checked(
        &config,
        BaselineProbe::Read(baseline),
        fixture_files(&config),
    );
    assert!(!item.required, "y2b 自身漂移不应构成必选失败");
    assert!(!item.ok);
    assert!(item.detail.contains("仅告警"), "{}", item.detail);
}

#[test]
fn missing_resource_cannot_overwrite_a_complete_baseline() {
    let config = fixture_config();
    let checks = run(&config, &probes(&config, BaselineProbe::Missing));
    let programs: Vec<ProgramFile> = (0..4)
        .map(|_| ProgramFile {
            exists: true,
            sha256: Some("0".into()),
        })
        .collect();
    let resources = vec![Some("0".into()), None, Some("0".into()), Some("0".into())];
    let error = baseline_items(&config, &checks, &programs, &None, &resources).unwrap_err();
    assert_eq!(error, "读取 /data/policy.json");
}

#[test]
fn required_check_failure_returns_error_without_overwriting_baseline() {
    let checks = vec![
        CheckItem {
            name: "pi".into(),
            ok: false,
            required: true,
            detail: "未找到 pi".into(),
        },
        CheckItem {
            name: "swap".into(),
            ok: false,
            required: false,
            detail: "未启用".into(),
        },
    ];
    let error = finish_check(&checks).unwrap_err();
    assert!(error.contains("必选检查失败: pi"));
    assert_eq!(status_label(&checks[0]), "FAIL");
    assert_eq!(status_label(&checks[1]), "WARN");
    finish_check(&checks[1..]).unwrap();
}

#[test]
fn digests_and_first_lines_are_exact() {
    assert_eq!(
        hash_bytes(b"abc"),
        "ba7816bf8f01cfea414140de5dae2223b00361a396177a9cb410ff61f20015ad"
    );
    assert_eq!(first_line("\n  \n two \nthree"), "two");
    assert_eq!(first_line(""), "");
    let config = fixture_config();
    let mut found = probes(&config, BaselineProbe::Missing);
    found.swaps = Some("Filename Type\n".into());
    found.free_bytes = Err("denied".into());
    found.schema = Err("gone".into());
    found.tools[2] = ToolProbe::Failed("exit 1".into());
    let checks = run(&config, &found);
    assert!(!named(&checks, "swap").ok);
    assert_eq!(named(&checks, "disk").detail, "读取磁盘空间失败: denied");
    assert_eq!(
        named(&checks, "database schema").detail,
        "读取版本失败: gone"
    );
    assert_eq!(named(&checks, "ffmpeg").detail, "exit 1");
    assert!(named(&checks, "YouTube auth").ok);
    assert_eq!(checks.len(), 18);
}

// The platform

#[test]
fn submitted_language_does_not_match_bilibili_auto_translation() {
    assert!(language_matches("zh", "zh"));
    assert!(language_matches("ZH", "zh"));
    assert!(!language_matches("zh-CN", "zh"));
    assert!(!language_matches("zh-Hans", "zh"));
    assert!(!language_matches("en-US", "zh"));
    assert!(!language_matches("zho", "zh"));
}

#[test]
fn accounts_are_read_from_their_cookies() {
    let cookies = |pairs: &[(&str, &str)]| -> Vec<Cookie> {
        pairs
            .iter()
            .map(|(name, value)| Cookie {
                name: name.to_string(),
                value: value.to_string(),
            })
            .collect()
    };
    let found = credentials_from(&cookies(&[("a", "1"), ("bili_jct", "t")])).unwrap();
    assert_eq!(found.cookie_header, "a=1; bili_jct=t");
    assert_eq!(found.csrf, "t");
    let found = credentials_from(&cookies(&[("bili_jct", "t"), ("bili_jct", "u")])).unwrap();
    assert_eq!(found.csrf, "u");
    for none in [vec![], cookies(&[("a", "1")]), cookies(&[("bili_jct", "")])] {
        assert_eq!(
            credentials_from(&none).unwrap_err().message(),
            "cookies 缺少 bili_jct，请重新登录 Bilibili"
        );
    }
}

#[test]
fn answers_of_the_platform_are_read() {
    let view = view_from(
        &json(r#"{"code":0,"data":{"aid":1,"cid":2,"title":"t","duration":6.5}}"#),
        "BV1x",
        Some(6_500),
    )
    .unwrap();
    assert_eq!((view.aid, view.cid, view.duration_ms), (1, 2, 6_500));
    assert_eq!(view.title, "t");
    assert_eq!(
        view_from(&json(r#"{"code":-404,"message":"啥都木有"}"#), "BV1x", None).unwrap_err(),
        "查询稿件 BV1x 失败: code=-404 啥都木有"
    );
    assert_eq!(
        view_from(&json(r#"{"code":0,"data":{"cid":2}}"#), "BV1x", None).unwrap_err(),
        "响应缺少 aid"
    );
    assert_eq!(
        view_from(&json(r#"{"code":0,"data":{"aid":2}}"#), "BV1x", None).unwrap_err(),
        "响应缺少 cid"
    );
    assert_eq!(
        view_from(&json(r#"{"code":0,"data":{"aid":2,"cid":3}}"#), "BV1x", None).unwrap_err(),
        "响应缺少 duration"
    );
    let lans = json(r#"{"code":0,"data":{"lans":[{"lan":"zh-CN"},{"lan":"ZH"}]}}"#);
    assert!(has_subtitle_lan(&lans, "zh").unwrap());
    assert!(!has_subtitle_lan(&json(r#"{"code":0,"data":{}}"#), "zh").unwrap());
    assert_eq!(
        has_subtitle_lan(&json(r#"{"message":"no"}"#), "zh").unwrap_err(),
        "查询字幕语言失败: code=null no"
    );
}

#[test]
fn subtitles_are_submitted_as_a_form() {
    let lines = vec![CcCue {
        from: 0,
        to: 1_500,
        content: "你好".into(),
    }];
    assert_eq!(
        subtitle_data(&lines),
        r#"{"body":[{"content":"你好","from":0.0,"location":1,"to":1.5}]}"#
    );
    let view = VideoView {
        aid: 1,
        cid: 2,
        title: String::new(),
        duration_ms: 0,
    };
    let form = submit_form(&view, "zh", &lines, "token");
    assert_eq!(form[1], ("oid", "2".to_string()));
    assert_eq!(form[2], ("aid", "1".to_string()));
    assert_eq!(form[6], ("csrf", "token".to_string()));
    check_submission(&json(r#"{"code":0}"#)).unwrap();
    assert_eq!(
        check_submission(&json("{}")).unwrap_err(),
        "提交字幕失败: 响应缺少 code"
    );
    assert_eq!(
        check_submission(&json(
            r#"{"code":79,"message":"bad","data":[{"line":3,"error_msg":"too long"},{"line":4}]}"#
        ))
        .unwrap_err(),
        "提交字幕失败: code=79 bad（line 3: too long）"
    );
    assert_eq!(
        check_submission(&json(r#"{"code":79}"#)).unwrap_err(),
        "提交字幕失败: code=79 "
    );
}

// Preparation

#[test]
fn disk_probe_failure_stops_job_preparation() {
    let mut db = Database::new("owner");
    let id = create(&mut db, "disk-probe-failure", TransferMode::Direct);
    db.claim_prepare_job(&id, NOW).unwrap();
    let config = Config::default();
    let refusal = db
        .prepare_refusal(None, config.storage, config.ai.daily_token_limit, NOW)
        .unwrap()
        .unwrap();
    assert!(refusal.message().contains("读取剩余磁盘空间失败"));
}

#[test]
fn preparation_needs_room_and_tokens() {
    let storage = StorageConfig {
        warn_free_gib: 10,
        stop_free_gib: 5,
        delete_large_after_upload: true,
        daily_backups: 7,
        weekly_backups: 4,
    };
    let gib = 1_073_741_824;
    assert_eq!(ensure_disk(None, storage), Room::Unknown);
    assert_eq!(ensure_disk(Some(5 * gib - 1), storage), Room::Short(4));
    assert_eq!(ensure_disk(Some(5 * gib), storage), Room::Low(5));
    assert_eq!(ensure_disk(Some(10 * gib), storage), Room::Enough(10));
    let db = Database::new("owner");
    assert_eq!(
        db.prepare_refusal(Some(gib), storage, None, NOW)
            .unwrap()
            .unwrap()
            .message(),
        "剩余磁盘 1GiB，低于停止阈值 5GiB"
    );
    assert_eq!(
        db.prepare_refusal(Some(10 * gib), storage, Some(1), NOW).unwrap(),
        None
    );
    assert_eq!(
        db.prepare_refusal(Some(10 * gib), storage, Some(0), NOW).unwrap(),
        Some(PrepareRefusal::DailyLimit(0))
    );
    assert_eq!(
        PrepareRefusal::DailyLimit(7).message(),
        "已达到每日 token 上限 7"
    );
    assert_eq!(ai_token_budget(256_000, 200_000), Ok(200_000));
    assert_eq!(
        ai_token_budget(1, 2),
        Err("AI token 配置无效: safe_context_tokens=2, context_window_tokens=1".to_string())
    );
}

#[test]
fn videos_go_their_way() {
    assert_eq!(
        prepare_route(TransferMode::Direct, true, true),
        Route::Direct
    );
    assert_eq!(
        prepare_route(TransferMode::Translated, true, true),
        Route::Reuse
    );
    assert_eq!(
        prepare_route(TransferMode::Translated, true, false),
        Route::Translate
    );
    assert_eq!(opening(Route::Reuse), None);
    assert_eq!(opening(Route::Direct), Some(Work::VideoAndTitle));
    assert_eq!(
        closing(Route::Translate, false),
        vec![
            Work::Title(TransferMode::Direct),
            Work::Probe,
            Work::Cover,
            Work::Plan
        ]
    );
    assert_eq!(
        closing(Route::Translate, true),
        vec![
            Work::Title(TransferMode::Translated),
            Work::Probe,
            Work::Cover,
            Work::Plan
        ]
    );
    let PreparedUpload::Submission {
        mode,
        completion_status,
        ..
    } = plan_submission(Route::Translate, false, "/v", "/c");
    assert_eq!(mode, TransferMode::Direct);
    assert_eq!(
        completion_status,
        JobStatus::UploadedOriginalPendingSubtitle
    );
    assert_eq!(metadata_stage_end(true), "deferred");
    assert_eq!(metadata_stage_end(false), "failed");
}

#[test]
fn files_are_found_by_their_names() {
    let file = |name: &str, len| FileEntry {
        name: name.into(),
        len,
    };
    let files = vec![
        file("abc.raw.mp4.part", 1_024),
        file("xyz.raw.mp4", 4_096),
        file("abc.raw.mp4", 4_096),
        file(".vtt", 9),
        file("abc.en.vtt", 0),
        file("abc.en-orig.vtt", 9),
    ];
    assert_eq!(find_video(&files, "abc"), Some(2));
    assert_eq!(find_video(&files, "nope"), None);
    assert_eq!(find_subtitle(&files), Some(5));
    assert_eq!(find_subtitle(&files[..5]), None);
    assert_eq!(cover_name("abc"), "abc.youtube-cover.jpg");
    assert_eq!(segmented_name("abc"), "abc.en.segmented.json");
    assert_eq!(translated_name("abc"), "abc.en-zh-CN.translated.json");
    assert!(length_accepted(Some(60_000), 63_000));
    assert!(!length_accepted(Some(60_000), 63_001));
    assert!(!length_accepted(Some(60_000), 56_999));
    assert!(length_accepted(None, 1));
}

fn cue(translation: Option<&str>) -> Cue {
    Cue {
        start: 0,
        end: 1_000,
        source: "hi".into(),
        translation: translation.map(|text| text.into()),
    }
}

#[test]
fn kept_translations_are_resumed() {
    assert_eq!(
        translation_work(&[cue(Some("你好"))]),
        TranslationWork::Done(1)
    );
    let work = translation_work(&[cue(Some("你好")), cue(None)]);
    assert_eq!(work, TranslationWork::Resume { done: 1, total: 2 });
    assert_eq!(work.message(), "续传翻译检查点: 1/2 cues");
    assert_eq!(
        TranslationWork::Done(3).message(),
        "复用翻译缓存: 3 cues"
    );
}

// Failures

#[test]
fn waits_double_up_to_an_hour() {
    assert_eq!(
        (1..=6).map(retry_delay).collect::<Vec<_>>(),
        [600, 1_200, 2_400, 3_600, 3_600, 3_600]
    );
    assert_eq!(doubled_wait(90, 0, 3_600), 90);
    assert_eq!(doubled_wait(90, 5, 3_600), 2_880);
    assert_eq!(doubled_wait(90, i64::MAX, 3_600), 3_600);
    assert_eq!(doubled_wait(90, -1, 3_600), 90);
    assert_eq!(subtitle_base("查询稿件 BV1 失败: code=-404 啥都木有"), 30);
    assert_eq!(subtitle_base("提交字幕失败: code=79"), CC_RETRY_BASE_SECONDS);
}

#[test]
fn failed_preparations_wait_and_are_given_up() {
    let mut db = Database::new("owner");
    let id = create(&mut db, "failing", TransferMode::Direct);
    let mut now = NOW;
    for attempt in 1..=5 {
        db.claim_prepare_job(&id, now).unwrap();
        let end = db
            .settle_prepare_failure(&id, &chain(&["boom", "root"]), 5, now)
            .unwrap();
        let job = db.get_job(&id).unwrap().unwrap();
        assert_eq!(job.attempt, attempt);
        assert_eq!(job.error.as_deref(), Some("boom"));
        assert!(!db.owns_job_claim(&id, PREPARE_CLAIM_KIND));
        if attempt < 5 {
            assert_eq!(end, PrepareEnd::Waits(retry_delay(attempt)));
            assert_eq!(job.status, JobStatus::RetryWait);
            assert!(db.next_queued_job(now).is_none());
            now += retry_delay(attempt) * 1_000;
            assert!(db.next_queued_job(now).is_some());
        } else {
            assert_eq!(end, PrepareEnd::GaveUp);
            assert_eq!(job.status, JobStatus::DeadLetter);
        }
    }
    assert_eq!(db.events.len(), 5);
    assert_eq!(db.events[0].level, "error");
    assert!(matches!(
        db.settle_prepare_failure(&id, &chain(&["boom"]), 5, now),
        Err(DbError::ClaimLost)
    ));
}

#[test]
fn live_and_overlong_videos_are_not_counted() {
    let mut db = Database::new("owner");
    let live = create(&mut db, "live", TransferMode::Direct);
    db.claim_prepare_job(&live, NOW).unwrap();
    assert_eq!(
        db.settle_prepare_failure(&live, &chain(&["x", "This live event has ended"]), 5, NOW)
            .unwrap(),
        PrepareEnd::Recheck
    );
    let job = db.get_job(&live).unwrap().unwrap();
    assert_eq!((job.attempt, job.status), (0, JobStatus::RetryWait));
    assert!(db.next_queued_job(NOW + 1_799_999).is_none());
    assert!(db.next_queued_job(NOW + 1_800_000).is_some());
    assert_eq!(db.events[0].level, "info");

    let long = create(&mut db, "long", TransferMode::Direct);
    db.claim_prepare_job(&long, NOW).unwrap();
    assert_eq!(
        db.settle_prepare_failure(&long, &chain(&["视频时长超过上限: 9000s"]), 5, NOW)
            .unwrap(),
        PrepareEnd::TooLong
    );
    let job = db.get_job(&long).unwrap().unwrap();
    assert_eq!((job.attempt, job.status), (0, JobStatus::DeadLetter));
    assert_eq!(classify_failure(&chain(&["network"])), Failure::Plain);
}

#[test]
fn failed_uploads_wait_pause_and_cool_down() {
    let mut db = Database::new("owner");
    let id = create(&mut db, "upload-failing", TransferMode::Direct);
    db.update_job_status(&id, JobStatus::Uploading, None, NOW)
        .unwrap();
    assert_eq!(
        db.settle_upload_failure(&id, "code 21566", 21_600, 2, NOW).unwrap(),
        UploadEnd::Waits(600)
    );
    assert_eq!(
        db.get_setting(NEXT_BILIBILI_SUBMIT_AT).as_deref(),
        Some("2026-08-15T06:00:00+00:00")
    );
    assert_eq!(
        db.settle_upload_failure(&id, "boom", 21_600, 2, NOW).unwrap(),
        UploadEnd::Paused
    );
    assert_eq!(
        db.get_job(&id).unwrap().unwrap().status,
        JobStatus::Paused
    );
    db.update_job_status(&id, JobStatus::UploadUncertain, None, NOW)
        .unwrap();
    assert_eq!(
        db.settle_upload_failure(&id, "boom", 21_600, 2, NOW).unwrap(),
        UploadEnd::InDoubt
    );
    assert_eq!(
        db.get_job(&id).unwrap().unwrap().status,
        JobStatus::UploadUncertain
    );
    assert!(matches!(
        db.settle_upload_failure("nobody", "boom", 1, 2, NOW),
        Err(DbError::NoRow)
    ));
    db.defer_bilibili_submissions(0, NOW).unwrap();
    assert!(matches!(
        db.defer_bilibili_submissions(u64::MAX, NOW),
        Err(DbError::CooldownOverflow)
    ));
}

#[test]
fn failed_subtitles_wait_and_are_left_to_people() {
    let mut db = Database::new("owner");
    let id = create(&mut db, "cc-failing", TransferMode::Translated);
    db.set_job_bvid(&id, "BV1cc", NOW).unwrap();
    db.queue_pending_subtitle(&id, -1, NOW).unwrap();
    for attempt in 0..CC_MAX_ATTEMPTS {
        db.claim_subtitle_job_now(&id, NOW).unwrap();
        let end = db
            .settle_subtitle_failure(&id, "boom", CC_RETRY_BASE_SECONDS, NOW)
            .unwrap();
        if attempt < CC_MAX_ATTEMPTS - 1 {
            assert_eq!(end, SubtitleEnd::Waits(doubled_wait(90, attempt, 3_600)));
        } else {
            assert_eq!(end, SubtitleEnd::Exhausted);
        }
    }
    assert!(db
        .next_pending_subtitle_job(CC_MAX_ATTEMPTS, i64::MAX)
        .is_none());
    assert!(matches!(
        db.settle_subtitle_failure(&id, "boom", 90, NOW),
        Err(DbError::SubtitleClaimLost)
    ));
}

// Submission

fn publication() -> PublicationMetadata {
    PublicationMetadata {
        title: "标题".into(),
        dynamic: "动态。".into(),
        tags: vec!["荒野乱斗".into()],
        tid: 172,
        raw_json: "{}".into(),
    }
}

#[test]
fn submissions_need_a_plan_files_and_papers() {
    let mut db = Database::new("owner");
    let id = create(&mut db, "papers", TransferMode::Direct);
    let job = db.get_job(&id).unwrap().unwrap();
    assert_eq!(
        db.upload_plan(&job).unwrap_err(),
        UploadFault::NotWaiting(JobStatus::Queued)
    );
    db.update_job_status(&id, JobStatus::ReadyToUpload, None, NOW)
        .unwrap();
    let job = db.get_job(&id).unwrap().unwrap();
    assert_eq!(db.upload_plan(&job).unwrap_err(), UploadFault::NoPlan);
    db.set_setting(AUTH_BILIBILI, "failed: expired", NOW);
    assert_eq!(db.upload_plan(&job).unwrap_err(), UploadFault::NoAccount);
    db.set_setting(AUTH_BILIBILI, "ok now", NOW);
    db.update_job_status(&id, JobStatus::Processing, None, NOW)
        .unwrap();
    db.queue_prepared_upload(
        &id,
        &PreparedUpload::Submission {
            video_path: "/v".into(),
            cover_path: "/c".into(),
            mode: TransferMode::Direct,
            completion_status: JobStatus::Queued,
        },
        NOW,
    )
    .unwrap();
    let job = db.get_job(&id).unwrap().unwrap();
    assert_eq!(
        db.upload_plan(&job).unwrap_err(),
        UploadFault::BadCompletion(JobStatus::Queued)
    );
    db.update_job_status(&id, JobStatus::Processing, None, NOW)
        .unwrap();
    db.queue_prepared_upload(&id, &plan(TransferMode::Direct), NOW)
        .unwrap();
    let job = db.get_job(&id).unwrap().unwrap();
    assert!(db.upload_plan(&job).is_ok());

    let papers = |db: &Database, video, cover| db.upload_papers(&id, video, cover).unwrap_err();
    assert_eq!(papers(&db, None, None), UploadFault::NoVideo);
    assert_eq!(papers(&db, Some(1), Some(0)), UploadFault::NoCover);
    assert_eq!(papers(&db, Some(1), Some(1)), UploadFault::NoPublication);
    db.save_publication_metadata(&id, &publication(), NOW).unwrap();
    assert_eq!(papers(&db, Some(1), Some(1)), UploadFault::NoSource);
    db.save_source_metadata(&id, &known_of_job(&job), NOW);
    let (found, meta) = db.upload_papers(&id, Some(1), Some(1)).unwrap();
    assert_eq!(found.title, "标题");
    assert_eq!(meta.id, "papers");
    assert_eq!(
        UploadFault::NoVideo.message(&id, "/v"),
        "待上传视频不存在或为空: /v"
    );
}

#[test]
fn pausing_job_interrupts_submission_window_wait() {
    let mut db = Database::new("owner");
    let id = create(&mut db, "pause-window", TransferMode::Direct);
    db.queue_prepared_upload(&id, &plan(TransferMode::Direct), NOW)
        .unwrap();
    db.set_setting(NEXT_BILIBILI_SUBMIT_AT, "2026-08-15T00:01:00+00:00", NOW);
    let until = db.submission_window(NOW).unwrap().unwrap();
    assert_eq!(until, NOW + 60_000);
    assert_eq!(
        db.wait_for_bilibili_submission(&id, until, NOW, 5).unwrap(),
        WaitStep::Sleep(5)
    );
    db.update_job_status(&id, JobStatus::Paused, None, NOW).unwrap();
    assert_eq!(
        db.wait_for_bilibili_submission(&id, until, NOW + 5, 5).unwrap(),
        WaitStep::Stop(JobStatus::Paused)
    );
    assert_eq!(
        db.get_job(&id).unwrap().unwrap().status,
        JobStatus::Paused
    );
    assert!(stopped_text(JobStatus::Paused).contains("paused"));
}

#[test]
fn submission_window_handles_missing_past_and_invalid_values() {
    let mut db = Database::new("owner");
    assert_eq!(db.submission_window(NOW).unwrap(), None);

    db.set_setting(NEXT_BILIBILI_SUBMIT_AT, "2026-08-14T23:59:59+00:00", NOW);
    assert_eq!(db.submission_window(NOW).unwrap(), None);

    db.set_setting(NEXT_BILIBILI_SUBMIT_AT, "not-a-timestamp", NOW);
    assert!(db
        .submission_window(NOW)
        .unwrap_err()
        .message("", "not-a-timestamp")
        .contains("投稿冷却时间无效"));
}

#[test]
fn waits_end_in_time() {
    let mut db = Database::new("owner");
    let id = create(&mut db, "window", TransferMode::Direct);
    db.queue_prepared_upload(&id, &plan(TransferMode::Direct), NOW)
        .unwrap();
    let step = |now| {
        db.wait_for_bilibili_submission(&id, NOW + 1_000, now, 2_000)
            .unwrap()
    };
    assert_eq!(step(NOW), WaitStep::Sleep(1_000));
    assert_eq!(step(NOW + 1_000), WaitStep::Go);
    assert!(matches!(
        db.wait_for_bilibili_submission("nobody", NOW, NOW, 1),
        Err(DbError::WaitingJobGone)
    ));
    assert_eq!(
        window_text(NOW + 61_000, NOW).unwrap(),
        "等待 Bilibili 投稿窗口至 2026-08-15T00:01:01+00:00（约 2 分钟）"
    );
}

#[test]
fn published_names_are_found_in_the_output() {
    assert_eq!(
        find_bvid("uploaded xBV1aa BV1uxE16ZE7e ok", "BV2zz").as_deref(),
        Some("BV1uxE16ZE7e")
    );
    assert_eq!(find_bvid("no name", "BV").as_deref(), None);
    assert_eq!(find_bvid("", "bvid: BV17x411w7KC").as_deref(), Some("BV17x411w7KC"));
    assert!(matches!(
        judge_submission(Ended::Well, Some("BV1".into())),
        Submitted::Published(_)
    ));
    assert!(matches!(
        judge_submission(Ended::Well, None),
        Submitted::InDoubt
    ));
    assert!(matches!(
        judge_submission(Ended::CutOff, Some("BV1".into())),
        Submitted::InDoubt
    ));
    assert!(matches!(
        judge_submission(Ended::Badly, None),
        Submitted::Refused
    ));
}

fn uploading(db: &mut Database, video_id: &str) -> (String, String) {
    let id = create(db, video_id, TransferMode::Translated);
    db.queue_prepared_upload(&id, &plan(TransferMode::Translated), NOW)
        .unwrap();
    let attempt = db.begin_prepared_upload(&id, NOW).unwrap().unwrap();
    (id, attempt)
}

const LIMITS: SubmitLimits = SubmitLimits {
    interval_seconds: 1_800,
    cooldown_seconds: 21_600,
    max_attempts: 5,
};

fn settle(
    db: &mut Database,
    id: &str,
    attempt: &str,
    outcome: Submitted,
) -> Result<Settled, DbError> {
    db.settle_submission(
        id,
        attempt,
        &outcome,
        "detail",
        JobStatus::Completed,
        TransferMode::Translated,
        LIMITS,
        NOW,
    )
}

#[test]
fn submissions_are_settled() {
    let mut db = Database::new("owner");
    let (id, attempt) = uploading(&mut db, "published");
    assert_eq!(
        settle(&mut db, &id, &attempt, Submitted::Published("BV1a".into())).unwrap(),
        Settled::Done { subtitle: true }
    );
    assert_eq!(
        db.get_setting(NEXT_BILIBILI_SUBMIT_AT).as_deref(),
        Some("2026-08-15T00:30:00+00:00")
    );
    db.delete_setting(NEXT_BILIBILI_SUBMIT_AT);

    let (id, attempt) = uploading(&mut db, "refused");
    assert_eq!(
        settle(&mut db, &id, &attempt, Submitted::Refused).unwrap(),
        Settled::Failed(UploadEnd::Waits(600))
    );
    assert_eq!(db.uploads[1].status, UploadState::Failed);

    let (id, attempt) = uploading(&mut db, "doubtful");
    assert_eq!(
        settle(&mut db, &id, &attempt, Submitted::InDoubt).unwrap(),
        Settled::InDoubt
    );
    assert_eq!(
        db.get_job(&id).unwrap().unwrap().status,
        JobStatus::UploadUncertain
    );
    assert!(matches!(
        settle(&mut db, &id, &attempt, Submitted::Refused),
        Err(DbError::AttemptGone)
    ));
}

#[test]
fn preparations_are_noted() {
    let mut db = Database::new("owner");
    let id = create(&mut db, "noted", TransferMode::Direct);
    assert!(matches!(
        db.begin_preparation(&id, "p", "m", "t", NOW),
        Err(DbError::ClaimLost)
    ));
    db.claim_prepare_job(&id, NOW).unwrap();
    db.begin_preparation(&id, "p", "m", "t", NOW).unwrap();
    let mut meta: VideoMetadata = known_of_job(&db.get_job(&id).unwrap().unwrap());
    meta.title = "Title".into();
    meta.duration_ms = Some(30_000);
    meta.url = "https://www.youtube.com/shorts/noted".into();
    db.note_inspection(&id, &meta, NOW).unwrap();
    let job = db.get_job(&id).unwrap().unwrap();
    assert_eq!(job.status, JobStatus::Processing);
    assert_eq!(job.ai_model.as_deref(), Some("m"));
    assert_eq!(job.title.as_deref(), Some("Title"));
    assert!(job.is_short);
    assert_eq!(db.source_metadata(&id).unwrap().title, "Title");
}

#[test]
fn work_is_taken_up_at_a_tick() {
    let mut db = Database::new("owner");
    let prepare = create(&mut db, "tick-prepare", TransferMode::Direct);
    let upload = create(&mut db, "tick-upload", TransferMode::Direct);
    db.queue_prepared_upload(&upload, &plan(TransferMode::Direct), NOW)
        .unwrap();
    let subtitle = create(&mut db, "tick-subtitle", TransferMode::Direct);
    db.set_job_bvid(&subtitle, "BV1tick", NOW).unwrap();
    db.queue_pending_subtitle(&subtitle, -1, NOW).unwrap();
    assert!(db.prepare_turn(true, false, NOW).is_none());
    assert!(db.prepare_turn(false, true, NOW).is_none());
    assert_eq!(db.prepare_turn(false, false, NOW).unwrap().id, prepare);
    assert!(db.upload_turn(true, NOW).unwrap().is_none());
    assert_eq!(db.upload_turn(false, NOW).unwrap().unwrap().id, upload);
    db.set_setting(NEXT_BILIBILI_SUBMIT_AT, "2026-08-15T00:01:00+00:00", NOW);
    assert!(db.upload_turn(false, NOW).unwrap().is_none());
    assert!(db.subtitle_turn(true, NOW).is_none());
    assert_eq!(db.subtitle_turn(false, NOW).unwrap().id, subtitle);
    assert!(db.subtitle_turn(false, NOW).is_none());
}

#[test]
fn soft_subtitles_follow() {
    assert_eq!(cc_step(true, true, true), CcStep::There);
    assert_eq!(cc_step(false, true, true), CcStep::UseKept);
    assert_eq!(cc_step(false, false, true), CcStep::Make);
    assert_eq!(cc_step(false, false, false), CcStep::Lack);
    assert_eq!(cc_lines(&[cue(None)], 5_000).unwrap_err(), CcFault::Empty);
    let long = "字".repeat(150);
    let lines = cc_lines(&[cue(Some(&long))], 500).unwrap();
    assert_eq!(lines.len(), 2);
    assert_eq!(lines[1].to, 500);
    let mut db = Database::new("owner");
    let id = create(&mut db, "cc", TransferMode::Direct);
    let job = db.get_job(&id).unwrap().unwrap();
    assert_eq!(published_id(&job).unwrap_err(), CcFault::NoBvid);
    db.set_job_bvid(&id, "BV1cc", NOW).unwrap();
    let job = db.get_job(&id).unwrap().unwrap();
    assert_eq!(published_id(&job).unwrap(), "BV1cc");
    assert_eq!(there_text("BV1cc"), "BV1cc 已有中文字幕，跳过");
    assert_eq!(
        submitted_text(2),
        "已提交中文 CC 字幕（2 条），等待 B站审核"
    );
    assert!(CcFault::NoMaterial
        .message("BV1cc")
        .contains("y2b subtitle add BV1cc"));
}

// Upkeep

#[test]
fn auth_failure_records_both_results_before_returning_error() {
    for youtube_fails in [true, false] {
        let mut db = Database::new("owner");
        let youtube = if youtube_fails {
            Some("YouTube cookie 失效")
        } else {
            None
        };
        let bilibili = if youtube_fails {
            None
        } else {
            Some("Bilibili cookie 失效")
        };
        let error = db
            .record_auth_results(youtube, bilibili, NOW)
            .unwrap()
            .unwrap();
        assert!(error.contains("认证检查失败"));
        let youtube_status = db.get_setting("auth.youtube").unwrap();
        let bilibili_status = db.get_setting("auth.bilibili").unwrap();
        assert_eq!(youtube_status.starts_with("failed:"), youtube_fails);
        assert_eq!(bilibili_status.starts_with("failed:"), !youtube_fails);
    }
    let mut db = Database::new("owner");
    assert_eq!(db.record_auth_results(None, None, NOW).unwrap(), None);
    assert_eq!(
        db.get_setting(AUTH_YOUTUBE).as_deref(),
        Some("ok 2026-08-15T00:00:00+00:00")
    );
}

#[test]
fn only_the_newest_backups_stay() {
    let names: Vec<String> = ["state-3.db", "state-1.db", "state-2.db"]
        .iter()
        .map(|name| name.to_string())
        .collect();
    assert_eq!(surplus(&names, 1), vec![1, 2]);
    assert!(surplus(&names, 3).is_empty());
    let backup = backup_names(NOW).unwrap();
    assert_eq!(backup.hourly, "state-20260815-000000.db");
    assert_eq!(backup.daily, "state-20260815.db");
    assert_eq!(backup.weekly, "state-2026-W33.db");
    assert!(backup_names(i64::MAX).is_none());
}

#[test]
fn subscriptions_and_profiles_are_told_apart() {
    assert_eq!(
        websub_status(false, Some(NOW + 1), true, NOW),
        "channel_disabled"
    );
    assert_eq!(websub_status(true, Some(NOW + 1), true, NOW), "active");
    assert_eq!(websub_status(true, Some(NOW), true, NOW), "expired");
    assert_eq!(
        websub_status(true, None, true, NOW),
        "pending_verification"
    );
    assert_eq!(websub_status(true, None, false, NOW), "not_subscribed");
    assert!(profile_allowed(None, "deepseek-v4-flash"));
    assert!(!profile_allowed(Some("openai"), "deepseek-v4-flash"));
    assert!(!profile_allowed(None, "deepseek-v4-pro"));
}
