use y2b_rs::batching::{
    append_core_ranges, choose_adaptive_boundary, estimate_segment_argument_bytes,
    estimate_segment_tokens, estimate_text_tokens, estimate_translation_tokens,
    max_segment_window_end, seconds_text, translation_batches, validate_ranges_cover,
    validate_translation_indexes, BatchError, PI_MAX_PROMPT_ARGUMENT_BYTES,
};
use y2b_rs::captions::{cc_cues_from, split_cc_cue, split_cc_cues, CcCue};
use y2b_rs::json::{read_json, write_json, Json};
use y2b_rs::model::{requires_translated_pipeline, TransferMode, VideoMetadata};
use y2b_rs::prepare::{download_format_selector, square_root};
use y2b_rs::publication::{
    add_feedback, build_description, build_publication_payload, build_upload_args,
    estimate_publication_tokens, judge_publication, original_title_without_hashtags,
    parse_publication_metadata, publication_date, publication_payload_value, reuse_publication,
    uniform_sample_indices, PayloadError, PublishStep,
};
use y2b_rs::reply::{parse_pi_stream, parse_ranges, parse_translations, ReplyError};
use y2b_rs::subtitle::{
    load_segmented_cache, load_translation_checkpoint, translation_batch_checkpointed,
    translation_checkpoint_complete, validate_cached_cues, Cue, CueError, INVALID_TIME,
};
use y2b_rs::wording::{
    chinese_width, sanitize_publication_text, sanitize_tags, validate_publication_metadata,
};

fn cue(index: usize, text: &str) -> Cue {
    Cue {
        start: index as i64 * 2_000,
        end: index as i64 * 2_000 + 1_800,
        source: text.into(),
        translation: None,
    }
}

fn copies(cues: &[Cue]) -> Vec<Cue> {
    cues.iter().map(|cue| cue.copied()).collect()
}

fn metadata() -> VideoMetadata {
    VideoMetadata {
        id: "video".into(),
        url: "https://youtube.com/watch?v=video".into(),
        title: "Best Ranked Match 2026".into(),
        description: Some("A close Brawl Stars ranked match.".into()),
        uploader: Some("Player One".into()),
        upload_date: Some("20260803".into()),
        channel: Some("Player One".into()),
        channel_id: Some("UC-test".into()),
        timestamp: Some(1_775_347_200),
        duration_ms: Some(120_000),
        width: Some(1920),
        height: Some(1080),
        fps_milli: Some(60_000),
        thumbnail_url: Some("https://i.ytimg.com/vi/video/maxresdefault.jpg".into()),
        webpage_url: Some("https://www.youtube.com/watch?v=video".into()),
        live_status: Some("not_live".into()),
        default_audio_language: None,
    }
}

fn json(text: &str) -> Json {
    read_json(text).unwrap()
}

fn at<'a>(value: &'a Json, keys: &[&str]) -> &'a Json {
    let mut found = value;
    for key in keys {
        found = found.get(key).unwrap();
    }
    found
}

#[test]
fn pi_json() {
    let s = r#"{"type":"agent_end","messages":[{"role":"assistant","content":[{"type":"text","text":"{\"ranges\":[{\"start\":0,\"end\":1}]}"}],"usage":{"input":2,"output":3,"totalTokens":5}}]}"#;
    let (v, u) = parse_pi_stream(s).unwrap();
    assert_eq!(parse_ranges(&v).unwrap(), vec![(0, 1)]);
    assert_eq!(u.total, 5);
}

#[test]
fn thirty_minute_subtitles_fit_default_safe_budget() {
    let cues = (0..1_800)
        .map(|i| {
            cue(
                i,
                "this is a representative subtitle sentence with useful context",
            )
        })
        .collect::<Vec<_>>();
    assert!(estimate_segment_tokens(&cues) < 200_000);
    assert!(estimate_translation_tokens(&cues) < 200_000);
}

#[test]
fn adaptive_translation_batches_are_contiguous() {
    let cues = (0..20)
        .map(|i| cue(i, "a moderately sized subtitle sentence"))
        .collect::<Vec<_>>();
    let batches = translation_batches(&cues, 2_300, 50).unwrap();
    assert!(batches.len() > 1);
    assert_eq!(batches.first().map(|x| x.0), Some(0));
    assert_eq!(batches.last().map(|x| x.1), Some(cues.len()));
    assert!(batches.windows(2).all(|pair| pair[0].1 == pair[1].0));
}

#[test]
fn adaptive_translation_batches_respect_cue_limit() {
    let cues = (0..107)
        .map(|i| cue(i, "short subtitle"))
        .collect::<Vec<_>>();
    assert_eq!(
        translation_batches(&cues, 200_000, 50).unwrap(),
        vec![(0, 50), (50, 100), (100, 107)]
    );
}

#[test]
fn adaptive_segmentation_respects_process_argument_byte_limit() {
    let long_text = "x".repeat(5_500);
    let cues = (0..100)
        .map(|index| cue(index, &long_text))
        .collect::<Vec<_>>();
    assert!(estimate_segment_tokens(&cues) < 200_000);
    assert!(estimate_segment_argument_bytes(&cues) > PI_MAX_PROMPT_ARGUMENT_BYTES);

    let end = max_segment_window_end(&cues, 0, 200_000, PI_MAX_PROMPT_ARGUMENT_BYTES).unwrap();
    assert!(end < cues.len() - 1);
    assert!(estimate_segment_argument_bytes(&cues[..=end]) <= PI_MAX_PROMPT_ARGUMENT_BYTES);
}

#[test]
fn adaptive_segmentation_uses_overlap_and_model_boundary() {
    let local = vec![(0, 2), (3, 5), (6, 8)];
    validate_ranges_cover(9, &local).unwrap();
    let boundary = choose_adaptive_boundary(&local, 10, 12, 15, 18).unwrap();
    assert_eq!(boundary, 15);
    let mut output = Vec::new();
    append_core_ranges(&mut output, &local, 10, 12, boundary).unwrap();
    assert_eq!(output, vec![(12, 12), (13, 15)]);
}

#[test]
fn translation_batch_requires_every_index_in_order() {
    let valid = vec![(0, "甲".into()), (1, "乙".into())];
    validate_translation_indexes(2, &valid).unwrap();
    let duplicate = vec![(0, "甲".into()), (0, "乙".into())];
    assert!(validate_translation_indexes(2, &duplicate).is_err());
}

#[test]
fn cached_cues_require_valid_timeline_and_source() {
    let valid = vec![cue(0, "hello"), cue(1, "world")];
    validate_cached_cues(&valid).unwrap();

    let mut invalid_time = copies(&valid);
    invalid_time[1].start = INVALID_TIME;
    assert!(validate_cached_cues(&invalid_time).is_err());

    let mut invalid_source = valid;
    invalid_source[0].source.clear();
    assert!(validate_cached_cues(&invalid_source).is_err());
}

#[test]
fn partial_translation_checkpoint_resumes_only_missing_batches() {
    let source = vec![cue(0, "hello"), cue(1, "world"), cue(2, "again")];
    let mut partial = copies(&source);
    partial[0].translation = Some("你好".into());
    partial[1].translation = Some("世界".into());

    let loaded = load_translation_checkpoint(partial, &source).unwrap();
    assert!(!translation_checkpoint_complete(&loaded));
    assert!(translation_batch_checkpointed(&loaded, 0, 2));
    assert!(!translation_batch_checkpointed(&loaded, 2, 3));

    let mut completed = loaded;
    completed[2].translation = Some("再来".into());
    let loaded = load_translation_checkpoint(completed, &source).unwrap();
    assert!(translation_checkpoint_complete(&loaded));
}

#[test]
fn publication_metadata_cleans_tags_and_forces_core_tag() {
    let value = json(
        r##"{
        "title": "2026年最佳排位赛",
        "dynamic": "最后一局上演极限翻盘。",
        "tags": ["#排位赛", "荒野乱斗", "排位赛", "英雄，技巧", "超长标签超长标签超长标签超长标签超长标签"]
    }"##,
    );
    let parsed = parse_publication_metadata(&value).unwrap();
    assert_eq!(parsed.tid, 172);
    assert_eq!(parsed.tags[0], "荒野乱斗");
    assert_eq!(parsed.tags.len(), 4);
    assert!(parsed
        .tags
        .iter()
        .all(|tag| !tag.contains(['#', ',', '，'])));
    assert!(parsed.tags.iter().all(|tag| tag.chars().count() <= 20));
}

#[test]
fn publication_metadata_rejects_invalid_title_or_dynamic() {
    assert!(parse_publication_metadata(&json(
        r#"{"title": "", "dynamic": "精彩对局。", "tags": ["荒野乱斗"]}"#
    ))
    .is_err());
    assert!(parse_publication_metadata(&json(
        r#"{"title": "精彩对局", "dynamic": "欢迎点赞投币关注我！", "tags": ["荒野乱斗"]}"#
    ))
    .is_err());
}

#[test]
fn publication_metadata_removes_emoji_from_text_fields() {
    let parsed = parse_publication_metadata(&json(
        r#"{"title": "新英雄登场 💀🔥", "dynamic": "本期展示冠军对局。🏆", "tags": ["荒野乱斗"]}"#,
    ))
    .unwrap();
    assert_eq!(parsed.title, "新英雄登场");
    assert_eq!(parsed.dynamic, "本期展示冠军对局。");
}

#[test]
fn metadata_payload_uses_full_or_uniformly_sampled_bilingual_subtitles() {
    let mut cues = (0..100)
        .map(|i| cue(i, "a representative subtitle sentence with context"))
        .collect::<Vec<_>>();
    for (index, cue) in cues.iter_mut().enumerate() {
        cue.translation = Some(format!("第{index}句译文"));
    }
    let full =
        build_publication_payload(TransferMode::Translated, &metadata(), Some(&cues), 200_000)
            .unwrap();
    assert!(matches!(
        at(&full, &["subtitle_sampling", "sampled"]),
        Json::Bool(false)
    ));
    assert_eq!(
        at(&full, &["subtitles"]).as_list().unwrap().len(),
        cues.len()
    );

    let minimum = publication_payload_value(
        TransferMode::Translated,
        &metadata(),
        &cues,
        &[0, cues.len() - 1],
        true,
    );
    let sampled = build_publication_payload(
        TransferMode::Translated,
        &metadata(),
        Some(&cues),
        estimate_publication_tokens(&minimum) + 250,
    )
    .unwrap();
    let included = at(&sampled, &["subtitles"]).as_list().unwrap();
    assert!(matches!(
        at(&sampled, &["subtitle_sampling", "sampled"]),
        Json::Bool(true)
    ));
    assert!(included.len() < cues.len());
    assert_eq!(at(included.first().unwrap(), &["i"]).as_u64(), Some(0));
    assert_eq!(
        at(included.last().unwrap(), &["i"]).as_u64(),
        Some(cues.len() as u64 - 1)
    );

    let mut large = (0..1_075)
        .map(|i| cue(i, "a representative subtitle sentence with context"))
        .collect::<Vec<_>>();
    for (index, cue) in large.iter_mut().enumerate() {
        cue.translation = Some(format!("第{index}句包含足够长度的中文字幕内容"));
    }
    let bounded =
        build_publication_payload(TransferMode::Translated, &metadata(), Some(&large), 200_000)
            .unwrap();
    assert!(write_json(&bounded).len() <= PI_MAX_PROMPT_ARGUMENT_BYTES);
    assert!(matches!(
        at(&bounded, &["subtitle_sampling", "sampled"]),
        Json::Bool(true)
    ));
    assert!(at(&bounded, &["subtitles"]).as_list().unwrap().len() < large.len());
}

#[test]
fn direct_metadata_accepts_empty_description_but_translated_needs_subtitles() {
    let mut meta = metadata();
    meta.description = None;
    let payload = build_publication_payload(TransferMode::Direct, &meta, None, 200_000).unwrap();
    assert_eq!(
        at(&payload, &["youtube", "description"]).as_text().unwrap(),
        ""
    );
    assert!(build_publication_payload(TransferMode::Translated, &meta, None, 200_000).is_err());
}

#[test]
fn download_selector_prioritizes_the_video_orientation() {
    let landscape = metadata();
    let landscape_selector = download_format_selector(&landscape, 2_073_600, "60");
    assert!(landscape_selector
        .split('/')
        .next()
        .unwrap()
        .contains("[width<=1920][height<=1080]"));

    let mut vertical = metadata();
    vertical.url = "https://www.youtube.com/shorts/video".into();
    vertical.width = Some(1080);
    vertical.height = Some(1920);
    let vertical_selector = download_format_selector(&vertical, 2_073_600, "60");
    assert!(vertical_selector
        .split('/')
        .next()
        .unwrap()
        .contains("[width<=1080][height<=1920]"));
}

#[test]
fn upload_args_are_fixed_original_metadata_and_detailed_description() {
    let publication = parse_publication_metadata(&json(
        r#"{"title": "2026年最佳排位赛", "dynamic": "最后一局上演极限翻盘。", "tags": ["荒野乱斗", "排位赛"]}"#,
    ))
    .unwrap();
    let args = build_upload_args(&publication, &metadata());
    let value_after = |flag: &str| {
        let index = args.iter().position(|value| value == flag).unwrap();
        args[index + 1].as_str()
    };
    assert_eq!(value_after("--tid"), "172");
    assert_eq!(value_after("--submit"), "web");
    assert_eq!(value_after("--copyright"), "1");
    assert_eq!(value_after("--no-reprint"), "0");
    assert!(!args.iter().any(|value| value == "--source"));
    assert_eq!(value_after("--tag"), "荒野乱斗,排位赛");
    assert_eq!(value_after("--dynamic"), "最后一局上演极限翻盘。");
    let description = value_after("--desc");
    assert!(description.contains("原标题：Best Ranked Match 2026"));
    assert!(description.contains("来源：https://www.youtube.com/watch?v=video"));
    assert!(description.contains("原作者：Player One"));
    assert!(description.contains("原视频发布时间："));
    assert!(!description.contains("原发布日期："));
    assert!(description.contains("处理工具：https://github.com/Mist-wu/y2b-rs"));
    assert!(!description.contains("处理方式"));
}

#[test]
fn description_removes_hashtags_and_includes_publication_date() {
    let mut meta = metadata();
    meta.title = "Poor   Alli #bs #brawlstars ＃keepbrawlalive".into();
    meta.url = "https://www.youtube.com/watch?v=F8yN5-ctCZw".into();
    meta.webpage_url = Some(meta.url.clone());
    meta.uploader = Some("Bazilious".into());
    let description = build_description(&meta);
    let expected = format!(
        "原标题：Poor Alli\n来源：https://www.youtube.com/watch?v=F8yN5-ctCZw\n原作者：Bazilious\n原视频发布时间：{}\n处理工具：https://github.com/Mist-wu/y2b-rs",
        publication_date(&meta)
    );
    assert_eq!(description, expected);
}

#[test]
fn description_omits_title_when_it_contains_only_hashtags() {
    let mut meta = metadata();
    meta.title = "#bs ＃brawlstars".into();
    let description = build_description(&meta);
    assert!(!description.contains("原标题："));
    assert!(description.starts_with("来源：https://www.youtube.com/watch?v=video\n"));
    assert!(description.contains("处理工具：https://github.com/Mist-wu/y2b-rs"));
    assert!(!description.contains("处理方式"));
}

#[test]
fn transfer_mode_routes_only_requested_jobs_through_subtitles() {
    assert!(!requires_translated_pipeline(TransferMode::Direct));
    assert!(requires_translated_pipeline(TransferMode::Translated));
}

fn translated(start: i64, end: i64, source: &str, translation: Option<&str>) -> Cue {
    Cue {
        start,
        end,
        source: source.into(),
        translation: translation.map(|text| text.into()),
    }
}

#[test]
fn cc_cues_keep_only_translated_in_order() {
    let cues = vec![
        translated(0, 1_500, "hi", Some(" 你好 ")),
        translated(1_500, 3_000, "empty translation", Some("   ")),
        translated(3_000, 2_000, "inverted", Some("倒序")),
        translated(4_000, 5_000, "none", None),
    ];
    let cc = cc_cues_from(&cues, None);
    assert_eq!(cc.len(), 1);
    assert_eq!(cc[0].content, "你好");
    assert_eq!(cc[0].from, 0);
    assert_eq!(cc[0].to, 1_500);
}

#[test]
fn cc_cues_clip_beyond_video_duration() {
    let cues = vec![
        translated(0, 5_000, "a", Some("正常")),
        translated(4_000, 9_000, "b", Some("跨越结尾")),
        translated(7_000, 8_000, "c", Some("整体超出")),
    ];
    let cc = cc_cues_from(&cues, Some(6_500));
    assert_eq!(cc.len(), 2);
    assert_eq!(cc[0].to, 5_000);
    assert_eq!(cc[1].to, 6_500);
}

fn video(ts: i64, duration_ms: u64, w: i64, h: i64) -> VideoMetadata {
    VideoMetadata {
        id: "x".into(),
        url: "https://youtube.com/watch?v=x".into(),
        title: "x".into(),
        description: None,
        uploader: None,
        upload_date: None,
        channel: None,
        channel_id: None,
        timestamp: Some(ts),
        duration_ms: Some(duration_ms),
        width: Some(w),
        height: Some(h),
        fps_milli: None,
        thumbnail_url: None,
        webpage_url: None,
        live_status: None,
        default_audio_language: None,
    }
}

#[test]
fn shorts_rules() {
    assert!(video(1_800_000_000, 180_000, 1080, 1920).is_short());
    assert!(!video(1_700_000_000, 61_000, 1080, 1920).is_short());
    assert!(!video(1_800_000_000, 180_000, 1920, 1080).is_short());
}

#[test]
fn shorts_of_any_age_have_their_own_limit() {
    assert!(video(1_730_246_399, 60_000, 1080, 1920).is_short());
    assert!(!video(1_730_246_399, 60_001, 1080, 1920).is_short());
    assert!(video(1_730_246_400, 180_000, 1080, 1920).is_short());
    assert!(!video(1_730_246_400, 180_001, 1080, 1920).is_short());
    assert!(!video(1_729_500_000, 120_000, 1080, 1920).is_short());
    let mut unknown = video(1_800_000_000, 1, 1080, 1920);
    unknown.duration_ms = None;
    assert!(!unknown.is_short());
}

#[test]
fn tokens_and_times_have_exact_values() {
    assert_eq!(estimate_text_tokens(""), 1);
    assert_eq!(estimate_text_tokens("荒野乱斗"), 4);
    assert_eq!(seconds_text(1_500), "1.5");
    assert_eq!(seconds_text(2_000), "2.0");
    assert_eq!(seconds_text(-1_250), "-1.25");
    assert_eq!(seconds_text(5), "0.005");
}

#[test]
fn replies_without_an_answer_are_refused() {
    assert!(parse_pi_stream("").is_err());
    assert!(parse_pi_stream("{\"type\":\"agent_start\"}").is_err());
    assert!(matches!(
        parse_translations(&json("{}")),
        Err(ReplyError::NoTranslations)
    ));
    assert!(matches!(
        parse_translations(&json(r#"{"translations":[{"i":0,"text":"甲"},{"text":"乙"}]}"#)),
        Err(ReplyError::TranslationIndex(1))
    ));
    assert!(matches!(
        parse_translations(&json(r#"{"translations":[{"i":0}]}"#)),
        Err(ReplyError::TranslationText(0))
    ));
    assert_eq!(
        parse_translations(&json(r#"{"translations":[{"i":0,"text":"甲"}]}"#)).unwrap(),
        vec![(0, "甲".to_string())]
    );
}

#[test]
fn ranges_must_cover_the_window_without_gaps() {
    assert!(matches!(
        validate_ranges_cover(4, &[(0, 1), (3, 3)]),
        Err(BatchError::RangeGap {
            start: 3,
            end: 3,
            expected: 2,
            len: 4
        })
    ));
    assert!(matches!(
        validate_ranges_cover(4, &[(0, 1)]),
        Err(BatchError::RangeShort { covered: 2, len: 4 })
    ));
    validate_ranges_cover(0, &[]).unwrap();
}

#[test]
fn one_cue_over_the_limits_stops_the_plan() {
    let cues = vec![cue(0, &"字".repeat(5_000))];
    assert!(matches!(
        translation_batches(&cues, 2_300, 50),
        Err(BatchError::SentenceTooLarge { cue: 0, .. })
    ));
    assert!(matches!(
        translation_batches(&cues, 200_000, 0),
        Err(BatchError::NoBatchCues)
    ));
    assert!(matches!(
        max_segment_window_end(&cues, 1, 200_000, 10_000),
        Err(BatchError::WindowStart { start: 1, len: 1 })
    ));
    assert!(matches!(
        max_segment_window_end(&cues, 0, 200_000, 10_000),
        Err(BatchError::CueTooLarge { cue: 0, .. })
    ));
}

#[test]
fn kept_subtitles_are_looked_at_before_they_are_used() {
    assert!(matches!(validate_cached_cues(&[]), Err(CueError::Empty)));
    assert_eq!(CueError::Empty.message(), "字幕缓存为空");
    let backwards = vec![cue(3, "late"), cue(0, "early")];
    assert!(matches!(
        validate_cached_cues(&backwards),
        Err(CueError::Order(1))
    ));
    let mut with_translation = vec![cue(0, "hello")];
    with_translation[0].translation = Some("你好".into());
    let fresh = load_segmented_cache(with_translation).unwrap();
    assert!(fresh[0].translation.is_none());

    let source = vec![cue(0, "hello"), cue(1, "world")];
    assert!(matches!(
        load_translation_checkpoint(vec![cue(0, "hello")], &source),
        Err(CueError::Count { cached: 1, source: 2 })
    ));
    assert!(matches!(
        load_translation_checkpoint(vec![cue(0, "hello"), cue(1, "other")], &source),
        Err(CueError::Mismatch(1))
    ));
    let mut blank = copies(&source);
    blank[1].translation = Some("  ".into());
    assert!(matches!(
        load_translation_checkpoint(blank, &source),
        Err(CueError::BlankTranslation(1))
    ));
    let mut control = copies(&source);
    control[0].translation = Some("甲\u{7}".into());
    assert!(matches!(
        load_translation_checkpoint(control, &source),
        Err(CueError::ControlCharacter(0))
    ));
}

#[test]
fn samples_keep_both_ends() {
    assert_eq!(uniform_sample_indices(10, 4), vec![0, 3, 6, 9]);
    assert_eq!(uniform_sample_indices(3, 8), vec![0, 1, 2]);
    assert_eq!(uniform_sample_indices(1, 1), vec![0]);
}

#[test]
fn an_oversized_description_is_refused_without_subtitles() {
    let mut meta = metadata();
    meta.description = Some("word ".repeat(40_000));
    assert!(matches!(
        build_publication_payload(TransferMode::Direct, &meta, None, 200_000),
        Err(PayloadError::TooLarge { .. })
    ));
    let mut cues = vec![cue(0, "a"), cue(1, "b"), cue(2, "c")];
    for cue in cues.iter_mut() {
        cue.translation = Some("译".into());
    }
    assert!(matches!(
        build_publication_payload(TransferMode::Translated, &meta, Some(&cues), 200_000),
        Err(PayloadError::TooLargeWithEnds { .. })
    ));
    assert!(matches!(
        build_publication_payload(TransferMode::Translated, &metadata(), None, 200_000),
        Err(PayloadError::NoSubtitles)
    ));
}

#[test]
fn refused_titles_are_asked_for_again_twice() {
    let bad = json(r#"{"title": "", "dynamic": "精彩对局。", "tags": ["荒野乱斗"]}"#);
    for attempt in 0..2 {
        match judge_publication(attempt, &bad) {
            PublishStep::Retry { feedback } => {
                assert!(feedback.starts_with("上一轮输出被拒绝："));
                let prompt = add_feedback(json("{\"a\":1}"), &feedback);
                assert_eq!(at(&prompt, &["feedback"]).as_text().unwrap(), &feedback);
            }
            other => panic!("{other:?}"),
        }
    }
    assert!(matches!(judge_publication(2, &bad), PublishStep::Fail(_)));
    let good = json(r#"{"title": "精彩对局", "dynamic": "精彩对局。", "tags": ["荒野乱斗"]}"#);
    assert!(matches!(judge_publication(0, &good), PublishStep::Accept(_)));
}

#[test]
fn saved_titles_are_cleaned_before_they_are_used_again() {
    let good = json(r#"{"title": "精彩对局", "dynamic": "精彩对局。", "tags": ["荒野乱斗"]}"#);
    let mut saved = parse_publication_metadata(&good).unwrap();
    saved.title = "精彩对局 #bs https://example.com/x".into();
    assert!(validate_publication_metadata(&saved).is_err());
    let cleaned = reuse_publication(saved).unwrap();
    assert_eq!(cleaned.title, "精彩对局");
    let mut hopeless = parse_publication_metadata(&good).unwrap();
    hopeless.title = "https://example.com/x".into();
    assert!(reuse_publication(hopeless).is_none());
}

#[test]
fn titles_of_hashtags_keep_their_words() {
    assert_eq!(sanitize_publication_text("#sync"), "sync");
    assert_eq!(sanitize_publication_text("好局 #bs #brawlstars"), "好局");
    assert_eq!(sanitize_publication_text("https://example.com"), "");
    assert_eq!(chinese_width("ab荒野"), 6);
    assert_eq!(
        sanitize_tags(&["#甲".to_string(), "甲".to_string()]),
        vec!["荒野乱斗".to_string(), "甲".to_string()]
    );
    assert_eq!(original_title_without_hashtags("#a #b"), None);
    assert_eq!(
        original_title_without_hashtags("Poor   Alli #bs"),
        Some("Poor Alli".to_string())
    );
}

#[test]
fn publication_dates_come_from_the_date_or_the_second() {
    let mut meta = metadata();
    assert_eq!(publication_date(&meta), "2026-08-03");
    meta.upload_date = None;
    assert_eq!(publication_date(&meta), "2026-04-05");
    meta.timestamp = None;
    assert_eq!(publication_date(&meta), "未知");
}

#[test]
fn long_lines_are_cut_and_keep_text_and_times() {
    let content = format!("{}，{}", "甲".repeat(60), "乙".repeat(60));
    let line = CcCue { from: 0, to: 12_100, content: content.clone() };
    let pieces = split_cc_cue(&line);
    assert_eq!(pieces.len(), 2);
    assert_eq!(pieces[0].content, format!("{}，", "甲".repeat(60)));
    assert_eq!(pieces[0].from, 0);
    assert_eq!(pieces[0].to, 6_100);
    assert_eq!(pieces[1].from, 6_100);
    assert_eq!(pieces[1].to, 12_100);
    let whole: String = pieces.iter().map(|piece| piece.content.as_str()).collect();
    assert_eq!(whole, content);
    let short = vec![CcCue { from: 0, to: 10, content: "短".into() }];
    assert_eq!(split_cc_cues(&short).len(), 1);
}

#[test]
fn square_roots_are_whole() {
    assert_eq!(square_root(0), 0);
    assert_eq!(square_root(2_073_600), 1_440);
    assert_eq!(square_root(2_073_599), 1_439);
    assert_eq!(square_root(u64::MAX), 4_294_967_295);
    let selector = download_format_selector(&metadata(), 2_073_600, "59.94");
    assert_eq!(selector.split('/').count(), 9);
    assert!(selector.contains("[fps<=59.94][width<=1440][height<=1440]+ba[acodec^=mp4a]"));
}

#[test]
fn written_json_reads_back() {
    let text = r#"{"a":[1,-2,null,true,"x\"y"],"b":{"c":1.5}}"#;
    let value = json(text);
    assert_eq!(write_json(&value), text);
    assert!(read_json("{").is_none());
    assert_eq!(at(&value, &["a"]).as_list().unwrap()[1].as_i64(), Some(-2));
    assert_eq!(at(&value, &["a"]).as_list().unwrap()[0].as_u64(), Some(1));
}
