use y2b_rs::batching::BatchError;
use y2b_rs::config::{BatchMode, Config};
use y2b_rs::json::{read_json, write_json, Json};
use y2b_rs::pi::{pi_args, pi_model, PiTask};
use y2b_rs::reply::ReplyError;
use y2b_rs::segment::{
    apply_ranges, judge_ranges, next_window, retry_window, segment_payload, RangesError,
    SegmentError, SegmentRun, SegmentSettings, SegmentStep, Window,
};
use y2b_rs::subtitle::Cue;
use y2b_rs::translate::{
    apply_translations, judge_translations, plan_translation, retry_delay_seconds,
    translate_payload, AnswerError, BatchAction, BatchRun, CallOutcome, NoteLevel, PlanError,
    TranslationSettings,
};

fn cue(index: usize, text: &str) -> Cue {
    Cue {
        start: index as i64 * 2_000,
        end: index as i64 * 2_000 + 1_800,
        source: text.into(),
        translation: None,
    }
}

fn cues(count: usize) -> Vec<Cue> {
    (0..count).map(|index| cue(index, "word")).collect()
}

fn json(text: &str) -> Json {
    read_json(text).unwrap()
}

fn settings(batch_mode: BatchMode) -> SegmentSettings {
    SegmentSettings {
        batch_mode,
        budget: 200_000,
        max_cues: 6,
        overlap: 2,
    }
}

#[test]
fn windows_overlap_and_the_run_covers_all_cues() {
    let all = cues(10);
    let settings = settings(BatchMode::Adaptive);
    let mut run = SegmentRun::start(&all, &settings).unwrap();
    assert!(!run.whole);
    let first = Window {
        start: 0,
        end: 6,
        core_start: 0,
        preferred_end: 3,
    };
    assert_eq!(
        run.next_step(&all, &settings).unwrap(),
        SegmentStep::Call(first)
    );
    run.accept(first, vec![(0, 1), (2, 4), (5, 5)]);
    assert_eq!(run.cursor, 5);
    let second = Window {
        start: 3,
        end: 9,
        core_start: 5,
        preferred_end: 6,
    };
    assert_eq!(
        run.next_step(&all, &settings).unwrap(),
        SegmentStep::Call(second)
    );
    run.accept(second, vec![(0, 3), (4, 5)]);
    assert_eq!(run.cursor, 7);
    let last = Window {
        start: 5,
        end: 10,
        core_start: 7,
        preferred_end: 9,
    };
    assert_eq!(
        run.next_step(&all, &settings).unwrap(),
        SegmentStep::Call(last)
    );
    run.accept(last, vec![(0, 4)]);
    assert_eq!(
        run.next_step(&all, &settings).unwrap(),
        SegmentStep::Done
    );
    assert_eq!(run.ranges, vec![(0, 1), (2, 4), (5, 6), (7, 9)]);
    let sentences = apply_ranges(&all, &run.ranges);
    assert_eq!(sentences.len(), 4);
    assert_eq!(sentences[1].source, "word word word");
    assert_eq!((sentences[1].start, sentences[1].end), (4_000, 9_800));
}

#[test]
fn short_videos_are_cut_in_one_call() {
    let all = cues(3);
    let settings = settings(BatchMode::Adaptive);
    let mut run = SegmentRun::start(&all, &settings).unwrap();
    assert!(run.whole);
    let only = Window {
        start: 0,
        end: 3,
        core_start: 0,
        preferred_end: 2,
    };
    assert_eq!(
        run.next_step(&all, &settings).unwrap(),
        SegmentStep::Call(only)
    );
    run.accept(only, vec![(0, 2)]);
    assert_eq!(
        run.next_step(&all, &settings).unwrap(),
        SegmentStep::Done
    );
}

#[test]
fn videos_over_the_limits_are_not_cut() {
    let mut tight = settings(BatchMode::WholeVideo);
    tight.budget = 10;
    let error = SegmentRun::start(&cues(3), &tight).unwrap_err();
    assert!(matches!(error, SegmentError::WholeVideoTooLarge { .. }));
    assert!(error.message().contains("请改用 adaptive"));
    let window = next_window(&cues(3), 0, &tight).unwrap_err();
    assert!(matches!(
        window,
        SegmentError::Window(BatchError::CueTooLarge { cue: 0, .. })
    ));
    let mut crowded = settings(BatchMode::Adaptive);
    crowded.max_cues = 2;
    assert_eq!(
        next_window(&cues(9), 5, &crowded).unwrap_err(),
        SegmentError::NoRoomForCore
    );
}

#[test]
fn answers_must_cut_the_whole_window() {
    assert_eq!(
        judge_ranges(&json(r#"{"ranges":[{"start":0,"end":1},{"start":2,"end":2}]}"#), 3).unwrap(),
        vec![(0, 1), (2, 2)]
    );
    assert_eq!(
        judge_ranges(&json(r#"{"ranges":[{"start":0,"end":1}]}"#), 3).unwrap_err(),
        RangesError::Cover(BatchError::RangeShort { covered: 2, len: 3 })
    );
    assert_eq!(
        judge_ranges(&json("{}"), 3).unwrap_err(),
        RangesError::Reply(ReplyError::NoRanges)
    );
    assert_eq!(
        judge_ranges(&json(r#"{"ranges":[{"start":0}]}"#), 3)
            .unwrap_err()
            .message(),
        "range.end"
    );
}

#[test]
fn windows_are_tried_again_after_a_wait() {
    let (delay, note) = retry_window(0, 3, 1, 3, "boom").unwrap();
    assert_eq!(delay, retry_delay_seconds(1));
    assert_eq!(note.level, NoteLevel::Warn);
    assert_eq!(note.text, "分句窗口 0..3 第 1/3 次失败: boom");
    assert!(retry_window(0, 3, 3, 3, "boom").is_none());
}

#[test]
fn prompts_hold_their_cues() {
    let prompt = write_json(&segment_payload(&cues(1), "en", 0, 0));
    assert!(prompt.contains("\"task\":\"segment\""));
    assert!(prompt.contains("\"preferred_end\":0"));
    assert_eq!(
        write_json(&translate_payload(
            &cues(1),
            "en",
            "zh-CN",
            &Some("again".into())
        )),
        concat_lines(&[
            r#"{"feedback":"again","items":[{"i":0,"text":"word"}],"#,
            r#""source_lang":"en","target_lang":"zh-CN","task":"translate"}"#,
        ])
    );
}

fn concat_lines(lines: &[&str]) -> String {
    lines.concat()
}

fn translation_settings(batch_mode: BatchMode) -> TranslationSettings {
    TranslationSettings {
        batch_mode,
        budget: 200_000,
        batch_cues: 4,
        concurrency: 3,
        batch_retries: 1,
    }
}

#[test]
fn only_missing_batches_are_planned() {
    let mut all = cues(10);
    for cue in all[4..8].iter_mut() {
        cue.translation = Some("词".into());
    }
    let plan = plan_translation(&all, &translation_settings(BatchMode::Adaptive)).unwrap();
    assert_eq!(plan.batches, vec![(0, 4), (4, 8), (8, 10)]);
    assert_eq!(plan.pending, vec![(0, 4), (8, 10)]);
    assert_eq!(plan.concurrency, 2);
    let whole = plan_translation(&all, &translation_settings(BatchMode::WholeVideo)).unwrap();
    assert_eq!(whole.batches, vec![(0, 10)]);
    let mut none = translation_settings(BatchMode::Adaptive);
    none.concurrency = 0;
    assert_eq!(
        plan_translation(&all, &none).unwrap_err(),
        PlanError::NoConcurrency
    );
    let mut tight = translation_settings(BatchMode::WholeVideo);
    tight.budget = 1;
    assert!(matches!(
        plan_translation(&all, &tight),
        Err(PlanError::WholeVideoTooLarge { .. })
    ));
}

fn answered(count: usize) -> CallOutcome {
    CallOutcome::Answered {
        translations: Ok((0..count).map(|i| (i, format!("译{i}"))).collect()),
        duration_ms: 10,
        peak_rss_kib: 20,
    }
}

#[test]
fn failing_batches_are_cut_in_two() {
    let mut run = BatchRun::begin(4, 3, 1);
    let (action, notes) = run.step(CallOutcome::Failed("boom".into()));
    assert!(matches!(action, BatchAction::Call { delay_seconds } if delay_seconds > 0));
    assert_eq!(notes.len(), 1);
    assert_eq!(run.current, (0, 3));
    let (action, _) = run.step(CallOutcome::Failed("boom".into()));
    assert!(matches!(action, BatchAction::Call { .. }));
    assert_eq!(run.attempt, 1);
    let first = run.current.1;
    assert_eq!(run.current.0, 0);
    assert_eq!(run.later, vec![(first, 3 - first)]);
    let (action, _) = run.step(answered(first));
    assert!(matches!(action, BatchAction::Call { delay_seconds: 0 }));
    assert_eq!(run.current, (first, 3 - first));
    let (action, _) = run.step(answered(3 - first));
    assert!(matches!(action, BatchAction::Done));
    assert_eq!(
        run.results.iter().map(|item| item.0).collect::<Vec<_>>(),
        vec![0, 1, 2]
    );
    assert_eq!((run.duration_ms, run.peak_rss_kib), (20, 20));
    let mut all = cues(8);
    apply_translations(&mut all, 4, run.results);
    assert!(all[3].translation.is_none());
    assert_eq!(all[4].translation.as_deref(), Some("译0"));
    assert!(all[7].translation.is_none());
}

#[test]
fn unusable_answers_are_asked_for_again_with_feedback() {
    let mut run = BatchRun::begin(0, 1, 1);
    let unusable = || CallOutcome::Answered {
        translations: judge_translations(&json(r#"{"translations":[]}"#), 1),
        duration_ms: 1,
        peak_rss_kib: 1,
    };
    let (action, _) = run.step(unusable());
    assert!(matches!(action, BatchAction::Call { delay_seconds: 0 }));
    assert!(run.feedback.is_some());
    let (action, notes) = run.step(unusable());
    assert!(matches!(action, BatchAction::Fail(_)));
    assert!(notes.iter().any(|note| note.level == NoteLevel::Error));
}

#[test]
fn translations_are_judged() {
    assert_eq!(
        judge_translations(&json(r#"{"translations":[{"i":0,"text":"甲"}]}"#), 1).unwrap(),
        vec![(0, "甲".to_string())]
    );
    assert_eq!(
        judge_translations(&json(r#"{"translations":[{"i":1,"text":"甲"}]}"#), 1).unwrap_err(),
        AnswerError::Indexes(BatchError::TranslationIndex {
            index: 1,
            expected: 0
        })
    );
    assert_eq!(
        judge_translations(&json(r#"{"translations":[{"i":0}]}"#), 1)
            .unwrap_err()
            .message(),
        "translation.text"
    );
    assert!((1..10).all(|n| retry_delay_seconds(n) <= retry_delay_seconds(n + 1)));
}

#[test]
fn translation_has_its_own_model() {
    let config = Config::default();
    let args = pi_args(&config, PiTask::Translate, "{}");
    assert_eq!(
        args,
        [
            "--mode",
            "json",
            "--print",
            "--no-session",
            "--no-tools",
            "--no-skills",
            "--no-context-files",
            "--no-prompt-templates",
            "--no-extensions",
            "--extension",
            config.ai.extension.as_str(),
            "--provider",
            "deepseek",
            "--model",
            "deepseek-v4-pro",
            "--thinking",
            "off",
            "--no-approve",
            "{}"
        ]
    );
    for task in [PiTask::Segment, PiTask::PublishMetadata] {
        assert_eq!(pi_model(&config, task), "deepseek-v4-flash");
        assert_eq!(pi_args(&config, task, "{}")[14], "deepseek-v4-flash");
    }
    assert_eq!(PiTask::Segment.as_str(), "segment");
    assert_eq!(PiTask::Translate.as_str(), "translate");
    assert_eq!(PiTask::PublishMetadata.as_str(), "publish_metadata");
}
