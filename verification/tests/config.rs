use y2b_rs::config::{
    Config, ConfigError, AI_MODEL, AI_PROVIDER, AI_THINKING, AI_TRANSLATION_MODEL,
    MAX_TRANSLATION_BATCH_RETRIES,
};

fn assert_invalid(config: &Config, bind_addr_parses: bool, field: &str) {
    let error = config
        .validate(bind_addr_parses)
        .unwrap_err()
        .message(config);
    assert!(error.contains(field), "错误未指出字段 {field}: {error}");
}

#[test]
fn rejects_invalid_config_boundaries() {
    let mut config = Config::default();
    config.ai.segment_max_cues = 0;
    assert_invalid(&config, true, "segment_max_cues");

    let mut config = Config::default();
    config.ai.segment_overlap_cues = config.ai.segment_max_cues;
    assert_invalid(&config, true, "segment_overlap_cues");

    let mut config = Config::default();
    config.ai.translation_batch_cues = 0;
    assert_invalid(&config, true, "translation_batch_cues");

    let mut config = Config::default();
    config.ai.translation_concurrency = 0;
    assert_invalid(&config, true, "translation_concurrency");

    let mut config = Config::default();
    config.ai.timeout_seconds = 0;
    assert_invalid(&config, true, "timeout_seconds");

    let mut config = Config::default();
    config.ai.translation_batch_retries = MAX_TRANSLATION_BATCH_RETRIES + 1;
    assert_invalid(&config, true, "translation_batch_retries");

    let mut config = Config::default();
    config.monitor.max_attempts = 0;
    assert_invalid(&config, true, "max_attempts");

    let mut config = Config::default();
    config.storage.warn_free_gib = config.storage.stop_free_gib - 1;
    assert_invalid(&config, true, "warn_free_gib");

    for max_fps in [Some(0), None] {
        let mut config = Config::default();
        config.youtube.max_fps_milli = max_fps;
        assert_invalid(&config, true, "max_fps");
    }

    let mut config = Config::default();
    config.youtube.max_pixels = 0;
    assert_invalid(&config, true, "max_pixels");

    let mut config = Config::default();
    config.bilibili.submit_interval_seconds = 0;
    assert_invalid(&config, true, "submit_interval_seconds");

    let mut config = Config::default();
    config.translation.target_lang.clear();
    assert_invalid(&config, true, "target_lang");

    let mut config = Config::default();
    config.translation.target_lang = "ja".into();
    assert_invalid(&config, true, "target_lang");

    let mut config = Config::default();
    config.translation.source_lang = "ja".into();
    assert_invalid(&config, true, "source_lang");

    let mut config = Config::default();
    config.websub.bind_addr = "not an address".into();
    assert_invalid(&config, false, "bind_addr");
}

#[test]
fn rejects_non_positive_token_limits_and_bad_context_bounds() {
    for limit in [Some(0), Some(-1)] {
        let mut config = Config::default();
        config.ai.daily_token_limit = limit;
        assert_invalid(&config, true, "daily_token_limit");
    }

    let mut config = Config::default();
    config.ai.context_window_tokens = 0;
    assert_invalid(&config, true, "context_window_tokens");

    let mut config = Config::default();
    config.ai.safe_context_tokens = 0;
    assert_invalid(&config, true, "safe_context_tokens");

    let mut config = Config::default();
    config.ai.safe_context_tokens = config.ai.context_window_tokens + 1;
    assert_invalid(&config, true, "safe_context_tokens");
}

#[test]
fn accepts_positive_token_limit_and_equal_context_bounds() {
    let mut config = Config::default();
    config.ai.daily_token_limit = Some(1);
    config.ai.safe_context_tokens = config.ai.context_window_tokens;
    config.validate(true).unwrap();
}

#[test]
fn accepts_valid_config_boundaries() {
    let mut config = Config::default();
    config.ai.segment_max_cues = 1;
    config.ai.segment_overlap_cues = 0;
    config.ai.translation_batch_cues = 1;
    config.ai.translation_concurrency = 1;
    config.ai.timeout_seconds = 1;
    config.ai.translation_batch_retries = MAX_TRANSLATION_BATCH_RETRIES;
    config.monitor.max_attempts = 1;
    config.storage.warn_free_gib = config.storage.stop_free_gib;
    config.youtube.max_fps_milli = Some(1);
    config.youtube.max_pixels = 1;
    config.bilibili.submit_interval_seconds = 1;
    config.websub.bind_addr = "[::1]:1".into();
    config.validate(true).unwrap();
}

#[test]
fn rejects_ai_profile_drift() {
    for (provider, model, translation_model, thinking) in [
        ("openai-codex", AI_MODEL, AI_TRANSLATION_MODEL, AI_THINKING),
        (
            AI_PROVIDER,
            "deepseek-v4-pro",
            AI_TRANSLATION_MODEL,
            AI_THINKING,
        ),
        (AI_PROVIDER, AI_MODEL, "deepseek-v4-flash", AI_THINKING),
        (AI_PROVIDER, AI_MODEL, AI_TRANSLATION_MODEL, "high"),
    ] {
        let mut config = Config::default();
        config.ai.provider = provider.into();
        config.ai.model = model.into();
        config.ai.translation_model = translation_model.into();
        config.ai.thinking = thinking.into();
        assert!(config.validate_ai_profile().is_err());
    }
}

#[test]
fn websub_is_disabled_by_default_and_requires_https_when_enabled() {
    let mut config = Config::default();
    assert!(!config.websub.enabled);
    config.websub.enabled = true;
    assert!(config.validate_websub(true).is_err());
    config.websub.callback_base_url = "https://push.example.com".into();
    config.validate_websub(true).unwrap();
    assert!(config.validate_websub(false).is_err());
}

#[test]
fn discovery_defaults_are_low_latency_and_validated() {
    let mut config = Config::default();
    assert_eq!(config.monitor.data_api_max_results, 50);
    assert_eq!(config.monitor.prediction_window_minutes, 120);
    assert_eq!(config.monitor.prediction_hot_poll_seconds, 60);
    assert_eq!(config.monitor.prediction_cold_poll_minutes, 30);
    assert_eq!(config.monitor.prediction_fallback_poll_minutes, 5);
    assert_eq!(config.monitor.prediction_min_samples, 5);
    assert_eq!(config.monitor.reconcile_hours, 6);
    assert!(!config.translation.enforce_source_lang);
    config.validate_discovery().unwrap();

    config.monitor.data_api_max_results = 51;
    assert!(config.validate_discovery().is_err());
}

#[test]
fn model_defaults_fit_a_large_context() {
    let config = Config::default();
    assert_eq!(config.ai.context_window_tokens, 256_000);
    assert_eq!(config.ai.safe_context_tokens, 200_000);
    assert_eq!(config.ai.translation_batch_cues, 40);
    assert_eq!(config.ai.translation_concurrency, 4);
    assert_eq!(config.ai.translation_batch_retries, 2);
    assert_eq!(config.ai.provider, AI_PROVIDER);
    assert_eq!(config.ai.model, AI_MODEL);
    assert_eq!(config.ai.translation_model, AI_TRANSLATION_MODEL);
    assert_eq!(config.ai.thinking, AI_THINKING);
    assert_eq!(config.storage.daily_backups, 7);
    assert_eq!(config.storage.weekly_backups, 4);
    assert_eq!(config.bilibili.submit_interval_seconds, 1_800);
    assert_eq!(config.bilibili.rate_limit_cooldown_seconds, 21_600);
    assert_eq!(config.monitor.max_attempts, 5);
    assert_eq!(config.youtube.max_duration_seconds, 7_200);
    config.validate(true).unwrap();
    let elsewhere = Config::under("/srv/y2b");
    assert_eq!(elsewhere.runtime.database, "/srv/y2b/state.db");
}

#[test]
fn time_zones_are_looked_up() {
    let mut config = Config::default();
    config.runtime.timezone = "Mars/Olympus".into();
    let error: ConfigError = config.validate(true).unwrap_err();
    assert!(error.message(&config).contains("Mars/Olympus"));
}
