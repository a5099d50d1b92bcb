//! The configuration, its defaults and the rules that it must keep.
use vstd::prelude::*;

use crate::clock::{is_zone, names_zone};
use crate::text::{
    blank, chars_of, is_blank, join, same_text, starts, starts_with, trim_back, trim_front, trimmed,
};

verus! {

/// The provider of the language models.
pub const AI_PROVIDER: &'static str = "deepseek";

/// The model that segments subtitles and writes titles.
pub const AI_MODEL: &'static str = "deepseek-v4-flash";

/// The model that translates; long lists need its stronger alignment.
pub const AI_TRANSLATION_MODEL: &'static str = "deepseek-v4-pro";

/// The one thinking level of all stages.
pub const AI_THINKING: &'static str = "off";

/// The most often that a batch of translations may be tried again.
pub const MAX_TRANSLATION_BATCH_RETRIES: usize = 10;

/// How the cues of a video are handed to the model.
#[derive(Debug, Clone, Copy, PartialEq, Eq, Structural)]
pub enum BatchMode {
    WholeVideo,
    Adaptive,
}

impl Default for BatchMode {
    fn default() -> (r: Self)
        ensures
            r == BatchMode::Adaptive,
    {
        BatchMode::Adaptive
    }
}

/// The name of a batch mode.
pub fn batch_mode_name(mode: BatchMode) -> (r: &'static str)
    ensures
        r@ == match mode {
            BatchMode::WholeVideo => "whole_video"@,
            BatchMode::Adaptive => "adaptive"@,
        },
{
    match mode {
        BatchMode::WholeVideo => "whole_video",
        BatchMode::Adaptive => "adaptive",
    }
}

/// Where the service keeps its files.
#[derive(Debug)]
pub struct RuntimeConfig {
    pub data_dir: String,
    pub database: String,
    pub download_dir: String,
    pub backup_dir: String,
    pub timezone: String,
}

/// How often channels are polled.
#[derive(Debug, Clone, Copy)]
pub struct MonitorConfig {
    pub poll_seconds: u64,
    /// How many entries of a playlist one request reads; one and fifty cost the same.
    pub data_api_max_results: usize,
    /// The whole width of a predicted hot window.
    pub prediction_window_minutes: u64,
    /// The interval inside a hot window.
    pub prediction_hot_poll_seconds: u64,
    /// The interval outside the hot windows.
    pub prediction_cold_poll_minutes: u64,
    /// The interval while there is too little history.
    pub prediction_fallback_poll_minutes: u64,
    /// The fewest publications from which a prediction is made.
    pub prediction_min_samples: usize,
    pub reconcile_hours: u64,
    pub reconcile_limit: usize,
    pub max_attempts: u32,
}

/// How videos are fetched. The frame rate is in thousandths, rounded up; a rate that is no number
/// is absent.
#[derive(Debug)]
pub struct YoutubeConfig {
    pub yt_dlp: String,
    pub cookies: String,
    pub probe_url: String,
    pub max_pixels: u64,
    pub max_fps_milli: Option<u64>,
    /// Longer videos are skipped; zero means no limit.
    pub max_duration_seconds: u64,
}

/// How videos are submitted.
#[derive(Debug)]
pub struct BilibiliConfig {
    pub biliup: String,
    pub cookies: String,
    pub submit_interval_seconds: u64,
    pub rate_limit_cooldown_seconds: u64,
}

/// How the language models are called.
#[derive(Debug)]
pub struct AiConfig {
    pub pi: String,
    pub extension: String,
    pub policy: String,
    pub provider: String,
    pub model: String,
    pub translation_model: String,
    pub thinking: String,
    pub timeout_seconds: u64,
    pub batch_mode: BatchMode,
    pub context_window_tokens: usize,
    pub safe_context_tokens: usize,
    pub segment_overlap_cues: usize,
    /// The most cues of one call that segments.
    pub segment_max_cues: usize,
    pub translation_batch_cues: usize,
    pub translation_concurrency: usize,
    pub translation_batch_retries: usize,
    pub daily_token_limit: Option<i64>,
}

/// The programs that work on video files.
#[derive(Debug)]
pub struct RenderConfig {
    pub ffmpeg: String,
    pub ffprobe: String,
}

/// How much room is kept free, and how many backups are kept.
#[derive(Debug, Clone, Copy, PartialEq, Eq, Structural)]
pub struct StorageConfig {
    pub warn_free_gib: u64,
    pub stop_free_gib: u64,
    pub delete_large_after_upload: bool,
    pub daily_backups: usize,
    pub weekly_backups: usize,
}

/// The languages of the subtitles.
#[derive(Debug)]
pub struct TranslationConfig {
    pub source_lang: String,
    pub target_lang: String,
    /// Whether a video in a known other language is refused; an unknown one never is.
    pub enforce_source_lang: bool,
}

/// The callback that a hub pushes new videos to.
#[derive(Debug)]
pub struct WebSubConfig {
    pub enabled: bool,
    pub bind_addr: String,
    pub callback_base_url: String,
    /// The interval that is left to polling while a lease is valid.
    pub data_api_poll_minutes: u64,
}

/// The whole configuration.
#[derive(Debug)]
pub struct Config {
    pub runtime: RuntimeConfig,
    pub monitor: MonitorConfig,
    pub youtube: YoutubeConfig,
    pub bilibili: BilibiliConfig,
    pub ai: AiConfig,
    pub render: RenderConfig,
    pub storage: StorageConfig,
    pub translation: TranslationConfig,
    pub websub: WebSubConfig,
}

/// The directory of the service where none is set.
pub const BASE_DIR: &'static str = "/var/lib/y2b";

/// A file name below a directory.
pub open spec fn below(dir: Seq<char>, name: Seq<char>) -> Seq<char> {
    if dir.len() == 0 || dir.last() == '/' {
        dir + name
    } else {
        dir + "/"@ + name
    }
}

/// A file name below a directory.
pub fn path_below(dir: &str, name: &str) -> (r: String)
    ensures
        r@ == below(dir@, name@),
{
    let chars = chars_of(dir);
    let n: usize = chars.len();
    if n == 0 || chars[n - 1] == '/' {
        join(dir, name)
    } else {
        join(join(dir, "/").as_str(), name)
    }
}

impl RuntimeConfig {
    /// The defaults below a base directory.
    pub fn under(base: &str) -> (r: Self)
        ensures
            r.data_dir@ == base@,
            r.database@ == below(base@, "state.db"@),
            r.download_dir@ == below(base@, "downloads"@),
            r.backup_dir@ == below(base@, "backups"@),
            r.timezone@ == "Asia/Shanghai"@,
    {
        RuntimeConfig {
            data_dir: base.to_owned(),
            database: path_below(base, "state.db"),
            download_dir: path_below(base, "downloads"),
            backup_dir: path_below(base, "backups"),
            timezone: "Asia/Shanghai".to_owned(),
        }
    }
}

impl Default for RuntimeConfig {
    fn default() -> (r: Self)
        ensures
            r.data_dir@ == BASE_DIR@,
            r.database@ == below(BASE_DIR@, "state.db"@),
            r.download_dir@ == below(BASE_DIR@, "downloads"@),
            r.backup_dir@ == below(BASE_DIR@, "backups"@),
            r.timezone@ == "Asia/Shanghai"@,
    {
        RuntimeConfig::under(BASE_DIR)
    }
}

impl Default for MonitorConfig {
    fn default() -> (r: Self)
        ensures
            r == (MonitorConfig {
                poll_seconds: 60,
                data_api_max_results: 50,
                prediction_window_minutes: 120,
                prediction_hot_poll_seconds: 60,
                prediction_cold_poll_minutes: 30,
                prediction_fallback_poll_minutes: 5,
                prediction_min_samples: 5,
                reconcile_hours: 6,
                reconcile_limit: 30,
                max_attempts: 5,
            }),
    {
        MonitorConfig {
            poll_seconds: 60,
            data_api_max_results: 50,
            prediction_window_minutes: 120,
            prediction_hot_poll_seconds: 60,
            prediction_cold_poll_minutes: 30,
            prediction_fallback_poll_minutes: 5,
            prediction_min_samples: 5,
            reconcile_hours: 6,
            reconcile_limit: 30,
            max_attempts: 5,
        }
    }
}

impl YoutubeConfig {
    /// The defaults below a base directory.
    pub fn under(base: &str) -> (r: Self)
        ensures
            r.yt_dlp@ == "/usr/local/bin/yt-dlp"@,
            r.cookies@ == below(base@, "youtube_cookies.txt"@),
            r.probe_url@ == "https://www.youtube.com/watch?v=jNQXAC9IVRw"@,
            r.max_pixels == 2_073_600,
            r.max_fps_milli == Some(60_000u64),
            r.max_duration_seconds == 7200,
    {
        YoutubeConfig {
            yt_dlp: "/usr/local/bin/yt-dlp".to_owned(),
            cookies: path_below(base, "youtube_cookies.txt"),
            probe_url: "https://www.youtube.com/watch?v=jNQXAC9IVRw".to_owned(),
            max_pixels: 2_073_600,
            max_fps_milli: Some(60_000),
            max_duration_seconds: 7200,
        }
    }
}

impl Default for YoutubeConfig {
    fn default() -> (r: Self)
        ensures
            r.yt_dlp@ == "/usr/local/bin/yt-dlp"@,
            r.cookies@ == below(BASE_DIR@, "youtube_cookies.txt"@),
            r.probe_url@ == "https://www.youtube.com/watch?v=jNQXAC9IVRw"@,
            r.max_pixels == 2_073_600,
            r.max_fps_milli == Some(60_000u64),
            r.max_duration_seconds == 7200,
    {
        YoutubeConfig::under(BASE_DIR)
    }
}

impl BilibiliConfig {
    /// The defaults below a base directory.
    pub fn under(base: &str) -> (r: Self)
        ensures
            r.biliup@ == "/usr/local/bin/biliup"@,
            r.cookies@ == below(base@, "bilibili_cookies.json"@),
            r.submit_interval_seconds == 1800,
            r.rate_limit_cooldown_seconds == 21600,
    {
        BilibiliConfig {
            biliup: "/usr/local/bin/biliup".to_owned(),
            cookies: path_below(base, "bilibili_cookies.json"),
            submit_interval_seconds: 1800,
            rate_limit_cooldown_seconds: 21600,
        }
    }
}

impl Default for BilibiliConfig {
    fn default() -> (r: Self)
        ensures
            r.biliup@ == "/usr/local/bin/biliup"@,
            r.cookies@ == below(BASE_DIR@, "bilibili_cookies.json"@),
            r.submit_interval_seconds == 1800,
            r.rate_limit_cooldown_seconds == 21600,
    {
        BilibiliConfig::under(BASE_DIR)
    }
}

impl Default for AiConfig {
    fn default() -> (r: Self)
        ensures
            r.pi@ == "/usr/local/bin/pi"@,
            r.extension@ == "/opt/y2b/pi/y2b-extension.ts"@,
            r.policy@ == "/opt/y2b/pi/policy.json"@,
            r.provider@ == AI_PROVIDER@,
            r.model@ == AI_MODEL@,
            r.translation_model@ == AI_TRANSLATION_MODEL@,
            r.thinking@ == AI_THINKING@,
            r.timeout_seconds == 900,
            r.batch_mode == BatchMode::Adaptive,
            r.context_window_tokens == 256_000,
            r.safe_context_tokens == 200_000,
            r.segment_overlap_cues == 12,
            r.segment_max_cues == 400,
            r.translation_batch_cues == 40,
            r.translation_concurrency == 4,
            r.translation_batch_retries == 2,
            r.daily_token_limit is None,
    {
        AiConfig {
            pi: "/usr/local/bin/pi".to_owned(),
            extension: "/opt/y2b/pi/y2b-extension.ts".to_owned(),
            policy: "/opt/y2b/pi/policy.json".to_owned(),
            provider: AI_PROVIDER.to_owned(),
            model: AI_MODEL.to_owned(),
            translation_model: AI_TRANSLATION_MODEL.to_owned(),
            thinking: AI_THINKING.to_owned(),
            timeout_seconds: 900,
            batch_mode: BatchMode::Adaptive,
            context_window_tokens: 256_000,
            safe_context_tokens: 200_000,
            segment_overlap_cues: 12,
            segment_max_cues: 400,
            translation_batch_cues: 40,
            translation_concurrency: 4,
            translation_batch_retries: 2,
            daily_token_limit: None,
        }
    }
}

impl Default for RenderConfig {
    fn default() -> (r: Self)
        ensures
            r.ffmpeg@ == "/usr/local/bin/ffmpeg"@,
            r.ffprobe@ == "/usr/local/bin/ffprobe"@,
    {
        RenderConfig {
            ffmpeg: "/usr/local/bin/ffmpeg".to_owned(),
            ffprobe: "/usr/local/bin/ffprobe".to_owned(),
        }
    }
}

impl Default for StorageConfig {
    fn default() -> (r: Self)
        ensures
            r == (StorageConfig {
                warn_free_gib: 10,
                stop_free_gib: 5,
                delete_large_after_upload: true,
                daily_backups: 7,
                weekly_backups: 4,
            }),
    {
        StorageConfig {
            warn_free_gib: 10,
            stop_free_gib: 5,
            delete_large_after_upload: true,
            daily_backups: 7,
            weekly_backups: 4,
        }
    }
}

impl Default for TranslationConfig {
    fn default() -> (r: Self)
        ensures
            r.source_lang@ == "en"@,
            r.target_lang@ == "zh-CN"@,
            !r.enforce_source_lang,
    {
        TranslationConfig {
            source_lang: "en".to_owned(),
            target_lang: "zh-CN".to_owned(),
            enforce_source_lang: false,
        }
    }
}

impl Default for WebSubConfig {
    fn default() -> (r: Self)
        ensures
            !r.enabled,
            r.bind_addr@ == "127.0.0.1:8787"@,
            r.callback_base_url@ == ""@,
            r.data_api_poll_minutes == 30,
    {
        WebSubConfig {
            enabled: false,
            bind_addr: "127.0.0.1:8787".to_owned(),
            callback_base_url: "".to_owned(),
            data_api_poll_minutes: 30,
        }
    }
}

/// What a configuration breaks.
#[derive(Debug, Clone, Copy, PartialEq, Eq, Structural)]
pub enum ConfigError {
    AiProfile,
    Timezone,
    BindAddr,
    Languages,
    DataApiMaxResults,
    PredictionWindow,
    PredictionHotPoll,
    PredictionColdPoll,
    PredictionFallbackPoll,
    PredictionMinSamples,
    ReconcileHours,
    ReconcileLimit,
    SourceLanguageMissing,
    CallbackScheme,
    WebSubPoll,
    SegmentMaxCues,
    SegmentOverlap,
    ContextWindow,
    SafeContext,
    SafeContextTooLarge,
    DailyTokenLimit,
    TranslationBatchCues,
    TranslationConcurrency,
    AiTimeout,
    TranslationRetries,
    MaxAttempts,
    FreeSpace,
    MaxFps,
    MaxPixels,
    SubmitInterval,
    TargetLanguageMissing,
}

impl ConfigError {
    /// The message for a configuration.
    pub open spec fn text(self, c: Config) -> Seq<char> {
        match self {
            ConfigError::AiProfile => "AI 配置必须固定为 provider=deepseek, model=deepseek-v4-flash, translation_model=deepseek-v4-pro, thinking=off；当前为 provider="@
                + c.ai.provider@ + ", model="@ + c.ai.model@ + ", translation_model="@
                + c.ai.translation_model@ + ", thinking="@ + c.ai.thinking@,
            ConfigError::Timezone => "runtime.timezone 不是有效 IANA 时区: "@ + c.runtime.timezone@,
            ConfigError::BindAddr => "websub.bind_addr 无法解析: "@ + c.websub.bind_addr@,
            ConfigError::Languages => "翻译语言必须固定为 source_lang=en, target_lang=zh-CN；当前为 source_lang="@
                + c.translation.source_lang@ + ", target_lang="@ + c.translation.target_lang@,
            ConfigError::DataApiMaxResults => "monitor.data_api_max_results 必须在 1..=50"@,
            ConfigError::PredictionWindow => "monitor.prediction_window_minutes 必须在 1..=1440"@,
            ConfigError::PredictionHotPoll => "monitor.prediction_hot_poll_seconds 必须大于 0"@,
            ConfigError::PredictionColdPoll => "monitor.prediction_cold_poll_minutes 必须大于 0"@,
            ConfigError::PredictionFallbackPoll => "monitor.prediction_fallback_poll_minutes 必须大于 0"@,
            ConfigError::PredictionMinSamples => "monitor.prediction_min_samples 必须大于 0"@,
            ConfigError::ReconcileHours => "monitor.reconcile_hours 必须大于 0"@,
            ConfigError::ReconcileLimit => "monitor.reconcile_limit 必须大于 0"@,
            ConfigError::SourceLanguageMissing => "translation.source_lang 不能为空"@,
            ConfigError::CallbackScheme => "WebSub 启用时 callback_base_url 必须是公网 HTTPS 地址"@,
            ConfigError::WebSubPoll => "WebSub 启用时 data_api_poll_minutes 必须大于 0"@,
            ConfigError::SegmentMaxCues => "ai.segment_max_cues 必须大于 0"@,
            ConfigError::SegmentOverlap => "ai.segment_overlap_cues 必须小于 ai.segment_max_cues"@,
            ConfigError::ContextWindow => "ai.context_window_tokens 必须大于 0"@,
            ConfigError::SafeContext => "ai.safe_context_tokens 必须大于 0"@,
            ConfigError::SafeContextTooLarge => "ai.safe_context_tokens 必须小于等于 ai.context_window_tokens"@,
            ConfigError::DailyTokenLimit => "ai.daily_token_limit 必须大于 0"@,
            ConfigError::TranslationBatchCues => "ai.translation_batch_cues 必须大于 0"@,
            ConfigError::TranslationConcurrency => "ai.translation_concurrency 必须大于 0"@,
            ConfigError::AiTimeout => "ai.timeout_seconds 必须大于 0"@,
            ConfigError::TranslationRetries => "ai.translation_batch_retries 不能大于 10"@,
            ConfigError::MaxAttempts => "monitor.max_attempts 必须大于 0"@,
            ConfigError::FreeSpace => "storage.warn_free_gib 必须大于等于 storage.stop_free_gib"@,
            ConfigError::MaxFps => "youtube.max_fps 必须是有限且大于 0 的数"@,
            ConfigError::MaxPixels => "youtube.max_pixels 必须大于 0"@,
            ConfigError::SubmitInterval => "bilibili.submit_interval_seconds 必须大于 0"@,
            ConfigError::TargetLanguageMissing => "translation.target_lang 不能为空"@,
        }
    }

    /// The message for a configuration.
    pub fn message(self, c: &Config) -> (r: String)
        ensures
            r@ == self.text(*c),
    {
        match self {
            ConfigError::AiProfile => {
                let mut s = "AI 配置必须固定为 provider=deepseek, model=deepseek-v4-flash, translation_model=deepseek-v4-pro, thinking=off；当前为 provider=".to_owned();
                s.append(c.ai.provider.as_str());
                s.append(", model=");
                s.append(c.ai.model.as_str());
                s.append(", translation_model=");
                s.append(c.ai.translation_model.as_str());
                s.append(", thinking=");
                s.append(c.ai.thinking.as_str());
                s
            },
            ConfigError::Timezone => join(
                "runtime.timezone 不是有效 IANA 时区: ",
                c.runtime.timezone.as_str(),
            ),
            ConfigError::BindAddr => join(
                "websub.bind_addr 无法解析: ",
                c.websub.bind_addr.as_str(),
            ),
            ConfigError::Languages => {
                let mut s = "翻译语言必须固定为 source_lang=en, target_lang=zh-CN；当前为 source_lang=".to_owned();
                s.append(c.translation.source_lang.as_str());
                s.append(", target_lang=");
                s.append(c.translation.target_lang.as_str());
                s
            },
            ConfigError::DataApiMaxResults => "monitor.data_api_max_results 必须在 1..=50".to_owned(),
            ConfigError::PredictionWindow => "monitor.prediction_window_minutes 必须在 1..=1440".to_owned(),
            ConfigError::PredictionHotPoll => "monitor.prediction_hot_poll_seconds 必须大于 0".to_owned(),
            ConfigError::PredictionColdPoll => "monitor.prediction_cold_poll_minutes 必须大于 0".to_owned(),
            ConfigError::PredictionFallbackPoll => "monitor.prediction_fallback_poll_minutes 必须大于 0".to_owned(),
            ConfigError::PredictionMinSamples => "monitor.prediction_min_samples 必须大于 0".to_owned(),
            ConfigError::ReconcileHours => "monitor.reconcile_hours 必须大于 0".to_owned(),
            ConfigError::ReconcileLimit => "monitor.reconcile_limit 必须大于 0".to_owned(),
            ConfigError::SourceLanguageMissing => "translation.source_lang 不能为空".to_owned(),
            ConfigError::CallbackScheme => "WebSub 启用时 callback_base_url 必须是公网 HTTPS 地址".to_owned(),
            ConfigError::WebSubPoll => "WebSub 启用时 data_api_poll_minutes 必须大于 0".to_owned(),
            ConfigError::SegmentMaxCues => "ai.segment_max_cues 必须大于 0".to_owned(),
            ConfigError::SegmentOverlap => "ai.segment_overlap_cues 必须小于 ai.segment_max_cues".to_owned(),
            ConfigError::ContextWindow => "ai.context_window_tokens 必须大于 0".to_owned(),
            ConfigError::SafeContext => "ai.safe_context_tokens 必须大于 0".to_owned(),
            ConfigError::SafeContextTooLarge => "ai.safe_context_tokens 必须小于等于 ai.context_window_tokens".to_owned(),
            ConfigError::DailyTokenLimit => "ai.daily_token_limit 必须大于 0".to_owned(),
            ConfigError::TranslationBatchCues => "ai.translation_batch_cues 必须大于 0".to_owned(),
            ConfigError::TranslationConcurrency => "ai.translation_concurrency 必须大于 0".to_owned(),
            ConfigError::AiTimeout => "ai.timeout_seconds 必须大于 0".to_owned(),
            ConfigError::TranslationRetries => "ai.translation_batch_retries 不能大于 10".to_owned(),
            ConfigError::MaxAttempts => "monitor.max_attempts 必须大于 0".to_owned(),
            ConfigError::FreeSpace => "storage.warn_free_gib 必须大于等于 storage.stop_free_gib".to_owned(),
            ConfigError::MaxFps => "youtube.max_fps 必须是有限且大于 0 的数".to_owned(),
            ConfigError::MaxPixels => "youtube.max_pixels 必须大于 0".to_owned(),
            ConfigError::SubmitInterval => "bilibili.submit_interval_seconds 必须大于 0".to_owned(),
            ConfigError::TargetLanguageMissing => "translation.target_lang 不能为空".to_owned(),
        }
    }
}

/// The outcome that a fault calls for.
pub open spec fn outcome(fault: Option<ConfigError>) -> Result<(), ConfigError> {
    match fault {
        Some(e) => Err(e),
        None => Ok(()),
    }
}

impl Config {
    /// The defaults below a base directory.
    pub fn under(base: &str) -> (r: Self)
        ensures
            r.runtime.data_dir@ == base@,
            r.runtime.database@ == below(base@, "state.db"@),
            r.runtime.download_dir@ == below(base@, "downloads"@),
            r.runtime.backup_dir@ == below(base@, "backups"@),
            r.runtime.timezone@ == "Asia/Shanghai"@,
            call_ensures(MonitorConfig::default, (), r.monitor),
            call_ensures(YoutubeConfig::under, (base,), r.youtube),
            call_ensures(BilibiliConfig::under, (base,), r.bilibili),
            call_ensures(AiConfig::default, (), r.ai),
            call_ensures(RenderConfig::default, (), r.render),
            call_ensures(StorageConfig::default, (), r.storage),
            call_ensures(TranslationConfig::default, (), r.translation),
            call_ensures(WebSubConfig::default, (), r.websub),
    {
        Config {
            runtime: RuntimeConfig::under(base),
            monitor: MonitorConfig::default(),
            youtube: YoutubeConfig::under(base),
            bilibili: BilibiliConfig::under(base),
            ai: AiConfig::default(),
            render: RenderConfig::default(),
            storage: StorageConfig::default(),
            translation: TranslationConfig::default(),
            websub: WebSubConfig::default(),
        }
    }

    /// Whether the models and the thinking level are the fixed ones.
    pub open spec fn ai_fault(&self) -> Option<ConfigError> {
        if self.ai.provider@ == AI_PROVIDER@ && self.ai.model@ == AI_MODEL@
            && self.ai.translation_model@ == AI_TRANSLATION_MODEL@ && self.ai.thinking@
            == AI_THINKING@ {
            None
        } else {
            Some(ConfigError::AiProfile)
        }
    }

    /// What the settings of discovery break first.
    pub open spec fn discovery_fault(&self) -> Option<ConfigError> {
        if !is_zone(self.runtime.timezone@) {
            Some(ConfigError::Timezone)
        } else if !(1 <= self.monitor.data_api_max_results && self.monitor.data_api_max_results <= 50) {
            Some(ConfigError::DataApiMaxResults)
        } else if !(1 <= self.monitor.prediction_window_minutes && self.monitor.prediction_window_minutes <= 1440) {
            Some(ConfigError::PredictionWindow)
        } else if self.monitor.prediction_hot_poll_seconds == 0 {
            Some(ConfigError::PredictionHotPoll)
        } else if self.monitor.prediction_cold_poll_minutes == 0 {
            Some(ConfigError::PredictionColdPoll)
        } else if self.monitor.prediction_fallback_poll_minutes == 0 {
            Some(ConfigError::PredictionFallbackPoll)
        } else if self.monitor.prediction_min_samples == 0 {
            Some(ConfigError::PredictionMinSamples)
        } else if self.monitor.reconcile_hours == 0 {
            Some(ConfigError::ReconcileHours)
        } else if self.monitor.reconcile_limit == 0 {
            Some(ConfigError::ReconcileLimit)
        } else if is_blank(self.translation.source_lang@) {
            Some(ConfigError::SourceLanguageMissing)
        } else {
            None
        }
    }

    /// What the settings of the callback break first, given whether the address to listen on is one.
    pub open spec fn websub_fault(&self, bind_addr_parses: bool) -> Option<ConfigError> {
        if !bind_addr_parses {
            Some(ConfigError::BindAddr)
        } else if self.websub.enabled && !starts(self.websub.callback_base_url@, "https://"@) {
            Some(ConfigError::CallbackScheme)
        } else if self.websub.enabled && self.websub.data_api_poll_minutes == 0 {
            Some(ConfigError::WebSubPoll)
        } else {
            None
        }
    }

    /// What the other settings break first.
    pub open spec fn bounds_fault(&self) -> Option<ConfigError> {
        if self.ai.segment_max_cues == 0 {
            Some(ConfigError::SegmentMaxCues)
        } else if self.ai.segment_overlap_cues >= self.ai.segment_max_cues {
            Some(ConfigError::SegmentOverlap)
        } else if self.ai.context_window_tokens == 0 {
            Some(ConfigError::ContextWindow)
        } else if self.ai.safe_context_tokens == 0 {
            Some(ConfigError::SafeContext)
        } else if self.ai.safe_context_tokens > self.ai.context_window_tokens {
            Some(ConfigError::SafeContextTooLarge)
        } else if (self.ai.daily_token_limit matches Some(n) && n <= 0) {
            Some(ConfigError::DailyTokenLimit)
        } else if self.ai.translation_batch_cues == 0 {
            Some(ConfigError::TranslationBatchCues)
        } else if self.ai.translation_concurrency == 0 {
            Some(ConfigError::TranslationConcurrency)
        } else if self.ai.timeout_seconds == 0 {
            Some(ConfigError::AiTimeout)
        } else if self.ai.translation_batch_retries > MAX_TRANSLATION_BATCH_RETRIES {
            Some(ConfigError::TranslationRetries)
        } else if self.monitor.max_attempts == 0 {
            Some(ConfigError::MaxAttempts)
        } else if self.storage.warn_free_gib < self.storage.stop_free_gib {
            Some(ConfigError::FreeSpace)
        } else if !(self.youtube.max_fps_milli matches Some(n) && n > 0) {
            Some(ConfigError::MaxFps)
        } else if self.youtube.max_pixels == 0 {
            Some(ConfigError::MaxPixels)
        } else if self.bilibili.submit_interval_seconds == 0 {
            Some(ConfigError::SubmitInterval)
        } else if is_blank(self.translation.target_lang@) {
            Some(ConfigError::TargetLanguageMissing)
        } else if self.translation.source_lang@ != "en"@ || self.translation.target_lang@ != "zh-CN"@ {
            Some(ConfigError::Languages)
        } else {
            None
        }
    }

    /// What the configuration breaks first.
    pub open spec fn fault(&self, bind_addr_parses: bool) -> Option<ConfigError> {
        if self.ai_fault() is Some {
            self.ai_fault()
        } else if self.discovery_fault() is Some {
            self.discovery_fault()
        } else if self.websub_fault(bind_addr_parses) is Some {
            self.websub_fault(bind_addr_parses)
        } else {
            self.bounds_fault()
        }
    }

    /// Refuses models and thinking levels other than the fixed ones.
    pub fn validate_ai_profile(&self) -> (r: Result<(), ConfigError>)
        ensures
            r == outcome(self.ai_fault()),
    {
        if same_text(self.ai.provider.as_str(), AI_PROVIDER) && same_text(
            self.ai.model.as_str(),
            AI_MODEL,
        ) && same_text(self.ai.translation_model.as_str(), AI_TRANSLATION_MODEL) && same_text(
            self.ai.thinking.as_str(),
            AI_THINKING,
        ) {
            Ok(())
        } else {
            Err(ConfigError::AiProfile)
        }
    }

    /// Checks the settings of discovery.
    pub fn validate_discovery(&self) -> (r: Result<(), ConfigError>)
        ensures
            r == outcome(self.discovery_fault()),
    {
        if !names_zone(self.runtime.timezone.as_str()) {
            return Err(ConfigError::Timezone);
        }
        if !(1 <= self.monitor.data_api_max_results && self.monitor.data_api_max_results <= 50) {
            return Err(ConfigError::DataApiMaxResults);
        }
        if !(1 <= self.monitor.prediction_window_minutes && self.monitor.prediction_window_minutes <= 1440) {
            return Err(ConfigError::PredictionWindow);
        }
        if self.monitor.prediction_hot_poll_seconds == 0 {
            return Err(ConfigError::PredictionHotPoll);
        }
        if self.monitor.prediction_cold_poll_minutes == 0 {
            return Err(ConfigError::PredictionColdPoll);
        }
        if self.monitor.prediction_fallback_poll_minutes == 0 {
            return Err(ConfigError::PredictionFallbackPoll);
        }
        if self.monitor.prediction_min_samples == 0 {
            return Err(ConfigError::PredictionMinSamples);
        }
        if self.monitor.reconcile_hours == 0 {
            return Err(ConfigError::ReconcileHours);
        }
        if self.monitor.reconcile_limit == 0 {
            return Err(ConfigError::ReconcileLimit);
        }
        if blank(self.translation.source_lang.as_str()) {
            return Err(ConfigError::SourceLanguageMissing);
        }
        Ok(())
    }

    /// Checks the settings of the callback. The caller tells whether `bind_addr` reads as an
    /// address and port.
    pub fn validate_websub(&self, bind_addr_parses: bool) -> (r: Result<(), ConfigError>)
        ensures
            r == outcome(self.websub_fault(bind_addr_parses)),
    {
        if !bind_addr_parses {
            return Err(ConfigError::BindAddr);
        }
        if self.websub.enabled && !starts_with(self.websub.callback_base_url.as_str(), "https://") {
            return Err(ConfigError::CallbackScheme);
        }
        if self.websub.enabled && self.websub.data_api_poll_minutes == 0 {
            return Err(ConfigError::WebSubPoll);
        }
        Ok(())
    }

    fn validate_bounds(&self) -> (r: Result<(), ConfigError>)
        ensures
            r == outcome(self.bounds_fault()),
    {
        if self.ai.segment_max_cues == 0 {
            return Err(ConfigError::SegmentMaxCues);
        }
        if self.ai.segment_overlap_cues >= self.ai.segment_max_cues {
            return Err(ConfigError::SegmentOverlap);
        }
        if self.ai.context_window_tokens == 0 {
            return Err(ConfigError::ContextWindow);
        }
        if self.ai.safe_context_tokens == 0 {
            return Err(ConfigError::SafeContext);
        }
        if self.ai.safe_context_tokens > self.ai.context_window_tokens {
            return Err(ConfigError::SafeContextTooLarge);
        }
        if (match self.ai.daily_token_limit { Some(n) => n <= 0, None => false }) {
            return Err(ConfigError::DailyTokenLimit);
        }
        if self.ai.translation_batch_cues == 0 {
            return Err(ConfigError::TranslationBatchCues);
        }
        if self.ai.translation_concurrency == 0 {
            return Err(ConfigError::TranslationConcurrency);
        }
        if self.ai.timeout_seconds == 0 {
            return Err(ConfigError::AiTimeout);
        }
        if self.ai.translation_batch_retries > MAX_TRANSLATION_BATCH_RETRIES {
            return Err(ConfigError::TranslationRetries);
        }
        if self.monitor.max_attempts == 0 {
            return Err(ConfigError::MaxAttempts);
        }
        if self.storage.warn_free_gib < self.storage.stop_free_gib {
            return Err(ConfigError::FreeSpace);
        }
        if !(match self.youtube.max_fps_milli { Some(n) => n > 0, None => false }) {
            return Err(ConfigError::MaxFps);
        }
        if self.youtube.max_pixels == 0 {
            return Err(ConfigError::MaxPixels);
        }
        if self.bilibili.submit_interval_seconds == 0 {
            return Err(ConfigError::SubmitInterval);
        }
        if blank(self.translation.target_lang.as_str()) {
            return Err(ConfigError::TargetLanguageMissing);
        }
        if !same_text(self.translation.source_lang.as_str(), "en") || !same_text(self.translation.target_lang.as_str(), "zh-CN") {
            return Err(ConfigError::Languages);
        }
        Ok(())
    }

    /// Checks the whole configuration and names the first rule that it breaks. The caller tells
    /// whether `bind_addr` reads as an address and port.
    pub fn validate(&self, bind_addr_parses: bool) -> (r: Result<(), ConfigError>)
        ensures
            r == outcome(self.fault(bind_addr_parses)),
    {
        match self.validate_ai_profile() {
            Err(e) => return Err(e),
            Ok(()) => {},
        }
        match self.validate_discovery() {
            Err(e) => return Err(e),
            Ok(()) => {},
        }
        match self.validate_websub(bind_addr_parses) {
            Err(e) => return Err(e),
            Ok(()) => {},
        }
        self.validate_bounds()
    }
}

impl Default for Config {
    fn default() -> (r: Self)
        ensures
            call_ensures(Config::under, (BASE_DIR,), r),
    {
        Config::under(BASE_DIR)
    }
}

/// A configuration that passes leaves room for its limits: windows of cues move on, the safe
/// context fits the whole one, and nothing that is divided by or waited for is zero.
pub proof fn valid_config_has_positive_limits(c: Config, bind_addr_parses: bool)
    requires
        c.fault(bind_addr_parses) is None,
    ensures
        0 <= c.ai.segment_overlap_cues < c.ai.segment_max_cues,
        0 < c.ai.safe_context_tokens <= c.ai.context_window_tokens,
        c.ai.translation_batch_cues > 0 && c.ai.translation_concurrency > 0,
        c.ai.timeout_seconds > 0 && c.ai.translation_batch_retries <= MAX_TRANSLATION_BATCH_RETRIES,
        c.monitor.max_attempts > 0 && c.monitor.prediction_hot_poll_seconds > 0,
        c.monitor.prediction_cold_poll_minutes > 0 && c.monitor.prediction_fallback_poll_minutes > 0,
        c.bilibili.submit_interval_seconds > 0 && c.youtube.max_pixels > 0,
        c.storage.stop_free_gib <= c.storage.warn_free_gib,
        c.websub.enabled ==> c.websub.data_api_poll_minutes > 0,
{
}

/// The defaults, below any base directory, pass wherever the default zone is one.
pub proof fn defaults_are_valid(c: Config, base: &str)
    requires
        call_ensures(Config::under, (base,), c),
        is_zone("Asia/Shanghai"@),
    ensures
        c.fault(true) is None,
{
    reveal_strlit("en");
    reveal_strlit("zh-CN");
    assert(!is_blank(c.translation.source_lang@)) by {
        assert("en"@.len() == 2 && "en"@[0] == 'e' && "en"@[1] == 'n');
        reveal_with_fuel(trim_front, 2);
        reveal_with_fuel(trim_back, 2);
    }
    assert(!is_blank(c.translation.target_lang@)) by {
        assert("zh-CN"@.len() == 5 && "zh-CN"@[0] == 'z' && "zh-CN"@[4] == 'N');
        reveal_with_fuel(trim_front, 2);
        reveal_with_fuel(trim_back, 2);
    }
}

/// A configuration passes if and only if every value is one that the service can work with.
pub proof fn sound_configurations_pass(c: Config, bind_addr_parses: bool)
    ensures
        c.fault(bind_addr_parses) is None <==> {
            &&& c.ai.provider@ == "deepseek"@ && c.ai.model@ == "deepseek-v4-flash"@
            &&& c.ai.translation_model@ == "deepseek-v4-pro"@ && c.ai.thinking@ == "off"@
            &&& is_zone(c.runtime.timezone@)
            &&& 1 <= c.monitor.data_api_max_results <= 50
            &&& 1 <= c.monitor.prediction_window_minutes <= 1_440
            &&& c.monitor.prediction_hot_poll_seconds > 0
            &&& c.monitor.prediction_cold_poll_minutes > 0
            &&& c.monitor.prediction_fallback_poll_minutes > 0
            &&& c.monitor.prediction_min_samples > 0 && c.monitor.reconcile_hours > 0
            &&& c.monitor.reconcile_limit > 0 && c.monitor.max_attempts > 0
            &&& trimmed(c.translation.source_lang@).len() > 0
            &&& trimmed(c.translation.target_lang@).len() > 0
            &&& c.translation.source_lang@ == "en"@ && c.translation.target_lang@ == "zh-CN"@
            &&& bind_addr_parses
            &&& c.websub.enabled ==> starts(c.websub.callback_base_url@, "https://"@)
                && c.websub.data_api_poll_minutes > 0
            &&& c.ai.segment_max_cues > 0 && c.ai.segment_overlap_cues < c.ai.segment_max_cues
            &&& c.ai.context_window_tokens > 0 && c.ai.safe_context_tokens > 0
            &&& c.ai.safe_context_tokens <= c.ai.context_window_tokens
            &&& c.ai.daily_token_limit is None || c.ai.daily_token_limit->Some_0 > 0
            &&& c.ai.translation_batch_cues > 0 && c.ai.translation_concurrency > 0
            &&& c.ai.timeout_seconds > 0 && c.ai.translation_batch_retries <= 10
            &&& c.storage.stop_free_gib <= c.storage.warn_free_gib
            &&& c.youtube.max_fps_milli is Some && c.youtube.max_fps_milli->Some_0 > 0
            &&& c.youtube.max_pixels > 0 && c.bilibili.submit_interval_seconds > 0
        },
{
}

/// A file below a directory is named behind one slash.
pub proof fn files_stand_below_their_directory(dir: Seq<char>, name: Seq<char>)
    requires
        dir.len() > 0,
    ensures
        dir.last() != '/' ==> below(dir, name) == dir.push('/') + name,
        dir.last() == '/' ==> below(dir, name) == dir + name,
{
    reveal_strlit("/");
    assert(dir + "/"@ + name =~= dir.push('/') + name);
}

} // verus!
