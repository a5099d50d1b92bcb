//! The tables that the service keeps its state in. Times are milliseconds since the Unix epoch.
use vstd::prelude::*;

use crate::model::{
    AiUsage, CandidateSource, ChannelPriority, GateState, JobStatus, PreparedUpload, TransferMode,
    VideoMetadata,
};
use crate::text::{copy_optional, opt_view, own_optional, same_optional, same_text, views};

verus! {

/// A stage that older versions kept in place of a status.
#[derive(Debug, Clone, Copy, PartialEq, Eq, Structural)]
pub enum LegacyStage {
    Downloading,
    Segmenting,
    Translating,
    Rendering,
}

impl LegacyStage {
    /// The stored text of a stage.
    pub open spec fn text(self) -> Seq<char> {
        match self {
            LegacyStage::Downloading => "downloading"@,
            LegacyStage::Segmenting => "segmenting"@,
            LegacyStage::Translating => "translating"@,
            LegacyStage::Rendering => "rendering"@,
        }
    }

    /// The stored text of a stage.
    pub fn as_str(self) -> (r: &'static str)
        ensures
            r@ == self.text(),
    {
        match self {
            LegacyStage::Downloading => "downloading",
            LegacyStage::Segmenting => "segmenting",
            LegacyStage::Translating => "translating",
            LegacyStage::Rendering => "rendering",
        }
    }

    /// A stage of a stored text; nothing where the text is none.
    pub fn from_text(s: &str) -> (r: Option<LegacyStage>)
        ensures
            r matches Some(x) ==> x.text() == s@,
            r is None ==> forall|x: LegacyStage| (#[trigger] x.text()) != s@,
    {
        if same_text(s, "downloading") {
            Some(LegacyStage::Downloading)
        } else if same_text(s, "segmenting") {
            Some(LegacyStage::Segmenting)
        } else if same_text(s, "translating") {
            Some(LegacyStage::Translating)
        } else if same_text(s, "rendering") {
            Some(LegacyStage::Rendering)
        } else {
            None
        }
    }
}

/// What became of a submission.
#[derive(Debug, Clone, Copy, PartialEq, Eq, Structural)]
pub enum UploadState {
    Running,
    Succeeded,
    Failed,
    Uncertain,
    Reconciled,
}

impl UploadState {
    /// The stored text of a submission state.
    pub open spec fn text(self) -> Seq<char> {
        match self {
            UploadState::Running => "running"@,
            UploadState::Succeeded => "succeeded"@,
            UploadState::Failed => "failed"@,
            UploadState::Uncertain => "uncertain"@,
            UploadState::Reconciled => "reconciled"@,
        }
    }

    /// The stored text of a submission state.
    pub fn as_str(self) -> (r: &'static str)
        ensures
            r@ == self.text(),
    {
        match self {
            UploadState::Running => "running",
            UploadState::Succeeded => "succeeded",
            UploadState::Failed => "failed",
            UploadState::Uncertain => "uncertain",
            UploadState::Reconciled => "reconciled",
        }
    }

    /// A submission state of a stored text; nothing where the text is none.
    pub fn from_text(s: &str) -> (r: Option<UploadState>)
        ensures
            r matches Some(x) ==> x.text() == s@,
            r is None ==> forall|x: UploadState| (#[trigger] x.text()) != s@,
    {
        if same_text(s, "running") {
            Some(UploadState::Running)
        } else if same_text(s, "succeeded") {
            Some(UploadState::Succeeded)
        } else if same_text(s, "failed") {
            Some(UploadState::Failed)
        } else if same_text(s, "uncertain") {
            Some(UploadState::Uncertain)
        } else if same_text(s, "reconciled") {
            Some(UploadState::Reconciled)
        } else {
            None
        }
    }
}

/// What became of the submission of a subtitle.
#[derive(Debug, Clone, Copy, PartialEq, Eq, Structural)]
pub enum SubtitleState {
    Started,
    Rejected,
    Uncertain,
    Confirmed,
    Reconciled,
}

impl SubtitleState {
    /// The stored text of a subtitle state.
    pub open spec fn text(self) -> Seq<char> {
        match self {
            SubtitleState::Started => "started"@,
            SubtitleState::Rejected => "rejected"@,
            SubtitleState::Uncertain => "uncertain"@,
            SubtitleState::Confirmed => "confirmed"@,
            SubtitleState::Reconciled => "reconciled"@,
        }
    }

    /// The stored text of a subtitle state.
    pub fn as_str(self) -> (r: &'static str)
        ensures
            r@ == self.text(),
    {
        match self {
            SubtitleState::Started => "started",
            SubtitleState::Rejected => "rejected",
            SubtitleState::Uncertain => "uncertain",
            SubtitleState::Confirmed => "confirmed",
            SubtitleState::Reconciled => "reconciled",
        }
    }

    /// A subtitle state of a stored text; nothing where the text is none.
    pub fn from_text(s: &str) -> (r: Option<SubtitleState>)
        ensures
            r matches Some(x) ==> x.text() == s@,
            r is None ==> forall|x: SubtitleState| (#[trigger] x.text()) != s@,
    {
        if same_text(s, "started") {
            Some(SubtitleState::Started)
        } else if same_text(s, "rejected") {
            Some(SubtitleState::Rejected)
        } else if same_text(s, "uncertain") {
            Some(SubtitleState::Uncertain)
        } else if same_text(s, "confirmed") {
            Some(SubtitleState::Confirmed)
        } else if same_text(s, "reconciled") {
            Some(SubtitleState::Reconciled)
        } else {
            None
        }
    }
}

/// What was done with the lock.
#[derive(Debug, Clone, Copy, PartialEq, Eq, Structural)]
pub enum HoldAction {
    Acquired,
    TakenOver,
    Renewed,
    Released,
}

impl HoldAction {
    /// The stored text of an action.
    pub open spec fn text(self) -> Seq<char> {
        match self {
            HoldAction::Acquired => "acquired"@,
            HoldAction::TakenOver => "taken_over"@,
            HoldAction::Renewed => "renewed"@,
            HoldAction::Released => "released"@,
        }
    }

    /// The stored text of an action.
    pub fn as_str(self) -> (r: &'static str)
        ensures
            r@ == self.text(),
    {
        match self {
            HoldAction::Acquired => "acquired",
            HoldAction::TakenOver => "taken_over",
            HoldAction::Renewed => "renewed",
            HoldAction::Released => "released",
        }
    }

    /// An action of a stored text; nothing where the text is none.
    pub fn from_text(s: &str) -> (r: Option<HoldAction>)
        ensures
            r matches Some(x) ==> x.text() == s@,
            r is None ==> forall|x: HoldAction| (#[trigger] x.text()) != s@,
    {
        if same_text(s, "acquired") {
            Some(HoldAction::Acquired)
        } else if same_text(s, "taken_over") {
            Some(HoldAction::TakenOver)
        } else if same_text(s, "renewed") {
            Some(HoldAction::Renewed)
        } else if same_text(s, "released") {
            Some(HoldAction::Released)
        } else {
            None
        }
    }
}

/// A video on its way to Bilibili.
#[derive(Debug)]
pub struct Job {
    pub id: String,
    pub channel_id: Option<i64>,
    pub video_id: String,
    pub url: String,
    pub title: Option<String>,
    pub status: JobStatus,
    pub transfer_mode: TransferMode,
    pub published_at: Option<i64>,
    pub youtube_updated_at: Option<i64>,
    pub discovered_at: i64,
    pub is_short: bool,
    pub duration_ms: Option<u64>,
    pub width: Option<i64>,
    pub height: Option<i64>,
    pub bvid: Option<String>,
    pub provider: Option<String>,
    pub ai_model: Option<String>,
    pub thinking: Option<String>,
    pub attempt: i64,
    pub error: Option<String>,
    /// How often adding the subtitle was tried; counted apart from `attempt`.
    pub subtitle_attempt: i64,
}

/// What a job holds.
#[verifier::ext_equal]
pub struct JobModel {
    pub id: Seq<char>,
    pub channel_id: Option<i64>,
    pub video_id: Seq<char>,
    pub url: Seq<char>,
    pub title: Option<Seq<char>>,
    pub status: JobStatus,
    pub transfer_mode: TransferMode,
    pub published_at: Option<i64>,
    pub youtube_updated_at: Option<i64>,
    pub discovered_at: i64,
    pub is_short: bool,
    pub duration_ms: Option<u64>,
    pub width: Option<i64>,
    pub height: Option<i64>,
    pub bvid: Option<Seq<char>>,
    pub provider: Option<Seq<char>>,
    pub ai_model: Option<Seq<char>>,
    pub thinking: Option<Seq<char>>,
    pub attempt: i64,
    pub error: Option<Seq<char>>,
    pub subtitle_attempt: i64,
}

impl Job {
    /// What the row holds.
    pub open spec fn view(&self) -> JobModel {
        JobModel {
            id: self.id@,
            channel_id: self.channel_id,
            video_id: self.video_id@,
            url: self.url@,
            title: opt_view(self.title),
            status: self.status,
            transfer_mode: self.transfer_mode,
            published_at: self.published_at,
            youtube_updated_at: self.youtube_updated_at,
            discovered_at: self.discovered_at,
            is_short: self.is_short,
            duration_ms: self.duration_ms,
            width: self.width,
            height: self.height,
            bvid: opt_view(self.bvid),
            provider: opt_view(self.provider),
            ai_model: opt_view(self.ai_model),
            thinking: opt_view(self.thinking),
            attempt: self.attempt,
            error: opt_view(self.error),
            subtitle_attempt: self.subtitle_attempt,
        }
    }

    /// A copy of the row.
    pub fn copied(&self) -> (r: Self)
        ensures
            r@ == self@,
    {
        Job {
            id: self.id.clone(),
            channel_id: self.channel_id,
            video_id: self.video_id.clone(),
            url: self.url.clone(),
            title: copy_optional(&self.title),
            status: self.status,
            transfer_mode: self.transfer_mode,
            published_at: self.published_at,
            youtube_updated_at: self.youtube_updated_at,
            discovered_at: self.discovered_at,
            is_short: self.is_short,
            duration_ms: self.duration_ms,
            width: self.width,
            height: self.height,
            bvid: copy_optional(&self.bvid),
            provider: copy_optional(&self.provider),
            ai_model: copy_optional(&self.ai_model),
            thinking: copy_optional(&self.thinking),
            attempt: self.attempt,
            error: copy_optional(&self.error),
            subtitle_attempt: self.subtitle_attempt,
        }
    }
}

/// A row of the table of jobs.
#[derive(Debug)]
pub struct JobRow {
    pub job: Job,
    /// A stage that older rows name in place of a status; it hides the status of `job`.
    pub legacy: Option<LegacyStage>,
    /// When the next try may start; nothing in rows of an older layout.
    pub retry_at: Option<i64>,
    pub subtitle_retry_at: Option<i64>,
    pub claim_kind: Option<String>,
    pub claim_owner: Option<String>,
    pub claim_expires_at: Option<i64>,
    pub raw_video_path: Option<String>,
    pub rendered_path: Option<String>,
    pub subtitle_path: Option<String>,
    pub prepared_upload: Option<PreparedUpload>,
    pub source_metadata: Option<VideoMetadata>,
    pub created_at: i64,
    pub updated_at: i64,
}

/// What a row of the table of jobs holds.
#[verifier::ext_equal]
pub struct RowModel {
    pub job: JobModel,
    pub legacy: Option<LegacyStage>,
    pub retry_at: Option<i64>,
    pub subtitle_retry_at: Option<i64>,
    pub claim_kind: Option<Seq<char>>,
    pub claim_owner: Option<Seq<char>>,
    pub claim_expires_at: Option<i64>,
    pub raw_video_path: Option<Seq<char>>,
    pub rendered_path: Option<Seq<char>>,
    pub subtitle_path: Option<Seq<char>>,
    pub prepared_upload: Option<PreparedUpload>,
    pub source_metadata: Option<VideoMetadata>,
    pub created_at: i64,
    pub updated_at: i64,
}

impl JobRow {
    /// What the row holds.
    pub open spec fn view(&self) -> RowModel {
        RowModel {
            job: self.job@,
            legacy: self.legacy,
            retry_at: self.retry_at,
            subtitle_retry_at: self.subtitle_retry_at,
            claim_kind: opt_view(self.claim_kind),
            claim_owner: opt_view(self.claim_owner),
            claim_expires_at: self.claim_expires_at,
            raw_video_path: opt_view(self.raw_video_path),
            rendered_path: opt_view(self.rendered_path),
            subtitle_path: opt_view(self.subtitle_path),
            prepared_upload: self.prepared_upload,
            source_metadata: self.source_metadata,
            created_at: self.created_at,
            updated_at: self.updated_at,
        }
    }
}

/// A channel that is watched.
#[derive(Debug)]
pub struct Channel {
    pub id: i64,
    pub youtube_channel_id: String,
    pub name: String,
    pub url: String,
    pub enabled: bool,
    pub transfer_mode: TransferMode,
    pub priority: ChannelPriority,
    pub last_checked_at: Option<i64>,
    pub last_error: Option<String>,
    pub next_poll_at: Option<i64>,
    pub consecutive_failures: u32,
    pub uploads_playlist_id: Option<String>,
    pub next_data_api_poll_at: Option<i64>,
    pub data_api_etag: Option<String>,
    pub websub_lease_expires_at: Option<i64>,
    pub websub_last_received_at: Option<i64>,
}

/// What a channel holds.
#[verifier::ext_equal]
pub struct ChannelModel {
    pub id: i64,
    pub youtube_channel_id: Seq<char>,
    pub name: Seq<char>,
    pub url: Seq<char>,
    pub enabled: bool,
    pub transfer_mode: TransferMode,
    pub priority: ChannelPriority,
    pub last_checked_at: Option<i64>,
    pub last_error: Option<Seq<char>>,
    pub next_poll_at: Option<i64>,
    pub consecutive_failures: u32,
    pub uploads_playlist_id: Option<Seq<char>>,
    pub next_data_api_poll_at: Option<i64>,
    pub data_api_etag: Option<Seq<char>>,
    pub websub_lease_expires_at: Option<i64>,
    pub websub_last_received_at: Option<i64>,
}

impl Channel {
    /// What the row holds.
    pub open spec fn view(&self) -> ChannelModel {
        ChannelModel {
            id: self.id,
            youtube_channel_id: self.youtube_channel_id@,
            name: self.name@,
            url: self.url@,
            enabled: self.enabled,
            transfer_mode: self.transfer_mode,
            priority: self.priority,
            last_checked_at: self.last_checked_at,
            last_error: opt_view(self.last_error),
            next_poll_at: self.next_poll_at,
            consecutive_failures: self.consecutive_failures,
            uploads_playlist_id: opt_view(self.uploads_playlist_id),
            next_data_api_poll_at: self.next_data_api_poll_at,
            data_api_etag: opt_view(self.data_api_etag),
            websub_lease_expires_at: self.websub_lease_expires_at,
            websub_last_received_at: self.websub_last_received_at,
        }
    }

    /// A copy of the row.
    pub fn copied(&self) -> (r: Self)
        ensures
            r@ == self@,
    {
        Channel {
            id: self.id,
            youtube_channel_id: self.youtube_channel_id.clone(),
            name: self.name.clone(),
            url: self.url.clone(),
            enabled: self.enabled,
            transfer_mode: self.transfer_mode,
            priority: self.priority,
            last_checked_at: self.last_checked_at,
            last_error: copy_optional(&self.last_error),
            next_poll_at: self.next_poll_at,
            consecutive_failures: self.consecutive_failures,
            uploads_playlist_id: copy_optional(&self.uploads_playlist_id),
            next_data_api_poll_at: self.next_data_api_poll_at,
            data_api_etag: copy_optional(&self.data_api_etag),
            websub_lease_expires_at: self.websub_lease_expires_at,
            websub_last_received_at: self.websub_last_received_at,
        }
    }
}

/// A row of the table of channels.
#[derive(Debug)]
pub struct ChannelRow {
    pub channel: Channel,
    pub feed_url: String,
    /// Videos up to this time are history and not carried over.
    pub baseline_at: Option<i64>,
    pub last_reconcile_at: Option<i64>,
    pub created_at: i64,
    pub websub_secret: Option<String>,
    pub websub_callback_path: Option<String>,
}

/// What a row of the table of channels holds.
#[verifier::ext_equal]
pub struct ChannelRowModel {
    pub channel: ChannelModel,
    pub feed_url: Seq<char>,
    pub baseline_at: Option<i64>,
    pub last_reconcile_at: Option<i64>,
    pub created_at: i64,
    pub websub_secret: Option<Seq<char>>,
    pub websub_callback_path: Option<Seq<char>>,
}

impl ChannelRow {
    /// What the row holds.
    pub open spec fn view(&self) -> ChannelRowModel {
        ChannelRowModel {
            channel: self.channel@,
            feed_url: self.feed_url@,
            baseline_at: self.baseline_at,
            last_reconcile_at: self.last_reconcile_at,
            created_at: self.created_at,
            websub_secret: opt_view(self.websub_secret),
            websub_callback_path: opt_view(self.websub_callback_path),
        }
    }
}

/// A video that was found and waits in front of the queue.
#[derive(Debug)]
pub struct VideoCandidate {
    pub video_id: String,
    pub channel_id: Option<i64>,
    pub url: String,
    pub title: Option<String>,
    pub published_at: Option<i64>,
    pub source: CandidateSource,
    pub discovered_at: i64,
    pub gate_state: GateState,
    pub gate_attempts: i64,
    pub next_gate_at: Option<i64>,
    pub last_error: Option<String>,
    pub source_language: Option<String>,
    pub source_language_mismatch: bool,
}

/// What a candidate holds.
#[verifier::ext_equal]
pub struct CandidateModel {
    pub video_id: Seq<char>,
    pub channel_id: Option<i64>,
    pub url: Seq<char>,
    pub title: Option<Seq<char>>,
    pub published_at: Option<i64>,
    pub source: CandidateSource,
    pub discovered_at: i64,
    pub gate_state: GateState,
    pub gate_attempts: i64,
    pub next_gate_at: Option<i64>,
    pub last_error: Option<Seq<char>>,
    pub source_language: Option<Seq<char>>,
    pub source_language_mismatch: bool,
}

impl VideoCandidate {
    /// What the row holds.
    pub open spec fn view(&self) -> CandidateModel {
        CandidateModel {
            video_id: self.video_id@,
            channel_id: self.channel_id,
            url: self.url@,
            title: opt_view(self.title),
            published_at: self.published_at,
            source: self.source,
            discovered_at: self.discovered_at,
            gate_state: self.gate_state,
            gate_attempts: self.gate_attempts,
            next_gate_at: self.next_gate_at,
            last_error: opt_view(self.last_error),
            source_language: opt_view(self.source_language),
            source_language_mismatch: self.source_language_mismatch,
        }
    }

    /// A copy of the row.
    pub fn copied(&self) -> (r: Self)
        ensures
            r@ == self@,
    {
        VideoCandidate {
            video_id: self.video_id.clone(),
            channel_id: self.channel_id,
            url: self.url.clone(),
            title: copy_optional(&self.title),
            published_at: self.published_at,
            source: self.source,
            discovered_at: self.discovered_at,
            gate_state: self.gate_state,
            gate_attempts: self.gate_attempts,
            next_gate_at: self.next_gate_at,
            last_error: copy_optional(&self.last_error),
            source_language: copy_optional(&self.source_language),
            source_language_mismatch: self.source_language_mismatch,
        }
    }
}

/// A call that submits a video.
#[derive(Debug)]
pub struct UploadAttempt {
    pub id: String,
    pub job_id: String,
    pub status: UploadState,
    pub bvid: Option<String>,
    pub detail: Option<String>,
    pub started_at: i64,
    pub finished_at: Option<i64>,
}

/// What a submission attempt holds.
#[verifier::ext_equal]
pub struct UploadModel {
    pub id: Seq<char>,
    pub job_id: Seq<char>,
    pub status: UploadState,
    pub bvid: Option<Seq<char>>,
    pub detail: Option<Seq<char>>,
    pub started_at: i64,
    pub finished_at: Option<i64>,
}

impl UploadAttempt {
    /// What the row holds.
    pub open spec fn view(&self) -> UploadModel {
        UploadModel {
            id: self.id@,
            job_id: self.job_id@,
            status: self.status,
            bvid: opt_view(self.bvid),
            detail: opt_view(self.detail),
            started_at: self.started_at,
            finished_at: self.finished_at,
        }
    }

    /// A copy of the row.
    pub fn copied(&self) -> (r: Self)
        ensures
            r@ == self@,
    {
        UploadAttempt {
            id: self.id.clone(),
            job_id: self.job_id.clone(),
            status: self.status,
            bvid: copy_optional(&self.bvid),
            detail: copy_optional(&self.detail),
            started_at: self.started_at,
            finished_at: self.finished_at,
        }
    }
}

/// A call that submits a subtitle.
#[derive(Debug)]
pub struct SubtitleRow {
    pub id: String,
    pub job_id: String,
    pub bvid: String,
    pub status: SubtitleState,
    pub detail: Option<String>,
    pub started_at: i64,
    pub finished_at: Option<i64>,
}

/// What a subtitle attempt holds.
#[verifier::ext_equal]
pub struct SubtitleModel {
    pub id: Seq<char>,
    pub job_id: Seq<char>,
    pub bvid: Seq<char>,
    pub status: SubtitleState,
    pub detail: Option<Seq<char>>,
    pub started_at: i64,
    pub finished_at: Option<i64>,
}

impl SubtitleRow {
    /// What the row holds.
    pub open spec fn view(&self) -> SubtitleModel {
        SubtitleModel {
            id: self.id@,
            job_id: self.job_id@,
            bvid: self.bvid@,
            status: self.status,
            detail: opt_view(self.detail),
            started_at: self.started_at,
            finished_at: self.finished_at,
        }
    }

    /// A copy of the row.
    pub fn copied(&self) -> (r: Self)
        ensures
            r@ == self@,
    {
        SubtitleRow {
            id: self.id.clone(),
            job_id: self.job_id.clone(),
            bvid: self.bvid.clone(),
            status: self.status,
            detail: copy_optional(&self.detail),
            started_at: self.started_at,
            finished_at: self.finished_at,
        }
    }
}

/// One run of a stage of a job.
#[derive(Debug)]
pub struct StageRun {
    pub id: i64,
    pub job_id: String,
    pub stage: String,
    pub status: String,
    pub started_at: i64,
    pub finished_at: Option<i64>,
    pub duration_ms: Option<i64>,
    pub peak_rss_kib: Option<i64>,
    pub provider: Option<String>,
    pub model: Option<String>,
    pub thinking: Option<String>,
    pub detail: Option<String>,
}

/// What a run of a stage holds.
#[verifier::ext_equal]
pub struct StageModel {
    pub id: i64,
    pub job_id: Seq<char>,
    pub stage: Seq<char>,
    pub status: Seq<char>,
    pub started_at: i64,
    pub finished_at: Option<i64>,
    pub duration_ms: Option<i64>,
    pub peak_rss_kib: Option<i64>,
    pub provider: Option<Seq<char>>,
    pub model: Option<Seq<char>>,
    pub thinking: Option<Seq<char>>,
    pub detail: Option<Seq<char>>,
}

impl StageRun {
    /// What the row holds.
    pub open spec fn view(&self) -> StageModel {
        StageModel {
            id: self.id,
            job_id: self.job_id@,
            stage: self.stage@,
            status: self.status@,
            started_at: self.started_at,
            finished_at: self.finished_at,
            duration_ms: self.duration_ms,
            peak_rss_kib: self.peak_rss_kib,
            provider: opt_view(self.provider),
            model: opt_view(self.model),
            thinking: opt_view(self.thinking),
            detail: opt_view(self.detail),
        }
    }

    /// A copy of the row.
    pub fn copied(&self) -> (r: Self)
        ensures
            r@ == self@,
    {
        StageRun {
            id: self.id,
            job_id: self.job_id.clone(),
            stage: self.stage.clone(),
            status: self.status.clone(),
            started_at: self.started_at,
            finished_at: self.finished_at,
            duration_ms: self.duration_ms,
            peak_rss_kib: self.peak_rss_kib,
            provider: copy_optional(&self.provider),
            model: copy_optional(&self.model),
            thinking: copy_optional(&self.thinking),
            detail: copy_optional(&self.detail),
        }
    }
}

/// One call of a language model.
#[derive(Debug)]
pub struct AiCall {
    pub id: i64,
    pub job_id: String,
    pub stage_run_id: Option<i64>,
    pub task: String,
    pub provider: String,
    pub model: String,
    pub thinking: String,
    pub status: String,
    pub error: Option<String>,
    pub usage: AiUsage,
    pub duration_ms: Option<i64>,
    pub input_json: Option<String>,
    pub output_json: Option<String>,
    pub created_at: i64,
    pub finished_at: Option<i64>,
}

/// What a call of a model holds.
#[verifier::ext_equal]
pub struct CallModel {
    pub id: i64,
    pub job_id: Seq<char>,
    pub stage_run_id: Option<i64>,
    pub task: Seq<char>,
    pub provider: Seq<char>,
    pub model: Seq<char>,
    pub thinking: Seq<char>,
    pub status: Seq<char>,
    pub error: Option<Seq<char>>,
    pub usage: AiUsage,
    pub duration_ms: Option<i64>,
    pub input_json: Option<Seq<char>>,
    pub output_json: Option<Seq<char>>,
    pub created_at: i64,
    pub finished_at: Option<i64>,
}

impl AiCall {
    /// What the row holds.
    pub open spec fn view(&self) -> CallModel {
        CallModel {
            id: self.id,
            job_id: self.job_id@,
            stage_run_id: self.stage_run_id,
            task: self.task@,
            provider: self.provider@,
            model: self.model@,
            thinking: self.thinking@,
            status: self.status@,
            error: opt_view(self.error),
            usage: self.usage,
            duration_ms: self.duration_ms,
            input_json: opt_view(self.input_json),
            output_json: opt_view(self.output_json),
            created_at: self.created_at,
            finished_at: self.finished_at,
        }
    }
}

/// What the removed calls of a job used.
#[derive(Debug)]
pub struct UsageRollup {
    pub job_id: String,
    pub usage: AiUsage,
    pub updated_at: i64,
}

/// What a rollup holds.
#[verifier::ext_equal]
pub struct RollupModel {
    pub job_id: Seq<char>,
    pub usage: AiUsage,
    pub updated_at: i64,
}

impl UsageRollup {
    /// What the row holds.
    pub open spec fn view(&self) -> RollupModel {
        RollupModel {
            job_id: self.job_id@,
            usage: self.usage,
            updated_at: self.updated_at,
        }
    }
}

/// A line of the log that is kept with the jobs.
#[derive(Debug)]
pub struct Event {
    pub id: i64,
    pub job_id: Option<String>,
    pub level: String,
    pub message: String,
    pub created_at: i64,
}

/// What an event holds.
#[verifier::ext_equal]
pub struct EventModel {
    pub id: i64,
    pub job_id: Option<Seq<char>>,
    pub level: Seq<char>,
    pub message: Seq<char>,
    pub created_at: i64,
}

impl Event {
    /// What the row holds.
    pub open spec fn view(&self) -> EventModel {
        EventModel {
            id: self.id,
            job_id: opt_view(self.job_id),
            level: self.level@,
            message: self.message@,
            created_at: self.created_at,
        }
    }
}

/// A named value.
#[derive(Debug)]
pub struct Setting {
    pub key: String,
    pub value: String,
    pub updated_at: i64,
}

/// What a setting holds.
#[verifier::ext_equal]
pub struct SettingModel {
    pub key: Seq<char>,
    pub value: Seq<char>,
    pub updated_at: i64,
}

impl Setting {
    /// What the row holds.
    pub open spec fn view(&self) -> SettingModel {
        SettingModel {
            key: self.key@,
            value: self.value@,
            updated_at: self.updated_at,
        }
    }
}

/// A named value of discovery.
#[derive(Debug)]
pub struct StateValue {
    pub key: String,
    pub value: String,
}

/// What a named value of discovery holds.
#[verifier::ext_equal]
pub struct StateModel {
    pub key: Seq<char>,
    pub value: Seq<char>,
}

impl StateValue {
    /// What the row holds.
    pub open spec fn view(&self) -> StateModel {
        StateModel {
            key: self.key@,
            value: self.value@,
        }
    }
}

/// A video that was refused for its length.
#[derive(Debug)]
pub struct OverDurationVideo {
    pub video_id: String,
    pub channel_id: Option<i64>,
    /// The limit at that time.
    pub limit_seconds: u64,
    pub detail: Option<String>,
    pub created_at: i64,
    pub updated_at: i64,
}

/// What is kept of a video that was refused for its length.
#[verifier::ext_equal]
pub struct OverDurationModel {
    pub video_id: Seq<char>,
    pub channel_id: Option<i64>,
    pub limit_seconds: u64,
    pub detail: Option<Seq<char>>,
    pub created_at: i64,
    pub updated_at: i64,
}

impl OverDurationVideo {
    /// What the row holds.
    pub open spec fn view(&self) -> OverDurationModel {
        OverDurationModel {
            video_id: self.video_id@,
            channel_id: self.channel_id,
            limit_seconds: self.limit_seconds,
            detail: opt_view(self.detail),
            created_at: self.created_at,
            updated_at: self.updated_at,
        }
    }
}

/// The title and tags of a job.
#[derive(Debug)]
pub struct PublicationRow {
    pub job_id: String,
    pub title: String,
    pub dynamic: String,
    pub tags: Vec<String>,
    pub tid: i64,
    pub raw_json: String,
    pub created_at: i64,
    pub updated_at: i64,
}

/// What is kept of the title and tags of a job.
#[verifier::ext_equal]
pub struct PublicationRowModel {
    pub job_id: Seq<char>,
    pub title: Seq<char>,
    pub dynamic: Seq<char>,
    pub tags: Seq<Seq<char>>,
    pub tid: i64,
    pub raw_json: Seq<char>,
    pub created_at: i64,
    pub updated_at: i64,
}

impl PublicationRow {
    /// What the row holds.
    pub open spec fn view(&self) -> PublicationRowModel {
        PublicationRowModel {
            job_id: self.job_id@,
            title: self.title@,
            dynamic: self.dynamic@,
            tags: views(self.tags@),
            tid: self.tid,
            raw_json: self.raw_json@,
            created_at: self.created_at,
            updated_at: self.updated_at,
        }
    }
}

/// The lock that keeps new work from being claimed. It does not take back work that was.
#[derive(Debug)]
pub struct MaintenanceHold {
    pub owner: String,
    pub reason: String,
    pub acquired_at: i64,
    pub heartbeat_at: i64,
    pub expires_at: i64,
}

/// What the lock holds.
#[verifier::ext_equal]
pub struct HoldModel {
    pub owner: Seq<char>,
    pub reason: Seq<char>,
    pub acquired_at: i64,
    pub heartbeat_at: i64,
    pub expires_at: i64,
}

impl MaintenanceHold {
    /// What the row holds.
    pub open spec fn view(&self) -> HoldModel {
        HoldModel {
            owner: self.owner@,
            reason: self.reason@,
            acquired_at: self.acquired_at,
            heartbeat_at: self.heartbeat_at,
            expires_at: self.expires_at,
        }
    }

    /// A copy of the row.
    pub fn copied(&self) -> (r: Self)
        ensures
            r@ == self@,
    {
        MaintenanceHold {
            owner: self.owner.clone(),
            reason: self.reason.clone(),
            acquired_at: self.acquired_at,
            heartbeat_at: self.heartbeat_at,
            expires_at: self.expires_at,
        }
    }
}

/// What happened to the lock.
#[derive(Debug)]
pub struct MaintenanceHoldEvent {
    pub id: i64,
    pub action: HoldAction,
    pub owner: String,
    pub previous_owner: Option<String>,
    pub reason: String,
    pub previous_reason: Option<String>,
    pub occurred_at: i64,
    pub expires_at: Option<i64>,
}

/// What an entry of the history of the lock holds.
#[verifier::ext_equal]
pub struct HoldEventModel {
    pub id: i64,
    pub action: HoldAction,
    pub owner: Seq<char>,
    pub previous_owner: Option<Seq<char>>,
    pub reason: Seq<char>,
    pub previous_reason: Option<Seq<char>>,
    pub occurred_at: i64,
    pub expires_at: Option<i64>,
}

impl MaintenanceHoldEvent {
    /// What the row holds.
    pub open spec fn view(&self) -> HoldEventModel {
        HoldEventModel {
            id: self.id,
            action: self.action,
            owner: self.owner@,
            previous_owner: opt_view(self.previous_owner),
            reason: self.reason@,
            previous_reason: opt_view(self.previous_reason),
            occurred_at: self.occurred_at,
            expires_at: self.expires_at,
        }
    }

    /// A copy of the row.
    pub fn copied(&self) -> (r: Self)
        ensures
            r@ == self@,
    {
        MaintenanceHoldEvent {
            id: self.id,
            action: self.action,
            owner: self.owner.clone(),
            previous_owner: copy_optional(&self.previous_owner),
            reason: self.reason.clone(),
            previous_reason: copy_optional(&self.previous_reason),
            occurred_at: self.occurred_at,
            expires_at: self.expires_at,
        }
    }
}

/// All tables, and who this process claims work as. The numbers that end in `_seq` are the
/// largest that a row of the table was ever given.
#[derive(Debug)]
pub struct Database {
    pub jobs: Vec<JobRow>,
    pub channels: Vec<ChannelRow>,
    pub candidates: Vec<VideoCandidate>,
    pub uploads: Vec<UploadAttempt>,
    pub subtitles: Vec<SubtitleRow>,
    pub stages: Vec<StageRun>,
    pub calls: Vec<AiCall>,
    pub rollups: Vec<UsageRollup>,
    pub events: Vec<Event>,
    pub settings: Vec<Setting>,
    pub discovery: Vec<StateValue>,
    pub over_duration: Vec<OverDurationVideo>,
    pub publications: Vec<PublicationRow>,
    pub hold_events: Vec<MaintenanceHoldEvent>,
    pub hold: Option<MaintenanceHold>,
    pub channel_seq: i64,
    pub stage_seq: i64,
    pub call_seq: i64,
    pub event_seq: i64,
    pub hold_event_seq: i64,
    pub claim_owner: String,
}

/// What the tables hold.
#[verifier::ext_equal]
pub struct DbModel {
    pub jobs: Seq<RowModel>,
    pub channels: Seq<ChannelRowModel>,
    pub candidates: Seq<CandidateModel>,
    pub uploads: Seq<UploadModel>,
    pub subtitles: Seq<SubtitleModel>,
    pub stages: Seq<StageModel>,
    pub calls: Seq<CallModel>,
    pub rollups: Seq<RollupModel>,
    pub events: Seq<EventModel>,
    pub settings: Seq<SettingModel>,
    pub discovery: Seq<StateModel>,
    pub over_duration: Seq<OverDurationModel>,
    pub publications: Seq<PublicationRowModel>,
    pub hold_events: Seq<HoldEventModel>,
    pub hold: Option<HoldModel>,
    pub channel_seq: i64,
    pub stage_seq: i64,
    pub call_seq: i64,
    pub event_seq: i64,
    pub hold_event_seq: i64,
    pub claim_owner: Seq<char>,
}

/// What an optional lock holds.
pub open spec fn hold_view(h: Option<MaintenanceHold>) -> Option<HoldModel> {
    match h {
        Some(x) => Some(x@),
        None => None,
    }
}

impl Database {
    /// What the tables hold.
    pub open spec fn view(&self) -> DbModel {
        DbModel {
            jobs: self.jobs@.map_values(|r: JobRow| r@),
            channels: self.channels@.map_values(|r: ChannelRow| r@),
            candidates: self.candidates@.map_values(|r: VideoCandidate| r@),
            uploads: self.uploads@.map_values(|r: UploadAttempt| r@),
            subtitles: self.subtitles@.map_values(|r: SubtitleRow| r@),
            stages: self.stages@.map_values(|r: StageRun| r@),
            calls: self.calls@.map_values(|r: AiCall| r@),
            rollups: self.rollups@.map_values(|r: UsageRollup| r@),
            events: self.events@.map_values(|r: Event| r@),
            settings: self.settings@.map_values(|r: Setting| r@),
            discovery: self.discovery@.map_values(|r: StateValue| r@),
            over_duration: self.over_duration@.map_values(|r: OverDurationVideo| r@),
            publications: self.publications@.map_values(|r: PublicationRow| r@),
            hold_events: self.hold_events@.map_values(|r: MaintenanceHoldEvent| r@),
            hold: hold_view(self.hold),
            channel_seq: self.channel_seq,
            stage_seq: self.stage_seq,
            call_seq: self.call_seq,
            event_seq: self.event_seq,
            hold_event_seq: self.hold_event_seq,
            claim_owner: self.claim_owner@,
        }
    }

    /// Empty tables of a process that claims work under a name.
    pub fn new(claim_owner: &str) -> (r: Self)
        ensures
            r@ == DbModel::empty(claim_owner@),
            r@.wf(),
    {
        Database {
            jobs: Vec::new(),
            channels: Vec::new(),
            candidates: Vec::new(),
            uploads: Vec::new(),
            subtitles: Vec::new(),
            stages: Vec::new(),
            calls: Vec::new(),
            rollups: Vec::new(),
            events: Vec::new(),
            settings: Vec::new(),
            discovery: Vec::new(),
            over_duration: Vec::new(),
            publications: Vec::new(),
            hold_events: Vec::new(),
            hold: None,
            channel_seq: 0,
            stage_seq: 0,
            call_seq: 0,
            event_seq: 0,
            hold_event_seq: 0,
            claim_owner: claim_owner.to_owned(),
        }
    }
}

impl DbModel {
    /// Empty tables.
    pub open spec fn empty(claim_owner: Seq<char>) -> DbModel {
        DbModel {
            jobs: Seq::empty(),
            channels: Seq::empty(),
            candidates: Seq::empty(),
            uploads: Seq::empty(),
            subtitles: Seq::empty(),
            stages: Seq::empty(),
            calls: Seq::empty(),
            rollups: Seq::empty(),
            events: Seq::empty(),
            settings: Seq::empty(),
            discovery: Seq::empty(),
            over_duration: Seq::empty(),
            publications: Seq::empty(),
            hold_events: Seq::empty(),
            hold: None,
            channel_seq: 0,
            stage_seq: 0,
            call_seq: 0,
            event_seq: 0,
            hold_event_seq: 0,
            claim_owner,
        }
    }
}

/// Whether `k` is the first place where `p` holds.
pub open spec fn is_first<A>(s: Seq<A>, p: spec_fn(A) -> bool, k: int) -> bool {
    &&& 0 <= k < s.len()
    &&& p(s[k])
    &&& forall|j: int| 0 <= j < k ==> !p(#[trigger] s[j])
}

/// The first place where `p` holds.
pub open spec fn place<A>(s: Seq<A>, p: spec_fn(A) -> bool) -> Option<int> {
    if exists|k: int| is_first(s, p, k) {
        Some(choose|k: int| is_first(s, p, k))
    } else {
        None
    }
}

/// A first place is the one that `place` names.
pub proof fn place_is<A>(s: Seq<A>, p: spec_fn(A) -> bool, k: int)
    requires
        is_first(s, p, k),
    ensures
        place(s, p) == Some(k),
{
    let c = choose|c: int| is_first(s, p, c);
    assert(is_first(s, p, c));
    if c < k {
        assert(!p(s[c]));
    } else if k < c {
        assert(!p(s[k]));
    }
}

/// Where `p` holds nowhere there is no place.
pub proof fn place_is_none<A>(s: Seq<A>, p: spec_fn(A) -> bool)
    requires
        forall|j: int| 0 <= j < s.len() ==> !p(#[trigger] s[j]),
    ensures
        place(s, p) is None,
{
}

/// What a place means: `p` holds there first, or nowhere.
pub proof fn place_means<A>(s: Seq<A>, p: spec_fn(A) -> bool)
    ensures
        place(s, p) matches Some(k) ==> is_first(s, p, k),
        place(s, p) is None ==> forall|j: int| 0 <= j < s.len() ==> !p(#[trigger] s[j]),
{
    if forall|j: int| 0 <= j < s.len() ==> !p(#[trigger] s[j]) {
    } else {
        let j = choose|j: int| 0 <= j < s.len() && p(#[trigger] s[j]);
        first_up_to(s, p, j);
        let k = choose|k: int| is_first(s, p, k) && k <= j;
        assert(is_first(s, p, k));
    }
}

proof fn first_up_to<A>(s: Seq<A>, p: spec_fn(A) -> bool, j: int)
    requires
        0 <= j < s.len(),
        p(s[j]),
    ensures
        exists|k: int| is_first(s, p, k) && k <= j,
    decreases j,
{
    if forall|i: int| 0 <= i < j ==> !p(#[trigger] s[i]) {
        assert(is_first(s, p, j));
    } else {
        let i = choose|i: int| 0 <= i < j && p(#[trigger] s[i]);
        first_up_to(s, p, i);
        let k = choose|k: int| is_first(s, p, k) && k <= i;
        assert(is_first(s, p, k) && k <= j);
    }
}

impl RowModel {
    /// Whether the row is in a status.
    pub open spec fn is(self, status: JobStatus) -> bool {
        self.legacy is None && self.job.status == status
    }

    /// Whether the row is claimed for a kind of work under a name.
    pub open spec fn claimed(self, kind: Seq<char>, owner: Seq<char>) -> bool {
        self.claim_kind == Some(kind) && self.claim_owner == Some(owner)
    }

    /// Whether nobody holds the row.
    pub open spec fn claim_free(self, now: i64) -> bool {
        self.claim_owner is None || self.claim_expires_at is None || (self.claim_expires_at matches
            Some(t) && t <= now)
    }

    /// Whether no claim keeps the row from being recovered.
    pub open spec fn lease_over(self, now: i64) -> bool {
        self.claim_expires_at is None || (self.claim_expires_at matches Some(t) && t <= now)
    }

    /// The row with nobody holding it.
    pub open spec fn released(self) -> RowModel {
        RowModel { claim_kind: None, claim_owner: None, claim_expires_at: None, ..self }
    }

    /// The row in another status, at a time.
    pub open spec fn moved(self, status: JobStatus, error: Option<Seq<char>>, now: i64) -> RowModel {
        RowModel {
            job: JobModel { status, error, ..self.job },
            legacy: None,
            updated_at: now,
            ..self
        }
    }

    /// Whether the row has the number of a published video.
    pub open spec fn published(self) -> bool {
        self.job.bvid matches Some(b) && b.len() > 0
    }
}

impl JobRow {
    /// Whether the row is in a status.
    pub fn is(&self, status: JobStatus) -> (r: bool)
        ensures
            r == self@.is(status),
    {
        self.legacy.is_none() && self.job.status == status
    }

    /// Whether the row is claimed for a kind of work under a name.
    pub fn claimed(&self, kind: &str, owner: &str) -> (r: bool)
        ensures
            r == self@.claimed(kind@, owner@),
    {
        same_optional(&self.claim_kind, kind) && same_optional(&self.claim_owner, owner)
    }

    /// Whether nobody holds the row.
    pub fn claim_free(&self, now: i64) -> (r: bool)
        ensures
            r == self@.claim_free(now),
    {
        self.claim_owner.is_none() || self.lease_over(now)
    }

    /// Whether no claim keeps the row from being recovered.
    pub fn lease_over(&self, now: i64) -> (r: bool)
        ensures
            r == self@.lease_over(now),
    {
        match self.claim_expires_at {
            None => true,
            Some(t) => t <= now,
        }
    }

    /// Gives the row back.
    pub fn release(&mut self)
        ensures
            final(self)@ == old(self)@.released(),
    {
        self.claim_kind = None;
        self.claim_owner = None;
        self.claim_expires_at = None;
    }

    /// Puts the row into another status.
    pub fn move_to(&mut self, status: JobStatus, error: Option<&str>, now: i64)
        ensures
            final(self)@ == old(self)@.moved(
                status,
                match error {
                    Some(e) => Some(e@),
                    None => None,
                },
                now,
            ),
    {
        self.job.status = status;
        self.job.error = own_optional(error);
        self.legacy = None;
        self.updated_at = now;
    }

    /// Whether the row has the number of a published video.
    pub fn published(&self) -> (r: bool)
        ensures
            r == self@.published(),
    {
        match &self.job.bvid {
            Some(b) => !b.as_str().is_empty(),
            None => false,
        }
    }
}

/// Whether a subtitle attempt keeps another from being made.
pub open spec fn blocks(s: SubtitleState) -> bool {
    s != SubtitleState::Rejected
}

impl DbModel {
    /// Where the job of that name stands.
    pub open spec fn job_at(self, id: Seq<char>) -> Option<int> {
        place(self.jobs, |r: RowModel| r.job.id == id)
    }

    /// Where the job of that video stands.
    pub open spec fn video_at(self, video_id: Seq<char>) -> Option<int> {
        place(self.jobs, |r: RowModel| r.job.video_id == video_id)
    }

    /// Where the job of that published video stands.
    pub open spec fn bvid_at(self, bvid: Seq<char>) -> Option<int> {
        place(self.jobs, |r: RowModel| r.job.bvid == Some(bvid))
    }

    /// Where the channel of that number stands.
    pub open spec fn channel_at(self, id: i64) -> Option<int> {
        place(self.channels, |r: ChannelRowModel| r.channel.id == id)
    }

    /// Where the channel of that name on YouTube stands.
    pub open spec fn youtube_channel_at(self, youtube_id: Seq<char>) -> Option<int> {
        place(self.channels, |r: ChannelRowModel| r.channel.youtube_channel_id == youtube_id)
    }

    /// Where the candidate of that video stands.
    pub open spec fn candidate_at(self, video_id: Seq<char>) -> Option<int> {
        place(self.candidates, |r: CandidateModel| r.video_id == video_id)
    }

    /// Whether a job's channel is a preferred one.
    pub open spec fn preferred(self, channel_id: Option<i64>) -> bool {
        channel_id matches Some(c) && (self.channel_at(c) matches Some(k)
            && self.channels[k].channel.priority == ChannelPriority::Priority)
    }

    /// Whether the lock keeps work from being claimed.
    pub open spec fn held(self, now: i64) -> bool {
        self.hold matches Some(h) && h.expires_at > now
    }

    /// The tables with one job replaced.
    pub open spec fn with_job(self, k: int, row: RowModel) -> DbModel {
        DbModel { jobs: self.jobs.update(k, row), ..self }
    }

    /// The tables with one channel replaced.
    pub open spec fn with_channel(self, k: int, row: ChannelRowModel) -> DbModel {
        DbModel { channels: self.channels.update(k, row), ..self }
    }

    /// The tables with one candidate replaced.
    pub open spec fn with_candidate(self, k: int, row: CandidateModel) -> DbModel {
        DbModel { candidates: self.candidates.update(k, row), ..self }
    }

    /// Whether another job than the one at `k` has that published video.
    pub open spec fn bvid_taken(self, k: int, bvid: Seq<char>) -> bool {
        exists|j: int|
            0 <= j < self.jobs.len() && j != k && (#[trigger] self.jobs[j]).job.bvid == Some(bvid)
    }

    /// No two jobs have a name, a video or a published video in common.
    pub open spec fn jobs_wf(self) -> bool {
        forall|i: int, j: int|
            0 <= i < j < self.jobs.len() ==> {
                &&& (#[trigger] self.jobs[i]).job.id != (#[trigger] self.jobs[j]).job.id
                &&& self.jobs[i].job.video_id != self.jobs[j].job.video_id
                &&& self.jobs[i].job.bvid is Some ==> self.jobs[i].job.bvid
                    != self.jobs[j].job.bvid
            }
    }

    /// No two channels have a number or a name on YouTube in common, and no number is larger than
    /// the largest that was given.
    pub open spec fn channels_wf(self) -> bool {
        &&& forall|i: int, j: int|
            0 <= i < j < self.channels.len() ==> {
                &&& (#[trigger] self.channels[i]).channel.id != (
                #[trigger] self.channels[j]).channel.id
                &&& self.channels[i].channel.youtube_channel_id
                    != self.channels[j].channel.youtube_channel_id
            }
        &&& forall|i: int|
            0 <= i < self.channels.len() ==> (#[trigger] self.channels[i]).channel.id
                <= self.channel_seq
    }

    /// No two candidates are of the same video.
    pub open spec fn candidates_wf(self) -> bool {
        forall|i: int, j: int|
            0 <= i < j < self.candidates.len() ==> (#[trigger] self.candidates[i]).video_id != (
            #[trigger] self.candidates[j]).video_id
    }

    /// At most one subtitle attempt of a job keeps another from being made.
    pub open spec fn subtitles_wf(self) -> bool {
        forall|i: int, j: int|
            0 <= i < j < self.subtitles.len() && (#[trigger] self.subtitles[i]).job_id == (
            #[trigger] self.subtitles[j]).job_id ==> !(blocks(self.subtitles[i].status) && blocks(
                self.subtitles[j].status,
            ))
    }

    /// No two settings, and no two values of discovery, have the same key.
    pub open spec fn keys_wf(self) -> bool {
        &&& forall|i: int, j: int|
            0 <= i < j < self.settings.len() ==> (#[trigger] self.settings[i]).key != (
            #[trigger] self.settings[j]).key
        &&& forall|i: int, j: int|
            0 <= i < j < self.discovery.len() ==> (#[trigger] self.discovery[i]).key != (
            #[trigger] self.discovery[j]).key
    }

    /// A job has at most one rollup and one title, and a video is refused for its length once.
    pub open spec fn sides_wf(self) -> bool {
        &&& forall|i: int, j: int|
            0 <= i < j < self.rollups.len() ==> (#[trigger] self.rollups[i]).job_id != (
            #[trigger] self.rollups[j]).job_id
        &&& forall|i: int, j: int|
            0 <= i < j < self.publications.len() ==> (#[trigger] self.publications[i]).job_id != (
            #[trigger] self.publications[j]).job_id
        &&& forall|i: int, j: int|
            0 <= i < j < self.over_duration.len() ==> (#[trigger] self.over_duration[i]).video_id
                != (#[trigger] self.over_duration[j]).video_id
    }

    /// Numbers of runs and calls are unique and not larger than the largest that was given.
    pub open spec fn numbers_wf(self) -> bool {
        &&& forall|i: int, j: int|
            0 <= i < j < self.stages.len() ==> (#[trigger] self.stages[i]).id != (
            #[trigger] self.stages[j]).id
        &&& forall|i: int|
            0 <= i < self.stages.len() ==> (#[trigger] self.stages[i]).id <= self.stage_seq
        &&& forall|i: int, j: int|
            0 <= i < j < self.calls.len() ==> (#[trigger] self.calls[i]).id != (
            #[trigger] self.calls[j]).id
        &&& forall|i: int| 0 <= i < self.calls.len() ==> (#[trigger] self.calls[i]).id <= self.call_seq
    }

    /// What every operation keeps.
    pub open spec fn wf(self) -> bool {
        &&& self.jobs_wf()
        &&& self.channels_wf()
        &&& self.candidates_wf()
        &&& self.subtitles_wf()
        &&& self.keys_wf()
        &&& self.sides_wf()
        &&& self.numbers_wf()
    }
}

/// Replacing a job by one of the same name and video keeps the tables sound, where its published
/// video stays or is nobody else's.
pub proof fn job_update_keeps_wf(db: DbModel, k: int, row: RowModel)
    requires
        db.wf(),
        0 <= k < db.jobs.len(),
        row.job.id == db.jobs[k].job.id,
        row.job.video_id == db.jobs[k].job.video_id,
        row.job.bvid == db.jobs[k].job.bvid || (row.job.bvid matches Some(b) && !db.bvid_taken(k, b)),
    ensures
        db.with_job(k, row).wf(),
{
    let jobs = db.with_job(k, row).jobs;
    assert forall|i: int, j: int| 0 <= i < j < jobs.len() implies {
        &&& (#[trigger] jobs[i]).job.id != (#[trigger] jobs[j]).job.id
        &&& jobs[i].job.video_id != jobs[j].job.video_id
        &&& jobs[i].job.bvid is Some ==> jobs[i].job.bvid != jobs[j].job.bvid
    } by {
        let a = db.jobs[i];
        let b = db.jobs[j];
        if i == k {
            assert(jobs[j] == b);
        } else if j == k {
            assert(jobs[i] == a);
        } else {
            assert(jobs[i] == a && jobs[j] == b);
        }
    }
}

/// A step that only replaces a job by one of the same name and video keeps the tables sound, where
/// its published video stays or is nobody else's.
pub proof fn job_step(before: DbModel, after: DbModel, k: int)
    requires
        0 <= k < before.jobs.len(),
        after == before.with_job(k, after.jobs[k]),
        after.jobs[k].job.id == before.jobs[k].job.id,
        after.jobs[k].job.video_id == before.jobs[k].job.video_id,
        after.jobs[k].job.bvid == before.jobs[k].job.bvid || (after.jobs[k].job.bvid matches Some(b)
            && !before.bvid_taken(k, b)),
    ensures
        before.wf() ==> after.wf(),
{
    if before.wf() {
        job_update_keeps_wf(before, k, after.jobs[k]);
    }
}

/// Replacing a channel by one of the same number and name keeps the tables sound.
pub proof fn channel_update_keeps_wf(db: DbModel, k: int, row: ChannelRowModel)
    requires
        db.wf(),
        0 <= k < db.channels.len(),
        row.channel.id == db.channels[k].channel.id,
        row.channel.youtube_channel_id == db.channels[k].channel.youtube_channel_id,
    ensures
        db.with_channel(k, row).wf(),
{
    let rows = db.with_channel(k, row).channels;
    assert forall|i: int, j: int| 0 <= i < j < rows.len() implies {
        &&& (#[trigger] rows[i]).channel.id != (#[trigger] rows[j]).channel.id
        &&& rows[i].channel.youtube_channel_id != rows[j].channel.youtube_channel_id
    } by {
        let a = db.channels[i];
        let b = db.channels[j];
    }
    assert forall|i: int| 0 <= i < rows.len() implies (#[trigger] rows[i]).channel.id
        <= db.channel_seq by {
        let a = db.channels[i];
    }
}

/// Replacing a candidate by one of the same video keeps the tables sound.
pub proof fn candidate_update_keeps_wf(db: DbModel, k: int, row: CandidateModel)
    requires
        db.wf(),
        0 <= k < db.candidates.len(),
        row.video_id == db.candidates[k].video_id,
    ensures
        db.with_candidate(k, row).wf(),
{
    let rows = db.with_candidate(k, row).candidates;
    assert forall|i: int, j: int| 0 <= i < j < rows.len() implies (#[trigger] rows[i]).video_id != (
    #[trigger] rows[j]).video_id by {
        let a = db.candidates[i];
        let b = db.candidates[j];
    }
}

/// The place of a job as a number that code can use.
pub open spec fn same_place(r: Option<usize>, at: Option<int>, n: int) -> bool {
    match r {
        Some(k) => k < n && at == Some(k as int),
        None => at is None,
    }
}

impl Database {
    /// Finds a job by its name.
    pub fn find_job(&self, id: &str) -> (r: Option<usize>)
        ensures
            same_place(r, self@.job_at(id@), self.jobs@.len() as int),
            r matches Some(k) ==> ({
                let r = self@.jobs[k as int];
                r.job.id == id@
            }),
    {
        let ghost p = |r: RowModel| r.job.id == id@;
        let ghost rows = self@.jobs;
        let mut i: usize = 0;
        while i < self.jobs.len()
            invariant
                rows == self@.jobs,
                rows.len() == self.jobs@.len(),
                p == (|r: RowModel| r.job.id == id@),
                0 <= i <= rows.len(),
                forall|j: int| 0 <= j < i ==> !p(#[trigger] rows[j]),
            decreases self.jobs@.len() - i,
        {
            proof {
                assert(rows[i as int] == self.jobs@[i as int]@);
            }
            if same_text(self.jobs[i].job.id.as_str(), id) {
                proof {
                    assert(is_first(rows, p, i as int));
                    place_is(rows, p, i as int);
                }
                return Some(i);
            }
            i = i + 1;
        }
        proof {
            place_is_none(rows, p);
        }
        None
    }

    /// Finds a job by its video.
    pub fn find_video(&self, video_id: &str) -> (r: Option<usize>)
        ensures
            same_place(r, self@.video_at(video_id@), self.jobs@.len() as int),
            r matches Some(k) ==> ({
                let r = self@.jobs[k as int];
                r.job.video_id == video_id@
            }),
    {
        let ghost p = |r: RowModel| r.job.video_id == video_id@;
        let ghost rows = self@.jobs;
        let mut i: usize = 0;
        while i < self.jobs.len()
            invariant
                rows == self@.jobs,
                rows.len() == self.jobs@.len(),
                p == (|r: RowModel| r.job.video_id == video_id@),
                0 <= i <= rows.len(),
                forall|j: int| 0 <= j < i ==> !p(#[trigger] rows[j]),
            decreases self.jobs@.len() - i,
        {
            proof {
                assert(rows[i as int] == self.jobs@[i as int]@);
            }
            if same_text(self.jobs[i].job.video_id.as_str(), video_id) {
                proof {
                    assert(is_first(rows, p, i as int));
                    place_is(rows, p, i as int);
                }
                return Some(i);
            }
            i = i + 1;
        }
        proof {
            place_is_none(rows, p);
        }
        None
    }

    /// Finds a job by its published video.
    pub fn find_bvid(&self, bvid: &str) -> (r: Option<usize>)
        ensures
            same_place(r, self@.bvid_at(bvid@), self.jobs@.len() as int),
            r matches Some(k) ==> ({
                let r = self@.jobs[k as int];
                r.job.bvid == Some(bvid@)
            }),
    {
        let ghost p = |r: RowModel| r.job.bvid == Some(bvid@);
        let ghost rows = self@.jobs;
        let mut i: usize = 0;
        while i < self.jobs.len()
            invariant
                rows == self@.jobs,
                rows.len() == self.jobs@.len(),
                p == (|r: RowModel| r.job.bvid == Some(bvid@)),
                0 <= i <= rows.len(),
                forall|j: int| 0 <= j < i ==> !p(#[trigger] rows[j]),
            decreases self.jobs@.len() - i,
        {
            proof {
                assert(rows[i as int] == self.jobs@[i as int]@);
            }
            if same_optional(&self.jobs[i].job.bvid, bvid) {
                proof {
                    assert(is_first(rows, p, i as int));
                    place_is(rows, p, i as int);
                }
                return Some(i);
            }
            i = i + 1;
        }
        proof {
            place_is_none(rows, p);
        }
        None
    }

    /// Finds a channel by its number.
    pub fn find_channel(&self, id: i64) -> (r: Option<usize>)
        ensures
            same_place(r, self@.channel_at(id), self.channels@.len() as int),
            r matches Some(k) ==> ({
                let r = self@.channels[k as int];
                r.channel.id == id
            }),
    {
        let ghost p = |r: ChannelRowModel| r.channel.id == id;
        let ghost rows = self@.channels;
        let mut i: usize = 0;
        while i < self.channels.len()
            invariant
                rows == self@.channels,
                rows.len() == self.channels@.len(),
                p == (|r: ChannelRowModel| r.channel.id == id),
                0 <= i <= rows.len(),
                forall|j: int| 0 <= j < i ==> !p(#[trigger] rows[j]),
            decreases self.channels@.len() - i,
        {
            proof {
                assert(rows[i as int] == self.channels@[i as int]@);
            }
            if self.channels[i].channel.id == id {
                proof {
                    assert(is_first(rows, p, i as int));
                    place_is(rows, p, i as int);
                }
                return Some(i);
            }
            i = i + 1;
        }
        proof {
            place_is_none(rows, p);
        }
        None
    }

    /// Finds a channel by its name on YouTube.
    pub fn find_youtube_channel(&self, youtube_id: &str) -> (r: Option<usize>)
        ensures
            same_place(r, self@.youtube_channel_at(youtube_id@), self.channels@.len() as int),
            r matches Some(k) ==> ({
                let r = self@.channels[k as int];
                r.channel.youtube_channel_id == youtube_id@
            }),
    {
        let ghost p = |r: ChannelRowModel| r.channel.youtube_channel_id == youtube_id@;
        let ghost rows = self@.channels;
        let mut i: usize = 0;
        while i < self.channels.len()
            invariant
                rows == self@.channels,
                rows.len() == self.channels@.len(),
                p == (|r: ChannelRowModel| r.channel.youtube_channel_id == youtube_id@),
                0 <= i <= rows.len(),
                forall|j: int| 0 <= j < i ==> !p(#[trigger] rows[j]),
            decreases self.channels@.len() - i,
        {
            proof {
                assert(rows[i as int] == self.channels@[i as int]@);
            }
            if same_text(self.channels[i].channel.youtube_channel_id.as_str(), youtube_id) {
                proof {
                    assert(is_first(rows, p, i as int));
                    place_is(rows, p, i as int);
                }
                return Some(i);
            }
            i = i + 1;
        }
        proof {
            place_is_none(rows, p);
        }
        None
    }

    /// Finds a candidate by its video.
    pub fn find_candidate(&self, video_id: &str) -> (r: Option<usize>)
        ensures
            same_place(r, self@.candidate_at(video_id@), self.candidates@.len() as int),
            r matches Some(k) ==> ({
                let r = self@.candidates[k as int];
                r.video_id == video_id@
            }),
    {
        let ghost p = |r: CandidateModel| r.video_id == video_id@;
        let ghost rows = self@.candidates;
        let mut i: usize = 0;
        while i < self.candidates.len()
            invariant
                rows == self@.candidates,
                rows.len() == self.candidates@.len(),
                p == (|r: CandidateModel| r.video_id == video_id@),
                0 <= i <= rows.len(),
                forall|j: int| 0 <= j < i ==> !p(#[trigger] rows[j]),
            decreases self.candidates@.len() - i,
        {
            proof {
                assert(rows[i as int] == self.candidates@[i as int]@);
            }
            if same_text(self.candidates[i].video_id.as_str(), video_id) {
                proof {
                    assert(is_first(rows, p, i as int));
                    place_is(rows, p, i as int);
                }
                return Some(i);
            }
            i = i + 1;
        }
        proof {
            place_is_none(rows, p);
        }
        None
    }

    /// Whether a job's channel is a preferred one.
    pub fn is_preferred(&self, channel_id: Option<i64>) -> (r: bool)
        ensures
            r == self@.preferred(channel_id),
    {
        match channel_id {
            Some(c) => match self.find_channel(c) {
                Some(k) => self.channels[k].channel.priority == ChannelPriority::Priority,
                None => false,
            },
            None => false,
        }
    }

    /// Whether the lock keeps work from being claimed.
    pub fn is_held(&self, now: i64) -> (r: bool)
        ensures
            r == self@.held(now),
    {
        match &self.hold {
            Some(h) => h.expires_at > now,
            None => false,
        }
    }

    /// Whether another job than the one at `k` has that published video.
    pub fn is_bvid_taken(&self, k: usize, bvid: &str) -> (r: bool)
        ensures
            r == self@.bvid_taken(k as int, bvid@),
    {
        let mut i: usize = 0;
        while i < self.jobs.len()
            invariant
                0 <= i <= self.jobs@.len(),
                forall|j: int|
                    0 <= j < i && j != k ==> (#[trigger] self@.jobs[j]).job.bvid != Some(bvid@),
            decreases self.jobs@.len() - i,
        {
            if i != k && same_optional(&self.jobs[i].job.bvid, bvid) {
                proof {
                    assert(self@.jobs[i as int].job.bvid == Some(bvid@));
                }
                return true;
            }
            i = i + 1;
        }
        false
    }
}

/// A job is found under its own name, its own video and its own published video, and under no
/// other.
pub proof fn jobs_are_found(db: DbModel, k: int, id: Seq<char>)
    requires
        db.wf(),
        0 <= k < db.jobs.len(),
    ensures
        db.job_at(id) == Some(k) <==> db.jobs[k].job.id == id,
        db.video_at(id) == Some(k) <==> db.jobs[k].job.video_id == id,
        db.bvid_at(id) == Some(k) <==> db.jobs[k].job.bvid == Some(id),
{
    let named = |r: RowModel| r.job.id == id;
    let shown = |r: RowModel| r.job.video_id == id;
    let published = |r: RowModel| r.job.bvid == Some(id);
    place_means(db.jobs, named);
    place_means(db.jobs, shown);
    place_means(db.jobs, published);
    if named(db.jobs[k]) {
        assert(is_first(db.jobs, named, k));
        place_is(db.jobs, named, k);
    }
    if shown(db.jobs[k]) {
        assert(is_first(db.jobs, shown, k));
        place_is(db.jobs, shown, k);
    }
    if published(db.jobs[k]) {
        assert(is_first(db.jobs, published, k));
        place_is(db.jobs, published, k);
    }
}

/// What no job, channel or candidate bears is not found, and what is found bears it.
pub proof fn only_what_is_there_is_found(db: DbModel, id: Seq<char>, number: i64)
    ensures
        db.job_at(id) matches Some(k) ==> 0 <= k < db.jobs.len() && db.jobs[k].job.id == id,
        db.job_at(id) is None <==> forall|j: int|
            0 <= j < db.jobs.len() ==> (#[trigger] db.jobs[j]).job.id != id,
        db.video_at(id) matches Some(k) ==> 0 <= k < db.jobs.len() && db.jobs[k].job.video_id == id,
        db.video_at(id) is None <==> forall|j: int|
            0 <= j < db.jobs.len() ==> (#[trigger] db.jobs[j]).job.video_id != id,
        db.channel_at(number) matches Some(k) ==> 0 <= k < db.channels.len()
            && db.channels[k].channel.id == number,
        db.channel_at(number) is None <==> forall|j: int|
            0 <= j < db.channels.len() ==> (#[trigger] db.channels[j]).channel.id != number,
        db.youtube_channel_at(id) matches Some(k) ==> 0 <= k < db.channels.len()
            && db.channels[k].channel.youtube_channel_id == id,
        db.candidate_at(id) matches Some(k) ==> 0 <= k < db.candidates.len()
            && db.candidates[k].video_id == id,
        db.candidate_at(id) is None <==> forall|j: int|
            0 <= j < db.candidates.len() ==> (#[trigger] db.candidates[j]).video_id != id,
{
    let named = |r: RowModel| r.job.id == id;
    let shown = |r: RowModel| r.job.video_id == id;
    let numbered = |r: ChannelRowModel| r.channel.id == number;
    let called = |r: ChannelRowModel| r.channel.youtube_channel_id == id;
    let found = |r: CandidateModel| r.video_id == id;
    place_means(db.jobs, named);
    place_means(db.jobs, shown);
    place_means(db.channels, numbered);
    place_means(db.channels, called);
    place_means(db.candidates, found);
    assert(db.job_at(id) == place(db.jobs, named));
    assert(db.video_at(id) == place(db.jobs, shown));
    assert(db.channel_at(number) == place(db.channels, numbered));
    assert(db.youtube_channel_at(id) == place(db.channels, called));
    assert(db.candidate_at(id) == place(db.candidates, found));
    if db.job_at(id) is None {
        assert forall|j: int| 0 <= j < db.jobs.len() implies (#[trigger] db.jobs[j]).job.id != id by {
            assert(!named(db.jobs[j]));
        }
    }
    if db.video_at(id) is None {
        assert forall|j: int| 0 <= j < db.jobs.len() implies (#[trigger] db.jobs[j]).job.video_id
            != id by {
            assert(!shown(db.jobs[j]));
        }
    }
    if db.channel_at(number) is None {
        assert forall|j: int| 0 <= j < db.channels.len() implies (
        #[trigger] db.channels[j]).channel.id != number by {
            assert(!numbered(db.channels[j]));
        }
    }
    if db.candidate_at(id) is None {
        assert forall|j: int| 0 <= j < db.candidates.len() implies (
        #[trigger] db.candidates[j]).video_id != id by {
            assert(!found(db.candidates[j]));
        }
    }
}

/// A channel is found under its own number and a candidate under its own video.
pub proof fn channels_and_candidates_are_found(db: DbModel, k: int, c: int)
    requires
        db.wf(),
    ensures
        0 <= k < db.channels.len() ==> db.channel_at(db.channels[k].channel.id) == Some(k)
            && db.youtube_channel_at(db.channels[k].channel.youtube_channel_id) == Some(k),
        0 <= c < db.candidates.len() ==> db.candidate_at(db.candidates[c].video_id) == Some(c),
{
    if 0 <= k < db.channels.len() {
        let number = db.channels[k].channel.id;
        let name = db.channels[k].channel.youtube_channel_id;
        let numbered = |r: ChannelRowModel| r.channel.id == number;
        let called = |r: ChannelRowModel| r.channel.youtube_channel_id == name;
        assert(is_first(db.channels, numbered, k));
        place_is(db.channels, numbered, k);
        assert(is_first(db.channels, called, k));
        place_is(db.channels, called, k);
    }
    if 0 <= c < db.candidates.len() {
        let id = db.candidates[c].video_id;
        let found = |r: CandidateModel| r.video_id == id;
        assert(is_first(db.candidates, found, c));
        place_is(db.candidates, found, c);
    }
}

/// A channel is preferred if and only if its own row says so; nothing without a channel is.
pub proof fn preference_is_the_channels(db: DbModel, k: int)
    requires
        db.wf(),
        0 <= k < db.channels.len(),
    ensures
        db.preferred(Some(db.channels[k].channel.id)) <==> db.channels[k].channel.priority
            == ChannelPriority::Priority,
        !db.preferred(None),
{
    channels_and_candidates_are_found(db, k, 0);
}

/// A step to another status changes the status, the error and the time of change, and nothing
/// else; giving back a claim changes the claim alone.
pub proof fn moves_change_the_status_alone(row: RowModel, status: JobStatus, error: Option<Seq<char>>, now: i64)
    ensures
        ({
            let after = row.moved(status, error, now);
            &&& after.job == (JobModel { status: after.job.status, error: after.job.error, ..row.job })
            &&& after.job.status == status && after.job.error == error
            &&& after.legacy is None && after.updated_at == now
            &&& after.retry_at == row.retry_at && after.subtitle_retry_at == row.subtitle_retry_at
            &&& after.claim_kind == row.claim_kind && after.claim_owner == row.claim_owner
            &&& after.claim_expires_at == row.claim_expires_at
            &&& after.prepared_upload == row.prepared_upload
            &&& after.source_metadata == row.source_metadata
            &&& after.raw_video_path == row.raw_video_path
            &&& after.rendered_path == row.rendered_path
            &&& after.subtitle_path == row.subtitle_path && after.created_at == row.created_at
        }),
        ({
            let after = row.released();
            &&& after.claim_kind is None && after.claim_owner is None
            &&& after.claim_expires_at is None
            &&& after.job == row.job && after.legacy == row.legacy
            &&& after.retry_at == row.retry_at && after.updated_at == row.updated_at
            &&& after.prepared_upload == row.prepared_upload
        }),
{
}

/// A job nobody holds, or whose claim is over, is free; a claim without an end is free at once.
pub proof fn claims_run_out(row: RowModel, now: i64)
    ensures
        row.claim_free(now) <==> row.claim_owner is None || row.claim_expires_at is None
            || row.claim_expires_at->Some_0 <= now,
        row.lease_over(now) <==> row.claim_expires_at is None || row.claim_expires_at->Some_0
            <= now,
        row.published() <==> row.job.bvid is Some && row.job.bvid->Some_0.len() > 0,
{
}

/// The lock is held while it is taken and not over.
pub proof fn locks_run_out(db: DbModel, now: i64)
    ensures
        db.held(now) <==> db.hold is Some && now < db.hold->Some_0.expires_at,
{
}

/// Every attempt at a subtitle but a refused one keeps another from starting.
pub proof fn only_refused_subtitles_are_tried_anew(s: SubtitleState)
    ensures
        !blocks(s) <==> s == SubtitleState::Rejected,
{
}

} // verus!
