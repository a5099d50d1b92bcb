//! What the service keeps of channels, videos and jobs. Times are milliseconds since the Unix
//! epoch; durations are milliseconds, rounded up.
use vstd::prelude::*;

use crate::text::{contains_text, copy_optional, occurs_in, same_text};

verus! {

/// Where a job stands.
#[derive(Debug, Clone, Copy, PartialEq, Eq, Structural)]
pub enum JobStatus {
    Queued,
    Inspecting,
    Processing,
    ReadyToUpload,
    Uploading,
    UploadUncertain,
    UploadRetryWait,
    UploadedOriginalPendingSubtitle,
    Appending,
    Completed,
    RetryWait,
    Paused,
    DeadLetter,
    Failed,
}

impl JobStatus {
    /// The stored text of a status.
    pub open spec fn text(self) -> Seq<char> {
        match self {
            JobStatus::Queued => "queued"@,
            JobStatus::Inspecting => "inspecting"@,
            JobStatus::Processing => "processing"@,
            JobStatus::ReadyToUpload => "ready_to_upload"@,
            JobStatus::Uploading => "uploading"@,
            JobStatus::UploadUncertain => "upload_uncertain"@,
            JobStatus::UploadRetryWait => "upload_retry_wait"@,
            JobStatus::UploadedOriginalPendingSubtitle => "uploaded_original_pending_subtitle"@,
            JobStatus::Appending => "appending"@,
            JobStatus::Completed => "completed"@,
            JobStatus::RetryWait => "retry_wait"@,
            JobStatus::Paused => "paused"@,
            JobStatus::DeadLetter => "dead_letter"@,
            JobStatus::Failed => "failed"@,
        }
    }

    /// The stored text of a status.
    pub fn as_str(self) -> (r: &'static str)
        ensures
            r@ == self.text(),
    {
        match self {
            JobStatus::Queued => "queued",
            JobStatus::Inspecting => "inspecting",
            JobStatus::Processing => "processing",
            JobStatus::ReadyToUpload => "ready_to_upload",
            JobStatus::Uploading => "uploading",
            JobStatus::UploadUncertain => "upload_uncertain",
            JobStatus::UploadRetryWait => "upload_retry_wait",
            JobStatus::UploadedOriginalPendingSubtitle => "uploaded_original_pending_subtitle",
            JobStatus::Appending => "appending",
            JobStatus::Completed => "completed",
            JobStatus::RetryWait => "retry_wait",
            JobStatus::Paused => "paused",
            JobStatus::DeadLetter => "dead_letter",
            JobStatus::Failed => "failed",
        }
    }

    /// The status of a stored text; nothing where the text is none.
    pub fn from_text(s: &str) -> (r: Option<JobStatus>)
        ensures
            r matches Some(x) ==> x.text() == s@,
            r is None ==> forall|x: JobStatus| (#[trigger] x.text()) != s@,
    {
        if same_text(s, "queued") {
            Some(JobStatus::Queued)
        } else if same_text(s, "inspecting") {
            Some(JobStatus::Inspecting)
        } else if same_text(s, "processing") {
            Some(JobStatus::Processing)
        } else if same_text(s, "ready_to_upload") {
            Some(JobStatus::ReadyToUpload)
        } else if same_text(s, "uploading") {
            Some(JobStatus::Uploading)
        } else if same_text(s, "upload_uncertain") {
            Some(JobStatus::UploadUncertain)
        } else if same_text(s, "upload_retry_wait") {
            Some(JobStatus::UploadRetryWait)
        } else if same_text(s, "uploaded_original_pending_subtitle") {
            Some(JobStatus::UploadedOriginalPendingSubtitle)
        } else if same_text(s, "appending") {
            Some(JobStatus::Appending)
        } else if same_text(s, "completed") {
            Some(JobStatus::Completed)
        } else if same_text(s, "retry_wait") {
            Some(JobStatus::RetryWait)
        } else if same_text(s, "paused") {
            Some(JobStatus::Paused)
        } else if same_text(s, "dead_letter") {
            Some(JobStatus::DeadLetter)
        } else if same_text(s, "failed") {
            Some(JobStatus::Failed)
        } else {
            None
        }
    }

    /// Whether no work is left in this status.
    pub open spec fn terminal(self) -> bool {
        self == JobStatus::Completed || self == JobStatus::DeadLetter || self == JobStatus::Failed
    }

    /// Whether no work is left in this status.
    pub fn is_terminal(self) -> (r: bool)
        ensures
            r == self.terminal(),
    {
        match self {
            JobStatus::Completed | JobStatus::DeadLetter | JobStatus::Failed => true,
            _ => false,
        }
    }

    /// Whether a job waits in this status for its next try.
    pub open spec fn waits(self) -> bool {
        self == JobStatus::RetryWait || self == JobStatus::UploadRetryWait
    }

    /// Whether a submission may end in this status.
    pub open spec fn completes(self) -> bool {
        self == JobStatus::Completed || self == JobStatus::UploadedOriginalPendingSubtitle
    }
}

/// No two statuses have the same text, so reading back a stored status gives that status.
pub proof fn status_texts_differ(a: JobStatus, b: JobStatus)
    requires
        a.text() == b.text(),
    ensures
        a == b,
{
    reveal_strlit("queued");
    reveal_strlit("inspecting");
    reveal_strlit("processing");
    reveal_strlit("ready_to_upload");
    reveal_strlit("uploading");
    reveal_strlit("upload_uncertain");
    reveal_strlit("upload_retry_wait");
    reveal_strlit("uploaded_original_pending_subtitle");
    reveal_strlit("appending");
    reveal_strlit("completed");
    reveal_strlit("retry_wait");
    reveal_strlit("paused");
    reveal_strlit("dead_letter");
    reveal_strlit("failed");
    assert("queued"@.len() == 6 && "queued"@[0] == 'q');
    assert("inspecting"@.len() == 10 && "inspecting"@[0] == 'i');
    assert("processing"@.len() == 10 && "processing"@[0] == 'p');
    assert("ready_to_upload"@.len() == 15 && "ready_to_upload"@[0] == 'r');
    assert("uploading"@.len() == 9 && "uploading"@[0] == 'u');
    assert("upload_uncertain"@.len() == 16 && "upload_uncertain"@[0] == 'u');
    assert("upload_retry_wait"@.len() == 17 && "upload_retry_wait"@[0] == 'u');
    assert("uploaded_original_pending_subtitle"@.len() == 34 && "uploaded_original_pending_subtitle"@[0] == 'u');
    assert("appending"@.len() == 9 && "appending"@[0] == 'a');
    assert("completed"@.len() == 9 && "completed"@[0] == 'c');
    assert("retry_wait"@.len() == 10 && "retry_wait"@[0] == 'r');
    assert("paused"@.len() == 6 && "paused"@[0] == 'p');
    assert("dead_letter"@.len() == 11 && "dead_letter"@[0] == 'd');
    assert("failed"@.len() == 6 && "failed"@[0] == 'f');
}

/// How a video is carried over.
#[derive(Debug, Clone, Copy, PartialEq, Eq, Structural)]
pub enum TransferMode {
    Direct,
    Translated,
}

impl Default for TransferMode {
    fn default() -> (r: Self)
        ensures
            r == TransferMode::Translated,
    {
        TransferMode::Translated
    }
}

impl TransferMode {
    /// The stored text of a mode.
    pub open spec fn text(self) -> Seq<char> {
        match self {
            TransferMode::Direct => "direct"@,
            TransferMode::Translated => "translated"@,
        }
    }

    /// The stored text of a mode.
    pub fn as_str(self) -> (r: &'static str)
        ensures
            r@ == self.text(),
    {
        match self {
            TransferMode::Direct => "direct",
            TransferMode::Translated => "translated",
        }
    }

    /// The mode of a stored text; nothing where the text is none.
    pub fn from_text(s: &str) -> (r: Option<TransferMode>)
        ensures
            r matches Some(x) ==> x.text() == s@,
            r is None ==> forall|x: TransferMode| (#[trigger] x.text()) != s@,
    {
        if same_text(s, "direct") {
            Some(TransferMode::Direct)
        } else if same_text(s, "translated") {
            Some(TransferMode::Translated)
        } else {
            None
        }
    }
}

/// Whether a job of this mode goes through subtitles and translation.
pub fn requires_translated_pipeline(mode: TransferMode) -> (r: bool)
    ensures
        r == (mode == TransferMode::Translated),
{
    match mode {
        TransferMode::Translated => true,
        TransferMode::Direct => false,
    }
}

/// How urgent a channel is.
#[derive(Debug, Clone, Copy, PartialEq, Eq, Structural)]
pub enum ChannelPriority {
    Normal,
    Priority,
}

impl ChannelPriority {
    /// The stored text of a priority.
    pub open spec fn text(self) -> Seq<char> {
        match self {
            ChannelPriority::Normal => "normal"@,
            ChannelPriority::Priority => "priority"@,
        }
    }

    /// The stored text of a priority.
    pub fn as_str(self) -> (r: &'static str)
        ensures
            r@ == self.text(),
    {
        match self {
            ChannelPriority::Normal => "normal",
            ChannelPriority::Priority => "priority",
        }
    }

    /// The priority of a stored text; nothing where the text is none.
    pub fn from_text(s: &str) -> (r: Option<ChannelPriority>)
        ensures
            r matches Some(x) ==> x.text() == s@,
            r is None ==> forall|x: ChannelPriority| (#[trigger] x.text()) != s@,
    {
        if same_text(s, "normal") {
            Some(ChannelPriority::Normal)
        } else if same_text(s, "priority") {
            Some(ChannelPriority::Priority)
        } else {
            None
        }
    }
}

/// Where a candidate was found.
#[derive(Debug, Clone, Copy, PartialEq, Eq, Structural)]
pub enum CandidateSource {
    Rss,
    DataApi,
    Ytdlp,
}

impl CandidateSource {
    /// The stored text of a source.
    pub open spec fn text(self) -> Seq<char> {
        match self {
            CandidateSource::Rss => "rss"@,
            CandidateSource::DataApi => "data_api"@,
            CandidateSource::Ytdlp => "ytdlp"@,
        }
    }

    /// The stored text of a source.
    pub fn as_str(self) -> (r: &'static str)
        ensures
            r@ == self.text(),
    {
        match self {
            CandidateSource::Rss => "rss",
            CandidateSource::DataApi => "data_api",
            CandidateSource::Ytdlp => "ytdlp",
        }
    }

    /// The source of a stored text; nothing where the text is none.
    pub fn from_text(s: &str) -> (r: Option<CandidateSource>)
        ensures
            r matches Some(x) ==> x.text() == s@,
            r is None ==> forall|x: CandidateSource| (#[trigger] x.text()) != s@,
    {
        if same_text(s, "rss") {
            Some(CandidateSource::Rss)
        } else if same_text(s, "data_api") {
            Some(CandidateSource::DataApi)
        } else if same_text(s, "ytdlp") {
            Some(CandidateSource::Ytdlp)
        } else {
            None
        }
    }
}

/// Where a candidate stands in front of the queue.
#[derive(Debug, Clone, Copy, PartialEq, Eq, Structural)]
pub enum GateState {
    Pending,
    Deferred,
    Rejected,
    Promoted,
}

impl GateState {
    /// The stored text of a gate state.
    pub open spec fn text(self) -> Seq<char> {
        match self {
            GateState::Pending => "pending"@,
            GateState::Deferred => "deferred"@,
            GateState::Rejected => "rejected"@,
            GateState::Promoted => "promoted"@,
        }
    }

    /// The stored text of a gate state.
    pub fn as_str(self) -> (r: &'static str)
        ensures
            r@ == self.text(),
    {
        match self {
            GateState::Pending => "pending",
            GateState::Deferred => "deferred",
            GateState::Rejected => "rejected",
            GateState::Promoted => "promoted",
        }
    }

    /// The state of screening of a stored text; nothing where the text is none.
    pub fn from_text(s: &str) -> (r: Option<GateState>)
        ensures
            r matches Some(x) ==> x.text() == s@,
            r is None ==> forall|x: GateState| (#[trigger] x.text()) != s@,
    {
        if same_text(s, "pending") {
            Some(GateState::Pending)
        } else if same_text(s, "deferred") {
            Some(GateState::Deferred)
        } else if same_text(s, "rejected") {
            Some(GateState::Rejected)
        } else if same_text(s, "promoted") {
            Some(GateState::Promoted)
        } else {
            None
        }
    }
}

/// The texts of modes, priorities, sources and gate states tell them apart.
pub proof fn stored_texts_differ()
    ensures
        forall|a: TransferMode, b: TransferMode|
            (#[trigger] a.text()) == (#[trigger] b.text()) ==> a == b,
        forall|a: ChannelPriority, b: ChannelPriority|
            (#[trigger] a.text()) == (#[trigger] b.text()) ==> a == b,
        forall|a: CandidateSource, b: CandidateSource|
            (#[trigger] a.text()) == (#[trigger] b.text()) ==> a == b,
        forall|a: GateState, b: GateState|
            (#[trigger] a.text()) == (#[trigger] b.text()) ==> a == b,
{
    reveal_strlit("direct");
    reveal_strlit("translated");
    reveal_strlit("normal");
    reveal_strlit("priority");
    reveal_strlit("rss");
    reveal_strlit("data_api");
    reveal_strlit("ytdlp");
    reveal_strlit("pending");
    reveal_strlit("deferred");
    reveal_strlit("rejected");
    reveal_strlit("promoted");
    assert forall|a: TransferMode, b: TransferMode|
        (#[trigger] a.text()) == (#[trigger] b.text()) implies a == b by {
        assert(a.text()[0] == b.text()[0]);
    }
    assert forall|a: ChannelPriority, b: ChannelPriority|
        (#[trigger] a.text()) == (#[trigger] b.text()) implies a == b by {
        assert(a.text()[0] == b.text()[0]);
    }
    assert forall|a: CandidateSource, b: CandidateSource|
        (#[trigger] a.text()) == (#[trigger] b.text()) implies a == b by {
        assert(a.text()[0] == b.text()[0]);
    }
    assert forall|a: GateState, b: GateState|
        (#[trigger] a.text()) == (#[trigger] b.text()) implies a == b by {
        assert(a.text()[0] == b.text()[0]);
        assert(a.text()[1] == b.text()[1]);
    }
}

/// What is sent to Bilibili along with a video.
#[derive(Debug)]
pub struct PublicationMetadata {
    pub title: String,
    pub dynamic: String,
    pub tags: Vec<String>,
    pub tid: i64,
    pub raw_json: String,
}

/// A finished preparation that waits for its submission.
#[derive(Debug)]
pub enum PreparedUpload {
    Submission {
        video_path: String,
        cover_path: String,
        mode: TransferMode,
        completion_status: JobStatus,
    },
}

impl PreparedUpload {
    /// A copy of this plan.
    pub fn copied(&self) -> (r: PreparedUpload)
        ensures
            r == *self,
    {
        match self {
            PreparedUpload::Submission { video_path, cover_path, mode, completion_status } =>
            PreparedUpload::Submission {
                video_path: video_path.clone(),
                cover_path: cover_path.clone(),
                mode: *mode,
                completion_status: *completion_status,
            },
        }
    }
}

/// What YouTube tells of a video. The frame rate is in thousandths of a frame per second.
#[derive(Debug)]
pub struct VideoMetadata {
    pub id: String,
    pub url: String,
    pub title: String,
    pub description: Option<String>,
    pub uploader: Option<String>,
    pub upload_date: Option<String>,
    pub channel: Option<String>,
    pub channel_id: Option<String>,
    pub timestamp: Option<i64>,
    pub duration_ms: Option<u64>,
    pub width: Option<i64>,
    pub height: Option<i64>,
    pub fps_milli: Option<u64>,
    pub thumbnail_url: Option<String>,
    pub webpage_url: Option<String>,
    pub live_status: Option<String>,
    pub default_audio_language: Option<String>,
}

/// From this second on, the beginning of 2024-10-30 in UTC, a Short may last 180 seconds; before, it
/// was 60.
pub const SHORTS_DURATION_60S_CUTOFF: i64 = 1_730_246_400;

impl VideoMetadata {
    /// A copy of the metadata.
    pub fn copied(&self) -> (r: VideoMetadata)
        ensures
            r == *self,
    {
        VideoMetadata {
            id: self.id.clone(),
            url: self.url.clone(),
            title: self.title.clone(),
            description: copy_optional(&self.description),
            uploader: copy_optional(&self.uploader),
            upload_date: copy_optional(&self.upload_date),
            channel: copy_optional(&self.channel),
            channel_id: copy_optional(&self.channel_id),
            timestamp: self.timestamp,
            duration_ms: self.duration_ms,
            width: self.width,
            height: self.height,
            fps_milli: self.fps_milli,
            thumbnail_url: copy_optional(&self.thumbnail_url),
            webpage_url: copy_optional(&self.webpage_url),
            live_status: copy_optional(&self.live_status),
            default_audio_language: copy_optional(&self.default_audio_language),
        }
    }

    /// Whether the picture is at least as high as wide.
    pub open spec fn upright(&self) -> bool {
        self.width matches Some(w) && self.height matches Some(h) && h >= w
    }

    /// Whether one of the video's addresses is that of a Short.
    pub open spec fn shorts_address(&self) -> bool {
        occurs_in(self.url@, "/shorts/"@) || (self.webpage_url matches Some(u) && occurs_in(
            u@,
            "/shorts/"@,
        ))
    }

    /// The longest that a Short of that age may last.
    pub open spec fn shorts_limit(&self) -> int {
        if self.timestamp matches Some(ts) && ts < SHORTS_DURATION_60S_CUTOFF {
            60_000
        } else {
            180_000
        }
    }

    /// Whether the picture is upright or an address is that of a Short.
    pub fn is_vertical(&self) -> (r: bool)
        ensures
            r == (self.upright() || self.shorts_address()),
    {
        let upright = match (self.width, self.height) {
            (Some(w), Some(h)) => h >= w,
            _ => false,
        };
        let by_page = match &self.webpage_url {
            Some(u) => contains_text(u.as_str(), "/shorts/"),
            None => false,
        };
        upright || contains_text(self.url.as_str(), "/shorts/") || by_page
    }

    /// Whether the video is a Short: upright or at such an address, and short enough for its age.
    /// A video of unknown length is none.
    pub fn is_short(&self) -> (r: bool)
        ensures
            r == ((self.upright() || self.shorts_address()) && (self.duration_ms matches Some(d)
                && d <= self.shorts_limit())),
    {
        let limit: u64 = match self.timestamp {
            Some(ts) => if ts < SHORTS_DURATION_60S_CUTOFF {
                60_000
            } else {
                180_000
            },
            None => 180_000,
        };
        self.is_vertical() && match self.duration_ms {
            Some(d) => d <= limit,
            None => false,
        }
    }

    /// The page of the video, or its address where the page is unknown.
    pub open spec fn page(&self) -> Seq<char> {
        match self.webpage_url {
            Some(u) => u@,
            None => self.url@,
        }
    }

    /// Who published the video: the uploader, else the channel.
    pub open spec fn author(&self) -> Option<Seq<char>> {
        match self.uploader {
            Some(u) => Some(u@),
            None => match self.channel {
                Some(c) => Some(c@),
                None => None,
            },
        }
    }

    /// The page of the video.
    pub fn page_url(&self) -> (r: String)
        ensures
            r@ == self.page(),
    {
        match &self.webpage_url {
            Some(u) => u.clone(),
            None => self.url.clone(),
        }
    }

    /// Who published the video, or `unknown`.
    pub fn author_or(&self, unknown: &str) -> (r: String)
        ensures
            r@ == match self.author() {
                Some(a) => a,
                None => unknown@,
            },
    {
        match &self.uploader {
            Some(u) => u.clone(),
            None => match &self.channel {
                Some(c) => c.clone(),
                None => unknown.to_owned(),
            },
        }
    }
}

/// Tokens and cost of calls to the model. The cost is in billionths.
#[derive(Debug, Clone, Copy, PartialEq, Eq, Structural)]
pub struct AiUsage {
    pub input: i64,
    pub output: i64,
    pub reasoning: i64,
    pub cache_read: i64,
    pub cache_write: i64,
    pub total: i64,
    pub cost: Option<i64>,
}

/// Each status is stored under its own name, and each of these names is read as its status alone.
pub proof fn statuses_are_stored_under_their_names()
    ensures
        JobStatus::Queued.text() == "queued"@,
        JobStatus::Inspecting.text() == "inspecting"@,
        JobStatus::Processing.text() == "processing"@,
        JobStatus::ReadyToUpload.text() == "ready_to_upload"@,
        JobStatus::Uploading.text() == "uploading"@,
        JobStatus::UploadUncertain.text() == "upload_uncertain"@,
        JobStatus::UploadRetryWait.text() == "upload_retry_wait"@,
        JobStatus::UploadedOriginalPendingSubtitle.text() == "uploaded_original_pending_subtitle"@,
        JobStatus::Appending.text() == "appending"@,
        JobStatus::Completed.text() == "completed"@,
        JobStatus::RetryWait.text() == "retry_wait"@,
        JobStatus::Paused.text() == "paused"@,
        JobStatus::DeadLetter.text() == "dead_letter"@,
        JobStatus::Failed.text() == "failed"@,
{
}

/// A job that is done, given up or failed is over; two statuses wait for their time; in two a
/// submission may end.
pub proof fn statuses_mean_what_they_say(s: JobStatus)
    ensures
        s.terminal() <==> s == JobStatus::Completed || s == JobStatus::DeadLetter || s
            == JobStatus::Failed,
        s.waits() <==> s == JobStatus::RetryWait || s == JobStatus::UploadRetryWait,
        s.completes() <==> s == JobStatus::Completed || s
            == JobStatus::UploadedOriginalPendingSubtitle,
        s.waits() ==> !s.terminal() && !s.completes(),
{
}

/// What a video says of itself: its page is the web page where that is known, and its author the
/// uploader before the channel.
pub proof fn videos_name_page_and_author(m: VideoMetadata)
    ensures
        m.webpage_url is Some ==> m.page() == m.webpage_url->Some_0@,
        m.webpage_url is None ==> m.page() == m.url@,
        m.uploader is Some ==> m.author() == Some(m.uploader->Some_0@),
        m.uploader is None && m.channel is Some ==> m.author() == Some(m.channel->Some_0@),
        m.uploader is None && m.channel is None ==> m.author() is None,
        m.upright() <==> m.width is Some && m.height is Some && m.width->Some_0 <= m.height->Some_0,
{
}

} // verus!
