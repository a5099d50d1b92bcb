//! How a prepared video is submitted, and how its soft subtitles follow.
use vstd::prelude::*;
use vstd::string::StringExecFns;

use crate::captions::{
    all_pieces, cc_cues_from, cc_lines_have_a_length, cc_list, cc_models, lines_follow_the_cues,
    sources, split_cc_cues, CcCue,
};
use crate::clock::{parse_rfc3339, rfc3339, rfc3339_millis, rfc3339_text};
use crate::fault::{refused, DbError};
use crate::ledger::publishes;
use crate::model::{JobStatus, PreparedUpload, PublicationMetadata, VideoMetadata};
use crate::queue::job_of;
use crate::settings::NEXT_BILIBILI_SUBMIT_AT;
use crate::store::{
    jobs_are_found, place, place_means, Database, DbModel, Job, JobModel, PublicationRowModel,
};
use crate::subtitle::Cue;
use crate::text::{
    decimal, decimal_of, is_ascii_word, join, occurs_in, opt_view, starts, starts_with,
};

verus! {

/// The setting that tells whether the account of the platform is good.
pub const AUTH_BILIBILI: &'static str = "auth.bilibili";

/// Whether a job in that status may be submitted.
pub open spec fn awaits_upload(status: JobStatus) -> bool {
    status == JobStatus::ReadyToUpload || status == JobStatus::UploadRetryWait
}

/// Why a prepared video is not submitted.
#[derive(Debug, Clone, Copy, PartialEq, Eq, Structural)]
pub enum UploadFault {
    /// The job does not wait for its submission.
    NotWaiting(JobStatus),
    /// The account of the platform is no good.
    NoAccount,
    /// There is no plan.
    NoPlan,
    /// A submission cannot end in that status.
    BadCompletion(JobStatus),
    /// The video file is missing or empty.
    NoVideo,
    /// The cover file is missing or empty.
    NoCover,
    /// There is no title.
    NoPublication,
    /// What YouTube told of the video is missing.
    NoSource,
}

impl UploadFault {
    /// The message for a job, and for a file where one is missing.
    pub open spec fn text(self, id: Seq<char>, path: Seq<char>) -> Seq<char> {
        match self {
            UploadFault::NotWaiting(status) => "任务 "@ + id + " 当前状态不是待上传: "@
                + status.text(),
            UploadFault::NoAccount => "Bilibili 认证失效，暂停上传并保留现有文件"@,
            UploadFault::NoPlan => "待上传任务 "@ + id + " 缺少持久化上传计划"@,
            UploadFault::BadCompletion(status) => "待上传任务 "@ + id + " 的完成状态无效: "@
                + status.text(),
            UploadFault::NoVideo => "待上传视频不存在或为空: "@ + path,
            UploadFault::NoCover => "待上传封面不存在或为空: "@ + path,
            UploadFault::NoPublication => "待上传任务 "@ + id + " 缺少投稿元数据"@,
            UploadFault::NoSource => "待上传任务 "@ + id + " 缺少来源元数据"@,
        }
    }

    /// The message for a job, and for a file where one is missing.
    pub fn message(self, id: &str, path: &str) -> (r: String)
        ensures
            r@ == self.text(id@, path@),
    {
        match self {
            UploadFault::NotWaiting(status) => {
                let mut s = "任务 ".to_owned();
                s.append(id);
                s.append(" 当前状态不是待上传: ");
                s.append(status.as_str());
                s
            },
            UploadFault::NoAccount => "Bilibili 认证失效，暂停上传并保留现有文件".to_owned(),
            UploadFault::NoPlan => {
                let mut s = "待上传任务 ".to_owned();
                s.append(id);
                s.append(" 缺少持久化上传计划");
                s
            },
            UploadFault::BadCompletion(status) => {
                let mut s = "待上传任务 ".to_owned();
                s.append(id);
                s.append(" 的完成状态无效: ");
                s.append(status.as_str());
                s
            },
            UploadFault::NoVideo => join("待上传视频不存在或为空: ", path),
            UploadFault::NoCover => join("待上传封面不存在或为空: ", path),
            UploadFault::NoPublication => {
                let mut s = "待上传任务 ".to_owned();
                s.append(id);
                s.append(" 缺少投稿元数据");
                s
            },
            UploadFault::NoSource => {
                let mut s = "待上传任务 ".to_owned();
                s.append(id);
                s.append(" 缺少来源元数据");
                s
            },
        }
    }
}

/// The plan that is kept of a job.
pub open spec fn plan_at(db: DbModel, id: Seq<char>) -> Option<PreparedUpload> {
    match db.job_at(id) {
        Some(k) => db.jobs[k].prepared_upload,
        None => None,
    }
}

/// What YouTube told of a job's video, where it was kept.
pub open spec fn source_at(db: DbModel, id: Seq<char>) -> Option<VideoMetadata> {
    match db.job_at(id) {
        Some(k) => db.jobs[k].source_metadata,
        None => None,
    }
}

/// The status that a plan ends in.
pub open spec fn completion_of(plan: PreparedUpload) -> JobStatus {
    match plan {
        PreparedUpload::Submission { completion_status, .. } => completion_status,
    }
}

/// Why a job is not submitted, before its files are looked at.
pub open spec fn plan_fault(db: DbModel, job: JobModel) -> Option<UploadFault> {
    if !awaits_upload(job.status) {
        Some(UploadFault::NotWaiting(job.status))
    } else if db.setting(AUTH_BILIBILI@) matches Some(v) && starts(v, "failed"@) {
        Some(UploadFault::NoAccount)
    } else {
        match plan_at(db, job.id) {
            None => Some(UploadFault::NoPlan),
            Some(plan) => if completion_of(plan).completes() {
                None
            } else {
                Some(UploadFault::BadCompletion(completion_of(plan)))
            },
        }
    }
}

/// Whether a file is there and holds something.
pub open spec fn filled(len: Option<u64>) -> bool {
    len matches Some(n) && n > 0
}

/// Whether a file is there and holds something; nothing means that it is not there.
pub fn ensure_prepared_file(len: Option<u64>) -> (r: bool)
    ensures
        r == filled(len),
{
    match len {
        Some(n) => n > 0,
        None => false,
    }
}

/// Why a job is not submitted, once its files have been looked at.
pub open spec fn papers_fault(
    db: DbModel,
    id: Seq<char>,
    video: Option<u64>,
    cover: Option<u64>,
) -> Option<UploadFault> {
    if !filled(video) {
        Some(UploadFault::NoVideo)
    } else if !filled(cover) {
        Some(UploadFault::NoCover)
    } else if db.publication_at(id) is None {
        Some(UploadFault::NoPublication)
    } else if source_at(db, id) is None {
        Some(UploadFault::NoSource)
    } else {
        None
    }
}

impl Database {
    /// The plan of a job that may be submitted.
    pub fn upload_plan(&self, job: &Job) -> (r: Result<PreparedUpload, UploadFault>)
        ensures
            match plan_fault(self@, job@) {
                Some(e) => r == Err::<PreparedUpload, UploadFault>(e),
                None => r matches Ok(plan) && plan_at(self@, job@.id) == Some(plan),
            },
    {
        if job.status != JobStatus::ReadyToUpload && job.status != JobStatus::UploadRetryWait {
            return Err(UploadFault::NotWaiting(job.status));
        }
        match self.get_setting(AUTH_BILIBILI) {
            Some(v) => {
                if starts_with(v.as_str(), "failed") {
                    return Err(UploadFault::NoAccount);
                }
            },
            None => {},
        }
        match self.prepared_upload(job.id.as_str()) {
            None => Err(UploadFault::NoPlan),
            Some(plan) => {
                let status = match &plan {
                    PreparedUpload::Submission { completion_status, .. } => *completion_status,
                };
                if status == JobStatus::Completed || status
                    == JobStatus::UploadedOriginalPendingSubtitle {
                    Ok(plan)
                } else {
                    Err(UploadFault::BadCompletion(status))
                }
            },
        }
    }

    /// The title and the source of a job that is about to be submitted, given the lengths of its
    /// video and its cover.
    pub fn upload_papers(&self, id: &str, video: Option<u64>, cover: Option<u64>) -> (r: Result<
        (PublicationMetadata, VideoMetadata),
        UploadFault,
    >)
        ensures
            match papers_fault(self@, id@, video, cover) {
                Some(e) => r == Err::<(PublicationMetadata, VideoMetadata), UploadFault>(e),
                None => {
                    &&& r matches Ok(p)
                    &&& self@.publication_at(id@) matches Some(k)
                    &&& publishes(p.0, self@.publications[k])
                    &&& source_at(self@, id@) == Some(p.1)
                },
            },
    {
        if !ensure_prepared_file(video) {
            return Err(UploadFault::NoVideo);
        }
        if !ensure_prepared_file(cover) {
            return Err(UploadFault::NoCover);
        }
        match self.publication_metadata(id) {
            None => Err(UploadFault::NoPublication),
            Some(publication) => match self.source_metadata(id) {
                None => Err(UploadFault::NoSource),
                Some(meta) => Ok((publication, meta)),
            },
        }
    }
}

// ---------------------------------------------------------------------------------------------
// The wait before a submission
// ---------------------------------------------------------------------------------------------

/// What a job does that waits for its submission.
#[derive(Debug, Clone, Copy, PartialEq, Eq, Structural)]
pub enum WaitStep {
    /// It is submitted now.
    Go,
    /// It is not submitted any more; it is in that status.
    Stop(JobStatus),
    /// It waits so many milliseconds and asks again.
    Sleep(i64),
}

/// What a job does that waits until a time and looks up every `poll_ms`.
pub open spec fn wait_step_of(status: JobStatus, until: i64, now: i64, poll_ms: i64) -> WaitStep {
    let poll = if poll_ms < 1 {
        1
    } else {
        poll_ms
    };
    if !awaits_upload(status) {
        WaitStep::Stop(status)
    } else if until <= now {
        WaitStep::Go
    } else if until - now < poll {
        WaitStep::Sleep((until - now) as i64)
    } else {
        WaitStep::Sleep(poll)
    }
}

/// A waiting job sleeps a while, but never past its time; once that has come it goes or stops.
pub proof fn waits_end(status: JobStatus, until: i64, now: i64, poll_ms: i64)
    ensures
        until <= now ==> !(wait_step_of(status, until, now, poll_ms) is Sleep),
        wait_step_of(status, until, now, poll_ms) matches WaitStep::Sleep(ms) ==> 0 < ms && now
            + ms <= until,
        !awaits_upload(status) ==> wait_step_of(status, until, now, poll_ms) == WaitStep::Stop(
            status,
        ),
{
}

impl Database {
    /// Until when nothing is submitted, if that is still ahead.
    pub fn submission_window(&self, now: i64) -> (r: Result<Option<i64>, DbError>)
        ensures
            match self@.setting(NEXT_BILIBILI_SUBMIT_AT@) {
                None => r == Ok::<Option<i64>, DbError>(None),
                Some(v) => match rfc3339_millis(v) {
                    None => r == refused::<Option<i64>>(DbError::BadSubmitTime),
                    Some(at) => if at <= now {
                        r == Ok::<Option<i64>, DbError>(None)
                    } else {
                        r matches Ok(Some(t)) && t == at
                    },
                },
            },
    {
        match self.get_setting(NEXT_BILIBILI_SUBMIT_AT) {
            None => Ok(None),
            Some(v) => match parse_rfc3339(v.as_str()) {
                None => Err(DbError::BadSubmitTime),
                Some(at) => if at <= now {
                    Ok(None)
                } else {
                    Ok(Some(at))
                },
            },
        }
    }

    /// What a job does that waits until a time and looks up every `poll_ms`.
    pub fn wait_for_bilibili_submission(&self, id: &str, until: i64, now: i64, poll_ms: i64) -> (r: Result<
        WaitStep,
        DbError,
    >)
        ensures
            match self@.job_at(id@) {
                None => r == refused::<WaitStep>(DbError::WaitingJobGone),
                Some(k) => match job_of(self@.jobs[k]) {
                    Err(e) => r == refused::<WaitStep>(e),
                    Ok(job) => r == Ok::<WaitStep, DbError>(
                        wait_step_of(job.status, until, now, poll_ms),
                    ),
                },
            },
    {
        match self.find_job(id) {
            None => Err(DbError::WaitingJobGone),
            Some(k) => match self.jobs[k].read() {
                Err(e) => Err(e),
                Ok(job) => {
                    let status = job.status;
                    if status != JobStatus::ReadyToUpload && status != JobStatus::UploadRetryWait {
                        return Ok(WaitStep::Stop(status));
                    }
                    if until <= now {
                        return Ok(WaitStep::Go);
                    }
                    let poll: i64 = if poll_ms < 1 {
                        1
                    } else {
                        poll_ms
                    };
                    let left: i128 = (until as i128) - (now as i128);
                    if left < poll as i128 {
                        Ok(WaitStep::Sleep(left as i64))
                    } else {
                        Ok(WaitStep::Sleep(poll))
                    }
                },
            },
        }
    }
}

/// The minutes from now until a time, rounded up from whole seconds.
pub open spec fn minutes_until(until: i64, now: i64) -> int {
    ((until - now) / 1000 + 59) / 60
}

/// What is logged when a job starts to wait; nothing where the time lies outside the calendar.
pub fn window_text(until: i64, now: i64) -> (r: Option<String>)
    requires
        now <= until,
    ensures
        opt_view(r) == match rfc3339_text(until as int) {
            Some(t) => Some(
                "等待 Bilibili 投稿窗口至 "@ + t + "（约 "@ + decimal_of(
                    minutes_until(until, now) as nat,
                ) + " 分钟）"@,
            ),
            None => None,
        },
{
    match rfc3339(until) {
        None => None,
        Some(t) => {
            let seconds: i128 = ((until as i128) - (now as i128)) / 1000;
            let minutes: u64 = ((seconds + 59) / 60) as u64;
            let mut s = "等待 Bilibili 投稿窗口至 ".to_owned();
            s.append(t.as_str());
            s.append("（约 ");
            s.append(decimal(minutes).as_str());
            s.append(" 分钟）");
            Some(s)
        },
    }
}

/// What is logged when a job stops waiting because of its status.
pub fn stopped_text(status: JobStatus) -> (r: String)
    ensures
        r@ == "已停止等待 Bilibili 投稿窗口，任务状态为 "@ + status.text(),
{
    join("已停止等待 Bilibili 投稿窗口，任务状态为 ", status.as_str())
}

// ---------------------------------------------------------------------------------------------
// What the submission says
// ---------------------------------------------------------------------------------------------

/// The pattern of a published video's name.
pub const BVID_PATTERN: &'static str = "\\bBV[0-9A-Za-z]+\\b";

/// Whether a text is the name of a published video.
pub open spec fn is_bvid(s: Seq<char>) -> bool {
    &&& s.len() > 2
    &&& s[0] == 'B'
    &&& s[1] == 'V'
    &&& forall|i: int| 0 <= i < s.len() ==> is_ascii_word(#[trigger] s[i])
}

/// The leftmost part of a text that a pattern fits; nothing where it fits none, or where the pattern
/// is none (`regex::Regex::new`, `find`).
pub uninterp spec fn first_match_of(pattern: Seq<char>, text: Seq<char>) -> Option<Seq<char>>;

/// `regex::Regex::new` and `find`: the leftmost part of a text that a pattern fits, which depends on
/// the two alone. It is a part of the text; the pattern of a published video's name fits only such
/// names. Where in the text it stands is left to the crate.
#[verifier::external_body]
fn first_match(pattern: &str, text: &str) -> (r: Option<String>)
    ensures
        opt_view(r) == first_match_of(pattern@, text@),
        r matches Some(part) ==> occurs_in(text@, part@),
        r matches Some(part) ==> (pattern@ == BVID_PATTERN@ ==> is_bvid(part@)),
{
    regex::Regex::new(pattern).ok()?.find(text).map(|found| found.as_str().to_string())
}

/// The name of a published video in what the submission printed.
pub fn find_bvid(stdout: &str, stderr: &str) -> (r: Option<String>)
    ensures
        opt_view(r) == first_match_of(BVID_PATTERN@, stdout@ + "\n"@ + stderr@),
        r matches Some(b) ==> is_bvid(b@),
{
    let mut merged = stdout.to_owned();
    merged.append("\n");
    merged.append(stderr);
    first_match(BVID_PATTERN, merged.as_str())
}

/// How the program that submits ended.
#[derive(Debug, Clone, Copy, PartialEq, Eq, Structural)]
pub enum Ended {
    /// It says that it succeeded.
    Well,
    /// It says that it failed.
    Badly,
    /// It was cut off.
    CutOff,
}

/// What is known of a submission.
#[derive(Debug)]
pub enum Submitted {
    /// It went through, under that name.
    Published(String),
    /// It did not go through.
    Refused,
    /// It may have gone through.
    InDoubt,
}

/// What is known of a submission from how it ended and the name that it printed. Only a clear
/// failure counts as refused: a submission that was cut off, or that tells no name, is in doubt.
pub fn judge_submission(ended: Ended, bvid: Option<String>) -> (r: Submitted)
    ensures
        r matches Submitted::Published(b) ==> opt_view(bvid) == Some(b@),
        r is Published <==> ended is Well && bvid is Some,
        r is Refused <==> ended is Badly,
{
    match ended {
        Ended::Well => match bvid {
            Some(b) => Submitted::Published(b),
            None => Submitted::InDoubt,
        },
        Ended::Badly => Submitted::Refused,
        Ended::CutOff => Submitted::InDoubt,
    }
}

// ---------------------------------------------------------------------------------------------
// Soft subtitles
// ---------------------------------------------------------------------------------------------

/// Why no soft subtitles are submitted.
#[derive(Debug, Clone, Copy, PartialEq, Eq, Structural)]
pub enum CcFault {
    /// No job has that published video.
    NoJob,
    /// The job has no published video.
    NoBvid,
    /// There are no English subtitles.
    NoCaptions,
    /// There is no translation, and none is made now.
    NoMaterial,
    /// The translation holds nothing.
    Empty,
}

impl CcFault {
    /// The message, given the job's name where it has no published video, else that of the video.
    pub open spec fn text(self, name: Seq<char>) -> Seq<char> {
        match self {
            CcFault::NoJob => "数据库中找不到 bvid="@ + name + " 的任务"@,
            CcFault::NoBvid => "任务 "@ + name + " 没有 BVID"@,
            CcFault::NoCaptions => "无法获取英文字幕，跳过 CC 字幕补交"@,
            CcFault::NoMaterial => "缺少翻译素材，跳过自动 CC 提交（可手动执行 y2b subtitle add "@
                + name + "）"@,
            CcFault::Empty => "翻译结果为空，没有可提交的中文字幕"@,
        }
    }

    /// The message, given the job's name where it has no published video, else that of the video.
    pub fn message(self, name: &str) -> (r: String)
        ensures
            r@ == self.text(name@),
    {
        match self {
            CcFault::NoJob => {
                let mut s = "数据库中找不到 bvid=".to_owned();
                s.append(name);
                s.append(" 的任务");
                s
            },
            CcFault::NoBvid => {
                let mut s = "任务 ".to_owned();
                s.append(name);
                s.append(" 没有 BVID");
                s
            },
            CcFault::NoCaptions => "无法获取英文字幕，跳过 CC 字幕补交".to_owned(),
            CcFault::NoMaterial => {
                let mut s = "缺少翻译素材，跳过自动 CC 提交（可手动执行 y2b subtitle add ".to_owned();
                s.append(name);
                s.append("）");
                s
            },
            CcFault::Empty => "翻译结果为空，没有可提交的中文字幕".to_owned(),
        }
    }
}

/// The published video of a job.
pub fn published_id(job: &Job) -> (r: Result<String, CcFault>)
    ensures
        match job@.bvid {
            Some(b) => if b.len() > 0 {
                r matches Ok(x) && x@ == b
            } else {
                r matches Err(e) && e == CcFault::NoBvid
            },
            None => r matches Err(e) && e == CcFault::NoBvid,
        },
{
    match &job.bvid {
        Some(b) => if b.as_str().is_empty() {
            Err(CcFault::NoBvid)
        } else {
            Ok(b.clone())
        },
        None => Err(CcFault::NoBvid),
    }
}

/// What YouTube told of a job's video, as far as the job itself knows it.
pub fn known_of_job(job: &Job) -> (r: VideoMetadata)
    ensures
        r.id@ == job@.video_id,
        r.url@ == job@.url,
        r.title@.len() == 0,
        r.description is None && r.uploader is None && r.upload_date is None && r.channel is None,
        r.channel_id is None && r.timestamp is None && r.duration_ms is None && r.width is None,
        r.height is None && r.fps_milli is None && r.thumbnail_url is None && r.webpage_url is None,
        r.live_status is None && r.default_audio_language is None,
{
    VideoMetadata {
        id: job.video_id.clone(),
        url: job.url.clone(),
        title: String::new(),
        description: None,
        uploader: None,
        upload_date: None,
        channel: None,
        channel_id: None,
        timestamp: None,
        duration_ms: None,
        width: None,
        height: None,
        fps_milli: None,
        thumbnail_url: None,
        webpage_url: None,
        live_status: None,
        default_audio_language: None,
    }
}

/// What is done for the soft subtitles of a published video.
#[derive(Debug, Clone, Copy, PartialEq, Eq, Structural)]
pub enum CcStep {
    /// Nothing: Chinese ones are there.
    There,
    /// The translation that was kept is submitted.
    UseKept,
    /// A translation is made first.
    Make,
    /// Nothing can be done.
    Lack,
}

/// What is done for the soft subtitles of a published video, where a translation was kept or not and
/// may be made or not.
pub fn cc_step(has_chinese: bool, kept: bool, may_make: bool) -> (r: CcStep)
    ensures
        r is There <==> has_chinese,
        r is UseKept <==> !has_chinese && kept,
        r is Make <==> !has_chinese && !kept && may_make,
{
    if has_chinese {
        CcStep::There
    } else if kept {
        CcStep::UseKept
    } else if may_make {
        CcStep::Make
    } else {
        CcStep::Lack
    }
}

/// The lines that are submitted of a translation: cut off at the video's end and short enough for the
/// platform.
pub fn cc_lines(cues: &[Cue], duration_ms: i64) -> (r: Result<Vec<CcCue>, CcFault>)
    ensures
        ({
            let list = cc_list(cues@, Some(duration_ms), cues@.len() as int);
            if list.len() == 0 {
                r matches Err(e) && e == CcFault::Empty
            } else {
                r matches Ok(lines) && cc_models(lines@) == all_pieces(list, list.len() as int)
            }
        }),
{
    let list = cc_cues_from(cues, Some(duration_ms));
    proof {
        assert(cc_models(list@).len() == list@.len());
        cc_lines_have_a_length(cues@, Some(duration_ms), cues@.len() as int);
        assert forall|i: int| 0 <= i < list@.len() implies (#[trigger] list@[i]).from
            <= list@[i].to by {
            assert(cc_models(list@)[i] == list@[i]@);
        }
    }
    if list.len() == 0 {
        return Err(CcFault::Empty);
    }
    Ok(split_cc_cues(list.as_slice()))
}

/// What is told of a video that has Chinese subtitles.
pub fn there_text(bvid: &str) -> (r: String)
    ensures
        r@ == bvid@ + " 已有中文字幕，跳过"@,
{
    join(bvid, " 已有中文字幕，跳过")
}

/// What is told of subtitles that were submitted.
pub fn submitted_text(lines: usize) -> (r: String)
    ensures
        r@ == "已提交中文 CC 字幕（"@ + decimal_of(lines as nat) + " 条），等待 B站审核"@,
{
    let mut s = "已提交中文 CC 字幕（".to_owned();
    s.append(decimal(lines as u64).as_str());
    s.append(" 条），等待 B站审核");
    s
}

// ---------------------------------------------------------------------------------------------
// When a video may go out
// ---------------------------------------------------------------------------------------------

/// A job has a plan to go by if and only if it waits for its submission, the account is not known
/// to be bad, and its plan ends in a status in which submissions end.
pub proof fn plans_are_ready_when_all_is_well(db: DbModel, k: int, job: JobModel)
    requires
        db.wf(),
        0 <= k < db.jobs.len(),
        db.jobs[k].job.id == job.id,
    ensures
        ({
            let waits = job.status == JobStatus::ReadyToUpload || job.status
                == JobStatus::UploadRetryWait;
            let auth = db.setting("auth.bilibili"@);
            let bad = auth is Some && auth->Some_0.len() >= 6 && auth->Some_0.subrange(0, 6)
                == "failed"@;
            let plan = db.jobs[k].prepared_upload;
            let end = plan->Some_0->completion_status;
            let r = plan_fault(db, job);
            &&& r is None <==> waits && !bad && plan is Some && (end == JobStatus::Completed || end
                == JobStatus::UploadedOriginalPendingSubtitle)
            &&& !waits ==> r == Some(UploadFault::NotWaiting(job.status))
            &&& waits && bad ==> r == Some(UploadFault::NoAccount)
            &&& waits && !bad && plan is None ==> r == Some(UploadFault::NoPlan)
            &&& plan_at(db, job.id) == plan
        }),
{
    jobs_are_found(db, k, job.id);
    reveal_strlit("failed");
}

/// A job is complete for its submission if and only if its video and its cover hold something, and
/// its title and what was told of the video are kept.
pub proof fn papers_are_complete_when_all_is_there(
    db: DbModel,
    k: int,
    video: Option<u64>,
    cover: Option<u64>,
)
    requires
        db.wf(),
        0 <= k < db.jobs.len(),
    ensures
        ({
            let id = db.jobs[k].job.id;
            let titled = exists|p: int|
                0 <= p < db.publications.len() && (#[trigger] db.publications[p]).job_id == id;
            let r = papers_fault(db, id, video, cover);
            &&& r is None <==> video is Some && video->Some_0 != 0 && cover is Some && cover->Some_0
                != 0 && titled && db.jobs[k].source_metadata is Some
            &&& source_at(db, id) == db.jobs[k].source_metadata
            &&& video is None || video == Some(0u64) ==> r == Some(UploadFault::NoVideo)
        }),
{
    let id = db.jobs[k].job.id;
    jobs_are_found(db, k, id);
    let p = |r: PublicationRowModel| r.job_id == id;
    place_means(db.publications, p);
    assert(db.publication_at(id) == place(db.publications, p));
    if db.publication_at(id) is None {
        assert forall|j: int| 0 <= j < db.publications.len() implies (
        #[trigger] db.publications[j]).job_id != id by {
            assert(!p(db.publications[j]));
        }
    } else {
        assert(db.publications[db.publication_at(id)->Some_0].job_id == id);
    }
}

/// A job that waits for its turn goes as soon as the time has come, sleeps no longer than to that
/// time and no longer than it is told to, and stops when its status changes.
pub proof fn waiting_ends_in_time(status: JobStatus, until: i64, now: i64, poll_ms: i64)
    requires
        poll_ms >= 1,
        until - now <= i64::MAX,
    ensures
        ({
            let r = wait_step_of(status, until, now, poll_ms);
            let waits = status == JobStatus::ReadyToUpload || status == JobStatus::UploadRetryWait;
            &&& r == WaitStep::Stop(status) <==> !waits
            &&& r is Go <==> waits && until <= now
            &&& r is Sleep <==> waits && now < until
            &&& r is Sleep ==> r->Sleep_0 == if until - now <= poll_ms {
                (until - now) as i64
            } else {
                poll_ms
            }
        }),
{
}

/// The minutes that are told cover the seconds that are left, and no minute more.
pub proof fn minutes_cover_the_wait(until: i64, now: i64)
    requires
        now <= until,
    ensures
        minutes_until(until, now) * 60 >= (until - now) / 1000,
        minutes_until(until, now) * 60 < (until - now) / 1000 + 60,
{
}

/// A submission went through where it ended well and told its name, under that name; it did not
/// where it ended badly; everything else is in doubt.
pub proof fn doubt_is_neither_success_nor_failure(ended: Ended, bvid: Option<String>, r: Submitted)
    requires
        call_ensures(judge_submission, (ended, bvid), r),
    ensures
        ended is Well && bvid is Some ==> r is Published && r->Published_0@ == bvid->Some_0@,
        ended is Badly ==> r is Refused,
        ended is CutOff ==> r is InDoubt,
        ended is Well && bvid is None ==> r is InDoubt,
{
}

/// Chinese subtitles that are there are left alone; a translation that was kept is used before one
/// is made, and one is made only where that is allowed.
pub proof fn subtitles_are_made_last(there: bool, kept: bool, may_make: bool, r: CcStep)
    requires
        call_ensures(cc_step, (there, kept, may_make), r),
    ensures
        there ==> r is There,
        !there && kept ==> r is UseKept,
        !there && !kept && may_make ==> r is Make,
        !there && !kept && !may_make ==> r is Lack,
{
}

/// The subtitles of a video are the lines of its cues in pieces, in order, and none is behind its
/// end.
pub proof fn subtitles_end_with_the_video(cues: Seq<Cue>, duration_ms: i64, n: int, k: int)
    requires
        0 <= n <= cues.len(),
        0 <= k < cc_list(cues, Some(duration_ms), n).len(),
    ensures
        cc_list(cues, Some(duration_ms), n)[k].to <= duration_ms,
        cc_list(cues, Some(duration_ms), n)[k].from < cc_list(cues, Some(duration_ms), n)[k].to,
{
    lines_follow_the_cues(cues, Some(duration_ms), n);
    let from = sources(cues, Some(duration_ms), n);
    assert(0 <= from[k] < n);
}

} // verus!
