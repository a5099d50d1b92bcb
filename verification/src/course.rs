//! The course of a job from its claim to its submission, and what the service does at a tick.
use vstd::prelude::*;

use crate::fault::{refused, DbError};
use crate::jobs::{countable, later};
use crate::model::{JobStatus, TransferMode, VideoMetadata};
use crate::prepare::{plan_of, Route};
use crate::queue::{
    Line, CLAIM_LEASE_MS, PREPARE_CLAIM_KIND, SUBTITLE_CLAIM_KIND,
};
use crate::retry::{
    cooldown_end, failed_submissions_wait_or_pause, upload_settled, UploadEnd, CC_MAX_ATTEMPTS,
    CC_RETRY_BASE_SECONDS, RETRY_MAX_SECONDS,
};
use crate::settings::{deadline_due, NEXT_BILIBILI_SUBMIT_AT};
use crate::store::{
    job_step, jobs_are_found, Database, DbModel, Job, JobModel, RowModel, UploadModel, UploadState,
};
use crate::submit::Submitted;
use crate::text::occurs_in;
use crate::uploads::{
    attempts_are_told_apart, next_waits, queues_subtitle, submission_noted, UploadCompletionTiming,
};

verus! {

/// One piece of work on a video.
#[derive(Debug, Clone, Copy, PartialEq, Eq, Structural)]
pub enum Work {
    /// The video is fetched, and beside that the title is made.
    VideoAndTitle,
    /// The video is fetched, and beside that the subtitles are translated.
    VideoAndSubtitles,
    /// The title is made, in that mode.
    Title(TransferMode),
    /// The video is looked at.
    Probe,
    /// The cover is fetched.
    Cover,
    /// The submission is planned.
    Plan,
}

/// What is done first on a way.
pub open spec fn opening_of(route: Route) -> Option<Work> {
    match route {
        Route::Direct => Some(Work::VideoAndTitle),
        Route::Reuse => None,
        Route::Translate => Some(Work::VideoAndSubtitles),
    }
}

/// What is done first on a way, where anything is fetched.
pub fn opening(route: Route) -> (r: Option<Work>)
    ensures
        r == opening_of(route),
{
    match route {
        Route::Direct => Some(Work::VideoAndTitle),
        Route::Reuse => None,
        Route::Translate => Some(Work::VideoAndSubtitles),
    }
}

/// What is done afterwards, in order, once it is known whether there are subtitles.
pub open spec fn closing_of(route: Route, has_subtitle: bool) -> Seq<Work> {
    match route {
        Route::Direct => seq![Work::Probe, Work::Cover, Work::Plan],
        Route::Reuse => seq![Work::Probe, Work::Cover, Work::Plan],
        Route::Translate => if has_subtitle {
            seq![Work::Title(TransferMode::Translated), Work::Probe, Work::Cover, Work::Plan]
        } else {
            seq![Work::Title(TransferMode::Direct), Work::Probe, Work::Cover, Work::Plan]
        },
    }
}

/// What is done afterwards, in order.
pub fn closing(route: Route, has_subtitle: bool) -> (r: Vec<Work>)
    ensures
        r@ == closing_of(route, has_subtitle),
{
    let mut out: Vec<Work> = Vec::new();
    match route {
        Route::Direct | Route::Reuse => {},
        Route::Translate => {
            if has_subtitle {
                out.push(Work::Title(TransferMode::Translated));
            } else {
                out.push(Work::Title(TransferMode::Direct));
            }
        },
    }
    out.push(Work::Probe);
    out.push(Work::Cover);
    out.push(Work::Plan);
    out
}

/// Whether a piece of work makes the title.
pub open spec fn titles(w: Work) -> bool {
    w is VideoAndTitle || w is Title
}

/// Every way ends with the plan, right after the cover, and before that the video is looked at:
/// nothing is submitted without a cover, nor unseen. Unless a title is there already, one is made
/// before.
pub proof fn no_way_skips_the_cover(route: Route, has_subtitle: bool)
    ensures
        ({
            let rest = closing_of(route, has_subtitle);
            &&& rest.len() >= 3
            &&& rest[rest.len() - 3] == Work::Probe
            &&& rest.last() == Work::Plan
            &&& rest[rest.len() - 2] == Work::Cover
            &&& forall|i: int| 0 <= i < rest.len() - 1 ==> rest[i] != Work::Plan
            &&& !(route is Reuse) ==> (opening_of(route) matches Some(w) && titles(w)) || titles(
                rest[0],
            )
        }),
{
}

/// A job that is told to be translated is planned as such exactly where there are subtitles, or were
/// when its title was made; else it waits for them after its submission.
pub proof fn subtitles_are_not_forgotten(route: Route, has_subtitle: bool)
    requires
        !(route is Direct),
    ensures
        ({
            let (mode, status) = plan_of(route, has_subtitle);
            queues_subtitle(status, mode)
        }),
{
}

impl RowModel {
    /// The row of a job on which a model starts to work.
    pub open spec fn taken_up(self, provider: Seq<char>, model: Seq<char>, thinking: Seq<char>, now: i64) -> RowModel {
        let row = self.moved(JobStatus::Inspecting, None, now);
        RowModel {
            job: JobModel {
                provider: Some(provider),
                ai_model: Some(model),
                thinking: Some(thinking),
                ..row.job
            },
            ..row
        }
    }

    /// The row of a job whose video is known.
    pub open spec fn looked_at(self, meta: VideoMetadata, is_short: bool, now: i64) -> RowModel {
        let row = self.moved(JobStatus::Processing, None, now);
        RowModel {
            job: JobModel {
                title: Some(meta.title@),
                is_short,
                duration_ms: meta.duration_ms,
                width: meta.width,
                height: meta.height,
                ..row.job
            },
            source_metadata: Some(meta),
            ..row
        }
    }
}

/// Whether a video is a Short.
pub open spec fn is_short_video(meta: VideoMetadata) -> bool {
    (meta.upright() || meta.shorts_address()) && (meta.duration_ms matches Some(d) && d
        <= meta.shorts_limit())
}

impl Database {
    /// Starts the preparation of a job that this process holds, with the model that works on it.
    pub fn begin_preparation(&mut self, id: &str, provider: &str, model: &str, thinking: &str, now: i64) -> (r:
        Result<(), DbError>)
        ensures
            match old(self)@.claimed_at(id@, PREPARE_CLAIM_KIND@) {
                None => r == refused::<()>(DbError::ClaimLost) && final(self)@ == old(self)@,
                Some(k) => r is Ok && final(self)@ == old(self)@.with_job(
                    k,
                    old(self)@.jobs[k].taken_up(provider@, model@, thinking@, now),
                ),
            },
            old(self)@.wf() ==> final(self)@.wf(),
    {
        match self.find_claimed(id, PREPARE_CLAIM_KIND) {
            None => Err(DbError::ClaimLost),
            Some(k) => {
                let ghost before = self@;
                self.jobs[k].move_to(JobStatus::Inspecting, None, now);
                self.jobs[k].job.provider = Some(provider.to_owned());
                self.jobs[k].job.ai_model = Some(model.to_owned());
                self.jobs[k].job.thinking = Some(thinking.to_owned());
                proof {
                    assert(self@ =~= before.with_job(k as int, self@.jobs[k as int]));
                    job_step(before, self@, k as int);
                }
                Ok(())
            },
        }
    }

    /// Keeps what YouTube tells of the video of a job that this process prepares.
    pub fn note_inspection(&mut self, id: &str, meta: &VideoMetadata, now: i64) -> (r: Result<(), DbError>)
        ensures
            match old(self)@.claimed_at(id@, PREPARE_CLAIM_KIND@) {
                None => r == refused::<()>(DbError::ClaimLost) && final(self)@ == old(self)@,
                Some(k) => r is Ok && final(self)@ == old(self)@.with_job(
                    k,
                    old(self)@.jobs[k].looked_at(*meta, is_short_video(*meta), now),
                ),
            },
            old(self)@.wf() ==> final(self)@.wf(),
    {
        match self.find_claimed(id, PREPARE_CLAIM_KIND) {
            None => Err(DbError::ClaimLost),
            Some(k) => {
                let ghost before = self@;
                self.jobs[k].move_to(JobStatus::Processing, None, now);
                self.jobs[k].job.title = Some(meta.title.clone());
                self.jobs[k].job.is_short = meta.is_short();
                self.jobs[k].job.duration_ms = meta.duration_ms;
                self.jobs[k].job.width = meta.width;
                self.jobs[k].job.height = meta.height;
                self.jobs[k].source_metadata = Some(meta.copied());
                proof {
                    assert(self@ =~= before.with_job(k as int, self@.jobs[k as int]));
                    job_step(before, self@, k as int);
                }
                Ok(())
            },
        }
    }
}

// ---------------------------------------------------------------------------------------------
// The end of a submission
// ---------------------------------------------------------------------------------------------

/// What a submission came to.
#[derive(Debug, Clone, Copy, PartialEq, Eq, Structural)]
pub enum Settled {
    /// The video is published; whether the job waits for its subtitle.
    Done { subtitle: bool },
    /// The submission failed.
    Failed(UploadEnd),
    /// The submission may have gone through.
    InDoubt,
}

/// How a submission is timed that went through: the subtitle is tried a while later, and the next
/// video waits for so many seconds.
pub open spec fn timing_of(interval_seconds: u64, now: i64) -> Option<UploadCompletionTiming> {
    if interval_seconds == 0 {
        Some(
            UploadCompletionTiming {
                subtitle_delay_seconds: CC_RETRY_BASE_SECONDS,
                next_submit_at: None,
            },
        )
    } else {
        match cooldown_end(interval_seconds, now) {
            Some(at) => Some(
                UploadCompletionTiming {
                    subtitle_delay_seconds: CC_RETRY_BASE_SECONDS,
                    next_submit_at: Some(at as i64),
                },
            ),
            None => None,
        }
    }
}

/// How a submission is timed that went through; nothing where that cannot be counted.
pub fn completion_timing(interval_seconds: u64, now: i64) -> (r: Option<UploadCompletionTiming>)
    ensures
        r == timing_of(interval_seconds, now),
{
    if interval_seconds == 0 {
        return Some(
            UploadCompletionTiming {
                subtitle_delay_seconds: CC_RETRY_BASE_SECONDS,
                next_submit_at: None,
            },
        );
    }
    let wait: i64 = if interval_seconds > i64::MAX as u64 {
        i64::MAX
    } else {
        interval_seconds as i64
    };
    let at: i128 = (now as i128) + (wait as i128) * 1000;
    if at > i64::MAX as i128 {
        return None;
    }
    Some(
        UploadCompletionTiming {
            subtitle_delay_seconds: CC_RETRY_BASE_SECONDS,
            next_submit_at: Some(at as i64),
        },
    )
}

/// How submissions are spaced, and how often they are tried.
#[derive(Debug, Clone, Copy, PartialEq, Eq, Structural)]
pub struct SubmitLimits {
    /// The time between two submissions, in seconds.
    pub interval_seconds: u64,
    /// The time that all wait when they come too fast, in seconds.
    pub cooldown_seconds: u64,
    pub max_attempts: u32,
}

/// The tables with a submission attempt refused for certain.
pub open spec fn attempt_failed(db: DbModel, k: int, a: int, detail: Seq<char>, now: i64) -> DbModel {
    db.with_upload(
        a,
        UploadModel {
            status: UploadState::Failed,
            detail: Some(detail),
            finished_at: Some(now),
            ..db.uploads[a]
        },
    ).with_job(k, RowModel { updated_at: now, ..db.jobs[k].released() })
}

/// The tables with a submission attempt in doubt.
pub open spec fn attempt_in_doubt(db: DbModel, k: int, a: int, detail: Seq<char>, now: i64) -> DbModel {
    db.with_upload(
        a,
        UploadModel {
            status: UploadState::Uncertain,
            detail: Some(detail),
            finished_at: Some(now),
            ..db.uploads[a]
        },
    ).with_job(k, db.jobs[k].moved(JobStatus::UploadUncertain, Some(detail), now).released())
}

/// What it does to settle a submission of this process. A published one is noted; a refused one is
/// counted and waits or is paused; one in doubt waits for somebody to look.
pub open spec fn submission_settled(
    db: DbModel,
    id: Seq<char>,
    attempt_id: Seq<char>,
    outcome: Submitted,
    detail: Seq<char>,
    status: JobStatus,
    mode: TransferMode,
    limits: SubmitLimits,
    now: i64,
) -> (DbModel, Result<Settled, DbError>) {
    let job = db.uploading_at(id);
    let attempt = db.running_attempt(id, attempt_id);
    match outcome {
        Submitted::Published(bvid) => match timing_of(limits.interval_seconds, now) {
            None => (db, Err(DbError::CooldownOverflow)),
            Some(timing) => match submission_noted(
                db,
                job,
                attempt,
                UploadState::Succeeded,
                None,
                DbError::AttemptGone,
                bvid@,
                status,
                mode,
                timing,
                now,
            ) {
                Ok(after) => (after, Ok(Settled::Done { subtitle: queues_subtitle(status, mode) })),
                Err(e) => (db, Err(e)),
            },
        },
        Submitted::Refused => match (job, attempt) {
            (Some(k), Some(a)) => {
                let (after, r) = upload_settled(
                    attempt_failed(db, k, a, detail, now),
                    id,
                    detail,
                    limits.cooldown_seconds,
                    limits.max_attempts,
                    now,
                );
                (
                    after,
                    match r {
                        Ok(end) => Ok(Settled::Failed(end)),
                        Err(e) => Err(e),
                    },
                )
            },
            _ => (db, Err(DbError::AttemptGone)),
        },
        Submitted::InDoubt => match (job, attempt) {
            (Some(k), Some(a)) => (
                attempt_in_doubt(db, k, a, detail, now),
                Ok(Settled::InDoubt),
            ),
            _ => (db, Err(DbError::AttemptGone)),
        },
    }
}

impl Database {
    /// Settles a submission of this process.
    pub fn settle_submission(
        &mut self,
        id: &str,
        attempt_id: &str,
        outcome: &Submitted,
        detail: &str,
        status: JobStatus,
        mode: TransferMode,
        limits: SubmitLimits,
        now: i64,
    ) -> (r: Result<Settled, DbError>)
        requires
            countable(later(now, RETRY_MAX_SECONDS)),
        ensures
            (final(self)@, r) == submission_settled(
                old(self)@,
                id@,
                attempt_id@,
                *outcome,
                detail@,
                status,
                mode,
                limits,
                now,
            ),
            r matches Ok(Settled::Done { .. }) ==> (timing_of(limits.interval_seconds, now) matches Some(
                timing,
            ) && (timing.in_calendar() ==> next_waits(final(self)@, timing))),
            old(self)@.wf() ==> final(self)@.wf(),
    {
        match outcome {
            Submitted::Published(bvid) => match completion_timing(limits.interval_seconds, now) {
                None => Err(DbError::CooldownOverflow),
                Some(timing) => match self.finish_upload_attempt(
                    id,
                    attempt_id,
                    bvid.as_str(),
                    status,
                    mode,
                    timing,
                    now,
                ) {
                    Ok(subtitle) => Ok(Settled::Done { subtitle }),
                    Err(e) => Err(e),
                },
            },
            Submitted::Refused => match self.fail_upload_attempt(id, attempt_id, detail, now) {
                Err(e) => Err(e),
                Ok(()) => match self.settle_upload_failure(
                    id,
                    detail,
                    limits.cooldown_seconds,
                    limits.max_attempts,
                    now,
                ) {
                    Ok(end) => Ok(Settled::Failed(end)),
                    Err(e) => Err(e),
                },
            },
            Submitted::InDoubt => match self.mark_upload_attempt_uncertain(
                id,
                attempt_id,
                detail,
                now,
            ) {
                Ok(()) => Ok(Settled::InDoubt),
                Err(e) => Err(e),
            },
        }
    }

    /// The next job to prepare, claimed, where nobody is at work and the models can be called.
    pub fn prepare_turn(&mut self, busy: bool, models_down: bool, now: i64) -> (r: Option<Job>)
        requires
            now + CLAIM_LEASE_MS <= i64::MAX,
        ensures
            match old(self)@.first_in(Line::Claimable, now) {
                Some(k) if !busy && !models_down => {
                    let row = old(self)@.inspected(old(self)@.jobs[k], now);
                    (r matches Some(j) && j@ == row.job) && final(self)@ == old(self)@.with_job(
                        k,
                        row,
                    )
                },
                _ => r is None && final(self)@ == old(self)@,
            },
            old(self)@.wf() ==> final(self)@.wf(),
    {
        if busy || models_down {
            return None;
        }
        self.claim_next_prepare_job(now)
    }

    /// The next job to submit, where nobody is at work and a video may be submitted.
    pub fn upload_turn(&self, busy: bool, now: i64) -> (r: Result<Option<Job>, DbError>)
        ensures
            if busy || self@.held(now) {
                r matches Ok(None)
            } else {
                match deadline_due(self@.setting(NEXT_BILIBILI_SUBMIT_AT@), now) {
                    Err(e) => r == refused::<Option<Job>>(e),
                    Ok(due) => match self@.first_in(Line::ReadyToUpload, now) {
                        Some(k) if due => r matches Ok(Some(j)) && j@ == self@.jobs[k].job,
                        _ => r matches Ok(None),
                    },
                }
            },
    {
        if busy {
            return Ok(None);
        }
        match self.bilibili_submission_due(now) {
            Err(e) => Err(e),
            Ok(due) => if due {
                Ok(self.next_ready_to_upload_job(now))
            } else {
                Ok(None)
            },
        }
    }

    /// The next job to add a subtitle to, claimed, where nobody is at work.
    pub fn subtitle_turn(&mut self, busy: bool, now: i64) -> (r: Option<Job>)
        requires
            now + CLAIM_LEASE_MS <= i64::MAX,
        ensures
            match old(self)@.first_in(Line::Subtitle(CC_MAX_ATTEMPTS), now) {
                Some(k) if !busy => {
                    &&& r matches Some(j)
                    &&& j@ == old(self)@.jobs[k].job
                    &&& final(self)@ == old(self)@.with_job(
                        k,
                        old(self)@.claim_of(old(self)@.jobs[k], SUBTITLE_CLAIM_KIND@, now),
                    )
                },
                _ => r is None && final(self)@ == old(self)@,
            },
            old(self)@.wf() ==> final(self)@.wf(),
    {
        if busy {
            return None;
        }
        self.claim_next_pending_subtitle_job(CC_MAX_ATTEMPTS, now)
    }
}

// ---------------------------------------------------------------------------------------------
// How a job goes on
// ---------------------------------------------------------------------------------------------

/// What is done for a video on each way: a video that goes as it is gets its title beside the
/// fetching; one whose material is kept is not fetched; one to be translated is translated beside
/// the fetching, and its title says whether that went well.
pub proof fn each_way_has_its_work(has_subtitle: bool)
    ensures
        opening_of(Route::Direct) == Some(Work::VideoAndTitle),
        opening_of(Route::Reuse) is None,
        opening_of(Route::Translate) == Some(Work::VideoAndSubtitles),
        closing_of(Route::Direct, has_subtitle).len() == 3,
        closing_of(Route::Reuse, has_subtitle).len() == 3,
        closing_of(Route::Translate, has_subtitle).len() == 4,
        closing_of(Route::Translate, true)[0] == Work::Title(TransferMode::Translated),
        closing_of(Route::Translate, false)[0] == Work::Title(TransferMode::Direct),
{
}

/// A job that is taken up bears which model works on it; one that was looked at bears what the
/// video tells, and all of that is kept.
pub proof fn jobs_bear_what_is_known(
    row: RowModel,
    provider: Seq<char>,
    model: Seq<char>,
    thinking: Seq<char>,
    meta: VideoMetadata,
    is_short: bool,
    now: i64,
)
    ensures
        ({
            let after = row.taken_up(provider, model, thinking, now);
            &&& after.job.status == JobStatus::Inspecting && after.job.error is None
            &&& after.job.provider == Some(provider) && after.job.ai_model == Some(model)
            &&& after.job.thinking == Some(thinking) && after.updated_at == now
            &&& after.job.id == row.job.id && after.job.attempt == row.job.attempt
            &&& after.claim_owner == row.claim_owner
        }),
        ({
            let after = row.looked_at(meta, is_short, now);
            &&& after.job.status == JobStatus::Processing && after.job.error is None
            &&& after.job.title == Some(meta.title@) && after.job.is_short == is_short
            &&& after.job.duration_ms == meta.duration_ms
            &&& after.job.width == meta.width && after.job.height == meta.height
            &&& after.source_metadata == Some(meta) && after.updated_at == now
            &&& after.job.id == row.job.id && after.job.provider == row.job.provider
            &&& after.claim_owner == row.claim_owner
        }),
{
}

/// A short is a video whose picture is not wider than high, or whose address says so, of known
/// length: at most a minute where it was published before 30 October 2024, else at most three.
pub proof fn shorts_are_short_and_upright(meta: VideoMetadata)
    ensures
        is_short_video(meta) <==> {
            &&& meta.duration_ms is Some
            &&& meta.duration_ms->Some_0 <= if meta.timestamp is Some && meta.timestamp->Some_0
                < 1_730_246_400 {
                60_000int
            } else {
                180_000int
            }
            &&& (meta.width is Some && meta.height is Some && meta.width->Some_0
                <= meta.height->Some_0) || occurs_in(meta.url@, "/shorts/"@) || (
            meta.webpage_url is Some && occurs_in(meta.webpage_url->Some_0@, "/shorts/"@))
        },
{
}

/// After a submission the subtitle is tried a minute and a half later, and the next video waits the
/// interval out; without an interval it does not wait.
pub proof fn submissions_are_spaced(interval_seconds: u64, now: i64)
    ensures
        interval_seconds == 0 ==> (timing_of(interval_seconds, now) matches Some(t)
            && t.subtitle_delay_seconds == 90 && t.next_submit_at is None),
        0 < interval_seconds <= i64::MAX && now + interval_seconds * 1000 <= i64::MAX
            ==> (timing_of(interval_seconds, now) matches Some(t) && t.subtitle_delay_seconds == 90
            && t.next_submit_at == Some((now + interval_seconds * 1000) as i64)),
{
}

/// A submission that may have gone through is never tried again by itself: the job and the attempt
/// are in doubt, with the reason, and nobody holds the job.
pub proof fn doubt_is_kept(
    db: DbModel,
    k: int,
    a: int,
    attempt_id: Seq<char>,
    detail: Seq<char>,
    status: JobStatus,
    mode: TransferMode,
    limits: SubmitLimits,
    now: i64,
)
    requires
        db.wf(),
        0 <= k < db.jobs.len(),
        db.uploading_at(db.jobs[k].job.id) == Some(k),
        db.running_attempt(db.jobs[k].job.id, attempt_id) == Some(a),
    ensures
        ({
            let (after, r) = submission_settled(
                db, db.jobs[k].job.id, attempt_id, Submitted::InDoubt, detail, status, mode, limits, now,
            );
            &&& r == Ok::<Settled, DbError>(Settled::InDoubt)
            &&& after.jobs[k].job.status == JobStatus::UploadUncertain
            &&& after.jobs[k].legacy is None && after.jobs[k].job.error == Some(detail)
            &&& after.jobs[k].claim_owner is None && after.jobs[k].claim_kind is None
            &&& after.jobs[k].job.attempt == db.jobs[k].job.attempt
            &&& after.jobs[k].prepared_upload == db.jobs[k].prepared_upload
            &&& after.uploads[a].status == UploadState::Uncertain
            &&& after.uploads[a].detail == Some(detail)
            &&& after.uploads[a].finished_at == Some(now)
            &&& after.settings == db.settings
        }),
{
    attempts_are_told_apart(db, k, a, attempt_id);
}

/// A refused submission ends its attempt as failed, frees the job, and counts: the job is paused if
/// and only if the failures reach the allowed number, and else waits.
pub proof fn refusals_are_counted(
    db: DbModel,
    k: int,
    a: int,
    attempt_id: Seq<char>,
    detail: Seq<char>,
    status: JobStatus,
    mode: TransferMode,
    limits: SubmitLimits,
    now: i64,
)
    requires
        db.wf(),
        0 <= k < db.jobs.len(),
        db.uploading_at(db.jobs[k].job.id) == Some(k),
        db.running_attempt(db.jobs[k].job.id, attempt_id) == Some(a),
        0 <= db.jobs[k].job.attempt < i64::MAX,
        db.event_seq < i64::MAX,
        !occurs_in(detail, "21566"@),
        countable(now + 3_600_000),
    ensures
        ({
            let (after, r) = submission_settled(
                db, db.jobs[k].job.id, attempt_id, Submitted::Refused, detail, status, mode, limits, now,
            );
            let failures = db.jobs[k].job.attempt + 1;
            let row = after.jobs[k];
            &&& r is Ok && r->Ok_0 is Failed
            &&& row.job.attempt == failures && row.job.error == Some(detail)
            &&& row.claim_owner is None && row.claim_kind is None
            &&& failures >= limits.max_attempts ==> row.job.status == JobStatus::Paused
            &&& failures < limits.max_attempts ==> row.job.status == JobStatus::UploadRetryWait
                && row.retry_at is Some && now + 600_000 <= row.retry_at->Some_0 <= now + 3_600_000
            &&& row.prepared_upload == db.jobs[k].prepared_upload
            &&& after.uploads[a].status == UploadState::Failed
            &&& after.uploads[a].detail == Some(detail)
            &&& after.uploads[a].finished_at == Some(now)
        }),
{
    let id = db.jobs[k].job.id;
    attempts_are_told_apart(db, k, a, attempt_id);
    let failed = attempt_failed(db, k, a, detail, now);
    assert(failed == db.with_upload(a, failed.uploads[a]).with_job(k, failed.jobs[k]));
    let ended = db.with_upload(a, failed.uploads[a]);
    job_step(ended, failed, k);
    jobs_are_found(failed, k, id);
    failed_submissions_wait_or_pause(
        failed,
        id,
        detail,
        limits.cooldown_seconds,
        limits.max_attempts,
        now,
        k,
    );
}

/// A submission that went through bears its name on the job and on the attempt; the job waits for
/// its subtitle if and only if it was translated or is to be.
pub proof fn publications_are_kept(
    db: DbModel,
    k: int,
    a: int,
    attempt_id: Seq<char>,
    outcome: Submitted,
    detail: Seq<char>,
    status: JobStatus,
    mode: TransferMode,
    limits: SubmitLimits,
    now: i64,
)
    requires
        db.wf(),
        0 <= k < db.jobs.len(),
        db.uploading_at(db.jobs[k].job.id) == Some(k),
        db.running_attempt(db.jobs[k].job.id, attempt_id) == Some(a),
        outcome is Published,
        status == JobStatus::Completed || status == JobStatus::UploadedOriginalPendingSubtitle,
        limits.interval_seconds == 0,
        forall|j: int|
            0 <= j < db.jobs.len() && j != k ==> (#[trigger] db.jobs[j]).job.bvid
                != Some(outcome->Published_0@),
        countable(now + 90_000),
    ensures
        ({
            let (after, r) = submission_settled(
                db, db.jobs[k].job.id, attempt_id, outcome, detail, status, mode, limits, now,
            );
            let waits = status == JobStatus::UploadedOriginalPendingSubtitle || mode
                == TransferMode::Translated;
            &&& r == Ok::<Settled, DbError>(Settled::Done { subtitle: waits })
            &&& after.jobs[k].job.bvid == Some(outcome->Published_0@)
            &&& waits ==> after.jobs[k].job.status == JobStatus::UploadedOriginalPendingSubtitle
                && after.jobs[k].subtitle_retry_at == Some((now + 90_000) as i64)
            &&& !waits ==> after.jobs[k].job.status == JobStatus::Completed
            &&& after.jobs[k].claim_owner is None
            &&& after.uploads[a].status == UploadState::Succeeded
            &&& after.uploads[a].bvid == Some(outcome->Published_0@)
        }),
{
    attempts_are_told_apart(db, k, a, attempt_id);
    assert(!db.bvid_taken(k, outcome->Published_0@));
}

} // verus!
