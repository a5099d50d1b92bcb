//! What becomes of a job: its status, its next try, its plan and what is noted of it.
use vstd::prelude::*;

use crate::fault::{refused, DbError};
use crate::model::{JobStatus, PreparedUpload, VideoMetadata};
use crate::queue::{
    claims_are_told_apart, job_of, str_view, PREPARE_CLAIM_KIND, UNCERTAIN_UPLOAD_RECOVERY_ERROR,
};
use crate::store::{job_step, jobs_are_found, Database, DbModel, JobModel, JobRow, RowModel};
use crate::text::{copy_optional, opt_view, same_optional};

verus! {

/// A point in time so many seconds later.
pub open spec fn later(now: i64, seconds: i64) -> int {
    now + seconds * 1000
}

/// Whether a point in time can be counted.
pub open spec fn countable(ms: int) -> bool {
    i64::MIN <= ms <= i64::MAX
}

/// A point in time so many seconds later.
pub fn at_later(now: i64, seconds: i64) -> (r: i64)
    requires
        countable(later(now, seconds)),
    ensures
        r == later(now, seconds),
{
    ((now as i128) + (seconds as i128) * 1000) as i64
}

/// Whether a status waits for its next try.
pub fn is_wait(status: JobStatus) -> (r: bool)
    ensures
        r == status.waits(),
{
    status == JobStatus::RetryWait || status == JobStatus::UploadRetryWait
}

impl RowModel {
    /// The row in a status that waits until a time.
    pub open spec fn put_off(self, status: JobStatus, error: Seq<char>, until: int, now: i64) -> RowModel {
        RowModel { retry_at: Some(until as i64), ..self.moved(status, Some(error), now) }
    }

    /// Whether the job can be paused: nothing was submitted, and nothing is about to be.
    pub open spec fn pausable(self) -> bool {
        ||| self.is(JobStatus::Queued)
        ||| self.is(JobStatus::RetryWait)
        ||| self.is(JobStatus::Inspecting)
        ||| self.is(JobStatus::Processing)
        ||| self.is(JobStatus::ReadyToUpload)
        ||| self.is(JobStatus::UploadRetryWait)
    }

    /// Whether the job takes a plan for its submission.
    pub open spec fn preparable(self) -> bool {
        ||| self.is(JobStatus::Queued)
        ||| self.is(JobStatus::RetryWait)
        ||| self.is(JobStatus::Inspecting)
        ||| self.is(JobStatus::Processing)
        ||| self.is(JobStatus::Failed)
        ||| self.is(JobStatus::DeadLetter)
    }

    /// Whether the job was paused because its submission may have gone through.
    pub open spec fn paused_in_doubt(self) -> bool {
        self.is(JobStatus::Paused) && self.job.error == Some(UNCERTAIN_UPLOAD_RECOVERY_ERROR@)
    }

    /// Whether the job can be tried again by hand.
    pub open spec fn retryable(self) -> bool {
        ||| self.is(JobStatus::DeadLetter)
        ||| self.is(JobStatus::Failed)
        ||| self.is(JobStatus::Paused) && !self.paused_in_doubt()
    }

    /// Where a job starts again: with its submission if that is planned.
    pub open spec fn start(self) -> JobStatus {
        if self.prepared_upload is Some {
            JobStatus::ReadyToUpload
        } else {
            JobStatus::Queued
        }
    }

    /// The row of a job that starts again.
    pub open spec fn restarted(self, now: i64) -> RowModel {
        let row = self.moved(self.start(), None, now);
        RowModel { job: JobModel { attempt: 0, ..row.job }, retry_at: None, ..row }
    }
}

impl JobRow {
    /// Puts the row into a status that waits until a time.
    pub fn put_off(&mut self, status: JobStatus, error: &str, until: i64, now: i64)
        ensures
            final(self)@ == old(self)@.put_off(status, error@, until as int, now),
    {
        self.move_to(status, Some(error), now);
        self.retry_at = Some(until);
    }

    fn pausable(&self) -> (r: bool)
        ensures
            r == self@.pausable(),
    {
        self.is(JobStatus::Queued) || self.is(JobStatus::RetryWait) || self.is(JobStatus::Inspecting)
            || self.is(JobStatus::Processing) || self.is(JobStatus::ReadyToUpload) || self.is(
            JobStatus::UploadRetryWait,
        )
    }

    fn preparable(&self) -> (r: bool)
        ensures
            r == self@.preparable(),
    {
        self.is(JobStatus::Queued) || self.is(JobStatus::RetryWait) || self.is(JobStatus::Inspecting)
            || self.is(JobStatus::Processing) || self.is(JobStatus::Failed) || self.is(
            JobStatus::DeadLetter,
        )
    }

    fn paused_in_doubt(&self) -> (r: bool)
        ensures
            r == self@.paused_in_doubt(),
    {
        self.is(JobStatus::Paused) && same_optional(&self.job.error, UNCERTAIN_UPLOAD_RECOVERY_ERROR)
    }

    fn retryable(&self) -> (r: bool)
        ensures
            r == self@.retryable(),
    {
        self.is(JobStatus::DeadLetter) || self.is(JobStatus::Failed) || (self.is(JobStatus::Paused)
            && !self.paused_in_doubt())
    }

    /// Starts the job again.
    pub fn restart(&mut self, now: i64)
        ensures
            final(self)@ == old(self)@.restarted(now),
    {
        let status = if self.prepared_upload.is_some() {
            JobStatus::ReadyToUpload
        } else {
            JobStatus::Queued
        };
        self.move_to(status, None, now);
        self.job.attempt = 0;
        self.retry_at = None;
    }
}

/// What a write to a claimed job gives: the row that `row` makes of it, or an error where the claim
/// is gone.
pub open spec fn claimed_write(
    before: DbModel,
    after: DbModel,
    r: Result<(), DbError>,
    at: Option<int>,
    lost: DbError,
    row: spec_fn(RowModel) -> RowModel,
) -> bool {
    match at {
        Some(k) => r is Ok && after == before.with_job(k, row(before.jobs[k])),
        None => r == refused::<()>(lost) && after == before,
    }
}

/// What a write to a job gives that does nothing where the job is not there.
pub open spec fn plain_write(
    before: DbModel,
    after: DbModel,
    at: Option<int>,
    row: spec_fn(RowModel) -> RowModel,
) -> bool {
    match at {
        Some(k) => after == before.with_job(k, row(before.jobs[k])),
        None => after == before,
    }
}

impl Database {
    /// Puts a claimed job into another status, and gives it back if asked to. A status that waits
    /// needs a time to wait for and is refused.
    pub fn update_claimed_job_status(
        &mut self,
        id: &str,
        kind: &str,
        status: JobStatus,
        error: Option<&str>,
        release: bool,
        now: i64,
    ) -> (r: Result<(), DbError>)
        ensures
            if status.waits() {
                r == refused::<()>(DbError::ClaimedWaitStatus(status)) && final(self)@ == old(self)@
            } else {
                claimed_write(
                    old(self)@,
                    final(self)@,
                    r,
                    old(self)@.claimed_at(id@, kind@),
                    DbError::ClaimLost,
                    |row: RowModel|
                        {
                            let moved = row.moved(status, str_view(error), now);
                            if release {
                                moved.released()
                            } else {
                                moved
                            }
                        },
                )
            },
            old(self)@.wf() ==> final(self)@.wf(),
    {
        if is_wait(status) {
            return Err(DbError::ClaimedWaitStatus(status));
        }
        match self.find_claimed(id, kind) {
            None => Err(DbError::ClaimLost),
            Some(k) => {
                let ghost before = self@;
                self.jobs[k].move_to(status, error, now);
                if release {
                    self.jobs[k].release();
                }
                proof {
                    assert(self@ =~= before.with_job(k as int, self@.jobs[k as int]));
                    job_step(before, self@, k as int);
                }
                Ok(())
            },
        }
    }

    /// Counts another try of a claimed job and tells how many there were.
    pub fn increment_claimed_attempt(&mut self, id: &str, kind: &str, now: i64) -> (r: Result<
        i64,
        DbError,
    >)
        ensures
            attempt_counted(old(self)@, final(self)@, r, old(self)@.claimed_at(id@, kind@), DbError::ClaimLost, now),
            old(self)@.wf() ==> final(self)@.wf(),
    {
        match self.find_claimed(id, kind) {
            None => Err(DbError::ClaimLost),
            Some(k) => self.count_attempt(k, now),
        }
    }

    /// Counts another try of a job and tells how many there were.
    pub fn increment_attempt(&mut self, id: &str, now: i64) -> (r: Result<i64, DbError>)
        ensures
            attempt_counted(old(self)@, final(self)@, r, old(self)@.job_at(id@), DbError::NoRow, now),
            old(self)@.wf() ==> final(self)@.wf(),
    {
        match self.find_job(id) {
            None => Err(DbError::NoRow),
            Some(k) => self.count_attempt(k, now),
        }
    }

    fn count_attempt(&mut self, k: usize, now: i64) -> (r: Result<i64, DbError>)
        requires
            k < old(self).jobs@.len(),
        ensures
            attempt_counted(old(self)@, final(self)@, r, Some(k as int), DbError::NoRow, now),
            old(self)@.wf() ==> final(self)@.wf(),
    {
        let ghost before = self@;
        let attempt: i64 = self.jobs[k].job.attempt;
        if attempt == i64::MAX {
            return Err(DbError::TooLarge);
        }
        self.jobs[k].job.attempt = attempt + 1;
        self.jobs[k].updated_at = now;
        proof {
            assert(self@ =~= before.with_job(k as int, self@.jobs[k as int]));
            job_step(before, self@, k as int);
        }
        Ok(attempt + 1)
    }

    /// Puts off a claimed job and gives it back. Only a status that waits is taken.
    pub fn defer_claimed_job_retry(
        &mut self,
        id: &str,
        kind: &str,
        status: JobStatus,
        error: &str,
        delay_seconds: i64,
        now: i64,
    ) -> (r: Result<(), DbError>)
        requires
            countable(later(now, delay_seconds)),
        ensures
            if !status.waits() {
                r == refused::<()>(DbError::ClaimedNotWaitStatus(status)) && final(self)@ == old(self)@
            } else {
                claimed_write(
                    old(self)@,
                    final(self)@,
                    r,
                    old(self)@.claimed_at(id@, kind@),
                    DbError::ClaimLost,
                    |row: RowModel|
                        row.put_off(status, error@, later(now, delay_seconds), now).released(),
                )
            },
            old(self)@.wf() ==> final(self)@.wf(),
    {
        if !is_wait(status) {
            return Err(DbError::ClaimedNotWaitStatus(status));
        }
        match self.find_claimed(id, kind) {
            None => Err(DbError::ClaimLost),
            Some(k) => {
                let ghost before = self@;
                self.jobs[k].put_off(status, error, at_later(now, delay_seconds), now);
                self.jobs[k].release();
                proof {
                    assert(self@ =~= before.with_job(k as int, self@.jobs[k as int]));
                    job_step(before, self@, k as int);
                }
                Ok(())
            },
        }
    }

    /// Puts off a job. Only a status that waits is taken, and this is the one way into such a
    /// status, so a job never waits without a time.
    pub fn defer_job_retry(
        &mut self,
        id: &str,
        status: JobStatus,
        error: &str,
        delay_seconds: i64,
        now: i64,
    ) -> (r: Result<(), DbError>)
        requires
            countable(later(now, delay_seconds)),
        ensures
            if !status.waits() {
                r == refused::<()>(DbError::NotWaitStatus(status)) && final(self)@ == old(self)@
            } else {
                r is Ok && plain_write(
                    old(self)@,
                    final(self)@,
                    old(self)@.job_at(id@),
                    |row: RowModel| row.put_off(status, error@, later(now, delay_seconds), now),
                )
            },
            old(self)@.wf() ==> final(self)@.wf(),
    {
        if !is_wait(status) {
            return Err(DbError::NotWaitStatus(status));
        }
        match self.find_job(id) {
            None => {},
            Some(k) => {
                let ghost before = self@;
                self.jobs[k].put_off(status, error, at_later(now, delay_seconds), now);
                proof {
                    assert(self@ =~= before.with_job(k as int, self@.jobs[k as int]));
                    job_step(before, self@, k as int);
                }
            },
        }
        Ok(())
    }

    /// Puts a job into another status. A status that waits needs a time to wait for and is refused.
    pub fn update_job_status(&mut self, id: &str, status: JobStatus, error: Option<&str>, now: i64) -> (r:
        Result<(), DbError>)
        ensures
            if status.waits() {
                r == refused::<()>(DbError::WaitStatus(status)) && final(self)@ == old(self)@
            } else {
                r is Ok && plain_write(
                    old(self)@,
                    final(self)@,
                    old(self)@.job_at(id@),
                    |row: RowModel| row.moved(status, str_view(error), now),
                )
            },
            old(self)@.wf() ==> final(self)@.wf(),
    {
        if is_wait(status) {
            return Err(DbError::WaitStatus(status));
        }
        match self.find_job(id) {
            None => {},
            Some(k) => {
                let ghost before = self@;
                self.jobs[k].move_to(status, error, now);
                proof {
                    assert(self@ =~= before.with_job(k as int, self@.jobs[k as int]));
                    job_step(before, self@, k as int);
                }
            },
        }
        Ok(())
    }

    /// Pauses a job and takes back its claim, where nothing was submitted yet and nothing is about
    /// to be.
    pub fn pause_job(&mut self, id: &str, now: i64) -> (r: Result<(), DbError>)
        ensures
            match old(self)@.job_at(id@) {
                None => r == refused::<()>(DbError::NoJob) && final(self)@ == old(self)@,
                Some(k) => {
                    let row = old(self)@.jobs[k];
                    if row.pausable() {
                        r is Ok && final(self)@ == old(self)@.with_job(
                            k,
                            (RowModel {
                                retry_at: None,
                                ..row.moved(JobStatus::Paused, Some("用户暂停"@), now).released()
                            }),
                        )
                    } else {
                        final(self)@ == old(self)@ && r == match job_of(row) {
                            Ok(job) => refused::<()>(DbError::NotPausable(job.status)),
                            Err(e) => refused::<()>(e),
                        }
                    }
                },
            },
            old(self)@.wf() ==> final(self)@.wf(),
    {
        match self.find_job(id) {
            None => Err(DbError::NoJob),
            Some(k) => {
                if self.jobs[k].pausable() {
                    let ghost before = self@;
                    self.jobs[k].move_to(JobStatus::Paused, Some("用户暂停"), now);
                    self.jobs[k].retry_at = None;
                    self.jobs[k].release();
                    proof {
                        assert(self@ =~= before.with_job(k as int, self@.jobs[k as int]));
                        job_step(before, self@, k as int);
                    }
                    return Ok(());
                }
                match self.jobs[k].read() {
                    Ok(job) => Err(DbError::NotPausable(job.status)),
                    Err(e) => Err(e),
                }
            },
        }
    }

    /// Starts a job again that failed for good or was paused, at its submission if that is planned.
    /// A job whose submission may have gone through is refused.
    pub fn retry_job(&mut self, id: &str, now: i64) -> (r: Result<(), DbError>)
        ensures
            match old(self)@.job_at(id@) {
                None => r == refused::<()>(DbError::NoJob) && final(self)@ == old(self)@,
                Some(k) => {
                    let row = old(self)@.jobs[k];
                    if row.retryable() {
                        r is Ok && final(self)@ == old(self)@.with_job(k, row.restarted(now))
                    } else {
                        final(self)@ == old(self)@ && r == match job_of(row) {
                            Err(e) => refused::<()>(e),
                            Ok(job) => if row.paused_in_doubt() {
                                refused::<()>(DbError::UncertainPause)
                            } else {
                                refused::<()>(DbError::NotRetryable(job.status))
                            },
                        }
                    }
                },
            },
            old(self)@.wf() ==> final(self)@.wf(),
    {
        match self.find_job(id) {
            None => Err(DbError::NoJob),
            Some(k) => {
                if self.jobs[k].retryable() {
                    let ghost before = self@;
                    self.jobs[k].restart(now);
                    proof {
                        assert(self@ =~= before.with_job(k as int, self@.jobs[k as int]));
                        job_step(before, self@, k as int);
                    }
                    return Ok(());
                }
                match self.jobs[k].read() {
                    Err(e) => Err(e),
                    Ok(job) => if self.jobs[k].paused_in_doubt() {
                        Err(DbError::UncertainPause)
                    } else {
                        Err(DbError::NotRetryable(job.status))
                    },
                }
            },
        }
    }

    /// Notes what is known of a job's video.
    pub fn update_job_metadata(
        &mut self,
        id: &str,
        title: &str,
        is_short: bool,
        duration_ms: Option<u64>,
        width: Option<i64>,
        height: Option<i64>,
        now: i64,
    )
        ensures
            plain_write(
                old(self)@,
                final(self)@,
                old(self)@.job_at(id@),
                |row: RowModel|
                    RowModel {
                        job: JobModel {
                            title: Some(title@),
                            is_short,
                            duration_ms,
                            width,
                            height,
                            ..row.job
                        },
                        updated_at: now,
                        ..row
                    },
            ),
            old(self)@.wf() ==> final(self)@.wf(),
    {
        match self.find_job(id) {
            None => {},
            Some(k) => {
                let ghost before = self@;
                self.jobs[k].job.title = Some(title.to_owned());
                self.jobs[k].job.is_short = is_short;
                self.jobs[k].job.duration_ms = duration_ms;
                self.jobs[k].job.width = width;
                self.jobs[k].job.height = height;
                self.jobs[k].updated_at = now;
                proof {
                    assert(self@ =~= before.with_job(k as int, self@.jobs[k as int]));
                    job_step(before, self@, k as int);
                }
            },
        }
    }

    /// Notes the model that works on a job.
    pub fn set_job_model(&mut self, id: &str, provider: &str, model: &str, thinking: &str, now: i64)
        ensures
            plain_write(
                old(self)@,
                final(self)@,
                old(self)@.job_at(id@),
                |row: RowModel|
                    RowModel {
                        job: JobModel {
                            provider: Some(provider@),
                            ai_model: Some(model@),
                            thinking: Some(thinking@),
                            ..row.job
                        },
                        updated_at: now,
                        ..row
                    },
            ),
            old(self)@.wf() ==> final(self)@.wf(),
    {
        match self.find_job(id) {
            None => {},
            Some(k) => {
                let ghost before = self@;
                self.jobs[k].job.provider = Some(provider.to_owned());
                self.jobs[k].job.ai_model = Some(model.to_owned());
                self.jobs[k].job.thinking = Some(thinking.to_owned());
                self.jobs[k].updated_at = now;
                proof {
                    assert(self@ =~= before.with_job(k as int, self@.jobs[k as int]));
                    job_step(before, self@, k as int);
                }
            },
        }
    }

    /// Keeps what YouTube tells of a job's video.
    pub fn save_source_metadata(&mut self, id: &str, metadata: &VideoMetadata, now: i64)
        ensures
            plain_write(
                old(self)@,
                final(self)@,
                old(self)@.job_at(id@),
                |row: RowModel|
                    RowModel { source_metadata: Some(*metadata), updated_at: now, ..row },
            ),
            old(self)@.wf() ==> final(self)@.wf(),
    {
        match self.find_job(id) {
            None => {},
            Some(k) => {
                let ghost before = self@;
                self.jobs[k].source_metadata = Some(metadata.copied());
                self.jobs[k].updated_at = now;
                proof {
                    assert(self@ =~= before.with_job(k as int, self@.jobs[k as int]));
                    job_step(before, self@, k as int);
                }
            },
        }
    }

    /// What was kept of a job's video.
    pub fn source_metadata(&self, id: &str) -> (r: Option<VideoMetadata>)
        ensures
            r == match self@.job_at(id@) {
                Some(k) => self@.jobs[k].source_metadata,
                None => None,
            },
    {
        match self.find_job(id) {
            None => None,
            Some(k) => match &self.jobs[k].source_metadata {
                Some(m) => Some(m.copied()),
                None => None,
            },
        }
    }

    /// Gives a job its plan and lets it wait for its submission.
    pub fn queue_prepared_upload(&mut self, id: &str, upload: &PreparedUpload, now: i64) -> (r: Result<
        (),
        DbError,
    >)
        ensures
            match old(self)@.job_at(id@) {
                None => r == refused::<()>(DbError::NoJob) && final(self)@ == old(self)@,
                Some(k) => {
                    let row = old(self)@.jobs[k];
                    if row.preparable() {
                        r is Ok && final(self)@ == old(self)@.with_job(
                            k,
                            (RowModel {
                                prepared_upload: Some(*upload),
                                ..row.moved(JobStatus::ReadyToUpload, None, now)
                            }),
                        )
                    } else {
                        final(self)@ == old(self)@ && r == match job_of(row) {
                            Ok(job) => refused::<()>(DbError::NotPreparable(job.status)),
                            Err(e) => refused::<()>(e),
                        }
                    }
                },
            },
            old(self)@.wf() ==> final(self)@.wf(),
    {
        match self.find_job(id) {
            None => Err(DbError::NoJob),
            Some(k) => {
                if self.jobs[k].preparable() {
                    let ghost before = self@;
                    self.jobs[k].move_to(JobStatus::ReadyToUpload, None, now);
                    self.jobs[k].prepared_upload = Some(upload.copied());
                    proof {
                        assert(self@ =~= before.with_job(k as int, self@.jobs[k as int]));
                        job_step(before, self@, k as int);
                    }
                    return Ok(());
                }
                match self.jobs[k].read() {
                    Ok(job) => Err(DbError::NotPreparable(job.status)),
                    Err(e) => Err(e),
                }
            },
        }
    }

    /// Gives a job that was claimed for its preparation its plan, lets it wait for its submission
    /// and gives it back.
    pub fn queue_claimed_prepared_upload(&mut self, id: &str, upload: &PreparedUpload, now: i64) -> (r:
        Result<(), DbError>)
        ensures
            claimed_write(
                old(self)@,
                final(self)@,
                r,
                old(self)@.claimed_at(id@, PREPARE_CLAIM_KIND@),
                DbError::PrepareClaimLost,
                |row: RowModel|
                    RowModel {
                        prepared_upload: Some(*upload),
                        retry_at: None,
                        ..row.moved(JobStatus::ReadyToUpload, None, now).released()
                    },
            ),
            old(self)@.wf() ==> final(self)@.wf(),
    {
        match self.find_claimed(id, PREPARE_CLAIM_KIND) {
            None => Err(DbError::PrepareClaimLost),
            Some(k) => {
                let ghost before = self@;
                self.jobs[k].move_to(JobStatus::ReadyToUpload, None, now);
                self.jobs[k].prepared_upload = Some(upload.copied());
                self.jobs[k].retry_at = None;
                self.jobs[k].release();
                proof {
                    assert(self@ =~= before.with_job(k as int, self@.jobs[k as int]));
                    job_step(before, self@, k as int);
                }
                Ok(())
            },
        }
    }

    /// The plan of a job's submission.
    pub fn prepared_upload(&self, id: &str) -> (r: Option<PreparedUpload>)
        ensures
            r == match self@.job_at(id@) {
                Some(k) => self@.jobs[k].prepared_upload,
                None => None,
            },
    {
        match self.find_job(id) {
            None => None,
            Some(k) => match &self.jobs[k].prepared_upload {
                Some(u) => Some(u.copied()),
                None => None,
            },
        }
    }

    /// Notes where a job's video file is; nothing changes of that where none is given.
    pub fn set_job_paths(&mut self, id: &str, raw: Option<&str>, now: i64)
        ensures
            plain_write(
                old(self)@,
                final(self)@,
                old(self)@.job_at(id@),
                |row: RowModel|
                    RowModel {
                        raw_video_path: if raw is Some {
                            str_view(raw)
                        } else {
                            row.raw_video_path
                        },
                        updated_at: now,
                        ..row
                    },
            ),
            old(self)@.wf() ==> final(self)@.wf(),
    {
        match self.find_job(id) {
            None => {},
            Some(k) => {
                let ghost before = self@;
                match raw {
                    Some(path) => {
                        self.jobs[k].raw_video_path = Some(path.to_owned());
                    },
                    None => {},
                }
                self.jobs[k].updated_at = now;
                proof {
                    assert(self@ =~= before.with_job(k as int, self@.jobs[k as int]));
                    job_step(before, self@, k as int);
                }
            },
        }
    }

    /// Notes a job's published video. Two jobs cannot have the same.
    pub fn set_job_bvid(&mut self, id: &str, bvid: &str, now: i64) -> (r: Result<(), DbError>)
        ensures
            match old(self)@.job_at(id@) {
                None => r is Ok && final(self)@ == old(self)@,
                Some(k) => if old(self)@.bvid_taken(k, bvid@) {
                    r == refused::<()>(DbError::BvidTaken) && final(self)@ == old(self)@
                } else {
                    r is Ok && final(self)@ == old(self)@.with_job(
                        k,
                        (RowModel {
                            job: JobModel { bvid: Some(bvid@), ..old(self)@.jobs[k].job },
                            updated_at: now,
                            ..old(self)@.jobs[k]
                        }),
                    )
                },
            },
            old(self)@.wf() ==> final(self)@.wf(),
    {
        match self.find_job(id) {
            None => Ok(()),
            Some(k) => {
                if self.is_bvid_taken(k, bvid) {
                    return Err(DbError::BvidTaken);
                }
                let ghost before = self@;
                self.jobs[k].job.bvid = Some(bvid.to_owned());
                self.jobs[k].updated_at = now;
                proof {
                    assert(self@ =~= before.with_job(k as int, self@.jobs[k as int]));
                    job_step(before, self@, k as int);
                }
                Ok(())
            },
        }
    }

    /// Where the files of a job are: the video, the subtitle and the finished video.
    pub fn job_paths(&self, id: &str) -> (r: Result<
        (Option<String>, Option<String>, Option<String>),
        DbError,
    >)
        ensures
            match self@.job_at(id@) {
                None => r matches Err(e) && e == DbError::NoRow,
                Some(k) => r matches Ok(p) && opt_view(p.0) == self@.jobs[k].raw_video_path
                    && opt_view(p.1) == self@.jobs[k].subtitle_path && opt_view(p.2)
                    == self@.jobs[k].rendered_path,
            },
    {
        match self.find_job(id) {
            None => Err(DbError::NoRow),
            Some(k) => Ok(
                (
                    copy_optional(&self.jobs[k].raw_video_path),
                    copy_optional(&self.jobs[k].subtitle_path),
                    copy_optional(&self.jobs[k].rendered_path),
                ),
            ),
        }
    }
}

/// What counting a try does: one more, an error where there is no such job, or where it cannot be
/// counted.
pub open spec fn attempt_counted(
    before: DbModel,
    after: DbModel,
    r: Result<i64, DbError>,
    at: Option<int>,
    missing: DbError,
    now: i64,
) -> bool {
    match at {
        None => r == refused::<i64>(missing) && after == before,
        Some(k) => {
            let row = before.jobs[k];
            if row.job.attempt == i64::MAX {
                r == refused::<i64>(DbError::TooLarge) && after == before
            } else {
                &&& r matches Ok(n)
                &&& n == row.job.attempt + 1
                &&& after == before.with_job(
                    k,
                    RowModel {
                        job: JobModel { attempt: (row.job.attempt + 1) as i64, ..row.job },
                        updated_at: now,
                        ..row
                    },
                )
            }
        },
    }
}

// ---------------------------------------------------------------------------------------------
// What may be stopped and what may start anew
// ---------------------------------------------------------------------------------------------

/// A job can be paused if and only if nothing of it was submitted or is about to be.
pub proof fn only_unsubmitted_jobs_pause(row: RowModel)
    ensures
        row.legacy is Some ==> !row.pausable(),
        row.legacy is None ==> (row.pausable() <==> match row.job.status {
            JobStatus::Queued => true,
            JobStatus::RetryWait => true,
            JobStatus::Inspecting => true,
            JobStatus::Processing => true,
            JobStatus::ReadyToUpload => true,
            JobStatus::UploadRetryWait => true,
            _ => false,
        }),
        row.legacy is None ==> (row.preparable() <==> match row.job.status {
            JobStatus::Queued => true,
            JobStatus::RetryWait => true,
            JobStatus::Inspecting => true,
            JobStatus::Processing => true,
            JobStatus::Failed => true,
            JobStatus::DeadLetter => true,
            _ => false,
        }),
{
}

/// A job can be tried again if and only if it failed for good, or is paused and its submission is
/// not in doubt. A job that was submitted, or may have been, is never tried again.
pub proof fn only_ended_jobs_start_anew(row: RowModel)
    ensures
        row.retryable() <==> row.legacy is None && (row.job.status == JobStatus::DeadLetter
            || row.job.status == JobStatus::Failed || (row.job.status == JobStatus::Paused
            && row.job.error != Some("服务重启时上传结果不确定，请确认 Bilibili 后再处理"@))),
        row.retryable() ==> row.job.status != JobStatus::Completed && row.job.status
            != JobStatus::UploadUncertain && row.job.status != JobStatus::Uploading
            && row.job.status != JobStatus::UploadedOriginalPendingSubtitle,
{
}

/// A job that is tried again forgets its failures and goes on where its work stands: to the
/// submission where a plan is kept, else to the start. Nothing it has is lost.
pub proof fn restarts_go_on_where_work_stands(row: RowModel, now: i64)
    ensures
        ({
            let after = row.restarted(now);
            &&& row.prepared_upload is Some ==> after.job.status == JobStatus::ReadyToUpload
            &&& row.prepared_upload is None ==> after.job.status == JobStatus::Queued
            &&& after.job.attempt == 0 && after.job.error is None
            &&& after.retry_at is None && after.legacy is None && after.updated_at == now
            &&& after.prepared_upload == row.prepared_upload
            &&& after.source_metadata == row.source_metadata
            &&& after.job.id == row.job.id && after.job.video_id == row.job.video_id
            &&& after.job.title == row.job.title && after.job.bvid == row.job.bvid
            &&& after.job.transfer_mode == row.job.transfer_mode
            &&& after.job.subtitle_attempt == row.job.subtitle_attempt
        }),
{
}

/// A job that is put off waits in that status until just that time, and says why.
pub proof fn jobs_wait_until_their_time(row: RowModel, status: JobStatus, error: Seq<char>, seconds: i64, now: i64)
    requires
        countable(now + seconds * 1000),
    ensures
        ({
            let after = row.put_off(status, error, later(now, seconds), now);
            &&& after.retry_at == Some((now + seconds * 1000) as i64)
            &&& after.job.status == status && after.job.error == Some(error)
            &&& after.legacy is None && after.updated_at == now
            &&& after.job.attempt == row.job.attempt && after.job.id == row.job.id
            &&& after.prepared_upload == row.prepared_upload
        }),
        status.waits() <==> status == JobStatus::RetryWait || status == JobStatus::UploadRetryWait,
{
}

/// A write to a job changes no other job and no other table; where the job is not found, nothing
/// changes at all.
pub proof fn writes_touch_one_job(
    before: DbModel,
    after: DbModel,
    at: Option<int>,
    row: spec_fn(RowModel) -> RowModel,
    r: Result<(), DbError>,
    lost: DbError,
)
    requires
        at is Some ==> 0 <= at->Some_0 < before.jobs.len(),
        plain_write(before, after, at, row) || claimed_write(before, after, r, at, lost, row),
    ensures
        at is None ==> after == before,
        at matches Some(k) ==> {
            &&& after.jobs.len() == before.jobs.len()
            &&& after.jobs[k] == row(before.jobs[k])
            &&& forall|j: int|
                0 <= j < before.jobs.len() && j != k ==> #[trigger] after.jobs[j] == before.jobs[j]
            &&& after.channels == before.channels && after.candidates == before.candidates
            &&& after.uploads == before.uploads && after.subtitles == before.subtitles
            &&& after.settings == before.settings && after.events == before.events
            &&& after.hold == before.hold
        },
        claimed_write(before, after, r, at, lost, row) ==> (r is Ok <==> at is Some) && (r is Err
            ==> r->Err_0 == lost),
{
}

/// A counted try is told and kept: one more than before, on that job alone.
pub proof fn tries_are_counted_one_by_one(
    before: DbModel,
    after: DbModel,
    r: Result<i64, DbError>,
    k: int,
    missing: DbError,
    now: i64,
)
    requires
        0 <= k < before.jobs.len(),
        before.jobs[k].job.attempt < i64::MAX,
        attempt_counted(before, after, r, Some(k), missing, now),
    ensures
        r is Ok && r->Ok_0 == before.jobs[k].job.attempt + 1,
        after.jobs[k].job.attempt == before.jobs[k].job.attempt + 1,
        after.jobs[k].job.status == before.jobs[k].job.status,
        after.jobs[k].claim_owner == before.jobs[k].claim_owner,
        forall|j: int|
            0 <= j < before.jobs.len() && j != k ==> #[trigger] after.jobs[j] == before.jobs[j],
{
}

/// A job that is paused has no time for a next try and is held by nobody, and can be tried again;
/// one that may not be paused stays as it is.
pub proof fn paused_jobs_can_be_tried_again(db: &mut Database, id: &str, now: i64, k: int, r: Result<(), DbError>)
    requires
        call_ensures(Database::pause_job, (db, id, now), r),
        old(db)@.wf(),
        0 <= k < old(db)@.jobs.len(),
        old(db)@.jobs[k].job.id == id@,
    ensures
        r is Ok <==> old(db)@.jobs[k].pausable(),
        r is Err ==> final(db)@ == old(db)@,
        r is Ok ==> {
            let row = final(db)@.jobs[k];
            &&& row.job.status == JobStatus::Paused && row.legacy is None
            &&& row.retry_at is None && row.claim_owner is None && row.claim_kind is None
            &&& row.job.error == Some("用户暂停"@)
            &&& row.prepared_upload == old(db)@.jobs[k].prepared_upload
            &&& row.job.attempt == old(db)@.jobs[k].job.attempt
            &&& row.retryable()
        },
{
    jobs_are_found(old(db)@, k, id@);
    reveal_strlit("用户暂停");
    reveal_strlit("服务重启时上传结果不确定，请确认 Bilibili 后再处理");
    assert("用户暂停"@.len() == 4);
}

/// A job that is tried again goes to the submission where its plan is kept, and else to the start,
/// with no failures; one in doubt is refused.
pub proof fn retried_jobs_start_anew(db: &mut Database, id: &str, now: i64, k: int, r: Result<(), DbError>)
    requires
        call_ensures(Database::retry_job, (db, id, now), r),
        old(db)@.wf(),
        0 <= k < old(db)@.jobs.len(),
        old(db)@.jobs[k].job.id == id@,
    ensures
        old(db)@.jobs[k].job.status == JobStatus::UploadUncertain ==> r is Err,
        old(db)@.jobs[k].job.status == JobStatus::Completed ==> r is Err,
        old(db)@.jobs[k].legacy is None && old(db)@.jobs[k].job.status == JobStatus::DeadLetter ==> r is Ok,
        r is Err ==> final(db)@ == old(db)@,
        r is Ok ==> {
            let row = final(db)@.jobs[k];
            &&& row.job.attempt == 0 && row.job.error is None && row.retry_at is None
            &&& old(db)@.jobs[k].prepared_upload is Some ==> row.job.status
                == JobStatus::ReadyToUpload
            &&& old(db)@.jobs[k].prepared_upload is None ==> row.job.status == JobStatus::Queued
        },
{
    jobs_are_found(old(db)@, k, id@);
}

/// A job whose preparation is done bears its plan, waits for its submission, and is given back.
pub proof fn prepared_jobs_wait_for_submission(
    db: &mut Database,
    id: &str,
    plan: &PreparedUpload,
    now: i64,
    k: int,
    r: Result<(), DbError>,
)
    requires
        call_ensures(Database::queue_claimed_prepared_upload, (db, id, plan, now), r),
        old(db)@.wf(),
        0 <= k < old(db)@.jobs.len(),
        old(db)@.jobs[k].job.id == id@,
    ensures
        r is Ok <==> old(db)@.jobs[k].claim_kind == Some("prepare"@) && old(db)@.jobs[k].claim_owner
            == Some(old(db)@.claim_owner),
        r is Err ==> final(db)@ == old(db)@,
        r is Ok ==> {
            let row = final(db)@.jobs[k];
            &&& row.prepared_upload == Some(*plan)
            &&& row.job.status == JobStatus::ReadyToUpload && row.job.error is None
            &&& row.claim_owner is None && row.retry_at is None
            &&& row.job.attempt == old(db)@.jobs[k].job.attempt
        },
{
    claims_are_told_apart(old(db)@, k, "prepare"@);
}

} // verus!
