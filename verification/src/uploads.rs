//! Submissions: the attempts that are made, and how each ends.
use vstd::prelude::*;

use crate::clock::{rfc3339, rfc3339_millis, rfc3339_text, YEAR_9999_END_MS};
use crate::fault::{refused, DbError};
use crate::jobs::{at_later, countable, later};
use crate::model::{JobStatus, TransferMode};
use crate::order::{comes_before, is_least, pick, picked, picked_means, Key};
use crate::queue::{fresh_id, str_view, CLAIM_LEASE_MS, UPLOAD_CLAIM_KIND};
use crate::settings::{deadline_due, set_then_get, NEXT_BILIBILI_SUBMIT_AT};
use crate::store::{
    is_first, job_step, job_update_keeps_wf, jobs_are_found, place, place_is, place_is_none,
    place_means, same_place, Database, DbModel, JobModel, RowModel, UploadAttempt, UploadModel,
    UploadState,
};
use crate::text::{own_optional, same_text};

verus! {

/// When a subtitle is tried first after a submission, and when the next video may be submitted.
#[derive(Debug, Clone, Copy, PartialEq, Eq, Structural)]
pub struct UploadCompletionTiming {
    pub subtitle_delay_seconds: i64,
    pub next_submit_at: Option<i64>,
}

impl DbModel {
    /// Where the submission attempt of that name stands.
    pub open spec fn upload_at(self, id: Seq<char>) -> Option<int> {
        place(self.uploads, |a: UploadModel| a.id == id)
    }

    /// The tables with one submission attempt replaced.
    pub open spec fn with_upload(self, k: int, a: UploadModel) -> DbModel {
        DbModel { uploads: self.uploads.update(k, a), ..self }
    }

    /// The keys of the attempts of a job in a state, the latest first.
    pub open spec fn attempts_of(self, job_id: Seq<char>, state: Option<UploadState>) -> Seq<
        Option<Key>,
    > {
        self.uploads.map_values(
            |a: UploadModel|
                if a.job_id == job_id && (state is None || state == Some(a.status)) {
                    Some(((-1 - a.started_at) as i64, 0i64, 0i64))
                } else {
                    None
                },
        )
    }

    /// The latest attempt of a job.
    pub open spec fn latest_attempt(self, job_id: Seq<char>) -> Option<int> {
        picked(self.attempts_of(job_id, None))
    }

    /// Where an attempt of a job stands that is under way.
    pub open spec fn running_attempt(self, job_id: Seq<char>, attempt_id: Seq<char>) -> Option<int> {
        match self.upload_at(attempt_id) {
            Some(k) => if self.uploads[k].job_id == job_id && self.uploads[k].status
                == UploadState::Running {
                Some(k)
            } else {
                None
            },
            None => None,
        }
    }

    /// Where a job stands that this process is submitting.
    pub open spec fn uploading_at(self, id: Seq<char>) -> Option<int> {
        match self.claimed_at(id, UPLOAD_CLAIM_KIND@) {
            Some(k) => if self.jobs[k].is(JobStatus::Uploading) {
                Some(k)
            } else {
                None
            },
            None => None,
        }
    }

    /// Where a job stands whose submission is in doubt.
    pub open spec fn uncertain_at(self, id: Seq<char>) -> Option<int> {
        match self.job_at(id) {
            Some(k) => if self.jobs[k].is(JobStatus::UploadUncertain) {
                Some(k)
            } else {
                None
            },
            None => None,
        }
    }

    /// Where the latest attempt of a job stands if it is in doubt.
    pub open spec fn uncertain_attempt(self, job_id: Seq<char>) -> Option<int> {
        match self.latest_attempt(job_id) {
            Some(k) => if self.uploads[k].status == UploadState::Uncertain {
                Some(k)
            } else {
                None
            },
            None => None,
        }
    }
}

/// Whether a job that was submitted waits for its subtitle.
pub open spec fn queues_subtitle(status: JobStatus, mode: TransferMode) -> bool {
    status == JobStatus::UploadedOriginalPendingSubtitle || (status == JobStatus::Completed && mode
        == TransferMode::Translated)
}

impl RowModel {
    /// The row of a job whose video is published.
    pub open spec fn submitted(
        self,
        bvid: Seq<char>,
        status: JobStatus,
        mode: TransferMode,
        subtitle_delay_seconds: i64,
        now: i64,
    ) -> RowModel {
        let queued = queues_subtitle(status, mode);
        let row = self.moved(
            if queued {
                JobStatus::UploadedOriginalPendingSubtitle
            } else {
                status
            },
            None,
            now,
        ).released();
        RowModel {
            job: JobModel { bvid: Some(bvid), subtitle_attempt: 0, ..row.job },
            prepared_upload: None,
            retry_at: None,
            subtitle_retry_at: if queued {
                Some(later(now, subtitle_delay_seconds) as i64)
            } else {
                None
            },
            ..row
        }
    }
}

/// The tables with the time before which nothing is submitted, where one is given.
pub open spec fn with_next_submit(db: DbModel, at: Option<i64>, now: i64) -> Result<DbModel, DbError> {
    match at {
        None => Ok(db),
        Some(ms) => match rfc3339_text(ms as int) {
            Some(text) => Ok(db.with_setting(NEXT_BILIBILI_SUBMIT_AT@, text, now)),
            None => Err(DbError::OutOfCalendar),
        },
    }
}

impl UploadCompletionTiming {
    /// Whether the time before which nothing is submitted, where one is given, lies from the epoch
    /// to the year 9999.
    pub open spec fn in_calendar(self) -> bool {
        self.next_submit_at matches Some(at) ==> 0 <= at <= YEAR_9999_END_MS
    }
}

/// Whether nothing may be submitted before the time that is given, and anything from then on.
pub open spec fn next_waits(db: DbModel, timing: UploadCompletionTiming) -> bool {
    timing.next_submit_at matches Some(at) ==> forall|t: i64| #[trigger]
        deadline_due(db.setting(NEXT_BILIBILI_SUBMIT_AT@), t) == Ok::<bool, DbError>(at <= t)
}

/// What it does to note that a job was submitted: its attempt ends in `state`, the job has its
/// published video, and the next submission waits. An attempt or job that is not there, or a
/// published video of another job, is refused.
pub open spec fn submission_noted(
    db: DbModel,
    job: Option<int>,
    attempt: Option<int>,
    state: UploadState,
    detail: Option<Seq<char>>,
    gone: DbError,
    bvid: Seq<char>,
    status: JobStatus,
    mode: TransferMode,
    timing: UploadCompletionTiming,
    now: i64,
) -> Result<DbModel, DbError> {
    if !status.completes() {
        Err(DbError::BadCompletion(status))
    } else {
        match (job, attempt) {
            (Some(k), _) if db.bvid_taken(k, bvid) => Err(DbError::BvidTaken),
            (Some(k), Some(a)) => with_next_submit(
                db.with_upload(
                    a,
                    UploadModel {
                        status: state,
                        bvid: Some(bvid),
                        detail,
                        finished_at: Some(now),
                        ..db.uploads[a]
                    },
                ).with_job(
                    k,
                    db.jobs[k].submitted(bvid, status, mode, timing.subtitle_delay_seconds, now),
                ),
                timing.next_submit_at,
                now,
            ),
            _ => Err(gone),
        }
    }
}

/// Noting a submission keeps the tables sound.
pub proof fn noted_submission_keeps_wf(
    db: DbModel,
    job: Option<int>,
    attempt: Option<int>,
    state: UploadState,
    detail: Option<Seq<char>>,
    gone: DbError,
    bvid: Seq<char>,
    status: JobStatus,
    mode: TransferMode,
    timing: UploadCompletionTiming,
    now: i64,
)
    requires
        db.wf(),
        job matches Some(k) ==> 0 <= k < db.jobs.len(),
        submission_noted(db, job, attempt, state, detail, gone, bvid, status, mode, timing, now) is Ok,
    ensures
        submission_noted(
            db,
            job,
            attempt,
            state,
            detail,
            gone,
            bvid,
            status,
            mode,
            timing,
            now,
        )->Ok_0.wf(),
{
    let k = job->Some_0;
    let row = db.jobs[k].submitted(bvid, status, mode, timing.subtitle_delay_seconds, now);
    job_update_keeps_wf(db, k, row);
    let a = attempt->Some_0;
    let done = UploadModel {
        status: state,
        bvid: Some(bvid),
        detail,
        finished_at: Some(now),
        ..db.uploads[a]
    };
    let mid = db.with_upload(a, done).with_job(k, row);
    assert(mid.wf()) by {
        let other = db.with_job(k, row);
        assert(mid.jobs == other.jobs);
        assert(mid.channels == other.channels && mid.candidates == other.candidates);
    }
    match timing.next_submit_at {
        Some(ms) => {
            set_then_get(mid, NEXT_BILIBILI_SUBMIT_AT@, rfc3339_text(ms as int)->Some_0, now);
        },
        None => {},
    }
}

/// What starting a submission does. Nothing happens while the lock is held, before the deadline, or
/// to a job that does not wait for its submission.
pub open spec fn submission_begun(db: DbModel, attempt_id: Seq<char>, id: Seq<char>, now: i64) -> Result<
    Option<DbModel>,
    DbError,
> {
    let due = deadline_due(db.setting(NEXT_BILIBILI_SUBMIT_AT@), now);
    if db.held(now) {
        Ok(None)
    } else if due is Err {
        Err(due->Err_0)
    } else if due != Ok::<bool, DbError>(true) {
        Ok(None)
    } else {
        match db.job_at(id) {
            Some(k) => if !(db.jobs[k].is(JobStatus::ReadyToUpload) || db.jobs[k].is(
                JobStatus::UploadRetryWait,
            )) {
                Ok(None)
            } else if db.upload_at(attempt_id) is Some {
                Err(DbError::DuplicateId)
            } else {
                Ok(
                    Some(
                        DbModel {
                            uploads: db.uploads.push(
                                UploadModel {
                                    id: attempt_id,
                                    job_id: id,
                                    status: UploadState::Running,
                                    bvid: None,
                                    detail: None,
                                    started_at: now,
                                    finished_at: None,
                                },
                            ),
                            ..db.with_job(
                                k,
                                db.claim_of(
                                    db.jobs[k].moved(JobStatus::Uploading, None, now),
                                    UPLOAD_CLAIM_KIND@,
                                    now,
                                ),
                            )
                        },
                    ),
                )
            },
            None => Ok(None),
        }
    }
}

/// A submission starts only when the lock is free, the deadline has come and the job waits for it;
/// then the job is held by this process and no longer waits, so no second submission can start.
pub proof fn one_submission_at_a_time(
    db: DbModel,
    attempt_id: Seq<char>,
    id: Seq<char>,
    now: i64,
    other_id: Seq<char>,
    later_on: i64,
)
    requires
        submission_begun(db, attempt_id, id, now) matches Ok(Some(_)),
    ensures
        !db.held(now),
        deadline_due(db.setting(NEXT_BILIBILI_SUBMIT_AT@), now) == Ok::<bool, DbError>(true),
        submission_begun(db, attempt_id, id, now)->Ok_0->Some_0.job_at(id) == db.job_at(id),
        !(submission_begun(
            submission_begun(db, attempt_id, id, now)->Ok_0->Some_0,
            other_id,
            id,
            later_on,
        ) matches Ok(Some(_))),
{
    let after = submission_begun(db, attempt_id, id, now)->Ok_0->Some_0;
    let p = |r: RowModel| r.job.id == id;
    place_means(db.jobs, p);
    let k = db.job_at(id)->Some_0;
    assert(is_first(after.jobs, p, k)) by {
        assert forall|j: int| 0 <= j < k implies !p(#[trigger] after.jobs[j]) by {
            assert(after.jobs[j] == db.jobs[j]);
        }
    }
    place_is(after.jobs, p, k);
}

/// Once a submission was noted, no other starts before its time.
pub proof fn submissions_keep_apart(
    db: DbModel,
    timing: UploadCompletionTiming,
    attempt_id: Seq<char>,
    id: Seq<char>,
    now: i64,
)
    requires
        next_waits(db, timing),
        submission_begun(db, attempt_id, id, now) matches Ok(Some(_)),
    ensures
        timing.next_submit_at matches Some(at) ==> at <= now,
{
    one_submission_at_a_time(db, attempt_id, id, now, attempt_id, now);
}

/// A job whose submission is in doubt is not submitted again.
pub proof fn doubtful_submission_is_not_repeated(
    db: DbModel,
    attempt_id: Seq<char>,
    id: Seq<char>,
    now: i64,
)
    requires
        db.uncertain_at(id) is Some,
    ensures
        !(submission_begun(db, attempt_id, id, now) matches Ok(Some(_))),
{
}

impl Database {
    fn find_upload(&self, id: &str) -> (r: Option<usize>)
        ensures
            same_place(r, self@.upload_at(id@), self.uploads@.len() as int),
            r matches Some(k) ==> self@.uploads[k as int].id == id@,
    {
        let ghost p = |a: UploadModel| a.id == id@;
        let ghost rows = self@.uploads;
        let mut i: usize = 0;
        while i < self.uploads.len()
            invariant
                rows == self@.uploads,
                rows.len() == self.uploads@.len(),
                p == (|a: UploadModel| a.id == id@),
                0 <= i <= rows.len(),
                forall|j: int| 0 <= j < i ==> !p(#[trigger] rows[j]),
            decreases self.uploads@.len() - i,
        {
            proof {
                assert(rows[i as int] == self.uploads@[i as int]@);
            }
            if same_text(self.uploads[i].id.as_str(), id) {
                proof {
                    assert(is_first(rows, p, i as int));
                    place_is(rows, p, i as int);
                }
                return Some(i);
            }
            i = i + 1;
        }
        proof {
            place_is_none(rows, p);
        }
        None
    }

    fn pick_attempt(&self, job_id: &str, state: Option<UploadState>) -> (r: Option<usize>)
        ensures
            same_place(r, picked(self@.attempts_of(job_id@, state)), self.uploads@.len() as int),
            r matches Some(k) ==> self@.uploads[k as int].job_id == job_id@,
    {
        let mut keys: Vec<Option<Key>> = Vec::new();
        let mut i: usize = 0;
        while i < self.uploads.len()
            invariant
                0 <= i <= self.uploads@.len(),
                keys@.len() == i,
                forall|j: int| 0 <= j < i ==> keys@[j] == self@.attempts_of(job_id@, state)[j],
            decreases self.uploads@.len() - i,
        {
            let wanted = match state {
                None => true,
                Some(s) => s == self.uploads[i].status,
            };
            if same_text(self.uploads[i].job_id.as_str(), job_id) && wanted {
                keys.push(Some((-1 - self.uploads[i].started_at, 0, 0)));
            } else {
                keys.push(None);
            }
            i = i + 1;
        }
        proof {
            assert(keys@ =~= self@.attempts_of(job_id@, state));
            picked_means(keys@);
        }
        pick(&keys)
    }

    fn find_running(&self, job_id: &str, attempt_id: &str) -> (r: Option<usize>)
        ensures
            same_place(r, self@.running_attempt(job_id@, attempt_id@), self.uploads@.len() as int),
    {
        match self.find_upload(attempt_id) {
            Some(k) => if same_text(self.uploads[k].job_id.as_str(), job_id)
                && self.uploads[k].status == UploadState::Running {
                Some(k)
            } else {
                None
            },
            None => None,
        }
    }

    fn find_uploading(&self, id: &str) -> (r: Option<usize>)
        ensures
            same_place(r, self@.uploading_at(id@), self.jobs@.len() as int),
    {
        match self.find_claimed(id, UPLOAD_CLAIM_KIND) {
            Some(k) => if self.jobs[k].is(JobStatus::Uploading) {
                Some(k)
            } else {
                None
            },
            None => None,
        }
    }

    fn find_uncertain(&self, id: &str) -> (r: Option<usize>)
        ensures
            same_place(r, self@.uncertain_at(id@), self.jobs@.len() as int),
    {
        match self.find_job(id) {
            Some(k) => if self.jobs[k].is(JobStatus::UploadUncertain) {
                Some(k)
            } else {
                None
            },
            None => None,
        }
    }

    fn find_uncertain_attempt(&self, id: &str) -> (r: Option<usize>)
        ensures
            same_place(r, self@.uncertain_attempt(id@), self.uploads@.len() as int),
    {
        match self.pick_attempt(id, None) {
            Some(k) => if self.uploads[k].status == UploadState::Uncertain {
                Some(k)
            } else {
                None
            },
            None => None,
        }
    }

    /// Starts a submission under the name of an attempt. Whether it did.
    pub fn begin_prepared_upload_with_id(&mut self, attempt_id: &str, id: &str, now: i64) -> (r: Result<
        bool,
        DbError,
    >)
        requires
            now + CLAIM_LEASE_MS <= i64::MAX,
        ensures
            match submission_begun(old(self)@, attempt_id@, id@, now) {
                Err(e) => r == refused::<bool>(e) && final(self)@ == old(self)@,
                Ok(None) => r == Ok::<bool, DbError>(false) && final(self)@ == old(self)@,
                Ok(Some(after)) => r == Ok::<bool, DbError>(true) && final(self)@ == after,
            },
            old(self)@.wf() ==> final(self)@.wf(),
    {
        if self.is_held(now) {
            return Ok(false);
        }
        match self.setting_deadline_due(NEXT_BILIBILI_SUBMIT_AT, now) {
            Err(e) => {
                return Err(e);
            },
            Ok(false) => {
                return Ok(false);
            },
            Ok(true) => {},
        }
        match self.find_job(id) {
            None => Ok(false),
            Some(k) => {
                if !(self.jobs[k].is(JobStatus::ReadyToUpload) || self.jobs[k].is(
                    JobStatus::UploadRetryWait,
                )) {
                    return Ok(false);
                }
                if self.find_upload(attempt_id).is_some() {
                    return Err(DbError::DuplicateId);
                }
                let ghost before = self@;
                let owner = self.claim_owner.clone();
                self.jobs[k].move_to(JobStatus::Uploading, None, now);
                self.jobs[k].claim(UPLOAD_CLAIM_KIND, owner.as_str(), now);
                proof {
                    assert(self@ =~= before.with_job(k as int, self@.jobs[k as int]));
                    job_step(before, self@, k as int);
                }
                let ghost mid = self@;
                self.uploads.push(
                    UploadAttempt {
                        id: attempt_id.to_owned(),
                        job_id: id.to_owned(),
                        status: UploadState::Running,
                        bvid: None,
                        detail: None,
                        started_at: now,
                        finished_at: None,
                    },
                );
                proof {
                    assert(self@.jobs == mid.jobs && self@.channels == mid.channels);
                    assert(self@ =~= submission_begun(before, attempt_id@, id@, now)->Ok_0->Some_0);
                }
                Ok(true)
            },
        }
    }

    /// Starts a submission under a new name, and gives the name.
    pub fn begin_prepared_upload(&mut self, id: &str, now: i64) -> (r: Result<Option<String>, DbError>)
        requires
            now + CLAIM_LEASE_MS <= i64::MAX,
        ensures
            r matches Ok(Some(attempt)) ==> attempt@.len() == 36 && submission_begun(
                old(self)@,
                attempt@,
                id@,
                now,
            ) == Ok::<Option<DbModel>, DbError>(Some(final(self)@)),
            r matches Ok(None) ==> final(self)@ == old(self)@ && exists|attempt: Seq<char>|
                attempt.len() == 36 && #[trigger] submission_begun(old(self)@, attempt, id@, now) == Ok::<
                    Option<DbModel>,
                    DbError,
                >(None),
            r matches Err(e) ==> final(self)@ == old(self)@ && exists|attempt: Seq<char>|
                attempt.len() == 36 && #[trigger] submission_begun(old(self)@, attempt, id@, now) == refused::<
                    Option<DbModel>,
                >(e),
            old(self)@.wf() ==> final(self)@.wf(),
    {
        let attempt_id = fresh_id();
        match self.begin_prepared_upload_with_id(attempt_id.as_str(), id, now) {
            Err(e) => Err(e),
            Ok(false) => Ok(None),
            Ok(true) => Ok(Some(attempt_id)),
        }
    }

    /// When the latest attempt of a job that is in doubt started.
    pub fn uncertain_upload_started_at(&self, id: &str) -> (r: Option<i64>)
        ensures
            r == match picked(self@.attempts_of(id@, Some(UploadState::Uncertain))) {
                Some(k) => Some(self@.uploads[k].started_at),
                None => None,
            },
    {
        match self.pick_attempt(id, Some(UploadState::Uncertain)) {
            Some(k) => Some(self.uploads[k].started_at),
            None => None,
        }
    }

    fn note_submission(
        &mut self,
        job: Option<usize>,
        attempt: Option<usize>,
        state: UploadState,
        detail: Option<&str>,
        gone: DbError,
        bvid: &str,
        status: JobStatus,
        mode: TransferMode,
        timing: UploadCompletionTiming,
        now: i64,
    ) -> (r: Result<bool, DbError>)
        requires
            countable(later(now, timing.subtitle_delay_seconds)),
            job matches Some(k) ==> k < old(self).jobs@.len(),
            attempt matches Some(k) ==> k < old(self).uploads@.len(),
        ensures
            match submission_noted(
                old(self)@,
                at(job),
                at(attempt),
                state,
                str_view(detail),
                gone,
                bvid@,
                status,
                mode,
                timing,
                now,
            ) {
                Err(e) => r == refused::<bool>(e) && final(self)@ == old(self)@,
                Ok(after) => r == Ok::<bool, DbError>(queues_subtitle(status, mode)) && final(self)@ == after,
            },
            r is Ok && timing.in_calendar() ==> next_waits(final(self)@, timing),
            old(self)@.wf() ==> final(self)@.wf(),
    {
        if !(status == JobStatus::Completed || status
            == JobStatus::UploadedOriginalPendingSubtitle) {
            return Err(DbError::BadCompletion(status));
        }
        let k: usize = match job {
            Some(k) => k,
            None => {
                return Err(gone);
            },
        };
        if self.is_bvid_taken(k, bvid) {
            return Err(DbError::BvidTaken);
        }
        let a: usize = match attempt {
            Some(a) => a,
            None => {
                return Err(gone);
            },
        };
        let text: Option<String> = match timing.next_submit_at {
            None => None,
            Some(ms) => match rfc3339(ms) {
                Some(t) => Some(t),
                None => {
                    return Err(DbError::OutOfCalendar);
                },
            },
        };
        let ghost before = self@;
        let queued = status == JobStatus::UploadedOriginalPendingSubtitle || mode
            == TransferMode::Translated;
        let end = if queued {
            JobStatus::UploadedOriginalPendingSubtitle
        } else {
            status
        };
        self.uploads[a].status = state;
        self.uploads[a].bvid = Some(bvid.to_owned());
        self.uploads[a].detail = own_optional(detail);
        self.uploads[a].finished_at = Some(now);
        self.jobs[k].move_to(end, None, now);
        self.jobs[k].release();
        self.jobs[k].job.bvid = Some(bvid.to_owned());
        self.jobs[k].job.subtitle_attempt = 0;
        self.jobs[k].prepared_upload = None;
        self.jobs[k].retry_at = None;
        self.jobs[k].subtitle_retry_at = if queued {
            Some(at_later(now, timing.subtitle_delay_seconds))
        } else {
            None
        };
        match text {
            Some(t) => {
                proof {
                    set_then_get(self@, NEXT_BILIBILI_SUBMIT_AT@, t@, now);
                }
                self.set_setting(NEXT_BILIBILI_SUBMIT_AT, t.as_str(), now);
            },
            None => {},
        }
        proof {
            assert(self@ =~= submission_noted(
                before,
                at(job),
                at(attempt),
                state,
                str_view(detail),
                gone,
                bvid@,
                status,
                mode,
                timing,
                now,
            )->Ok_0);
            if before.wf() {
                noted_submission_keeps_wf(
                    before,
                    at(job),
                    at(attempt),
                    state,
                    str_view(detail),
                    gone,
                    bvid@,
                    status,
                    mode,
                    timing,
                    now,
                );
            }
        }
        Ok(queued)
    }

    /// Notes that a submission of this process went through. Whether the job now waits for its
    /// subtitle.
    pub fn finish_upload_attempt(
        &mut self,
        id: &str,
        attempt_id: &str,
        bvid: &str,
        completion_status: JobStatus,
        mode: TransferMode,
        timing: UploadCompletionTiming,
        now: i64,
    ) -> (r: Result<bool, DbError>)
        requires
            countable(later(now, timing.subtitle_delay_seconds)),
        ensures
            match submission_noted(
                old(self)@,
                old(self)@.uploading_at(id@),
                old(self)@.running_attempt(id@, attempt_id@),
                UploadState::Succeeded,
                None,
                DbError::AttemptGone,
                bvid@,
                completion_status,
                mode,
                timing,
                now,
            ) {
                Err(e) => r == refused::<bool>(e) && final(self)@ == old(self)@,
                Ok(after) => r == Ok::<bool, DbError>(queues_subtitle(completion_status, mode))
                    && final(self)@ == after,
            },
            r is Ok && timing.in_calendar() ==> next_waits(final(self)@, timing),
            old(self)@.wf() ==> final(self)@.wf(),
    {
        let job = self.find_uploading(id);
        let attempt = self.find_running(id, attempt_id);
        self.note_submission(
            job,
            attempt,
            UploadState::Succeeded,
            None,
            DbError::AttemptGone,
            bvid,
            completion_status,
            mode,
            timing,
            now,
        )
    }

    /// Notes that a submission of this process was refused for certain, and gives the job back.
    pub fn fail_upload_attempt(&mut self, id: &str, attempt_id: &str, detail: &str, now: i64) -> (r:
        Result<(), DbError>)
        ensures
            match (
                old(self)@.uploading_at(id@),
                old(self)@.running_attempt(id@, attempt_id@),
            ) {
                (Some(k), Some(a)) => r is Ok && final(self)@ == old(self)@.with_upload(
                    a,
                    (UploadModel {
                        status: UploadState::Failed,
                        detail: Some(detail@),
                        finished_at: Some(now),
                        ..old(self)@.uploads[a]
                    }),
                ).with_job(k, (RowModel { updated_at: now, ..old(self)@.jobs[k].released() })),
                _ => r == refused::<()>(DbError::AttemptGone) && final(self)@ == old(self)@,
            },
            old(self)@.wf() ==> final(self)@.wf(),
    {
        match (self.find_uploading(id), self.find_running(id, attempt_id)) {
            (Some(k), Some(a)) => {
                let ghost before = self@;
                self.jobs[k].release();
                self.jobs[k].updated_at = now;
                proof {
                    assert(self@ =~= before.with_job(k as int, self@.jobs[k as int]));
                    job_step(before, self@, k as int);
                }
                let ghost mid = self@;
                self.uploads[a].status = UploadState::Failed;
                self.uploads[a].detail = Some(detail.to_owned());
                self.uploads[a].finished_at = Some(now);
                proof {
                    assert(self@.jobs == mid.jobs && self@.channels == mid.channels);
                }
                Ok(())
            },
            _ => Err(DbError::AttemptGone),
        }
    }

    /// Notes that it is not known whether a submission of this process went through. The plan is
    /// kept, and the job waits for somebody to look.
    pub fn mark_upload_attempt_uncertain(&mut self, id: &str, attempt_id: &str, detail: &str, now: i64) -> (r:
        Result<(), DbError>)
        ensures
            match (
                old(self)@.uploading_at(id@),
                old(self)@.running_attempt(id@, attempt_id@),
            ) {
                (Some(k), Some(a)) => r is Ok && final(self)@ == old(self)@.with_upload(
                    a,
                    (UploadModel {
                        status: UploadState::Uncertain,
                        detail: Some(detail@),
                        finished_at: Some(now),
                        ..old(self)@.uploads[a]
                    }),
                ).with_job(
                    k,
                    old(self)@.jobs[k].moved(
                        JobStatus::UploadUncertain,
                        Some(detail@),
                        now,
                    ).released(),
                ),
                _ => r == refused::<()>(DbError::AttemptGone) && final(self)@ == old(self)@,
            },
            old(self)@.wf() ==> final(self)@.wf(),
    {
        match (self.find_uploading(id), self.find_running(id, attempt_id)) {
            (Some(k), Some(a)) => {
                let ghost before = self@;
                self.jobs[k].move_to(JobStatus::UploadUncertain, Some(detail), now);
                self.jobs[k].release();
                proof {
                    assert(self@ =~= before.with_job(k as int, self@.jobs[k as int]));
                    job_step(before, self@, k as int);
                }
                let ghost mid = self@;
                self.uploads[a].status = UploadState::Uncertain;
                self.uploads[a].detail = Some(detail.to_owned());
                self.uploads[a].finished_at = Some(now);
                proof {
                    assert(self@.jobs == mid.jobs && self@.channels == mid.channels);
                }
                Ok(())
            },
            _ => Err(DbError::AttemptGone),
        }
    }

    /// Settles a submission in doubt that somebody found not to have gone through: the attempt
    /// failed, and the job starts again, at its submission if that is planned. Tells where.
    pub fn discard_uncertain_upload(&mut self, id: &str, detail: &str, now: i64) -> (r: Result<
        JobStatus,
        DbError,
    >)
        ensures
            match (old(self)@.uncertain_at(id@), old(self)@.uncertain_attempt(id@)) {
                (Some(k), Some(a)) => r == Ok::<JobStatus, DbError>(old(self)@.jobs[k].start())
                    && final(self)@ == old(self)@.with_upload(
                    a,
                    (UploadModel {
                        status: UploadState::Failed,
                        detail: Some(detail@),
                        finished_at: Some(now),
                        ..old(self)@.uploads[a]
                    }),
                ).with_job(k, old(self)@.jobs[k].restarted(now).released()),
                _ => r == refused::<JobStatus>(DbError::NotUncertain) && final(self)@ == old(self)@,
            },
            old(self)@.wf() ==> final(self)@.wf(),
    {
        match (self.find_uncertain(id), self.find_uncertain_attempt(id)) {
            (Some(k), Some(a)) => {
                let ghost before = self@;
                self.jobs[k].restart(now);
                self.jobs[k].release();
                proof {
                    assert(self@ =~= before.with_job(k as int, self@.jobs[k as int]));
                    job_step(before, self@, k as int);
                }
                let ghost mid = self@;
                self.uploads[a].status = UploadState::Failed;
                self.uploads[a].detail = Some(detail.to_owned());
                self.uploads[a].finished_at = Some(now);
                proof {
                    assert(self@.jobs == mid.jobs && self@.channels == mid.channels);
                }
                Ok(self.jobs[k].job.status)
            },
            _ => Err(DbError::NotUncertain),
        }
    }

    /// Settles a submission in doubt that was found to have gone through. Whether the job now waits
    /// for its subtitle.
    pub fn confirm_uncertain_upload(
        &mut self,
        id: &str,
        bvid: &str,
        completion_status: JobStatus,
        mode: TransferMode,
        timing: UploadCompletionTiming,
        now: i64,
    ) -> (r: Result<bool, DbError>)
        requires
            countable(later(now, timing.subtitle_delay_seconds)),
        ensures
            match submission_noted(
                old(self)@,
                old(self)@.uncertain_at(id@),
                old(self)@.uncertain_attempt(id@),
                UploadState::Reconciled,
                Some("创作中心核对确认"@),
                DbError::NotUncertain,
                bvid@,
                completion_status,
                mode,
                timing,
                now,
            ) {
                Err(e) => r == refused::<bool>(e) && final(self)@ == old(self)@,
                Ok(after) => r == Ok::<bool, DbError>(queues_subtitle(completion_status, mode))
                    && final(self)@ == after,
            },
            r is Ok && timing.in_calendar() ==> next_waits(final(self)@, timing),
            old(self)@.wf() ==> final(self)@.wf(),
    {
        let job = self.find_uncertain(id);
        let attempt = self.find_uncertain_attempt(id);
        self.note_submission(
            job,
            attempt,
            UploadState::Reconciled,
            Some("创作中心核对确认"),
            DbError::NotUncertain,
            bvid,
            completion_status,
            mode,
            timing,
            now,
        )
    }
}

/// A place as a number without bound.
pub open spec fn at(k: Option<usize>) -> Option<int> {
    match k {
        Some(x) => Some(x as int),
        None => None,
    }
}

// ---------------------------------------------------------------------------------------------
// What a submission begins and ends with
// ---------------------------------------------------------------------------------------------

/// A submission begins if and only if the lock is free, the last one lies far enough back, and the
/// job is ready or its next try is due. It bears its own name, runs for that job, and the job is
/// held for the upload.
pub proof fn submissions_begin_when_allowed(
    db: DbModel,
    attempt_id: Seq<char>,
    k: int,
    now: i64,
)
    requires
        db.wf(),
        0 <= k < db.jobs.len(),
        now + 300_000 <= i64::MAX,
        forall|j: int| 0 <= j < db.uploads.len() ==> (#[trigger] db.uploads[j]).id != attempt_id,
    ensures
        ({
            let row = db.jobs[k];
            let r = submission_begun(db, attempt_id, row.job.id, now);
            let wait = db.setting("bilibili.next_submit_at"@);
            let locked = db.hold is Some && db.hold->Some_0.expires_at > now;
            let ready = row.legacy is None && (row.job.status == JobStatus::ReadyToUpload
                || row.job.status == JobStatus::UploadRetryWait);
            let due = wait is None || (rfc3339_millis(wait->Some_0) is Some && rfc3339_millis(
                wait->Some_0,
            )->Some_0 <= now);
            &&& (r is Ok && r->Ok_0 is Some) <==> !locked && due && ready
            &&& r matches Ok(Some(after)) ==> {
                let made = after.uploads.last();
                let held = after.jobs[k];
                &&& after.uploads == db.uploads.push(made)
                &&& made.id == attempt_id && made.job_id == row.job.id
                &&& made.status == UploadState::Running && made.started_at == now
                &&& made.bvid is None && made.finished_at is None
                &&& held.job.status == JobStatus::Uploading && held.legacy is None
                &&& held.job.error is None
                &&& held.claim_kind == Some("upload"@)
                &&& held.claim_owner == Some(db.claim_owner)
                &&& held.claim_expires_at == Some((now + 300_000) as i64)
                &&& held.job.id == row.job.id && held.prepared_upload == row.prepared_upload
                &&& held.job.attempt == row.job.attempt
                &&& after.settings == db.settings
                &&& forall|j: int|
                    0 <= j < db.jobs.len() && j != k ==> #[trigger] after.jobs[j] == db.jobs[j]
            }
        }),
{
    jobs_are_found(db, k, db.jobs[k].job.id);
    let p = |a: UploadModel| a.id == attempt_id;
    place_is_none(db.uploads, p);
    assert(db.upload_at(attempt_id) == place(db.uploads, p));
}

/// A published video is kept under its name. A translated one, or one that was planned to be, then
/// waits for its subtitle; any other is done. The claim ends, and the plan is gone.
pub proof fn published_jobs_wait_or_are_done(
    row: RowModel,
    bvid: Seq<char>,
    status: JobStatus,
    mode: TransferMode,
    delay: i64,
    now: i64,
)
    requires
        status == JobStatus::Completed || status == JobStatus::UploadedOriginalPendingSubtitle,
        countable(now + delay * 1000),
    ensures
        ({
            let after = row.submitted(bvid, status, mode, delay, now);
            let waits = status == JobStatus::UploadedOriginalPendingSubtitle || mode
                == TransferMode::Translated;
            &&& after.job.bvid == Some(bvid)
            &&& waits ==> after.job.status == JobStatus::UploadedOriginalPendingSubtitle
                && after.subtitle_retry_at == Some((now + delay * 1000) as i64)
            &&& !waits ==> after.job.status == JobStatus::Completed && after.subtitle_retry_at is None
            &&& after.legacy is None && after.job.error is None
            &&& after.job.subtitle_attempt == 0 && after.job.attempt == row.job.attempt
            &&& after.claim_kind is None && after.claim_owner is None
            &&& after.claim_expires_at is None
            &&& after.prepared_upload is None && after.retry_at is None
            &&& after.updated_at == now
            &&& after.job.id == row.job.id && after.job.video_id == row.job.video_id
            &&& after.job.transfer_mode == row.job.transfer_mode
            &&& after.subtitle_path == row.subtitle_path
        }),
{
}

/// A submission that went through is noted on its attempt and its job alone, and the next one may
/// start at the time given. A name that another job's video has is refused, and so is a status in
/// which no submission ends.
pub proof fn submissions_are_noted(
    db: DbModel,
    k: int,
    a: int,
    state: UploadState,
    detail: Option<Seq<char>>,
    gone: DbError,
    bvid: Seq<char>,
    status: JobStatus,
    mode: TransferMode,
    timing: UploadCompletionTiming,
    now: i64,
)
    requires
        0 <= k < db.jobs.len(),
        0 <= a < db.uploads.len(),
    ensures
        ({
            let r = submission_noted(
                db, Some(k), Some(a), state, detail, gone, bvid, status, mode, timing, now,
            );
            let ends = status == JobStatus::Completed || status
                == JobStatus::UploadedOriginalPendingSubtitle;
            let taken = exists|j: int|
                0 <= j < db.jobs.len() && j != k && (#[trigger] db.jobs[j]).job.bvid == Some(bvid);
            let at = timing.next_submit_at;
            &&& !ends || taken ==> r is Err
            &&& ends && !taken && at is None ==> r is Ok && r->Ok_0.settings == db.settings
            &&& ends && !taken && at is Some && rfc3339_text(at->Some_0 as int) is Some ==> r is Ok
                && r->Ok_0.setting("bilibili.next_submit_at"@) == rfc3339_text(at->Some_0 as int)
            &&& r matches Ok(after) ==> {
                &&& after.jobs[k].job.bvid == Some(bvid)
                &&& after.uploads[a].status == state && after.uploads[a].bvid == Some(bvid)
                &&& after.uploads[a].detail == detail
                &&& after.uploads[a].finished_at == Some(now)
                &&& after.uploads[a].id == db.uploads[a].id
                &&& after.uploads[a].job_id == db.uploads[a].job_id
                &&& after.uploads[a].started_at == db.uploads[a].started_at
                &&& forall|j: int|
                    0 <= j < db.jobs.len() && j != k ==> #[trigger] after.jobs[j] == db.jobs[j]
                &&& forall|j: int|
                    0 <= j < db.uploads.len() && j != a ==> #[trigger] after.uploads[j]
                        == db.uploads[j]
            }
        }),
{
    if timing.next_submit_at is Some && rfc3339_text(timing.next_submit_at->Some_0 as int) is Some {
        let noted = db.with_upload(
            a,
            UploadModel {
                status: state,
                bvid: Some(bvid),
                detail,
                finished_at: Some(now),
                ..db.uploads[a]
            },
        ).with_job(
            k,
            db.jobs[k].submitted(bvid, status, mode, timing.subtitle_delay_seconds, now),
        );
        set_then_get(
            noted,
            "bilibili.next_submit_at"@,
            rfc3339_text(timing.next_submit_at->Some_0 as int)->Some_0,
            now,
        );
    }
}

/// The latest attempt of a job is one of its own, and none of its own started later.
pub proof fn latest_attempt_is_the_newest(db: DbModel, job_id: Seq<char>, j: int)
    requires
        0 <= j < db.uploads.len(),
        db.uploads[j].job_id == job_id,
    ensures
        db.latest_attempt(job_id) matches Some(k) && 0 <= k < db.uploads.len()
            && db.uploads[k].job_id == job_id && db.uploads[j].started_at
            <= db.uploads[k].started_at,
{
    let keys = db.attempts_of(job_id, None);
    picked_means(keys);
    assert(keys[j] is Some);
    let k = db.latest_attempt(job_id)->Some_0;
    assert(is_least(keys, k));
    assert(keys[k] is Some);
    if j != k {
        assert(comes_before(keys, k, j));
    }
}

/// A running attempt is the one of that name, of that job, that has not ended; a submission in
/// doubt is one whose job says so.
pub proof fn attempts_are_told_apart(db: DbModel, k: int, a: int, attempt_id: Seq<char>)
    requires
        db.wf(),
        0 <= k < db.jobs.len(),
    ensures
        ({
            let id = db.jobs[k].job.id;
            &&& db.running_attempt(id, attempt_id) == Some(a) ==> 0 <= a < db.uploads.len()
                && db.uploads[a].id == attempt_id && db.uploads[a].job_id == id
                && db.uploads[a].status == UploadState::Running
            &&& db.uploading_at(id) is Some <==> db.jobs[k].legacy is None && db.jobs[k].job.status
                == JobStatus::Uploading && db.jobs[k].claim_kind == Some("upload"@)
                && db.jobs[k].claim_owner == Some(db.claim_owner)
            &&& db.uploading_at(id) is Some ==> db.uploading_at(id) == Some(k)
            &&& db.uncertain_at(id) is Some <==> db.jobs[k].legacy is None && db.jobs[k].job.status
                == JobStatus::UploadUncertain
            &&& db.uncertain_at(id) is Some ==> db.uncertain_at(id) == Some(k)
        }),
{
    jobs_are_found(db, k, db.jobs[k].job.id);
    let p = |u: UploadModel| u.id == attempt_id;
    place_means(db.uploads, p);
    assert(db.upload_at(attempt_id) == place(db.uploads, p));
}

/// The attempt in doubt of a job is its latest one, where that one is in doubt.
pub proof fn doubtful_attempt_is_the_latest(db: DbModel, job_id: Seq<char>)
    ensures
        db.uncertain_attempt(job_id) matches Some(k) ==> db.latest_attempt(job_id) == Some(k)
            && db.uploads[k].status == UploadState::Uncertain,
        db.latest_attempt(job_id) matches Some(k) ==> (db.uncertain_attempt(job_id) is Some
            <==> db.uploads[k].status == UploadState::Uncertain),
{
}

/// A submission in doubt that did not go through ends its attempt as failed, and its job starts anew
/// where its work stands, with no failures.
pub proof fn discarded_doubt_starts_anew(
    db: &mut Database,
    id: &str,
    detail: &str,
    now: i64,
    k: int,
    a: int,
    r: Result<JobStatus, DbError>,
)
    requires
        call_ensures(Database::discard_uncertain_upload, (db, id, detail, now), r),
        old(db)@.uncertain_at(id@) == Some(k),
        old(db)@.uncertain_attempt(id@) == Some(a),
        0 <= k < old(db)@.jobs.len(),
        0 <= a < old(db)@.uploads.len(),
    ensures
        r is Ok,
        final(db)@.jobs[k].job.attempt == 0 && final(db)@.jobs[k].claim_owner is None,
        old(db)@.jobs[k].prepared_upload is Some ==> final(db)@.jobs[k].job.status
            == JobStatus::ReadyToUpload && r->Ok_0 == JobStatus::ReadyToUpload,
        old(db)@.jobs[k].prepared_upload is None ==> final(db)@.jobs[k].job.status
            == JobStatus::Queued && r->Ok_0 == JobStatus::Queued,
        final(db)@.uploads[a].status == UploadState::Failed,
        final(db)@.uploads[a].detail == Some(detail@),
        final(db)@.uploads[a].finished_at == Some(now),
{
}

/// A submission in doubt that did go through bears its name, and its attempt says that it was looked
/// up.
pub proof fn confirmed_doubt_is_published(
    db: &mut Database,
    id: &str,
    bvid: &str,
    status: JobStatus,
    mode: TransferMode,
    timing: UploadCompletionTiming,
    now: i64,
    k: int,
    a: int,
    r: Result<bool, DbError>,
)
    requires
        call_ensures(Database::confirm_uncertain_upload, (db, id, bvid, status, mode, timing, now), r),
        old(db)@.uncertain_at(id@) == Some(k),
        old(db)@.uncertain_attempt(id@) == Some(a),
        0 <= k < old(db)@.jobs.len(),
        0 <= a < old(db)@.uploads.len(),
        timing.next_submit_at is None,
        status == JobStatus::Completed || status == JobStatus::UploadedOriginalPendingSubtitle,
        forall|j: int|
            0 <= j < old(db)@.jobs.len() && j != k ==> (#[trigger] old(db)@.jobs[j]).job.bvid != Some(
                bvid@,
            ),
    ensures
        r is Ok,
        final(db)@.jobs[k].job.bvid == Some(bvid@),
        final(db)@.uploads[a].status == UploadState::Reconciled,
        final(db)@.uploads[a].bvid == Some(bvid@),
        mode == TransferMode::Translated ==> r == Ok::<bool, DbError>(true)
            && final(db)@.jobs[k].job.status == JobStatus::UploadedOriginalPendingSubtitle,
        mode == TransferMode::Direct && status == JobStatus::Completed ==> r == Ok::<bool, DbError>(
            false,
        ) && final(db)@.jobs[k].job.status == JobStatus::Completed,
{
    assert(!old(db)@.bvid_taken(k, bvid@));
}

} // verus!
