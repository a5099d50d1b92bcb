//! Subtitles that are added to published videos: who waits for one, and the attempts to submit it.
use vstd::prelude::*;

use crate::fault::{refused, DbError};
use crate::jobs::{at_later, claimed_write, countable, later, plain_write};
use crate::model::JobStatus;
use crate::queue::{fresh_id, Line, CLAIM_LEASE_MS, SUBTITLE_CLAIM_KIND};
use crate::store::{
    blocks, is_first, job_step, jobs_are_found, place, place_is, place_is_none, place_means,
    same_place, Database, DbModel, Job, JobModel, JobRow, RowModel, SubtitleModel, SubtitleRow,
    SubtitleState,
};
use crate::text::{same_optional, same_text};

verus! {

/// An attempt to submit a subtitle, as a caller sees it.
#[derive(Debug)]
pub struct SubtitleAttempt {
    pub id: String,
    pub bvid: String,
    pub status: SubtitleState,
}

/// What may be done for a subtitle.
#[derive(Debug)]
pub enum SubtitleAttemptDecision {
    /// Submit it, under the name of this attempt.
    Submit(String),
    /// Only ask what became of this attempt.
    QueryOnly(SubtitleAttempt),
}

/// Whether an attempt is the one of a row.
pub open spec fn shows(a: SubtitleAttempt, row: SubtitleModel) -> bool {
    a.id@ == row.id && a.bvid@ == row.bvid && a.status == row.status
}

impl DbModel {
    /// Where the subtitle attempt of a job stands that keeps another from being made.
    pub open spec fn blocking_at(self, job_id: Seq<char>) -> Option<int> {
        place(self.subtitles, |a: SubtitleModel| a.job_id == job_id && blocks(a.status))
    }

    /// Where the subtitle attempt of that name stands.
    pub open spec fn subtitle_at(self, id: Seq<char>) -> Option<int> {
        place(self.subtitles, |a: SubtitleModel| a.id == id)
    }

    /// Where an attempt of a job stands that was started, or is in doubt if that is wanted too.
    pub open spec fn open_attempt(self, job_id: Seq<char>, attempt_id: Seq<char>, in_doubt: bool) -> Option<
        int,
    > {
        match self.subtitle_at(attempt_id) {
            Some(k) => if self.subtitles[k].job_id == job_id && (self.subtitles[k].status
                == SubtitleState::Started || (in_doubt && self.subtitles[k].status
                == SubtitleState::Uncertain)) {
                Some(k)
            } else {
                None
            },
            None => None,
        }
    }

    /// The tables with one subtitle attempt replaced.
    pub open spec fn with_subtitle(self, k: int, a: SubtitleModel) -> DbModel {
        DbModel { subtitles: self.subtitles.update(k, a), ..self }
    }

    /// Whether this process holds a published job for its subtitle.
    pub open spec fn holds_subtitle(self, id: Seq<char>, bvid: Seq<char>) -> bool {
        match self.claimed_at(id, SUBTITLE_CLAIM_KIND@) {
            Some(k) => self.jobs[k].job.bvid == Some(bvid) && (self.jobs[k].is(JobStatus::Completed)
                || self.jobs[k].is(JobStatus::UploadedOriginalPendingSubtitle)),
            None => false,
        }
    }
}

/// An attempt that ends in a state.
pub open spec fn ended(a: SubtitleModel, status: SubtitleState, detail: Seq<char>, now: i64) -> SubtitleModel {
    SubtitleModel { status, detail: Some(detail), finished_at: Some(now), ..a }
}

impl RowModel {
    /// The row of a job whose subtitle is settled, given back.
    pub open spec fn subtitled(self, mark_completed: bool, clear_retry: bool, now: i64) -> RowModel {
        let row = RowModel {
            job: JobModel { error: None, ..self.job },
            updated_at: now,
            ..self.released()
        };
        if mark_completed {
            RowModel {
                job: JobModel { status: JobStatus::Completed, ..row.job },
                legacy: None,
                subtitle_retry_at: if clear_retry {
                    None
                } else {
                    row.subtitle_retry_at
                },
                ..row
            }
        } else {
            row
        }
    }

    /// The row of a job whose subtitle was tried once more and waits until a time.
    pub open spec fn subtitle_put_off(self, error: Seq<char>, until: int, now: i64) -> RowModel {
        RowModel {
            job: JobModel {
                subtitle_attempt: (self.job.subtitle_attempt + 1) as i64,
                error: Some(error),
                ..self.job
            },
            subtitle_retry_at: Some(until as i64),
            updated_at: now,
            ..self
        }
    }

    /// The row of a job whose subtitle is not tried again by itself.
    pub open spec fn subtitle_exhausted(self, max_attempts: i64, error: Seq<char>, now: i64) -> RowModel {
        RowModel {
            job: JobModel { subtitle_attempt: max_attempts, error: Some(error), ..self.job },
            subtitle_retry_at: None,
            updated_at: now,
            ..self
        }
    }
}

impl JobRow {
    fn settle_subtitle(&mut self, mark_completed: bool, clear_retry: bool, now: i64)
        ensures
            final(self)@ == old(self)@.subtitled(mark_completed, clear_retry, now),
    {
        self.job.error = None;
        self.updated_at = now;
        self.release();
        if mark_completed {
            self.job.status = JobStatus::Completed;
            self.legacy = None;
            if clear_retry {
                self.subtitle_retry_at = None;
            }
        }
    }

    fn put_off_subtitle(&mut self, error: &str, until: i64, now: i64)
        requires
            old(self).job.subtitle_attempt < i64::MAX,
        ensures
            final(self)@ == old(self)@.subtitle_put_off(error@, until as int, now),
    {
        self.job.subtitle_attempt = self.job.subtitle_attempt + 1;
        self.job.error = Some(error.to_owned());
        self.subtitle_retry_at = Some(until);
        self.updated_at = now;
    }

    fn exhaust_subtitle(&mut self, max_attempts: i64, error: &str, now: i64)
        ensures
            final(self)@ == old(self)@.subtitle_exhausted(max_attempts, error@, now),
    {
        self.job.subtitle_attempt = max_attempts;
        self.job.error = Some(error.to_owned());
        self.subtitle_retry_at = None;
        self.updated_at = now;
    }
}

/// What starting a subtitle attempt does: an error where the job is not held for it, nothing where
/// an earlier attempt is not known to be refused, and otherwise a new attempt comes last.
pub enum SubtitleBegun {
    Refused(DbError),
    Blocked(int),
    Started(DbModel),
}

/// What starting a subtitle attempt does.
pub open spec fn subtitle_begun(
    db: DbModel,
    attempt_id: Seq<char>,
    id: Seq<char>,
    bvid: Seq<char>,
    now: i64,
) -> SubtitleBegun {
    if !db.holds_subtitle(id, bvid) {
        SubtitleBegun::Refused(DbError::SubtitleMoved)
    } else {
        match db.blocking_at(id) {
            Some(k) => SubtitleBegun::Blocked(k),
            None => if db.subtitle_at(attempt_id) is Some {
                SubtitleBegun::Refused(DbError::DuplicateId)
            } else {
                SubtitleBegun::Started(
                    DbModel {
                        subtitles: db.subtitles.push(
                            SubtitleModel {
                                id: attempt_id,
                                job_id: id,
                                bvid,
                                status: SubtitleState::Started,
                                detail: None,
                                started_at: now,
                                finished_at: None,
                            },
                        ),
                        ..db
                    },
                )
            },
        }
    }
}

/// A new attempt keeps the tables sound: it is the only one of its job that keeps another from being
/// made, and from then on only questions are allowed.
pub proof fn started_subtitle_blocks(
    db: DbModel,
    attempt_id: Seq<char>,
    id: Seq<char>,
    bvid: Seq<char>,
    now: i64,
    other: Seq<char>,
    later_on: i64,
)
    requires
        subtitle_begun(db, attempt_id, id, bvid, now) is Started,
    ensures
        db.wf() ==> subtitle_begun(db, attempt_id, id, bvid, now)->Started_0.wf(),
        !(subtitle_begun(
            subtitle_begun(db, attempt_id, id, bvid, now)->Started_0,
            other,
            id,
            bvid,
            later_on,
        ) is Started),
{
    let after = subtitle_begun(db, attempt_id, id, bvid, now)->Started_0;
    let p = |a: SubtitleModel| a.job_id == id && blocks(a.status);
    place_means(db.subtitles, p);
    if db.wf() {
        assert forall|i: int, j: int|
            0 <= i < j < after.subtitles.len() && (#[trigger] after.subtitles[i]).job_id == (
            #[trigger] after.subtitles[j]).job_id implies !(blocks(after.subtitles[i].status)
            && blocks(after.subtitles[j].status)) by {
            let a = db.subtitles[i];
            if j < db.subtitles.len() {
                let b = db.subtitles[j];
            } else {
                assert(!p(db.subtitles[i]));
            }
        }
    }
    let last = db.subtitles.len() as int;
    assert(is_first(after.subtitles, p, last)) by {
        assert forall|j: int| 0 <= j < last implies !p(#[trigger] after.subtitles[j]) by {
            assert(after.subtitles[j] == db.subtitles[j]);
        }
    }
    place_is(after.subtitles, p, last);
}

/// Ending an attempt in any state keeps the tables sound, unless it was refused and is not any more.
pub proof fn ended_subtitle_keeps_wf(db: DbModel, k: int, a: SubtitleModel)
    requires
        db.wf(),
        0 <= k < db.subtitles.len(),
        a.job_id == db.subtitles[k].job_id,
        blocks(a.status) ==> blocks(db.subtitles[k].status),
    ensures
        db.with_subtitle(k, a).wf(),
{
    let after = db.with_subtitle(k, a);
    assert forall|i: int, j: int|
        0 <= i < j < after.subtitles.len() && (#[trigger] after.subtitles[i]).job_id == (
        #[trigger] after.subtitles[j]).job_id implies !(blocks(after.subtitles[i].status) && blocks(
        after.subtitles[j].status,
    )) by {
        let x = db.subtitles[i];
        let y = db.subtitles[j];
    }
}

/// What ending an attempt without success gives.
pub open spec fn attempt_ended(
    before: DbModel,
    after: DbModel,
    r: Result<(), DbError>,
    attempt: Option<int>,
    state: SubtitleState,
    detail: Seq<char>,
    now: i64,
) -> bool {
    match attempt {
        Some(k) => r is Ok && after == before.with_subtitle(
            k,
            ended(before.subtitles[k], state, detail, now),
        ),
        None => r == refused::<()>(DbError::SubtitleAttemptGone) && after == before,
    }
}

/// What ending an attempt with success gives: the claim ends with it.
pub open spec fn attempt_confirmed(
    before: DbModel,
    after: DbModel,
    r: Result<(), DbError>,
    id: Seq<char>,
    attempt: Option<int>,
    state: SubtitleState,
    detail: Seq<char>,
    gone: DbError,
    mark_completed: bool,
    now: i64,
) -> bool {
    match (before.claimed_at(id, SUBTITLE_CLAIM_KIND@), attempt) {
        (Some(k), Some(a)) => r is Ok && after == before.with_subtitle(
            a,
            ended(before.subtitles[a], state, detail, now),
        ).with_job(k, before.jobs[k].subtitled(mark_completed, true, now)),
        _ => r == refused::<()>(gone) && after == before,
    }
}

/// How the platform answered to a subtitle.
#[derive(Debug)]
pub enum CcOutcome {
    Accepted,
    /// It was refused, for the reason given.
    Refused(String),
    /// No answer came that could be read.
    Unknown(String),
}

/// The attempt of a job that was started or is in doubt.
pub open spec fn open_blocker(db: DbModel, id: Seq<char>) -> Option<Seq<char>> {
    match db.blocking_at(id) {
        Some(k) => if db.subtitles[k].status == SubtitleState::Started || db.subtitles[k].status
            == SubtitleState::Uncertain {
            Some(db.subtitles[k].id)
        } else {
            None
        },
        None => None,
    }
}

impl Database {
    fn find_blocking(&self, job_id: &str) -> (r: Option<usize>)
        ensures
            same_place(r, self@.blocking_at(job_id@), self.subtitles@.len() as int),
    {
        let ghost p = |a: SubtitleModel| a.job_id == job_id@ && blocks(a.status);
        let ghost rows = self@.subtitles;
        let mut i: usize = 0;
        while i < self.subtitles.len()
            invariant
                rows == self@.subtitles,
                rows.len() == self.subtitles@.len(),
                p == (|a: SubtitleModel| a.job_id == job_id@ && blocks(a.status)),
                0 <= i <= rows.len(),
                forall|j: int| 0 <= j < i ==> !p(#[trigger] rows[j]),
            decreases self.subtitles@.len() - i,
        {
            proof {
                assert(rows[i as int] == self.subtitles@[i as int]@);
            }
            if same_text(self.subtitles[i].job_id.as_str(), job_id) && self.subtitles[i].status
                != SubtitleState::Rejected {
                proof {
                    assert(is_first(rows, p, i as int));
                    place_is(rows, p, i as int);
                }
                return Some(i);
            }
            i = i + 1;
        }
        proof {
            place_is_none(rows, p);
        }
        None
    }

    fn find_subtitle(&self, id: &str) -> (r: Option<usize>)
        ensures
            same_place(r, self@.subtitle_at(id@), self.subtitles@.len() as int),
    {
        let ghost p = |a: SubtitleModel| a.id == id@;
        let ghost rows = self@.subtitles;
        let mut i: usize = 0;
        while i < self.subtitles.len()
            invariant
                rows == self@.subtitles,
                rows.len() == self.subtitles@.len(),
                p == (|a: SubtitleModel| a.id == id@),
                0 <= i <= rows.len(),
                forall|j: int| 0 <= j < i ==> !p(#[trigger] rows[j]),
            decreases self.subtitles@.len() - i,
        {
            proof {
                assert(rows[i as int] == self.subtitles@[i as int]@);
            }
            if same_text(self.subtitles[i].id.as_str(), id) {
                proof {
                    assert(is_first(rows, p, i as int));
                    place_is(rows, p, i as int);
                }
                return Some(i);
            }
            i = i + 1;
        }
        proof {
            place_is_none(rows, p);
        }
        None
    }

    fn find_open(&self, job_id: &str, attempt_id: &str, in_doubt: bool) -> (r: Option<usize>)
        ensures
            same_place(
                r,
                self@.open_attempt(job_id@, attempt_id@, in_doubt),
                self.subtitles@.len() as int,
            ),
    {
        match self.find_subtitle(attempt_id) {
            Some(k) => {
                let row = &self.subtitles[k];
                if same_text(row.job_id.as_str(), job_id) && (row.status == SubtitleState::Started
                    || (in_doubt && row.status == SubtitleState::Uncertain)) {
                    Some(k)
                } else {
                    None
                }
            },
            None => None,
        }
    }

    /// Lets a published job wait for its subtitle, from some time on.
    pub fn queue_pending_subtitle(&mut self, id: &str, delay_seconds: i64, now: i64) -> (r: Result<
        (),
        DbError,
    >)
        requires
            countable(later(now, delay_seconds)),
        ensures
            claimed_write(
                old(self)@,
                final(self)@,
                r,
                old(self)@.job_at(id@),
                DbError::NoJob,
                |row: RowModel|
                    {
                        let moved = row.moved(
                            JobStatus::UploadedOriginalPendingSubtitle,
                            row.job.error,
                            now,
                        ).released();
                        RowModel {
                            job: JobModel { subtitle_attempt: 0, ..moved.job },
                            subtitle_retry_at: Some(later(now, delay_seconds) as i64),
                            ..moved
                        }
                    },
            ),
            old(self)@.wf() ==> final(self)@.wf(),
    {
        match self.find_job(id) {
            None => Err(DbError::NoJob),
            Some(k) => {
                let ghost before = self@;
                self.jobs[k].job.status = JobStatus::UploadedOriginalPendingSubtitle;
                self.jobs[k].legacy = None;
                self.jobs[k].job.subtitle_attempt = 0;
                self.jobs[k].subtitle_retry_at = Some(at_later(now, delay_seconds));
                self.jobs[k].updated_at = now;
                self.jobs[k].release();
                proof {
                    assert(self@ =~= before.with_job(k as int, self@.jobs[k as int]));
                    job_step(before, self@, k as int);
                }
                Ok(())
            },
        }
    }

    /// The next job that waits for its subtitle after fewer tries than allowed.
    pub fn next_pending_subtitle_job(&self, max_attempts: i64, now: i64) -> (r: Option<Job>)
        ensures
            match self@.first_in(Line::Subtitle(max_attempts), now) {
                Some(k) => r matches Some(j) && j@ == self@.jobs[k].job,
                None => r is None,
            },
    {
        match self.pick_in(Line::Subtitle(max_attempts), now) {
            Some(k) => Some(self.jobs[k].job.copied()),
            None => None,
        }
    }

    /// Claims the next job that waits for its subtitle. It keeps its status.
    pub fn claim_next_pending_subtitle_job(&mut self, max_attempts: i64, now: i64) -> (r: Option<Job>)
        requires
            now + CLAIM_LEASE_MS <= i64::MAX,
        ensures
            match old(self)@.first_in(Line::Subtitle(max_attempts), now) {
                Some(k) => (r matches Some(j) && j@ == old(self)@.jobs[k].job) && final(self)@
                    == old(self)@.with_job(
                    k,
                    old(self)@.claim_of(old(self)@.jobs[k], SUBTITLE_CLAIM_KIND@, now),
                ),
                None => r is None && final(self)@ == old(self)@,
            },
            old(self)@.wf() ==> final(self)@.wf(),
    {
        match self.pick_in(Line::Subtitle(max_attempts), now) {
            None => None,
            Some(k) => {
                let ghost before = self@;
                let owner = self.claim_owner.clone();
                self.jobs[k].claim(SUBTITLE_CLAIM_KIND, owner.as_str(), now);
                proof {
                    assert(self@ =~= before.with_job(k as int, self@.jobs[k as int]));
                    job_step(before, self@, k as int);
                }
                Some(self.jobs[k].job.copied())
            },
        }
    }

    /// Claims a published job for its subtitle at once.
    pub fn claim_subtitle_job_now(&mut self, id: &str, now: i64) -> (r: Option<Job>)
        requires
            now + CLAIM_LEASE_MS <= i64::MAX,
        ensures
            match old(self)@.job_at(id@) {
                Some(k) => if !old(self)@.held(now) && old(self)@.jobs[k].takes_subtitle(now) {
                    (r matches Some(j) && j@ == old(self)@.jobs[k].job) && final(self)@ == old(self)@.with_job(
                        k,
                        old(self)@.claim_of(old(self)@.jobs[k], SUBTITLE_CLAIM_KIND@, now),
                    )
                } else {
                    r is None && final(self)@ == old(self)@
                },
                None => r is None && final(self)@ == old(self)@,
            },
            old(self)@.wf() ==> final(self)@.wf(),
    {
        match self.find_job(id) {
            None => None,
            Some(k) => {
                let row = &self.jobs[k];
                let takes = row.published() && (row.is(JobStatus::Completed) || row.is(
                    JobStatus::UploadedOriginalPendingSubtitle,
                )) && row.claim_free(now);
                if self.is_held(now) || !takes {
                    return None;
                }
                let ghost before = self@;
                let owner = self.claim_owner.clone();
                self.jobs[k].claim(SUBTITLE_CLAIM_KIND, owner.as_str(), now);
                proof {
                    assert(self@ =~= before.with_job(k as int, self@.jobs[k as int]));
                    job_step(before, self@, k as int);
                }
                Some(self.jobs[k].job.copied())
            },
        }
    }

    /// The attempt of a job that keeps another from being made: all but a refused one do.
    pub fn blocking_subtitle_attempt(&self, id: &str) -> (r: Option<SubtitleAttempt>)
        ensures
            match self@.blocking_at(id@) {
                Some(k) => r matches Some(a) && shows(a, self@.subtitles[k]),
                None => r is None,
            },
    {
        match self.find_blocking(id) {
            None => None,
            Some(k) => {
                let row = &self.subtitles[k];
                Some(
                    SubtitleAttempt {
                        id: row.id.clone(),
                        bvid: row.bvid.clone(),
                        status: row.status,
                    },
                )
            },
        }
    }

    /// Starts a subtitle attempt under a name, unless an earlier one is not known to be refused;
    /// then that one is given.
    pub fn begin_subtitle_attempt_with_id(
        &mut self,
        attempt_id: &str,
        id: &str,
        bvid: &str,
        now: i64,
    ) -> (r: Result<Option<SubtitleAttempt>, DbError>)
        ensures
            match subtitle_begun(old(self)@, attempt_id@, id@, bvid@, now) {
                SubtitleBegun::Refused(e) => (r matches Err(x) && x == e) && final(self)@ == old(self)@,
                SubtitleBegun::Blocked(k) => (r matches Ok(Some(a)) && shows(
                    a,
                    old(self)@.subtitles[k],
                )) && final(self)@ == old(self)@,
                SubtitleBegun::Started(after) => r matches Ok(None) && final(self)@ == after,
            },
            old(self)@.wf() ==> final(self)@.wf(),
    {
        let held = match self.find_claimed(id, SUBTITLE_CLAIM_KIND) {
            Some(k) => same_optional(&self.jobs[k].job.bvid, bvid) && (self.jobs[k].is(
                JobStatus::Completed,
            ) || self.jobs[k].is(JobStatus::UploadedOriginalPendingSubtitle)),
            None => false,
        };
        if !held {
            return Err(DbError::SubtitleMoved);
        }
        match self.blocking_subtitle_attempt(id) {
            Some(a) => {
                return Ok(Some(a));
            },
            None => {},
        }
        if self.find_subtitle(attempt_id).is_some() {
            return Err(DbError::DuplicateId);
        }
        proof {
            started_subtitle_blocks(self@, attempt_id@, id@, bvid@, now, attempt_id@, now);
        }
        let ghost before = self@;
        self.subtitles.push(
            SubtitleRow {
                id: attempt_id.to_owned(),
                job_id: id.to_owned(),
                bvid: bvid.to_owned(),
                status: SubtitleState::Started,
                detail: None,
                started_at: now,
                finished_at: None,
            },
        );
        proof {
            assert(self@ =~= subtitle_begun(before, attempt_id@, id@, bvid@, now)->Started_0);
        }
        Ok(None)
    }

    /// Starts a subtitle attempt under a new name, or tells which earlier one may only be asked
    /// about.
    pub fn begin_subtitle_attempt(&mut self, id: &str, bvid: &str, now: i64) -> (r: Result<
        SubtitleAttemptDecision,
        DbError,
    >)
        ensures
            r matches Ok(SubtitleAttemptDecision::Submit(attempt)) ==> attempt@.len() == 36
                && subtitle_begun(
                old(self)@,
                attempt@,
                id@,
                bvid@,
                now,
            ) == SubtitleBegun::Started(final(self)@),
            r matches Ok(SubtitleAttemptDecision::QueryOnly(a)) ==> old(self)@.holds_subtitle(
                id@,
                bvid@,
            ) && (old(self)@.blocking_at(id@) matches Some(k) && shows(a, old(self)@.subtitles[k]))
                && final(self)@ == old(self)@,
            r matches Err(e) ==> final(self)@ == old(self)@ && exists|attempt: Seq<char>|
                attempt.len() == 36 && #[trigger] subtitle_begun(old(self)@, attempt, id@, bvid@, now)
                    == SubtitleBegun::Refused(e),
            !old(self)@.holds_subtitle(id@, bvid@) ==> (r matches Err(e) && e
                == DbError::SubtitleMoved),
            old(self)@.holds_subtitle(id@, bvid@) && old(self)@.blocking_at(id@) is Some ==> (
            r matches Ok(SubtitleAttemptDecision::QueryOnly(_))),
            old(self)@.wf() ==> final(self)@.wf(),
    {
        let attempt_id = fresh_id();
        match self.begin_subtitle_attempt_with_id(attempt_id.as_str(), id, bvid, now) {
            Err(e) => Err(e),
            Ok(Some(a)) => Ok(SubtitleAttemptDecision::QueryOnly(a)),
            Ok(None) => Ok(SubtitleAttemptDecision::Submit(attempt_id)),
        }
    }

    /// Notes that the platform refused a subtitle; only then may another attempt be made.
    pub fn reject_subtitle_attempt(&mut self, id: &str, attempt_id: &str, detail: &str, now: i64) -> (r:
        Result<(), DbError>)
        ensures
            attempt_ended(
                old(self)@,
                final(self)@,
                r,
                old(self)@.open_attempt(id@, attempt_id@, false),
                SubtitleState::Rejected,
                detail@,
                now,
            ),
            old(self)@.wf() ==> final(self)@.wf(),
    {
        match self.find_open(id, attempt_id, false) {
            None => Err(DbError::SubtitleAttemptGone),
            Some(k) => {
                self.end_attempt(k, SubtitleState::Rejected, detail, now);
                Ok(())
            },
        }
    }

    fn end_attempt(&mut self, k: usize, status: SubtitleState, detail: &str, now: i64)
        requires
            k < old(self).subtitles@.len(),
            blocks(old(self)@.subtitles[k as int].status),
        ensures
            final(self)@ == old(self)@.with_subtitle(
                k as int,
                ended(old(self)@.subtitles[k as int], status, detail@, now),
            ),
            old(self)@.wf() ==> final(self)@.wf(),
    {
        proof {
            if self@.wf() {
                ended_subtitle_keeps_wf(
                    self@,
                    k as int,
                    ended(self@.subtitles[k as int], status, detail@, now),
                );
            }
        }
        let ghost before = self@;
        self.subtitles[k].status = status;
        self.subtitles[k].detail = Some(detail.to_owned());
        self.subtitles[k].finished_at = Some(now);
        proof {
            assert(self@ =~= before.with_subtitle(
                k as int,
                ended(before.subtitles[k as int], status, detail@, now),
            ));
        }
    }

    /// Notes that it is not known what became of a subtitle; from then on only questions are
    /// allowed.
    pub fn mark_subtitle_attempt_uncertain(&mut self, id: &str, attempt_id: &str, detail: &str, now: i64) -> (r:
        Result<(), DbError>)
        ensures
            attempt_ended(
                old(self)@,
                final(self)@,
                r,
                old(self)@.open_attempt(id@, attempt_id@, true),
                SubtitleState::Uncertain,
                detail@,
                now,
            ),
            old(self)@.wf() ==> final(self)@.wf(),
    {
        match self.find_open(id, attempt_id, true) {
            None => Err(DbError::SubtitleAttemptGone),
            Some(k) => {
                self.end_attempt(k, SubtitleState::Uncertain, detail, now);
                Ok(())
            },
        }
    }

    fn settle_attempt(
        &mut self,
        id: &str,
        attempt: Option<usize>,
        status: SubtitleState,
        detail: &str,
        gone: DbError,
        mark_completed: bool,
        now: i64,
    ) -> (r: Result<(), DbError>)
        requires
            attempt matches Some(a) ==> a < old(self).subtitles@.len() && blocks(
                old(self)@.subtitles[a as int].status,
            ),
        ensures
            match (old(self)@.claimed_at(id@, SUBTITLE_CLAIM_KIND@), attempt) {
                (Some(k), Some(a)) => r is Ok && final(self)@ == old(self)@.with_subtitle(
                    a as int,
                    ended(old(self)@.subtitles[a as int], status, detail@, now),
                ).with_job(k, old(self)@.jobs[k].subtitled(mark_completed, true, now)),
                _ => r == refused::<()>(gone) && final(self)@ == old(self)@,
            },
            old(self)@.wf() ==> final(self)@.wf(),
    {
        match (self.find_claimed(id, SUBTITLE_CLAIM_KIND), attempt) {
            (Some(k), Some(a)) => {
                self.end_attempt(a, status, detail, now);
                let ghost mid = self@;
                self.jobs[k].settle_subtitle(mark_completed, true, now);
                proof {
                    assert(self@ =~= mid.with_job(k as int, self@.jobs[k as int]));
                    job_step(mid, self@, k as int);
                }
                Ok(())
            },
            _ => Err(gone),
        }
    }

    /// Notes that the platform took a subtitle, and completes the job if asked to.
    pub fn finish_subtitle_attempt(&mut self, id: &str, attempt_id: &str, mark_completed: bool, now: i64) -> (r:
        Result<(), DbError>)
        ensures
            attempt_confirmed(
                old(self)@,
                final(self)@,
                r,
                id@,
                old(self)@.open_attempt(id@, attempt_id@, false),
                SubtitleState::Confirmed,
                "Bilibili 明确返回字幕提交成功"@,
                DbError::SubtitleAttemptGone,
                mark_completed,
                now,
            ),
            old(self)@.wf() ==> final(self)@.wf(),
    {
        let attempt = self.find_open(id, attempt_id, false);
        self.settle_attempt(
            id,
            attempt,
            SubtitleState::Confirmed,
            "Bilibili 明确返回字幕提交成功",
            DbError::SubtitleAttemptGone,
            mark_completed,
            now,
        )
    }

    /// Notes that the platform was found to have a subtitle, and completes the job if asked to.
    pub fn reconcile_subtitle_attempt(
        &mut self,
        id: &str,
        attempt_id: &str,
        mark_completed: bool,
        now: i64,
    ) -> (r: Result<(), DbError>)
        ensures
            attempt_confirmed(
                old(self)@,
                final(self)@,
                r,
                id@,
                old(self)@.open_attempt(id@, attempt_id@, true),
                SubtitleState::Reconciled,
                "查询到平台已有 zh 字幕"@,
                DbError::SubtitleNotReconciled,
                mark_completed,
                now,
            ),
            old(self)@.wf() ==> final(self)@.wf(),
    {
        let attempt = self.find_open(id, attempt_id, true);
        self.settle_attempt(
            id,
            attempt,
            SubtitleState::Reconciled,
            "查询到平台已有 zh 字幕",
            DbError::SubtitleNotReconciled,
            mark_completed,
            now,
        )
    }

    /// Counts a failed try of a subtitle and puts the next off.
    pub fn defer_pending_subtitle(&mut self, id: &str, error: &str, delay_seconds: i64, now: i64) -> (r:
        Result<(), DbError>)
        requires
            countable(later(now, delay_seconds)),
        ensures
            subtitle_deferred(
                old(self)@,
                final(self)@,
                r,
                old(self)@.job_at(id@),
                None,
                |row: RowModel| row.subtitle_put_off(error@, later(now, delay_seconds), now),
            ),
            old(self)@.wf() ==> final(self)@.wf(),
    {
        match self.find_job(id) {
            None => Ok(()),
            Some(k) => {
                if self.jobs[k].job.subtitle_attempt == i64::MAX {
                    return Err(DbError::TooLarge);
                }
                let ghost before = self@;
                self.jobs[k].put_off_subtitle(error, at_later(now, delay_seconds), now);
                proof {
                    assert(self@ =~= before.with_job(k as int, self@.jobs[k as int]));
                    job_step(before, self@, k as int);
                }
                Ok(())
            },
        }
    }

    /// Counts a failed try of a subtitle that this process holds, puts the next off and gives the
    /// job back.
    pub fn defer_claimed_pending_subtitle(&mut self, id: &str, error: &str, delay_seconds: i64, now: i64) -> (r:
        Result<(), DbError>)
        requires
            countable(later(now, delay_seconds)),
        ensures
            subtitle_deferred(
                old(self)@,
                final(self)@,
                r,
                old(self)@.claimed_at(id@, SUBTITLE_CLAIM_KIND@),
                Some(DbError::SubtitleClaimLost),
                |row: RowModel|
                    row.subtitle_put_off(error@, later(now, delay_seconds), now).released(),
            ),
            old(self)@.wf() ==> final(self)@.wf(),
    {
        match self.find_claimed(id, SUBTITLE_CLAIM_KIND) {
            None => Err(DbError::SubtitleClaimLost),
            Some(k) => {
                if self.jobs[k].job.subtitle_attempt == i64::MAX {
                    return Err(DbError::TooLarge);
                }
                let ghost before = self@;
                self.jobs[k].put_off_subtitle(error, at_later(now, delay_seconds), now);
                self.jobs[k].release();
                proof {
                    assert(self@ =~= before.with_job(k as int, self@.jobs[k as int]));
                    job_step(before, self@, k as int);
                }
                Ok(())
            },
        }
    }

    /// Lets a subtitle not be tried again by itself.
    pub fn exhaust_pending_subtitle(&mut self, id: &str, max_attempts: i64, error: &str, now: i64)
        ensures
            plain_write(
                old(self)@,
                final(self)@,
                old(self)@.job_at(id@),
                |row: RowModel| row.subtitle_exhausted(max_attempts, error@, now),
            ),
            old(self)@.wf() ==> final(self)@.wf(),
    {
        match self.find_job(id) {
            None => {},
            Some(k) => {
                let ghost before = self@;
                self.jobs[k].exhaust_subtitle(max_attempts, error, now);
                proof {
                    assert(self@ =~= before.with_job(k as int, self@.jobs[k as int]));
                    job_step(before, self@, k as int);
                }
            },
        }
    }

    /// Lets a subtitle that this process holds not be tried again by itself, and gives the job back.
    pub fn exhaust_claimed_pending_subtitle(&mut self, id: &str, max_attempts: i64, error: &str, now: i64) -> (r:
        Result<(), DbError>)
        ensures
            claimed_write(
                old(self)@,
                final(self)@,
                r,
                old(self)@.claimed_at(id@, SUBTITLE_CLAIM_KIND@),
                DbError::SubtitleClaimLost,
                |row: RowModel| row.subtitle_exhausted(max_attempts, error@, now).released(),
            ),
            old(self)@.wf() ==> final(self)@.wf(),
    {
        match self.find_claimed(id, SUBTITLE_CLAIM_KIND) {
            None => Err(DbError::SubtitleClaimLost),
            Some(k) => {
                let ghost before = self@;
                self.jobs[k].exhaust_subtitle(max_attempts, error, now);
                self.jobs[k].release();
                proof {
                    assert(self@ =~= before.with_job(k as int, self@.jobs[k as int]));
                    job_step(before, self@, k as int);
                }
                Ok(())
            },
        }
    }

    /// Gives back a job held for its subtitle, and completes it if asked to.
    pub fn finish_subtitle_claim(&mut self, id: &str, mark_completed: bool, now: i64) -> (r: Result<
        (),
        DbError,
    >)
        ensures
            claimed_write(
                old(self)@,
                final(self)@,
                r,
                old(self)@.claimed_at(id@, SUBTITLE_CLAIM_KIND@),
                DbError::SubtitleClaimLost,
                |row: RowModel| row.subtitled(mark_completed, false, now),
            ),
            old(self)@.wf() ==> final(self)@.wf(),
    {
        match self.find_claimed(id, SUBTITLE_CLAIM_KIND) {
            None => Err(DbError::SubtitleClaimLost),
            Some(k) => {
                let ghost before = self@;
                self.jobs[k].settle_subtitle(mark_completed, false, now);
                proof {
                    assert(self@ =~= before.with_job(k as int, self@.jobs[k as int]));
                    job_step(before, self@, k as int);
                }
                Ok(())
            },
        }
    }

    /// Lets the tries of a waiting subtitle that nobody holds start anew at once.
    pub fn rearm_pending_subtitle(&mut self, id: &str, now: i64) -> (r: Result<(), DbError>)
        ensures
            match old(self)@.job_at(id@) {
                Some(k) => if old(self)@.jobs[k].is(JobStatus::UploadedOriginalPendingSubtitle)
                    && old(self)@.jobs[k].claim_free(now) {
                    r is Ok && final(self)@ == old(self)@.with_job(
                        k,
                        (RowModel {
                            job: JobModel {
                                subtitle_attempt: 0,
                                error: None,
                                ..old(self)@.jobs[k].job
                            },
                            subtitle_retry_at: Some(now),
                            updated_at: now,
                            ..old(self)@.jobs[k]
                        }),
                    )
                } else {
                    r == refused::<()>(DbError::NotPendingSubtitle) && final(self)@ == old(self)@
                },
                None => r == refused::<()>(DbError::NotPendingSubtitle) && final(self)@ == old(self)@,
            },
            old(self)@.wf() ==> final(self)@.wf(),
    {
        match self.find_job(id) {
            None => Err(DbError::NotPendingSubtitle),
            Some(k) => {
                if !(self.jobs[k].is(JobStatus::UploadedOriginalPendingSubtitle)
                    && self.jobs[k].claim_free(now)) {
                    return Err(DbError::NotPendingSubtitle);
                }
                let ghost before = self@;
                self.jobs[k].job.subtitle_attempt = 0;
                self.jobs[k].job.error = None;
                self.jobs[k].subtitle_retry_at = Some(now);
                self.jobs[k].updated_at = now;
                proof {
                    assert(self@ =~= before.with_job(k as int, self@.jobs[k as int]));
                    job_step(before, self@, k as int);
                }
                Ok(())
            },
        }
    }
}

/// What putting off a subtitle gives: the row that `row` makes, the error `lost` or nothing where
/// the job is not there, and an error where the tries cannot be counted.
pub open spec fn subtitle_deferred(
    before: DbModel,
    after: DbModel,
    r: Result<(), DbError>,
    at: Option<int>,
    lost: Option<DbError>,
    row: spec_fn(RowModel) -> RowModel,
) -> bool {
    match at {
        Some(k) => if before.jobs[k].job.subtitle_attempt == i64::MAX {
            r == refused::<()>(DbError::TooLarge) && after == before
        } else {
            r is Ok && after == before.with_job(k, row(before.jobs[k]))
        },
        None => after == before && r == match lost {
            Some(e) => refused::<()>(e),
            None => Ok(()),
        },
    }
}

impl Database {
    /// Settles a subtitle attempt with what the platform answered: only a refusal allows another
    /// one, and without an answer it stays in doubt.
    pub fn settle_subtitle_submission(
        &mut self,
        id: &str,
        attempt_id: &str,
        outcome: &CcOutcome,
        mark_completed: bool,
        now: i64,
    ) -> (r: Result<(), DbError>)
        ensures
            match *outcome {
                CcOutcome::Accepted => attempt_confirmed(
                    old(self)@,
                    final(self)@,
                    r,
                    id@,
                    old(self)@.open_attempt(id@, attempt_id@, false),
                    SubtitleState::Confirmed,
                    "Bilibili 明确返回字幕提交成功"@,
                    DbError::SubtitleAttemptGone,
                    mark_completed,
                    now,
                ),
                CcOutcome::Refused(detail) => attempt_ended(
                    old(self)@,
                    final(self)@,
                    r,
                    old(self)@.open_attempt(id@, attempt_id@, false),
                    SubtitleState::Rejected,
                    detail@,
                    now,
                ),
                CcOutcome::Unknown(detail) => attempt_ended(
                    old(self)@,
                    final(self)@,
                    r,
                    old(self)@.open_attempt(id@, attempt_id@, true),
                    SubtitleState::Uncertain,
                    detail@,
                    now,
                ),
            },
            old(self)@.wf() ==> final(self)@.wf(),
    {
        match outcome {
            CcOutcome::Accepted => self.finish_subtitle_attempt(
                id,
                attempt_id,
                mark_completed,
                now,
            ),
            CcOutcome::Refused(detail) => self.reject_subtitle_attempt(
                id,
                attempt_id,
                detail.as_str(),
                now,
            ),
            CcOutcome::Unknown(detail) => self.mark_subtitle_attempt_uncertain(
                id,
                attempt_id,
                detail.as_str(),
                now,
            ),
        }
    }

    /// Settles a claimed job whose video has its subtitle: an attempt that was open turns out to
    /// have gone through.
    pub fn settle_present_subtitle(&mut self, id: &str, mark_completed: bool, now: i64) -> (r: Result<
        (),
        DbError,
    >)
        ensures
            match open_blocker(old(self)@, id@) {
                Some(attempt) => attempt_confirmed(
                    old(self)@,
                    final(self)@,
                    r,
                    id@,
                    old(self)@.open_attempt(id@, attempt, true),
                    SubtitleState::Reconciled,
                    "查询到平台已有 zh 字幕"@,
                    DbError::SubtitleNotReconciled,
                    mark_completed,
                    now,
                ),
                None => claimed_write(
                    old(self)@,
                    final(self)@,
                    r,
                    old(self)@.claimed_at(id@, SUBTITLE_CLAIM_KIND@),
                    DbError::SubtitleClaimLost,
                    |row: RowModel| row.subtitled(mark_completed, false, now),
                ),
            },
            old(self)@.wf() ==> final(self)@.wf(),
    {
        match self.blocking_subtitle_attempt(id) {
            Some(attempt) => {
                if attempt.status == SubtitleState::Started || attempt.status
                    == SubtitleState::Uncertain {
                    self.reconcile_subtitle_attempt(id, attempt.id.as_str(), mark_completed, now)
                } else {
                    self.finish_subtitle_claim(id, mark_completed, now)
                }
            },
            None => self.finish_subtitle_claim(id, mark_completed, now),
        }
    }
}

// ---------------------------------------------------------------------------------------------
// What becomes of an attempt
// ---------------------------------------------------------------------------------------------

/// A subtitle is submitted if and only if this process holds the job for it, the job shows that
/// published video, and no attempt but refused ones was made; the attempt is then the last one and
/// runs. Where one stands in the way, that one is told.
pub proof fn subtitles_are_submitted_once(
    db: DbModel,
    attempt_id: Seq<char>,
    k: int,
    bvid: Seq<char>,
    now: i64,
)
    requires
        db.wf(),
        0 <= k < db.jobs.len(),
        forall|j: int| 0 <= j < db.subtitles.len() ==> (#[trigger] db.subtitles[j]).id != attempt_id,
    ensures
        ({
            let row = db.jobs[k];
            let r = subtitle_begun(db, attempt_id, row.job.id, bvid, now);
            let held = {
                &&& row.claim_kind == Some("subtitle"@)
                &&& row.claim_owner == Some(db.claim_owner)
                &&& row.job.bvid == Some(bvid)
                &&& row.legacy is None
                &&& row.job.status == JobStatus::Completed || row.job.status
                    == JobStatus::UploadedOriginalPendingSubtitle
            };
            let tried = exists|j: int|
                0 <= j < db.subtitles.len() && (#[trigger] db.subtitles[j]).job_id == row.job.id
                    && db.subtitles[j].status != SubtitleState::Rejected;
            &&& r is Refused <==> !held
            &&& r is Blocked <==> held && tried
            &&& r is Started <==> held && !tried
            &&& r matches SubtitleBegun::Blocked(j) ==> 0 <= j < db.subtitles.len()
                && db.subtitles[j].job_id == row.job.id && db.subtitles[j].status
                != SubtitleState::Rejected
            &&& r matches SubtitleBegun::Started(after) ==> {
                let made = after.subtitles.last();
                &&& after.subtitles == db.subtitles.push(made)
                &&& made.id == attempt_id && made.job_id == row.job.id && made.bvid == bvid
                &&& made.status == SubtitleState::Started && made.started_at == now
                &&& made.detail is None && made.finished_at is None
                &&& after.jobs == db.jobs && after.settings == db.settings
            }
        }),
{
    let id = db.jobs[k].job.id;
    jobs_are_found(db, k, id);
    let named = |a: SubtitleModel| a.id == attempt_id;
    place_is_none(db.subtitles, named);
    assert(db.subtitle_at(attempt_id) == place(db.subtitles, named));
    let blocking = |a: SubtitleModel| a.job_id == id && blocks(a.status);
    place_means(db.subtitles, blocking);
    assert(db.blocking_at(id) == place(db.subtitles, blocking));
    if db.blocking_at(id) is None {
        assert forall|j: int| 0 <= j < db.subtitles.len() && (#[trigger] db.subtitles[j]).job_id
            == id implies db.subtitles[j].status == SubtitleState::Rejected by {
            assert(!blocking(db.subtitles[j]));
        }
    } else {
        let j = db.blocking_at(id)->Some_0;
        assert(db.subtitles[j].job_id == id);
    }
}

/// An open attempt is the one of that name and job that has not ended; one in doubt counts only
/// where that is asked for.
pub proof fn open_attempts_are_unended(db: DbModel, job_id: Seq<char>, attempt_id: Seq<char>, in_doubt: bool)
    ensures
        db.open_attempt(job_id, attempt_id, in_doubt) matches Some(k) ==> {
            &&& 0 <= k < db.subtitles.len()
            &&& db.subtitles[k].id == attempt_id && db.subtitles[k].job_id == job_id
            &&& db.subtitles[k].status == SubtitleState::Started || (in_doubt
                && db.subtitles[k].status == SubtitleState::Uncertain)
        },
{
    let named = |a: SubtitleModel| a.id == attempt_id;
    place_means(db.subtitles, named);
    assert(db.subtitle_at(attempt_id) == place(db.subtitles, named));
}

/// An attempt that ends keeps what it was and bears how, why and when it ended.
pub proof fn ended_attempts_say_how(a: SubtitleModel, status: SubtitleState, detail: Seq<char>, now: i64)
    ensures
        ({
            let after = ended(a, status, detail, now);
            &&& after.status == status && after.detail == Some(detail)
            &&& after.finished_at == Some(now) && after.started_at == a.started_at
            &&& after.id == a.id && after.job_id == a.job_id && after.bvid == a.bvid
        }),
{
}

/// A job that has its subtitle is held by nobody and has no error; it is complete where that is
/// asked for, and else stays in its status.
pub proof fn subtitled_jobs_are_complete(row: RowModel, mark_completed: bool, clear_retry: bool, now: i64)
    ensures
        ({
            let after = row.subtitled(mark_completed, clear_retry, now);
            &&& after.claim_kind is None && after.claim_owner is None
            &&& after.claim_expires_at is None
            &&& after.job.error is None && after.updated_at == now
            &&& mark_completed ==> after.job.status == JobStatus::Completed && after.legacy is None
            &&& !mark_completed ==> after.job.status == row.job.status && after.legacy == row.legacy
            &&& after.subtitle_retry_at == if mark_completed && clear_retry {
                None
            } else {
                row.subtitle_retry_at
            }
            &&& after.job.bvid == row.job.bvid && after.job.id == row.job.id
            &&& after.job.attempt == row.job.attempt
            &&& after.job.subtitle_attempt == row.job.subtitle_attempt
        }),
{
}

/// A subtitle that is put off counts one more try and waits until its time; one that is given up
/// counts as tried the most often and has no time. The job keeps its status either way.
pub proof fn failed_subtitles_are_counted(
    row: RowModel,
    error: Seq<char>,
    seconds: i64,
    max_attempts: i64,
    now: i64,
)
    requires
        row.job.subtitle_attempt < i64::MAX,
        countable(now + seconds * 1000),
    ensures
        ({
            let after = row.subtitle_put_off(error, later(now, seconds), now);
            &&& after.job.subtitle_attempt == row.job.subtitle_attempt + 1
            &&& after.subtitle_retry_at == Some((now + seconds * 1000) as i64)
            &&& after.job.error == Some(error) && after.updated_at == now
            &&& after.job.status == row.job.status && after.job.attempt == row.job.attempt
            &&& after.job.bvid == row.job.bvid && after.claim_owner == row.claim_owner
        }),
        ({
            let after = row.subtitle_exhausted(max_attempts, error, now);
            &&& after.job.subtitle_attempt == max_attempts
            &&& after.subtitle_retry_at is None
            &&& after.job.error == Some(error) && after.updated_at == now
            &&& after.job.status == row.job.status && after.job.attempt == row.job.attempt
            &&& !after.waits_in(Line::Subtitle(max_attempts), now)
        }),
{
}

/// An attempt that was confirmed ends, and its job with it, only where this process holds the job
/// and the attempt is open; else nothing changes.
pub proof fn confirmed_attempts_end_their_jobs(
    before: DbModel,
    after: DbModel,
    r: Result<(), DbError>,
    k: int,
    a: int,
    state: SubtitleState,
    detail: Seq<char>,
    gone: DbError,
    mark_completed: bool,
    now: i64,
)
    requires
        before.wf(),
        0 <= k < before.jobs.len(),
        0 <= a < before.subtitles.len(),
        attempt_confirmed(
            before, after, r, before.jobs[k].job.id, Some(a), state, detail, gone, mark_completed, now,
        ),
    ensures
        r is Ok <==> before.jobs[k].claim_kind == Some("subtitle"@) && before.jobs[k].claim_owner
            == Some(before.claim_owner),
        r is Err ==> after == before && r->Err_0 == gone,
        r is Ok ==> {
            &&& after.subtitles[a].status == state && after.subtitles[a].finished_at == Some(now)
            &&& after.subtitles[a].detail == Some(detail)
            &&& after.jobs[k].claim_owner is None
            &&& after.jobs[k].job.status == if mark_completed {
                JobStatus::Completed
            } else {
                before.jobs[k].job.status
            }
            &&& mark_completed ==> after.jobs[k].subtitle_retry_at is None
            &&& forall|j: int|
                0 <= j < before.jobs.len() && j != k ==> #[trigger] after.jobs[j] == before.jobs[j]
            &&& forall|j: int|
                0 <= j < before.subtitles.len() && j != a ==> #[trigger] after.subtitles[j]
                    == before.subtitles[j]
        },
{
    jobs_are_found(before, k, before.jobs[k].job.id);
}

/// An attempt that is refused or in doubt ends alone; its job stays as it is.
pub proof fn attempts_end_alone(
    before: DbModel,
    after: DbModel,
    r: Result<(), DbError>,
    attempt: Option<int>,
    state: SubtitleState,
    detail: Seq<char>,
    now: i64,
)
    requires
        attempt matches Some(a) ==> 0 <= a < before.subtitles.len(),
        attempt_ended(before, after, r, attempt, state, detail, now),
    ensures
        r is Ok <==> attempt is Some,
        r is Err ==> after == before,
        after.jobs == before.jobs,
        attempt matches Some(a) ==> {
            &&& after.subtitles[a].status == state && after.subtitles[a].detail == Some(detail)
            &&& after.subtitles[a].finished_at == Some(now)
            &&& after.subtitles[a].id == before.subtitles[a].id
            &&& forall|j: int|
                0 <= j < before.subtitles.len() && j != a ==> #[trigger] after.subtitles[j]
                    == before.subtitles[j]
        },
{
}

/// An attempt whose outcome is still open is told by its name; one that was confirmed, or none, is
/// not.
pub proof fn open_blockers_are_told(db: DbModel, job_id: Seq<char>)
    ensures
        open_blocker(db, job_id) matches Some(id) ==> exists|j: int|
            0 <= j < db.subtitles.len() && (#[trigger] db.subtitles[j]).job_id == job_id
                && db.subtitles[j].id == id && (db.subtitles[j].status == SubtitleState::Started
                || db.subtitles[j].status == SubtitleState::Uncertain),
        open_blocker(db, job_id) is None && db.wf() ==> forall|j: int|
            0 <= j < db.subtitles.len() && (#[trigger] db.subtitles[j]).job_id == job_id ==> (
            db.subtitles[j].status != SubtitleState::Started && db.subtitles[j].status
                != SubtitleState::Uncertain),
{
    let blocking = |a: SubtitleModel| a.job_id == job_id && blocks(a.status);
    place_means(db.subtitles, blocking);
    assert(db.blocking_at(job_id) == place(db.subtitles, blocking));
    if open_blocker(db, job_id) is Some {
        let j = db.blocking_at(job_id)->Some_0;
        assert(db.subtitles[j].job_id == job_id);
    } else if db.wf() {
        assert forall|j: int| 0 <= j < db.subtitles.len() && (#[trigger] db.subtitles[j]).job_id
            == job_id implies (db.subtitles[j].status != SubtitleState::Started
            && db.subtitles[j].status != SubtitleState::Uncertain) by {
            if db.blocking_at(job_id) is None {
                assert(!blocking(db.subtitles[j]));
            } else {
                let k = db.blocking_at(job_id)->Some_0;
                assert(blocking(db.subtitles[k]));
                if j < k {
                    assert(!(blocks(db.subtitles[j].status) && blocks(db.subtitles[k].status)));
                } else if k < j {
                    assert(!(blocks(db.subtitles[k].status) && blocks(db.subtitles[j].status)));
                }
            }
        }
    }
}

/// A subtitle that is put off touches its job alone, and a job that is gone or not held nothing.
pub proof fn subtitles_are_put_off_alone(
    before: DbModel,
    after: DbModel,
    r: Result<(), DbError>,
    at: Option<int>,
    lost: Option<DbError>,
    row: spec_fn(RowModel) -> RowModel,
)
    requires
        subtitle_deferred(before, after, r, at, lost, row),
        at matches Some(k) ==> 0 <= k < before.jobs.len() && before.jobs[k].job.subtitle_attempt
            < i64::MAX,
    ensures
        at is None ==> after == before && (r is Ok <==> lost is None),
        at matches Some(k) ==> {
            &&& r is Ok
            &&& after.jobs[k] == row(before.jobs[k])
            &&& after.jobs.len() == before.jobs.len()
            &&& forall|j: int|
                0 <= j < before.jobs.len() && j != k ==> #[trigger] after.jobs[j] == before.jobs[j]
            &&& after.subtitles == before.subtitles
        },
{
}

/// A video that waits for its subtitle is tried so many seconds later, and is held by nobody.
pub proof fn queued_subtitles_wait_their_delay(
    db: &mut Database,
    id: &str,
    delay_seconds: i64,
    now: i64,
    k: int,
    r: Result<(), DbError>,
)
    requires
        call_ensures(Database::queue_pending_subtitle, (db, id, delay_seconds, now), r),
        old(db)@.wf(),
        0 <= k < old(db)@.jobs.len(),
        old(db)@.jobs[k].job.id == id@,
        countable(now + delay_seconds * 1_000),
    ensures
        r is Ok,
        final(db)@.jobs[k].job.status == JobStatus::UploadedOriginalPendingSubtitle,
        final(db)@.jobs[k].subtitle_retry_at == Some((now + delay_seconds * 1_000) as i64),
        final(db)@.jobs[k].claim_owner is None,
        final(db)@.jobs[k].job.bvid == old(db)@.jobs[k].job.bvid,
{
    jobs_are_found(old(db)@, k, id@);
}

} // verus!
