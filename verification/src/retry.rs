//! What follows from a failure: how long a job waits, and when it is given up.
use vstd::arithmetic::power2::pow2;
use vstd::prelude::*;

use crate::clock::{rfc3339, rfc3339_text, YEAR_9999_END_MS};
use crate::fault::{refused, DbError};
use crate::jobs::{at_later, countable, later};
use crate::model::JobStatus;
use crate::queue::{claims_are_told_apart, PREPARE_CLAIM_KIND, SUBTITLE_CLAIM_KIND};
use crate::settings::{deadline_due, set_then_get, NEXT_BILIBILI_SUBMIT_AT};
use crate::store::{job_step, jobs_are_found, Database, DbModel, EventModel, JobModel, RowModel};
use crate::text::{contains_text, occurs_in, views};
use crate::youtube::{
    chain_is_live, chain_is_overlong, exceeds_duration_limit, is_live_content_pending,
};

verus! {

/// Half of the first wait of a failed job, in seconds.
pub const RETRY_BASE_SECONDS: i64 = 300;

/// The longest wait, in seconds.
pub const RETRY_MAX_SECONDS: i64 = 3_600;

/// How long live content without a recording waits, in seconds.
pub const LIVE_WAIT_SECONDS: i64 = 1_800;

/// The first wait of a subtitle, in seconds.
pub const CC_RETRY_BASE_SECONDS: i64 = 90;

/// How often a subtitle is tried.
pub const CC_MAX_ATTEMPTS: i64 = 16;

/// A wait that doubles with every failure, up to a limit.
pub open spec fn doubled(base: int, n: nat, most: int) -> int {
    let wait = base * pow2(n);
    if wait < most {
        wait
    } else {
        most
    }
}

/// A count as an exponent.
pub open spec fn exponent(n: i64) -> nat {
    if n < 0 {
        0
    } else {
        n as nat
    }
}

proof fn doubling_grows(base: int, k: nat, n: nat)
    requires
        base > 0,
        k <= n,
    ensures
        base * pow2(k) <= base * pow2(n),
{
    if k < n {
        vstd::arithmetic::power2::lemma_pow2_strictly_increases(k, n);
    }
    assert(base * pow2(k) <= base * pow2(n)) by (nonlinear_arith)
        requires
            base > 0,
            pow2(k) <= pow2(n),
    ;
}

/// A wait that doubles with every failure, up to a limit.
pub fn doubled_wait(base: i64, n: i64, most: i64) -> (r: i64)
    requires
        0 < base <= most <= i64::MAX / 2,
    ensures
        r == doubled(base as int, exponent(n), most as int),
        0 < r <= most,
{
    let mut wait: i64 = base;
    let mut k: i64 = 0;
    proof {
        vstd::arithmetic::power2::lemma2_to64();
        assert(base * pow2(0) == base) by (nonlinear_arith)
            requires
                pow2(0) == 1,
        ;
    }
    while k < n && wait < most
        invariant
            0 < base <= most <= i64::MAX / 2,
            0 <= k,
            k <= exponent(n),
            0 < wait <= 2 * most,
            wait == base * pow2(k as nat),
        decreases n - k,
    {
        proof {
            vstd::arithmetic::power2::lemma_pow2_unfold((k + 1) as nat);
            assert(base * pow2((k + 1) as nat) == 2 * (base * pow2(k as nat))) by (nonlinear_arith)
                requires
                    pow2((k + 1) as nat) == 2 * pow2(k as nat),
            ;
        }
        wait = wait * 2;
        k = k + 1;
    }
    proof {
        doubling_grows(base as int, k as nat, exponent(n));
    }
    if wait < most {
        wait
    } else {
        most
    }
}

/// How long a job waits after so many failures, in seconds: ten minutes after the first, twice as
/// long after each further one, an hour at most.
pub open spec fn retry_wait(failures: i64) -> int {
    doubled(RETRY_BASE_SECONDS as int, exponent(failures), RETRY_MAX_SECONDS as int)
}

/// How long a job waits after so many failures, in seconds.
pub fn retry_delay(failures: i64) -> (r: i64)
    ensures
        r == retry_wait(failures),
        0 < r <= RETRY_MAX_SECONDS,
{
    doubled_wait(RETRY_BASE_SECONDS, failures, RETRY_MAX_SECONDS)
}

/// Each failure makes the wait at least as long as the one before; the first wait lasts ten minutes
/// and none more than an hour.
pub proof fn waits_grow(a: i64, b: i64)
    requires
        1 <= a <= b,
    ensures
        600 <= retry_wait(a) <= retry_wait(b) <= 3_600,
        retry_wait(1) == 600,
        retry_wait(2) == 1_200,
        retry_wait(3) == 2_400,
        4 <= a ==> retry_wait(a) == 3_600,
{
    vstd::arithmetic::power2::lemma2_to64();
    doubling_grows(RETRY_BASE_SECONDS as int, 1, exponent(a));
    doubling_grows(RETRY_BASE_SECONDS as int, exponent(a), exponent(b));
    if a >= 4 {
        doubling_grows(RETRY_BASE_SECONDS as int, 4, exponent(a));
    }
}

/// What a failed preparation tells of.
#[derive(Debug, Clone, Copy, PartialEq, Eq, Structural)]
pub enum Failure {
    /// Live content without a recording.
    Live,
    /// A video longer than allowed.
    Overlong,
    /// Anything else.
    Plain,
}

/// What a failure, given by the messages of its chain, tells of.
pub open spec fn failure_of(chain: Seq<Seq<char>>) -> Failure {
    if chain_is_live(chain) {
        Failure::Live
    } else if chain_is_overlong(chain) {
        Failure::Overlong
    } else {
        Failure::Plain
    }
}

/// What a failure, given by the messages of its chain, tells of.
pub fn classify_failure(chain: &[String]) -> (r: Failure)
    ensures
        r == failure_of(views(chain@)),
{
    if is_live_content_pending(chain) {
        Failure::Live
    } else if exceeds_duration_limit(chain) {
        Failure::Overlong
    } else {
        Failure::Plain
    }
}

/// What becomes of a job whose preparation failed.
#[derive(Debug, Clone, Copy, PartialEq, Eq, Structural)]
pub enum PrepareEnd {
    /// It waits for the recording; nothing is counted.
    Recheck,
    /// It is given up at once; nothing is counted.
    TooLong,
    /// It failed too often and is given up; its large files go.
    GaveUp,
    /// It waits so many seconds.
    Waits(i64),
}

/// What becomes of a job at its failure number `failures`.
pub open spec fn prepare_end_of(failure: Failure, failures: i64, max_attempts: u32) -> PrepareEnd {
    match failure {
        Failure::Live => PrepareEnd::Recheck,
        Failure::Overlong => PrepareEnd::TooLong,
        Failure::Plain => if failures >= max_attempts {
            PrepareEnd::GaveUp
        } else {
            PrepareEnd::Waits(retry_wait(failures) as i64)
        },
    }
}

/// What becomes of a job at its failure number `failures`.
pub fn prepare_end(failure: Failure, failures: i64, max_attempts: u32) -> (r: PrepareEnd)
    ensures
        r == prepare_end_of(failure, failures, max_attempts),
        r matches PrepareEnd::Waits(s) ==> 0 < s <= RETRY_MAX_SECONDS,
{
    match failure {
        Failure::Live => PrepareEnd::Recheck,
        Failure::Overlong => PrepareEnd::TooLong,
        Failure::Plain => if failures >= max_attempts as i64 {
            PrepareEnd::GaveUp
        } else {
            PrepareEnd::Waits(retry_delay(failures))
        },
    }
}

/// The first message of a chain.
pub open spec fn head_of(chain: Seq<Seq<char>>) -> Seq<char> {
    if chain.len() == 0 {
        Seq::empty()
    } else {
        chain[0]
    }
}

fn head(chain: &[String]) -> (r: String)
    ensures
        r@ == head_of(views(chain@)),
{
    if chain.len() == 0 {
        let r = String::new();
        assert(r@ =~= Seq::<char>::empty());
        r
    } else {
        assert(views(chain@)[0] == chain@[0]@);
        chain[0].clone()
    }
}

impl RowModel {
    /// The row with another failure counted.
    pub open spec fn failed_again(self, now: i64) -> RowModel {
        RowModel {
            job: JobModel { attempt: (self.job.attempt + 1) as i64, ..self.job },
            updated_at: now,
            ..self
        }
    }

    /// The row of a job whose preparation failed.
    pub open spec fn unprepared(self, end: PrepareEnd, error: Seq<char>, now: i64) -> RowModel {
        match end {
            PrepareEnd::Recheck => self.put_off(
                JobStatus::RetryWait,
                error,
                later(now, LIVE_WAIT_SECONDS),
                now,
            ),
            PrepareEnd::TooLong => self.moved(JobStatus::DeadLetter, Some(error), now),
            PrepareEnd::GaveUp => self.failed_again(now).moved(
                JobStatus::DeadLetter,
                Some(error),
                now,
            ),
            PrepareEnd::Waits(s) => self.failed_again(now).put_off(
                JobStatus::RetryWait,
                error,
                later(now, s),
                now,
            ),
        }.released()
    }
}

impl DbModel {
    /// Whether the log takes no more lines.
    pub open spec fn log_full(self) -> bool {
        self.event_seq == i64::MAX
    }

    /// The tables with another line in the log.
    pub open spec fn logged(self, job_id: Option<Seq<char>>, level: Seq<char>, message: Seq<char>, now: i64) -> DbModel {
        if self.log_full() {
            self
        } else {
            DbModel {
                events: self.events.push(
                    EventModel {
                        id: (self.event_seq + 1) as i64,
                        job_id,
                        level,
                        message,
                        created_at: now,
                    },
                ),
                event_seq: (self.event_seq + 1) as i64,
                ..self
            }
        }
    }
}

/// The level under which a failed preparation is logged.
pub open spec fn failure_level(failure: Failure) -> Seq<char> {
    match failure {
        Failure::Live => "info"@,
        _ => "error"@,
    }
}

impl Database {
    /// Settles the failure of a preparation that this process holds: the job waits or is given up,
    /// the claim goes back, and the failure is logged. Live content and overlong videos are not
    /// counted as failures.
    pub fn settle_prepare_failure(&mut self, id: &str, chain: &[String], max_attempts: u32, now: i64) -> (r:
        Result<PrepareEnd, DbError>)
        requires
            countable(later(now, RETRY_MAX_SECONDS)),
        ensures
            match old(self)@.claimed_at(id@, PREPARE_CLAIM_KIND@) {
                None => r == refused::<PrepareEnd>(DbError::ClaimLost) && final(self)@ == old(self)@,
                Some(k) => {
                    let row = old(self)@.jobs[k];
                    let failure = failure_of(views(chain@));
                    let error = head_of(views(chain@));
                    if failure is Plain && row.job.attempt == i64::MAX {
                        r == refused::<PrepareEnd>(DbError::TooLarge) && final(self)@ == old(self)@
                    } else {
                        let end = prepare_end_of(failure, (row.job.attempt + 1) as i64, max_attempts);
                        &&& final(self)@ == old(self)@.with_job(
                            k,
                            row.unprepared(end, error, now),
                        ).logged(Some(id@), failure_level(failure), error, now)
                        &&& r == if old(self)@.log_full() {
                            refused::<PrepareEnd>(DbError::Full)
                        } else {
                            Ok(end)
                        }
                    }
                },
            },
            old(self)@.wf() ==> final(self)@.wf(),
    {
        match self.find_claimed(id, PREPARE_CLAIM_KIND) {
            None => Err(DbError::ClaimLost),
            Some(k) => {
                let failure = classify_failure(chain);
                let error = head(chain);
                let attempt: i64 = self.jobs[k].job.attempt;
                if failure == Failure::Plain && attempt == i64::MAX {
                    return Err(DbError::TooLarge);
                }
                let failures: i64 = if attempt == i64::MAX {
                    attempt
                } else {
                    attempt + 1
                };
                let end = prepare_end(failure, failures, max_attempts);
                let ghost before = self@;
                match end {
                    PrepareEnd::Recheck => {
                        let until = at_later(now, LIVE_WAIT_SECONDS);
                        self.jobs[k].put_off(JobStatus::RetryWait, error.as_str(), until, now);
                    },
                    PrepareEnd::TooLong => {
                        self.jobs[k].move_to(JobStatus::DeadLetter, Some(error.as_str()), now);
                    },
                    PrepareEnd::GaveUp => {
                        self.jobs[k].job.attempt = failures;
                        self.jobs[k].move_to(JobStatus::DeadLetter, Some(error.as_str()), now);
                    },
                    PrepareEnd::Waits(s) => {
                        self.jobs[k].job.attempt = failures;
                        self.jobs[k].put_off(
                            JobStatus::RetryWait,
                            error.as_str(),
                            at_later(now, s),
                            now,
                        );
                    },
                }
                self.jobs[k].release();
                proof {
                    assert(self@ =~= before.with_job(k as int, self@.jobs[k as int]));
                    job_step(before, self@, k as int);
                }
                let level = if failure == Failure::Live {
                    "info"
                } else {
                    "error"
                };
                match self.event(Some(id), level, error.as_str(), now) {
                    Ok(()) => Ok(end),
                    Err(e) => Err(e),
                }
            },
        }
    }
}

/// The error of the platform that submissions come too fast.
pub const RATE_LIMIT_CODE: &'static str = "21566";

/// The point in time so many seconds ahead, where it can be counted.
pub open spec fn cooldown_end(seconds: u64, now: i64) -> Option<int> {
    let wait = if seconds > i64::MAX {
        i64::MAX as int
    } else {
        seconds as int
    };
    let at = now + wait * 1000;
    if at > i64::MAX {
        None
    } else {
        Some(at)
    }
}

/// The tables with nothing submitted for so many seconds; zero changes nothing.
pub open spec fn submissions_deferred(db: DbModel, seconds: u64, now: i64) -> Result<DbModel, DbError> {
    if seconds == 0 {
        Ok(db)
    } else {
        match cooldown_end(seconds, now) {
            Some(at) => match rfc3339_text(at) {
                Some(text) => Ok(db.with_setting(NEXT_BILIBILI_SUBMIT_AT@, text, now)),
                None => Err(DbError::CooldownOverflow),
            },
            None => Err(DbError::CooldownOverflow),
        }
    }
}

/// What becomes of a job whose submission failed.
#[derive(Debug, Clone, Copy, PartialEq, Eq, Structural)]
pub enum UploadEnd {
    /// Whether it was submitted is not known; it stays as it is.
    InDoubt,
    /// It failed too often and is paused.
    Paused,
    /// It waits so many seconds.
    Waits(i64),
}

/// What becomes of a job at its failure number `failures`.
pub open spec fn upload_end_of(failures: i64, max_attempts: u32) -> UploadEnd {
    if failures >= max_attempts {
        UploadEnd::Paused
    } else {
        UploadEnd::Waits(retry_wait(failures) as i64)
    }
}

impl RowModel {
    /// The row of a job whose submission failed.
    pub open spec fn unsubmitted(self, end: UploadEnd, error: Seq<char>, now: i64) -> RowModel {
        match end {
            UploadEnd::InDoubt => self,
            UploadEnd::Paused => self.moved(JobStatus::Paused, Some(error), now),
            UploadEnd::Waits(s) => self.put_off(
                JobStatus::UploadRetryWait,
                error,
                later(now, s),
                now,
            ),
        }
    }
}

/// What it does to settle the failure of a submission: the failure is counted; where the platform
/// says that submissions come too fast, all of them wait; the job waits or is paused; and the
/// failure is logged. A submission in doubt is left alone.
pub open spec fn upload_settled(
    db: DbModel,
    id: Seq<char>,
    error: Seq<char>,
    cooldown_seconds: u64,
    max_attempts: u32,
    now: i64,
) -> (DbModel, Result<UploadEnd, DbError>) {
    match db.job_at(id) {
        None => (db, Err(DbError::NoRow)),
        Some(k) => {
            let row = db.jobs[k];
            if row.is(JobStatus::UploadUncertain) {
                (db, Ok(UploadEnd::InDoubt))
            } else if row.job.attempt == i64::MAX {
                (db, Err(DbError::TooLarge))
            } else {
                let counted = db.with_job(k, row.failed_again(now));
                let wait = if occurs_in(error, RATE_LIMIT_CODE@) {
                    cooldown_seconds
                } else {
                    0
                };
                match submissions_deferred(counted, wait, now) {
                    Err(e) => (counted, Err(e)),
                    Ok(deferred) => {
                        let end = upload_end_of((row.job.attempt + 1) as i64, max_attempts);
                        let settled = deferred.with_job(
                            k,
                            row.failed_again(now).unsubmitted(end, error, now),
                        );
                        (
                            settled.logged(Some(id), "error"@, error, now),
                            if settled.log_full() {
                                Err(DbError::Full)
                            } else {
                                Ok(end)
                            },
                        )
                    },
                }
            }
        },
    }
}

/// A failure never makes a submission in doubt be tried again: the tables stay as they are.
pub proof fn doubt_outlasts_failures(
    db: DbModel,
    id: Seq<char>,
    error: Seq<char>,
    cooldown_seconds: u64,
    max_attempts: u32,
    now: i64,
)
    requires
        db.job_at(id) matches Some(k) && db.jobs[k].is(JobStatus::UploadUncertain),
    ensures
        upload_settled(db, id, error, cooldown_seconds, max_attempts, now) == (
            db,
            Ok::<UploadEnd, DbError>(UploadEnd::InDoubt),
        ),
{
}

impl Database {
    /// Lets nothing be submitted for so many seconds; zero changes nothing.
    pub fn defer_bilibili_submissions(&mut self, seconds: u64, now: i64) -> (r: Result<(), DbError>)
        ensures
            match submissions_deferred(old(self)@, seconds, now) {
                Ok(after) => r is Ok && final(self)@ == after,
                Err(e) => r == refused::<()>(e) && final(self)@ == old(self)@,
            },
            r is Ok && seconds > 0 ==> (cooldown_end(seconds, now) matches Some(at) && (0 <= at
                <= YEAR_9999_END_MS ==> forall|t: i64| #[trigger]
                deadline_due(final(self)@.setting(NEXT_BILIBILI_SUBMIT_AT@), t) == Ok::<
                    bool,
                    DbError,
                >(at <= t))),
            old(self)@.wf() ==> final(self)@.wf(),
    {
        if seconds == 0 {
            return Ok(());
        }
        let wait: i64 = if seconds > i64::MAX as u64 {
            i64::MAX
        } else {
            seconds as i64
        };
        let at: i128 = (now as i128) + (wait as i128) * 1000;
        if at > i64::MAX as i128 {
            return Err(DbError::CooldownOverflow);
        }
        match rfc3339(at as i64) {
            Some(text) => {
                proof {
                    set_then_get(self@, NEXT_BILIBILI_SUBMIT_AT@, text@, now);
                }
                self.set_setting(NEXT_BILIBILI_SUBMIT_AT, text.as_str(), now);
                Ok(())
            },
            None => Err(DbError::CooldownOverflow),
        }
    }

    /// Settles the failure of a submission.
    pub fn settle_upload_failure(
        &mut self,
        id: &str,
        error: &str,
        cooldown_seconds: u64,
        max_attempts: u32,
        now: i64,
    ) -> (r: Result<UploadEnd, DbError>)
        requires
            countable(later(now, RETRY_MAX_SECONDS)),
        ensures
            (final(self)@, r) == upload_settled(
                old(self)@,
                id@,
                error@,
                cooldown_seconds,
                max_attempts,
                now,
            ),
            old(self)@.wf() ==> final(self)@.wf(),
    {
        match self.find_job(id) {
            None => Err(DbError::NoRow),
            Some(k) => {
                if self.jobs[k].is(JobStatus::UploadUncertain) {
                    return Ok(UploadEnd::InDoubt);
                }
                let attempt: i64 = self.jobs[k].job.attempt;
                if attempt == i64::MAX {
                    return Err(DbError::TooLarge);
                }
                let ghost before = self@;
                self.jobs[k].job.attempt = attempt + 1;
                self.jobs[k].updated_at = now;
                proof {
                    assert(self@ =~= before.with_job(k as int, self@.jobs[k as int]));
                    job_step(before, self@, k as int);
                }
                let wait: u64 = if contains_text(error, RATE_LIMIT_CODE) {
                    cooldown_seconds
                } else {
                    0
                };
                match self.defer_bilibili_submissions(wait, now) {
                    Ok(()) => {},
                    Err(e) => {
                        return Err(e);
                    },
                }
                let ghost deferred = self@;
                assert(deferred.jobs == before.jobs.update(k as int, before.jobs[k as int].failed_again(now)));
                let end = if attempt + 1 >= max_attempts as i64 {
                    self.jobs[k].move_to(JobStatus::Paused, Some(error), now);
                    UploadEnd::Paused
                } else {
                    let s: i64 = retry_delay(attempt + 1);
                    self.jobs[k].put_off(
                        JobStatus::UploadRetryWait,
                        error,
                        at_later(now, s),
                        now,
                    );
                    UploadEnd::Waits(s)
                };
                proof {
                    assert(self@ =~= deferred.with_job(k as int, self@.jobs[k as int]));
                    job_step(deferred, self@, k as int);
                }
                match self.event(Some(id), "error", error, now) {
                    Ok(()) => Ok(end),
                    Err(e) => Err(e),
                }
            },
        }
    }
}

/// How long a subtitle waits after `failures` earlier failures, in seconds: `base` at first, twice
/// as long after each further one, an hour at most.
pub open spec fn cc_wait(base: i64, failures: i64) -> int {
    doubled(base as int, exponent(failures), RETRY_MAX_SECONDS as int)
}

/// What becomes of a job whose subtitle failed.
#[derive(Debug, Clone, Copy, PartialEq, Eq, Structural)]
pub enum SubtitleEnd {
    /// It was tried often enough and is left to be done by hand.
    Exhausted,
    /// It waits so many seconds.
    Waits(i64),
}

/// What becomes of a job whose subtitle failed after `failures` earlier failures.
pub open spec fn subtitle_end_of(base: i64, failures: i64) -> SubtitleEnd {
    if failures + 1 >= CC_MAX_ATTEMPTS {
        SubtitleEnd::Exhausted
    } else {
        SubtitleEnd::Waits(cc_wait(base, failures) as i64)
    }
}

/// The first wait for a subtitle while the platform still works on the video, in seconds.
pub const PROCESSING_RETRY_BASE_SECONDS: i64 = 30;

/// What the platform answers for a video that it still works on.
pub const PROCESSING_CODE: &'static str = "code=-404";

/// The first wait for a subtitle that failed: a short one while the platform still works on the
/// video.
pub fn subtitle_base(error: &str) -> (r: i64)
    ensures
        r == if occurs_in(error@, PROCESSING_CODE@) {
            PROCESSING_RETRY_BASE_SECONDS
        } else {
            CC_RETRY_BASE_SECONDS
        },
        0 < r <= RETRY_MAX_SECONDS,
{
    if contains_text(error, PROCESSING_CODE) {
        PROCESSING_RETRY_BASE_SECONDS
    } else {
        CC_RETRY_BASE_SECONDS
    }
}

impl Database {
    /// Settles the failure of a subtitle that this process holds: it waits, or is left to be done
    /// by hand after the last try.
    pub fn settle_subtitle_failure(&mut self, id: &str, error: &str, base_seconds: i64, now: i64) -> (r: Result<
        SubtitleEnd,
        DbError,
    >)
        requires
            0 < base_seconds <= RETRY_MAX_SECONDS,
            countable(later(now, RETRY_MAX_SECONDS)),
        ensures
            match old(self)@.claimed_at(id@, SUBTITLE_CLAIM_KIND@) {
                None => r == refused::<SubtitleEnd>(DbError::SubtitleClaimLost) && final(self)@ == old(
                    self,
                )@,
                Some(k) => {
                    let row = old(self)@.jobs[k];
                    let end = subtitle_end_of(base_seconds, row.job.subtitle_attempt);
                    &&& r == Ok::<SubtitleEnd, DbError>(end)
                    &&& final(self)@ == old(self)@.with_job(
                        k,
                        match end {
                            SubtitleEnd::Exhausted => row.subtitle_exhausted(
                                CC_MAX_ATTEMPTS,
                                error@,
                                now,
                            ),
                            SubtitleEnd::Waits(s) => row.subtitle_put_off(
                                error@,
                                later(now, s),
                                now,
                            ),
                        }.released(),
                    )
                },
            },
            old(self)@.wf() ==> final(self)@.wf(),
    {
        match self.find_claimed(id, SUBTITLE_CLAIM_KIND) {
            None => Err(DbError::SubtitleClaimLost),
            Some(k) => {
                let failures: i64 = self.jobs[k].job.subtitle_attempt;
                if failures >= CC_MAX_ATTEMPTS - 1 {
                    match self.exhaust_claimed_pending_subtitle(id, CC_MAX_ATTEMPTS, error, now) {
                        Ok(()) => Ok(SubtitleEnd::Exhausted),
                        Err(e) => Err(e),
                    }
                } else {
                    let s: i64 = doubled_wait(base_seconds, failures, RETRY_MAX_SECONDS);
                    match self.defer_claimed_pending_subtitle(id, error, s, now) {
                        Ok(()) => Ok(SubtitleEnd::Waits(s)),
                        Err(e) => Err(e),
                    }
                }
            },
        }
    }
}

/// A subtitle that is left to be done by hand stands in line no longer.
pub proof fn exhausted_subtitles_rest(row: RowModel, error: Seq<char>, now: i64, later: i64)
    ensures
        !row.subtitle_exhausted(CC_MAX_ATTEMPTS, error, now).released().subtitle_due(
            CC_MAX_ATTEMPTS,
            later,
        ),
{
}

// ---------------------------------------------------------------------------------------------
// What failures lead to
// ---------------------------------------------------------------------------------------------

/// Waits double from one failure to the next, until they reach the most.
pub proof fn waits_double(base: int, n: nat, most: int)
    requires
        0 < base <= most,
    ensures
        doubled(base, 0, most) == base,
        doubled(base, n + 1, most) == if 2 * doubled(base, n, most) < most {
            2 * doubled(base, n, most)
        } else {
            most
        },
{
    vstd::arithmetic::power2::lemma2_to64();
    vstd::arithmetic::power2::lemma_pow2_unfold(n + 1);
    vstd::arithmetic::power2::lemma_pow2_pos(n);
    assert(base * pow2(n + 1) == 2 * (base * pow2(n))) by (nonlinear_arith)
        requires
            pow2(n + 1) == 2 * pow2(n),
    ;
}

/// A failed submission that is not in doubt counts one more failure. It pauses the job if and only
/// if the failures reach the allowed number; with fewer the job waits for another try, ten minutes
/// after the first failure, twice as long after each further one, and at most an hour. No other job
/// changes.
pub proof fn failed_submissions_wait_or_pause(
    db: DbModel,
    id: Seq<char>,
    error: Seq<char>,
    cooldown_seconds: u64,
    max_attempts: u32,
    now: i64,
    k: int,
)
    requires
        db.job_at(id) == Some(k),
        0 <= k < db.jobs.len(),
        db.jobs[k].legacy is Some || db.jobs[k].job.status != JobStatus::UploadUncertain,
        0 <= db.jobs[k].job.attempt < i64::MAX,
        db.event_seq < i64::MAX,
        !occurs_in(error, "21566"@) || cooldown_seconds == 0 || (now + cooldown_seconds * 1000
            <= i64::MAX && rfc3339_text(now + cooldown_seconds * 1000) is Some),
    ensures
        ({
            let (after, r) = upload_settled(db, id, error, cooldown_seconds, max_attempts, now);
            let failures = db.jobs[k].job.attempt + 1;
            let row = after.jobs[k];
            &&& r is Ok
            &&& after.jobs.len() == db.jobs.len()
            &&& after.events.len() == db.events.len() + 1
            &&& after.events.last().job_id == Some(id) && after.events.last().level == "error"@
            &&& after.events.last().message == error && after.events.last().created_at == now
            &&& row.job.attempt == failures
            &&& row.legacy is None && row.updated_at == now
            &&& row.job.error == Some(error)
            &&& row.job.id == db.jobs[k].job.id && row.job.video_id == db.jobs[k].job.video_id
            &&& row.prepared_upload == db.jobs[k].prepared_upload
            &&& row.job.status == JobStatus::Paused <==> failures >= max_attempts
            &&& row.job.status == JobStatus::UploadRetryWait <==> failures < max_attempts
            &&& r->Ok_0 == UploadEnd::Paused <==> failures >= max_attempts
            &&& failures < max_attempts ==> {
                let wait = if failures == 1 {
                    600int
                } else if failures == 2 {
                    1_200
                } else if failures == 3 {
                    2_400
                } else {
                    3_600
                };
                &&& r->Ok_0 == UploadEnd::Waits(wait as i64)
                &&& countable(now + wait * 1000) ==> row.retry_at == Some((now + wait * 1000) as i64)
            }
            &&& forall|j: int|
                0 <= j < db.jobs.len() && j != k ==> #[trigger] after.jobs[j] == db.jobs[j]
        }),
{
    waits_grow((db.jobs[k].job.attempt + 1) as i64, (db.jobs[k].job.attempt + 1) as i64);
}

/// A refusal for submitting too fast holds up all submissions for the cooldown; another failure
/// leaves them as they are.
pub proof fn only_a_rate_limit_cools_down(
    db: DbModel,
    id: Seq<char>,
    error: Seq<char>,
    cooldown_seconds: u64,
    max_attempts: u32,
    now: i64,
)
    requires
        upload_settled(db, id, error, cooldown_seconds, max_attempts, now).1 is Ok,
        upload_settled(db, id, error, cooldown_seconds, max_attempts, now).1
            != Ok::<UploadEnd, DbError>(UploadEnd::InDoubt),
    ensures
        ({
            let (after, _) = upload_settled(db, id, error, cooldown_seconds, max_attempts, now);
            &&& !occurs_in(error, "21566"@) ==> after.settings == db.settings
            &&& occurs_in(error, "21566"@) && 0 < cooldown_seconds <= i64::MAX ==> after.setting(
                "bilibili.next_submit_at"@,
            ) == rfc3339_text(now + cooldown_seconds * 1000) && after.setting(
                "bilibili.next_submit_at"@,
            ) is Some
        }),
{
    let k = db.job_at(id)->Some_0;
    let counted = db.with_job(k, db.jobs[k].failed_again(now));
    if occurs_in(error, "21566"@) && 0 < cooldown_seconds <= i64::MAX {
        let at = cooldown_end(cooldown_seconds, now)->Some_0;
        set_then_get(counted, NEXT_BILIBILI_SUBMIT_AT@, rfc3339_text(at)->Some_0, now);
        let (after, _) = upload_settled(db, id, error, cooldown_seconds, max_attempts, now);
        let deferred = counted.with_setting(NEXT_BILIBILI_SUBMIT_AT@, rfc3339_text(at)->Some_0, now);
        assert(after.settings == deferred.settings);
        assert(after.setting(NEXT_BILIBILI_SUBMIT_AT@) == deferred.setting(NEXT_BILIBILI_SUBMIT_AT@));
    }
}

/// A failed preparation: live content without a recording waits half an hour and an overlong video
/// is given up, neither counted as a failure; anything else counts one, and is given up if and only
/// if the failures reach the allowed number, and else waits. The claim always ends.
pub proof fn failed_preparations_wait_or_end(row: RowModel, chain: Seq<Seq<char>>, max_attempts: u32, error: Seq<char>, now: i64)
    requires
        0 <= row.job.attempt < i64::MAX,
        countable(now + 3_600_000),
    ensures
        ({
            let failures = row.job.attempt + 1;
            let end = prepare_end_of(failure_of(chain), failures as i64, max_attempts);
            let after = row.unprepared(end, error, now);
            let live = chain_is_live(chain);
            let long = !live && chain_is_overlong(chain);
            let wait = if failures == 1 {
                600int
            } else if failures == 2 {
                1_200
            } else if failures == 3 {
                2_400
            } else {
                3_600
            };
            &&& after.claim_kind is None && after.claim_owner is None && after.claim_expires_at is None
            &&& after.job.error == Some(error) && after.updated_at == now
            &&& after.job.id == row.job.id && after.job.video_id == row.job.video_id
            &&& live ==> after.job.status == JobStatus::RetryWait && after.job.attempt
                == row.job.attempt && after.retry_at == Some((now + 1_800_000) as i64)
            &&& long ==> after.job.status == JobStatus::DeadLetter && after.job.attempt
                == row.job.attempt
            &&& !live && !long ==> after.job.attempt == failures
            &&& !live && !long && failures >= max_attempts ==> after.job.status
                == JobStatus::DeadLetter && end == PrepareEnd::GaveUp
            &&& !live && !long && failures < max_attempts ==> after.job.status
                == JobStatus::RetryWait && end == PrepareEnd::Waits(wait as i64) && after.retry_at
                == Some((now + wait * 1000) as i64)
        }),
{
    waits_grow((row.job.attempt + 1) as i64, (row.job.attempt + 1) as i64);
}

/// A subtitle that failed is given up at the sixteenth try, and waits before that: 90 seconds after
/// the first failure, twice as long after each further one, and at most an hour.
pub proof fn failed_subtitles_wait_or_rest(failures: i64)
    requires
        0 <= failures < i64::MAX,
    ensures
        subtitle_end_of(90, failures) == SubtitleEnd::Exhausted <==> failures >= 15,
        failures == 0 ==> subtitle_end_of(90, failures) == SubtitleEnd::Waits(90),
        failures == 1 ==> subtitle_end_of(90, failures) == SubtitleEnd::Waits(180),
        failures == 2 ==> subtitle_end_of(90, failures) == SubtitleEnd::Waits(360),
        failures == 3 ==> subtitle_end_of(90, failures) == SubtitleEnd::Waits(720),
        failures == 4 ==> subtitle_end_of(90, failures) == SubtitleEnd::Waits(1_440),
        failures == 5 ==> subtitle_end_of(90, failures) == SubtitleEnd::Waits(2_880),
        6 <= failures < 15 ==> subtitle_end_of(90, failures) == SubtitleEnd::Waits(3_600),
        CC_RETRY_BASE_SECONDS == 90,
{
    vstd::arithmetic::power2::lemma2_to64();
}

/// A subtitle waits half a minute at first while the platform still works on the video, and a minute
/// and a half else; twice as long after each further failure, and at most an hour. It is given up
/// at the sixteenth try either way.
pub proof fn subtitles_wait_for_the_platform(error: &str, failures: i64, base: i64)
    requires
        call_ensures(subtitle_base, (error,), base),
        0 <= failures < i64::MAX,
    ensures
        occurs_in(error@, "code=-404"@) ==> base == 30,
        !occurs_in(error@, "code=-404"@) ==> base == 90,
        subtitle_end_of(base, failures) == SubtitleEnd::Exhausted <==> failures >= 15,
        failures == 0 ==> subtitle_end_of(base, failures) == SubtitleEnd::Waits(base),
        failures == 1 ==> subtitle_end_of(base, failures) == SubtitleEnd::Waits((2 * base) as i64),
        failures == 2 ==> subtitle_end_of(base, failures) == SubtitleEnd::Waits((4 * base) as i64),
        7 <= failures < 15 ==> subtitle_end_of(base, failures) == SubtitleEnd::Waits(3_600),
{
    if occurs_in(error@, "code=-404"@) {
        short_waits(failures);
    } else {
        failed_subtitles_wait_or_rest(failures);
    }
}

proof fn short_waits(failures: i64)
    requires
        0 <= failures < i64::MAX,
    ensures
        failures == 0 ==> subtitle_end_of(30, failures) == SubtitleEnd::Waits(30),
        failures == 1 ==> subtitle_end_of(30, failures) == SubtitleEnd::Waits(60),
        failures == 2 ==> subtitle_end_of(30, failures) == SubtitleEnd::Waits(120),
        7 <= failures < 15 ==> subtitle_end_of(30, failures) == SubtitleEnd::Waits(3_600),
{
    vstd::arithmetic::power2::lemma2_to64();
}

/// A failure is logged as one, live content as news; the line bears the job and the time, and is the
/// last.
pub proof fn failures_are_logged(db: DbModel, id: Option<Seq<char>>, level: Seq<char>, text: Seq<char>, now: i64)
    requires
        db.event_seq < i64::MAX,
    ensures
        failure_level(Failure::Live) == "info"@,
        failure_level(Failure::Overlong) == "error"@,
        failure_level(Failure::Plain) == "error"@,
        ({
            let after = db.logged(id, level, text, now);
            &&& after.events.len() == db.events.len() + 1
            &&& after.events.last().job_id == id && after.events.last().level == level
            &&& after.events.last().message == text && after.events.last().created_at == now
            &&& after.events.last().id == db.event_seq + 1
            &&& after.jobs == db.jobs && after.settings == db.settings
        }),
{
}

/// A failure is live where its words say so, else overlong where they say that, else plain.
pub proof fn failures_are_told_apart(chain: Seq<Seq<char>>)
    ensures
        failure_of(chain) == Failure::Live <==> chain_is_live(chain),
        failure_of(chain) == Failure::Overlong <==> !chain_is_live(chain) && chain_is_overlong(
            chain,
        ),
        failure_of(chain) == Failure::Plain <==> !chain_is_live(chain) && !chain_is_overlong(chain),
        chain.len() > 0 ==> head_of(chain) == chain[0],
{
}

/// A cooldown holds up submissions for so many seconds; none of zero seconds does.
pub proof fn cooldowns_last_their_seconds(db: DbModel, seconds: u64, now: i64)
    requires
        0 < seconds <= i64::MAX,
        now + seconds * 1_000 <= i64::MAX,
        rfc3339_text(now + seconds * 1_000) is Some,
    ensures
        submissions_deferred(db, 0, now) == Ok::<DbModel, DbError>(db),
        submissions_deferred(db, seconds, now) matches Ok(after) && after.setting(
            "bilibili.next_submit_at"@,
        ) == rfc3339_text(now + seconds * 1_000) && after.jobs == db.jobs,
{
    set_then_get(
        db,
        "bilibili.next_submit_at"@,
        rfc3339_text(now + seconds * 1_000)->Some_0,
        now,
    );
}

/// A failed submission that is not in doubt pauses its job just where the failures reach the allowed
/// number; with fewer the job waits, ten minutes after the first failure, twice as long after each
/// further one, and at most an hour.
pub proof fn settled_failures_pause_or_wait(
    db: &mut Database,
    id: &str,
    error: &str,
    cooldown_seconds: u64,
    max_attempts: u32,
    now: i64,
    k: int,
    r: Result<UploadEnd, DbError>,
)
    requires
        call_ensures(
            Database::settle_upload_failure,
            (db, id, error, cooldown_seconds, max_attempts, now),
            r,
        ),
        old(db)@.wf(),
        0 <= k < old(db)@.jobs.len(),
        old(db)@.jobs[k].job.id == id@,
        old(db)@.jobs[k].legacy is None,
        old(db)@.jobs[k].job.status != JobStatus::UploadUncertain,
        0 <= old(db)@.jobs[k].job.attempt < i64::MAX,
        old(db)@.event_seq < i64::MAX,
        !occurs_in(error@, "21566"@),
        countable(now + 3_600_000),
    ensures
        ({
            let row = final(db)@.jobs[k];
            let failures = old(db)@.jobs[k].job.attempt + 1;
            &&& row.job.attempt == failures && row.job.error == Some(error@)
            &&& row.job.status == JobStatus::Paused <==> failures >= max_attempts
            &&& row.job.status == JobStatus::UploadRetryWait <==> failures < max_attempts
            &&& failures < max_attempts && failures == 1 ==> row.retry_at == Some(
                (now + 600_000) as i64,
            )
            &&& failures < max_attempts && failures == 2 ==> row.retry_at == Some(
                (now + 1_200_000) as i64,
            )
            &&& failures < max_attempts && failures == 3 ==> row.retry_at == Some(
                (now + 2_400_000) as i64,
            )
            &&& failures < max_attempts && failures >= 4 ==> row.retry_at == Some(
                (now + 3_600_000) as i64,
            )
        }),
{
    jobs_are_found(old(db)@, k, id@);
    failed_submissions_wait_or_pause(
        old(db)@,
        id@,
        error@,
        cooldown_seconds,
        max_attempts,
        now,
        k,
    );
}

/// A subtitle that failed in this process's hands waits, or is given up at the sixteenth try; either
/// way the job is given back.
pub proof fn settled_subtitles_wait_or_rest(
    db: &mut Database,
    id: &str,
    error: &str,
    now: i64,
    k: int,
    r: Result<SubtitleEnd, DbError>,
)
    requires
        call_ensures(Database::settle_subtitle_failure, (db, id, error, 90i64, now), r),
        old(db)@.wf(),
        0 <= k < old(db)@.jobs.len(),
        old(db)@.jobs[k].job.id == id@,
        old(db)@.jobs[k].claim_kind == Some("subtitle"@),
        old(db)@.jobs[k].claim_owner == Some(old(db)@.claim_owner),
        0 <= old(db)@.jobs[k].job.subtitle_attempt < i64::MAX,
        countable(now + 3_600_000),
    ensures
        ({
            let tries = old(db)@.jobs[k].job.subtitle_attempt;
            let row = final(db)@.jobs[k];
            &&& r is Ok && row.claim_owner is None && row.job.error == Some(error@)
            &&& tries >= 15 ==> row.job.subtitle_attempt == 16 && row.subtitle_retry_at is None
            &&& tries < 15 ==> row.job.subtitle_attempt == tries + 1
            &&& tries == 0 ==> row.subtitle_retry_at == Some((now + 90_000) as i64)
            &&& tries == 1 ==> row.subtitle_retry_at == Some((now + 180_000) as i64)
            &&& 6 <= tries < 15 ==> row.subtitle_retry_at == Some((now + 3_600_000) as i64)
            &&& row.job.status == old(db)@.jobs[k].job.status
            &&& row.job.attempt == old(db)@.jobs[k].job.attempt
        }),
{
    claims_are_told_apart(old(db)@, k, "subtitle"@);
    failed_subtitles_wait_or_rest(old(db)@.jobs[k].job.subtitle_attempt);
}

} // verus!
