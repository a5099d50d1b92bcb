//! The queue of jobs: creating, claiming, giving back, putting off, pausing and trying again.
use vstd::prelude::*;

use crate::fault::DbError;
use crate::model::{ChannelPriority, JobStatus, TransferMode};
use crate::order::{comes_before, is_least, pick, picked, picked_means, Key};
use crate::store::{
    job_step, job_update_keeps_wf, jobs_are_found, only_what_is_there_is_found, place_means,
    preference_is_the_channels, same_place, Database, DbModel, Job, JobModel, JobRow, RowModel,
};
use crate::text::{own_optional, same_optional, same_text};

verus! {

/// How long a claim lasts without being renewed.
pub const CLAIM_LEASE_MS: i64 = 300_000;

/// How long a job of the older layout, which has no time for its next try, waits.
pub const LEGACY_RETRY_MS: i64 = 600_000;

/// The claim of a preparation.
pub const PREPARE_CLAIM_KIND: &'static str = "prepare";

/// The claim of a subtitle.
pub const SUBTITLE_CLAIM_KIND: &'static str = "subtitle";

/// The claim of a submission.
pub const UPLOAD_CLAIM_KIND: &'static str = "upload";

/// What a paused job says whose submission may have gone through.
pub const UNCERTAIN_UPLOAD_RECOVERY_ERROR: &'static str = "服务重启时上传结果不确定，请确认 Bilibili 后再处理";

/// What a job is created from.
pub struct NewJob<'a> {
    pub channel_id: Option<i64>,
    pub video_id: &'a str,
    pub url: &'a str,
    pub title: Option<&'a str>,
    pub published: Option<i64>,
    pub updated: Option<i64>,
    pub transfer_mode: TransferMode,
}

/// The characters of an optional text.
pub open spec fn str_view(s: Option<&str>) -> Option<Seq<char>> {
    match s {
        Some(x) => Some(x@),
        None => None,
    }
}

/// `uuid::Uuid::new_v4`, `to_string`: a random name in the hyphenated form, which has 36
/// characters. That it is new is left to chance.
#[verifier::external_body]
pub(crate) fn fresh_id() -> (r: String)
    ensures
        r@.len() == 36,
{
    uuid::Uuid::new_v4().to_string()
}

/// The row of a new job.
pub open spec fn new_row(id: Seq<char>, job: NewJob, now: i64) -> RowModel {
    RowModel {
        job: JobModel {
            id,
            channel_id: job.channel_id,
            video_id: job.video_id@,
            url: job.url@,
            title: str_view(job.title),
            status: JobStatus::Queued,
            transfer_mode: job.transfer_mode,
            published_at: job.published,
            youtube_updated_at: job.updated,
            discovered_at: now,
            is_short: false,
            duration_ms: None,
            width: None,
            height: None,
            bvid: None,
            provider: None,
            ai_model: None,
            thinking: None,
            attempt: 0,
            error: None,
            subtitle_attempt: 0,
        },
        legacy: None,
        retry_at: None,
        subtitle_retry_at: None,
        claim_kind: None,
        claim_owner: None,
        claim_expires_at: None,
        raw_video_path: None,
        rendered_path: None,
        subtitle_path: None,
        prepared_upload: None,
        source_metadata: None,
        created_at: now,
        updated_at: now,
    }
}

fn make_row(id: &str, job: &NewJob, now: i64) -> (r: JobRow)
    ensures
        r@ == new_row(id@, *job, now),
{
    JobRow {
        job: Job {
            id: id.to_owned(),
            channel_id: job.channel_id,
            video_id: job.video_id.to_owned(),
            url: job.url.to_owned(),
            title: own_optional(job.title),
            status: JobStatus::Queued,
            transfer_mode: job.transfer_mode,
            published_at: job.published,
            youtube_updated_at: job.updated,
            discovered_at: now,
            is_short: false,
            duration_ms: None,
            width: None,
            height: None,
            bvid: None,
            provider: None,
            ai_model: None,
            thinking: None,
            attempt: 0,
            error: None,
            subtitle_attempt: 0,
        },
        legacy: None,
        retry_at: None,
        subtitle_retry_at: None,
        claim_kind: None,
        claim_owner: None,
        claim_expires_at: None,
        raw_video_path: None,
        rendered_path: None,
        subtitle_path: None,
        prepared_upload: None,
        source_metadata: None,
        created_at: now,
        updated_at: now,
    }
}

/// What adding a job does: nothing where its name or its video is there already, an error where it
/// names a channel that is not there, and otherwise it comes last.
pub open spec fn job_added(db: DbModel, id: Seq<char>, job: NewJob, now: i64) -> Result<
    Option<DbModel>,
    DbError,
> {
    if db.job_at(id) is Some || db.video_at(job.video_id@) is Some {
        Ok(None)
    } else if job.channel_id matches Some(c) && db.channel_at(c) is None {
        Err(DbError::ForeignKey)
    } else {
        Ok(Some(DbModel { jobs: db.jobs.push(new_row(id, job, now)), ..db }))
    }
}

/// Adding a job keeps the tables sound.
pub proof fn added_job_keeps_wf(db: DbModel, id: Seq<char>, job: NewJob, now: i64)
    requires
        db.wf(),
        job_added(db, id, job, now) matches Ok(Some(_)),
    ensures
        job_added(db, id, job, now)->Ok_0->Some_0.wf(),
{
    let after = job_added(db, id, job, now)->Ok_0->Some_0;
    place_means(db.jobs, |r: RowModel| r.job.id == id);
    place_means(db.jobs, |r: RowModel| r.job.video_id == job.video_id@);
    assert forall|i: int, j: int| 0 <= i < j < after.jobs.len() implies {
        &&& (#[trigger] after.jobs[i]).job.id != (#[trigger] after.jobs[j]).job.id
        &&& after.jobs[i].job.video_id != after.jobs[j].job.video_id
        &&& after.jobs[i].job.bvid is Some ==> after.jobs[i].job.bvid != after.jobs[j].job.bvid
    } by {
        let a = db.jobs[i];
        if j < db.jobs.len() {
            let b = db.jobs[j];
        } else {
            assert(!(|r: RowModel| r.job.id == id)(db.jobs[i]));
            assert(!(|r: RowModel| r.job.video_id == job.video_id@)(db.jobs[i]));
        }
    }
}

/// The job of a row; an error where the row is in a stage that only older versions know.
pub open spec fn job_of(row: RowModel) -> Result<JobModel, DbError> {
    match row.legacy {
        Some(stage) => Err(DbError::LegacyStatus(stage)),
        None => Ok(row.job),
    }
}

/// Whether a result is the job at a place, or nothing.
pub open spec fn job_result(r: Result<Option<Job>, DbError>, db: DbModel, at: Option<int>) -> bool {
    match at {
        None => r matches Ok(None),
        Some(k) => match job_of(db.jobs[k]) {
            Ok(job) => r matches Ok(Some(j)) && j@ == job,
            Err(e) => r matches Err(x) && x == e,
        },
    }
}

/// The lines that jobs wait in.
#[derive(Debug, Clone, Copy, PartialEq, Eq, Structural)]
pub enum Line {
    /// For their preparation, claimed or not.
    Queued,
    /// For their preparation, and nobody holds them.
    Claimable,
    /// For their submission.
    ReadyToUpload,
    /// For their subtitle, after fewer tries than this.
    Subtitle(i64),
}

impl RowModel {
    /// Whether the time for the next try has come.
    pub open spec fn retry_due(self, now: i64) -> bool {
        match self.retry_at {
            Some(t) => t <= now,
            None => self.updated_at + LEGACY_RETRY_MS <= now,
        }
    }

    /// Whether the job waits for its preparation.
    pub open spec fn prepare_due(self, now: i64) -> bool {
        self.is(JobStatus::Queued) || (self.is(JobStatus::RetryWait) && self.retry_due(now))
    }

    /// Whether the job waits for its submission.
    pub open spec fn upload_due(self, now: i64) -> bool {
        self.is(JobStatus::ReadyToUpload) || (self.is(JobStatus::UploadRetryWait)
            && self.retry_due(now))
    }

    /// Whether the job waits for its subtitle.
    pub open spec fn subtitle_due(self, max_attempts: i64, now: i64) -> bool {
        &&& self.is(JobStatus::UploadedOriginalPendingSubtitle)
        &&& self.published()
        &&& self.job.subtitle_attempt < max_attempts
        &&& self.subtitle_retry_at matches Some(t) ==> t <= now
        &&& self.claim_free(now)
    }

    /// Whether the job waits in a line.
    pub open spec fn waits_in(self, line: Line, now: i64) -> bool {
        match line {
            Line::Queued => self.prepare_due(now),
            Line::Claimable => self.prepare_due(now) && self.claim_free(now),
            Line::ReadyToUpload => self.upload_due(now),
            Line::Subtitle(max) => self.subtitle_due(max, now),
        }
    }
}

impl DbModel {
    /// What a job is ordered by in a line: preferred channels first, then who was found first. The
    /// line for subtitles knows no preference.
    pub open spec fn line_key(self, line: Line, row: RowModel) -> Key {
        (
            if !(line is Subtitle) && !self.preferred(row.job.channel_id) {
                1
            } else {
                0
            },
            row.job.discovered_at,
            0,
        )
    }

    /// The keys of the jobs in a line; nobody stands in line while the lock is held.
    pub open spec fn line_keys(self, line: Line, now: i64) -> Seq<Option<Key>> {
        Seq::new(
            self.jobs.len(),
            |k: int|
                if !self.held(now) && self.jobs[k].waits_in(line, now) {
                    Some(self.line_key(line, self.jobs[k]))
                } else {
                    None
                },
        )
    }

    /// Who is first in a line.
    pub open spec fn first_in(self, line: Line, now: i64) -> Option<int> {
        picked(self.line_keys(line, now))
    }

    /// Where a job stands that this process claimed for a kind of work.
    pub open spec fn claimed_at(self, id: Seq<char>, kind: Seq<char>) -> Option<int> {
        match self.job_at(id) {
            Some(k) => if self.jobs[k].claimed(kind, self.claim_owner) {
                Some(k)
            } else {
                None
            },
            None => None,
        }
    }

    /// A row claimed by this process for a kind of work.
    pub open spec fn claim_of(self, row: RowModel, kind: Seq<char>, now: i64) -> RowModel {
        RowModel {
            claim_kind: Some(kind),
            claim_owner: Some(self.claim_owner),
            claim_expires_at: Some((now + CLAIM_LEASE_MS) as i64),
            updated_at: now,
            ..row
        }
    }

    /// A row whose preparation starts.
    pub open spec fn inspected(self, row: RowModel, now: i64) -> RowModel {
        self.claim_of(row.moved(JobStatus::Inspecting, None, now), PREPARE_CLAIM_KIND@, now)
    }
}

impl JobRow {
    fn retry_due(&self, now: i64) -> (r: bool)
        ensures
            r == self@.retry_due(now),
    {
        match self.retry_at {
            Some(t) => t <= now,
            None => (self.updated_at as i128) + (LEGACY_RETRY_MS as i128) <= now as i128,
        }
    }

    fn prepare_due(&self, now: i64) -> (r: bool)
        ensures
            r == self@.prepare_due(now),
    {
        self.is(JobStatus::Queued) || (self.is(JobStatus::RetryWait) && self.retry_due(now))
    }

    fn waits_in(&self, line: Line, now: i64) -> (r: bool)
        ensures
            r == self@.waits_in(line, now),
    {
        match line {
            Line::Queued => self.prepare_due(now),
            Line::Claimable => self.prepare_due(now) && self.claim_free(now),
            Line::ReadyToUpload => self.is(JobStatus::ReadyToUpload) || (self.is(
                JobStatus::UploadRetryWait,
            ) && self.retry_due(now)),
            Line::Subtitle(max) => self.is(JobStatus::UploadedOriginalPendingSubtitle)
                && self.published() && self.job.subtitle_attempt < max && (
            match self.subtitle_retry_at {
                Some(t) => t <= now,
                None => true,
            }) && self.claim_free(now),
        }
    }

    /// The job of the row.
    pub fn read(&self) -> (r: Result<Job, DbError>)
        ensures
            match job_of(self@) {
                Ok(job) => r matches Ok(j) && j@ == job,
                Err(e) => r matches Err(x) && x == e,
            },
    {
        match self.legacy {
            Some(stage) => Err(DbError::LegacyStatus(stage)),
            None => Ok(self.job.copied()),
        }
    }

    /// Claims the row.
    pub fn claim(&mut self, kind: &str, owner: &str, now: i64)
        requires
            now + CLAIM_LEASE_MS <= i64::MAX,
        ensures
            final(self)@ == (RowModel {
                claim_kind: Some(kind@),
                claim_owner: Some(owner@),
                claim_expires_at: Some((now + CLAIM_LEASE_MS) as i64),
                updated_at: now,
                ..old(self)@
            }),
    {
        self.claim_kind = Some(kind.to_owned());
        self.claim_owner = Some(owner.to_owned());
        self.claim_expires_at = Some(now + CLAIM_LEASE_MS);
        self.updated_at = now;
    }
}

impl Database {
    /// Adds a job under a name. Whether it did; it does not where the name or the video is there.
    pub fn create_job_with_id(&mut self, id: &str, job: &NewJob, now: i64) -> (r: Result<
        bool,
        DbError,
    >)
        ensures
            match job_added(old(self)@, id@, *job, now) {
                Err(e) => r == Err::<bool, DbError>(e) && final(self)@ == old(self)@,
                Ok(None) => r == Ok::<bool, DbError>(false) && final(self)@ == old(self)@,
                Ok(Some(after)) => r == Ok::<bool, DbError>(true) && final(self)@ == after,
            },
            old(self)@.wf() ==> final(self)@.wf(),
    {
        if self.find_job(id).is_some() || self.find_video(job.video_id).is_some() {
            return Ok(false);
        }
        match job.channel_id {
            Some(c) => {
                if self.find_channel(c).is_none() {
                    return Err(DbError::ForeignKey);
                }
            },
            None => {},
        }
        proof {
            if self@.wf() {
                added_job_keeps_wf(self@, id@, *job, now);
            }
        }
        self.jobs.push(make_row(id, job, now));
        Ok(true)
    }

    /// Adds a job under a new name, and gives the name.
    pub fn create_job(&mut self, job: &NewJob, now: i64) -> (r: Result<Option<String>, DbError>)
        ensures
            exists|id: Seq<char>|
                id.len() == 36 && match #[trigger] job_added(old(self)@, id, *job, now) {
                    Err(e) => r == Err::<Option<String>, DbError>(e) && final(self)@ == old(self)@,
                    Ok(None) => r == Ok::<Option<String>, DbError>(None) && final(self)@ == old(
                        self,
                    )@,
                    Ok(Some(after)) => (r matches Ok(Some(name)) && name@ == id) && final(self)@
                        == after,
                },
            old(self)@.video_at(job.video_id@) is Some ==> r matches Ok(None),
            old(self)@.wf() ==> final(self)@.wf(),
    {
        let id = fresh_id();
        match self.create_job_with_id(id.as_str(), job, now) {
            Err(e) => Err(e),
            Ok(false) => Ok(None),
            Ok(true) => Ok(Some(id)),
        }
    }

    /// The job of a video.
    pub fn get_job_by_video_id(&self, video_id: &str) -> (r: Result<Option<Job>, DbError>)
        ensures
            job_result(r, self@, self@.video_at(video_id@)),
    {
        match self.find_video(video_id) {
            None => Ok(None),
            Some(k) => match self.jobs[k].read() {
                Ok(j) => Ok(Some(j)),
                Err(e) => Err(e),
            },
        }
    }

    /// The job of a name.
    pub fn get_job(&self, id: &str) -> (r: Result<Option<Job>, DbError>)
        ensures
            job_result(r, self@, self@.job_at(id@)),
    {
        match self.find_job(id) {
            None => Ok(None),
            Some(k) => match self.jobs[k].read() {
                Ok(j) => Ok(Some(j)),
                Err(e) => Err(e),
            },
        }
    }

    /// The job of a published video.
    pub fn job_by_bvid(&self, bvid: &str) -> (r: Result<Option<Job>, DbError>)
        ensures
            job_result(r, self@, self@.bvid_at(bvid@)),
    {
        match self.find_bvid(bvid) {
            None => Ok(None),
            Some(k) => match self.jobs[k].read() {
                Ok(j) => Ok(Some(j)),
                Err(e) => Err(e),
            },
        }
    }

    /// Whether a published video belongs to another job.
    pub fn bvid_owned_by_other_job(&self, id: &str, bvid: &str) -> (r: bool)
        ensures
            r == exists|k: int|
                0 <= k < self@.jobs.len() && (#[trigger] self@.jobs[k]).job.bvid == Some(bvid@)
                    && self@.jobs[k].job.id != id@,
    {
        let mut i: usize = 0;
        while i < self.jobs.len()
            invariant
                0 <= i <= self.jobs@.len(),
                forall|k: int|
                    0 <= k < i ==> !((#[trigger] self@.jobs[k]).job.bvid == Some(bvid@)
                        && self@.jobs[k].job.id != id@),
            decreases self.jobs@.len() - i,
        {
            if same_optional(&self.jobs[i].job.bvid, bvid) && !same_text(
                self.jobs[i].job.id.as_str(),
                id,
            ) {
                proof {
                    let row = self@.jobs[i as int];
                    assert(row.job.bvid == Some(bvid@) && row.job.id != id@);
                }
                return true;
            }
            i = i + 1;
        }
        false
    }

    /// The place of who is first in a line.
    pub(crate) fn pick_in(&self, line: Line, now: i64) -> (r: Option<usize>)
        ensures
            same_place(r, self@.first_in(line, now), self.jobs@.len() as int),
            r matches Some(k) ==> !self@.held(now) && self@.jobs[k as int].waits_in(line, now),
    {
        let held = self.is_held(now);
        let mut keys: Vec<Option<Key>> = Vec::new();
        let mut i: usize = 0;
        while i < self.jobs.len()
            invariant
                held == self@.held(now),
                0 <= i <= self.jobs@.len(),
                keys@.len() == i,
                forall|j: int| 0 <= j < i ==> keys@[j] == self@.line_keys(line, now)[j],
            decreases self.jobs@.len() - i,
        {
            let key: Option<Key> = if !held && self.jobs[i].waits_in(line, now) {
                let plain = match line {
                    Line::Subtitle(_) => true,
                    _ => self.is_preferred(self.jobs[i].job.channel_id),
                };
                let rank: i64 = if plain {
                    0
                } else {
                    1
                };
                Some((rank, self.jobs[i].job.discovered_at, 0))
            } else {
                None
            };
            keys.push(key);
            i = i + 1;
        }
        proof {
            assert(keys@ =~= self@.line_keys(line, now));
            picked_means(keys@);
        }
        pick(&keys)
    }

    /// Claims the next job for its preparation.
    pub fn claim_next_prepare_job(&mut self, now: i64) -> (r: Option<Job>)
        requires
            now + CLAIM_LEASE_MS <= i64::MAX,
        ensures
            match old(self)@.first_in(Line::Claimable, now) {
                None => r is None && final(self)@ == old(self)@,
                Some(k) => {
                    let row = old(self)@.inspected(old(self)@.jobs[k], now);
                    (r matches Some(j) && j@ == row.job) && final(self)@ == old(self)@.with_job(
                        k,
                        row,
                    )
                },
            },
            old(self)@.wf() ==> final(self)@.wf(),
    {
        match self.pick_in(Line::Claimable, now) {
            None => None,
            Some(k) => {
                proof {
                    if self@.wf() {
                        job_update_keeps_wf(
                            self@,
                            k as int,
                            self@.inspected(self@.jobs[k as int], now),
                        );
                    }
                }
                let owner = self.claim_owner.clone();
                self.jobs[k].move_to(JobStatus::Inspecting, None, now);
                self.jobs[k].claim(PREPARE_CLAIM_KIND, owner.as_str(), now);
                Some(self.jobs[k].job.copied())
            },
        }
    }

    /// Claims a job for its preparation.
    pub fn claim_prepare_job(&mut self, id: &str, now: i64) -> (r: Option<Job>)
        requires
            now + CLAIM_LEASE_MS <= i64::MAX,
        ensures
            match old(self)@.job_at(id@) {
                Some(k) => if !old(self)@.held(now) && old(self)@.jobs[k].waits_in(
                    Line::Claimable,
                    now,
                ) {
                    let row = old(self)@.inspected(old(self)@.jobs[k], now);
                    (r matches Some(j) && j@ == row.job) && final(self)@ == old(self)@.with_job(
                        k,
                        row,
                    )
                } else {
                    r is None && final(self)@ == old(self)@
                },
                None => r is None && final(self)@ == old(self)@,
            },
            old(self)@.wf() ==> final(self)@.wf(),
    {
        match self.find_job(id) {
            None => None,
            Some(k) => {
                if self.is_held(now) || !self.jobs[k].waits_in(Line::Claimable, now) {
                    return None;
                }
                proof {
                    if self@.wf() {
                        job_update_keeps_wf(
                            self@,
                            k as int,
                            self@.inspected(self@.jobs[k as int], now),
                        );
                    }
                }
                let owner = self.claim_owner.clone();
                self.jobs[k].move_to(JobStatus::Inspecting, None, now);
                self.jobs[k].claim(PREPARE_CLAIM_KIND, owner.as_str(), now);
                Some(self.jobs[k].job.copied())
            },
        }
    }

    /// Finds a job that this process claimed for a kind of work.
    pub(crate) fn find_claimed(&self, id: &str, kind: &str) -> (r: Option<usize>)
        ensures
            same_place(r, self@.claimed_at(id@, kind@), self.jobs@.len() as int),
            r matches Some(k) ==> self@.jobs[k as int].job.id == id@ && self@.jobs[k as int].claimed(
                kind@,
                self@.claim_owner,
            ),
    {
        match self.find_job(id) {
            None => None,
            Some(k) => if self.jobs[k].claimed(kind, self.claim_owner.as_str()) {
                Some(k)
            } else {
                None
            },
        }
    }

    /// Makes a claim of this process last longer. Whether it still had it.
    pub fn renew_job_claim(&mut self, id: &str, kind: &str, now: i64) -> (r: bool)
        requires
            now + CLAIM_LEASE_MS <= i64::MAX,
        ensures
            r == old(self)@.claimed_at(id@, kind@) is Some,
            match old(self)@.claimed_at(id@, kind@) {
                Some(k) => final(self)@ == old(self)@.with_job(
                    k,
                    (RowModel {
                        claim_expires_at: Some((now + CLAIM_LEASE_MS) as i64),
                        ..old(self)@.jobs[k]
                    }),
                ),
                None => final(self)@ == old(self)@,
            },
            old(self)@.wf() ==> final(self)@.wf(),
    {
        match self.find_claimed(id, kind) {
            None => false,
            Some(k) => {
                let ghost before = self@;
                self.jobs[k].claim_expires_at = Some(now + CLAIM_LEASE_MS);
                proof {
                    assert(self@ =~= before.with_job(k as int, self@.jobs[k as int]));
                    job_step(before, self@, k as int);
                }
                true
            },
        }
    }

    /// Whether this process has a claim.
    pub fn owns_job_claim(&self, id: &str, kind: &str) -> (r: bool)
        ensures
            r == self@.claimed_at(id@, kind@) is Some,
    {
        self.find_claimed(id, kind).is_some()
    }

    /// Gives a claim of this process back. Whether it had it.
    pub fn release_job_claim(&mut self, id: &str, kind: &str, now: i64) -> (r: bool)
        ensures
            r == old(self)@.claimed_at(id@, kind@) is Some,
            match old(self)@.claimed_at(id@, kind@) {
                Some(k) => final(self)@ == old(self)@.with_job(
                    k,
                    (RowModel { updated_at: now, ..old(self)@.jobs[k].released() }),
                ),
                None => final(self)@ == old(self)@,
            },
            old(self)@.wf() ==> final(self)@.wf(),
    {
        match self.find_claimed(id, kind) {
            None => false,
            Some(k) => {
                let ghost before = self@;
                self.jobs[k].release();
                self.jobs[k].updated_at = now;
                proof {
                    assert(self@ =~= before.with_job(k as int, self@.jobs[k as int]));
                    job_step(before, self@, k as int);
                }
                true
            },
        }
    }
}

/// Nobody is first in any line while the lock is held.
pub proof fn lock_stops_all_lines(db: DbModel, line: Line, now: i64)
    requires
        db.held(now),
    ensures
        db.first_in(line, now) is None,
{
    picked_means(db.line_keys(line, now));
    let keys = db.line_keys(line, now);
    assert forall|k: int| 0 <= k < keys.len() implies (#[trigger] keys[k]) is None by {}
}

/// Somebody is first in a line that anybody waits in, and who is first waits there. Nobody else
/// there has a preferred channel that the first one lacks, and with the same preference nobody was
/// found earlier.
pub proof fn lines_are_fair(db: DbModel, line: Line, now: i64, j: int)
    requires
        !db.held(now),
        0 <= j < db.jobs.len(),
        db.jobs[j].waits_in(line, now),
    ensures
        db.first_in(line, now) matches Some(k) && 0 <= k < db.jobs.len() && db.jobs[k].waits_in(
            line,
            now,
        ) && ({
            let a = db.jobs[k].job;
            let b = db.jobs[j].job;
            let preferred = !(line is Subtitle);
            &&& preferred && db.preferred(b.channel_id) ==> db.preferred(a.channel_id)
            &&& !preferred || db.preferred(a.channel_id) == db.preferred(b.channel_id)
                ==> a.discovered_at <= b.discovered_at
        }),
{
    let keys = db.line_keys(line, now);
    picked_means(keys);
    assert(keys[j] is Some);
    let k = db.first_in(line, now)->Some_0;
    assert(is_least(keys, k));
    if k != j {
        assert(comes_before(keys, k, j));
    }
}

/// A job that was claimed for its preparation is in no line until the claim is over.
pub proof fn claims_are_exclusive(db: DbModel, k: int, now: i64, line: Line, at: i64)
    requires
        0 <= k < db.jobs.len(),
        at < now + CLAIM_LEASE_MS <= i64::MAX,
    ensures
        !db.inspected(db.jobs[k], now).waits_in(line, at),
        !db.inspected(db.jobs[k], now).lease_over(at),
{
}

/// A claim of one process is none of another.
pub proof fn claims_belong_to_one_process(db: DbModel, id: Seq<char>, kind: Seq<char>, owner: Seq<char>)
    requires
        owner != db.claim_owner,
        db.claimed_at(id, kind) is Some,
    ensures
        (DbModel { claim_owner: owner, ..db }).claimed_at(id, kind) is None,
{
}

// ---------------------------------------------------------------------------------------------
// Who waits, and what a claim is
// ---------------------------------------------------------------------------------------------

/// A job that is made bears what it was made from, waits to be prepared, and is the last; it is not
/// made where its name or its video is taken.
pub proof fn new_jobs_keep_what_was_asked(db: DbModel, id: Seq<char>, job: NewJob, now: i64)
    ensures
        ({
            let r = job_added(db, id, job, now);
            let taken = exists|j: int|
                0 <= j < db.jobs.len() && ((#[trigger] db.jobs[j]).job.id == id
                    || db.jobs[j].job.video_id == job.video_id@);
            let homeless = job.channel_id is Some && forall|j: int|
                0 <= j < db.channels.len() ==> Some((#[trigger] db.channels[j]).channel.id)
                    != job.channel_id;
            &&& (r is Ok && r->Ok_0 is None) <==> taken
            &&& r is Err <==> !taken && homeless
            &&& r matches Ok(Some(after)) ==> {
                let row = after.jobs.last();
                &&& after.jobs == db.jobs.push(row)
                &&& after.candidates == db.candidates && after.channels == db.channels
                &&& row.job.id == id && row.job.video_id == job.video_id@
                &&& row.job.url == job.url@ && row.job.channel_id == job.channel_id
                &&& row.job.title is Some == job.title is Some
                &&& row.job.title is Some ==> row.job.title->Some_0 == job.title->Some_0@
                &&& row.job.transfer_mode == job.transfer_mode
                &&& row.job.published_at == job.published
                &&& row.job.youtube_updated_at == job.updated
                &&& row.job.status == JobStatus::Queued && row.legacy is None
                &&& row.job.attempt == 0 && row.job.subtitle_attempt == 0
                &&& row.job.bvid is None && row.job.error is None
                &&& row.claim_owner is None && row.retry_at is None
                &&& row.prepared_upload is None
                &&& row.job.discovered_at == now && row.created_at == now && row.updated_at == now
            }
        }),
{
    only_what_is_there_is_found(db, id, 0);
    only_what_is_there_is_found(db, job.video_id@, 0);
    if job.channel_id is Some {
        only_what_is_there_is_found(db, id, job.channel_id->Some_0);
    }
}

/// A job waits to be prepared while it is queued, and when the time of its next try has come; one
/// of the older layout ten minutes after it last changed. To be claimed nobody may hold it.
pub proof fn jobs_wait_to_be_prepared(row: RowModel, now: i64)
    ensures
        ({
            let known = row.legacy is None;
            let due = if row.retry_at is Some {
                row.retry_at->Some_0 <= now
            } else {
                row.updated_at + 600_000 <= now
            };
            let free = row.claim_owner is None || row.claim_expires_at is None
                || row.claim_expires_at->Some_0 <= now;
            let waits = known && (row.job.status == JobStatus::Queued || (row.job.status
                == JobStatus::RetryWait && due));
            &&& row.waits_in(Line::Queued, now) <==> waits
            &&& row.waits_in(Line::Claimable, now) <==> waits && free
        }),
{
}

/// A job waits to be submitted while it is ready, and when the time of its next try has come.
pub proof fn jobs_wait_to_be_submitted(row: RowModel, now: i64)
    ensures
        ({
            let due = if row.retry_at is Some {
                row.retry_at->Some_0 <= now
            } else {
                row.updated_at + 600_000 <= now
            };
            row.waits_in(Line::ReadyToUpload, now) <==> row.legacy is None && (row.job.status
                == JobStatus::ReadyToUpload || (row.job.status == JobStatus::UploadRetryWait
                && due))
        }),
{
}

/// A job waits for its subtitle while its video is published without one, it was not tried too
/// often, its time has come, and nobody holds it.
pub proof fn jobs_wait_for_subtitles(row: RowModel, max_attempts: i64, now: i64)
    ensures
        row.waits_in(Line::Subtitle(max_attempts), now) <==> {
            &&& row.legacy is None
            &&& row.job.status == JobStatus::UploadedOriginalPendingSubtitle
            &&& row.job.bvid is Some && row.job.bvid->Some_0.len() > 0
            &&& row.job.subtitle_attempt < max_attempts
            &&& row.subtitle_retry_at is None || row.subtitle_retry_at->Some_0 <= now
            &&& row.claim_owner is None || row.claim_expires_at is None
                || row.claim_expires_at->Some_0 <= now
        },
{
}

/// What a line hands out waits in it, and while the lock is held nothing is handed out. Of those
/// that wait, the job of a preferred channel comes before the others, save in the line for
/// subtitles; then the one known longest; then the one that stands first.
pub proof fn lines_hand_out_in_order(db: DbModel, line: Line, now: i64, j: int)
    requires
        db.wf(),
        0 <= j < db.jobs.len(),
    ensures
        ({
            let r = db.first_in(line, now);
            let locked = db.hold is Some && db.hold->Some_0.expires_at > now;
            &&& locked ==> r is None
            &&& r is None && !locked ==> !db.jobs[j].waits_in(line, now)
            &&& r matches Some(k) ==> {
                let a = db.jobs[k].job;
                let b = db.jobs[j].job;
                &&& 0 <= k < db.jobs.len() && db.jobs[k].waits_in(line, now)
                &&& db.jobs[j].waits_in(line, now) && j < k && (line is Subtitle
                    || a.channel_id == b.channel_id) ==> a.discovered_at < b.discovered_at
                &&& db.jobs[j].waits_in(line, now) && j > k && (line is Subtitle
                    || a.channel_id == b.channel_id) ==> a.discovered_at <= b.discovered_at
                &&& !(line is Subtitle) && db.jobs[j].waits_in(line, now) && (exists|c: int|
                    0 <= c < db.channels.len() && Some((#[trigger] db.channels[c]).channel.id)
                        == b.channel_id && db.channels[c].channel.priority
                        == ChannelPriority::Priority) ==> (exists|c: int|
                    0 <= c < db.channels.len() && Some((#[trigger] db.channels[c]).channel.id)
                        == a.channel_id && db.channels[c].channel.priority
                        == ChannelPriority::Priority)
            }
        }),
{
    let keys = db.line_keys(line, now);
    picked_means(keys);
    assert(keys.len() == db.jobs.len());
    assert(keys[j] is Some <==> !db.held(now) && db.jobs[j].waits_in(line, now));
    if db.first_in(line, now) is Some {
        let k = db.first_in(line, now)->Some_0;
        assert(is_least(keys, k));
        assert(keys[k] is Some);
        let a = db.jobs[k].job;
        let b = db.jobs[j].job;
        if j != k && keys[j] is Some {
            assert(comes_before(keys, k, j));
        }
        assert forall|c: int| 0 <= c < db.channels.len() && Some(
            (#[trigger] db.channels[c]).channel.id,
        ) == b.channel_id && db.channels[c].channel.priority == ChannelPriority::Priority implies db.preferred(
            b.channel_id,
        ) by {
            preference_is_the_channels(db, c);
        }
        if db.preferred(a.channel_id) {
            let c = db.channel_at(a.channel_id->Some_0)->Some_0;
            only_what_is_there_is_found(db, Seq::empty(), a.channel_id->Some_0);
            assert(Some(db.channels[c].channel.id) == a.channel_id);
        }
    }
}

/// A claim lasts five minutes, bears the name of this process, and changes nothing of the job but
/// its time of change. A job taken to be prepared is under inspection and has no error.
pub proof fn claims_last_five_minutes(db: DbModel, row: RowModel, kind: Seq<char>, now: i64)
    requires
        now + 300_000 <= i64::MAX,
    ensures
        ({
            let claim = db.claim_of(row, kind, now);
            &&& claim.claim_kind == Some(kind)
            &&& claim.claim_owner == Some(db.claim_owner)
            &&& claim.claim_expires_at == Some((now + 300_000) as i64)
            &&& claim.job == row.job && claim.legacy == row.legacy
            &&& claim.retry_at == row.retry_at && claim.prepared_upload == row.prepared_upload
        }),
        ({
            let taken = db.inspected(row, now);
            &&& taken.claim_kind == Some("prepare"@)
            &&& taken.claim_owner == Some(db.claim_owner)
            &&& taken.claim_expires_at == Some((now + 300_000) as i64)
            &&& taken.job.status == JobStatus::Inspecting && taken.legacy is None
            &&& taken.job.error is None && taken.updated_at == now
            &&& taken.job.id == row.job.id && taken.job.video_id == row.job.video_id
            &&& taken.job.attempt == row.job.attempt
            &&& taken.job.transfer_mode == row.job.transfer_mode
        }),
{
}

/// A claim is this process's own only under its kind and its name.
pub proof fn claims_are_told_apart(db: DbModel, k: int, kind: Seq<char>)
    requires
        db.wf(),
        0 <= k < db.jobs.len(),
    ensures
        db.claimed_at(db.jobs[k].job.id, kind) is Some <==> db.jobs[k].claim_kind == Some(kind)
            && db.jobs[k].claim_owner == Some(db.claim_owner),
        db.claimed_at(db.jobs[k].job.id, kind) is Some ==> db.claimed_at(db.jobs[k].job.id, kind)
            == Some(k),
{
    jobs_are_found(db, k, db.jobs[k].job.id);
}

/// A job is told as it is; one in a stage of the older layout is an error, and one that is not there
/// is none.
pub proof fn jobs_are_told_as_they_are(r: Result<Option<Job>, DbError>, db: DbModel, at: Option<int>)
    requires
        job_result(r, db, at),
    ensures
        at is None ==> r is Ok && r->Ok_0 is None,
        at matches Some(k) ==> (db.jobs[k].legacy is None ==> r is Ok && r->Ok_0 is Some
            && r->Ok_0->Some_0@ == db.jobs[k].job),
        at matches Some(k) ==> (db.jobs[k].legacy is Some ==> r is Err),
{
}

/// A claim that is renewed lasts five minutes from then; one that is given back is gone. Neither is
/// done to a claim of somebody else.
pub proof fn claims_are_renewed_and_given_back(
    db: &mut Database,
    other: &mut Database,
    id: &str,
    kind: &str,
    now: i64,
    k: int,
    r: bool,
    s: bool,
)
    requires
        call_ensures(Database::renew_job_claim, (db, id, kind, now), r),
        call_ensures(Database::release_job_claim, (other, id, kind, now), s),
        old(db)@ == old(other)@,
        old(db)@.wf(),
        0 <= k < old(db)@.jobs.len(),
        old(db)@.jobs[k].job.id == id@,
        now + 300_000 <= i64::MAX,
    ensures
        r == s,
        r <==> old(db)@.jobs[k].claim_kind == Some(kind@) && old(db)@.jobs[k].claim_owner == Some(
            old(db)@.claim_owner,
        ),
        r ==> final(db)@.jobs[k].claim_expires_at == Some((now + 300_000) as i64)
            && final(db)@.jobs[k].claim_owner == old(db)@.jobs[k].claim_owner && final(db)@.jobs[k].job
            == old(db)@.jobs[k].job,
        r ==> final(other)@.jobs[k].claim_owner is None && final(other)@.jobs[k].claim_kind is None
            && final(other)@.jobs[k].claim_expires_at is None && final(other)@.jobs[k].job
            == old(db)@.jobs[k].job,
        !r ==> final(db)@ == old(db)@ && final(other)@ == old(db)@,
{
    claims_are_told_apart(old(db)@, k, kind@);
}

/// The next job to prepare that is handed out waits for it, and is this process's then for five
/// minutes.
pub proof fn handed_out_jobs_are_claimed(db: &mut Database, now: i64, r: Option<Job>)
    requires
        call_ensures(Database::claim_next_prepare_job, (db, now), r),
        old(db)@.wf(),
        now + 300_000 <= i64::MAX,
    ensures
        old(db)@.hold is Some && old(db)@.hold->Some_0.expires_at > now ==> r is None,
        r is None ==> final(db)@ == old(db)@,
        r is Some ==> exists|k: int|
            0 <= k < old(db)@.jobs.len() && (#[trigger] old(db)@.jobs[k]).waits_in(
                Line::Claimable,
                now,
            ) && r->Some_0@.id == old(db)@.jobs[k].job.id && r->Some_0@.status
                == JobStatus::Inspecting && final(db)@.jobs[k].claim_owner == Some(
                old(db)@.claim_owner,
            ) && final(db)@.jobs[k].claim_expires_at == Some((now + 300_000) as i64),
{
    if old(db)@.jobs.len() > 0 {
        lines_hand_out_in_order(old(db)@, Line::Claimable, now, 0);
    }
    if old(db)@.first_in(Line::Claimable, now) is Some {
        let k = old(db)@.first_in(Line::Claimable, now)->Some_0;
        picked_means(old(db)@.line_keys(Line::Claimable, now));
        assert(old(db)@.jobs[k].waits_in(Line::Claimable, now));
    }
}

} // verus!
