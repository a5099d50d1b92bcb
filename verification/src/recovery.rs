//! Lists of jobs, and taking up again what a process left behind.
use vstd::prelude::*;

use crate::fault::DbError;
use crate::model::JobStatus;
use crate::order::{arrange, arranged, places, Key};
use crate::queue::{job_of, Line, SUBTITLE_CLAIM_KIND, UNCERTAIN_UPLOAD_RECOVERY_ERROR};
use crate::store::{
    blocks, Database, DbModel, Job, JobModel, JobRow, RowModel, StageModel, SubtitleModel,
    SubtitleState, UploadModel, UploadState,
};
use crate::text::{same_optional, same_text};

verus! {

/// The jobs as they are seen from outside.
pub open spec fn job_views(v: Seq<Job>) -> Seq<JobModel> {
    v.map_values(|j: Job| j@)
}

/// The first `n` of a list, or all.
pub open spec fn at_most<A>(s: Seq<A>, n: int) -> Seq<A> {
    if n <= s.len() {
        s.take(n)
    } else {
        s
    }
}

/// Whether a result is the jobs at the given places in order, or the error of the first that
/// cannot be read.
pub open spec fn listed(r: Result<Vec<Job>, DbError>, db: DbModel, order: Seq<int>) -> bool {
    match r {
        Ok(v) => {
            &&& v@.len() == order.len()
            &&& forall|i: int|
                0 <= i < order.len() ==> job_of(db.jobs[#[trigger] order[i]]) == Ok::<
                    JobModel,
                    DbError,
                >(v@[i]@)
        },
        Err(e) => exists|i: int|
            {
                &&& 0 <= i < order.len()
                &&& job_of(db.jobs[#[trigger] order[i]]) == Err::<JobModel, DbError>(e)
                &&& forall|j: int| 0 <= j < i ==> job_of(db.jobs[#[trigger] order[j]]) is Ok
            },
    }
}

impl RowModel {
    /// Whether the job was published and a subtitle can be added to it.
    pub open spec fn takes_subtitle(self, now: i64) -> bool {
        &&& self.published()
        &&& self.is(JobStatus::Completed) || self.is(JobStatus::UploadedOriginalPendingSubtitle)
        &&& self.claim_free(now)
    }

    /// Whether the job is being prepared, in today's or older words.
    pub open spec fn in_preparation(self) -> bool {
        self.legacy is Some || self.is(JobStatus::Inspecting) || self.is(JobStatus::Processing)
    }

    /// What is made of a row whose worker is gone: a preparation starts again, a claim of a subtitle
    /// is given back, and the outcome of a submission is in doubt.
    pub open spec fn recovered(self, now: i64) -> RowModel {
        if !self.lease_over(now) {
            self
        } else if self.in_preparation() {
            RowModel {
                retry_at: None,
                ..self.moved(JobStatus::Queued, Some("领取租约过期后自动恢复"@), now).released()
            }
        } else if self.is(JobStatus::Uploading) {
            self.moved(JobStatus::UploadUncertain, Some(UNCERTAIN_UPLOAD_RECOVERY_ERROR@), now).released()
        } else if (self.is(JobStatus::Completed) || self.is(
            JobStatus::UploadedOriginalPendingSubtitle,
        )) && self.claim_kind == Some(SUBTITLE_CLAIM_KIND@) {
            RowModel { updated_at: now, ..self.released() }
        } else {
            self
        }
    }

    /// Whether the row counts as taken up again.
    pub open spec fn counts_as_recovered(self, now: i64) -> bool {
        self.lease_over(now) && (self.in_preparation() || self.is(JobStatus::Uploading))
    }
}

/// What a row is asked for when its attempts and runs are looked through.
#[derive(Debug, Clone, Copy, PartialEq, Eq, Structural)]
pub enum Left {
    /// Its worker for a subtitle is gone.
    Subtitle,
    /// Its worker for a submission is gone.
    Upload,
    /// It is held.
    Leased,
}

impl RowModel {
    /// Whether the row is in such a state.
    pub open spec fn left(self, what: Left, now: i64) -> bool {
        match what {
            Left::Subtitle => self.claim_kind == Some(SUBTITLE_CLAIM_KIND@) && self.lease_over(now)
                && !self.in_preparation(),
            Left::Upload => self.is(JobStatus::Uploading) && self.lease_over(now),
            Left::Leased => !self.lease_over(now),
        }
    }
}

impl DbModel {
    /// Whether a job of that name is in such a state.
    pub open spec fn some_left(self, id: Seq<char>, what: Left, now: i64) -> bool {
        exists|k: int|
            0 <= k < self.jobs.len() && (#[trigger] self.jobs[k]).job.id == id && self.jobs[k].left(
                what,
                now,
            )
    }

    /// What is made of a subtitle attempt.
    pub open spec fn recovered_subtitle(self, a: SubtitleModel, now: i64) -> SubtitleModel {
        if a.status == SubtitleState::Started && self.some_left(a.job_id, Left::Subtitle, now) {
            SubtitleModel {
                status: SubtitleState::Uncertain,
                detail: if a.detail is Some {
                    a.detail
                } else {
                    Some("服务重启时字幕提交结果不确定"@)
                },
                finished_at: Some(now),
                ..a
            }
        } else {
            a
        }
    }

    /// What is made of a submission attempt.
    pub open spec fn recovered_upload(self, a: UploadModel, now: i64) -> UploadModel {
        if a.status == UploadState::Running && self.some_left(a.job_id, Left::Upload, now) {
            UploadModel {
                status: UploadState::Uncertain,
                detail: Some(UNCERTAIN_UPLOAD_RECOVERY_ERROR@),
                finished_at: Some(now),
                ..a
            }
        } else {
            a
        }
    }

    /// What is made of a run of a stage.
    pub open spec fn recovered_stage(self, s: StageModel, now: i64) -> StageModel {
        if s.status == "running"@ && !self.some_left(s.job_id, Left::Leased, now) {
            StageModel {
                status: "failed"@,
                finished_at: Some(now),
                duration_ms: if s.duration_ms is Some {
                    s.duration_ms
                } else {
                    Some(time_between(s.started_at, now) as i64)
                },
                detail: if s.detail is Some {
                    s.detail
                } else {
                    Some("服务重启中断阶段"@)
                },
                ..s
            }
        } else {
            s
        }
    }

    /// The tables after taking up what was left behind.
    pub open spec fn recovered(self, now: i64) -> DbModel {
        DbModel {
            jobs: self.jobs.map_values(|r: RowModel| r.recovered(now)),
            subtitles: self.subtitles.map_values(
                |a: SubtitleModel| self.recovered_subtitle(a, now),
            ),
            uploads: self.uploads.map_values(|a: UploadModel| self.recovered_upload(a, now)),
            stages: self.stages.map_values(|s: StageModel| self.recovered_stage(s, now)),
            ..self
        }
    }
}

/// How long something took that started at one time and ended at another, as far as it can be
/// counted.
pub open spec fn time_between(from: i64, to: i64) -> int {
    if to <= from {
        0
    } else if to - from > i64::MAX {
        i64::MAX as int
    } else {
        to - from
    }
}

fn millis_between(from: i64, to: i64) -> (r: i64)
    ensures
        r == time_between(from, to),
{
    let d: i128 = (to as i128) - (from as i128);
    if d <= 0 {
        0
    } else if d > i64::MAX as i128 {
        i64::MAX
    } else {
        d as i64
    }
}

/// How many of the first `n` rows are taken up again.
pub open spec fn recovered_count(rows: Seq<RowModel>, now: i64, n: int) -> int
    decreases n,
{
    if n <= 0 {
        0
    } else {
        recovered_count(rows, now, n - 1) + if rows[n - 1].counts_as_recovered(now) {
            1int
        } else {
            0int
        }
    }
}

/// Taking up what was left behind keeps the tables sound.
pub proof fn recovery_keeps_wf(db: DbModel, now: i64)
    requires
        db.wf(),
    ensures
        db.recovered(now).wf(),
{
    let after = db.recovered(now);
    assert forall|i: int, j: int| 0 <= i < j < after.jobs.len() implies {
        &&& (#[trigger] after.jobs[i]).job.id != (#[trigger] after.jobs[j]).job.id
        &&& after.jobs[i].job.video_id != after.jobs[j].job.video_id
        &&& after.jobs[i].job.bvid is Some ==> after.jobs[i].job.bvid != after.jobs[j].job.bvid
    } by {
        let a = db.jobs[i];
        let b = db.jobs[j];
        assert(after.jobs[i] == a.recovered(now) && after.jobs[j] == b.recovered(now));
    }
    assert forall|i: int, j: int|
        0 <= i < j < after.subtitles.len() && (#[trigger] after.subtitles[i]).job_id == (
        #[trigger] after.subtitles[j]).job_id implies !(blocks(after.subtitles[i].status) && blocks(
        after.subtitles[j].status,
    )) by {
        let a = db.subtitles[i];
        let b = db.subtitles[j];
        assert(after.subtitles[i] == db.recovered_subtitle(a, now));
        assert(after.subtitles[j] == db.recovered_subtitle(b, now));
    }
    assert forall|i: int, j: int| 0 <= i < j < after.stages.len() implies (
    #[trigger] after.stages[i]).id != (#[trigger] after.stages[j]).id by {
        let a = db.stages[i];
        let b = db.stages[j];
        assert(after.stages[i] == db.recovered_stage(a, now));
        assert(after.stages[j] == db.recovered_stage(b, now));
    }
    assert forall|i: int| 0 <= i < after.stages.len() implies (#[trigger] after.stages[i]).id
        <= after.stage_seq by {
        let a = db.stages[i];
        assert(after.stages[i] == db.recovered_stage(a, now));
    }
}

/// A job that is held is left alone, and so are its attempts.
pub proof fn held_jobs_are_left_alone(db: DbModel, now: i64, k: int)
    requires
        db.wf(),
        0 <= k < db.jobs.len(),
        !db.jobs[k].lease_over(now),
    ensures
        db.recovered(now).jobs[k] == db.jobs[k],
        forall|i: int|
            0 <= i < db.uploads.len() && db.uploads[i].job_id == db.jobs[k].job.id
                ==> db.recovered(now).uploads[i] == #[trigger] db.uploads[i],
        forall|i: int|
            0 <= i < db.subtitles.len() && db.subtitles[i].job_id == db.jobs[k].job.id
                ==> db.recovered(now).subtitles[i] == #[trigger] db.subtitles[i],
        forall|i: int|
            0 <= i < db.stages.len() && db.stages[i].job_id == db.jobs[k].job.id
                ==> db.recovered(now).stages[i] == #[trigger] db.stages[i],
{
    let id = db.jobs[k].job.id;
    assert forall|what: Left| #![trigger db.some_left(id, what, now)] db.some_left(id, what, now)
        == (what == Left::Leased) by {
        if db.some_left(id, what, now) {
            let j = choose|j: int|
                0 <= j < db.jobs.len() && (#[trigger] db.jobs[j]).job.id == id && db.jobs[j].left(
                    what,
                    now,
                );
            if j != k {
                let a = db.jobs[k];
            }
        }
        assert(db.jobs[k].left(Left::Leased, now));
    }
    assert forall|i: int| 0 <= i < db.uploads.len() && db.uploads[i].job_id == id implies db.recovered(
        now,
    ).uploads[i] == #[trigger] db.uploads[i] by {
        assert(!db.some_left(id, Left::Upload, now));
    }
    assert forall|i: int|
        0 <= i < db.subtitles.len() && db.subtitles[i].job_id == id implies db.recovered(
        now,
    ).subtitles[i] == #[trigger] db.subtitles[i] by {
        assert(!db.some_left(id, Left::Subtitle, now));
    }
    assert forall|i: int| 0 <= i < db.stages.len() && db.stages[i].job_id == id implies db.recovered(
        now,
    ).stages[i] == #[trigger] db.stages[i] by {
        assert(db.some_left(id, Left::Leased, now));
    }
}

/// A submission that was under way when its worker went is in doubt afterwards, never waiting to be
/// made again.
pub proof fn lost_submission_is_in_doubt(db: DbModel, now: i64, k: int)
    requires
        0 <= k < db.jobs.len(),
        db.jobs[k].is(JobStatus::Uploading),
        db.jobs[k].lease_over(now),
    ensures
        db.recovered(now).jobs[k].is(JobStatus::UploadUncertain),
        forall|later: i64|
            !(#[trigger] db.recovered(now).jobs[k].waits_in(Line::ReadyToUpload, later)),
{
}

/// Taking up twice at the same time changes nothing more of the jobs.
pub proof fn recovery_is_idempotent(row: RowModel, now: i64)
    ensures
        row.recovered(now).recovered(now) == row.recovered(now),
{
}

impl JobRow {
    fn in_preparation(&self) -> (r: bool)
        ensures
            r == self@.in_preparation(),
    {
        self.legacy.is_some() || self.is(JobStatus::Inspecting) || self.is(JobStatus::Processing)
    }

    fn left(&self, what: Left, now: i64) -> (r: bool)
        ensures
            r == self@.left(what, now),
    {
        match what {
            Left::Subtitle => same_optional(&self.claim_kind, SUBTITLE_CLAIM_KIND)
                && self.lease_over(now) && !self.in_preparation(),
            Left::Upload => self.is(JobStatus::Uploading) && self.lease_over(now),
            Left::Leased => !self.lease_over(now),
        }
    }

    fn recover(&mut self, now: i64) -> (r: bool)
        ensures
            final(self)@ == old(self)@.recovered(now),
            r == old(self)@.counts_as_recovered(now),
    {
        if !self.lease_over(now) {
            false
        } else if self.in_preparation() {
            self.move_to(JobStatus::Queued, Some("领取租约过期后自动恢复"), now);
            self.retry_at = None;
            self.release();
            true
        } else if self.is(JobStatus::Uploading) {
            self.move_to(JobStatus::UploadUncertain, Some(UNCERTAIN_UPLOAD_RECOVERY_ERROR), now);
            self.release();
            true
        } else if (self.is(JobStatus::Completed) || self.is(
            JobStatus::UploadedOriginalPendingSubtitle,
        )) && same_optional(&self.claim_kind, SUBTITLE_CLAIM_KIND) {
            self.release();
            self.updated_at = now;
            false
        } else {
            false
        }
    }
}

impl Database {
    fn is_some_left(&self, id: &str, what: Left, now: i64) -> (r: bool)
        ensures
            r == self@.some_left(id@, what, now),
    {
        let mut i: usize = 0;
        while i < self.jobs.len()
            invariant
                0 <= i <= self.jobs@.len(),
                forall|k: int|
                    0 <= k < i ==> !((#[trigger] self@.jobs[k]).job.id == id@ && self@.jobs[k].left(
                        what,
                        now,
                    )),
            decreases self.jobs@.len() - i,
        {
            if same_text(self.jobs[i].job.id.as_str(), id) && self.jobs[i].left(what, now) {
                proof {
                    let row = self@.jobs[i as int];
                    assert(row.job.id == id@ && row.left(what, now));
                }
                return true;
            }
            i = i + 1;
        }
        false
    }

    fn recover_subtitles(&mut self, now: i64)
        ensures
            final(self)@ == (DbModel {
                subtitles: old(self)@.subtitles.map_values(
                    |a: SubtitleModel| old(self)@.recovered_subtitle(a, now),
                ),
                ..old(self)@
            }),
    {
        let ghost before = self@;
        let mut i: usize = 0;
        while i < self.subtitles.len()
            invariant
                before == old(self)@,
                self@ == (DbModel { subtitles: self@.subtitles, ..before }),
                self.subtitles@.len() == before.subtitles.len(),
                0 <= i <= self.subtitles@.len(),
                forall|j: int|
                    0 <= j < self.subtitles@.len() ==> (#[trigger] self@.subtitles[j]) == if j < i {
                        before.recovered_subtitle(before.subtitles[j], now)
                    } else {
                        before.subtitles[j]
                    },
            decreases self.subtitles@.len() - i,
        {
            let ghost rows = self@.subtitles;
            proof {
                assert(rows[i as int] == self.subtitles@[i as int]@);
                assert(self@.jobs == before.jobs);
                let id = rows[i as int].job_id;
                assert(self@.some_left(id, Left::Subtitle, now) == before.some_left(id, Left::Subtitle, now));
            }
            if self.subtitles[i].status == SubtitleState::Started && self.is_some_left(
                self.subtitles[i].job_id.as_str(),
                Left::Subtitle,
                now,
            ) {
                self.subtitles[i].status = SubtitleState::Uncertain;
                if self.subtitles[i].detail.is_none() {
                    self.subtitles[i].detail = Some("服务重启时字幕提交结果不确定".to_owned());
                }
                self.subtitles[i].finished_at = Some(now);
            }
            proof {
                assert(self@.subtitles =~= rows.update(
                    i as int,
                    before.recovered_subtitle(before.subtitles[i as int], now),
                ));
            }
            i = i + 1;
        }
    }

    fn recover_uploads(&mut self, now: i64)
        ensures
            final(self)@ == (DbModel {
                uploads: old(self)@.uploads.map_values(
                    |a: UploadModel| old(self)@.recovered_upload(a, now),
                ),
                ..old(self)@
            }),
    {
        let ghost before = self@;
        let mut i: usize = 0;
        while i < self.uploads.len()
            invariant
                before == old(self)@,
                self@ == (DbModel { uploads: self@.uploads, ..before }),
                self.uploads@.len() == before.uploads.len(),
                0 <= i <= self.uploads@.len(),
                forall|j: int|
                    0 <= j < self.uploads@.len() ==> (#[trigger] self@.uploads[j]) == if j < i {
                        before.recovered_upload(before.uploads[j], now)
                    } else {
                        before.uploads[j]
                    },
            decreases self.uploads@.len() - i,
        {
            let ghost rows = self@.uploads;
            proof {
                assert(rows[i as int] == self.uploads@[i as int]@);
                assert(self@.jobs == before.jobs);
                let id = rows[i as int].job_id;
                assert(self@.some_left(id, Left::Upload, now) == before.some_left(id, Left::Upload, now));
            }
            if self.uploads[i].status == UploadState::Running && self.is_some_left(
                self.uploads[i].job_id.as_str(),
                Left::Upload,
                now,
            ) {
                self.uploads[i].status = UploadState::Uncertain;
                self.uploads[i].detail = Some(UNCERTAIN_UPLOAD_RECOVERY_ERROR.to_owned());
                self.uploads[i].finished_at = Some(now);
            }
            proof {
                assert(self@.uploads =~= rows.update(
                    i as int,
                    before.recovered_upload(before.uploads[i as int], now),
                ));
            }
            i = i + 1;
        }
    }

    fn recover_stages(&mut self, now: i64)
        ensures
            final(self)@ == (DbModel {
                stages: old(self)@.stages.map_values(
                    |s: StageModel| old(self)@.recovered_stage(s, now),
                ),
                ..old(self)@
            }),
    {
        let ghost before = self@;
        let mut i: usize = 0;
        while i < self.stages.len()
            invariant
                before == old(self)@,
                self@ == (DbModel { stages: self@.stages, ..before }),
                self.stages@.len() == before.stages.len(),
                0 <= i <= self.stages@.len(),
                forall|j: int|
                    0 <= j < self.stages@.len() ==> (#[trigger] self@.stages[j]) == if j < i {
                        before.recovered_stage(before.stages[j], now)
                    } else {
                        before.stages[j]
                    },
            decreases self.stages@.len() - i,
        {
            let ghost rows = self@.stages;
            proof {
                assert(rows[i as int] == self.stages@[i as int]@);
                assert(self@.jobs == before.jobs);
                let id = rows[i as int].job_id;
                assert(self@.some_left(id, Left::Leased, now) == before.some_left(id, Left::Leased, now));
            }
            if same_text(self.stages[i].status.as_str(), "running") && !self.is_some_left(
                self.stages[i].job_id.as_str(),
                Left::Leased,
                now,
            ) {
                self.stages[i].status = "failed".to_owned();
                self.stages[i].finished_at = Some(now);
                if self.stages[i].duration_ms.is_none() {
                    self.stages[i].duration_ms = Some(
                        millis_between(self.stages[i].started_at, now),
                    );
                }
                if self.stages[i].detail.is_none() {
                    self.stages[i].detail = Some("服务重启中断阶段".to_owned());
                }
            }
            proof {
                assert(self@.stages =~= rows.update(
                    i as int,
                    before.recovered_stage(before.stages[i as int], now),
                ));
            }
            i = i + 1;
        }
    }

    /// Takes up what a process left behind whose claims are over: preparations start again,
    /// submissions are in doubt, claims of subtitles are given back, and the attempts and runs that
    /// were under way are closed. Tells how many jobs were taken up.
    pub fn recover_incomplete_jobs(&mut self, now: i64) -> (r: usize)
        ensures
            final(self)@ == old(self)@.recovered(now),
            r == recovered_count(old(self)@.jobs, now, old(self)@.jobs.len() as int),
            old(self)@.wf() ==> final(self)@.wf(),
    {
        let ghost before = self@;
        self.recover_subtitles(now);
        let ghost first = self@;
        self.recover_uploads(now);
        let ghost second = self@;
        self.recover_stages(now);
        let ghost third = self@;
        proof {
            assert forall|id: Seq<char>, what: Left|
                #![trigger before.some_left(id, what, now)]
                first.some_left(id, what, now) == before.some_left(id, what, now)
                    && second.some_left(id, what, now) == before.some_left(id, what, now) by {
                assert(first.jobs == before.jobs && second.jobs == before.jobs);
            }
            assert forall|a: UploadModel| first.recovered_upload(a, now)
                == #[trigger] before.recovered_upload(a, now) by {
                assert(before.some_left(a.job_id, Left::Upload, now) == first.some_left(
                    a.job_id,
                    Left::Upload,
                    now,
                ));
            }
            assert forall|s: StageModel| second.recovered_stage(s, now)
                == #[trigger] before.recovered_stage(s, now) by {
                assert(before.some_left(s.job_id, Left::Leased, now) == second.some_left(
                    s.job_id,
                    Left::Leased,
                    now,
                ));
            }
            assert(third.uploads =~= before.recovered(now).uploads);
            assert(third.stages =~= before.recovered(now).stages);
            assert(third.subtitles =~= before.recovered(now).subtitles);
            assert(third.jobs == before.jobs);
        }
        let mut count: usize = 0;
        let mut i: usize = 0;
        while i < self.jobs.len()
            invariant
                third.jobs == before.jobs,
                self@ == (DbModel { jobs: self@.jobs, ..third }),
                self.jobs@.len() == before.jobs.len(),
                0 <= i <= self.jobs@.len(),
                count <= i,
                count == recovered_count(before.jobs, now, i as int),
                forall|j: int|
                    0 <= j < self.jobs@.len() ==> (#[trigger] self@.jobs[j]) == if j < i {
                        before.jobs[j].recovered(now)
                    } else {
                        before.jobs[j]
                    },
            decreases self.jobs@.len() - i,
        {
            let ghost rows = self@.jobs;
            proof {
                assert(rows[i as int] == self.jobs@[i as int]@);
            }
            if self.jobs[i].recover(now) {
                count = count + 1;
            }
            proof {
                assert(self@.jobs =~= rows.update(i as int, before.jobs[i as int].recovered(now)));
            }
            i = i + 1;
        }
        proof {
            assert(self@.jobs =~= before.recovered(now).jobs);
            assert(self@ =~= before.recovered(now));
            if before.wf() {
                recovery_keeps_wf(before, now);
            }
        }
        count
    }

    fn read_all(&self, order: &Vec<usize>, n: usize) -> (r: Result<Vec<Job>, DbError>)
        requires
            n <= order@.len(),
            forall|i: int| 0 <= i < order@.len() ==> (#[trigger] order@[i]) < self.jobs@.len(),
        ensures
            listed(r, self@, places(order@).take(n as int)),
    {
        let ghost want = places(order@).take(n as int);
        let mut out: Vec<Job> = Vec::new();
        let mut i: usize = 0;
        while i < n
            invariant
                n <= order@.len(),
                want == places(order@).take(n as int),
                forall|j: int| 0 <= j < order@.len() ==> (#[trigger] order@[j]) < self.jobs@.len(),
                0 <= i <= n,
                out@.len() == i,
                forall|j: int|
                    0 <= j < i ==> job_of(self@.jobs[#[trigger] want[j]]) == Ok::<JobModel, DbError>(
                        out@[j]@,
                    ),
            decreases n - i,
        {
            proof {
                assert(want[i as int] == order@[i as int]);
                assert(self@.jobs[want[i as int]] == self.jobs@[want[i as int]]@);
            }
            match self.jobs[order[i]].read() {
                Ok(job) => {
                    out.push(job);
                },
                Err(e) => {
                    return Err(e);
                },
            }
            i = i + 1;
        }
        Ok(out)
    }

    /// The jobs, those found last first, and no more than `limit`.
    pub fn list_jobs(&self, limit: usize) -> (r: Result<Vec<Job>, DbError>)
        ensures
            exists|order: Seq<int>|
                #![trigger arranged(latest_first(self@), order)]
                arranged(latest_first(self@), order) && listed(
                    r,
                    self@,
                    at_most(order, limit as int),
                ),
    {
        let mut keys: Vec<Option<Key>> = Vec::new();
        let mut i: usize = 0;
        while i < self.jobs.len()
            invariant
                0 <= i <= self.jobs@.len(),
                keys@.len() == i,
                forall|j: int| 0 <= j < i ==> keys@[j] == latest_first(self@)[j],
            decreases self.jobs@.len() - i,
        {
            keys.push(Some((-1 - self.jobs[i].job.discovered_at, 0, 0)));
            i = i + 1;
        }
        proof {
            assert(keys@ =~= latest_first(self@));
        }
        let order = arrange(&keys);
        let n: usize = if limit <= order.len() {
            limit
        } else {
            order.len()
        };
        proof {
            assert(places(order@).take(n as int) =~= at_most(places(order@), limit as int));
        }
        self.read_all(&order, n)
    }

    /// The published jobs that nobody holds and that a subtitle can be added to, those found first
    /// first.
    pub fn jobs_awaiting_subtitle(&self, now: i64) -> (r: Vec<Job>)
        ensures
            exists|order: Seq<int>|
                #![trigger arranged(awaiting_subtitle(self@, now), order)]
                arranged(awaiting_subtitle(self@, now), order) && job_views(r@)
                    == order.map_values(|k: int| self@.jobs[k].job),
    {
        let mut keys: Vec<Option<Key>> = Vec::new();
        let mut i: usize = 0;
        while i < self.jobs.len()
            invariant
                0 <= i <= self.jobs@.len(),
                keys@.len() == i,
                forall|j: int| 0 <= j < i ==> keys@[j] == awaiting_subtitle(self@, now)[j],
            decreases self.jobs@.len() - i,
        {
            let row = &self.jobs[i];
            if row.published() && (row.is(JobStatus::Completed) || row.is(
                JobStatus::UploadedOriginalPendingSubtitle,
            )) && row.claim_free(now) {
                keys.push(Some((row.job.discovered_at, 0, 0)));
            } else {
                keys.push(None);
            }
            i = i + 1;
        }
        proof {
            assert(keys@ =~= awaiting_subtitle(self@, now));
        }
        let order = arrange(&keys);
        let ghost want = places(order@).map_values(|k: int| self@.jobs[k].job);
        let mut out: Vec<Job> = Vec::new();
        let mut i: usize = 0;
        while i < order.len()
            invariant
                want == places(order@).map_values(|k: int| self@.jobs[k].job),
                forall|j: int| 0 <= j < order@.len() ==> (#[trigger] order@[j]) < self.jobs@.len(),
                0 <= i <= order@.len(),
                job_views(out@) == want.take(i as int),
            decreases order@.len() - i,
        {
            let ghost before = out@;
            out.push(self.jobs[order[i]].job.copied());
            proof {
                assert(want[i as int] == self@.jobs[order@[i as int] as int].job);
                assert(self@.jobs[order@[i as int] as int] == self.jobs@[order@[i as int] as int]@);
                assert(job_views(out@) =~= job_views(before).push(want[i as int]));
                assert(job_views(out@) =~= want.take(i + 1));
            }
            i = i + 1;
        }
        proof {
            assert(want.take(want.len() as int) =~= want);
        }
        out
    }

    /// The next job that waits for its preparation, whoever may hold it.
    pub fn next_queued_job(&self, now: i64) -> (r: Option<Job>)
        ensures
            match self@.first_in(Line::Queued, now) {
                Some(k) => r matches Some(j) && j@ == self@.jobs[k].job,
                None => r is None,
            },
    {
        match self.pick_in(Line::Queued, now) {
            Some(k) => Some(self.jobs[k].job.copied()),
            None => None,
        }
    }

    /// The next job that waits for its submission.
    pub fn next_ready_to_upload_job(&self, now: i64) -> (r: Option<Job>)
        ensures
            match self@.first_in(Line::ReadyToUpload, now) {
                Some(k) => r matches Some(j) && j@ == self@.jobs[k].job,
                None => r is None,
            },
    {
        match self.pick_in(Line::ReadyToUpload, now) {
            Some(k) => Some(self.jobs[k].job.copied()),
            None => None,
        }
    }
}

/// The keys of a list of all jobs, those found last first.
pub open spec fn latest_first(db: DbModel) -> Seq<Option<Key>> {
    db.jobs.map_values(|r: RowModel| Some(((-1 - r.job.discovered_at) as i64, 0i64, 0i64)))
}

/// The keys of a list of the jobs that a subtitle can be added to, those found first first.
pub open spec fn awaiting_subtitle(db: DbModel, now: i64) -> Seq<Option<Key>> {
    db.jobs.map_values(
        |r: RowModel|
            if r.takes_subtitle(now) {
                Some((r.job.discovered_at, 0i64, 0i64))
            } else {
                None
            },
    )
}

// ---------------------------------------------------------------------------------------------
// What is taken up again, and how
// ---------------------------------------------------------------------------------------------

/// A job whose worker is gone: one in preparation starts anew; one that was being submitted is in
/// doubt; one whose subtitle was being added is only given back; every other stays as it is.
pub proof fn recovery_goes_by_the_status(row: RowModel, now: i64)
    ensures
        ({
            let after = row.recovered(now);
            let over = row.claim_expires_at is None || row.claim_expires_at->Some_0 <= now;
            let s = row.job.status;
            let preparing = row.legacy is Some || s == JobStatus::Inspecting || s
                == JobStatus::Processing;
            let submitting = row.legacy is None && s == JobStatus::Uploading;
            let subtitling = row.legacy is None && (s == JobStatus::Completed || s
                == JobStatus::UploadedOriginalPendingSubtitle) && row.claim_kind == Some("subtitle"@);
            &&& !over ==> after == row
            &&& over && preparing ==> {
                &&& after.job.status == JobStatus::Queued && after.legacy is None
                &&& after.claim_kind is None && after.claim_owner is None
                &&& after.claim_expires_at is None && after.retry_at is None
                &&& after.job.error is Some && after.updated_at == now
            }
            &&& over && submitting ==> {
                &&& after.job.status == JobStatus::UploadUncertain && after.legacy is None
                &&& after.claim_kind is None && after.claim_owner is None
                &&& after.claim_expires_at is None && after.updated_at == now
                &&& after.job.error == Some("服务重启时上传结果不确定，请确认 Bilibili 后再处理"@)
            }
            &&& over && subtitling ==> {
                &&& after.job == row.job && after.legacy is None
                &&& after.claim_kind is None && after.claim_owner is None
                &&& after.claim_expires_at is None && after.updated_at == now
            }
            &&& over && !preparing && !submitting && !subtitling ==> after == row
            &&& after.job.id == row.job.id && after.job.video_id == row.job.video_id
            &&& after.job.attempt == row.job.attempt && after.job.bvid == row.job.bvid
            &&& after.prepared_upload == row.prepared_upload
            &&& row.counts_as_recovered(now) <==> over && (preparing || submitting)
        }),
{
}

/// The count tells how many jobs start anew or are in doubt: it grows by one with each, and by
/// nothing else.
pub proof fn recovered_jobs_are_counted(rows: Seq<RowModel>, now: i64, n: int)
    requires
        0 <= n < rows.len(),
    ensures
        recovered_count(rows, now, 0) == 0,
        recovered_count(rows, now, n + 1) - recovered_count(rows, now, n) == if rows[n].recovered(
            now,
        ).job.status != rows[n].job.status || (rows[n].legacy is Some && rows[n].recovered(
            now,
        ).legacy is None) {
            1int
        } else {
            0int
        },
{
}

/// A submission whose worker is gone is in doubt, and so is a subtitle's; a stage of a job that
/// nobody holds has failed, after the time it took so far. What has ended stays as it ended.
pub proof fn open_work_ends_in_doubt(db: DbModel, now: i64, k: int, i: int)
    requires
        db.wf(),
        0 <= k < db.jobs.len(),
        db.jobs[k].claim_expires_at is None || db.jobs[k].claim_expires_at->Some_0 <= now,
    ensures
        ({
            let after = db.recovered(now);
            let row = db.jobs[k];
            &&& after.uploads.len() == db.uploads.len() && after.stages.len() == db.stages.len()
            &&& after.subtitles.len() == db.subtitles.len()
            &&& 0 <= i < db.uploads.len() && db.uploads[i].job_id == row.job.id ==> {
                let a = db.uploads[i];
                let b = after.uploads[i];
                if a.status == UploadState::Running && row.legacy is None && row.job.status
                    == JobStatus::Uploading {
                    b.status == UploadState::Uncertain && b.finished_at == Some(now) && b.detail
                        == Some("服务重启时上传结果不确定，请确认 Bilibili 后再处理"@) && b.id == a.id
                        && b.started_at == a.started_at
                } else {
                    b == a
                }
            }
            &&& 0 <= i < db.subtitles.len() && db.subtitles[i].job_id == row.job.id ==> {
                let a = db.subtitles[i];
                let b = after.subtitles[i];
                if a.status == SubtitleState::Started && row.claim_kind == Some("subtitle"@)
                    && row.legacy is None && row.job.status != JobStatus::Inspecting
                    && row.job.status != JobStatus::Processing {
                    b.status == SubtitleState::Uncertain && b.finished_at == Some(now) && b.detail
                        is Some && (a.detail is Some ==> b.detail == a.detail) && b.id == a.id
                } else {
                    b == a
                }
            }
            &&& 0 <= i < db.stages.len() && db.stages[i].job_id == row.job.id ==> {
                let a = db.stages[i];
                let b = after.stages[i];
                if a.status == "running"@ {
                    &&& b.status == "failed"@ && b.finished_at == Some(now)
                    &&& b.stage == a.stage && b.id == a.id && b.started_at == a.started_at
                    &&& a.duration_ms is Some ==> b.duration_ms == a.duration_ms
                    &&& a.duration_ms is None && 0 <= now - a.started_at <= i64::MAX
                        ==> b.duration_ms == Some((now - a.started_at) as i64)
                    &&& a.detail is Some ==> b.detail == a.detail
                } else {
                    b == a
                }
            }
        }),
{
    let id = db.jobs[k].job.id;
    assert forall|j: int| 0 <= j < db.jobs.len() && (#[trigger] db.jobs[j]).job.id == id implies j
        == k by {}
    if db.jobs[k].left(Left::Subtitle, now) {
        assert(db.some_left(id, Left::Subtitle, now));
    }
    if db.jobs[k].left(Left::Upload, now) {
        assert(db.some_left(id, Left::Upload, now));
    }
}

/// In the list of all jobs the one found last stands first; in the list of those without a subtitle
/// the one found first does.
pub proof fn lists_go_by_the_time_found(db: DbModel, now: i64, i: int, j: int)
    requires
        0 <= i < db.jobs.len(),
        0 <= j < db.jobs.len(),
    ensures
        latest_first(db).len() == db.jobs.len(),
        latest_first(db)[i] is Some,
        latest_first(db)[i]->Some_0.0 < latest_first(db)[j]->Some_0.0 <==> db.jobs[i].job.discovered_at
            > db.jobs[j].job.discovered_at,
        ({
            let row = db.jobs[i];
            awaiting_subtitle(db, now)[i] is Some <==> {
                &&& row.job.bvid is Some && row.job.bvid->Some_0.len() > 0
                &&& row.legacy is None
                &&& row.job.status == JobStatus::Completed || row.job.status
                    == JobStatus::UploadedOriginalPendingSubtitle
                &&& row.claim_owner is None || row.claim_expires_at is None
                    || row.claim_expires_at->Some_0 <= now
            }
        }),
        awaiting_subtitle(db, now)[i] is Some ==> awaiting_subtitle(db, now)[i]->Some_0.0
            == db.jobs[i].job.discovered_at,
{
}

/// A list is cut off behind so many, and not before.
pub proof fn lists_are_cut_at_the_end<A>(s: Seq<A>, n: int, i: int)
    requires
        0 <= n,
    ensures
        at_most(s, n).len() == if n <= s.len() { n } else { s.len() as int },
        0 <= i < at_most(s, n).len() ==> at_most(s, n)[i] == s[i],
{
}

/// A list of jobs holds just those at its places, in order.
pub proof fn lists_hold_their_jobs(r: Result<Vec<Job>, DbError>, db: DbModel, order: Seq<int>, i: int)
    requires
        listed(r, db, order),
        0 <= i < order.len(),
    ensures
        r is Ok ==> r->Ok_0@.len() == order.len() && db.jobs[order[i]].legacy is None
            && r->Ok_0@[i]@ == db.jobs[order[i]].job,
        (forall|j: int| 0 <= j < order.len() ==> db.jobs[#[trigger] order[j]].legacy is None) ==> r is Ok,
{
    if r is Ok {
        assert(job_of(db.jobs[order[i]]) is Ok);
    }
}

} // verus!
