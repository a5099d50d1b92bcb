//! Videos in front of the queue: what was found, what is put off, refused or let in.
use vstd::prelude::*;

use crate::fault::{refused, DbError};
use crate::model::{CandidateSource, ChannelPriority, GateState, JobStatus, TransferMode};
use crate::order::{arrange, arranged, places, Key};
use crate::queue::{fresh_id, str_view, NewJob};
use crate::recovery::at_most;
use crate::store::{
    candidate_update_keeps_wf, channel_update_keeps_wf, channels_and_candidates_are_found, is_first,
    only_what_is_there_is_found, place, place_is, place_is_none, place_means,
    preference_is_the_channels, same_place, CandidateModel, ChannelRowModel, Database, DbModel,
    JobModel, OverDurationModel, OverDurationVideo, RowModel, VideoCandidate,
};
use crate::text::{copy_optional, own_optional, same_text};

verus! {

/// What a candidate is made from.
pub struct NewVideoCandidate<'a> {
    pub video_id: &'a str,
    pub channel_id: Option<i64>,
    pub url: &'a str,
    pub title: Option<&'a str>,
    pub published_at: Option<i64>,
    pub source: CandidateSource,
}

/// A new candidate.
pub open spec fn new_candidate(c: NewVideoCandidate, now: i64) -> CandidateModel {
    CandidateModel {
        video_id: c.video_id@,
        channel_id: c.channel_id,
        url: c.url@,
        title: str_view(c.title),
        published_at: c.published_at,
        source: c.source,
        discovered_at: now,
        gate_state: GateState::Pending,
        gate_attempts: 0,
        next_gate_at: None,
        last_error: None,
        source_language: None,
        source_language_mismatch: false,
    }
}

/// What adding a candidate does: nothing where one of that video is there, an error where it names a
/// channel that is not, and otherwise it comes last.
pub open spec fn candidate_added(db: DbModel, c: NewVideoCandidate, now: i64) -> Result<
    Option<DbModel>,
    DbError,
> {
    if db.candidate_at(c.video_id@) is Some {
        Ok(None)
    } else if c.channel_id matches Some(id) && db.channel_at(id) is None {
        Err(DbError::ForeignKey)
    } else {
        Ok(Some(DbModel { candidates: db.candidates.push(new_candidate(c, now)), ..db }))
    }
}

/// Adding a candidate keeps the tables sound.
pub proof fn added_candidate_keeps_wf(db: DbModel, c: NewVideoCandidate, now: i64)
    requires
        db.wf(),
        candidate_added(db, c, now) matches Ok(Some(_)),
    ensures
        candidate_added(db, c, now)->Ok_0->Some_0.wf(),
{
    let after = candidate_added(db, c, now)->Ok_0->Some_0;
    let p = |r: CandidateModel| r.video_id == c.video_id@;
    place_means(db.candidates, p);
    assert forall|i: int, j: int| 0 <= i < j < after.candidates.len() implies (
    #[trigger] after.candidates[i]).video_id != (#[trigger] after.candidates[j]).video_id by {
        let a = db.candidates[i];
        if j < db.candidates.len() {
            let b = db.candidates[j];
        } else {
            assert(!p(db.candidates[i]));
        }
    }
}

/// The keys of the candidates that are due: those of preferred channels first, then those found
/// first.
pub open spec fn due_candidates(db: DbModel, now: i64) -> Seq<Option<Key>> {
    db.candidates.map_values(
        |c: CandidateModel|
            if c.gate_state == GateState::Pending || (c.gate_state == GateState::Deferred && (
            c.next_gate_at matches Some(t) && t <= now)) {
                Some(
                    (
                        if db.preferred(c.channel_id) {
                            0i64
                        } else {
                            1i64
                        },
                        c.discovered_at,
                        0i64,
                    ),
                )
            } else {
                None
            },
    )
}

/// Candidates as they are seen from outside.
pub open spec fn candidate_views(v: Seq<VideoCandidate>) -> Seq<CandidateModel> {
    v.map_values(|c: VideoCandidate| c@)
}

/// What a write to a candidate gives that counts another look at it: the row that `row` makes, or
/// an error where there is none or the looks cannot be counted.
pub open spec fn gate_write(
    before: DbModel,
    after: DbModel,
    r: Result<(), DbError>,
    video_id: Seq<char>,
    row: spec_fn(CandidateModel) -> CandidateModel,
) -> bool {
    match before.candidate_at(video_id) {
        None => r == refused::<()>(DbError::NoCandidate) && after == before,
        Some(k) => if before.candidates[k].gate_attempts == i64::MAX {
            r == refused::<()>(DbError::TooLarge) && after == before
        } else {
            r is Ok && after == before.with_candidate(
                k,
                row(
                    CandidateModel {
                        gate_attempts: (before.candidates[k].gate_attempts + 1) as i64,
                        ..before.candidates[k]
                    },
                ),
            )
        },
    }
}

proof fn candidate_step(before: DbModel, after: DbModel, k: int)
    requires
        0 <= k < before.candidates.len(),
        after == before.with_candidate(k, after.candidates[k]),
        after.candidates[k].video_id == before.candidates[k].video_id,
    ensures
        before.wf() ==> after.wf(),
{
    if before.wf() {
        candidate_update_keeps_wf(before, k, after.candidates[k]);
    }
}

/// How a candidate's video is carried over: as its channel says.
pub open spec fn mode_of(db: DbModel, channel_id: Option<i64>) -> Result<TransferMode, DbError> {
    match channel_id {
        None => Ok(TransferMode::Translated),
        Some(c) => match db.channel_at(c) {
            Some(k) => Ok(db.channels[k].channel.transfer_mode),
            None => Err(DbError::NoRow),
        },
    }
}

/// The first of two where it is there.
pub open spec fn or_else<A>(a: Option<A>, b: Option<A>) -> Option<A> {
    if a is Some {
        a
    } else {
        b
    }
}

/// The row of a job that a candidate becomes.
pub open spec fn promoted_row(
    id: Seq<char>,
    c: CandidateModel,
    title: Option<Seq<char>>,
    published_at: Option<i64>,
    mode: TransferMode,
    now: i64,
) -> RowModel {
    RowModel {
        job: JobModel {
            id,
            channel_id: c.channel_id,
            video_id: c.video_id,
            url: c.url,
            title: or_else(title, c.title),
            status: JobStatus::Queued,
            transfer_mode: mode,
            published_at: or_else(published_at, c.published_at),
            youtube_updated_at: None,
            discovered_at: now,
            is_short: false,
            duration_ms: None,
            width: None,
            height: None,
            bvid: None,
            provider: None,
            ai_model: None,
            thinking: None,
            attempt: 0,
            error: None,
            subtitle_attempt: 0,
        },
        legacy: None,
        retry_at: None,
        subtitle_retry_at: None,
        claim_kind: None,
        claim_owner: None,
        claim_expires_at: None,
        raw_video_path: None,
        rendered_path: None,
        subtitle_path: None,
        prepared_upload: None,
        source_metadata: None,
        created_at: now,
        updated_at: now,
    }
}

/// What letting a candidate in does: a job is made of it, unless there is one of its video or of the
/// given name, and the candidate is noted as let in. Whether a job was made comes with it.
pub open spec fn promoted(
    db: DbModel,
    id: Seq<char>,
    c: CandidateModel,
    title: Option<Seq<char>>,
    published_at: Option<i64>,
    now: i64,
) -> Result<(DbModel, bool), DbError> {
    match mode_of(db, c.channel_id) {
        Err(e) => Err(e),
        Ok(mode) => match db.candidate_at(c.video_id) {
            None => Err(DbError::NoCandidate),
            Some(k) => if db.candidates[k].gate_attempts == i64::MAX {
                Err(DbError::TooLarge)
            } else {
                let exists_already = db.job_at(id) is Some || db.video_at(c.video_id) is Some;
                let row = db.candidates[k];
                let next = db.with_candidate(
                    k,
                    CandidateModel {
                        title: or_else(title, row.title),
                        published_at: or_else(published_at, row.published_at),
                        gate_state: GateState::Promoted,
                        gate_attempts: (row.gate_attempts + 1) as i64,
                        next_gate_at: None,
                        last_error: None,
                        ..row
                    },
                );
                Ok(
                    (
                        if exists_already {
                            next
                        } else {
                            DbModel {
                                jobs: db.jobs.push(
                                    promoted_row(id, c, title, published_at, mode, now),
                                ),
                                ..next
                            }
                        },
                        !exists_already,
                    ),
                )
            },
        },
    }
}

impl DbModel {
    /// Where a video stands that was refused for its length.
    pub open spec fn over_duration_at(self, video_id: Seq<char>) -> Option<int> {
        place(self.over_duration, |r: OverDurationModel| r.video_id == video_id)
    }

    /// Whether a video is known to be too long for a limit: it was refused under one that was not
    /// stricter. Without a limit none is.
    pub open spec fn too_long(self, video_id: Seq<char>, limit_seconds: u64) -> bool {
        limit_seconds > 0 && (self.over_duration_at(video_id) matches Some(k) && limit_seconds
            <= self.over_duration[k].limit_seconds)
    }

    /// The tables with a video noted as too long for a limit.
    pub open spec fn with_too_long(
        self,
        video_id: Seq<char>,
        channel_id: Option<i64>,
        limit_seconds: u64,
        detail: Seq<char>,
        now: i64,
    ) -> DbModel {
        let row = OverDurationModel {
            video_id,
            channel_id,
            limit_seconds,
            detail: Some(detail),
            created_at: match self.over_duration_at(video_id) {
                Some(k) => self.over_duration[k].created_at,
                None => now,
            },
            updated_at: now,
        };
        DbModel {
            over_duration: match self.over_duration_at(video_id) {
                Some(k) => self.over_duration.update(k, row),
                None => self.over_duration.push(row),
            },
            ..self
        }
    }
}

/// A video noted as too long is known to be for that limit and all stricter ones, and for no
/// looser one; the tables stay sound.
pub proof fn too_long_is_remembered(
    db: DbModel,
    video_id: Seq<char>,
    channel_id: Option<i64>,
    limit_seconds: u64,
    detail: Seq<char>,
    now: i64,
    other_limit: u64,
)
    ensures
        db.with_too_long(video_id, channel_id, limit_seconds, detail, now).too_long(
            video_id,
            other_limit,
        ) <==> 0 < other_limit <= limit_seconds,
        db.wf() ==> db.with_too_long(video_id, channel_id, limit_seconds, detail, now).wf(),
{
    let after = db.with_too_long(video_id, channel_id, limit_seconds, detail, now);
    let p = |r: OverDurationModel| r.video_id == video_id;
    place_means(db.over_duration, p);
    let at = match db.over_duration_at(video_id) {
        Some(k) => k,
        None => db.over_duration.len() as int,
    };
    assert(is_first(after.over_duration, p, at)) by {
        assert forall|j: int| 0 <= j < at implies !p(#[trigger] after.over_duration[j]) by {
            assert(after.over_duration[j] == db.over_duration[j]);
        }
    }
    place_is(after.over_duration, p, at);
    if db.wf() {
        assert forall|i: int, j: int| 0 <= i < j < after.over_duration.len() implies (
        #[trigger] after.over_duration[i]).video_id != (
        #[trigger] after.over_duration[j]).video_id by {
            if i != at {
                assert(after.over_duration[i] == db.over_duration[i]);
            }
            if j != at {
                assert(after.over_duration[j] == db.over_duration[j]);
            }
        }
    }
}

impl Database {
    /// Adds a candidate. Whether it did; it does not where one of that video is there.
    pub fn insert_video_candidate(&mut self, candidate: &NewVideoCandidate, now: i64) -> (r: Result<
        bool,
        DbError,
    >)
        ensures
            match candidate_added(old(self)@, *candidate, now) {
                Err(e) => r == refused::<bool>(e) && final(self)@ == old(self)@,
                Ok(None) => r == Ok::<bool, DbError>(false) && final(self)@ == old(self)@,
                Ok(Some(after)) => r == Ok::<bool, DbError>(true) && final(self)@ == after,
            },
            old(self)@.wf() ==> final(self)@.wf(),
    {
        if self.find_candidate(candidate.video_id).is_some() {
            return Ok(false);
        }
        match candidate.channel_id {
            Some(c) => {
                if self.find_channel(c).is_none() {
                    return Err(DbError::ForeignKey);
                }
            },
            None => {},
        }
        proof {
            if self@.wf() {
                added_candidate_keeps_wf(self@, *candidate, now);
            }
        }
        let ghost before = self@;
        self.candidates.push(
            VideoCandidate {
                video_id: candidate.video_id.to_owned(),
                channel_id: candidate.channel_id,
                url: candidate.url.to_owned(),
                title: own_optional(candidate.title),
                published_at: candidate.published_at,
                source: candidate.source,
                discovered_at: now,
                gate_state: GateState::Pending,
                gate_attempts: 0,
                next_gate_at: None,
                last_error: None,
                source_language: None,
                source_language_mismatch: false,
            },
        );
        proof {
            assert(self@ =~= candidate_added(before, *candidate, now)->Ok_0->Some_0);
        }
        Ok(true)
    }

    /// The candidates that are due, and no more than `limit`.
    pub fn due_video_candidates(&self, now: i64, limit: usize) -> (r: Vec<VideoCandidate>)
        ensures
            exists|order: Seq<int>|
                #![trigger arranged(due_candidates(self@, now), order)]
                arranged(due_candidates(self@, now), order) && candidate_views(r@) == at_most(
                    order,
                    limit as int,
                ).map_values(|k: int| self@.candidates[k]),
    {
        let mut keys: Vec<Option<Key>> = Vec::new();
        let mut i: usize = 0;
        while i < self.candidates.len()
            invariant
                0 <= i <= self.candidates@.len(),
                keys@.len() == i,
                forall|j: int| 0 <= j < i ==> keys@[j] == due_candidates(self@, now)[j],
            decreases self.candidates@.len() - i,
        {
            let c = &self.candidates[i];
            let due = c.gate_state == GateState::Pending || (c.gate_state == GateState::Deferred
                && match c.next_gate_at {
                Some(t) => t <= now,
                None => false,
            });
            if due {
                let rank: i64 = if self.is_preferred(c.channel_id) {
                    0
                } else {
                    1
                };
                keys.push(Some((rank, c.discovered_at, 0)));
            } else {
                keys.push(None);
            }
            i = i + 1;
        }
        proof {
            assert(keys@ =~= due_candidates(self@, now));
        }
        let order = arrange(&keys);
        let n: usize = if limit <= order.len() {
            limit
        } else {
            order.len()
        };
        let ghost want = at_most(places(order@), limit as int).map_values(
            |k: int| self@.candidates[k],
        );
        let mut out: Vec<VideoCandidate> = Vec::new();
        let mut i: usize = 0;
        while i < n
            invariant
                n <= order@.len(),
                n == want.len(),
                want == at_most(places(order@), limit as int).map_values(
                    |k: int| self@.candidates[k],
                ),
                forall|j: int|
                    0 <= j < order@.len() ==> (#[trigger] order@[j]) < self.candidates@.len(),
                0 <= i <= n,
                candidate_views(out@) == want.take(i as int),
            decreases n - i,
        {
            let ghost before = out@;
            out.push(self.candidates[order[i]].copied());
            proof {
                let k = order@[i as int] as int;
                assert(want[i as int] == self@.candidates[k]);
                assert(self@.candidates[k] == self.candidates@[k]@);
                assert(candidate_views(out@) =~= candidate_views(before).push(want[i as int]));
                assert(candidate_views(out@) =~= want.take(i + 1));
            }
            i = i + 1;
        }
        proof {
            assert(want.take(want.len() as int) =~= want);
        }
        out
    }

    /// The candidate of a video.
    pub fn get_video_candidate(&self, video_id: &str) -> (r: Option<VideoCandidate>)
        ensures
            match self@.candidate_at(video_id@) {
                Some(k) => r matches Some(c) && c@ == self@.candidates[k],
                None => r is None,
            },
    {
        match self.find_candidate(video_id) {
            Some(k) => Some(self.candidates[k].copied()),
            None => None,
        }
    }

    /// Notes the language of a candidate, and whether it is another than expected.
    pub fn mark_video_candidate_source_language(
        &mut self,
        video_id: &str,
        source_language: Option<&str>,
        mismatch: bool,
    ) -> (r: Result<(), DbError>)
        ensures
            match old(self)@.candidate_at(video_id@) {
                None => r == refused::<()>(DbError::NoCandidate) && final(self)@ == old(self)@,
                Some(k) => r is Ok && final(self)@ == old(self)@.with_candidate(
                    k,
                    language_marked(
                        old(self)@.candidates[k],
                        str_view(source_language),
                        mismatch,
                    ),
                ),
            },
            old(self)@.wf() ==> final(self)@.wf(),
    {
        match self.find_candidate(video_id) {
            None => Err(DbError::NoCandidate),
            Some(k) => {
                let ghost before = self@;
                self.candidates[k].source_language = own_optional(source_language);
                self.candidates[k].source_language_mismatch = mismatch;
                proof {
                    assert(self@ =~= before.with_candidate(k as int, self@.candidates[k as int]));
                    candidate_step(before, self@, k as int);
                }
                Ok(())
            },
        }
    }

    /// Puts off a candidate until a time.
    pub fn defer_video_candidate(&mut self, video_id: &str, next_gate_at: i64, error: &str) -> (r: Result<
        (),
        DbError,
    >)
        ensures
            gate_write(
                old(self)@,
                final(self)@,
                r,
                video_id@,
                |c: CandidateModel|
                    CandidateModel {
                        gate_state: GateState::Deferred,
                        next_gate_at: Some(next_gate_at),
                        last_error: Some(error@),
                        ..c
                    },
            ),
            old(self)@.wf() ==> final(self)@.wf(),
    {
        match self.find_candidate(video_id) {
            None => Err(DbError::NoCandidate),
            Some(k) => {
                if self.candidates[k].gate_attempts == i64::MAX {
                    return Err(DbError::TooLarge);
                }
                let ghost before = self@;
                self.candidates[k].gate_state = GateState::Deferred;
                self.candidates[k].gate_attempts = self.candidates[k].gate_attempts + 1;
                self.candidates[k].next_gate_at = Some(next_gate_at);
                self.candidates[k].last_error = Some(error.to_owned());
                proof {
                    assert(self@ =~= before.with_candidate(k as int, self@.candidates[k as int]));
                    candidate_step(before, self@, k as int);
                }
                Ok(())
            },
        }
    }

    /// Refuses a candidate for good.
    pub fn reject_video_candidate(&mut self, video_id: &str, error: &str) -> (r: Result<(), DbError>)
        ensures
            gate_write(
                old(self)@,
                final(self)@,
                r,
                video_id@,
                |c: CandidateModel|
                    CandidateModel {
                        gate_state: GateState::Rejected,
                        next_gate_at: None,
                        last_error: Some(error@),
                        ..c
                    },
            ),
            old(self)@.wf() ==> final(self)@.wf(),
    {
        match self.find_candidate(video_id) {
            None => Err(DbError::NoCandidate),
            Some(k) => {
                if self.candidates[k].gate_attempts == i64::MAX {
                    return Err(DbError::TooLarge);
                }
                let ghost before = self@;
                self.candidates[k].gate_state = GateState::Rejected;
                self.candidates[k].gate_attempts = self.candidates[k].gate_attempts + 1;
                self.candidates[k].next_gate_at = None;
                self.candidates[k].last_error = Some(error.to_owned());
                proof {
                    assert(self@ =~= before.with_candidate(k as int, self@.candidates[k as int]));
                    candidate_step(before, self@, k as int);
                }
                Ok(())
            },
        }
    }

    /// Lets a candidate in under the name of a job. Whether a job was made; there is none where its
    /// video has one.
    pub fn promote_video_candidate_with_id(
        &mut self,
        id: &str,
        candidate: &VideoCandidate,
        title: Option<&str>,
        published_at: Option<i64>,
        now: i64,
    ) -> (r: Result<bool, DbError>)
        ensures
            match promoted(
                old(self)@,
                id@,
                candidate@,
                str_view(title),
                published_at,
                now,
            ) {
                Err(e) => r == refused::<bool>(e) && final(self)@ == old(self)@,
                Ok((after, made)) => r == Ok::<bool, DbError>(made) && final(self)@ == after,
            },
            old(self)@.wf() ==> final(self)@.wf(),
    {
        let transfer_mode = match candidate.channel_id {
            None => TransferMode::Translated,
            Some(c) => match self.find_channel(c) {
                Some(k) => self.channels[k].channel.transfer_mode,
                None => {
                    return Err(DbError::NoRow);
                },
            },
        };
        let k: usize = match self.find_candidate(candidate.video_id.as_str()) {
            Some(k) => k,
            None => {
                return Err(DbError::NoCandidate);
            },
        };
        if self.candidates[k].gate_attempts == i64::MAX {
            return Err(DbError::TooLarge);
        }
        let own_title: Option<String> = match title {
            Some(t) => Some(t.to_owned()),
            None => copy_optional(&candidate.title),
        };
        let job = NewJob {
            channel_id: candidate.channel_id,
            video_id: candidate.video_id.as_str(),
            url: candidate.url.as_str(),
            title: match &own_title {
                Some(t) => Some(t.as_str()),
                None => None,
            },
            published: match published_at {
                Some(t) => Some(t),
                None => candidate.published_at,
            },
            updated: None,
            transfer_mode,
        };
        let ghost before = self@;
        let made = match self.create_job_with_id(id, &job, now) {
            Ok(made) => made,
            Err(e) => {
                return Err(e);
            },
        };
        let ghost mid = self@;
        self.candidates[k].title = match title {
            Some(t) => Some(t.to_owned()),
            None => copy_optional(&self.candidates[k].title),
        };
        self.candidates[k].published_at = match published_at {
            Some(t) => Some(t),
            None => self.candidates[k].published_at,
        };
        self.candidates[k].gate_state = GateState::Promoted;
        self.candidates[k].gate_attempts = self.candidates[k].gate_attempts + 1;
        self.candidates[k].next_gate_at = None;
        self.candidates[k].last_error = None;
        proof {
            assert(self@ =~= mid.with_candidate(k as int, self@.candidates[k as int]));
            candidate_step(mid, self@, k as int);
            assert(self@ =~= promoted(
                before,
                id@,
                candidate@,
                str_view(title),
                published_at,
                now,
            )->Ok_0.0);
        }
        Ok(made)
    }

    /// Lets a candidate in under a new name.
    pub fn promote_video_candidate(
        &mut self,
        candidate: &VideoCandidate,
        title: Option<&str>,
        published_at: Option<i64>,
        now: i64,
    ) -> (r: Result<bool, DbError>)
        ensures
            promoted_somehow(
                old(self)@,
                final(self)@,
                r,
                candidate@,
                str_view(title),
                published_at,
                now,
            ),
            old(self)@.video_at(candidate@.video_id) is Some ==> !(r matches Ok(made) && made),
            old(self)@.wf() ==> final(self)@.wf(),
    {
        let id = fresh_id();
        self.promote_video_candidate_with_id(id.as_str(), candidate, title, published_at, now)
    }

    fn find_over_duration(&self, video_id: &str) -> (r: Option<usize>)
        ensures
            same_place(r, self@.over_duration_at(video_id@), self.over_duration@.len() as int),
            r matches Some(k) ==> self@.over_duration[k as int].video_id == video_id@,
    {
        let ghost p = |r: OverDurationModel| r.video_id == video_id@;
        let ghost rows = self@.over_duration;
        let mut i: usize = 0;
        while i < self.over_duration.len()
            invariant
                rows == self@.over_duration,
                rows.len() == self.over_duration@.len(),
                p == (|r: OverDurationModel| r.video_id == video_id@),
                0 <= i <= rows.len(),
                forall|j: int| 0 <= j < i ==> !p(#[trigger] rows[j]),
            decreases self.over_duration@.len() - i,
        {
            proof {
                assert(rows[i as int] == self.over_duration@[i as int]@);
            }
            if same_text(self.over_duration[i].video_id.as_str(), video_id) {
                proof {
                    assert(is_first(rows, p, i as int));
                    place_is(rows, p, i as int);
                }
                return Some(i);
            }
            i = i + 1;
        }
        proof {
            place_is_none(rows, p);
        }
        None
    }

    /// Whether a video is known to be too long for a limit.
    pub fn is_over_duration_video(&self, video_id: &str, limit_seconds: u64) -> (r: bool)
        ensures
            r == self@.too_long(video_id@, limit_seconds),
    {
        if limit_seconds == 0 {
            return false;
        }
        match self.find_over_duration(video_id) {
            Some(k) => limit_seconds <= self.over_duration[k].limit_seconds,
            None => false,
        }
    }

    /// Notes that a video is too long for a limit.
    pub fn record_over_duration_video(
        &mut self,
        video_id: &str,
        channel_id: Option<i64>,
        limit_seconds: u64,
        detail: &str,
        now: i64,
    ) -> (r: Result<(), DbError>)
        ensures
            if channel_id matches Some(c) && old(self)@.channel_at(c) is None {
                r == refused::<()>(DbError::ForeignKey) && final(self)@ == old(self)@
            } else {
                r is Ok && final(self)@ == old(self)@.with_too_long(
                    video_id@,
                    channel_id,
                    limit_seconds,
                    detail@,
                    now,
                )
            },
            old(self)@.wf() ==> final(self)@.wf(),
    {
        match channel_id {
            Some(c) => {
                if self.find_channel(c).is_none() {
                    return Err(DbError::ForeignKey);
                }
            },
            None => {},
        }
        let ghost before = self@;
        match self.find_over_duration(video_id) {
            Some(k) => {
                self.over_duration[k].channel_id = channel_id;
                self.over_duration[k].limit_seconds = limit_seconds;
                self.over_duration[k].detail = Some(detail.to_owned());
                self.over_duration[k].updated_at = now;
            },
            None => {
                self.over_duration.push(
                    OverDurationVideo {
                        video_id: video_id.to_owned(),
                        channel_id,
                        limit_seconds,
                        detail: Some(detail.to_owned()),
                        created_at: now,
                        updated_at: now,
                    },
                );
            },
        }
        proof {
            assert(self@ =~= before.with_too_long(
                video_id@,
                channel_id,
                limit_seconds,
                detail@,
                now,
            ));
            too_long_is_remembered(
                before,
                video_id@,
                channel_id,
                limit_seconds,
                detail@,
                now,
                limit_seconds,
            );
        }
        Ok(())
    }
}

/// A candidate with its language noted.
pub open spec fn language_marked(c: CandidateModel, language: Option<Seq<char>>, mismatch: bool) -> CandidateModel {
    CandidateModel { source_language: language, source_language_mismatch: mismatch, ..c }
}

/// Whether a candidate was let in under some name of 36 characters.
pub open spec fn promoted_somehow(
    before: DbModel,
    after: DbModel,
    r: Result<bool, DbError>,
    c: CandidateModel,
    title: Option<Seq<char>>,
    published_at: Option<i64>,
    now: i64,
) -> bool {
    exists|id: Seq<char>|
        id.len() == 36 && match #[trigger] promoted(before, id, c, title, published_at, now) {
            Err(e) => r == refused::<bool>(e) && after == before,
            Ok((next, made)) => r == Ok::<bool, DbError>(made) && after == next,
        }
}

/// Letting a candidate in notes it as let in, and makes a job exactly where neither its video has one
/// nor the name is taken.
pub proof fn promotion_makes_one_job(
    db: DbModel,
    id: Seq<char>,
    c: CandidateModel,
    title: Option<Seq<char>>,
    published_at: Option<i64>,
    now: i64,
)
    requires
        promoted(db, id, c, title, published_at, now) is Ok,
    ensures
        ({
            let (after, made) = promoted(db, id, c, title, published_at, now)->Ok_0;
            &&& made <==> db.video_at(c.video_id) is None && db.job_at(id) is None
            &&& !made ==> after.jobs == db.jobs
            &&& made ==> after.jobs.len() == db.jobs.len() + 1 && after.jobs.last().job.video_id
                == c.video_id
            &&& db.candidate_at(c.video_id) matches Some(k)
            &&& after.candidates[k].gate_state == GateState::Promoted
        }),
{
    place_means(db.candidates, |r: CandidateModel| r.video_id == c.video_id);
}

/// The job made of a candidate has the transfer mode that the row of the candidate's channel holds
/// at that moment, and is translated where the candidate has no channel. It shows the candidate's
/// video, bears what is newly known of title and time before what the candidate knew, and starts
/// at the end of the queue with nothing done.
pub proof fn promoted_job_follows_its_channel(
    db: DbModel,
    id: Seq<char>,
    c: CandidateModel,
    title: Option<Seq<char>>,
    published_at: Option<i64>,
    now: i64,
    ch: int,
    k: int,
)
    requires
        db.wf(),
        0 <= k < db.candidates.len(),
        db.candidates[k].video_id == c.video_id,
        db.candidates[k].gate_attempts < i64::MAX,
        c.channel_id is None || (0 <= ch < db.channels.len() && c.channel_id
            == Some(db.channels[ch].channel.id)),
    ensures
        ({
            let r = promoted(db, id, c, title, published_at, now);
            let (after, made) = r->Ok_0;
            let fresh = forall|j: int|
                0 <= j < db.jobs.len() ==> (#[trigger] db.jobs[j]).job.id != id
                    && db.jobs[j].job.video_id != c.video_id;
            let row = after.jobs.last();
            &&& r is Ok
            &&& made <==> fresh
            &&& made ==> {
                &&& after.jobs == db.jobs.push(row)
                &&& c.channel_id is Some ==> row.job.transfer_mode
                    == db.channels[ch].channel.transfer_mode
                &&& c.channel_id is None ==> row.job.transfer_mode == TransferMode::Translated
                &&& row.job.id == id && row.job.channel_id == c.channel_id
                &&& row.job.video_id == c.video_id && row.job.url == c.url
                &&& row.job.title == if title is Some { title } else { c.title }
                &&& row.job.published_at == if published_at is Some {
                    published_at
                } else {
                    c.published_at
                }
                &&& row.job.status == JobStatus::Queued && row.legacy is None
                &&& row.job.attempt == 0 && row.job.subtitle_attempt == 0
                &&& row.job.bvid is None && row.job.error is None
                &&& row.retry_at is None && row.claim_owner is None && row.prepared_upload is None
                &&& row.job.discovered_at == now && row.created_at == now && row.updated_at == now
            }
            &&& !made ==> after.jobs == db.jobs
            &&& after.candidates.len() == db.candidates.len()
            &&& after.candidates[k].gate_state == GateState::Promoted
            &&& after.candidates[k].gate_attempts == db.candidates[k].gate_attempts + 1
            &&& after.candidates[k].next_gate_at is None && after.candidates[k].last_error is None
            &&& after.candidates[k].video_id == c.video_id
            &&& after.candidates[k].title == if title is Some {
                title
            } else {
                db.candidates[k].title
            }
            &&& after.candidates[k].published_at == if published_at is Some {
                published_at
            } else {
                db.candidates[k].published_at
            }
            &&& forall|j: int|
                0 <= j < db.candidates.len() && j != k ==> #[trigger] after.candidates[j]
                    == db.candidates[j]
            &&& after.channels == db.channels && after.settings == db.settings
        }),
{
    only_what_is_there_is_found(db, id, 0);
    only_what_is_there_is_found(db, c.video_id, 0);
    channels_and_candidates_are_found(db, ch, k);
}

/// Two candidates of channels that differ in nothing but the transfer mode give jobs that differ in
/// nothing but the transfer mode.
pub proof fn only_the_mode_follows_the_channel(
    db: DbModel,
    ch: int,
    row: ChannelRowModel,
    id: Seq<char>,
    c: CandidateModel,
    title: Option<Seq<char>>,
    published_at: Option<i64>,
    now: i64,
)
    requires
        db.wf(),
        0 <= ch < db.channels.len(),
        row.channel.id == db.channels[ch].channel.id,
        row.channel.youtube_channel_id == db.channels[ch].channel.youtube_channel_id,
        c.channel_id == Some(row.channel.id),
        promoted(db, id, c, title, published_at, now) matches Ok((_, true)),
    ensures
        ({
            let other = db.with_channel(ch, row);
            let first = promoted(db, id, c, title, published_at, now)->Ok_0.0.jobs.last();
            let second = promoted(other, id, c, title, published_at, now);
            &&& second matches Ok((_, true))
            &&& second->Ok_0.0.jobs.last() == (RowModel {
                job: JobModel { transfer_mode: row.channel.transfer_mode, ..first.job },
                ..first
            })
        }),
{
    let other = db.with_channel(ch, row);
    channel_update_keeps_wf(db, ch, row);
    channels_and_candidates_are_found(other, ch, 0);
    channels_and_candidates_are_found(db, ch, 0);
}

/// A candidate waits as it was found: nothing is decided, and nothing of it is lost.
pub proof fn new_candidates_keep_what_was_found(db: DbModel, c: NewVideoCandidate, now: i64)
    requires
        db.wf(),
    ensures
        ({
            let r = candidate_added(db, c, now);
            let known = exists|j: int|
                0 <= j < db.candidates.len() && (#[trigger] db.candidates[j]).video_id
                    == c.video_id@;
            let homeless = c.channel_id is Some && forall|j: int|
                0 <= j < db.channels.len() ==> Some((#[trigger] db.channels[j]).channel.id)
                    != c.channel_id;
            &&& (r is Ok && r->Ok_0 is None) <==> known
            &&& r is Err <==> !known && homeless
            &&& r matches Ok(Some(after)) ==> {
                let row = after.candidates.last();
                &&& after.candidates == db.candidates.push(row)
                &&& after.jobs == db.jobs && after.channels == db.channels
                &&& row.video_id == c.video_id@ && row.url == c.url@
                &&& row.channel_id == c.channel_id && row.source == c.source
                &&& row.published_at == c.published_at
                &&& row.title is Some == c.title is Some
                &&& row.title is Some ==> row.title->Some_0 == c.title->Some_0@
                &&& row.discovered_at == now && row.gate_attempts == 0
                &&& row.gate_state == GateState::Pending
                &&& row.next_gate_at is None && row.last_error is None
            }
        }),
{
    only_what_is_there_is_found(db, c.video_id@, 0);
    if c.channel_id is Some {
        only_what_is_there_is_found(db, c.video_id@, c.channel_id->Some_0);
    }
}

/// A candidate is due if it waits undecided, or was put off and its time has come; those of
/// preferred channels come before the others, and of each the longest known first.
pub proof fn due_candidates_wait_or_were_put_off(db: DbModel, now: i64, i: int)
    requires
        db.wf(),
        0 <= i < db.candidates.len(),
    ensures
        ({
            let c = db.candidates[i];
            let key = due_candidates(db, now)[i];
            &&& due_candidates(db, now).len() == db.candidates.len()
            &&& c.gate_state == GateState::Pending ==> key is Some
            &&& c.gate_state == GateState::Promoted || c.gate_state == GateState::Rejected ==> key is None
            &&& c.gate_state == GateState::Deferred ==> (key is Some <==> c.next_gate_at is Some
                && c.next_gate_at->Some_0 <= now)
            &&& key is Some ==> key->Some_0.1 == c.discovered_at
            &&& key is Some ==> forall|j: int|
                0 <= j < db.channels.len() && Some((#[trigger] db.channels[j]).channel.id)
                    == c.channel_id ==> (key->Some_0.0 == if db.channels[j].channel.priority
                    == ChannelPriority::Priority {
                    0i64
                } else {
                    1i64
                })
        }),
{
    let c = db.candidates[i];
    assert forall|j: int|
        0 <= j < db.channels.len() && Some((#[trigger] db.channels[j]).channel.id)
            == c.channel_id implies (db.preferred(c.channel_id) <==> db.channels[j].channel.priority
        == ChannelPriority::Priority) by {
        preference_is_the_channels(db, j);
    }
}

/// A decision on a candidate counts the look and touches that candidate alone.
pub proof fn decisions_touch_one_candidate(
    before: DbModel,
    after: DbModel,
    r: Result<(), DbError>,
    k: int,
    row: spec_fn(CandidateModel) -> CandidateModel,
)
    requires
        before.wf(),
        0 <= k < before.candidates.len(),
        before.candidates[k].gate_attempts < i64::MAX,
        gate_write(before, after, r, before.candidates[k].video_id, row),
    ensures
        r is Ok,
        after.candidates[k] == row(
            (CandidateModel {
                gate_attempts: (before.candidates[k].gate_attempts + 1) as i64,
                ..before.candidates[k]
            }),
        ),
        forall|j: int|
            0 <= j < before.candidates.len() && j != k ==> #[trigger] after.candidates[j]
                == before.candidates[j],
        after.jobs == before.jobs && after.channels == before.channels,
{
    channels_and_candidates_are_found(before, 0, k);
}

/// A candidate that is let in makes a job in the transfer mode of its channel's row.
pub proof fn let_in_candidates_follow_their_channel(
    db: &mut Database,
    id: &str,
    c: &VideoCandidate,
    title: Option<&str>,
    published_at: Option<i64>,
    now: i64,
    ch: int,
    r: Result<bool, DbError>,
)
    requires
        call_ensures(
            Database::promote_video_candidate_with_id,
            (db, id, c, title, published_at, now),
            r,
        ),
        old(db)@.wf(),
        0 <= ch < old(db)@.channels.len(),
        c@.channel_id == Some(old(db)@.channels[ch].channel.id),
        r == Ok::<bool, DbError>(true),
    ensures
        ({
            let job = final(db)@.jobs.last().job;
            &&& final(db)@.jobs.len() == old(db)@.jobs.len() + 1
            &&& job.transfer_mode == old(db)@.channels[ch].channel.transfer_mode
            &&& job.video_id == c@.video_id && job.channel_id == c@.channel_id && job.id == id@
            &&& title is Some ==> job.title == Some(title->Some_0@)
            &&& title is None ==> job.title == c@.title
        }),
{
    channels_and_candidates_are_found(old(db)@, ch, 0);
}

/// A candidate that is put off waits until its time; one that is refused waits no more.
pub proof fn put_off_and_refused_candidates(
    db: &mut Database,
    other: &mut Database,
    video_id: &str,
    at: i64,
    error: &str,
    k: int,
    r: Result<(), DbError>,
    s: Result<(), DbError>,
)
    requires
        call_ensures(Database::defer_video_candidate, (db, video_id, at, error), r),
        call_ensures(Database::reject_video_candidate, (other, video_id, error), s),
        old(db)@ == old(other)@,
        old(db)@.wf(),
        0 <= k < old(db)@.candidates.len(),
        old(db)@.candidates[k].video_id == video_id@,
        old(db)@.candidates[k].gate_attempts < i64::MAX,
    ensures
        r is Ok && s is Ok,
        final(db)@.candidates[k].gate_state == GateState::Deferred,
        final(db)@.candidates[k].next_gate_at == Some(at),
        final(db)@.candidates[k].last_error == Some(error@),
        final(other)@.candidates[k].gate_state == GateState::Rejected,
        final(other)@.candidates[k].next_gate_at is None,
        final(other)@.candidates[k].last_error == Some(error@),
        final(db)@.jobs == old(db)@.jobs && final(other)@.jobs == old(db)@.jobs,
{
    channels_and_candidates_are_found(old(db)@, 0, k);
}

} // verus!
