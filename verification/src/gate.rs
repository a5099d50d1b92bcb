//! The screening in front of the queue: which candidates become jobs, which wait and which are refused.
use vstd::prelude::*;

use crate::candidates::{
    candidate_views, language_marked, promoted, promoted_job_follows_its_channel,
    too_long_is_remembered,
};
use crate::clock::{calendar_millis, calendar_millis_of, rfc3339_text};
use crate::config::Config;
use crate::discovery::RECHECK_INTERVAL_MS;
use crate::fault::{refused, DbError};
use crate::jobs::countable;
use crate::model::{GateState, JobStatus, TransferMode, VideoMetadata};
use crate::queue::{fresh_id, job_added, job_of, str_view, NewJob};
use crate::settings::{cutoff_of, set_then_get, LIVE_REPLAY_CURSOR};
use crate::store::{
    candidate_update_keeps_wf, channels_and_candidates_are_found, only_what_is_there_is_found, place,
    place_means, CandidateModel, Database, DbModel, Job, OverDurationModel, VideoCandidate,
};
use crate::text::{join, join_all, joined, opt_view, same_optional, same_text, views};
use crate::youtube::{
    chain_is_live, chain_is_overlong, exceeds_duration_limit, is_live_content_pending,
    is_video_id, language_accepted, live_prefix, live_status_of, not_ready, overlong,
    source_language_matches, validate_duration, validate_youtube_video_id, Overlong,
};

verus! {

/// What a round of screening did.
#[derive(Debug, Clone, Copy, PartialEq, Eq, Structural)]
pub struct GateOutcome {
    /// How many candidates were looked at; only if none was is there nothing left to do.
    pub processed: usize,
    /// How many of them became jobs.
    pub promoted: usize,
}

/// Whether a recording of a live stream is from before the cutoff. Other videos are not; a recording
/// whose time is not known is.
pub open spec fn backlog(meta: VideoMetadata, cutoff: i64) -> bool {
    (meta.live_status matches Some(s) && s@ == "was_live"@) && match meta.timestamp {
        None => true,
        Some(t) => match calendar_millis_of(t as int) {
            None => true,
            Some(ms) => ms < cutoff,
        },
    }
}

/// Whether a recording of a live stream is from before the cutoff.
pub fn is_backlog_replay(meta: &VideoMetadata, cutoff: i64) -> (r: bool)
    ensures
        r == backlog(*meta, cutoff),
{
    if !same_optional(&meta.live_status, "was_live") {
        return false;
    }
    match meta.timestamp {
        None => true,
        Some(t) => match calendar_millis(t) {
            None => true,
            Some(ms) => ms < cutoff,
        },
    }
}

/// Whether the language of a video is known and not the expected one.
pub open spec fn other_language(config: Config, meta: VideoMetadata) -> bool {
    meta.default_audio_language matches Some(l) && !language_accepted(
        config.translation.source_lang@,
        l@,
    )
}

/// What screening decides of a candidate.
#[derive(Debug)]
pub enum Verdict {
    /// It waits, for the reason given.
    Defer(String),
    /// It is too long, as the message says.
    TooLong(String),
    /// It is refused, for the reason given.
    Refuse(String),
    /// It is let in with this time of publication.
    LetIn(Option<i64>),
}

/// What screening decides of a candidate.
#[verifier::ext_equal]
pub enum VerdictModel {
    Defer(Seq<char>),
    TooLong(Seq<char>),
    Refuse(Seq<char>),
    LetIn(Option<i64>),
}

impl Verdict {
    /// What is decided.
    pub open spec fn view(&self) -> VerdictModel {
        match self {
            Verdict::Defer(s) => VerdictModel::Defer(s@),
            Verdict::TooLong(s) => VerdictModel::TooLong(s@),
            Verdict::Refuse(s) => VerdictModel::Refuse(s@),
            Verdict::LetIn(t) => VerdictModel::LetIn(*t),
        }
    }
}

/// What is decided before the cutoff and the baseline are looked at: a stream that is not over
/// waits, a video that is too long is refused for good.
pub open spec fn early_verdict(config: Config, meta: VideoMetadata) -> Option<VerdictModel> {
    if meta.live_status matches Some(s) && live_status_of(s@) is Some {
        Some(VerdictModel::Defer(live_prefix()))
    } else if overlong(meta.duration_ms, config.youtube.max_duration_seconds) {
        Some(
            VerdictModel::TooLong(
                (Overlong {
                    duration_ms: meta.duration_ms->Some_0,
                    limit_seconds: config.youtube.max_duration_seconds,
                }).text(),
            ),
        )
    } else {
        None
    }
}

/// When a video was published: as the metadata says, or else as it was found.
pub open spec fn publication_of(meta: VideoMetadata, found: Option<i64>) -> Option<i64> {
    match meta.timestamp {
        Some(t) => match calendar_millis_of(t as int) {
            Some(ms) => Some(ms as i64),
            None => found,
        },
        None => found,
    }
}

/// What is decided of a candidate that passed so far, given up to when its channel is history.
pub open spec fn late_verdict(
    config: Config,
    meta: VideoMetadata,
    found: Option<i64>,
    baseline: Option<i64>,
) -> VerdictModel {
    let at = publication_of(meta, found);
    if baseline is Some && at is None {
        VerdictModel::Refuse("候选缺少发布时间，拒绝补录历史视频"@)
    } else if baseline is Some && at->Some_0 <= baseline->Some_0 {
        VerdictModel::Refuse("候选发布时间不晚于频道 baseline"@)
    } else if other_language(config, meta) && config.translation.enforce_source_lang {
        VerdictModel::Refuse(
            "源语言不匹配: defaultAudioLanguage="@ + meta.default_audio_language->Some_0@
                + ", expected="@ + config.translation.source_lang@,
        )
    } else {
        VerdictModel::LetIn(at)
    }
}

/// Decides whether a candidate waits or is too long.
pub fn early_gate_verdict(config: &Config, meta: &VideoMetadata) -> (r: Option<Verdict>)
    ensures
        match early_verdict(*config, *meta) {
            Some(v) => r matches Some(x) && x@ == v,
            None => r is None,
        },
{
    let live = match &meta.live_status {
        Some(s) => not_ready(s.as_str()).is_some(),
        None => false,
    };
    if live {
        return Some(Verdict::Defer("直播内容尚未就绪，暂不处理".to_owned()));
    }
    match validate_duration(meta.duration_ms, config.youtube.max_duration_seconds) {
        Err(e) => Some(Verdict::TooLong(e.message())),
        Ok(()) => None,
    }
}

fn is_other_language(config: &Config, meta: &VideoMetadata) -> (r: bool)
    ensures
        r == other_language(*config, *meta),
{
    match &meta.default_audio_language {
        Some(l) => !source_language_matches(config.translation.source_lang.as_str(), l.as_str()),
        None => false,
    }
}

/// Decides whether a candidate that passed so far is refused or let in.
pub fn late_gate_verdict(
    config: &Config,
    meta: &VideoMetadata,
    found: Option<i64>,
    baseline: Option<i64>,
) -> (r: Verdict)
    ensures
        r@ == late_verdict(*config, *meta, found, baseline),
{
    let at: Option<i64> = match meta.timestamp {
        Some(t) => match calendar_millis(t) {
            Some(ms) => Some(ms),
            None => found,
        },
        None => found,
    };
    match baseline {
        Some(b) => match at {
            None => {
                return Verdict::Refuse("候选缺少发布时间，拒绝补录历史视频".to_owned());
            },
            Some(t) => {
                if t <= b {
                    return Verdict::Refuse("候选发布时间不晚于频道 baseline".to_owned());
                }
            },
        },
        None => {},
    }
    if config.translation.enforce_source_lang && is_other_language(config, meta) {
        match &meta.default_audio_language {
            Some(l) => {
                let mut s = "源语言不匹配: defaultAudioLanguage=".to_owned();
                s.append(l.as_str());
                s.append(", expected=");
                s.append(config.translation.source_lang.as_str());
                return Verdict::Refuse(s);
            },
            None => {},
        }
    }
    Verdict::LetIn(at)
}

/// Nothing that was published up to a channel's baseline is let in.
pub proof fn gate_lets_in_no_history(
    config: Config,
    meta: VideoMetadata,
    found: Option<i64>,
    baseline: i64,
)
    ensures
        late_verdict(config, meta, found, Some(baseline)) matches VerdictModel::LetIn(t) ==> (
        t matches Some(x) && x > baseline),
{
}

/// A candidate that is put off until a time, or an error.
pub open spec fn put_off(db: DbModel, video_id: Seq<char>, until: int, error: Seq<char>) -> (
    DbModel,
    Result<bool, DbError>,
) {
    looked_at(
        db,
        video_id,
        |c: CandidateModel|
            CandidateModel {
                gate_state: GateState::Deferred,
                next_gate_at: Some(until as i64),
                last_error: Some(error),
                ..c
            },
    )
}

/// A candidate that is refused, or an error.
pub open spec fn turned_away(db: DbModel, video_id: Seq<char>, error: Seq<char>) -> (
    DbModel,
    Result<bool, DbError>,
) {
    looked_at(
        db,
        video_id,
        |c: CandidateModel|
            CandidateModel {
                gate_state: GateState::Rejected,
                next_gate_at: None,
                last_error: Some(error),
                ..c
            },
    )
}

/// What one more look at a candidate does that makes no job.
pub open spec fn looked_at(
    db: DbModel,
    video_id: Seq<char>,
    row: spec_fn(CandidateModel) -> CandidateModel,
) -> (DbModel, Result<bool, DbError>) {
    match db.candidate_at(video_id) {
        None => (db, Err(DbError::NoCandidate)),
        Some(k) => if db.candidates[k].gate_attempts == i64::MAX {
            (db, Err(DbError::TooLarge))
        } else {
            (
                db.with_candidate(
                    k,
                    row(
                        CandidateModel {
                            gate_attempts: (db.candidates[k].gate_attempts + 1) as i64,
                            ..db.candidates[k]
                        },
                    ),
                ),
                Ok(false),
            )
        },
    }
}

/// What noting a video as too long and refusing it does.
pub open spec fn too_long_refused(db: DbModel, c: CandidateModel, limit_seconds: u64, error: Seq<char>, now: i64) -> (
    DbModel,
    Result<bool, DbError>,
) {
    if c.channel_id matches Some(id) && db.channel_at(id) is None {
        (db, Err(DbError::ForeignKey))
    } else {
        turned_away(
            db.with_too_long(c.video_id, c.channel_id, limit_seconds, error, now),
            c.video_id,
            error,
        )
    }
}

/// What a decision does; `id` is the name of the job that is made.
pub open spec fn carried_out(
    db: DbModel,
    v: VerdictModel,
    id: Seq<char>,
    config: Config,
    c: CandidateModel,
    title: Seq<char>,
    now: i64,
) -> (DbModel, Result<bool, DbError>) {
    match v {
        VerdictModel::Defer(s) => put_off(db, c.video_id, now + RECHECK_INTERVAL_MS, s),
        VerdictModel::TooLong(s) => too_long_refused(
            db,
            c,
            config.youtube.max_duration_seconds,
            s,
            now,
        ),
        VerdictModel::Refuse(s) => turned_away(db, c.video_id, s),
        VerdictModel::LetIn(at) => match promoted(db, id, c, Some(title), at, now) {
            Ok((after, made)) => (after, Ok(made)),
            Err(e) => (db, Err(e)),
        },
    }
}

/// The tables and the cutoff, which is set to the present where it is not there.
pub open spec fn with_cutoff(db: DbModel, now: i64) -> Result<(DbModel, int), DbError> {
    match cutoff_of(db) {
        Some(at) => Ok((db, at)),
        None => match rfc3339_text(now as int) {
            Some(text) => Ok((db.with_setting(LIVE_REPLAY_CURSOR@, text, now), now as int)),
            None => Err(DbError::OutOfCalendar),
        },
    }
}

/// Up to when the channel of a candidate is history.
pub open spec fn baseline_of(db: DbModel, channel_id: Option<i64>) -> Result<Option<i64>, DbError> {
    match channel_id {
        None => Ok(None),
        Some(id) => match db.channel_at(id) {
            None => Err(DbError::NoRow),
            Some(k) => Ok(db.channels[k].baseline_at),
        },
    }
}

/// What screening does with a candidate whose metadata is known. First its language is noted; then
/// streams that are not over, videos that are too long, old recordings, history and videos in
/// another language are sorted out in this order.
pub open spec fn gated(
    db: DbModel,
    id: Seq<char>,
    config: Config,
    c: CandidateModel,
    meta: VideoMetadata,
    now: i64,
) -> (DbModel, Result<bool, DbError>) {
    match db.candidate_at(c.video_id) {
        None => (db, Err(DbError::NoCandidate)),
        Some(k) => {
            let noted = db.with_candidate(
                k,
                language_marked(
                    db.candidates[k],
                    opt_view(meta.default_audio_language),
                    other_language(config, meta),
                ),
            );
            match early_verdict(config, meta) {
                Some(v) => carried_out(noted, v, id, config, c, meta.title@, now),
                None => match with_cutoff(noted, now) {
                    Err(e) => (noted, Err(e)),
                    Ok((ready, cutoff)) => if backlog(meta, cutoff as i64) {
                        turned_away(ready, c.video_id, "历史直播回放，不自动入队"@)
                    } else {
                        match baseline_of(ready, c.channel_id) {
                            Err(e) => (ready, Err(e)),
                            Ok(baseline) => carried_out(
                                ready,
                                late_verdict(config, meta, c.published_at, baseline),
                                id,
                                config,
                                c,
                                meta.title@,
                                now,
                            ),
                        }
                    },
                },
            }
        },
    }
}

impl Database {
    /// Puts off a candidate for half an hour.
    pub fn defer_gate_error(&mut self, candidate: &VideoCandidate, error: &str, now: i64) -> (r: Result<
        bool,
        DbError,
    >)
        requires
            countable(now + RECHECK_INTERVAL_MS),
        ensures
            (final(self)@, r) == put_off(
                old(self)@,
                candidate@.video_id,
                now + RECHECK_INTERVAL_MS,
                error@,
            ),
            old(self)@.wf() ==> final(self)@.wf(),
    {
        match self.defer_video_candidate(
            candidate.video_id.as_str(),
            now + RECHECK_INTERVAL_MS,
            error,
        ) {
            Ok(()) => Ok(false),
            Err(e) => Err(e),
        }
    }

    fn turn_away(&mut self, video_id: &str, error: &str) -> (r: Result<bool, DbError>)
        ensures
            (final(self)@, r) == turned_away(old(self)@, video_id@, error@),
            old(self)@.wf() ==> final(self)@.wf(),
    {
        match self.reject_video_candidate(video_id, error) {
            Ok(()) => Ok(false),
            Err(e) => Err(e),
        }
    }

    /// Notes a candidate as too long and refuses it.
    pub fn reject_over_duration(
        &mut self,
        candidate: &VideoCandidate,
        limit_seconds: u64,
        error: &str,
        now: i64,
    ) -> (r: Result<bool, DbError>)
        ensures
            (final(self)@, r) == too_long_refused(
                old(self)@,
                candidate@,
                limit_seconds,
                error@,
                now,
            ),
            old(self)@.wf() ==> final(self)@.wf(),
    {
        match self.record_over_duration_video(
            candidate.video_id.as_str(),
            candidate.channel_id,
            limit_seconds,
            error,
            now,
        ) {
            Err(e) => Err(e),
            Ok(()) => self.turn_away(candidate.video_id.as_str(), error),
        }
    }

    fn carry_out(
        &mut self,
        verdict: &Verdict,
        id: &str,
        config: &Config,
        candidate: &VideoCandidate,
        title: &str,
        now: i64,
    ) -> (r: Result<bool, DbError>)
        requires
            countable(now + RECHECK_INTERVAL_MS),
        ensures
            (final(self)@, r) == carried_out(
                old(self)@,
                verdict@,
                id@,
                *config,
                candidate@,
                title@,
                now,
            ),
            old(self)@.wf() ==> final(self)@.wf(),
    {
        match verdict {
            Verdict::Defer(s) => self.defer_gate_error(candidate, s.as_str(), now),
            Verdict::TooLong(s) => self.reject_over_duration(
                candidate,
                config.youtube.max_duration_seconds,
                s.as_str(),
                now,
            ),
            Verdict::Refuse(s) => self.turn_away(candidate.video_id.as_str(), s.as_str()),
            Verdict::LetIn(at) => self.promote_video_candidate_with_id(
                id,
                candidate,
                Some(title),
                *at,
                now,
            ),
        }
    }

    /// Does what screening decides of a candidate whose metadata is known, under the name of the job
    /// that may be made. Whether one was.
    pub fn gate_candidate_with_id(
        &mut self,
        id: &str,
        config: &Config,
        candidate: &VideoCandidate,
        meta: &VideoMetadata,
        now: i64,
    ) -> (r: Result<bool, DbError>)
        requires
            countable(now + RECHECK_INTERVAL_MS),
        ensures
            (final(self)@, r) == gated(old(self)@, id@, *config, candidate@, *meta, now),
            old(self)@.wf() ==> final(self)@.wf(),
    {
        let mismatch = is_other_language(config, meta);
        let language: Option<&str> = match &meta.default_audio_language {
            Some(l) => Some(l.as_str()),
            None => None,
        };
        match self.mark_video_candidate_source_language(
            candidate.video_id.as_str(),
            language,
            mismatch,
        ) {
            Err(e) => {
                return Err(e);
            },
            Ok(()) => {},
        }
        match early_gate_verdict(config, meta) {
            Some(v) => {
                return self.carry_out(&v, id, config, candidate, meta.title.as_str(), now);
            },
            None => {},
        }
        proof {
            if rfc3339_text(now as int) is Some {
                set_then_get(
                    self@,
                    LIVE_REPLAY_CURSOR@,
                    rfc3339_text(now as int)->Some_0,
                    now,
                );
            }
        }
        let cutoff: i64 = match self.live_replay_cutoff(now) {
            Ok(at) => at,
            Err(e) => {
                return Err(e);
            },
        };
        if is_backlog_replay(meta, cutoff) {
            return self.turn_away(candidate.video_id.as_str(), "历史直播回放，不自动入队");
        }
        let baseline: Option<i64> = match candidate.channel_id {
            None => None,
            Some(c) => match self.channel_baseline(c) {
                Ok(b) => b,
                Err(e) => {
                    return Err(e);
                },
            },
        };
        let v = late_gate_verdict(config, meta, candidate.published_at, baseline);
        self.carry_out(&v, id, config, candidate, meta.title.as_str(), now)
    }

    /// Does what screening decides of a candidate whose metadata is known. Whether a job was made.
    pub fn gate_candidate_with_metadata(
        &mut self,
        config: &Config,
        candidate: &VideoCandidate,
        meta: &VideoMetadata,
        now: i64,
    ) -> (r: Result<bool, DbError>)
        requires
            countable(now + RECHECK_INTERVAL_MS),
        ensures
            exists|id: Seq<char>|
                id.len() == 36 && (final(self)@, r) == #[trigger] gated(
                    old(self)@,
                    id,
                    *config,
                    candidate@,
                    *meta,
                    now,
                ),
            old(self)@.wf() ==> final(self)@.wf(),
    {
        let id = fresh_id();
        self.gate_candidate_with_id(id.as_str(), config, candidate, meta, now)
    }

    /// Does what screening decides of a candidate whose metadata could not be had, given the messages
    /// of the error from the outside in: a stream that is not over waits, a video that is too long is
    /// refused, and anything else waits.
    pub fn gate_candidate_failed(
        &mut self,
        config: &Config,
        candidate: &VideoCandidate,
        chain: &Vec<String>,
        now: i64,
    ) -> (r: Result<bool, DbError>)
        requires
            countable(now + RECHECK_INTERVAL_MS),
            chain@.len() > 0,
        ensures
            (final(self)@, r) == carried_out(
                old(self)@,
                failure_verdict(views(chain@)),
                Seq::empty(),
                *config,
                candidate@,
                Seq::empty(),
                now,
            ),
            old(self)@.wf() ==> final(self)@.wf(),
    {
        let verdict = if is_live_content_pending(chain.as_slice()) {
            Verdict::Defer(chain[0].clone())
        } else if exceeds_duration_limit(chain.as_slice()) {
            Verdict::TooLong(chain[0].clone())
        } else {
            Verdict::Defer(join("元数据获取失败: ", join_all(chain, ": ").as_str()))
        };
        match verdict {
            Verdict::Defer(s) => self.defer_gate_error(candidate, s.as_str(), now),
            Verdict::TooLong(s) => self.reject_over_duration(
                candidate,
                config.youtube.max_duration_seconds,
                s.as_str(),
                now,
            ),
            _ => Ok(false),
        }
    }
}

/// What screening decides of a candidate whose metadata could not be had.
pub open spec fn failure_verdict(chain: Seq<Seq<char>>) -> VerdictModel {
    if chain_is_live(chain) {
        VerdictModel::Defer(chain[0])
    } else if chain_is_overlong(chain) {
        VerdictModel::TooLong(chain[0])
    } else {
        VerdictModel::Defer("元数据获取失败: "@ + joined(chain, ": "@))
    }
}

/// Screening makes a job at most of a video that has none, and only of one that is let in.
pub proof fn gate_makes_few_jobs(
    db: DbModel,
    id: Seq<char>,
    config: Config,
    c: CandidateModel,
    meta: VideoMetadata,
    now: i64,
)
    ensures
        ({
            let (after, r) = gated(db, id, config, c, meta, now);
            &&& r == Ok::<bool, DbError>(true) ==> db.video_at(c.video_id) is None
                && early_verdict(config, meta) is None && after.jobs.len() == db.jobs.len() + 1
            &&& r != Ok::<bool, DbError>(true) ==> after.jobs == db.jobs
        }),
{
    place_means(db.candidates, |r: CandidateModel| r.video_id == c.video_id);
}

// ---------------------------------------------------------------------------------------------
// A round of screening
// ---------------------------------------------------------------------------------------------

/// What going through the first `n` of some candidates does: those that have a job are noted as let
/// in, the others are left over.
#[verifier::ext_equal]
pub struct Screened {
    pub db: DbModel,
    pub rest: Seq<CandidateModel>,
    pub fault: Option<DbError>,
}

/// What going through the first `n` of some candidates does.
pub open spec fn screened(db: DbModel, list: Seq<CandidateModel>, now: i64, n: int) -> Screened
    decreases n,
{
    if n <= 0 {
        Screened { db, rest: Seq::empty(), fault: None }
    } else {
        let before = screened(db, list, now, n - 1);
        let c = list[n - 1];
        if before.fault is Some {
            before
        } else {
            match before.db.video_at(c.video_id) {
                None => Screened { rest: before.rest.push(c), ..before },
                Some(k) => match job_of(before.db.jobs[k]) {
                    Err(e) => Screened { fault: Some(e), ..before },
                    Ok(_) => match promoted(
                        before.db,
                        Seq::empty(),
                        c,
                        c.title,
                        c.published_at,
                        now,
                    ) {
                        Err(e) => Screened { fault: Some(e), ..before },
                        Ok((after, _)) => Screened { db: after, ..before },
                    },
                },
            }
        }
    }
}

proof fn screened_stays(db: DbModel, list: Seq<CandidateModel>, now: i64, k: int, n: int)
    requires
        0 <= k <= n,
        screened(db, list, now, k).fault is Some,
    ensures
        screened(db, list, now, n) == screened(db, list, now, k),
    decreases n - k,
{
    if k < n {
        screened_stays(db, list, now, k, n - 1);
    }
}

impl Database {
    /// Notes those of the candidates as let in that have a job, and gives the others.
    pub fn screen_candidates(&mut self, candidates: Vec<VideoCandidate>, now: i64) -> (r: Result<
        Vec<VideoCandidate>,
        DbError,
    >)
        ensures
            ({
                let end = screened(
                    old(self)@,
                    candidate_views(candidates@),
                    now,
                    candidates@.len() as int,
                );
                &&& final(self)@ == end.db
                &&& match end.fault {
                    Some(e) => r matches Err(x) && x == e,
                    None => r matches Ok(rest) && candidate_views(rest@)
                        == end.rest,
                }
            }),
            old(self)@.wf() ==> final(self)@.wf(),
    {
        let ghost before = self@;
        let ghost list = candidate_views(candidates@);
        let mut rest: Vec<VideoCandidate> = Vec::new();
        let mut i: usize = 0;
        proof {
            assert(candidate_views(rest@) =~= Seq::empty());
        }
        while i < candidates.len()
            invariant
                before == old(self)@,
                list == candidate_views(candidates@),
                0 <= i <= candidates@.len(),
                screened(before, list, now, i as int) == (Screened {
                    db: self@,
                    rest: candidate_views(rest@),
                    fault: None,
                }),
                before.wf() ==> self@.wf(),
            decreases candidates@.len() - i,
        {
            let c = &candidates[i];
            proof {
                assert(list[i as int] == c@);
            }
            match self.get_job_by_video_id(c.video_id.as_str()) {
                Err(e) => {
                    proof {
                        screened_stays(before, list, now, i + 1, candidates@.len() as int);
                    }
                    return Err(e);
                },
                Ok(None) => {
                    let ghost had = candidate_views(rest@);
                    rest.push(c.copied());
                    proof {
                        assert(candidate_views(rest@) =~= had.push(c@));
                    }
                },
                Ok(Some(_)) => {
                    let title: Option<&str> = match &c.title {
                        Some(t) => Some(t.as_str()),
                        None => None,
                    };
                    let ghost mid = self@;
                    let id = fresh_id();
                    match self.promote_video_candidate_with_id(
                        id.as_str(),
                        c,
                        title,
                        c.published_at,
                        now,
                    ) {
                        Ok(_) => {
                            proof {
                                assert(promoted(
                                    mid,
                                    id@,
                                    c@,
                                    c@.title,
                                    c@.published_at,
                                    now,
                                ) == promoted(
                                    mid,
                                    Seq::empty(),
                                    c@,
                                    c@.title,
                                    c@.published_at,
                                    now,
                                ));
                            }
                        },
                        Err(e) => {
                            proof {
                                screened_stays(before, list, now, i + 1, candidates@.len() as int);
                            }
                            return Err(e);
                        },
                    }
                },
            }
            i = i + 1;
        }
        Ok(rest)
    }
}

// ---------------------------------------------------------------------------------------------
// Videos that are added by hand
// ---------------------------------------------------------------------------------------------

/// A job that was asked for, and whether it was made for that.
#[derive(Debug)]
pub struct EnqueueOutcome {
    pub job: Job,
    pub created: bool,
}

/// Why a video cannot be added by hand.
#[derive(Debug, Clone, Copy, PartialEq, Eq, Structural)]
pub enum EnqueueError {
    /// The video has no valid id.
    BadId,
    /// The video came into the queue meanwhile.
    Meanwhile,
    /// The tables refuse.
    Database(DbError),
}

/// Whether a new job is that of a video which is added by hand.
pub open spec fn by_hand(new: NewJob, meta: VideoMetadata, mode: TransferMode) -> bool {
    &&& new.channel_id is None
    &&& new.video_id@ == meta.id@
    &&& new.url@ == meta.url@
    &&& str_view(new.title) == Some(meta.title@)
    &&& new.published is None
    &&& new.updated is None
    &&& new.transfer_mode == mode
}

impl Database {
    /// Adds a video by hand, or gives the job that it has.
    pub fn enqueue_video(&mut self, meta: &VideoMetadata, transfer_mode: TransferMode, now: i64) -> (r: Result<
        EnqueueOutcome,
        EnqueueError,
    >)
        ensures
            !is_video_id(meta.id@) <==> (r matches Err(e) && e == EnqueueError::BadId),
            is_video_id(meta.id@) ==> match old(self)@.video_at(meta.id@) {
                Some(k) => final(self)@ == old(self)@ && match job_of(old(self)@.jobs[k]) {
                    Ok(job) => r matches Ok(o) && o.job@ == job && !o.created,
                    Err(e) => r matches Err(x) && x == EnqueueError::Database(e),
                },
                None => match r {
                    Err(e) => e == EnqueueError::Meanwhile && exists|id: Seq<char>|
                        id.len() == 36 && (#[trigger] old(self)@.job_at(id)) is Some,
                    Ok(o) => {
                        &&& o.created
                        &&& o.job@.id.len() == 36
                        &&& final(self)@.jobs.last().job == o.job@
                        &&& exists|new: NewJob|
                            #![trigger job_added(old(self)@, o.job@.id, new, now)]
                            by_hand(new, *meta, transfer_mode) && job_added(
                                old(self)@,
                                o.job@.id,
                                new,
                                now,
                            ) == Ok::<Option<DbModel>, DbError>(Some(final(self)@))
                    },
                },
            },
            r is Err ==> final(self)@ == old(self)@,
            old(self)@.wf() ==> final(self)@.wf(),
    {
        if validate_youtube_video_id(meta.id.as_str()).is_err() {
            return Err(EnqueueError::BadId);
        }
        match self.get_job_by_video_id(meta.id.as_str()) {
            Err(e) => {
                return Err(EnqueueError::Database(e));
            },
            Ok(Some(job)) => {
                return Ok(EnqueueOutcome { job, created: false });
            },
            Ok(None) => {},
        }
        let new = NewJob {
            channel_id: None,
            video_id: meta.id.as_str(),
            url: meta.url.as_str(),
            title: Some(meta.title.as_str()),
            published: None,
            updated: None,
            transfer_mode,
        };
        let ghost before = self@;
        proof {
            assert(by_hand(new, *meta, transfer_mode));
        }
        match self.create_job(&new, now) {
            Err(e) => Err(EnqueueError::Database(e)),
            Ok(None) => Err(EnqueueError::Meanwhile),
            Ok(Some(id)) => {
                let n: usize = self.jobs.len();
                proof {
                    assert(self@.jobs.len() == n);
                    assert(self@.jobs.last().job.id == id@);
                    assert(job_added(before, id@, new, now) == Ok::<Option<DbModel>, DbError>(
                        Some(self@),
                    ));
                }
                let job = self.jobs[n - 1].job.copied();
                Ok(EnqueueOutcome { job, created: true })
            },
        }
    }
}

/// The first of the metadata that is that of a video.
pub open spec fn is_of_video(found: Seq<VideoMetadata>, video_id: Seq<char>, i: int) -> bool {
    &&& 0 <= i < found.len()
    &&& found[i].id@ == video_id
    &&& forall|j: int| 0 <= j < i ==> (#[trigger] found[j]).id@ != video_id
}

impl Database {
    /// Screens a candidate with what the API told of all of them. One that it did not tell of is
    /// looked at again later.
    pub fn gate_candidate_from(
        &mut self,
        config: &Config,
        candidate: &VideoCandidate,
        found: &Vec<VideoMetadata>,
        now: i64,
    ) -> (r: Result<bool, DbError>)
        requires
            countable(now + RECHECK_INTERVAL_MS),
        ensures
            (forall|i: int| 0 <= i < found@.len() ==> (#[trigger] found@[i]).id@
                != candidate@.video_id) ==> (final(self)@, r) == put_off(
                old(self)@,
                candidate@.video_id,
                now + RECHECK_INTERVAL_MS,
                "videos.list 未返回该视频，稍后复查"@,
            ),
            forall|i: int| #[trigger]
                is_of_video(found@, candidate@.video_id, i) ==> exists|id: Seq<char>|
                    id.len() == 36 && (final(self)@, r) == #[trigger] gated(
                        old(self)@,
                        id,
                        *config,
                        candidate@,
                        found@[i],
                        now,
                    ),
            old(self)@.wf() ==> final(self)@.wf(),
    {
        let mut i: usize = 0;
        while i < found.len()
            invariant
                0 <= i <= found@.len(),
                self@ == old(self)@,
                countable(now + RECHECK_INTERVAL_MS),
                forall|j: int| 0 <= j < i ==> (#[trigger] found@[j]).id@ != candidate@.video_id,
            decreases found@.len() - i,
        {
            if same_text(found[i].id.as_str(), candidate.video_id.as_str()) {
                let r = self.gate_candidate_with_metadata(config, candidate, &found[i], now);
                proof {
                    let at = i as int;
                    assert forall|k: int| #[trigger]
                        is_of_video(found@, candidate@.video_id, k) implies k == at by {
                        if k < at {
                            assert(found@[k].id@ != candidate@.video_id);
                        } else if k > at {
                            assert(found@[at].id@ != candidate@.video_id);
                        }
                    }
                }
                return r;
            }
            i = i + 1;
        }
        self.defer_gate_error(candidate, "videos.list 未返回该视频，稍后复查", now)
    }
}

// ---------------------------------------------------------------------------------------------
// What the screening is for
// ---------------------------------------------------------------------------------------------

/// Whether a video is live, about to be, or just over without a recording.
pub open spec fn not_recorded_yet(meta: VideoMetadata) -> bool {
    meta.live_status is Some && ({
        let s = meta.live_status->Some_0@;
        s == "is_live"@ || s == "is_upcoming"@ || s == "post_live"@
    })
}

/// Whether a video is longer than a limit in seconds; no limit is zero.
pub open spec fn longer_than(meta: VideoMetadata, limit_seconds: u64) -> bool {
    limit_seconds != 0 && meta.duration_ms is Some && meta.duration_ms->Some_0 > limit_seconds
        * 1000
}

/// Live content waits, whatever its length; else an overlong video is refused; nothing else is
/// decided before the tables are asked.
pub proof fn live_waits_and_long_goes(config: Config, meta: VideoMetadata)
    ensures
        ({
            let v = early_verdict(config, meta);
            let long = longer_than(meta, config.youtube.max_duration_seconds);
            &&& not_recorded_yet(meta) <==> v is Some && v->Some_0 is Defer
            &&& !not_recorded_yet(meta) && long <==> v is Some && v->Some_0 is TooLong
            &&& v is None <==> !not_recorded_yet(meta) && !long
        }),
{
}

/// A recording of a live broadcast is history where it began before the cutoff, or where its time
/// is not known; a plain upload never is.
pub proof fn only_old_broadcasts_are_backlog(meta: VideoMetadata, cutoff: i64)
    ensures
        meta.live_status is None ==> !backlog(meta, cutoff),
        meta.live_status is Some && meta.live_status->Some_0@ != "was_live"@ ==> !backlog(meta, cutoff),
        meta.live_status is Some && meta.live_status->Some_0@ == "was_live"@ ==> {
            &&& meta.timestamp is None ==> backlog(meta, cutoff)
            &&& meta.timestamp is Some && calendar_millis_of(meta.timestamp->Some_0 as int) is Some
                ==> (backlog(meta, cutoff) <==> meta.timestamp->Some_0 * 1000 < cutoff)
        },
{
}

/// The time that a video tells of itself counts before the one under which it was found. A video
/// without a time, or with one not later than the baseline, is refused; then one in another
/// language, where the language is enforced; every other is let in, with that time.
pub proof fn screening_goes_by_time_and_language(
    config: Config,
    meta: VideoMetadata,
    found: Option<i64>,
    baseline: Option<i64>,
)
    ensures
        ({
            let v = late_verdict(config, meta, found, baseline);
            let told = meta.timestamp is Some && calendar_millis_of(
                meta.timestamp->Some_0 as int,
            ) is Some;
            let at = if told { Some((meta.timestamp->Some_0 * 1000) as i64) } else { found };
            let history = baseline is Some && (at is None || at->Some_0 <= baseline->Some_0);
            let foreign = meta.default_audio_language is Some && !language_accepted(
                config.translation.source_lang@,
                meta.default_audio_language->Some_0@,
            );
            &&& v is LetIn <==> !history && !(foreign && config.translation.enforce_source_lang)
            &&& v is Refuse <==> history || (foreign && config.translation.enforce_source_lang)
            &&& v is LetIn ==> v->LetIn_0 == at
        }),
{
}

/// Live content that is looked at waits half an hour, and makes no job. The look is counted.
pub proof fn live_candidates_are_looked_at_again(
    db: DbModel,
    id: Seq<char>,
    config: Config,
    c: CandidateModel,
    meta: VideoMetadata,
    now: i64,
    k: int,
)
    requires
        db.wf(),
        0 <= k < db.candidates.len(),
        db.candidates[k].video_id == c.video_id,
        db.candidates[k].gate_attempts < i64::MAX,
        not_recorded_yet(meta),
        countable(now + 1_800_000),
    ensures
        ({
            let (after, r) = gated(db, id, config, c, meta, now);
            let row = after.candidates[k];
            &&& r == Ok::<bool, DbError>(false)
            &&& after.jobs == db.jobs && after.over_duration == db.over_duration
            &&& row.gate_state == GateState::Deferred
            &&& row.next_gate_at == Some((now + 1_800_000) as i64)
            &&& row.gate_attempts == db.candidates[k].gate_attempts + 1
            &&& row.last_error is Some
            &&& row.video_id == c.video_id && row.title == db.candidates[k].title
            &&& forall|j: int|
                0 <= j < db.candidates.len() && j != k ==> #[trigger] after.candidates[j]
                    == db.candidates[j]
        }),
{
    noted_candidate(db, config, meta, k);
}

/// An overlong video that is looked at is refused, and remembered as too long for the limit of
/// that moment; it makes no job.
pub proof fn long_candidates_are_remembered(
    db: DbModel,
    id: Seq<char>,
    config: Config,
    c: CandidateModel,
    meta: VideoMetadata,
    now: i64,
    k: int,
    ch: int,
)
    requires
        db.wf(),
        0 <= k < db.candidates.len(),
        db.candidates[k].video_id == c.video_id,
        db.candidates[k].gate_attempts < i64::MAX,
        c.channel_id is None || (0 <= ch < db.channels.len() && c.channel_id
            == Some(db.channels[ch].channel.id)),
        !not_recorded_yet(meta),
        longer_than(meta, config.youtube.max_duration_seconds),
    ensures
        ({
            let (after, r) = gated(db, id, config, c, meta, now);
            let row = after.candidates[k];
            &&& r == Ok::<bool, DbError>(false)
            &&& after.jobs == db.jobs
            &&& row.gate_state == GateState::Rejected && row.next_gate_at is None
            &&& row.gate_attempts == db.candidates[k].gate_attempts + 1
            &&& row.video_id == c.video_id
            &&& exists|j: int|
                0 <= j < after.over_duration.len() && (#[trigger] after.over_duration[j]).video_id
                    == c.video_id && after.over_duration[j].limit_seconds
                    == config.youtube.max_duration_seconds && after.over_duration[j].channel_id
                    == c.channel_id
            &&& forall|other: u64| #[trigger]
                after.too_long(c.video_id, other) <==> 0 < other
                    <= config.youtube.max_duration_seconds
        }),
{
    noted_candidate(db, config, meta, k);
    channels_and_candidates_are_found(db, ch, k);
    let noted = noted_of(db, config, meta, k);
    assert(noted.channels == db.channels);
    let text = early_verdict(config, meta)->Some_0->TooLong_0;
    let limit = config.youtube.max_duration_seconds;
    let longer = noted.with_too_long(c.video_id, c.channel_id, limit, text, now);
    let (after, _) = gated(db, id, config, c, meta, now);
    let p = |r: OverDurationModel| r.video_id == c.video_id;
    place_means(noted.over_duration, p);
    assert(noted.over_duration_at(c.video_id) == place(noted.over_duration, p));
    let j = match noted.over_duration_at(c.video_id) {
        Some(x) => x,
        None => noted.over_duration.len() as int,
    };
    assert(after.over_duration == longer.over_duration);
    assert(longer.over_duration[j].video_id == c.video_id);
    assert(after.over_duration[j].video_id == c.video_id);
    assert forall|other: u64| #[trigger]
        after.too_long(c.video_id, other) <==> 0 < other <= limit by {
        too_long_is_remembered(noted, c.video_id, c.channel_id, limit, text, now, other);
        assert(after.over_duration_at(c.video_id) == longer.over_duration_at(c.video_id));
    }
}

/// A video that is neither live nor too long, not the recording of an old broadcast, newer than
/// its channel's baseline and not in an enforced other language becomes a job, where none shows it:
/// under the title that it tells, in the transfer mode of its channel, at the end of the queue.
pub proof fn fitting_candidates_become_jobs(
    db: DbModel,
    id: Seq<char>,
    config: Config,
    c: CandidateModel,
    meta: VideoMetadata,
    now: i64,
    k: int,
    ch: int,
)
    requires
        db.wf(),
        0 <= k < db.candidates.len(),
        db.candidates[k].video_id == c.video_id,
        db.candidates[k].gate_attempts < i64::MAX,
        0 <= ch < db.channels.len(),
        c.channel_id == Some(db.channels[ch].channel.id),
        !not_recorded_yet(meta),
        !longer_than(meta, config.youtube.max_duration_seconds),
        cutoff_of(db) is Some,
        !backlog(meta, cutoff_of(db)->Some_0 as i64),
        late_verdict(config, meta, c.published_at, db.channels[ch].baseline_at) is LetIn,
        forall|j: int|
            0 <= j < db.jobs.len() ==> (#[trigger] db.jobs[j]).job.id != id
                && db.jobs[j].job.video_id != c.video_id,
    ensures
        ({
            let (after, r) = gated(db, id, config, c, meta, now);
            let job = after.jobs.last().job;
            let at = late_verdict(config, meta, c.published_at, db.channels[ch].baseline_at)->LetIn_0;
            &&& r == Ok::<bool, DbError>(true)
            &&& after.jobs == db.jobs.push(after.jobs.last())
            &&& job.video_id == c.video_id && job.url == c.url && job.id == id
            &&& job.title == Some(meta.title@)
            &&& job.transfer_mode == db.channels[ch].channel.transfer_mode
            &&& job.channel_id == c.channel_id && job.status == JobStatus::Queued
            &&& job.published_at == if at is Some { at } else { c.published_at }
            &&& after.candidates[k].gate_state == GateState::Promoted
        }),
{
    noted_candidate(db, config, meta, k);
    let noted = noted_of(db, config, meta, k);
    channels_and_candidates_are_found(noted, ch, k);
    assert(noted.settings == db.settings);
    assert(cutoff_of(noted) == cutoff_of(db));
    let at = late_verdict(config, meta, c.published_at, db.channels[ch].baseline_at)->LetIn_0;
    promoted_job_follows_its_channel(noted, id, c, Some(meta.title@), at, now, ch, k);
}

/// The recording of an old broadcast is refused and makes no job.
pub proof fn old_broadcasts_are_refused(
    db: DbModel,
    id: Seq<char>,
    config: Config,
    c: CandidateModel,
    meta: VideoMetadata,
    now: i64,
    k: int,
)
    requires
        db.wf(),
        0 <= k < db.candidates.len(),
        db.candidates[k].video_id == c.video_id,
        db.candidates[k].gate_attempts < i64::MAX,
        !not_recorded_yet(meta),
        !longer_than(meta, config.youtube.max_duration_seconds),
        cutoff_of(db) is Some,
        backlog(meta, cutoff_of(db)->Some_0 as i64),
    ensures
        ({
            let (after, r) = gated(db, id, config, c, meta, now);
            &&& r == Ok::<bool, DbError>(false)
            &&& after.jobs == db.jobs && after.over_duration == db.over_duration
            &&& after.candidates[k].gate_state == GateState::Rejected
            &&& after.candidates[k].next_gate_at is None
            &&& after.candidates[k].gate_attempts == db.candidates[k].gate_attempts + 1
        }),
{
    noted_candidate(db, config, meta, k);
    let noted = noted_of(db, config, meta, k);
    assert(noted.settings == db.settings);
    assert(cutoff_of(noted) == cutoff_of(db));
}

/// What is known of a candidate's language is kept with it, whatever is decided.
pub proof fn languages_are_noted(
    db: DbModel,
    id: Seq<char>,
    config: Config,
    c: CandidateModel,
    meta: VideoMetadata,
    now: i64,
    k: int,
)
    requires
        db.wf(),
        0 <= k < db.candidates.len(),
        db.candidates[k].video_id == c.video_id,
    ensures
        ({
            let row = gated(db, id, config, c, meta, now).0.candidates[k];
            let told = meta.default_audio_language;
            &&& row.source_language is Some <==> told is Some
            &&& told is Some ==> row.source_language->Some_0 == told->Some_0@
            &&& row.source_language_mismatch <==> told is Some && !language_accepted(
                config.translation.source_lang@,
                told->Some_0@,
            )
        }),
{
    noted_candidate(db, config, meta, k);
}

spec fn noted_of(db: DbModel, config: Config, meta: VideoMetadata, k: int) -> DbModel {
    db.with_candidate(
        k,
        language_marked(
            db.candidates[k],
            opt_view(meta.default_audio_language),
            other_language(config, meta),
        ),
    )
}

proof fn noted_candidate(db: DbModel, config: Config, meta: VideoMetadata, k: int)
    requires
        db.wf(),
        0 <= k < db.candidates.len(),
    ensures
        noted_of(db, config, meta, k).wf(),
        noted_of(db, config, meta, k).candidate_at(db.candidates[k].video_id) == Some(k),
        db.candidate_at(db.candidates[k].video_id) == Some(k),
{
    let row = noted_of(db, config, meta, k).candidates[k];
    candidate_update_keeps_wf(db, k, row);
    channels_and_candidates_are_found(noted_of(db, config, meta, k), 0, k);
    channels_and_candidates_are_found(db, 0, k);
}

/// Where nothing could be learnt of a candidate, live content and other failures make it wait, and
/// length has it refused.
pub proof fn failed_looks_wait(chain: Seq<Seq<char>>)
    requires
        chain.len() > 0,
    ensures
        chain_is_live(chain) ==> failure_verdict(chain) is Defer,
        !chain_is_live(chain) && chain_is_overlong(chain) ==> failure_verdict(chain)
            == VerdictModel::TooLong(chain[0]),
        !chain_is_live(chain) && !chain_is_overlong(chain) ==> failure_verdict(chain) is Defer,
        !(failure_verdict(chain) is Refuse) && !(failure_verdict(chain) is LetIn),
{
}

/// A candidate whose video the queue already has is not looked at: it counts as let in, and stays
/// off the list of those to look at. The others keep their order.
pub proof fn known_videos_are_not_looked_at(db: DbModel, list: Seq<CandidateModel>, now: i64, n: int)
    requires
        0 < n <= list.len(),
        screened(db, list, now, n).fault is None,
    ensures
        ({
            let before = screened(db, list, now, n - 1);
            let after = screened(db, list, now, n);
            let known = exists|j: int|
                0 <= j < before.db.jobs.len() && (#[trigger] before.db.jobs[j]).job.video_id
                    == list[n - 1].video_id;
            &&& before.fault is None
            &&& after.db.jobs == before.db.jobs
            &&& known ==> after.rest == before.rest
            &&& !known ==> after.rest == before.rest.push(list[n - 1]) && after.db == before.db
            &&& known ==> exists|k: int|
                0 <= k < after.db.candidates.len() && (#[trigger] after.db.candidates[k]).video_id
                    == list[n - 1].video_id && after.db.candidates[k].gate_state
                    == GateState::Promoted
        }),
{
    let before = screened(db, list, now, n - 1);
    let after = screened(db, list, now, n);
    let id = list[n - 1].video_id;
    only_what_is_there_is_found(before.db, id, 0);
    if before.db.video_at(id) is Some {
        let k = before.db.candidate_at(id)->Some_0;
        assert(before.db.candidates[k].video_id == id);
        assert(after.db.candidates[k].video_id == id);
    }
}

/// A video that is refused for its time or its language is turned away for good and makes no job.
pub proof fn refused_candidates_stay_out(
    db: DbModel,
    id: Seq<char>,
    config: Config,
    c: CandidateModel,
    meta: VideoMetadata,
    now: i64,
    k: int,
    ch: int,
)
    requires
        db.wf(),
        0 <= k < db.candidates.len(),
        db.candidates[k].video_id == c.video_id,
        db.candidates[k].gate_attempts < i64::MAX,
        0 <= ch < db.channels.len(),
        c.channel_id == Some(db.channels[ch].channel.id),
        !not_recorded_yet(meta),
        !longer_than(meta, config.youtube.max_duration_seconds),
        cutoff_of(db) is Some,
        late_verdict(config, meta, c.published_at, db.channels[ch].baseline_at) is Refuse,
    ensures
        ({
            let (after, r) = gated(db, id, config, c, meta, now);
            &&& r == Ok::<bool, DbError>(false)
            &&& after.jobs == db.jobs && after.over_duration == db.over_duration
            &&& after.candidates[k].gate_state == GateState::Rejected
            &&& after.candidates[k].next_gate_at is None
            &&& after.candidates[k].last_error is Some
        }),
{
    noted_candidate(db, config, meta, k);
    let noted = noted_of(db, config, meta, k);
    channels_and_candidates_are_found(noted, ch, k);
    assert(noted.settings == db.settings);
    assert(cutoff_of(noted) == cutoff_of(db));
}

/// The cutoff for recordings is the one that was noted; where none was, it is noted as now.
pub proof fn cutoff_is_noted_once(db: DbModel, now: i64)
    ensures
        cutoff_of(db) is Some ==> with_cutoff(db, now) == Ok::<(DbModel, int), DbError>(
            (db, cutoff_of(db)->Some_0),
        ),
        cutoff_of(db) is None && rfc3339_text(now as int) is Some ==> {
            let r = with_cutoff(db, now);
            &&& r is Ok && r->Ok_0.1 == now
            &&& r->Ok_0.0.setting("live_replay.enqueue_after"@) == rfc3339_text(now as int)
            &&& r->Ok_0.0.jobs == db.jobs && r->Ok_0.0.candidates == db.candidates
        },
{
    if cutoff_of(db) is None && rfc3339_text(now as int) is Some {
        set_then_get(db, "live_replay.enqueue_after"@, rfc3339_text(now as int)->Some_0, now);
    }
}

/// A job that is asked for by hand belongs to no channel and bears what the video tells, in the mode
/// that was asked for.
pub proof fn jobs_by_hand_bear_the_video(new: NewJob, meta: VideoMetadata, mode: TransferMode)
    requires
        by_hand(new, meta, mode),
    ensures
        new.channel_id is None,
        new.video_id@ == meta.id@ && new.url@ == meta.url@,
        new.title is Some && new.title->Some_0@ == meta.title@,
        new.transfer_mode == mode,
        new.published is None && new.updated is None,
{
}

/// A candidate whose details are not found is put off half an hour.
pub proof fn unknown_candidates_wait(db: DbModel, k: int, error: Seq<char>, now: i64)
    requires
        db.wf(),
        0 <= k < db.candidates.len(),
        db.candidates[k].gate_attempts < i64::MAX,
        countable(now + 1_800_000),
    ensures
        ({
            let (after, r) = put_off(
                db,
                db.candidates[k].video_id,
                now + RECHECK_INTERVAL_MS,
                error,
            );
            &&& r == Ok::<bool, DbError>(false)
            &&& after.candidates[k].gate_state == GateState::Deferred
            &&& after.candidates[k].next_gate_at == Some((now + 1_800_000) as i64)
            &&& after.candidates[k].last_error == Some(error)
            &&& after.jobs == db.jobs
        }),
{
    channels_and_candidates_are_found(db, 0, k);
}

} // verus!
