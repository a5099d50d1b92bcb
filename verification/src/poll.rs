//! Going through the channels at the API, and through all of them once a day.
use vstd::prelude::*;
use vstd::string::StringExecFns;

use crate::channels::{channel_views, due_keys, Due};
use crate::config::Config;
use crate::discovery::{
    api_turn, finding_only_adds_candidates, list_turn, listed_entries, new_ones_bear_their_source,
    taken, upload_turn, ApiTurn, PlaylistVideo,
};
use crate::fault::{refused, DbError};
use crate::json::{Json, JsonModel};
use crate::model::{CandidateSource, GateState};
use crate::order::arranged;
use crate::queue::str_view;
use crate::schedule::{
    api_rescheduled, channels_are_asked_again, next_feed_poll, next_poll_after, DataApiPollDecision,
    QuotaDegradation, ScheduleError,
};
use crate::store::{
    channels_and_candidates_are_found, place, place_means, ChannelModel, ChannelRowModel, Database,
    DbModel,
};
use crate::text::{copy_optional, join, opt_view, signed_decimal, signed_decimal_of};

verus! {

/// What the quota of the API allows, and when it starts anew.
#[derive(Debug, Clone, Copy, PartialEq, Eq, Structural)]
pub struct Quota {
    pub degradation: QuotaDegradation,
    pub reset_at: i64,
}

/// The channels that are due, of which those before `next` are done.
#[derive(Debug)]
pub struct ApiPoll {
    pub ids: Vec<i64>,
    pub next: usize,
    /// How many candidates were found.
    pub found: usize,
    /// The first thing that went wrong.
    pub error: Option<String>,
}

impl ApiPoll {
    /// Whether nothing was done yet.
    pub open spec fn fresh(self, ids: Seq<i64>) -> bool {
        self.ids@ == ids && self.next == 0 && self.found == 0 && self.error is None
    }

    /// Whether one channel more is done, and nothing else changed.
    pub open spec fn passed(self, before: ApiPoll) -> bool {
        self.ids@ == before.ids@ && self.next == before.next + 1 && self.found == before.found
            && opt_view(self.error) == opt_view(before.error)
    }
}

/// What is done next.
#[derive(Debug)]
pub enum ApiStep {
    /// A list of uploads is read, unless it is as it was with that tag.
    Ask { channel_id: i64, playlist: String, etag: Option<String> },
    /// A channel was put off.
    Passed,
    /// All channels are done.
    Done,
}

/// What the API answered.
#[derive(Debug)]
pub enum ApiAnswer {
    /// The list is as it was.
    Unchanged { etag: Option<String> },
    Page { videos: Vec<PlaylistVideo>, etag: Option<String> },
    Failed(String),
}

/// Whether `ids` are the channels that are due at the API, in their order.
pub open spec fn due_ids(db: DbModel, now: i64, ids: Seq<i64>) -> bool {
    exists|order: Seq<int>|
        #![trigger arranged(due_keys(db, Due::DataApi, now), order)]
        arranged(due_keys(db, Due::DataApi, now), order) && ids == order.map_values(
            |k: int| db.channels[k].channel.id,
        )
}

/// Whether a channel is put off: it was scheduled anew without an answer.
pub open spec fn put_off_one(
    before: DbModel,
    after: DbModel,
    config: Config,
    id: i64,
    now: i64,
    quota: Quota,
) -> bool {
    exists|d: Option<DataApiPollDecision>|
        #[trigger] api_rescheduled(
            before,
            after,
            config,
            id,
            now,
            quota.degradation,
            quota.reset_at,
            None,
            Ok::<Option<DataApiPollDecision>, ScheduleError>(d),
        )
}

/// Whether the step from `states[i]` to the next one puts off the channel at `i`.
pub open spec fn step_at(
    states: Seq<DbModel>,
    i: int,
    config: Config,
    ids: Seq<i64>,
    now: i64,
    quota: Quota,
) -> bool {
    put_off_one(states[i], states[i + 1], config, ids[i], now, quota)
}

/// Whether `states` leads from the one tables to the other, putting off a channel at each step.
pub open spec fn leads(
    states: Seq<DbModel>,
    before: DbModel,
    after: DbModel,
    config: Config,
    ids: Seq<i64>,
    now: i64,
    quota: Quota,
) -> bool {
    &&& states.len() > 0
    &&& states.first() == before
    &&& states.last() == after
    &&& forall|i: int|
        0 <= i < states.len() - 1 ==> #[trigger] step_at(states, i, config, ids, now, quota)
}

/// Whether the first `n` channels are put off, one after the other.
pub open spec fn put_off(
    before: DbModel,
    after: DbModel,
    config: Config,
    ids: Seq<i64>,
    n: int,
    now: i64,
    quota: Quota,
) -> bool {
    exists|states: Seq<DbModel>| #[trigger]
        leads(states, before, after, config, ids, now, quota) && states.len() == n + 1
}

proof fn put_off_another(
    before: DbModel,
    mid: DbModel,
    after: DbModel,
    config: Config,
    ids: Seq<i64>,
    n: int,
    now: i64,
    quota: Quota,
)
    requires
        put_off(before, mid, config, ids, n, now, quota),
        put_off_one(mid, after, config, ids[n], now, quota),
    ensures
        put_off(before, after, config, ids, n + 1, now, quota),
{
    let states = choose|states: Seq<DbModel>| #[trigger]
        leads(states, before, mid, config, ids, now, quota) && states.len() == n + 1;
    let longer = states.push(after);
    assert forall|i: int| 0 <= i < longer.len() - 1 implies #[trigger] step_at(
        longer,
        i,
        config,
        ids,
        now,
        quota,
    ) by {
        if i < n {
            assert(step_at(states, i, config, ids, now, quota));
        }
    }
    assert(leads(longer, before, after, config, ids, now, quota));
}

/// Whether a channel cannot be scheduled anew.
pub open spec fn refuses(
    db: DbModel,
    config: Config,
    id: i64,
    now: i64,
    quota: Quota,
    e: ScheduleError,
) -> bool {
    api_rescheduled(
        db,
        db,
        config,
        id,
        now,
        quota.degradation,
        quota.reset_at,
        None,
        Err::<Option<DataApiPollDecision>, ScheduleError>(e),
    )
}

/// What putting off channels comes to: all of them, or those before one that cannot be.
pub open spec fn all_put_off(
    before: DbModel,
    after: DbModel,
    config: Config,
    ids: Seq<i64>,
    now: i64,
    quota: Quota,
    r: Result<(), ScheduleError>,
) -> bool {
    match r {
        Ok(()) => put_off(before, after, config, ids, ids.len() as int, now, quota),
        Err(e) => exists|n: int|
            0 <= n < ids.len() && #[trigger] put_off(before, after, config, ids, n, now, quota)
                && refuses(after, config, ids[n], now, quota, e),
    }
}

/// Whether there is a channel of that number.
pub open spec fn known(db: DbModel, id: i64) -> bool {
    exists|k: int| 0 <= k < db.channels.len() && (#[trigger] db.channels[k]).channel.id == id
}

/// A channel that is in the tables is found by its number.
proof fn known_is_found(db: DbModel, id: i64)
    requires
        known(db, id),
    ensures
        db.channel_at(id) is Some,
{
    let p = |r: ChannelRowModel| r.channel.id == id;
    place_means(db.channels, p);
    if place(db.channels, p) is None {
        let k = choose|k: int|
            0 <= k < db.channels.len() && (#[trigger] db.channels[k]).channel.id == id;
        assert(!p(db.channels[k]));
    }
}

impl Database {
    fn put_off_channels(&mut self, config: &Config, ids: &Vec<i64>, now: i64, quota: Quota) -> (r:
        Result<(), ScheduleError>)
        ensures
            all_put_off(old(self)@, final(self)@, *config, ids@, now, quota, r),
            old(self)@.wf() ==> final(self)@.wf(),
            quota.degradation == QuotaDegradation::FallbackOnly && (forall|j: int|
                0 <= j < ids@.len() ==> known(old(self)@, #[trigger] ids@[j])) ==> r is Ok,
    {
        let ghost waits = quota.degradation == QuotaDegradation::FallbackOnly && (forall|j: int|
            0 <= j < ids@.len() ==> known(old(self)@, #[trigger] ids@[j]));
        let mut i: usize = 0;
        proof {
            assert(leads(seq![self@], self@, self@, *config, ids@, now, quota));
        }
        while i < ids.len()
            invariant
                0 <= i <= ids@.len(),
                waits ==> quota.degradation == QuotaDegradation::FallbackOnly,
                waits ==> forall|j: int|
                    0 <= j < ids@.len() ==> known(self@, #[trigger] ids@[j]),
                waits == (quota.degradation == QuotaDegradation::FallbackOnly && (forall|j: int|
                    0 <= j < ids@.len() ==> known(old(self)@, #[trigger] ids@[j]))),
                put_off(old(self)@, self@, *config, ids@, i as int, now, quota),
                old(self)@.wf() ==> self@.wf(),
            decreases ids@.len() - i,
        {
            let ghost mid = self@;
            proof {
                if waits {
                    known_is_found(mid, ids@[i as int]);
                }
            }
            match self.reschedule_api_channel(
                config,
                ids[i],
                now,
                quota.degradation,
                quota.reset_at,
                None,
            ) {
                Ok(_) => {
                    proof {
                        assert(put_off_one(mid, self@, *config, ids@[i as int], now, quota));
                        put_off_another(
                            old(self)@,
                            mid,
                            self@,
                            *config,
                            ids@,
                            i as int,
                            now,
                            quota,
                        );
                        if waits {
                            assert forall|j: int| 0 <= j < ids@.len() implies known(
                                self@,
                                #[trigger] ids@[j],
                            ) by {
                                let k = choose|k: int|
                                    0 <= k < mid.channels.len() && (
                                    #[trigger] mid.channels[k]).channel.id == ids@[j];
                                assert(self@.channels[k].channel.id == ids@[j]);
                            }
                        }
                    }
                },
                Err(e) => {
                    proof {
                        assert(self@ == mid);
                        assert(refuses(mid, *config, ids@[i as int], now, quota, e));
                    }
                    return Err(e);
                },
            }
            i = i + 1;
        }
        Ok(())
    }

    /// Begins to go through the channels that are due at the API. Where none is, there is nothing
    /// to do; where the quota is used up, they wait until it starts anew.
    pub fn begin_api_poll(&mut self, config: &Config, quota: Quota, now: i64) -> (r: Result<
        Option<ApiPoll>,
        ScheduleError,
    >)
        ensures
            exists|ids: Seq<i64>|
                #![trigger due_ids(old(self)@, now, ids)]
                due_ids(old(self)@, now, ids) && if ids.len() == 0 {
                    r == Ok::<Option<ApiPoll>, ScheduleError>(None) && final(self)@ == old(self)@
                } else if quota.degradation == QuotaDegradation::FallbackOnly {
                    r == Ok::<Option<ApiPoll>, ScheduleError>(None) && put_off(
                        old(self)@,
                        final(self)@,
                        *config,
                        ids,
                        ids.len() as int,
                        now,
                        quota,
                    )
                } else {
                    r matches Ok(Some(p)) && p.fresh(ids) && final(self)@ == old(self)@
                },
            old(self)@.wf() ==> final(self)@.wf(),
    {
        let channels = self.list_due_data_api_channels(now);
        let mut ids: Vec<i64> = Vec::new();
        let mut i: usize = 0;
        while i < channels.len()
            invariant
                0 <= i <= channels@.len(),
                ids@.len() == i,
                forall|j: int| 0 <= j < i ==> (#[trigger] ids@[j]) == channels@[j].id,
            decreases channels@.len() - i,
        {
            ids.push(channels[i].id);
            i = i + 1;
        }
        proof {
            let keys = due_keys(self@, Due::DataApi, now);
            let order = choose|order: Seq<int>|
                #![trigger arranged(keys, order)]
                arranged(keys, order) && channel_views(channels@)
                    == order.map_values(|k: int| self@.channels[k].channel);
            let views = channel_views(channels@);
            assert(views.len() == channels@.len());
            assert forall|j: int| 0 <= j < ids@.len() implies ids@[j] == self@.channels[order[j]].channel.id by {
                assert(views[j] == channels@[j]@);
            }
            assert(ids@ =~= order.map_values(|k: int| self@.channels[k].channel.id));
            assert(due_ids(self@, now, ids@));
            assert forall|j: int| 0 <= j < ids@.len() implies known(self@, #[trigger] ids@[j]) by {
                assert(self@.channels[order[j]].channel.id == ids@[j]);
            }
        }
        if ids.len() == 0 {
            return Ok(None);
        }
        if quota.degradation == QuotaDegradation::FallbackOnly {
            return match self.put_off_channels(config, &ids, now, quota) {
                Ok(()) => Ok(None),
                Err(e) => Err(e),
            };
        }
        Ok(Some(ApiPoll { ids, next: 0, found: 0, error: None }))
    }

    /// Gives up before a channel was asked for: all that are due are put off.
    pub fn give_up_api_poll(&mut self, config: &Config, poll: &ApiPoll, quota: Quota, now: i64) -> (r:
        Result<(), ScheduleError>)
        ensures
            all_put_off(old(self)@, final(self)@, *config, poll.ids@, now, quota, r),
            old(self)@.wf() ==> final(self)@.wf(),
    {
        self.put_off_channels(config, &poll.ids, now, quota)
    }

    /// Decides what is done with the next channel. One that cannot be asked for is put off.
    pub fn next_api_step(
        &mut self,
        config: &Config,
        poll: &mut ApiPoll,
        quota: Quota,
        now: i64,
    ) -> (r: Result<ApiStep, ScheduleError>)
        ensures
            r is Err ==> *final(poll) == *old(poll),
            old(poll).next >= old(poll).ids@.len() ==> r == Ok::<ApiStep, ScheduleError>(
                ApiStep::Done,
            ) && final(self)@ == old(self)@ && *final(poll) == *old(poll),
            old(poll).next < old(poll).ids@.len() ==> {
                let id = old(poll).ids@[old(poll).next as int];
                match old(self)@.channel_at(id) {
                    None => r == Err::<ApiStep, ScheduleError>(
                        ScheduleError::Database(DbError::NoRow),
                    ) && final(self)@ == old(self)@,
                    Some(k) => {
                        let c = old(self)@.channels[k].channel;
                        if quota.degradation != QuotaDegradation::FallbackOnly
                            && c.uploads_playlist_id is Some {
                            &&& r matches Ok(ApiStep::Ask { channel_id, playlist, etag })
                            &&& channel_id == id
                            &&& Some(playlist@) == c.uploads_playlist_id
                            &&& opt_view(etag) == c.data_api_etag
                            &&& final(self)@ == old(self)@
                            &&& *final(poll) == *old(poll)
                        } else {
                            match r {
                                Ok(step) => step is Passed && final(poll).passed(*old(poll))
                                    && put_off_one(
                                    old(self)@,
                                    final(self)@,
                                    *config,
                                    id,
                                    now,
                                    quota,
                                ),
                                Err(e) => final(self)@ == old(self)@ && refuses(
                                    old(self)@,
                                    *config,
                                    id,
                                    now,
                                    quota,
                                    e,
                                ),
                            }
                        }
                    },
                }
            },
            old(self)@.wf() ==> final(self)@.wf(),
    {
        if poll.next >= poll.ids.len() {
            return Ok(ApiStep::Done);
        }
        let id: i64 = poll.ids[poll.next];
        let channel = match self.channel(id) {
            Ok(c) => c,
            Err(e) => {
                return Err(ScheduleError::Database(e));
            },
        };
        let playlist = copy_optional(&channel.uploads_playlist_id);
        match api_turn(quota.degradation, playlist.is_some()) {
            ApiTurn::Ask => match playlist {
                Some(playlist) => {
                    return Ok(
                        ApiStep::Ask {
                            channel_id: id,
                            playlist,
                            etag: copy_optional(&channel.data_api_etag),
                        },
                    );
                },
                None => {},
            },
            _ => {},
        }
        match self.reschedule_api_channel(
            config,
            id,
            now,
            quota.degradation,
            quota.reset_at,
            None,
        ) {
            Ok(_) => {
                poll.next = poll.next + 1;
                Ok(ApiStep::Passed)
            },
            Err(e) => Err(e),
        }
    }

    /// Takes over what the API answered for the channel at hand: new videos become candidates, and
    /// the channel is scheduled anew. The first failure is kept.
    pub fn take_api_answer(
        &mut self,
        config: &Config,
        poll: &mut ApiPoll,
        answer: &ApiAnswer,
        quota: Quota,
        now: i64,
    ) -> (r: Result<(), ScheduleError>)
        requires
            old(poll).next < old(poll).ids@.len(),
        ensures
            r is Err ==> *final(poll) == *old(poll),
            ({
                let id = old(poll).ids@[old(poll).next as int];
                match page_taken(old(self)@, id, *answer, config.youtube.max_duration_seconds, now) {
                    Err((db, e)) => r == Err::<(), ScheduleError>(ScheduleError::Database(e))
                        && final(self)@ == db,
                    Ok((db, added)) => {
                        &&& r is Ok ==> {
                            &&& final(poll).ids@ == old(poll).ids@
                            &&& final(poll).next == old(poll).next + 1
                            &&& final(poll).found == if old(poll).found + added <= usize::MAX {
                                old(poll).found + added
                            } else {
                                usize::MAX as int
                            }
                            &&& opt_view(final(poll).error) == match (
                                opt_view(old(poll).error),
                                *answer,
                            ) {
                                (None, ApiAnswer::Failed(text)) => Some(text@),
                                (kept, _) => kept,
                            }
                        }
                        &&& answered(db, final(self)@, *config, id, now, quota, *answer, r)
                    },
                }
            }),
            old(self)@.wf() ==> final(self)@.wf(),
    {
        let count: usize = poll.ids.len();
        let id: i64 = poll.ids[poll.next];
        let mut added: usize = 0;
        let etag: Option<&str> = match answer {
            ApiAnswer::Failed(_) => None,
            ApiAnswer::Unchanged { etag } => as_str_option(etag),
            ApiAnswer::Page { videos, etag } => {
                match self.persist_playlist_candidates(
                    id,
                    videos,
                    config.youtube.max_duration_seconds,
                    now,
                ) {
                    Ok(n) => {
                        added = n;
                    },
                    Err(e) => {
                        return Err(ScheduleError::Database(e));
                    },
                }
                as_str_option(etag)
            },
        };
        let ghost mid = self@;
        match self.reschedule_api_channel(
            config,
            id,
            now,
            quota.degradation,
            quota.reset_at,
            etag,
        ) {
            Err(e) => {
                proof {
                    assert(answered(
                        mid,
                        self@,
                        *config,
                        id,
                        now,
                        quota,
                        *answer,
                        Err::<(), ScheduleError>(e),
                    ));
                }
                return Err(e);
            },
            Ok(d) => {
                proof {
                    assert(answered(mid, self@, *config, id, now, quota, *answer, Ok(())));
                }
            },
        }
        match answer {
            ApiAnswer::Failed(text) => {
                if poll.error.is_none() {
                    poll.error = Some(text.clone());
                }
            },
            _ => {},
        }
        poll.found = poll.found.saturating_add(added);
        assert(poll.next < count);
        poll.next = poll.next + 1;
        Ok(())
    }
}

fn as_str_option(s: &Option<String>) -> (r: Option<&str>)
    ensures
        str_view(r) == opt_view(*s),
{
    match s {
        Some(s) => Some(s.as_str()),
        None => None,
    }
}

/// The tag that comes with an answer.
pub open spec fn answer_tag(answer: ApiAnswer) -> Option<Seq<char>> {
    match answer {
        ApiAnswer::Unchanged { etag } => opt_view(etag),
        ApiAnswer::Page { videos: _, etag } => opt_view(etag),
        ApiAnswer::Failed(_) => None,
    }
}

/// Whether the channel is scheduled anew after an answer, with the tag that came with it.
pub open spec fn answered(
    before: DbModel,
    after: DbModel,
    config: Config,
    id: i64,
    now: i64,
    quota: Quota,
    answer: ApiAnswer,
    r: Result<(), ScheduleError>,
) -> bool {
    exists|etag: Option<&str>, d: Result<Option<DataApiPollDecision>, ScheduleError>|
        str_view(etag) == answer_tag(answer) && #[trigger] api_rescheduled(
            before,
            after,
            config,
            id,
            now,
            quota.degradation,
            quota.reset_at,
            etag,
            d,
        ) && match d {
            Ok(_) => r is Ok,
            Err(e) => r == Err::<(), ScheduleError>(e),
        }
}

/// What the videos of an answer do to the tables, and how many candidates they make.
pub open spec fn page_taken(
    db: DbModel,
    id: i64,
    answer: ApiAnswer,
    limit_seconds: u64,
    now: i64,
) -> Result<(DbModel, int), (DbModel, DbError)> {
    match answer {
        ApiAnswer::Page { videos, etag: _ } => {
            let end = taken(
                db,
                videos@.map_values(|v: PlaylistVideo| upload_turn(v)),
                Some(id),
                CandidateSource::DataApi,
                limit_seconds,
                now,
                videos@.len() as int,
            );
            match end.outcome {
                Ok(n) => Ok((end.db, n)),
                Err(e) => Err((end.db, e)),
            }
        },
        _ => Ok((db, 0)),
    }
}

impl ApiPoll {
    /// How going through the channels ended: with how many candidates, or with what went wrong
    /// first.
    pub fn outcome(&self) -> (r: Result<usize, String>)
        ensures
            match self.error {
                None => r == Ok::<usize, String>(self.found),
                Some(e) => r matches Err(text) && text@ == "一个或多个频道的 Data API 主发现失败: "@
                    + e@,
            },
    {
        match &self.error {
            None => Ok(self.found),
            Some(e) => Err(join("一个或多个频道的 Data API 主发现失败: ", e.as_str())),
        }
    }
}

impl Database {
    /// Notes how reading the feed of a channel ended, and when it is read next. A feed that failed
    /// counts as a failure even where yt-dlp helped out.
    pub fn end_feed_poll(
        &mut self,
        config: &Config,
        channel_id: i64,
        error: Option<&str>,
        rss_failed: bool,
        retry_at: Option<i64>,
        jitter: u32,
        now: i64,
    ) -> (r: Result<(), DbError>)
        ensures
            ({
                let failed = rss_failed || error is Some;
                match old(self)@.channel_at(channel_id) {
                    None => r == refused::<()>(DbError::NoRow) && final(self)@ == old(self)@,
                    Some(k) => {
                        let row = old(self)@.channels[k];
                        match next_feed_poll(*config, row.channel, failed, retry_at, jitter, now) {
                            None => r == refused::<()>(DbError::OutOfCalendar) && final(self)@
                                == old(self)@,
                            Some(at) => if failed && row.channel.consecutive_failures == u32::MAX {
                                r == refused::<()>(DbError::TooLarge) && final(self)@ == old(self)@
                            } else {
                                r is Ok && final(self)@ == old(self)@.with_channel(
                                    k,
                                    (ChannelRowModel {
                                        channel: ChannelModel {
                                            last_checked_at: Some(now),
                                            last_error: str_view(error),
                                            next_poll_at: Some(at as i64),
                                            consecutive_failures: if failed {
                                                (row.channel.consecutive_failures + 1) as u32
                                            } else {
                                                0
                                            },
                                            ..row.channel
                                        },
                                        ..row
                                    }),
                                )
                            },
                        }
                    },
                }
            }),
            old(self)@.wf() ==> final(self)@.wf(),
    {
        let failed = rss_failed || error.is_some();
        let channel = match self.channel(channel_id) {
            Ok(c) => c,
            Err(e) => {
                return Err(e);
            },
        };
        match next_poll_after(config, &channel, failed, retry_at, jitter, now) {
            None => Err(DbError::OutOfCalendar),
            Some(at) => self.finish_channel_poll(channel_id, error, failed, at, now),
        }
    }
}

/// What looking through the videos of a channel came to.
#[derive(Debug)]
pub enum Scanned {
    /// The API gave its list of uploads.
    Page { videos: Vec<PlaylistVideo>, etag: Option<String> },
    /// yt-dlp gave its list, after the API failed where that was asked.
    Listed { list: Json, api: Option<String> },
    /// Its list could not be read.
    Failed { error: String, api: Option<String> },
}

/// What is noted of a failure: what yt-dlp said, and before that what the API said where it was
/// asked.
pub open spec fn scan_fault(api: Option<Seq<char>>, error: Seq<char>) -> Seq<char> {
    match api {
        None => error,
        Some(a) => "API: "@ + a + "; yt-dlp: "@ + error,
    }
}

fn scan_fault_text(api: &Option<String>, error: &str) -> (r: String)
    ensures
        r@ == scan_fault(opt_view(*api), error@),
{
    match api {
        None => error.to_owned(),
        Some(a) => {
            let mut s = "API: ".to_owned();
            s.append(a.as_str());
            s.append("; yt-dlp: ");
            s.append(error);
            s
        },
    }
}

/// The tables with a note on a channel of when it was looked through, and of what went wrong.
pub open spec fn noted(db: DbModel, id: i64, error: Option<Seq<char>>, now: i64) -> DbModel {
    match db.channel_at(id) {
        None => db,
        Some(k) => {
            let row = db.channels[k];
            db.with_channel(
                k,
                ChannelRowModel {
                    channel: ChannelModel { last_error: error, ..row.channel },
                    last_reconcile_at: Some(now),
                    ..row
                },
            )
        },
    }
}

/// The tables with the tag of the last answer, where one came.
pub open spec fn tagged(db: DbModel, id: i64, etag: Option<Seq<char>>) -> Result<DbModel, DbError> {
    match etag {
        None => Ok(db),
        Some(tag) => match db.channel_at(id) {
            None => Err(DbError::NoChannel),
            Some(k) => {
                let row = db.channels[k];
                Ok(
                    db.with_channel(
                        k,
                        ChannelRowModel {
                            channel: ChannelModel { data_api_etag: Some(tag), ..row.channel },
                            ..row
                        },
                    ),
                )
            },
        },
    }
}

/// What looking through a channel does: its videos become candidates, and it is noted how it went.
/// A failure to read yt-dlp's list is noted and goes no further.
pub open spec fn scan_settled(
    db: DbModel,
    id: i64,
    scanned: Scanned,
    limit_seconds: u64,
    now: i64,
) -> (DbModel, Result<int, DbError>) {
    match scanned {
        Scanned::Page { videos, etag } => {
            let end = taken(
                db,
                videos@.map_values(|v: PlaylistVideo| upload_turn(v)),
                Some(id),
                CandidateSource::DataApi,
                limit_seconds,
                now,
                videos@.len() as int,
            );
            match end.outcome {
                Err(e) => (end.db, Err(e)),
                Ok(n) => match tagged(end.db, id, opt_view(etag)) {
                    Err(e) => (end.db, Err(e)),
                    Ok(after) => (noted(after, id, None, now), Ok(n)),
                },
            }
        },
        Scanned::Listed { list, api } => match db.channel_at(id) {
            None => (db, Ok(0)),
            Some(k) => {
                let end = taken(
                    db,
                    listed_entries(list@).map_values(
                        |e: JsonModel| list_turn(e, db.channels[k].baseline_at),
                    ),
                    Some(id),
                    CandidateSource::Ytdlp,
                    limit_seconds,
                    now,
                    listed_entries(list@).len() as int,
                );
                match end.outcome {
                    Ok(n) => (noted(end.db, id, None, now), Ok(n)),
                    Err(e) => (
                        noted(
                            end.db,
                            id,
                            Some(
                                scan_fault(
                                    opt_view(api),
                                    e.text(signed_decimal_of(id as int), ""@),
                                ),
                            ),
                            now,
                        ),
                        Ok(0),
                    ),
                }
            },
        },
        Scanned::Failed { error, api } => (
            noted(db, id, Some(scan_fault(opt_view(api), error@)), now),
            Ok(0),
        ),
    }
}

impl Database {
    /// Takes over what looking through the videos of a channel came to. Tells how many candidates
    /// it made.
    pub fn settle_scan(
        &mut self,
        channel_id: i64,
        scanned: &Scanned,
        limit_seconds: u64,
        now: i64,
    ) -> (r: Result<usize, DbError>)
        ensures
            ({
                let end = scan_settled(old(self)@, channel_id, *scanned, limit_seconds, now);
                &&& final(self)@ == end.0
                &&& match end.1 {
                    Ok(n) => r matches Ok(count) && count == n,
                    Err(e) => r == Err::<usize, DbError>(e),
                }
            }),
            old(self)@.wf() ==> final(self)@.wf(),
    {
        match scanned {
            Scanned::Page { videos, etag } => {
                let count: usize = match self.persist_playlist_candidates(
                    channel_id,
                    videos,
                    limit_seconds,
                    now,
                ) {
                    Ok(n) => n,
                    Err(e) => {
                        return Err(e);
                    },
                };
                match etag {
                    None => {},
                    Some(tag) => match self.set_channel_data_api_etag(channel_id, tag.as_str()) {
                        Ok(()) => {},
                        Err(e) => {
                            return Err(e);
                        },
                    },
                }
                self.mark_channel_reconciled(channel_id, None, now);
                Ok(count)
            },
            Scanned::Listed { list, api } => match self.take_reconciled(
                channel_id,
                list,
                limit_seconds,
                now,
            ) {
                Ok(count) => {
                    self.mark_channel_reconciled(channel_id, None, now);
                    Ok(count)
                },
                Err(e) => {
                    let name = signed_decimal(channel_id);
                    let said = e.message(name.as_str(), "");
                    let text = scan_fault_text(api, said.as_str());
                    self.mark_channel_reconciled(channel_id, Some(text.as_str()), now);
                    Ok(0)
                },
            },
            Scanned::Failed { error, api } => {
                let text = scan_fault_text(api, error.as_str());
                self.mark_channel_reconciled(channel_id, Some(text.as_str()), now);
                Ok(0)
            },
        }
    }
}

// ---------------------------------------------------------------------------------------------
// What a scan leaves behind
// ---------------------------------------------------------------------------------------------

/// A channel that was gone through bears the time and what went wrong, or that nothing did; no other
/// channel changes.
pub proof fn scans_are_noted(db: DbModel, k: int, error: Option<Seq<char>>, now: i64)
    requires
        db.wf(),
        0 <= k < db.channels.len(),
    ensures
        ({
            let after = noted(db, db.channels[k].channel.id, error, now);
            &&& after.channels.len() == db.channels.len()
            &&& after.channels[k].last_reconcile_at == Some(now)
            &&& after.channels[k].channel.last_error == error
            &&& after.channels[k].channel.id == db.channels[k].channel.id
            &&& after.channels[k].baseline_at == db.channels[k].baseline_at
            &&& after.channels[k].channel.next_poll_at == db.channels[k].channel.next_poll_at
            &&& after.channels[k].channel.enabled == db.channels[k].channel.enabled
            &&& forall|j: int|
                0 <= j < db.channels.len() && j != k ==> #[trigger] after.channels[j]
                    == db.channels[j]
            &&& after.candidates == db.candidates && after.jobs == db.jobs
        }),
{
    channels_and_candidates_are_found(db, k, 0);
}

/// The tag of an answer is kept with its channel; without one the old tag stays.
pub proof fn tags_are_kept(db: DbModel, k: int, tag: Seq<char>)
    requires
        db.wf(),
        0 <= k < db.channels.len(),
    ensures
        ({
            let r = tagged(db, db.channels[k].channel.id, Some(tag));
            &&& r is Ok
            &&& r->Ok_0.channels[k].channel.data_api_etag == Some(tag)
            &&& r->Ok_0.channels[k].channel.last_error == db.channels[k].channel.last_error
            &&& r->Ok_0.candidates == db.candidates
        }),
        tagged(db, db.channels[k].channel.id, None) == Ok::<DbModel, DbError>(db),
{
    channels_and_candidates_are_found(db, k, 0);
}

/// A list that could not be read brings no candidate and is noted as an error, with what the API
/// said where it was asked first.
pub proof fn failed_scans_bring_nothing(
    db: DbModel,
    k: int,
    error: String,
    api: Option<String>,
    limit_seconds: u64,
    now: i64,
)
    requires
        db.wf(),
        0 <= k < db.channels.len(),
    ensures
        ({
            let (after, r) = scan_settled(
                db,
                db.channels[k].channel.id,
                Scanned::Failed { error, api },
                limit_seconds,
                now,
            );
            &&& r == Ok::<int, DbError>(0)
            &&& after.candidates == db.candidates && after.jobs == db.jobs
            &&& after.channels[k].channel.last_error is Some
            &&& api is None ==> after.channels[k].channel.last_error == Some(error@)
            &&& after.channels[k].last_reconcile_at == Some(now)
        }),
{
    scans_are_noted(
        db,
        k,
        Some(scan_fault(opt_view(api), error@)),
        now,
    );
}

/// What a page brings is of the API and of that channel: nothing but candidates is added, and the
/// count is how many. An answer without a page brings nothing.
pub proof fn pages_bring_candidates(
    db: DbModel,
    id: i64,
    answer: ApiAnswer,
    limit_seconds: u64,
    now: i64,
)
    ensures
        !(answer is Page) ==> page_taken(db, id, answer, limit_seconds, now) == Ok::<
            (DbModel, int),
            (DbModel, DbError),
        >((db, 0)),
        page_taken(db, id, answer, limit_seconds, now) matches Ok((after, n)) ==> {
            &&& after.jobs == db.jobs && after.channels == db.channels
            &&& after.candidates.len() == db.candidates.len() + n
            &&& forall|i: int|
                0 <= i < db.candidates.len() ==> #[trigger] after.candidates[i] == db.candidates[i]
            &&& forall|i: int|
                db.candidates.len() <= i < after.candidates.len() ==> (
                #[trigger] after.candidates[i]).source == CandidateSource::DataApi
                    && after.candidates[i].channel_id == Some(id)
                    && after.candidates[i].discovered_at == now && after.candidates[i].gate_state
                    == GateState::Pending
        },
{
    if answer is Page {
        let videos = answer->videos;
        let turns = videos@.map_values(|v: PlaylistVideo| upload_turn(v));
        new_ones_bear_their_source(
            db,
            turns,
            Some(id),
            CandidateSource::DataApi,
            limit_seconds,
            now,
            videos@.len() as int,
        );
        finding_only_adds_candidates(
            db,
            turns,
            Some(id),
            CandidateSource::DataApi,
            limit_seconds,
            now,
            videos@.len() as int,
        );
    }
}

/// A channel that answered is asked again later, and bears the tag of its answer.
pub proof fn answers_schedule_the_channel(
    before: DbModel,
    after: DbModel,
    config: Config,
    k: int,
    now: i64,
    quota: Quota,
    answer: ApiAnswer,
    r: Result<(), ScheduleError>,
)
    requires
        before.wf(),
        0 <= k < before.channels.len(),
        answered(before, after, config, before.channels[k].channel.id, now, quota, answer, r),
    ensures
        r is Err ==> after == before,
        r is Ok ==> after.channels[k].channel.next_data_api_poll_at is Some,
        r is Ok && quota.degradation == QuotaDegradation::FallbackOnly
            ==> after.channels[k].channel.next_data_api_poll_at == Some(quota.reset_at),
        r is Ok && answer is Failed ==> after.channels[k].channel.data_api_etag
            == before.channels[k].channel.data_api_etag,
        r is Ok && answer is Page && answer->Page_etag is Some
            ==> after.channels[k].channel.data_api_etag == Some(answer->Page_etag->Some_0@),
        after.candidates == before.candidates && after.jobs == before.jobs,
{
    let id = before.channels[k].channel.id;
    let (etag, d) = choose|
        etag: Option<&str>,
        d: Result<Option<DataApiPollDecision>, ScheduleError>,
    |
        str_view(etag) == answer_tag(answer) && #[trigger] api_rescheduled(
            before,
            after,
            config,
            id,
            now,
            quota.degradation,
            quota.reset_at,
            etag,
            d,
        ) && match d {
            Ok(_) => r is Ok,
            Err(e) => r == Err::<(), ScheduleError>(e),
        };
    channels_are_asked_again(
        before,
        after,
        config,
        k,
        now,
        quota.degradation,
        quota.reset_at,
        etag,
        d,
    );
}

} // verus!
