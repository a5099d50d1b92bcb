//! The lock for maintenance, its history, and what keeps the service from being idle.
use vstd::prelude::*;

use crate::clock::{stamp_text, timestamp_text};
use crate::fault::{refused, DbError};
use crate::jobs::{countable, later};
use crate::model::JobStatus;
use crate::order::{
    arrange, arrange_texts, arranged, arrangement_is_unique, optional_views, places, text_arranged,
    text_arrangement_is_unique, Key,
};
use crate::queue::str_view;
use crate::recovery::at_most;
use crate::store::{
    hold_view, Database, DbModel, HoldAction, HoldEventModel, HoldModel, JobRow, MaintenanceHold,
    MaintenanceHoldEvent, RowModel, StageModel, SubtitleModel, SubtitleState, UploadModel,
    UploadState,
};
use crate::text::{
    blank, is_blank, join, opt_view, same_text, signed_decimal, signed_decimal_of, starts,
    starts_with, trimmed, views,
};

verus! {

/// What keeps the service from being idle, of one kind.
#[derive(Debug)]
pub struct MaintenanceBlocker {
    pub kind: String,
    pub count: usize,
    pub details: Vec<String>,
}

/// What a blocker holds.
#[verifier::ext_equal]
pub struct BlockerModel {
    pub kind: Seq<char>,
    pub count: int,
    pub details: Seq<Seq<char>>,
}

impl MaintenanceBlocker {
    /// What the blocker holds.
    pub open spec fn view(&self) -> BlockerModel {
        BlockerModel {
            kind: self.kind@,
            count: self.count as int,
            details: views(self.details@),
        }
    }

    /// Whether the count is that of the details, and there are some.
    pub open spec fn wf(&self) -> bool {
        self.count == self.details@.len() && self.count > 0
    }
}

/// Whether the service is idle, who holds the lock or held it last, and what keeps the service busy.
#[derive(Debug)]
pub struct MaintenanceStatus {
    pub checked_at: i64,
    pub idle: bool,
    pub hold: Option<MaintenanceHold>,
    pub expired_hold: Option<MaintenanceHold>,
    pub blockers: Vec<MaintenanceBlocker>,
}

/// What a list of blockers holds.
pub open spec fn blocker_views(v: Seq<MaintenanceBlocker>) -> Seq<BlockerModel> {
    v.map_values(|b: MaintenanceBlocker| b@)
}

/// When a lease that starts now ends, or why it cannot start.
pub open spec fn lease_end(now: i64, lease_seconds: i64) -> Result<int, DbError> {
    if lease_seconds <= 0 {
        Err(DbError::HoldLease)
    } else if !countable(later(now, lease_seconds)) || stamp_text(later(now, lease_seconds)) is None {
        Err(DbError::HoldRange)
    } else {
        Ok(later(now, lease_seconds))
    }
}

fn maintenance_deadline(now: i64, lease_seconds: i64) -> (r: Result<i64, DbError>)
    ensures
        match lease_end(now, lease_seconds) {
            Ok(end) => r matches Ok(x) && x == end,
            Err(e) => r == refused::<i64>(e),
        },
{
    if lease_seconds <= 0 {
        return Err(DbError::HoldLease);
    }
    let end: i128 = (now as i128) + (lease_seconds as i128) * 1000;
    if end > i64::MAX as i128 {
        return Err(DbError::HoldRange);
    }
    let end: i64 = end as i64;
    if timestamp_text(end).is_none() {
        return Err(DbError::HoldRange);
    }
    Ok(end)
}

impl DbModel {
    /// The tables with the lock as given and a line in its history.
    pub open spec fn hold_changed(self, hold: Option<HoldModel>, event: HoldEventModel) -> DbModel {
        DbModel {
            hold,
            hold_events: self.hold_events.push(event),
            hold_event_seq: (self.hold_event_seq + 1) as i64,
            ..self
        }
    }

    /// A line in the history of the lock.
    pub open spec fn hold_event(
        self,
        action: HoldAction,
        hold: HoldModel,
        previous: Option<HoldModel>,
        now: i64,
    ) -> HoldEventModel {
        HoldEventModel {
            id: (self.hold_event_seq + 1) as i64,
            action,
            owner: hold.owner,
            previous_owner: match previous {
                Some(p) => Some(p.owner),
                None => None,
            },
            reason: hold.reason,
            previous_reason: match previous {
                Some(p) => Some(p.reason),
                None => None,
            },
            occurred_at: now,
            expires_at: Some(hold.expires_at),
        }
    }
}

/// What taking the lock does: nothing while somebody holds it; one whose lease is over is taken
/// over.
pub open spec fn hold_acquired(
    db: DbModel,
    owner: Seq<char>,
    reason: Seq<char>,
    lease_seconds: i64,
    now: i64,
) -> Result<Option<DbModel>, DbError> {
    if is_blank(owner) {
        Err(DbError::HoldOwner)
    } else if is_blank(reason) {
        Err(DbError::HoldReason)
    } else {
        match lease_end(now, lease_seconds) {
            Err(e) => Err(e),
            Ok(end) => if db.held(now) {
                Ok(None)
            } else if db.hold_event_seq == i64::MAX {
                Err(DbError::Full)
            } else {
                let hold = HoldModel {
                    owner,
                    reason,
                    acquired_at: now,
                    heartbeat_at: now,
                    expires_at: end as i64,
                };
                Ok(
                    Some(
                        db.hold_changed(
                            Some(hold),
                            db.hold_event(
                                if db.hold is Some {
                                    HoldAction::TakenOver
                                } else {
                                    HoldAction::Acquired
                                },
                                hold,
                                db.hold,
                                now,
                            ),
                        ),
                    ),
                )
            },
        }
    }
}

/// What renewing the lock does: nothing unless it is held by that owner.
pub open spec fn hold_renewed(db: DbModel, owner: Seq<char>, lease_seconds: i64, now: i64) -> Result<
    Option<DbModel>,
    DbError,
> {
    if is_blank(owner) {
        Err(DbError::HoldOwner)
    } else {
        match (lease_end(now, lease_seconds), db.hold) {
            (Err(e), _) => Err(e),
            (Ok(end), Some(h)) => if h.owner == owner && h.expires_at > now {
                if db.hold_event_seq == i64::MAX {
                    Err(DbError::Full)
                } else {
                    let hold = HoldModel { heartbeat_at: now, expires_at: end as i64, ..h };
                    Ok(
                        Some(
                            db.hold_changed(
                                Some(hold),
                                db.hold_event(HoldAction::Renewed, hold, None, now),
                            ),
                        ),
                    )
                }
            } else {
                Ok(None)
            },
            (Ok(_), None) => Ok(None),
        }
    }
}

/// What giving up the lock does: nothing unless it is that owner's.
pub open spec fn hold_released(db: DbModel, owner: Seq<char>, now: i64) -> Result<
    Option<DbModel>,
    DbError,
> {
    if is_blank(owner) {
        Err(DbError::HoldOwner)
    } else {
        match db.hold {
            Some(h) => if h.owner != owner {
                Ok(None)
            } else if db.hold_event_seq == i64::MAX {
                Err(DbError::Full)
            } else {
                Ok(
                    Some(
                        db.hold_changed(None, db.hold_event(HoldAction::Released, h, None, now)),
                    ),
                )
            },
            None => Ok(None),
        }
    }
}

/// While the lock is held nobody takes it, and only its owner renews it or gives it up. Who took it
/// holds it until the lease is over, and no longer.
pub proof fn lock_is_exclusive(
    db: DbModel,
    owner: Seq<char>,
    reason: Seq<char>,
    lease_seconds: i64,
    now: i64,
    other: Seq<char>,
    other_reason: Seq<char>,
    at: i64,
)
    requires
        hold_acquired(db, owner, reason, lease_seconds, now) matches Ok(Some(_)),
    ensures
        ({
            let after = hold_acquired(db, owner, reason, lease_seconds, now)->Ok_0->Some_0;
            &&& after.held(at) <==> at < later(now, lease_seconds)
            &&& after.held(at) ==> !(hold_acquired(
                after,
                other,
                other_reason,
                lease_seconds,
                at,
            ) matches Ok(Some(_)))
            &&& other != owner ==> !(hold_renewed(after, other, lease_seconds, at) matches Ok(Some(_)))
            &&& other != owner ==> !(hold_released(after, other, at) matches Ok(Some(_)))
            &&& after.wf() == db.wf()
        }),
{
    let after = hold_acquired(db, owner, reason, lease_seconds, now)->Ok_0->Some_0;
    assert(after.jobs == db.jobs && after.channels == db.channels && after.candidates
        == db.candidates);
}

impl Database {
    /// Takes the lock. Whether it did; a lock that is held is left alone, one whose lease is over
    /// is taken over.
    pub fn acquire_maintenance_hold(&mut self, owner: &str, reason: &str, lease_seconds: i64, now: i64) -> (r:
        Result<bool, DbError>)
        ensures
            match hold_acquired(old(self)@, owner@, reason@, lease_seconds, now) {
                Err(e) => r == refused::<bool>(e) && final(self)@ == old(self)@,
                Ok(None) => r == Ok::<bool, DbError>(false) && final(self)@ == old(self)@,
                Ok(Some(after)) => r == Ok::<bool, DbError>(true) && final(self)@ == after,
            },
            old(self)@.wf() ==> final(self)@.wf(),
    {
        if blank(owner) {
            return Err(DbError::HoldOwner);
        }
        if blank(reason) {
            return Err(DbError::HoldReason);
        }
        let end: i64 = match maintenance_deadline(now, lease_seconds) {
            Ok(end) => end,
            Err(e) => {
                return Err(e);
            },
        };
        if self.is_held(now) {
            return Ok(false);
        }
        if self.hold_event_seq == i64::MAX {
            return Err(DbError::Full);
        }
        let (action, previous_owner, previous_reason) = match &self.hold {
            Some(h) => (HoldAction::TakenOver, Some(h.owner.clone()), Some(h.reason.clone())),
            None => (HoldAction::Acquired, None, None),
        };
        self.hold_event_seq = self.hold_event_seq + 1;
        self.hold = Some(
            MaintenanceHold {
                owner: owner.to_owned(),
                reason: reason.to_owned(),
                acquired_at: now,
                heartbeat_at: now,
                expires_at: end,
            },
        );
        self.hold_events.push(
            MaintenanceHoldEvent {
                id: self.hold_event_seq,
                action,
                owner: owner.to_owned(),
                previous_owner,
                reason: reason.to_owned(),
                previous_reason,
                occurred_at: now,
                expires_at: Some(end),
            },
        );
        Ok(true)
    }

    /// Renews the lock. Whether it did; only its owner can, and only while it is held.
    pub fn renew_maintenance_hold(&mut self, owner: &str, lease_seconds: i64, now: i64) -> (r: Result<
        bool,
        DbError,
    >)
        ensures
            match hold_renewed(old(self)@, owner@, lease_seconds, now) {
                Err(e) => r == refused::<bool>(e) && final(self)@ == old(self)@,
                Ok(None) => r == Ok::<bool, DbError>(false) && final(self)@ == old(self)@,
                Ok(Some(after)) => r == Ok::<bool, DbError>(true) && final(self)@ == after,
            },
            old(self)@.wf() ==> final(self)@.wf(),
    {
        if blank(owner) {
            return Err(DbError::HoldOwner);
        }
        let end: i64 = match maintenance_deadline(now, lease_seconds) {
            Ok(end) => end,
            Err(e) => {
                return Err(e);
            },
        };
        let (reason, acquired_at): (String, i64) = match &self.hold {
            None => {
                return Ok(false);
            },
            Some(h) => {
                if !same_text(h.owner.as_str(), owner) || h.expires_at <= now {
                    return Ok(false);
                }
                (h.reason.clone(), h.acquired_at)
            },
        };
        if self.hold_event_seq == i64::MAX {
            return Err(DbError::Full);
        }
        self.hold_event_seq = self.hold_event_seq + 1;
        self.hold_events.push(
            MaintenanceHoldEvent {
                id: self.hold_event_seq,
                action: HoldAction::Renewed,
                owner: owner.to_owned(),
                previous_owner: None,
                reason: reason.clone(),
                previous_reason: None,
                occurred_at: now,
                expires_at: Some(end),
            },
        );
        self.hold = Some(
            MaintenanceHold {
                owner: owner.to_owned(),
                reason,
                acquired_at,
                heartbeat_at: now,
                expires_at: end,
            },
        );
        Ok(true)
    }

    /// Gives up the lock. Whether it did; only its owner can.
    pub fn release_maintenance_hold(&mut self, owner: &str, now: i64) -> (r: Result<bool, DbError>)
        ensures
            match hold_released(old(self)@, owner@, now) {
                Err(e) => r == refused::<bool>(e) && final(self)@ == old(self)@,
                Ok(None) => r == Ok::<bool, DbError>(false) && final(self)@ == old(self)@,
                Ok(Some(after)) => r == Ok::<bool, DbError>(true) && final(self)@ == after,
            },
            old(self)@.wf() ==> final(self)@.wf(),
    {
        if blank(owner) {
            return Err(DbError::HoldOwner);
        }
        let (reason, expires_at): (String, i64) = match &self.hold {
            None => {
                return Ok(false);
            },
            Some(h) => {
                if !same_text(h.owner.as_str(), owner) {
                    return Ok(false);
                }
                (h.reason.clone(), h.expires_at)
            },
        };
        if self.hold_event_seq == i64::MAX {
            return Err(DbError::Full);
        }
        self.hold_event_seq = self.hold_event_seq + 1;
        self.hold_events.push(
            MaintenanceHoldEvent {
                id: self.hold_event_seq,
                action: HoldAction::Released,
                owner: owner.to_owned(),
                previous_owner: None,
                reason,
                previous_reason: None,
                occurred_at: now,
                expires_at: Some(expires_at),
            },
        );
        self.hold = None;
        Ok(true)
    }

    /// The lock, where it is held.
    pub fn maintenance_hold(&self, now: i64) -> (r: Option<MaintenanceHold>)
        ensures
            hold_view(r) == if self@.held(now) {
                self@.hold
            } else {
                None
            },
    {
        match &self.hold {
            Some(h) => if h.expires_at > now {
                Some(h.copied())
            } else {
                None
            },
            None => None,
        }
    }

    /// The history of the lock, the latest first, and no more than `limit`.
    pub fn maintenance_hold_events(&self, limit: usize) -> (r: Vec<MaintenanceHoldEvent>)
        ensures
            exists|order: Seq<int>|
                #![trigger arranged(latest_events(self@), order)]
                arranged(latest_events(self@), order) && event_views(r@) == at_most(
                    order,
                    limit as int,
                ).map_values(|k: int| self@.hold_events[k]),
    {
        let mut keys: Vec<Option<Key>> = Vec::new();
        let mut i: usize = 0;
        while i < self.hold_events.len()
            invariant
                0 <= i <= self.hold_events@.len(),
                keys@.len() == i,
                forall|j: int| 0 <= j < i ==> keys@[j] == latest_events(self@)[j],
            decreases self.hold_events@.len() - i,
        {
            keys.push(Some((-1 - self.hold_events[i].id, 0, 0)));
            i = i + 1;
        }
        proof {
            assert(keys@ =~= latest_events(self@));
        }
        let order = arrange(&keys);
        let n: usize = if limit <= order.len() {
            limit
        } else {
            order.len()
        };
        let ghost want = at_most(places(order@), limit as int).map_values(
            |k: int| self@.hold_events[k],
        );
        let mut out: Vec<MaintenanceHoldEvent> = Vec::new();
        let mut i: usize = 0;
        while i < n
            invariant
                n <= order@.len(),
                n == want.len(),
                want == at_most(places(order@), limit as int).map_values(
                    |k: int| self@.hold_events[k],
                ),
                forall|j: int|
                    0 <= j < order@.len() ==> (#[trigger] order@[j]) < self.hold_events@.len(),
                0 <= i <= n,
                event_views(out@) == want.take(i as int),
            decreases n - i,
        {
            let ghost before = out@;
            out.push(self.hold_events[order[i]].copied());
            proof {
                let k = order@[i as int] as int;
                assert(want[i as int] == self@.hold_events[k]);
                assert(self@.hold_events[k] == self.hold_events@[k]@);
                assert(event_views(out@) =~= event_views(before).push(want[i as int]));
                assert(event_views(out@) =~= want.take(i + 1));
            }
            i = i + 1;
        }
        proof {
            assert(want.take(want.len() as int) =~= want);
        }
        out
    }
}

/// The lines of the history of the lock as they are seen from outside.
pub open spec fn event_views(v: Seq<MaintenanceHoldEvent>) -> Seq<HoldEventModel> {
    v.map_values(|e: MaintenanceHoldEvent| e@)
}

/// The keys of the history of the lock, the latest first.
pub open spec fn latest_events(db: DbModel) -> Seq<Option<Key>> {
    db.hold_events.map_values(|e: HoldEventModel| Some(((-1 - e.id) as i64, 0i64, 0i64)))
}

/// The texts of the rows that have one, in the order of their names.
pub open spec fn by_name(names: Seq<Option<Seq<char>>>, texts: Seq<Seq<char>>) -> Seq<Seq<char>> {
    let order = choose|order: Seq<int>| text_arranged(names, order);
    order.map_values(|k: int| texts[k])
}

/// The texts of the rows that have one, in the order of their keys.
pub open spec fn by_key(keys: Seq<Option<Key>>, texts: Seq<Seq<char>>) -> Seq<Seq<char>> {
    let order = choose|order: Seq<int>| arranged(keys, order);
    order.map_values(|k: int| texts[k])
}

fn pick_texts(order: &Vec<usize>, texts: &Vec<String>) -> (r: Vec<String>)
    requires
        forall|i: int| 0 <= i < order@.len() ==> (#[trigger] order@[i]) < texts@.len(),
    ensures
        views(r@) == places(order@).map_values(|k: int| views(texts@)[k]),
{
    let ghost want = places(order@).map_values(|k: int| views(texts@)[k]);
    let mut out: Vec<String> = Vec::new();
    let mut i: usize = 0;
    while i < order.len()
        invariant
            forall|j: int| 0 <= j < order@.len() ==> (#[trigger] order@[j]) < texts@.len(),
            want == places(order@).map_values(|k: int| views(texts@)[k]),
            0 <= i <= order@.len(),
            views(out@) == want.take(i as int),
        decreases order@.len() - i,
    {
        let ghost before = out@;
        out.push(texts[order[i]].clone());
        proof {
            assert(want[i as int] == views(texts@)[order@[i as int] as int]);
            assert(views(out@) =~= views(before).push(want[i as int]));
            assert(views(out@) =~= want.take(i + 1));
        }
        i = i + 1;
    }
    proof {
        assert(want.take(want.len() as int) =~= want);
    }
    out
}

fn texts_by_name(names: &Vec<Option<String>>, texts: &Vec<String>) -> (r: Vec<String>)
    requires
        names@.len() == texts@.len(),
    ensures
        views(r@) == by_name(optional_views(names@), views(texts@)),
        r@.len() == 0 <==> forall|k: int| 0 <= k < names@.len() ==> (#[trigger] names@[k]) is None,
{
    let order = arrange_texts(names);
    proof {
        assert forall|k: int| 0 <= k < names@.len() && order@.len() == 0 implies (
        #[trigger] names@[k]) is None by {
            if names@[k] is Some {
                assert(optional_views(names@)[k] is Some);
                assert(places(order@).contains(k));
            }
        }
        if order@.len() > 0 {
            let k = places(order@)[0];
            assert(optional_views(names@)[k] is Some);
            assert(names@[k] is Some);
        }
        let keys = optional_views(names@);
        let chosen = choose|order: Seq<int>| text_arranged(keys, order);
        assert(text_arranged(keys, chosen));
        text_arrangement_is_unique(keys, places(order@), chosen);
    }
    let out = pick_texts(&order, texts);
    proof {
        assert(out@.len() == views(out@).len());
    }
    out
}

fn texts_by_key(keys: &Vec<Option<Key>>, texts: &Vec<String>) -> (r: Vec<String>)
    requires
        keys@.len() == texts@.len(),
    ensures
        views(r@) == by_key(keys@, views(texts@)),
        r@.len() == 0 <==> forall|k: int| 0 <= k < keys@.len() ==> (#[trigger] keys@[k]) is None,
{
    let order = arrange(keys);
    proof {
        assert forall|k: int| 0 <= k < keys@.len() && order@.len() == 0 implies (
        #[trigger] keys@[k]) is None by {
            if keys@[k] is Some {
                assert(places(order@).contains(k));
            }
        }
        if order@.len() > 0 {
            assert(keys@[places(order@)[0]] is Some);
        }
        let chosen = choose|order: Seq<int>| arranged(keys@, order);
        assert(arranged(keys@, chosen));
        arrangement_is_unique(keys@, places(order@), chosen);
    }
    let out = pick_texts(&order, texts);
    proof {
        assert(out@.len() == views(out@).len());
    }
    out
}

/// A text, a colon and another.
pub open spec fn pair(a: Seq<char>, b: Seq<char>) -> Seq<char> {
    a + ":"@ + b
}

fn pair_text(a: &str, b: &str) -> (r: String)
    ensures
        r@ == pair(a@, b@),
{
    join(join(a, ":").as_str(), b)
}

impl RowModel {
    /// The stored text of the row's status.
    pub open spec fn status_text(self) -> Seq<char> {
        match self.legacy {
            Some(stage) => stage.text(),
            None => self.job.status.text(),
        }
    }

    /// Whether the row has a claim that may be at work.
    pub open spec fn claim_alive(self, now: i64) -> bool {
        &&& (self.claim_kind matches Some(x) && x.len() > 0) || (self.claim_owner matches Some(x)
            && x.len() > 0)
        &&& self.claim_expires_at matches Some(t) ==> t > now
    }
}

/// A text, or a dash where there is none.
pub open spec fn or_dash(s: Option<Seq<char>>) -> Seq<char> {
    match s {
        Some(x) => if x.len() > 0 {
            x
        } else {
            "-"@
        },
        None => "-"@,
    }
}

fn or_dash_text(s: &Option<String>) -> (r: String)
    ensures
        r@ == or_dash(opt_view(*s)),
{
    match s {
        Some(x) => if x.as_str().is_empty() {
            "-".to_owned()
        } else {
            x.clone()
        },
        None => "-".to_owned(),
    }
}

fn filled(s: &Option<String>) -> (r: bool)
    ensures
        r == (opt_view(*s) matches Some(x) && x.len() > 0),
{
    match s {
        Some(x) => !x.as_str().is_empty(),
        None => false,
    }
}

/// The kinds of jobs that keep the service busy.
#[derive(Debug, Clone, Copy, PartialEq, Eq, Structural)]
pub enum Busy {
    Preparing,
    Claimed,
    Uploading,
}

impl RowModel {
    /// Whether the row keeps the service busy in such a way.
    pub open spec fn busy(self, how: Busy, now: i64) -> bool {
        match how {
            Busy::Preparing => self.in_preparation(),
            Busy::Claimed => self.claim_alive(now),
            Busy::Uploading => self.is(JobStatus::Uploading),
        }
    }

    /// What is told of the row.
    pub open spec fn busy_text(self, how: Busy) -> Seq<char> {
        match how {
            Busy::Preparing => pair(self.job.id, self.status_text()),
            Busy::Claimed => pair(
                pair(self.job.id, or_dash(self.claim_kind)),
                or_dash(self.claim_owner),
            ),
            Busy::Uploading => pair(self.job.id, self.job.video_id),
        }
    }
}

impl DbModel {
    /// What is told of the jobs that keep the service busy in such a way.
    pub open spec fn busy_jobs(self, how: Busy, now: i64) -> Seq<Seq<char>> {
        by_name(
            self.jobs.map_values(
                |r: RowModel|
                    if r.busy(how, now) {
                        Some(r.job.id)
                    } else {
                        None
                    },
            ),
            self.jobs.map_values(|r: RowModel| r.busy_text(how)),
        )
    }

    /// What is told of the runs of stages that are under way.
    pub open spec fn busy_stages(self) -> Seq<Seq<char>> {
        by_key(
            self.stages.map_values(
                |s: StageModel|
                    if s.status == "running"@ {
                        Some((s.id, 0i64, 0i64))
                    } else {
                        None
                    },
            ),
            self.stages.map_values(
                |s: StageModel| pair(pair(signed_decimal_of(s.id as int), s.job_id), s.stage),
            ),
        )
    }

    /// What is told of the submissions that are under way or in doubt.
    pub open spec fn busy_uploads(self) -> Seq<Seq<char>> {
        by_name(
            self.uploads.map_values(
                |a: UploadModel|
                    if a.status == UploadState::Running || a.status == UploadState::Uncertain {
                        Some(a.id)
                    } else {
                        None
                    },
            ),
            self.uploads.map_values(
                |a: UploadModel| pair(pair(a.id, a.job_id), a.status.text()),
            ),
        )
    }

    /// What is told of the subtitles that are under way or in doubt.
    pub open spec fn busy_subtitles(self) -> Seq<Seq<char>> {
        by_name(
            self.subtitles.map_values(
                |a: SubtitleModel|
                    if a.status == SubtitleState::Started || a.status == SubtitleState::Uncertain {
                        Some(a.id)
                    } else {
                        None
                    },
            ),
            self.subtitles.map_values(
                |a: SubtitleModel| pair(pair(a.id, a.job_id), a.status.text()),
            ),
        )
    }

    /// Whether no job keeps the service busy in such a way.
    pub open spec fn no_job_busy(self, how: Busy, now: i64) -> bool {
        forall|k: int| 0 <= k < self.jobs.len() ==> !(#[trigger] self.jobs[k]).busy(how, now)
    }

    /// Whether no run of a stage is under way.
    pub open spec fn no_stage_busy(self) -> bool {
        forall|k: int| 0 <= k < self.stages.len() ==> (#[trigger] self.stages[k]).status != "running"@
    }

    /// Whether no submission is under way or in doubt.
    pub open spec fn no_upload_busy(self) -> bool {
        forall|k: int|
            0 <= k < self.uploads.len() ==> (#[trigger] self.uploads[k]).status
                != UploadState::Running && self.uploads[k].status != UploadState::Uncertain
    }

    /// Whether no subtitle is under way or in doubt.
    pub open spec fn no_subtitle_busy(self) -> bool {
        forall|k: int|
            0 <= k < self.subtitles.len() ==> (#[trigger] self.subtitles[k]).status
                != SubtitleState::Started && self.subtitles[k].status != SubtitleState::Uncertain
    }

    /// Whether nothing is under way, nothing is in doubt, and nobody else holds the lock.
    pub open spec fn idle(self, owner: Option<Seq<char>>, now: i64) -> bool {
        &&& self.no_job_busy(Busy::Preparing, now)
        &&& self.no_job_busy(Busy::Claimed, now)
        &&& self.no_job_busy(Busy::Uploading, now)
        &&& self.no_stage_busy()
        &&& self.no_upload_busy()
        &&& self.no_subtitle_busy()
        &&& self.hold matches Some(h) ==> h.expires_at <= now || owner == Some(h.owner)
    }

    /// What keeps the service from being idle for somebody: work of all kinds, and the lock where
    /// another holds it.
    pub open spec fn blockers(self, owner: Option<Seq<char>>, now: i64) -> Seq<BlockerModel> {
        let none = Seq::<BlockerModel>::empty();
        let a = blocked(none, "active_jobs"@, self.busy_jobs(Busy::Preparing, now));
        let b = blocked(a, "running_stages"@, self.busy_stages());
        let c = blocked(b, "active_claims"@, self.busy_jobs(Busy::Claimed, now));
        let d = blocked(c, "uploading_jobs"@, self.busy_jobs(Busy::Uploading, now));
        let e = blocked(d, "upload_attempts"@, self.busy_uploads());
        let f = blocked(e, "subtitle_attempts"@, self.busy_subtitles());
        match self.hold {
            Some(h) => if h.expires_at > now && owner != Some(h.owner) {
                blocked(
                    f,
                    if starts(h.owner, "LIVE_ONCE:"@) {
                        "live_once_hold"@
                    } else {
                        "maintenance_hold"@
                    },
                    seq![hold_text(h)],
                )
            } else {
                f
            },
            None => f,
        }
    }
}

/// The list with one more kind, where anything is told of it.
pub open spec fn blocked(list: Seq<BlockerModel>, kind: Seq<char>, details: Seq<Seq<char>>) -> Seq<
    BlockerModel,
> {
    if details.len() > 0 {
        list.push(BlockerModel { kind, count: details.len() as int, details })
    } else {
        list
    }
}

/// What is told of the lock.
pub open spec fn hold_text(h: HoldModel) -> Seq<char> {
    "owner="@ + h.owner + " expires_at="@ + (match stamp_text(h.expires_at as int) {
        Some(t) => t,
        None => ""@,
    }) + " reason="@ + h.reason
}

fn push_maintenance_blocker(list: &mut Vec<MaintenanceBlocker>, kind: &str, details: Vec<String>)
    requires
        forall|i: int| 0 <= i < old(list)@.len() ==> (#[trigger] old(list)@[i]).wf(),
    ensures
        blocker_views(final(list)@) == blocked(blocker_views(old(list)@), kind@, views(details@)),
        final(list)@.len() == 0 <==> old(list)@.len() == 0 && details@.len() == 0,
        forall|i: int| 0 <= i < final(list)@.len() ==> (#[trigger] final(list)@[i]).wf(),
{
    if details.len() > 0 {
        let ghost before = list@;
        let count: usize = details.len();
        let blocker = MaintenanceBlocker { kind: kind.to_owned(), count, details };
        let ghost added = blocker@;
        list.push(blocker);
        proof {
            assert(blocker_views(list@) =~= blocker_views(before).push(added));
        }
    }
}

impl JobRow {
    fn busy(&self, how: Busy, now: i64) -> (r: bool)
        ensures
            r == self@.busy(how, now),
    {
        match how {
            Busy::Preparing => self.legacy.is_some() || self.is(JobStatus::Inspecting) || self.is(
                JobStatus::Processing,
            ),
            Busy::Claimed => (filled(&self.claim_kind) || filled(&self.claim_owner)) && (
            match self.claim_expires_at {
                Some(t) => t > now,
                None => true,
            }),
            Busy::Uploading => self.is(JobStatus::Uploading),
        }
    }

    fn busy_text(&self, how: Busy) -> (r: String)
        ensures
            r@ == self@.busy_text(how),
    {
        match how {
            Busy::Preparing => pair_text(
                self.job.id.as_str(),
                match self.legacy {
                    Some(stage) => stage.as_str(),
                    None => self.job.status.as_str(),
                },
            ),
            Busy::Claimed => pair_text(
                pair_text(self.job.id.as_str(), or_dash_text(&self.claim_kind).as_str()).as_str(),
                or_dash_text(&self.claim_owner).as_str(),
            ),
            Busy::Uploading => pair_text(self.job.id.as_str(), self.job.video_id.as_str()),
        }
    }
}

impl Database {
    fn busy_jobs(&self, how: Busy, now: i64) -> (r: Vec<String>)
        ensures
            views(r@) == self@.busy_jobs(how, now),
            r@.len() == 0 <==> self@.no_job_busy(how, now),
    {
        let mut names: Vec<Option<String>> = Vec::new();
        let mut texts: Vec<String> = Vec::new();
        let mut i: usize = 0;
        while i < self.jobs.len()
            invariant
                0 <= i <= self.jobs@.len(),
                names@.len() == i,
                texts@.len() == i,
                forall|j: int|
                    0 <= j < i ==> opt_view(#[trigger] names@[j]) == if self@.jobs[j].busy(how, now) {
                        Some(self@.jobs[j].job.id)
                    } else {
                        None
                    },
                forall|j: int| 0 <= j < i ==> (#[trigger] texts@[j])@ == self@.jobs[j].busy_text(how),
            decreases self.jobs@.len() - i,
        {
            if self.jobs[i].busy(how, now) {
                names.push(Some(self.jobs[i].job.id.clone()));
            } else {
                names.push(None);
            }
            texts.push(self.jobs[i].busy_text(how));
            i = i + 1;
        }
        proof {
            assert(optional_views(names@) =~= self@.jobs.map_values(
                |r: RowModel|
                    if r.busy(how, now) {
                        Some(r.job.id)
                    } else {
                        None
                    },
            ));
            assert(views(texts@) =~= self@.jobs.map_values(|r: RowModel| r.busy_text(how)));
        }
        let out = texts_by_name(&names, &texts);
        proof {
            if self@.no_job_busy(how, now) {
                assert forall|k: int| 0 <= k < names@.len() implies (#[trigger] names@[k]) is None by {
                    assert(!self@.jobs[k].busy(how, now));
                }
            }
            if out@.len() == 0 {
                assert forall|k: int| 0 <= k < self@.jobs.len() implies !(#[trigger] self@.jobs[k]).busy(how, now) by {
                    assert(names@[k] is None);
                }
            }
        }
        out
    }

    fn busy_stages(&self) -> (r: Vec<String>)
        ensures
            views(r@) == self@.busy_stages(),
            r@.len() == 0 <==> self@.no_stage_busy(),
    {
        let mut keys: Vec<Option<Key>> = Vec::new();
        let mut texts: Vec<String> = Vec::new();
        let mut i: usize = 0;
        while i < self.stages.len()
            invariant
                0 <= i <= self.stages@.len(),
                keys@.len() == i,
                texts@.len() == i,
                forall|j: int|
                    0 <= j < i ==> (#[trigger] keys@[j]) == if self@.stages[j].status == "running"@ {
                        Some((self@.stages[j].id, 0i64, 0i64))
                    } else {
                        None
                    },
                forall|j: int|
                    0 <= j < i ==> (#[trigger] texts@[j])@ == pair(
                        pair(
                            signed_decimal_of(self@.stages[j].id as int),
                            self@.stages[j].job_id,
                        ),
                        self@.stages[j].stage,
                    ),
            decreases self.stages@.len() - i,
        {
            let row = &self.stages[i];
            if same_text(row.status.as_str(), "running") {
                keys.push(Some((row.id, 0, 0)));
            } else {
                keys.push(None);
            }
            texts.push(
                pair_text(
                    pair_text(signed_decimal(row.id).as_str(), row.job_id.as_str()).as_str(),
                    row.stage.as_str(),
                ),
            );
            i = i + 1;
        }
        proof {
            assert(keys@ =~= self@.stages.map_values(
                |s: StageModel|
                    if s.status == "running"@ {
                        Some((s.id, 0i64, 0i64))
                    } else {
                        None
                    },
            ));
            assert(views(texts@) =~= self@.stages.map_values(
                |s: StageModel| pair(pair(signed_decimal_of(s.id as int), s.job_id), s.stage),
            ));
        }
        let out = texts_by_key(&keys, &texts);
        proof {
            if self@.no_stage_busy() {
                assert forall|k: int| 0 <= k < keys@.len() implies (#[trigger] keys@[k]) is None by {
                    assert(self@.stages[k].status != "running"@);
                }
            }
            if out@.len() == 0 {
                assert forall|k: int| 0 <= k < self@.stages.len() implies (
                #[trigger] self@.stages[k]).status != "running"@ by {
                    assert(keys@[k] is None);
                }
            }
        }
        out
    }

    fn busy_uploads(&self) -> (r: Vec<String>)
        ensures
            views(r@) == self@.busy_uploads(),
            r@.len() == 0 <==> self@.no_upload_busy(),
    {
        let mut names: Vec<Option<String>> = Vec::new();
        let mut texts: Vec<String> = Vec::new();
        let mut i: usize = 0;
        while i < self.uploads.len()
            invariant
                0 <= i <= self.uploads@.len(),
                names@.len() == i,
                texts@.len() == i,
                forall|j: int|
                    0 <= j < i ==> opt_view(#[trigger] names@[j]) == if self@.uploads[j].status
                        == UploadState::Running || self@.uploads[j].status
                        == UploadState::Uncertain {
                        Some(self@.uploads[j].id)
                    } else {
                        None
                    },
                forall|j: int|
                    0 <= j < i ==> (#[trigger] texts@[j])@ == pair(
                        pair(self@.uploads[j].id, self@.uploads[j].job_id),
                        self@.uploads[j].status.text(),
                    ),
            decreases self.uploads@.len() - i,
        {
            let row = &self.uploads[i];
            if row.status == UploadState::Running || row.status == UploadState::Uncertain {
                names.push(Some(row.id.clone()));
            } else {
                names.push(None);
            }
            texts.push(
                pair_text(
                    pair_text(row.id.as_str(), row.job_id.as_str()).as_str(),
                    row.status.as_str(),
                ),
            );
            i = i + 1;
        }
        proof {
            assert(optional_views(names@) =~= self@.uploads.map_values(
                |a: UploadModel|
                    if a.status == UploadState::Running || a.status == UploadState::Uncertain {
                        Some(a.id)
                    } else {
                        None
                    },
            ));
            assert(views(texts@) =~= self@.uploads.map_values(
                |a: UploadModel| pair(pair(a.id, a.job_id), a.status.text()),
            ));
        }
        let out = texts_by_name(&names, &texts);
        proof {
            if self@.no_upload_busy() {
                assert forall|k: int| 0 <= k < names@.len() implies (#[trigger] names@[k]) is None by {
                    let row = self@.uploads[k];
                }
            }
            if out@.len() == 0 {
                assert forall|k: int| 0 <= k < self@.uploads.len() implies (
                #[trigger] self@.uploads[k]).status != UploadState::Running
                    && self@.uploads[k].status != UploadState::Uncertain by {
                    assert(names@[k] is None);
                }
            }
        }
        out
    }

    fn busy_subtitles(&self) -> (r: Vec<String>)
        ensures
            views(r@) == self@.busy_subtitles(),
            r@.len() == 0 <==> self@.no_subtitle_busy(),
    {
        let mut names: Vec<Option<String>> = Vec::new();
        let mut texts: Vec<String> = Vec::new();
        let mut i: usize = 0;
        while i < self.subtitles.len()
            invariant
                0 <= i <= self.subtitles@.len(),
                names@.len() == i,
                texts@.len() == i,
                forall|j: int|
                    0 <= j < i ==> opt_view(#[trigger] names@[j]) == if self@.subtitles[j].status
                        == SubtitleState::Started || self@.subtitles[j].status
                        == SubtitleState::Uncertain {
                        Some(self@.subtitles[j].id)
                    } else {
                        None
                    },
                forall|j: int|
                    0 <= j < i ==> (#[trigger] texts@[j])@ == pair(
                        pair(self@.subtitles[j].id, self@.subtitles[j].job_id),
                        self@.subtitles[j].status.text(),
                    ),
            decreases self.subtitles@.len() - i,
        {
            let row = &self.subtitles[i];
            if row.status == SubtitleState::Started || row.status == SubtitleState::Uncertain {
                names.push(Some(row.id.clone()));
            } else {
                names.push(None);
            }
            texts.push(
                pair_text(
                    pair_text(row.id.as_str(), row.job_id.as_str()).as_str(),
                    row.status.as_str(),
                ),
            );
            i = i + 1;
        }
        proof {
            assert(optional_views(names@) =~= self@.subtitles.map_values(
                |a: SubtitleModel|
                    if a.status == SubtitleState::Started || a.status == SubtitleState::Uncertain {
                        Some(a.id)
                    } else {
                        None
                    },
            ));
            assert(views(texts@) =~= self@.subtitles.map_values(
                |a: SubtitleModel| pair(pair(a.id, a.job_id), a.status.text()),
            ));
        }
        let out = texts_by_name(&names, &texts);
        proof {
            if self@.no_subtitle_busy() {
                assert forall|k: int| 0 <= k < names@.len() implies (#[trigger] names@[k]) is None by {
                    let row = self@.subtitles[k];
                }
            }
            if out@.len() == 0 {
                assert forall|k: int| 0 <= k < self@.subtitles.len() implies (
                #[trigger] self@.subtitles[k]).status != SubtitleState::Started
                    && self@.subtitles[k].status != SubtitleState::Uncertain by {
                    assert(names@[k] is None);
                }
            }
        }
        out
    }

    /// Tells whether the service is idle for somebody, and if not why. The lock of `owner` does not
    /// count, that of anybody else does.
    pub fn maintenance_status(&self, owner: Option<&str>, now: i64) -> (r: MaintenanceStatus)
        ensures
            r.checked_at == now,
            blocker_views(r.blockers@) == self@.blockers(str_view(owner), now),
            forall|i: int| 0 <= i < r.blockers@.len() ==> (#[trigger] r.blockers@[i]).wf(),
            r.idle <==> r.blockers@.len() == 0,
            r.idle <==> self@.idle(str_view(owner), now),
            hold_view(r.hold) == if self@.held(now) {
                self@.hold
            } else {
                None
            },
            hold_view(r.expired_hold) == if self@.held(now) {
                None
            } else {
                self@.hold
            },
    {
        let mut list: Vec<MaintenanceBlocker> = Vec::new();
        proof {
            assert(blocker_views(list@) =~= Seq::<BlockerModel>::empty());
        }
        push_maintenance_blocker(&mut list, "active_jobs", self.busy_jobs(Busy::Preparing, now));
        push_maintenance_blocker(&mut list, "running_stages", self.busy_stages());
        push_maintenance_blocker(&mut list, "active_claims", self.busy_jobs(Busy::Claimed, now));
        push_maintenance_blocker(&mut list, "uploading_jobs", self.busy_jobs(Busy::Uploading, now));
        push_maintenance_blocker(&mut list, "upload_attempts", self.busy_uploads());
        push_maintenance_blocker(&mut list, "subtitle_attempts", self.busy_subtitles());
        let mut hold: Option<MaintenanceHold> = None;
        let mut expired_hold: Option<MaintenanceHold> = None;
        match &self.hold {
            Some(h) => {
                if h.expires_at > now {
                    hold = Some(h.copied());
                    let own = match owner {
                        Some(o) => same_text(o, h.owner.as_str()),
                        None => false,
                    };
                    if !own {
                        let until = match timestamp_text(h.expires_at) {
                            Some(t) => t,
                            None => "".to_owned(),
                        };
                        let mut text = "owner=".to_owned();
                        text.append(h.owner.as_str());
                        text.append(" expires_at=");
                        text.append(until.as_str());
                        text.append(" reason=");
                        text.append(h.reason.as_str());
                        let kind = if starts_with(h.owner.as_str(), "LIVE_ONCE:") {
                            "live_once_hold"
                        } else {
                            "maintenance_hold"
                        };
                        let mut details: Vec<String> = Vec::new();
                        details.push(text);
                        proof {
                            assert(views(details@) =~= seq![hold_text(h@)]);
                        }
                        push_maintenance_blocker(&mut list, kind, details);
                    }
                } else {
                    expired_hold = Some(h.copied());
                }
            },
            None => {},
        }
        let idle = list.len() == 0;
        MaintenanceStatus { checked_at: now, idle, hold, expired_hold, blockers: list }
    }
}

// ---------------------------------------------------------------------------------------------
// What the lock says
// ---------------------------------------------------------------------------------------------

/// The lock is taken if and only if nobody holds it, somebody is named who takes it and why, and
/// the lease is one. It then bears them, from now until the lease is over, and the log says whether
/// it was free or left over.
pub proof fn locks_are_taken_when_free(
    db: DbModel,
    owner: Seq<char>,
    reason: Seq<char>,
    lease_seconds: i64,
    now: i64,
)
    requires
        db.hold_event_seq < i64::MAX,
        lease_seconds > 0,
        now + lease_seconds * 1000 <= i64::MAX,
        stamp_text(now + lease_seconds * 1000) is Some,
        trimmed(owner).len() > 0,
        trimmed(reason).len() > 0,
    ensures
        ({
            let r = hold_acquired(db, owner, reason, lease_seconds, now);
            let held = db.hold is Some && db.hold->Some_0.expires_at > now;
            &&& r is Ok
            &&& r->Ok_0 is Some <==> !held
            &&& r matches Ok(Some(after)) ==> {
                let h = after.hold->Some_0;
                let e = after.hold_events.last();
                &&& after.hold is Some && h.owner == owner && h.reason == reason
                &&& h.acquired_at == now && h.heartbeat_at == now
                &&& h.expires_at == now + lease_seconds * 1000
                &&& after.hold_events == db.hold_events.push(e)
                &&& e.owner == owner && e.reason == reason && e.occurred_at == now
                &&& e.expires_at == Some(h.expires_at) && e.id == db.hold_event_seq + 1
                &&& db.hold is None ==> e.action == HoldAction::Acquired && e.previous_owner is None
                &&& db.hold is Some ==> e.action == HoldAction::TakenOver && e.previous_owner
                    == Some(db.hold->Some_0.owner) && e.previous_reason
                    == Some(db.hold->Some_0.reason)
                &&& after.jobs == db.jobs
            }
        }),
{
}

/// The lock is renewed by who holds it and while it lasts: it ends a lease from now, and keeps who,
/// why and since when. It is given back by who holds it, and is then free.
pub proof fn locks_are_renewed_and_given_back(db: DbModel, owner: Seq<char>, lease_seconds: i64, now: i64)
    requires
        db.hold_event_seq < i64::MAX,
        lease_seconds > 0,
        now + lease_seconds * 1000 <= i64::MAX,
        stamp_text(now + lease_seconds * 1000) is Some,
        trimmed(owner).len() > 0,
    ensures
        ({
            let r = hold_renewed(db, owner, lease_seconds, now);
            let mine = db.hold is Some && db.hold->Some_0.owner == owner;
            &&& r is Ok
            &&& r->Ok_0 is Some <==> mine && db.hold->Some_0.expires_at > now
            &&& r matches Ok(Some(after)) ==> {
                let h = after.hold->Some_0;
                &&& after.hold is Some && h.expires_at == now + lease_seconds * 1000
                &&& h.heartbeat_at == now && h.owner == owner
                &&& h.reason == db.hold->Some_0.reason
                &&& h.acquired_at == db.hold->Some_0.acquired_at
                &&& after.hold_events.last().action == HoldAction::Renewed
                &&& after.hold_events.len() == db.hold_events.len() + 1
            }
        }),
        ({
            let r = hold_released(db, owner, now);
            let mine = db.hold is Some && db.hold->Some_0.owner == owner;
            &&& r is Ok
            &&& r->Ok_0 is Some <==> mine
            &&& r matches Ok(Some(after)) ==> {
                &&& after.hold is None
                &&& after.hold_events.last().action == HoldAction::Released
                &&& after.hold_events.last().owner == owner
                &&& after.hold_events.len() == db.hold_events.len() + 1
            }
        }),
{
}

/// Nothing without an owner, a reason or a lease takes the lock.
pub proof fn locks_need_an_owner_and_a_reason(
    db: DbModel,
    owner: Seq<char>,
    reason: Seq<char>,
    lease_seconds: i64,
    now: i64,
)
    ensures
        trimmed(owner).len() == 0 || trimmed(reason).len() == 0 || lease_seconds <= 0
            ==> hold_acquired(db, owner, reason, lease_seconds, now) is Err,
        trimmed(owner).len() == 0 || lease_seconds <= 0 ==> hold_renewed(
            db,
            owner,
            lease_seconds,
            now,
        ) is Err,
        trimmed(owner).len() == 0 ==> hold_released(db, owner, now) is Err,
{
}

/// The service is idle if and only if no job is being prepared or submitted, none is claimed, no
/// stage runs, no submission or subtitle is open, and nobody else holds the lock.
pub proof fn idle_means_nothing_is_open(db: DbModel, owner: Option<Seq<char>>, now: i64)
    ensures
        db.idle(owner, now) <==> {
            &&& forall|k: int|
                0 <= k < db.jobs.len() ==> {
                    let row = #[trigger] db.jobs[k];
                    &&& row.legacy is None
                    &&& row.job.status != JobStatus::Inspecting
                    &&& row.job.status != JobStatus::Processing
                    &&& row.job.status != JobStatus::Uploading
                    &&& !(((row.claim_kind is Some && row.claim_kind->Some_0.len() > 0) || (
                    row.claim_owner is Some && row.claim_owner->Some_0.len() > 0)) && (
                    row.claim_expires_at is None || row.claim_expires_at->Some_0 > now))
                }
            &&& forall|k: int|
                0 <= k < db.stages.len() ==> (#[trigger] db.stages[k]).status != "running"@
            &&& forall|k: int|
                0 <= k < db.uploads.len() ==> (#[trigger] db.uploads[k]).status
                    != UploadState::Running && db.uploads[k].status != UploadState::Uncertain
            &&& forall|k: int|
                0 <= k < db.subtitles.len() ==> (#[trigger] db.subtitles[k]).status
                    != SubtitleState::Started && db.subtitles[k].status != SubtitleState::Uncertain
            &&& db.hold is None || db.hold->Some_0.expires_at <= now || owner
                == Some(db.hold->Some_0.owner)
        },
{
    if db.idle(owner, now) {
        assert forall|k: int| 0 <= k < db.jobs.len() implies {
            let row = #[trigger] db.jobs[k];
            &&& row.legacy is None
            &&& row.job.status != JobStatus::Inspecting
            &&& row.job.status != JobStatus::Processing
            &&& row.job.status != JobStatus::Uploading
            &&& !(((row.claim_kind is Some && row.claim_kind->Some_0.len() > 0) || (
            row.claim_owner is Some && row.claim_owner->Some_0.len() > 0)) && (
            row.claim_expires_at is None || row.claim_expires_at->Some_0 > now))
        } by {
            let row = db.jobs[k];
            assert(!row.busy(Busy::Preparing, now));
            assert(!row.busy(Busy::Claimed, now));
            assert(!row.busy(Busy::Uploading, now));
        }
    }
}

/// A blocker is listed where there is something to list, with how many there are.
pub proof fn blockers_are_counted(list: Seq<BlockerModel>, kind: Seq<char>, details: Seq<Seq<char>>)
    ensures
        details.len() == 0 ==> blocked(list, kind, details) == list,
        details.len() > 0 ==> blocked(list, kind, details).len() == list.len() + 1 && blocked(
            list,
            kind,
            details,
        ).last().kind == kind && blocked(list, kind, details).last().count == details.len()
            && blocked(list, kind, details).last().details == details,
{
}

/// The log of the lock is told from its latest line on.
pub proof fn lock_events_are_told_latest_first(db: DbModel, i: int, j: int)
    requires
        0 <= i < db.hold_events.len(),
        0 <= j < db.hold_events.len(),
    ensures
        latest_events(db).len() == db.hold_events.len(),
        latest_events(db)[i] is Some,
        latest_events(db)[i]->Some_0.0 < latest_events(db)[j]->Some_0.0 <==> db.hold_events[i].id
            > db.hold_events[j].id,
{
}

/// A lease ends so many seconds from now; none or a negative one is refused.
pub proof fn leases_end_after_their_seconds(now: i64, lease_seconds: i64)
    ensures
        lease_seconds <= 0 ==> lease_end(now, lease_seconds) is Err,
        lease_end(now, lease_seconds) matches Ok(end) ==> end == now + lease_seconds * 1_000,
{
}

/// Nothing is in the way of maintenance just where all is idle.
pub proof fn idle_services_have_no_blockers(db: DbModel, owner: Option<Seq<char>>, now: i64)
    requires
        db.busy_jobs(Busy::Preparing, now).len() == 0,
        db.busy_jobs(Busy::Claimed, now).len() == 0,
        db.busy_jobs(Busy::Uploading, now).len() == 0,
        db.busy_stages().len() == 0,
        db.busy_uploads().len() == 0,
        db.busy_subtitles().len() == 0,
    ensures
        db.blockers(owner, now).len() == 0 <==> db.hold is None || db.hold->Some_0.expires_at <= now
            || owner == Some(db.hold->Some_0.owner),
{
}

/// A lock of somebody else is in the way, under its own kind where it is taken for one run.
pub proof fn foreign_locks_are_in_the_way(db: DbModel, owner: Option<Seq<char>>, now: i64)
    requires
        db.hold is Some,
        db.hold->Some_0.expires_at > now,
        owner != Some(db.hold->Some_0.owner),
    ensures
        db.blockers(owner, now).len() > 0,
        db.blockers(owner, now).last().count == 1,
        starts(db.hold->Some_0.owner, "LIVE_ONCE:"@) ==> db.blockers(owner, now).last().kind
            == "live_once_hold"@,
        !starts(db.hold->Some_0.owner, "LIVE_ONCE:"@) ==> db.blockers(owner, now).last().kind
            == "maintenance_hold"@,
{
}

} // verus!
