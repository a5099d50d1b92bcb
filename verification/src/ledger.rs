//! What is noted of the work: runs of stages, calls of models and what they used, titles, events.
use vstd::prelude::*;

use crate::fault::{refused, DbError};
use crate::jobs::countable;
use crate::model::{AiUsage, PublicationMetadata};
use crate::order::{arrange, arranged, places, Key};
use crate::queue::str_view;
use crate::store::{
    is_first, place, place_is, place_is_none, place_means, same_place, AiCall, CallModel, Database,
    DbModel, Event, EventModel, PublicationRow, PublicationRowModel, StageModel, StageRun,
};
use crate::text::{own_optional, same_text, views};

verus! {

/// The length of a day.
pub const DAY_MS: i64 = 86_400_000;

/// The numbers of tokens that a usage tells, by their place: those read, those written, those of
/// reasoning, those read from and written to the cache, and all.
pub open spec fn tokens(u: AiUsage, f: int) -> int {
    if f == 0 {
        u.input as int
    } else if f == 1 {
        u.output as int
    } else if f == 2 {
        u.reasoning as int
    } else if f == 3 {
        u.cache_read as int
    } else if f == 4 {
        u.cache_write as int
    } else {
        u.total as int
    }
}

fn tokens_of(u: &AiUsage, f: usize) -> (r: i64)
    ensures
        r == tokens(*u, f as int),
{
    if f == 0 {
        u.input
    } else if f == 1 {
        u.output
    } else if f == 2 {
        u.reasoning
    } else if f == 3 {
        u.cache_read
    } else if f == 4 {
        u.cache_write
    } else {
        u.total
    }
}

/// Two costs together; none where neither is known.
pub open spec fn cost_sum(a: Option<int>, b: Option<int>) -> Option<int> {
    match (a, b) {
        (None, _) => b,
        (_, None) => a,
        (Some(x), Some(y)) => Some(x + y),
    }
}

/// A cost as a number without bound.
pub open spec fn cost_of(u: AiUsage) -> Option<int> {
    match u.cost {
        Some(c) => Some(c as int),
        None => None,
    }
}

/// What usage is counted.
#[derive(Debug)]
pub enum Scope<'a> {
    All,
    Job(&'a str),
    Channel(i64),
}

impl DbModel {
    /// Whether the usage of a job counts.
    pub open spec fn in_scope(self, scope: Scope, job_id: Seq<char>) -> bool {
        match scope {
            Scope::All => true,
            Scope::Job(id) => job_id == id@,
            Scope::Channel(c) => self.of_channel(c, job_id),
        }
    }

    /// Whether a job belongs to a channel.
    pub open spec fn of_channel(self, channel_id: i64, job_id: Seq<char>) -> bool {
        exists|k: int|
            0 <= k < self.jobs.len() && (#[trigger] self.jobs[k]).job.id == job_id
                && self.jobs[k].job.channel_id == Some(channel_id)
    }

    /// The tokens of the first `n` calls that count.
    pub open spec fn calls_used(self, scope: Scope, f: int, n: int) -> int
        decreases n,
    {
        if n <= 0 {
            0
        } else {
            self.calls_used(scope, f, n - 1) + if self.in_scope(scope, self.calls[n - 1].job_id) {
                tokens(self.calls[n - 1].usage, f)
            } else {
                0
            }
        }
    }

    /// The tokens of the first `n` rollups that count.
    pub open spec fn rollups_used(self, scope: Scope, f: int, n: int) -> int
        decreases n,
    {
        if n <= 0 {
            0
        } else {
            self.rollups_used(scope, f, n - 1) + if self.in_scope(scope, self.rollups[n - 1].job_id) {
                tokens(self.rollups[n - 1].usage, f)
            } else {
                0
            }
        }
    }

    /// All tokens that count, of calls that are kept and of those that were removed.
    pub open spec fn tokens_used(self, scope: Scope, f: int) -> int {
        self.calls_used(scope, f, self.calls.len() as int) + self.rollups_used(
            scope,
            f,
            self.rollups.len() as int,
        )
    }

    /// The cost of the first `n` calls that count.
    pub open spec fn calls_cost(self, scope: Scope, n: int) -> Option<int>
        decreases n,
    {
        if n <= 0 {
            None
        } else if self.in_scope(scope, self.calls[n - 1].job_id) {
            cost_sum(self.calls_cost(scope, n - 1), cost_of(self.calls[n - 1].usage))
        } else {
            self.calls_cost(scope, n - 1)
        }
    }

    /// The cost of the first `n` rollups that count.
    pub open spec fn rollups_cost(self, scope: Scope, n: int) -> Option<int>
        decreases n,
    {
        if n <= 0 {
            None
        } else if self.in_scope(scope, self.rollups[n - 1].job_id) {
            cost_sum(self.rollups_cost(scope, n - 1), cost_of(self.rollups[n - 1].usage))
        } else {
            self.rollups_cost(scope, n - 1)
        }
    }

    /// The whole cost that counts.
    pub open spec fn cost_used(self, scope: Scope) -> Option<int> {
        cost_sum(
            self.calls_cost(scope, self.calls.len() as int),
            self.rollups_cost(scope, self.rollups.len() as int),
        )
    }

    /// Whether all sums can be told.
    pub open spec fn usage_fits(self, scope: Scope) -> bool {
        &&& forall|f: int| 0 <= f < 6 ==> countable(#[trigger] self.tokens_used(scope, f))
        &&& self.cost_used(scope) matches Some(c) ==> countable(c)
    }
}

/// Whether a usage tells the sums that count.
pub open spec fn tells(u: AiUsage, db: DbModel, scope: Scope) -> bool {
    &&& forall|f: int| 0 <= f < 6 ==> #[trigger] tokens(u, f) == db.tokens_used(scope, f)
    &&& cost_of(u) == db.cost_used(scope)
}

impl Database {
    fn is_in_scope(&self, scope: &Scope, job_id: &str) -> (r: bool)
        ensures
            r == self@.in_scope(*scope, job_id@),
    {
        match scope {
            Scope::All => true,
            Scope::Job(id) => same_text(job_id, id),
            Scope::Channel(c) => self.is_of_channel(*c, job_id),
        }
    }

    fn is_of_channel(&self, channel_id: i64, job_id: &str) -> (r: bool)
        ensures
            r == self@.of_channel(channel_id, job_id@),
    {
        let mut i: usize = 0;
        while i < self.jobs.len()
            invariant
                0 <= i <= self.jobs@.len(),
                forall|k: int|
                    0 <= k < i ==> !((#[trigger] self@.jobs[k]).job.id == job_id@
                        && self@.jobs[k].job.channel_id == Some(channel_id)),
            decreases self.jobs@.len() - i,
        {
            let row = &self.jobs[i];
            let ours = match row.job.channel_id {
                Some(x) => x == channel_id,
                None => false,
            };
            if ours && same_text(row.job.id.as_str(), job_id) {
                proof {
                    let model = self@.jobs[i as int];
                    assert(model.job.id == job_id@ && model.job.channel_id == Some(channel_id));
                }
                return true;
            }
            i = i + 1;
        }
        false
    }

    fn sum_tokens(&self, scope: &Scope, f: usize) -> (r: Option<i64>)
        ensures
            r is Some <==> countable(self@.tokens_used(*scope, f as int)),
            r matches Some(n) ==> n == self@.tokens_used(*scope, f as int),
    {
        let mut a: i128 = 0;
        let mut i: usize = 0;
        while i < self.calls.len()
            invariant
                0 <= i <= self.calls@.len(),
                a == self@.calls_used(*scope, f as int, i as int),
                -(i * 0x8000_0000_0000_0000) <= a <= i * 0x8000_0000_0000_0000,
            decreases self.calls@.len() - i,
        {
            proof {
                assert(self@.calls[i as int] == self.calls@[i as int]@);
            }
            if self.is_in_scope(scope, self.calls[i].job_id.as_str()) {
                a = a + tokens_of(&self.calls[i].usage, f) as i128;
            }
            i = i + 1;
        }
        let mut b: i128 = 0;
        let mut i: usize = 0;
        while i < self.rollups.len()
            invariant
                0 <= i <= self.rollups@.len(),
                b == self@.rollups_used(*scope, f as int, i as int),
                -(i * 0x8000_0000_0000_0000) <= b <= i * 0x8000_0000_0000_0000,
            decreases self.rollups@.len() - i,
        {
            proof {
                assert(self@.rollups[i as int] == self.rollups@[i as int]@);
            }
            if self.is_in_scope(scope, self.rollups[i].job_id.as_str()) {
                b = b + tokens_of(&self.rollups[i].usage, f) as i128;
            }
            i = i + 1;
        }
        narrow_sum(a, b)
    }

    fn sum_cost(&self, scope: &Scope) -> (r: Option<Option<i64>>)
        ensures
            r is None <==> (self@.cost_used(*scope) matches Some(c) && !countable(c)),
            r matches Some(None) ==> self@.cost_used(*scope) is None,
            r matches Some(Some(n)) ==> self@.cost_used(*scope) == Some(n as int),
    {
        let mut a: Option<i128> = None;
        let mut i: usize = 0;
        while i < self.calls.len()
            invariant
                0 <= i <= self.calls@.len(),
                wide(a) == self@.calls_cost(*scope, i as int),
                a matches Some(x) ==> -(i * 0x8000_0000_0000_0000) <= x <= i
                    * 0x8000_0000_0000_0000,
            decreases self.calls@.len() - i,
        {
            proof {
                assert(self@.calls[i as int] == self.calls@[i as int]@);
            }
            if self.is_in_scope(scope, self.calls[i].job_id.as_str()) {
                match self.calls[i].usage.cost {
                    Some(c) => {
                        a = match a {
                            Some(x) => Some(x + c as i128),
                            None => Some(c as i128),
                        };
                    },
                    None => {},
                }
            }
            i = i + 1;
        }
        let mut b: Option<i128> = None;
        let mut i: usize = 0;
        while i < self.rollups.len()
            invariant
                0 <= i <= self.rollups@.len(),
                wide(b) == self@.rollups_cost(*scope, i as int),
                b matches Some(x) ==> -(i * 0x8000_0000_0000_0000) <= x <= i
                    * 0x8000_0000_0000_0000,
            decreases self.rollups@.len() - i,
        {
            proof {
                assert(self@.rollups[i as int] == self.rollups@[i as int]@);
            }
            if self.is_in_scope(scope, self.rollups[i].job_id.as_str()) {
                match self.rollups[i].usage.cost {
                    Some(c) => {
                        b = match b {
                            Some(x) => Some(x + c as i128),
                            None => Some(c as i128),
                        };
                    },
                    None => {},
                }
            }
            i = i + 1;
        }
        match (a, b) {
            (None, None) => Some(None),
            (Some(x), None) => match narrow_sum(x, 0) {
                Some(n) => Some(Some(n)),
                None => None,
            },
            (None, Some(y)) => match narrow_sum(0, y) {
                Some(n) => Some(Some(n)),
                None => None,
            },
            (Some(x), Some(y)) => match narrow_sum(x, y) {
                Some(n) => Some(Some(n)),
                None => None,
            },
        }
    }

    fn totals(&self, scope: &Scope) -> (r: Result<AiUsage, DbError>)
        ensures
            r is Ok <==> self@.usage_fits(*scope),
            r matches Ok(u) ==> tells(u, self@, *scope),
            r matches Err(e) ==> e == DbError::TooLarge,
    {
        let mut sums: Vec<i64> = Vec::new();
        let mut f: usize = 0;
        while f < 6
            invariant
                0 <= f <= 6,
                sums@.len() == f,
                forall|g: int|
                    0 <= g < f ==> (#[trigger] sums@[g]) == self@.tokens_used(*scope, g),
            decreases 6 - f,
        {
            match self.sum_tokens(scope, f) {
                Some(n) => {
                    sums.push(n);
                },
                None => {
                    proof {
                        assert(!countable(self@.tokens_used(*scope, f as int)));
                    }
                    return Err(DbError::TooLarge);
                },
            }
            f = f + 1;
        }
        let cost: Option<i64> = match self.sum_cost(scope) {
            Some(c) => c,
            None => {
                return Err(DbError::TooLarge);
            },
        };
        let u = AiUsage {
            input: sums[0],
            output: sums[1],
            reasoning: sums[2],
            cache_read: sums[3],
            cache_write: sums[4],
            total: sums[5],
            cost,
        };
        proof {
            assert forall|g: int| 0 <= g < 6 implies #[trigger] tokens(u, g) == self@.tokens_used(
                *scope,
                g,
            ) && countable(self@.tokens_used(*scope, g)) by {
                assert(sums@[g] == self@.tokens_used(*scope, g));
            }
        }
        Ok(u)
    }

    /// What all calls used, those too that are not kept any more.
    pub fn ai_totals(&self) -> (r: Result<AiUsage, DbError>)
        ensures
            r is Ok <==> self@.usage_fits(Scope::All),
            r matches Ok(u) ==> tells(u, self@, Scope::All),
            r matches Err(e) ==> e == DbError::TooLarge,
    {
        self.totals(&Scope::All)
    }

    /// What the calls of a job used.
    pub fn ai_totals_for_job(&self, job_id: &str) -> (r: Result<AiUsage, DbError>)
        ensures
            r is Ok <==> self@.usage_fits(Scope::Job(job_id)),
            r matches Ok(u) ==> tells(u, self@, Scope::Job(job_id)),
            r matches Err(e) ==> e == DbError::TooLarge,
    {
        self.totals(&Scope::Job(job_id))
    }

    /// What the calls for the jobs of a channel used.
    pub fn ai_totals_for_channel(&self, channel_id: i64) -> (r: Result<AiUsage, DbError>)
        ensures
            r is Ok <==> self@.usage_fits(Scope::Channel(channel_id)),
            r matches Ok(u) ==> tells(u, self@, Scope::Channel(channel_id)),
            r matches Err(e) ==> e == DbError::TooLarge,
    {
        self.totals(&Scope::Channel(channel_id))
    }

    /// The tokens of the calls that are kept and were made on the same day, in UTC.
    pub fn ai_tokens_today(&self, now: i64) -> (r: Result<i64, DbError>)
        ensures
            ({
                let n = used_on_day(self@.calls, now, self@.calls.len() as int);
                if countable(n) {
                    r matches Ok(x) && x == n
                } else {
                    r == refused::<i64>(DbError::TooLarge)
                }
            }),
    {
        let today: i64 = day_number(now);
        let mut sum: i128 = 0;
        let mut i: usize = 0;
        while i < self.calls.len()
            invariant
                today == day_of(now),
                0 <= i <= self.calls@.len(),
                sum == used_on_day(self@.calls, now, i as int),
                -(i * 0x8000_0000_0000_0000) <= sum <= i * 0x8000_0000_0000_0000,
            decreases self.calls@.len() - i,
        {
            proof {
                assert(self@.calls[i as int] == self.calls@[i as int]@);
            }
            if day_number(self.calls[i].created_at) == today {
                sum = sum + self.calls[i].usage.total as i128;
            }
            i = i + 1;
        }
        match narrow_sum(sum, 0) {
            Some(n) => Ok(n),
            None => Err(DbError::TooLarge),
        }
    }
}

/// The day of a point in time, in UTC, counted from the epoch.
pub open spec fn day_of(ms: i64) -> int {
    ms as int / DAY_MS as int
}

fn day_number(ms: i64) -> (r: i64)
    ensures
        r == day_of(ms),
{
    if ms >= 0 {
        ms / DAY_MS
    } else {
        let back: i64 = (-(ms + 1)) / DAY_MS;
        -back - 1
    }
}

/// The tokens of those of the first `n` calls that were made on the day of `now`.
pub open spec fn used_on_day(calls: Seq<CallModel>, now: i64, n: int) -> int
    decreases n,
{
    if n <= 0 {
        0
    } else {
        used_on_day(calls, now, n - 1) + if day_of(calls[n - 1].created_at) == day_of(now) {
            calls[n - 1].usage.total as int
        } else {
            0
        }
    }
}

/// An optional number without bound.
pub open spec fn wide(x: Option<i128>) -> Option<int> {
    match x {
        Some(n) => Some(n as int),
        None => None,
    }
}

fn narrow_sum(a: i128, b: i128) -> (r: Option<i64>)
    ensures
        r is Some <==> countable(a + b),
        r matches Some(n) ==> n == a + b,
{
    match a.checked_add(b) {
        Some(s) => if i64::MIN as i128 <= s && s <= i64::MAX as i128 {
            Some(s as i64)
        } else {
            None
        },
        None => None,
    }
}

impl DbModel {
    /// Where the run of a stage stands.
    pub open spec fn stage_at(self, id: i64) -> Option<int> {
        place(self.stages, |s: StageModel| s.id == id)
    }

    /// Where a call stands.
    pub open spec fn call_at(self, id: i64) -> Option<int> {
        place(self.calls, |c: CallModel| c.id == id)
    }

    /// Where the title of a job stands.
    pub open spec fn publication_at(self, job_id: Seq<char>) -> Option<int> {
        place(self.publications, |p: PublicationRowModel| p.job_id == job_id)
    }
}

impl Database {
    fn find_stage(&self, id: i64) -> (r: Option<usize>)
        ensures
            same_place(r, self@.stage_at(id), self.stages@.len() as int),
    {
        let ghost p = |s: StageModel| s.id == id;
        let ghost rows = self@.stages;
        let mut i: usize = 0;
        while i < self.stages.len()
            invariant
                rows == self@.stages,
                rows.len() == self.stages@.len(),
                p == (|s: StageModel| s.id == id),
                0 <= i <= rows.len(),
                forall|j: int| 0 <= j < i ==> !p(#[trigger] rows[j]),
            decreases self.stages@.len() - i,
        {
            proof {
                assert(rows[i as int] == self.stages@[i as int]@);
            }
            if self.stages[i].id == id {
                proof {
                    assert(is_first(rows, p, i as int));
                    place_is(rows, p, i as int);
                }
                return Some(i);
            }
            i = i + 1;
        }
        proof {
            place_is_none(rows, p);
        }
        None
    }

    fn find_call(&self, id: i64) -> (r: Option<usize>)
        ensures
            same_place(r, self@.call_at(id), self.calls@.len() as int),
    {
        let ghost p = |c: CallModel| c.id == id;
        let ghost rows = self@.calls;
        let mut i: usize = 0;
        while i < self.calls.len()
            invariant
                rows == self@.calls,
                rows.len() == self.calls@.len(),
                p == (|c: CallModel| c.id == id),
                0 <= i <= rows.len(),
                forall|j: int| 0 <= j < i ==> !p(#[trigger] rows[j]),
            decreases self.calls@.len() - i,
        {
            proof {
                assert(rows[i as int] == self.calls@[i as int]@);
            }
            if self.calls[i].id == id {
                proof {
                    assert(is_first(rows, p, i as int));
                    place_is(rows, p, i as int);
                }
                return Some(i);
            }
            i = i + 1;
        }
        proof {
            place_is_none(rows, p);
        }
        None
    }

    fn find_publication(&self, job_id: &str) -> (r: Option<usize>)
        ensures
            same_place(r, self@.publication_at(job_id@), self.publications@.len() as int),
            r matches Some(k) ==> self@.publications[k as int].job_id == job_id@,
    {
        let ghost p = |p: PublicationRowModel| p.job_id == job_id@;
        let ghost rows = self@.publications;
        let mut i: usize = 0;
        while i < self.publications.len()
            invariant
                rows == self@.publications,
                rows.len() == self.publications@.len(),
                p == (|p: PublicationRowModel| p.job_id == job_id@),
                0 <= i <= rows.len(),
                forall|j: int| 0 <= j < i ==> !p(#[trigger] rows[j]),
            decreases self.publications@.len() - i,
        {
            proof {
                assert(rows[i as int] == self.publications@[i as int]@);
            }
            if same_text(self.publications[i].job_id.as_str(), job_id) {
                proof {
                    assert(is_first(rows, p, i as int));
                    place_is(rows, p, i as int);
                }
                return Some(i);
            }
            i = i + 1;
        }
        proof {
            place_is_none(rows, p);
        }
        None
    }

    /// Notes that a stage of a job starts, and gives the run a number.
    pub fn start_stage(
        &mut self,
        job_id: &str,
        stage: &str,
        provider: Option<&str>,
        model: Option<&str>,
        thinking: Option<&str>,
        now: i64,
    ) -> (r: Result<i64, DbError>)
        ensures
            if old(self)@.job_at(job_id@) is None {
                r == refused::<i64>(DbError::ForeignKey) && final(self)@ == old(self)@
            } else if old(self)@.stage_seq == i64::MAX {
                r == refused::<i64>(DbError::Full) && final(self)@ == old(self)@
            } else {
                &&& r matches Ok(id)
                &&& id == old(self)@.stage_seq + 1
                &&& final(self)@ == (DbModel {
                    stages: old(self)@.stages.push(
                        StageModel {
                            id,
                            job_id: job_id@,
                            stage: stage@,
                            status: "running"@,
                            started_at: now,
                            finished_at: None,
                            duration_ms: None,
                            peak_rss_kib: None,
                            provider: str_view(provider),
                            model: str_view(model),
                            thinking: str_view(thinking),
                            detail: None,
                        },
                    ),
                    stage_seq: id,
                    ..old(self)@
                })
            },
            old(self)@.wf() ==> final(self)@.wf(),
    {
        if self.find_job(job_id).is_none() {
            return Err(DbError::ForeignKey);
        }
        if self.stage_seq == i64::MAX {
            return Err(DbError::Full);
        }
        let ghost before = self@;
        let id: i64 = self.stage_seq + 1;
        self.stage_seq = id;
        self.stages.push(
            StageRun {
                id,
                job_id: job_id.to_owned(),
                stage: stage.to_owned(),
                status: "running".to_owned(),
                started_at: now,
                finished_at: None,
                duration_ms: None,
                peak_rss_kib: None,
                provider: own_optional(provider),
                model: own_optional(model),
                thinking: own_optional(thinking),
                detail: None,
            },
        );
        proof {
            if before.wf() {
                assert forall|i: int, j: int| 0 <= i < j < self@.stages.len() implies (
                #[trigger] self@.stages[i]).id != (#[trigger] self@.stages[j]).id by {
                    assert(self@.stages[i] == before.stages[i]);
                    if j < before.stages.len() {
                        assert(self@.stages[j] == before.stages[j]);
                    }
                }
                assert forall|i: int| 0 <= i < self@.stages.len() implies (
                #[trigger] self@.stages[i]).id <= id by {
                    if i < before.stages.len() {
                        assert(self@.stages[i] == before.stages[i]);
                    }
                }
            }
        }
        Ok(id)
    }

    /// Notes how the run of a stage ended.
    pub fn finish_stage(
        &mut self,
        id: i64,
        status: &str,
        duration_ms: i64,
        peak_rss_kib: u64,
        detail: Option<&str>,
        now: i64,
    )
        ensures
            match old(self)@.stage_at(id) {
                Some(k) => final(self)@ == (DbModel {
                    stages: old(self)@.stages.update(
                        k,
                        StageModel {
                            status: status@,
                            finished_at: Some(now),
                            duration_ms: Some(duration_ms),
                            peak_rss_kib: Some(signed(peak_rss_kib) as i64),
                            detail: str_view(detail),
                            ..old(self)@.stages[k]
                        },
                    ),
                    ..old(self)@
                }),
                None => final(self)@ == old(self)@,
            },
            old(self)@.wf() ==> final(self)@.wf(),
    {
        match self.find_stage(id) {
            None => {},
            Some(k) => {
                let ghost before = self@;
                let peak: i64 = if peak_rss_kib <= i64::MAX as u64 {
                    peak_rss_kib as i64
                } else {
                    (peak_rss_kib as i128 - 0x1_0000_0000_0000_0000) as i64
                };
                self.stages[k].status = status.to_owned();
                self.stages[k].finished_at = Some(now);
                self.stages[k].duration_ms = Some(duration_ms);
                self.stages[k].peak_rss_kib = Some(peak);
                self.stages[k].detail = own_optional(detail);
                proof {
                    let after = self@.stages;
                    assert(after =~= before.stages.update(k as int, after[k as int]));
                    if before.wf() {
                        assert forall|i: int, j: int| 0 <= i < j < after.len() implies (
                        #[trigger] after[i]).id != (#[trigger] after[j]).id by {
                            let a = before.stages[i];
                            let b = before.stages[j];
                        }
                        assert forall|i: int| 0 <= i < after.len() implies (#[trigger] after[i]).id
                            <= self@.stage_seq by {
                            let a = before.stages[i];
                        }
                    }
                }
            },
        }
    }

    /// The runs of the stages of a job in the order of their numbers.
    pub fn list_stages(&self, job_id: &str) -> (r: Vec<StageRun>)
        ensures
            exists|order: Seq<int>|
                #![trigger arranged(stages_of(self@, job_id@), order)]
                arranged(stages_of(self@, job_id@), order) && stage_views(r@) == order.map_values(
                    |k: int| self@.stages[k],
                ),
    {
        let mut keys: Vec<Option<Key>> = Vec::new();
        let mut i: usize = 0;
        while i < self.stages.len()
            invariant
                0 <= i <= self.stages@.len(),
                keys@.len() == i,
                forall|j: int| 0 <= j < i ==> keys@[j] == stages_of(self@, job_id@)[j],
            decreases self.stages@.len() - i,
        {
            if same_text(self.stages[i].job_id.as_str(), job_id) {
                keys.push(Some((self.stages[i].id, 0, 0)));
            } else {
                keys.push(None);
            }
            i = i + 1;
        }
        proof {
            assert(keys@ =~= stages_of(self@, job_id@));
        }
        let order = arrange(&keys);
        let ghost want = places(order@).map_values(|k: int| self@.stages[k]);
        let mut out: Vec<StageRun> = Vec::new();
        let mut i: usize = 0;
        while i < order.len()
            invariant
                want == places(order@).map_values(|k: int| self@.stages[k]),
                forall|j: int| 0 <= j < order@.len() ==> (#[trigger] order@[j]) < self.stages@.len(),
                0 <= i <= order@.len(),
                stage_views(out@) == want.take(i as int),
            decreases order@.len() - i,
        {
            let ghost before = out@;
            out.push(self.stages[order[i]].copied());
            proof {
                let k = order@[i as int] as int;
                assert(want[i as int] == self@.stages[k]);
                assert(self@.stages[k] == self.stages@[k]@);
                assert(stage_views(out@) =~= stage_views(before).push(want[i as int]));
                assert(stage_views(out@) =~= want.take(i + 1));
            }
            i = i + 1;
        }
        proof {
            assert(want.take(want.len() as int) =~= want);
        }
        out
    }

    /// Notes that a model is called, and gives the call a number.
    pub fn begin_ai_call(
        &mut self,
        job_id: &str,
        stage_id: i64,
        task: &str,
        provider: &str,
        model: &str,
        thinking: &str,
        input_json: &str,
        now: i64,
    ) -> (r: Result<i64, DbError>)
        ensures
            if old(self)@.job_at(job_id@) is None || old(self)@.stage_at(stage_id) is None {
                r == refused::<i64>(DbError::ForeignKey) && final(self)@ == old(self)@
            } else if old(self)@.call_seq == i64::MAX {
                r == refused::<i64>(DbError::Full) && final(self)@ == old(self)@
            } else {
                &&& r matches Ok(id)
                &&& id == old(self)@.call_seq + 1
                &&& final(self)@ == (DbModel {
                    calls: old(self)@.calls.push(
                        CallModel {
                            id,
                            job_id: job_id@,
                            stage_run_id: Some(stage_id),
                            task: task@,
                            provider: provider@,
                            model: model@,
                            thinking: thinking@,
                            status: "started"@,
                            error: None,
                            usage: no_usage(),
                            duration_ms: None,
                            input_json: Some(input_json@),
                            output_json: None,
                            created_at: now,
                            finished_at: None,
                        },
                    ),
                    call_seq: id,
                    ..old(self)@
                })
            },
            old(self)@.wf() ==> final(self)@.wf(),
    {
        if self.find_job(job_id).is_none() || self.find_stage(stage_id).is_none() {
            return Err(DbError::ForeignKey);
        }
        if self.call_seq == i64::MAX {
            return Err(DbError::Full);
        }
        let ghost before = self@;
        let id: i64 = self.call_seq + 1;
        self.call_seq = id;
        self.calls.push(
            AiCall {
                id,
                job_id: job_id.to_owned(),
                stage_run_id: Some(stage_id),
                task: task.to_owned(),
                provider: provider.to_owned(),
                model: model.to_owned(),
                thinking: thinking.to_owned(),
                status: "started".to_owned(),
                error: None,
                usage: AiUsage {
                    input: 0,
                    output: 0,
                    reasoning: 0,
                    cache_read: 0,
                    cache_write: 0,
                    total: 0,
                    cost: None,
                },
                duration_ms: None,
                input_json: Some(input_json.to_owned()),
                output_json: None,
                created_at: now,
                finished_at: None,
            },
        );
        proof {
            if before.wf() {
                assert forall|i: int, j: int| 0 <= i < j < self@.calls.len() implies (
                #[trigger] self@.calls[i]).id != (#[trigger] self@.calls[j]).id by {
                    assert(self@.calls[i] == before.calls[i]);
                    if j < before.calls.len() {
                        assert(self@.calls[j] == before.calls[j]);
                    }
                }
                assert forall|i: int| 0 <= i < self@.calls.len() implies (
                #[trigger] self@.calls[i]).id <= id by {
                    if i < before.calls.len() {
                        assert(self@.calls[i] == before.calls[i]);
                    }
                }
            }
        }
        Ok(id)
    }

    /// Notes how a call ended and what it used.
    pub fn finish_ai_call(
        &mut self,
        id: i64,
        status: &str,
        usage: &AiUsage,
        duration_ms: i64,
        output_json: Option<&str>,
        error: Option<&str>,
        now: i64,
    )
        ensures
            match old(self)@.call_at(id) {
                Some(k) => final(self)@ == old(self)@.with_call(
                    k,
                    (CallModel {
                        status: status@,
                        error: str_view(error),
                        usage: *usage,
                        duration_ms: Some(duration_ms),
                        output_json: str_view(output_json),
                        finished_at: Some(now),
                        ..old(self)@.calls[k]
                    }),
                ),
                None => final(self)@ == old(self)@,
            },
            old(self)@.wf() ==> final(self)@.wf(),
    {
        match self.find_call(id) {
            None => {},
            Some(k) => {
                let ghost before = self@;
                self.calls[k].status = status.to_owned();
                self.calls[k].error = own_optional(error);
                self.calls[k].usage = *usage;
                self.calls[k].duration_ms = Some(duration_ms);
                self.calls[k].output_json = own_optional(output_json);
                self.calls[k].finished_at = Some(now);
                proof {
                    assert(self@ =~= before.with_call(k as int, self@.calls[k as int]));
                    call_update_keeps_wf(before, k as int, self@.calls[k as int]);
                }
            },
        }
    }

    /// Notes that a call was cut off, where its end is not known yet.
    pub fn interrupt_ai_call(&mut self, id: i64, error: &str, now: i64)
        ensures
            match old(self)@.call_at(id) {
                Some(k) => if old(self)@.calls[k].status == "started"@ {
                    final(self)@ == old(self)@.with_call(
                        k,
                        (CallModel {
                            status: "interrupted"@,
                            error: Some(error@),
                            finished_at: Some(now),
                            ..old(self)@.calls[k]
                        }),
                    )
                } else {
                    final(self)@ == old(self)@
                },
                None => final(self)@ == old(self)@,
            },
            old(self)@.wf() ==> final(self)@.wf(),
    {
        match self.find_call(id) {
            None => {},
            Some(k) => {
                if same_text(self.calls[k].status.as_str(), "started") {
                    let ghost before = self@;
                    self.calls[k].status = "interrupted".to_owned();
                    self.calls[k].error = Some(error.to_owned());
                    self.calls[k].finished_at = Some(now);
                    proof {
                        assert(self@ =~= before.with_call(k as int, self@.calls[k as int]));
                        call_update_keeps_wf(before, k as int, self@.calls[k as int]);
                    }
                }
            },
        }
    }

    /// Writes a line of the log.
    pub fn event(&mut self, job_id: Option<&str>, level: &str, message: &str, now: i64) -> (r: Result<
        (),
        DbError,
    >)
        ensures
            if old(self)@.event_seq == i64::MAX {
                r == refused::<()>(DbError::Full) && final(self)@ == old(self)@
            } else {
                r is Ok && final(self)@ == (DbModel {
                    events: old(self)@.events.push(
                        EventModel {
                            id: (old(self)@.event_seq + 1) as i64,
                            job_id: str_view(job_id),
                            level: level@,
                            message: message@,
                            created_at: now,
                        },
                    ),
                    event_seq: (old(self)@.event_seq + 1) as i64,
                    ..old(self)@
                })
            },
            old(self)@.wf() ==> final(self)@.wf(),
    {
        if self.event_seq == i64::MAX {
            return Err(DbError::Full);
        }
        self.event_seq = self.event_seq + 1;
        self.events.push(
            Event {
                id: self.event_seq,
                job_id: own_optional(job_id),
                level: level.to_owned(),
                message: message.to_owned(),
                created_at: now,
            },
        );
        Ok(())
    }

    /// The title and tags of a job.
    pub fn publication_metadata(&self, job_id: &str) -> (r: Option<PublicationMetadata>)
        ensures
            match self@.publication_at(job_id@) {
                Some(k) => r matches Some(m) && publishes(m, self@.publications[k]),
                None => r is None,
            },
    {
        match self.find_publication(job_id) {
            None => None,
            Some(k) => {
                let row = &self.publications[k];
                Some(
                    PublicationMetadata {
                        title: row.title.clone(),
                        dynamic: row.dynamic.clone(),
                        tags: copy_texts(&row.tags),
                        tid: row.tid,
                        raw_json: row.raw_json.clone(),
                    },
                )
            },
        }
    }

    /// Keeps the title and tags of a job.
    pub fn save_publication_metadata(&mut self, job_id: &str, metadata: &PublicationMetadata, now: i64) -> (r:
        Result<(), DbError>)
        ensures
            if old(self)@.job_at(job_id@) is None {
                r == refused::<()>(DbError::ForeignKey) && final(self)@ == old(self)@
            } else {
                r is Ok && final(self)@ == old(self)@.with_publication(job_id@, *metadata, now)
            },
            old(self)@.wf() ==> final(self)@.wf(),
    {
        if self.find_job(job_id).is_none() {
            return Err(DbError::ForeignKey);
        }
        let ghost before = self@;
        match self.find_publication(job_id) {
            Some(k) => {
                self.publications[k].title = metadata.title.clone();
                self.publications[k].dynamic = metadata.dynamic.clone();
                self.publications[k].tags = copy_texts(&metadata.tags);
                self.publications[k].tid = metadata.tid;
                self.publications[k].raw_json = metadata.raw_json.clone();
                self.publications[k].updated_at = now;
            },
            None => {
                self.publications.push(
                    PublicationRow {
                        job_id: job_id.to_owned(),
                        title: metadata.title.clone(),
                        dynamic: metadata.dynamic.clone(),
                        tags: copy_texts(&metadata.tags),
                        tid: metadata.tid,
                        raw_json: metadata.raw_json.clone(),
                        created_at: now,
                        updated_at: now,
                    },
                );
            },
        }
        proof {
            assert(self@ =~= before.with_publication(job_id@, *metadata, now));
            publication_keeps_wf(before, job_id@, *metadata, now);
        }
        Ok(())
    }
}

/// Whether a title is the one of a row.
pub open spec fn publishes(m: PublicationMetadata, row: PublicationRowModel) -> bool {
    &&& m.title@ == row.title
    &&& m.dynamic@ == row.dynamic
    &&& views(m.tags@) == row.tags
    &&& m.tid == row.tid
    &&& m.raw_json@ == row.raw_json
}

impl DbModel {
    /// The tables with one call replaced.
    pub open spec fn with_call(self, k: int, c: CallModel) -> DbModel {
        DbModel { calls: self.calls.update(k, c), ..self }
    }

    /// The tables with the title and tags of a job.
    pub open spec fn with_publication(self, job_id: Seq<char>, m: PublicationMetadata, now: i64) -> DbModel {
        let row = PublicationRowModel {
            job_id,
            title: m.title@,
            dynamic: m.dynamic@,
            tags: views(m.tags@),
            tid: m.tid,
            raw_json: m.raw_json@,
            created_at: match self.publication_at(job_id) {
                Some(k) => self.publications[k].created_at,
                None => now,
            },
            updated_at: now,
        };
        DbModel {
            publications: match self.publication_at(job_id) {
                Some(k) => self.publications.update(k, row),
                None => self.publications.push(row),
            },
            ..self
        }
    }
}

/// The title that was kept is the one that is read, and the tables stay sound.
pub proof fn publication_keeps_wf(db: DbModel, job_id: Seq<char>, m: PublicationMetadata, now: i64)
    ensures
        db.wf() ==> db.with_publication(job_id, m, now).wf(),
        db.with_publication(job_id, m, now).publication_at(job_id) matches Some(k) && publishes(
            m,
            db.with_publication(job_id, m, now).publications[k],
        ),
{
    let after = db.with_publication(job_id, m, now);
    let p = |r: PublicationRowModel| r.job_id == job_id;
    place_means(db.publications, p);
    let at = match db.publication_at(job_id) {
        Some(k) => k,
        None => db.publications.len() as int,
    };
    assert(is_first(after.publications, p, at)) by {
        assert forall|j: int| 0 <= j < at implies !p(#[trigger] after.publications[j]) by {
            assert(after.publications[j] == db.publications[j]);
        }
    }
    place_is(after.publications, p, at);
    if db.wf() {
        assert forall|i: int, j: int| 0 <= i < j < after.publications.len() implies (
        #[trigger] after.publications[i]).job_id != (#[trigger] after.publications[j]).job_id by {
            if i != at {
                assert(after.publications[i] == db.publications[i]);
            }
            if j != at {
                assert(after.publications[j] == db.publications[j]);
            }
        }
    }
}

proof fn call_update_keeps_wf(db: DbModel, k: int, c: CallModel)
    requires
        0 <= k < db.calls.len(),
        c.id == db.calls[k].id,
    ensures
        db.wf() ==> db.with_call(k, c).wf(),
{
    let after = db.with_call(k, c);
    if db.wf() {
        assert forall|i: int, j: int| 0 <= i < j < after.calls.len() implies (
        #[trigger] after.calls[i]).id != (#[trigger] after.calls[j]).id by {
            let a = db.calls[i];
            let b = db.calls[j];
        }
        assert forall|i: int| 0 <= i < after.calls.len() implies (#[trigger] after.calls[i]).id
            <= after.call_seq by {
            let a = db.calls[i];
        }
    }
}

fn copy_texts(v: &Vec<String>) -> (r: Vec<String>)
    ensures
        views(r@) == views(v@),
{
    let mut out: Vec<String> = Vec::new();
    let mut i: usize = 0;
    while i < v.len()
        invariant
            0 <= i <= v@.len(),
            out@.len() == i,
            forall|j: int| 0 <= j < i ==> (#[trigger] out@[j])@ == v@[j]@,
        decreases v@.len() - i,
    {
        out.push(v[i].clone());
        i = i + 1;
    }
    proof {
        assert(views(out@) =~= views(v@));
    }
    out
}

/// A usage of nothing.
pub open spec fn no_usage() -> AiUsage {
    AiUsage {
        input: 0,
        output: 0,
        reasoning: 0,
        cache_read: 0,
        cache_write: 0,
        total: 0,
        cost: None,
    }
}

/// A number of 64 bits read with a sign.
pub open spec fn signed(n: u64) -> int {
    if n <= i64::MAX {
        n as int
    } else {
        n - 0x1_0000_0000_0000_0000
    }
}

/// The runs of stages as they are seen from outside.
pub open spec fn stage_views(v: Seq<StageRun>) -> Seq<StageModel> {
    v.map_values(|s: StageRun| s@)
}

/// The keys of the runs of a job's stages.
pub open spec fn stages_of(db: DbModel, job_id: Seq<char>) -> Seq<Option<Key>> {
    db.stages.map_values(
        |s: StageModel|
            if s.job_id == job_id {
                Some((s.id, 0i64, 0i64))
            } else {
                None
            },
    )
}

// ---------------------------------------------------------------------------------------------
// What is counted, and for whom
// ---------------------------------------------------------------------------------------------

/// Each number of a usage is its own.
pub proof fn usages_keep_their_numbers_apart(u: AiUsage)
    ensures
        tokens(u, 0) == u.input,
        tokens(u, 1) == u.output,
        tokens(u, 2) == u.reasoning,
        tokens(u, 3) == u.cache_read,
        tokens(u, 4) == u.cache_write,
        tokens(u, 5) == u.total,
        u.cost is None ==> cost_of(u) is None,
        u.cost is Some ==> cost_of(u) == Some(u.cost->Some_0 as int),
{
}

/// A call that is added counts in full for its job, for its job's channel and for all, and for no
/// other job or channel.
pub proof fn calls_count_for_their_own(db: DbModel, c: CallModel, f: int, id: &str, channel: i64)
    ensures
        ({
            let after = DbModel { calls: db.calls.push(c), ..db };
            let mine = exists|k: int|
                0 <= k < db.jobs.len() && (#[trigger] db.jobs[k]).job.id == c.job_id
                    && db.jobs[k].job.channel_id == Some(channel);
            &&& after.tokens_used(Scope::All, f) == db.tokens_used(Scope::All, f) + tokens(c.usage, f)
            &&& after.tokens_used(Scope::Job(id), f) == db.tokens_used(Scope::Job(id), f)
                + if c.job_id == id@ { tokens(c.usage, f) } else { 0 }
            &&& after.tokens_used(Scope::Channel(channel), f) == db.tokens_used(
                Scope::Channel(channel),
                f,
            ) + if mine { tokens(c.usage, f) } else { 0 }
        }),
{
    let after = DbModel { calls: db.calls.push(c), ..db };
    sums_go_by_the_calls(db, after, Scope::All, f, db.calls.len() as int, db.rollups.len() as int);
    sums_go_by_the_calls(db, after, Scope::Job(id), f, db.calls.len() as int, db.rollups.len() as int);
    sums_go_by_the_calls(
        db,
        after,
        Scope::Channel(channel),
        f,
        db.calls.len() as int,
        db.rollups.len() as int,
    );
}

proof fn sums_go_by_the_calls(db: DbModel, after: DbModel, scope: Scope, f: int, n: int, m: int)
    requires
        0 <= n <= db.calls.len(),
        0 <= m <= db.rollups.len(),
        after == (DbModel { calls: after.calls, ..db }),
        after.calls.len() >= db.calls.len(),
        forall|i: int| 0 <= i < db.calls.len() ==> #[trigger] after.calls[i] == db.calls[i],
    ensures
        after.calls_used(scope, f, n) == db.calls_used(scope, f, n),
        after.rollups_used(scope, f, m) == db.rollups_used(scope, f, m),
    decreases n + m,
{
    if n > 0 {
        sums_go_by_the_calls(db, after, scope, f, n - 1, m);
    }
    if m > 0 {
        sums_go_by_the_calls(db, after, scope, f, n, m - 1);
    }
}

/// The tokens of today are those of the calls made since midnight, and no others.
pub proof fn todays_tokens_are_of_today(calls: Seq<CallModel>, now: i64, n: int)
    requires
        0 <= n < calls.len(),
        now >= 0,
        calls[n].created_at >= 0,
    ensures
        ({
            let midnight = now - now % 86_400_000;
            let today = midnight <= calls[n].created_at < midnight + 86_400_000;
            used_on_day(calls, now, n + 1) == used_on_day(calls, now, n) + if today {
                calls[n].usage.total as int
            } else {
                0
            }
        }),
        used_on_day(calls, now, 0) == 0,
{
}

/// A cost that is not known adds nothing to one that is, and two that are known add up.
pub proof fn costs_add_up(a: Option<int>, b: Option<int>)
    ensures
        a is None ==> cost_sum(a, b) == b,
        b is None ==> cost_sum(a, b) == a,
        a is Some && b is Some ==> cost_sum(a, b) == Some(a->Some_0 + b->Some_0),
{
}

/// What is kept of a publication is what was given, under the job's name; an older one is replaced
/// and keeps the time it was made.
pub proof fn publications_are_kept_as_given(db: DbModel, job_id: Seq<char>, m: PublicationMetadata, now: i64)
    requires
        db.wf(),
    ensures
        ({
            let after = db.with_publication(job_id, m, now);
            &&& exists|k: int|
                0 <= k < after.publications.len() && (#[trigger] after.publications[k]).job_id
                    == job_id && after.publications[k].title == m.title@
                    && after.publications[k].dynamic == m.dynamic@ && after.publications[k].tags
                    == views(m.tags@) && after.publications[k].tid == m.tid
                    && after.publications[k].raw_json == m.raw_json@
                    && after.publications[k].updated_at == now
            &&& forall|k: int|
                0 <= k < db.publications.len() && (#[trigger] db.publications[k]).job_id == job_id
                    ==> after.publications.len() == db.publications.len()
                    && after.publications[k].created_at == db.publications[k].created_at
            &&& forall|k: int|
                0 <= k < db.publications.len() && (#[trigger] db.publications[k]).job_id != job_id
                    ==> after.publications[k] == db.publications[k]
            &&& after.jobs == db.jobs
        }),
{
    let p = |r: PublicationRowModel| r.job_id == job_id;
    place_means(db.publications, p);
    assert(db.publication_at(job_id) == place(db.publications, p));
    let after = db.with_publication(job_id, m, now);
    if db.publication_at(job_id) is Some {
        let k = db.publication_at(job_id)->Some_0;
        assert(db.publications[k].job_id == job_id);
        assert(after.publications[k].job_id == job_id);
    } else {
        assert(after.publications[db.publications.len() as int].job_id == job_id);
        assert forall|k: int| 0 <= k < db.publications.len() implies (
        #[trigger] db.publications[k]).job_id != job_id by {
            assert(!p(db.publications[k]));
        }
    }
}

/// A call that ended bears what it used, how it ended and what it said, and keeps what it was.
pub proof fn ended_calls_bear_their_usage(
    db: &mut Database,
    id: i64,
    status: &str,
    usage: &AiUsage,
    duration_ms: i64,
    output: Option<&str>,
    error: Option<&str>,
    now: i64,
    k: int,
)
    requires
        call_ensures(
            Database::finish_ai_call,
            (db, id, status, usage, duration_ms, output, error, now),
            (),
        ),
        old(db)@.wf(),
        0 <= k < old(db)@.calls.len(),
        old(db)@.calls[k].id == id,
    ensures
        ({
            let before = old(db)@.calls[k];
            let after = final(db)@.calls[k];
            &&& after.usage == *usage && after.status == status@
            &&& after.duration_ms == Some(duration_ms) && after.finished_at == Some(now)
            &&& output is Some ==> after.output_json == Some(output->Some_0@)
            &&& error is Some ==> after.error == Some(error->Some_0@)
            &&& after.job_id == before.job_id && after.task == before.task
            &&& after.created_at == before.created_at && after.model == before.model
            &&& forall|j: int|
                0 <= j < old(db)@.calls.len() && j != k ==> #[trigger] final(db)@.calls[j]
                    == old(db)@.calls[j]
        }),
{
    let p = |c: CallModel| c.id == id;
    assert(is_first(old(db)@.calls, p, k));
    place_is(old(db)@.calls, p, k);
    assert(old(db)@.call_at(id) == place(old(db)@.calls, p));
}

/// A stage that starts runs from now, for its job, under the next number.
pub proof fn stages_start_running(
    db: &mut Database,
    job_id: &str,
    stage: &str,
    provider: Option<&str>,
    model: Option<&str>,
    thinking: Option<&str>,
    now: i64,
    r: Result<i64, DbError>,
)
    requires
        call_ensures(Database::start_stage, (db, job_id, stage, provider, model, thinking, now), r),
        old(db)@.stage_seq < i64::MAX,
        old(db)@.job_at(job_id@) is Some,
    ensures
        r is Ok && r->Ok_0 == old(db)@.stage_seq + 1,
        final(db)@.stages.len() == old(db)@.stages.len() + 1,
        final(db)@.stages.last().id == r->Ok_0,
        final(db)@.stages.last().job_id == job_id@ && final(db)@.stages.last().stage == stage@,
        final(db)@.stages.last().status == "running"@,
        final(db)@.stages.last().started_at == now,
        final(db)@.stages.last().finished_at is None,
{
}

} // verus!
