//! Removing old history. What removed calls used is added up for each job, so no sum changes.
use vstd::prelude::*;

use crate::fault::{refused, DbError};
use crate::jobs::countable;
use crate::ledger::{cost_of, cost_sum, tokens, Scope, DAY_MS};
use crate::model::AiUsage;
use crate::store::{
    is_first, place, place_is, place_is_none, place_means, same_place, CallModel, Database, DbModel,
    EventModel, RollupModel, StageModel, UsageRollup,
};
use crate::text::same_text;

verus! {

/// Two costs together, as they are stored.
pub open spec fn stored_cost_sum(a: Option<i64>, b: Option<i64>) -> Option<i64> {
    match (a, b) {
        (None, _) => b,
        (_, None) => a,
        (Some(x), Some(y)) => Some((x + y) as i64),
    }
}

/// Two usages together; nothing where a sum cannot be stored.
pub open spec fn usage_sum(a: AiUsage, b: AiUsage) -> Option<AiUsage> {
    if (forall|f: int| 0 <= f < 6 ==> countable(#[trigger] tokens(a, f) + tokens(b, f))) && (cost_sum(
        cost_of(a),
        cost_of(b),
    ) matches Some(c) ==> countable(c)) {
        Some(
            AiUsage {
                input: (a.input + b.input) as i64,
                output: (a.output + b.output) as i64,
                reasoning: (a.reasoning + b.reasoning) as i64,
                cache_read: (a.cache_read + b.cache_read) as i64,
                cache_write: (a.cache_write + b.cache_write) as i64,
                total: (a.total + b.total) as i64,
                cost: stored_cost_sum(a.cost, b.cost),
            },
        )
    } else {
        None
    }
}

/// Where the rollup of a job stands.
pub open spec fn rollup_at(rollups: Seq<RollupModel>, job_id: Seq<char>) -> Option<int> {
    place(rollups, |r: RollupModel| r.job_id == job_id)
}

/// The rollups with a usage of a job added; nothing where a sum cannot be stored.
pub open spec fn absorbed(rollups: Seq<RollupModel>, job_id: Seq<char>, usage: AiUsage, now: i64) -> Option<
    Seq<RollupModel>,
> {
    match rollup_at(rollups, job_id) {
        Some(k) => match usage_sum(rollups[k].usage, usage) {
            Some(u) => Some(rollups.update(k, RollupModel { job_id, usage: u, updated_at: now })),
            None => None,
        },
        None => Some(rollups.push(RollupModel { job_id, usage, updated_at: now })),
    }
}

/// The rollups with those of the first `n` calls added that are older than `cutoff`.
pub open spec fn rolled(
    rollups: Seq<RollupModel>,
    calls: Seq<CallModel>,
    cutoff: int,
    now: i64,
    n: int,
) -> Option<Seq<RollupModel>>
    decreases n,
{
    if n <= 0 {
        Some(rollups)
    } else {
        match rolled(rollups, calls, cutoff, now, n - 1) {
            None => None,
            Some(r) => if calls[n - 1].created_at < cutoff {
                absorbed(r, calls[n - 1].job_id, calls[n - 1].usage, now)
            } else {
                Some(r)
            },
        }
    }
}

/// Those of the first `n` calls that are not older than `cutoff`.
pub open spec fn kept_calls(calls: Seq<CallModel>, cutoff: int, n: int) -> Seq<CallModel>
    decreases n,
{
    if n <= 0 {
        Seq::empty()
    } else if calls[n - 1].created_at < cutoff {
        kept_calls(calls, cutoff, n - 1)
    } else {
        kept_calls(calls, cutoff, n - 1).push(calls[n - 1])
    }
}

/// Those of the first `n` events that are not older than `cutoff`.
pub open spec fn kept_events(events: Seq<EventModel>, cutoff: int, n: int) -> Seq<EventModel>
    decreases n,
{
    if n <= 0 {
        Seq::empty()
    } else if events[n - 1].created_at < cutoff {
        kept_events(events, cutoff, n - 1)
    } else {
        kept_events(events, cutoff, n - 1).push(events[n - 1])
    }
}

/// Those of the first `n` runs of stages that did not start before `cutoff`.
pub open spec fn kept_stages(stages: Seq<StageModel>, cutoff: int, n: int) -> Seq<StageModel>
    decreases n,
{
    if n <= 0 {
        Seq::empty()
    } else if stages[n - 1].started_at < cutoff {
        kept_stages(stages, cutoff, n - 1)
    } else {
        kept_stages(stages, cutoff, n - 1).push(stages[n - 1])
    }
}

/// Whether a call that is kept names a run of a stage that is not.
pub open spec fn dangling(db: DbModel, cutoff: int) -> bool {
    exists|i: int, j: int|
        {
            &&& 0 <= i < db.calls.len()
            &&& 0 <= j < db.stages.len()
            &&& (#[trigger] db.calls[i]).created_at >= cutoff
            &&& (#[trigger] db.stages[j]).started_at < cutoff
            &&& db.calls[i].stage_run_id == Some(db.stages[j].id)
        }
}

/// The point in time that history is kept from.
pub open spec fn cutoff_of(now: i64, keep_days: i64) -> int {
    now - keep_days * DAY_MS
}

/// The tables without the history before `cutoff`.
pub open spec fn pruned(db: DbModel, cutoff: int, now: i64) -> Result<DbModel, DbError> {
    match rolled(db.rollups, db.calls, cutoff, now, db.calls.len() as int) {
        None => Err(DbError::TooLarge),
        Some(rollups) => if dangling(db, cutoff) {
            Err(DbError::ForeignKey)
        } else {
            Ok(
                DbModel {
                    rollups,
                    calls: kept_calls(db.calls, cutoff, db.calls.len() as int),
                    events: kept_events(db.events, cutoff, db.events.len() as int),
                    stages: kept_stages(db.stages, cutoff, db.stages.len() as int),
                    ..db
                },
            )
        },
    }
}

proof fn usage_sum_adds(a: AiUsage, b: AiUsage, f: int)
    requires
        usage_sum(a, b) is Some,
        0 <= f < 6,
    ensures
        tokens(usage_sum(a, b)->Some_0, f) == tokens(a, f) + tokens(b, f),
        cost_of(usage_sum(a, b)->Some_0) == cost_sum(cost_of(a), cost_of(b)),
{
    assert(countable(tokens(a, 0) + tokens(b, 0)));
    assert(countable(tokens(a, 1) + tokens(b, 1)));
    assert(countable(tokens(a, 2) + tokens(b, 2)));
    assert(countable(tokens(a, 3) + tokens(b, 3)));
    assert(countable(tokens(a, 4) + tokens(b, 4)));
    assert(countable(tokens(a, 5) + tokens(b, 5)));
}

proof fn cost_sum_laws(a: Option<int>, b: Option<int>, c: Option<int>)
    ensures
        cost_sum(a, b) == cost_sum(b, a),
        cost_sum(cost_sum(a, b), c) == cost_sum(a, cost_sum(b, c)),
        cost_sum(a, None) == a,
{
}

proof fn calls_prefix(a: DbModel, b: DbModel, scope: Scope, f: int, n: int)
    requires
        a.jobs == b.jobs,
        forall|i: int| 0 <= i < n ==> a.calls[i] == b.calls[i],
    ensures
        a.calls_used(scope, f, n) == b.calls_used(scope, f, n),
        a.calls_cost(scope, n) == b.calls_cost(scope, n),
    decreases n,
{
    if n > 0 {
        calls_prefix(a, b, scope, f, n - 1);
        assert(a.in_scope(scope, a.calls[n - 1].job_id) == b.in_scope(scope, b.calls[n - 1].job_id));
    }
}

proof fn rollups_prefix(a: DbModel, b: DbModel, scope: Scope, f: int, n: int)
    requires
        a.jobs == b.jobs,
        forall|i: int| 0 <= i < n ==> a.rollups[i] == b.rollups[i],
    ensures
        a.rollups_used(scope, f, n) == b.rollups_used(scope, f, n),
        a.rollups_cost(scope, n) == b.rollups_cost(scope, n),
    decreases n,
{
    if n > 0 {
        rollups_prefix(a, b, scope, f, n - 1);
        assert(a.in_scope(scope, a.rollups[n - 1].job_id) == b.in_scope(
            scope,
            b.rollups[n - 1].job_id,
        ));
    }
}

/// The tokens of a usage of a job, if it counts.
pub open spec fn counted(db: DbModel, scope: Scope, job_id: Seq<char>, u: AiUsage, f: int) -> int {
    if db.in_scope(scope, job_id) {
        tokens(u, f)
    } else {
        0
    }
}

/// The cost of a usage of a job, if it counts.
pub open spec fn counted_cost(db: DbModel, scope: Scope, job_id: Seq<char>, u: AiUsage) -> Option<int> {
    if db.in_scope(scope, job_id) {
        cost_of(u)
    } else {
        None
    }
}

proof fn updated_rollup(db: DbModel, scope: Scope, f: int, k: int, u: AiUsage, now: i64, n: int)
    requires
        0 <= k < n <= db.rollups.len(),
        0 <= f < 6,
        usage_sum(db.rollups[k].usage, u) is Some,
    ensures
        ({
            let row = RollupModel {
                job_id: db.rollups[k].job_id,
                usage: usage_sum(db.rollups[k].usage, u)->Some_0,
                updated_at: now,
            };
            let after = DbModel { rollups: db.rollups.update(k, row), ..db };
            &&& after.rollups_used(scope, f, n) == db.rollups_used(scope, f, n) + counted(
                db,
                scope,
                db.rollups[k].job_id,
                u,
                f,
            )
            &&& after.rollups_cost(scope, n) == cost_sum(
                db.rollups_cost(scope, n),
                counted_cost(db, scope, db.rollups[k].job_id, u),
            )
        }),
    decreases n,
{
    let old_row = db.rollups[k];
    let row = RollupModel {
        job_id: old_row.job_id,
        usage: usage_sum(old_row.usage, u)->Some_0,
        updated_at: now,
    };
    let after = DbModel { rollups: db.rollups.update(k, row), ..db };
    assert(forall|id: Seq<char>| after.in_scope(scope, id) == #[trigger] db.in_scope(scope, id)) by {
        assert(after.jobs == db.jobs);
    }
    usage_sum_adds(old_row.usage, u, f);
    if k == n - 1 {
        rollups_prefix(after, db, scope, f, n - 1);
        cost_sum_laws(db.rollups_cost(scope, n - 1), cost_of(old_row.usage), cost_of(u));
        assert(after.rollups[n - 1] == row);
        assert(db.in_scope(scope, old_row.job_id) == after.in_scope(scope, row.job_id));
    } else {
        updated_rollup(db, scope, f, k, u, now, n - 1);
        assert(after.rollups[n - 1] == db.rollups[n - 1]);
        let x = counted_cost(db, scope, old_row.job_id, u);
        cost_sum_laws(db.rollups_cost(scope, n - 1), x, cost_of(db.rollups[n - 1].usage));
        cost_sum_laws(db.rollups_cost(scope, n - 1), cost_of(db.rollups[n - 1].usage), x);
        cost_sum_laws(x, cost_of(db.rollups[n - 1].usage), None);
        assert(db.in_scope(scope, db.rollups[n - 1].job_id) == after.in_scope(
            scope,
            after.rollups[n - 1].job_id,
        ));
    }
}

proof fn absorbed_adds(db: DbModel, scope: Scope, f: int, job_id: Seq<char>, u: AiUsage, now: i64)
    requires
        0 <= f < 6,
        absorbed(db.rollups, job_id, u, now) is Some,
    ensures
        ({
            let after = DbModel { rollups: absorbed(db.rollups, job_id, u, now)->Some_0, ..db };
            &&& after.rollups_used(scope, f, after.rollups.len() as int) == db.rollups_used(
                scope,
                f,
                db.rollups.len() as int,
            ) + counted(db, scope, job_id, u, f)
            &&& after.rollups_cost(scope, after.rollups.len() as int) == cost_sum(
                db.rollups_cost(scope, db.rollups.len() as int),
                counted_cost(db, scope, job_id, u),
            )
        }),
{
    let after = DbModel { rollups: absorbed(db.rollups, job_id, u, now)->Some_0, ..db };
    place_means(db.rollups, |r: RollupModel| r.job_id == job_id);
    match rollup_at(db.rollups, job_id) {
        Some(k) => {
            updated_rollup(db, scope, f, k, u, now, db.rollups.len() as int);
        },
        None => {
            let n = db.rollups.len() as int;
            rollups_prefix(after, db, scope, f, n);
            assert(after.rollups[n].job_id == job_id && after.rollups[n].usage == u);
            assert(after.in_scope(scope, job_id) == db.in_scope(scope, job_id)) by {
                assert(after.jobs == db.jobs);
            }
            cost_sum_laws(db.rollups_cost(scope, n), None, None);
        },
    }
}

/// What removing the first `n` calls does to the sums: what they lose the rollups gain.
proof fn sums_move(db: DbModel, scope: Scope, f: int, cutoff: int, now: i64, n: int)
    requires
        0 <= f < 6,
        0 <= n <= db.calls.len(),
        rolled(db.rollups, db.calls, cutoff, now, n) is Some,
    ensures
        ({
            let after = DbModel {
                rollups: rolled(db.rollups, db.calls, cutoff, now, n)->Some_0,
                calls: kept_calls(db.calls, cutoff, n),
                ..db
            };
            &&& after.tokens_used(scope, f) == db.calls_used(scope, f, n) + db.rollups_used(
                scope,
                f,
                db.rollups.len() as int,
            )
            &&& after.cost_used(scope) == cost_sum(
                db.calls_cost(scope, n),
                db.rollups_cost(scope, db.rollups.len() as int),
            )
        }),
    decreases n,
{
    if n <= 0 {
        let after = DbModel { rollups: db.rollups, calls: Seq::empty(), ..db };
        rollups_prefix(after, db, scope, f, db.rollups.len() as int);
        calls_prefix(after, db, scope, f, 0);
    } else {
        sums_move(db, scope, f, cutoff, now, n - 1);
        let call = db.calls[n - 1];
        let rollups = rolled(db.rollups, db.calls, cutoff, now, n - 1)->Some_0;
        let calls = kept_calls(db.calls, cutoff, n - 1);
        let mid = DbModel { rollups, calls, ..db };
        assert(mid.in_scope(scope, call.job_id) == db.in_scope(scope, call.job_id)) by {
            assert(mid.jobs == db.jobs);
        }
        let c0 = mid.calls_cost(scope, calls.len() as int);
        let r0 = mid.rollups_cost(scope, rollups.len() as int);
        let d0 = db.calls_cost(scope, n - 1);
        let e0 = db.rollups_cost(scope, db.rollups.len() as int);
        let x = counted_cost(db, scope, call.job_id, call.usage);
        cost_sum_laws(c0, r0, x);
        cost_sum_laws(d0, e0, x);
        cost_sum_laws(d0, x, e0);
        cost_sum_laws(e0, x, None);
        cost_sum_laws(c0, x, r0);
        cost_sum_laws(r0, x, None);
        cost_sum_laws(d0, None, None);
        cost_sum_laws(x, e0, None);
        if call.created_at < cutoff {
            absorbed_adds(mid, scope, f, call.job_id, call.usage, now);
            let next = DbModel {
                rollups: absorbed(rollups, call.job_id, call.usage, now)->Some_0,
                ..mid
            };
            calls_prefix(next, mid, scope, f, calls.len() as int);
            let after = DbModel {
                rollups: rolled(db.rollups, db.calls, cutoff, now, n)->Some_0,
                calls: kept_calls(db.calls, cutoff, n),
                ..db
            };
            assert(after == next);
        } else {
            let next = DbModel { calls: calls.push(call), ..mid };
            calls_prefix(next, mid, scope, f, calls.len() as int);
            rollups_prefix(next, mid, scope, f, rollups.len() as int);
            assert(next.calls[calls.len() as int] == call);
            assert(next.in_scope(scope, call.job_id) == db.in_scope(scope, call.job_id)) by {
                assert(next.jobs == db.jobs);
            }
            let after = DbModel {
                rollups: rolled(db.rollups, db.calls, cutoff, now, n)->Some_0,
                calls: kept_calls(db.calls, cutoff, n),
                ..db
            };
            assert(after == next);
        }
    }
}

/// Removing history changes no sum of tokens and no cost, for all jobs, one job or one channel.
pub proof fn pruning_keeps_totals(db: DbModel, scope: Scope, f: int, cutoff: int, now: i64)
    requires
        0 <= f < 6,
        pruned(db, cutoff, now) is Ok,
    ensures
        pruned(db, cutoff, now)->Ok_0.tokens_used(scope, f) == db.tokens_used(scope, f),
        pruned(db, cutoff, now)->Ok_0.cost_used(scope) == db.cost_used(scope),
{
    let n = db.calls.len() as int;
    sums_move(db, scope, f, cutoff, now, n);
    let mid = DbModel {
        rollups: rolled(db.rollups, db.calls, cutoff, now, n)->Some_0,
        calls: kept_calls(db.calls, cutoff, n),
        ..db
    };
    let after = pruned(db, cutoff, now)->Ok_0;
    calls_prefix(mid, after, scope, f, mid.calls.len() as int);
    rollups_prefix(mid, after, scope, f, mid.rollups.len() as int);
}

proof fn kept_calls_come_from(calls: Seq<CallModel>, cutoff: int, n: int)
    requires
        0 <= n <= calls.len(),
    ensures
        kept_calls(calls, cutoff, n).len() <= n,
        forall|i: int|
            0 <= i < kept_calls(calls, cutoff, n).len() ==> exists|m: int|
                0 <= m < n && (#[trigger] kept_calls(calls, cutoff, n)[i]) == calls[m],
        (forall|i: int, j: int| 0 <= i < j < calls.len() ==> (#[trigger] calls[i]).id != (
        #[trigger] calls[j]).id) ==> forall|i: int, j: int|
            0 <= i < j < kept_calls(calls, cutoff, n).len() ==> (#[trigger] kept_calls(
                calls,
                cutoff,
                n,
            )[i]).id != (#[trigger] kept_calls(calls, cutoff, n)[j]).id,
    decreases n,
{
    if n > 0 {
        kept_calls_come_from(calls, cutoff, n - 1);
        let before = kept_calls(calls, cutoff, n - 1);
        let after = kept_calls(calls, cutoff, n);
        assert forall|i: int| 0 <= i < after.len() implies exists|m: int|
            0 <= m < n && (#[trigger] after[i]) == calls[m] by {
            if i < before.len() {
                assert(after[i] == before[i]);
                let m = choose|m: int| 0 <= m < n - 1 && before[i] == calls[m];
                assert(after[i] == calls[m]);
            } else {
                assert(after[i] == calls[n - 1]);
            }
        }
        if forall|i: int, j: int| 0 <= i < j < calls.len() ==> (#[trigger] calls[i]).id != (
        #[trigger] calls[j]).id {
            assert forall|i: int, j: int| 0 <= i < j < after.len() implies (#[trigger] after[i]).id
                != (#[trigger] after[j]).id by {
                assert(after[i] == before[i]);
                if j < before.len() {
                    assert(after[j] == before[j]);
                } else {
                    let m = choose|m: int| 0 <= m < n - 1 && before[i] == calls[m];
                    assert(calls[m].id != calls[n - 1].id);
                }
            }
        }
    }
}

proof fn kept_stages_come_from(stages: Seq<StageModel>, cutoff: int, n: int)
    requires
        0 <= n <= stages.len(),
    ensures
        kept_stages(stages, cutoff, n).len() <= n,
        forall|i: int|
            0 <= i < kept_stages(stages, cutoff, n).len() ==> exists|m: int|
                0 <= m < n && (#[trigger] kept_stages(stages, cutoff, n)[i]) == stages[m],
        (forall|i: int, j: int| 0 <= i < j < stages.len() ==> (#[trigger] stages[i]).id != (
        #[trigger] stages[j]).id) ==> forall|i: int, j: int|
            0 <= i < j < kept_stages(stages, cutoff, n).len() ==> (#[trigger] kept_stages(
                stages,
                cutoff,
                n,
            )[i]).id != (#[trigger] kept_stages(stages, cutoff, n)[j]).id,
    decreases n,
{
    if n > 0 {
        kept_stages_come_from(stages, cutoff, n - 1);
        let before = kept_stages(stages, cutoff, n - 1);
        let after = kept_stages(stages, cutoff, n);
        assert forall|i: int| 0 <= i < after.len() implies exists|m: int|
            0 <= m < n && (#[trigger] after[i]) == stages[m] by {
            if i < before.len() {
                assert(after[i] == before[i]);
                let m = choose|m: int| 0 <= m < n - 1 && before[i] == stages[m];
                assert(after[i] == stages[m]);
            } else {
                assert(after[i] == stages[n - 1]);
            }
        }
        if forall|i: int, j: int| 0 <= i < j < stages.len() ==> (#[trigger] stages[i]).id != (
        #[trigger] stages[j]).id {
            assert forall|i: int, j: int| 0 <= i < j < after.len() implies (#[trigger] after[i]).id
                != (#[trigger] after[j]).id by {
                assert(after[i] == before[i]);
                if j < before.len() {
                    assert(after[j] == before[j]);
                } else {
                    let m = choose|m: int| 0 <= m < n - 1 && before[i] == stages[m];
                    assert(stages[m].id != stages[n - 1].id);
                }
            }
        }
    }
}

proof fn rolled_is_distinct(
    rollups: Seq<RollupModel>,
    calls: Seq<CallModel>,
    cutoff: int,
    now: i64,
    n: int,
)
    requires
        forall|i: int, j: int|
            0 <= i < j < rollups.len() ==> (#[trigger] rollups[i]).job_id != (
            #[trigger] rollups[j]).job_id,
        rolled(rollups, calls, cutoff, now, n) is Some,
    ensures
        ({
            let r = rolled(rollups, calls, cutoff, now, n)->Some_0;
            forall|i: int, j: int|
                0 <= i < j < r.len() ==> (#[trigger] r[i]).job_id != (#[trigger] r[j]).job_id
        }),
    decreases n,
{
    if n > 0 {
        rolled_is_distinct(rollups, calls, cutoff, now, n - 1);
        let before = rolled(rollups, calls, cutoff, now, n - 1)->Some_0;
        let call = calls[n - 1];
        if call.created_at < cutoff {
            let p = |r: RollupModel| r.job_id == call.job_id;
            place_means(before, p);
            let after = absorbed(before, call.job_id, call.usage, now)->Some_0;
            assert forall|i: int, j: int| 0 <= i < j < after.len() implies (
            #[trigger] after[i]).job_id != (#[trigger] after[j]).job_id by {
                if i < before.len() {
                    let a = before[i];
                }
                if j < before.len() {
                    let b = before[j];
                } else {
                    assert(!p(before[i]));
                }
            }
        }
    }
}

/// Removing history keeps the tables sound.
pub proof fn pruning_keeps_wf(db: DbModel, cutoff: int, now: i64)
    requires
        db.wf(),
        pruned(db, cutoff, now) is Ok,
    ensures
        pruned(db, cutoff, now)->Ok_0.wf(),
{
    let after = pruned(db, cutoff, now)->Ok_0;
    kept_calls_come_from(db.calls, cutoff, db.calls.len() as int);
    kept_stages_come_from(db.stages, cutoff, db.stages.len() as int);
    rolled_is_distinct(db.rollups, db.calls, cutoff, now, db.calls.len() as int);
    assert forall|i: int| 0 <= i < after.stages.len() implies (#[trigger] after.stages[i]).id
        <= after.stage_seq by {
        let m = choose|m: int| 0 <= m < db.stages.len() && after.stages[i] == db.stages[m];
        assert(db.stages[m].id <= db.stage_seq);
    }
    assert forall|i: int| 0 <= i < after.calls.len() implies (#[trigger] after.calls[i]).id
        <= after.call_seq by {
        let m = choose|m: int| 0 <= m < db.calls.len() && after.calls[i] == db.calls[m];
        assert(db.calls[m].id <= db.call_seq);
    }
}

fn fit_sum(a: i64, b: i64) -> (r: Option<i64>)
    ensures
        r is Some <==> countable(a + b),
        r matches Some(n) ==> n == a + b,
{
    a.checked_add(b)
}

fn add_usage(a: &AiUsage, b: &AiUsage) -> (r: Option<AiUsage>)
    ensures
        r == usage_sum(*a, *b),
{
    let cost: Option<i64> = match (a.cost, b.cost) {
        (None, c) => c,
        (c, None) => c,
        (Some(x), Some(y)) => match fit_sum(x, y) {
            Some(s) => Some(s),
            None => {
                return None;
            },
        },
    };
    match (
        fit_sum(a.input, b.input),
        fit_sum(a.output, b.output),
        fit_sum(a.reasoning, b.reasoning),
        fit_sum(a.cache_read, b.cache_read),
        fit_sum(a.cache_write, b.cache_write),
        fit_sum(a.total, b.total),
    ) {
        (
            Some(input),
            Some(output),
            Some(reasoning),
            Some(cache_read),
            Some(cache_write),
            Some(total),
        ) => Some(
            AiUsage { input, output, reasoning, cache_read, cache_write, total, cost },
        ),
        _ => {
            proof {
                assert(!countable(tokens(*a, 0) + tokens(*b, 0)) || !countable(
                    tokens(*a, 1) + tokens(*b, 1),
                ) || !countable(tokens(*a, 2) + tokens(*b, 2)) || !countable(
                    tokens(*a, 3) + tokens(*b, 3),
                ) || !countable(tokens(*a, 4) + tokens(*b, 4)) || !countable(
                    tokens(*a, 5) + tokens(*b, 5),
                ));
            }
            None
        },
    }
}

/// What rollups hold.
pub open spec fn rollup_views(v: Seq<UsageRollup>) -> Seq<RollupModel> {
    v.map_values(|r: UsageRollup| r@)
}

fn find_rollup(rollups: &Vec<UsageRollup>, job_id: &str) -> (r: Option<usize>)
    ensures
        same_place(r, rollup_at(rollup_views(rollups@), job_id@), rollups@.len() as int),
        r matches Some(k) ==> rollups@[k as int].job_id@ == job_id@,
{
    let ghost p = |r: RollupModel| r.job_id == job_id@;
    let ghost rows = rollup_views(rollups@);
    let mut i: usize = 0;
    while i < rollups.len()
        invariant
            rows == rollup_views(rollups@),
            p == (|r: RollupModel| r.job_id == job_id@),
            0 <= i <= rows.len(),
            forall|j: int| 0 <= j < i ==> !p(#[trigger] rows[j]),
        decreases rollups@.len() - i,
    {
        proof {
            assert(rows[i as int] == rollups@[i as int]@);
        }
        if same_text(rollups[i].job_id.as_str(), job_id) {
            proof {
                assert(is_first(rows, p, i as int));
                place_is(rows, p, i as int);
            }
            return Some(i);
        }
        i = i + 1;
    }
    proof {
        place_is_none(rows, p);
    }
    None
}

fn absorb(rollups: &mut Vec<UsageRollup>, job_id: &str, usage: &AiUsage, now: i64) -> (r: bool)
    ensures
        match absorbed(rollup_views(old(rollups)@), job_id@, *usage, now) {
            Some(after) => r && rollup_views(final(rollups)@) == after,
            None => !r,
        },
{
    match find_rollup(rollups, job_id) {
        Some(k) => match add_usage(&rollups[k].usage, usage) {
            Some(u) => {
                let ghost before = rollup_views(rollups@);
                rollups[k].usage = u;
                rollups[k].updated_at = now;
                proof {
                    assert(rollup_views(rollups@) =~= before.update(
                        k as int,
                        RollupModel { job_id: job_id@, usage: u, updated_at: now },
                    ));
                }
                true
            },
            None => false,
        },
        None => {
            let ghost before = rollup_views(rollups@);
            rollups.push(UsageRollup { job_id: job_id.to_owned(), usage: *usage, updated_at: now });
            proof {
                assert(rollup_views(rollups@) =~= before.push(
                    RollupModel { job_id: job_id@, usage: *usage, updated_at: now },
                ));
            }
            true
        },
    }
}

impl Database {
    fn copy_rollups(&self) -> (r: Vec<UsageRollup>)
        ensures
            rollup_views(r@) == self@.rollups,
    {
        let mut out: Vec<UsageRollup> = Vec::new();
        let mut i: usize = 0;
        while i < self.rollups.len()
            invariant
                0 <= i <= self.rollups@.len(),
                out@.len() == i,
                forall|j: int| 0 <= j < i ==> (#[trigger] out@[j])@ == self@.rollups[j],
            decreases self.rollups@.len() - i,
        {
            let row = &self.rollups[i];
            out.push(
                UsageRollup {
                    job_id: row.job_id.clone(),
                    usage: row.usage,
                    updated_at: row.updated_at,
                },
            );
            i = i + 1;
        }
        proof {
            assert(rollup_views(out@) =~= self@.rollups);
        }
        out
    }

    fn is_dangling(&self, cutoff: i64) -> (r: bool)
        ensures
            r == dangling(self@, cutoff as int),
    {
        let mut i: usize = 0;
        while i < self.calls.len()
            invariant
                0 <= i <= self.calls@.len(),
                forall|a: int, b: int|
                    0 <= a < i && 0 <= b < self.stages@.len() ==> !((
                    #[trigger] self@.calls[a]).created_at >= cutoff && (
                    #[trigger] self@.stages[b]).started_at < cutoff && self@.calls[a].stage_run_id
                        == Some(self@.stages[b].id)),
            decreases self.calls@.len() - i,
        {
            match self.calls[i].stage_run_id {
                Some(stage) => {
                    if self.calls[i].created_at >= cutoff {
                        let mut j: usize = 0;
                        while j < self.stages.len()
                            invariant
                                0 <= i < self.calls@.len(),
                                self@.calls[i as int].stage_run_id == Some(stage),
                                self@.calls[i as int].created_at >= cutoff,
                                0 <= j <= self.stages@.len(),
                                forall|b: int|
                                    0 <= b < j ==> !((#[trigger] self@.stages[b]).started_at < cutoff
                                        && self@.stages[b].id == stage),
                            decreases self.stages@.len() - j,
                        {
                            if self.stages[j].id == stage && self.stages[j].started_at < cutoff {
                                proof {
                                    let a = self@.calls[i as int];
                                    let b = self@.stages[j as int];
                                    assert(a.created_at >= cutoff && b.started_at < cutoff);
                                }
                                return true;
                            }
                            j = j + 1;
                        }
                    }
                },
                None => {},
            }
            i = i + 1;
        }
        false
    }

    fn remove_calls(&mut self, cutoff: i64) -> (r: usize)
        ensures
            final(self)@ == (DbModel {
                calls: kept_calls(old(self)@.calls, cutoff as int, old(self)@.calls.len() as int),
                ..old(self)@
            }),
            r == old(self)@.calls.len() - final(self)@.calls.len(),
    {
        let ghost before = self@;
        let n: usize = self.calls.len();
        let mut m: usize = 0;
        let mut i: usize = 0;
        proof {
            assert(kept_calls(before.calls, cutoff as int, 0) + before.calls.skip(0)
                =~= before.calls);
        }
        while m < n
            invariant
                before == old(self)@,
                n == before.calls.len(),
                0 <= i <= m <= n,
                i == kept_calls(before.calls, cutoff as int, m as int).len(),
                self@ == (DbModel { calls: self@.calls, ..before }),
                self@.calls == kept_calls(before.calls, cutoff as int, m as int)
                    + before.calls.skip(m as int),
            decreases n - m,
        {
            let ghost head = kept_calls(before.calls, cutoff as int, m as int);
            proof {
                assert(self@.calls[i as int] == before.calls[m as int]);
                assert(self.calls@.len() == self@.calls.len());
            }
            if self.calls[i].created_at < cutoff {
                let ghost rows = self@.calls;
                let _ = self.calls.remove(i);
                proof {
                    assert(self@.calls =~= rows.remove(i as int));
                    assert(self@.calls =~= head + before.calls.skip(m + 1));
                }
            } else {
                proof {
                    assert(self@.calls =~= head.push(before.calls[m as int]) + before.calls.skip(
                        m + 1,
                    ));
                }
                i = i + 1;
            }
            m = m + 1;
        }
        proof {
            assert(self@.calls =~= kept_calls(before.calls, cutoff as int, n as int));
        }
        n - i
    }

    fn remove_events(&mut self, cutoff: i64) -> (r: usize)
        ensures
            final(self)@ == (DbModel {
                events: kept_events(old(self)@.events, cutoff as int, old(self)@.events.len() as int),
                ..old(self)@
            }),
            r == old(self)@.events.len() - final(self)@.events.len(),
    {
        let ghost before = self@;
        let n: usize = self.events.len();
        let mut m: usize = 0;
        let mut i: usize = 0;
        proof {
            assert(kept_events(before.events, cutoff as int, 0) + before.events.skip(0)
                =~= before.events);
        }
        while m < n
            invariant
                before == old(self)@,
                n == before.events.len(),
                0 <= i <= m <= n,
                i == kept_events(before.events, cutoff as int, m as int).len(),
                self@ == (DbModel { events: self@.events, ..before }),
                self@.events == kept_events(before.events, cutoff as int, m as int)
                    + before.events.skip(m as int),
            decreases n - m,
        {
            let ghost head = kept_events(before.events, cutoff as int, m as int);
            proof {
                assert(self@.events[i as int] == before.events[m as int]);
                assert(self.events@.len() == self@.events.len());
            }
            if self.events[i].created_at < cutoff {
                let ghost rows = self@.events;
                let _ = self.events.remove(i);
                proof {
                    assert(self@.events =~= rows.remove(i as int));
                    assert(self@.events =~= head + before.events.skip(m + 1));
                }
            } else {
                proof {
                    assert(self@.events =~= head.push(before.events[m as int])
                        + before.events.skip(m + 1));
                }
                i = i + 1;
            }
            m = m + 1;
        }
        proof {
            assert(self@.events =~= kept_events(before.events, cutoff as int, n as int));
        }
        n - i
    }

    fn remove_stages(&mut self, cutoff: i64) -> (r: usize)
        ensures
            final(self)@ == (DbModel {
                stages: kept_stages(old(self)@.stages, cutoff as int, old(self)@.stages.len() as int),
                ..old(self)@
            }),
            r == old(self)@.stages.len() - final(self)@.stages.len(),
    {
        let ghost before = self@;
        let n: usize = self.stages.len();
        let mut m: usize = 0;
        let mut i: usize = 0;
        proof {
            assert(kept_stages(before.stages, cutoff as int, 0) + before.stages.skip(0)
                =~= before.stages);
        }
        while m < n
            invariant
                before == old(self)@,
                n == before.stages.len(),
                0 <= i <= m <= n,
                i == kept_stages(before.stages, cutoff as int, m as int).len(),
                self@ == (DbModel { stages: self@.stages, ..before }),
                self@.stages == kept_stages(before.stages, cutoff as int, m as int)
                    + before.stages.skip(m as int),
            decreases n - m,
        {
            let ghost head = kept_stages(before.stages, cutoff as int, m as int);
            proof {
                assert(self@.stages[i as int] == before.stages[m as int]);
                assert(self.stages@.len() == self@.stages.len());
            }
            if self.stages[i].started_at < cutoff {
                let ghost rows = self@.stages;
                let _ = self.stages.remove(i);
                proof {
                    assert(self@.stages =~= rows.remove(i as int));
                    assert(self@.stages =~= head + before.stages.skip(m + 1));
                }
            } else {
                proof {
                    assert(self@.stages =~= head.push(before.stages[m as int])
                        + before.stages.skip(m + 1));
                }
                i = i + 1;
            }
            m = m + 1;
        }
        proof {
            assert(self@.stages =~= kept_stages(before.stages, cutoff as int, n as int));
        }
        n - i
    }

    /// Removes calls, events and runs of stages that are older than so many days, and tells how many
    /// of each. What the calls used is added to the rollups of their jobs.
    pub fn prune_history(&mut self, keep_days: i64, now: i64) -> (r: Result<
        (usize, usize, usize),
        DbError,
    >)
        requires
            countable(cutoff_of(now, keep_days)),
        ensures
            match pruned(old(self)@, cutoff_of(now, keep_days), now) {
                Err(e) => r == refused::<(usize, usize, usize)>(e) && final(self)@ == old(self)@,
                Ok(after) => final(self)@ == after && (r matches Ok((calls, events, stages)) && calls
                    == old(self)@.calls.len() - after.calls.len() && events
                    == old(self)@.events.len() - after.events.len() && stages
                    == old(self)@.stages.len() - after.stages.len()),
            },
            old(self)@.wf() ==> final(self)@.wf(),
    {
        let cutoff: i64 = ((now as i128) - (keep_days as i128) * (DAY_MS as i128)) as i64;
        let mut rollups = self.copy_rollups();
        let n: usize = self.calls.len();
        let mut i: usize = 0;
        while i < n
            invariant
                n == self.calls@.len(),
                0 <= i <= n,
                cutoff == cutoff_of(now, keep_days),
                rolled(self@.rollups, self@.calls, cutoff as int, now, i as int) == Some(
                    rollup_views(rollups@),
                ),
                self@ == old(self)@,
            decreases n - i,
        {
            let ghost rows = rollup_views(rollups@);
            proof {
                assert(self@.calls[i as int] == self.calls@[i as int]@);
            }
            if self.calls[i].created_at < cutoff {
                if !absorb(
                    &mut rollups,
                    self.calls[i].job_id.as_str(),
                    &self.calls[i].usage,
                    now,
                ) {
                    proof {
                        rolled_fails_on(
                            self@.rollups,
                            self@.calls,
                            cutoff as int,
                            now,
                            i + 1,
                            n as int,
                        );
                    }
                    return Err(DbError::TooLarge);
                }
            }
            i = i + 1;
        }
        if self.is_dangling(cutoff) {
            return Err(DbError::ForeignKey);
        }
        let ghost before = self@;
        self.rollups = rollups;
        let calls = self.remove_calls(cutoff);
        let events = self.remove_events(cutoff);
        let stages = self.remove_stages(cutoff);
        proof {
            assert(self@ =~= pruned(before, cutoff as int, now)->Ok_0);
            if before.wf() {
                pruning_keeps_wf(before, cutoff as int, now);
            }
        }
        Ok((calls, events, stages))
    }
}

proof fn rolled_fails_on(
    rollups: Seq<RollupModel>,
    calls: Seq<CallModel>,
    cutoff: int,
    now: i64,
    k: int,
    n: int,
)
    requires
        k <= n,
        rolled(rollups, calls, cutoff, now, k) is None,
    ensures
        rolled(rollups, calls, cutoff, now, n) is None,
    decreases n - k,
{
    if k < n {
        rolled_fails_on(rollups, calls, cutoff, now, k, n - 1);
    }
}

// ---------------------------------------------------------------------------------------------
// What is left of the history
// ---------------------------------------------------------------------------------------------

/// History is kept for so many days.
pub proof fn history_is_kept_for_days(now: i64, keep_days: i64)
    ensures
        cutoff_of(now, keep_days) == now - keep_days * 86_400_000,
{
}

/// What is not older than the cutoff stays, in its order, and nothing else does.
pub proof fn only_old_calls_go(calls: Seq<CallModel>, cutoff: int, n: int)
    requires
        0 <= n <= calls.len(),
    ensures
        kept_calls(calls, cutoff, n) == calls.take(n).filter(
            |c: CallModel| c.created_at >= cutoff,
        ),
    decreases n,
{
    reveal(Seq::filter);
    if n > 0 {
        only_old_calls_go(calls, cutoff, n - 1);
        assert(calls.take(n).drop_last() =~= calls.take(n - 1));
    } else {
        assert(calls.take(n) =~= Seq::<CallModel>::empty());
    }
}

/// What is not older than the cutoff stays, in its order, and nothing else does.
pub proof fn only_old_events_go(events: Seq<EventModel>, cutoff: int, n: int)
    requires
        0 <= n <= events.len(),
    ensures
        kept_events(events, cutoff, n) == events.take(n).filter(
            |e: EventModel| e.created_at >= cutoff,
        ),
    decreases n,
{
    reveal(Seq::filter);
    if n > 0 {
        only_old_events_go(events, cutoff, n - 1);
        assert(events.take(n).drop_last() =~= events.take(n - 1));
    } else {
        assert(events.take(n) =~= Seq::<EventModel>::empty());
    }
}

/// What is not older than the cutoff stays, in its order, and nothing else does.
pub proof fn only_old_stages_go(stages: Seq<StageModel>, cutoff: int, n: int)
    requires
        0 <= n <= stages.len(),
    ensures
        kept_stages(stages, cutoff, n) == stages.take(n).filter(
            |s: StageModel| s.started_at >= cutoff,
        ),
    decreases n,
{
    reveal(Seq::filter);
    if n > 0 {
        only_old_stages_go(stages, cutoff, n - 1);
        assert(stages.take(n).drop_last() =~= stages.take(n - 1));
    } else {
        assert(stages.take(n) =~= Seq::<StageModel>::empty());
    }
}

/// Pruning touches the calls, the events, the stages and the sums of usage, and nothing else.
pub proof fn pruning_leaves_the_rest(db: DbModel, cutoff: int, now: i64)
    requires
        pruned(db, cutoff, now) is Ok,
    ensures
        ({
            let after = pruned(db, cutoff, now)->Ok_0;
            &&& after.jobs == db.jobs && after.channels == db.channels
            &&& after.candidates == db.candidates && after.uploads == db.uploads
            &&& after.subtitles == db.subtitles && after.settings == db.settings
            &&& after.publications == db.publications && after.hold == db.hold
            &&& after.events == db.events.filter(|e: EventModel| e.created_at >= cutoff)
            &&& after.calls == db.calls.filter(|c: CallModel| c.created_at >= cutoff)
            &&& after.stages == db.stages.filter(|s: StageModel| s.started_at >= cutoff)
        }),
{
    only_old_calls_go(db.calls, cutoff, db.calls.len() as int);
    only_old_events_go(db.events, cutoff, db.events.len() as int);
    only_old_stages_go(db.stages, cutoff, db.stages.len() as int);
    assert(db.calls.take(db.calls.len() as int) =~= db.calls);
    assert(db.events.take(db.events.len() as int) =~= db.events);
    assert(db.stages.take(db.stages.len() as int) =~= db.stages);
}

/// Two usages add up number by number.
pub proof fn usages_add_up(a: AiUsage, b: AiUsage)
    ensures
        usage_sum(a, b) matches Some(u) ==> {
            &&& u.input == a.input + b.input && u.output == a.output + b.output
            &&& u.reasoning == a.reasoning + b.reasoning
            &&& u.cache_read == a.cache_read + b.cache_read
            &&& u.cache_write == a.cache_write + b.cache_write
            &&& u.total == a.total + b.total
            &&& a.cost is None ==> u.cost == b.cost
            &&& b.cost is None ==> u.cost == a.cost
            &&& a.cost is Some && b.cost is Some ==> u.cost is Some && u.cost->Some_0
                == a.cost->Some_0 + b.cost->Some_0
        },
{
    if usage_sum(a, b) is Some {
        assert(countable(tokens(a, 0) + tokens(b, 0)));
        assert(countable(tokens(a, 1) + tokens(b, 1)));
        assert(countable(tokens(a, 2) + tokens(b, 2)));
        assert(countable(tokens(a, 3) + tokens(b, 3)));
        assert(countable(tokens(a, 4) + tokens(b, 4)));
        assert(countable(tokens(a, 5) + tokens(b, 5)));
    }
}

/// What a call used goes to the sum of its own job: a new one where there is none, else added to it;
/// the other sums stay.
pub proof fn calls_go_to_the_sum_of_their_job(
    rollups: Seq<RollupModel>,
    job_id: Seq<char>,
    usage: AiUsage,
    now: i64,
    k: int,
)
    requires
        0 <= k < rollups.len(),
        forall|i: int, j: int|
            0 <= i < j < rollups.len() ==> (#[trigger] rollups[i]).job_id != (
            #[trigger] rollups[j]).job_id,
    ensures
        rollups[k].job_id == job_id ==> (absorbed(rollups, job_id, usage, now) matches Some(after)
            ==> after.len() == rollups.len() && after[k].job_id == job_id && after[k].usage.total
            == rollups[k].usage.total + usage.total && after[k].usage.input
            == rollups[k].usage.input + usage.input && after[k].updated_at == now),
        rollups[k].job_id != job_id ==> (absorbed(rollups, job_id, usage, now) matches Some(after)
            ==> after[k] == rollups[k]),
        (forall|i: int| 0 <= i < rollups.len() ==> (#[trigger] rollups[i]).job_id != job_id) ==> (
        absorbed(rollups, job_id, usage, now) matches Some(after) && after.len() == rollups.len() + 1
            && after.last().usage == usage && after.last().job_id == job_id),
{
    let p = |r: RollupModel| r.job_id == job_id;
    place_means(rollups, p);
    assert(rollup_at(rollups, job_id) == place(rollups, p));
    if rollup_at(rollups, job_id) is Some {
        let at = rollup_at(rollups, job_id)->Some_0;
        assert(rollups[at].job_id == job_id);
        if rollups[k].job_id == job_id {
            assert(at == k);
            usages_add_up(rollups[k].usage, usage);
        }
    } else {
        assert(!p(rollups[k]));
    }
}

} // verus!
