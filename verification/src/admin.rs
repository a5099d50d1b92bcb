//! What keeps the service in order: the state of its accounts, its backups and what a user asks for.
use vstd::prelude::*;
use vstd::string::StringExecFns;

use crate::clock::{
    rfc3339, rfc3339_text, utc_format, utc_text, DAY_PATTERN, HOUR_PATTERN, WEEK_PATTERN,
};
use crate::config::{AI_MODEL, AI_PROVIDER};
use crate::fault::{refused, DbError};
use crate::model::JobStatus;
use crate::order::{
    arrange_texts, optional_views, places, text_arranged, text_before, text_less,
    text_order_is_total,
};
use crate::queue::job_of;
use crate::settings::set_then_get;
use crate::store::{Database, JobModel, RowModel};
use crate::submit::AUTH_BILIBILI;
use crate::text::{join, join_all, joined, opt_view, same_text, starts, views};

verus! {

/// The setting that tells whether the account of YouTube is good.
pub const AUTH_YOUTUBE: &'static str = "auth.youtube";

/// How long the history is kept, in days.
pub const HISTORY_RETENTION_DAYS: i64 = 30;

/// How many candidates one turn looks at.
pub const GATE_BATCH: usize = 50;

/// How many backups of hours are kept.
pub const HOURLY_BACKUPS: usize = 4;

// ---------------------------------------------------------------------------------------------
// Accounts
// ---------------------------------------------------------------------------------------------

/// What is noted of an account that was tried: when it was good, or why it is not.
pub open spec fn account_note(error: Option<&str>, checked_at: Seq<char>) -> Seq<char> {
    match error {
        None => "ok "@ + checked_at,
        Some(e) => "failed: "@ + e@,
    }
}

fn note_of(error: Option<&str>, checked_at: &str) -> (r: String)
    ensures
        r@ == account_note(error, checked_at@),
{
    match error {
        None => join("ok ", checked_at),
        Some(e) => join("failed: ", e),
    }
}

/// What is told of the accounts that are no good.
pub open spec fn account_faults(youtube: Option<&str>, bilibili: Option<&str>) -> Seq<Seq<char>> {
    let first = match youtube {
        Some(e) => seq!["YouTube: "@ + e@],
        None => Seq::empty(),
    };
    match bilibili {
        Some(e) => first.push("Bilibili: "@ + e@),
        None => first,
    }
}

impl Database {
    /// Notes how the two accounts were found, both of them whatever became of the other. The message
    /// that names those that are no good, if any is.
    pub fn record_auth_results(&mut self, youtube: Option<&str>, bilibili: Option<&str>, now: i64) -> (r:
        Result<Option<String>, DbError>)
        ensures
            match rfc3339_text(now as int) {
                None => r == refused::<Option<String>>(DbError::OutOfCalendar) && final(self)@ == old(
                    self,
                )@,
                Some(at) => {
                    &&& final(self)@ == old(self)@.with_setting(
                        AUTH_YOUTUBE@,
                        account_note(youtube, at),
                        now,
                    ).with_setting(AUTH_BILIBILI@, account_note(bilibili, at), now)
                    &&& r matches Ok(told)
                    &&& if youtube is None && bilibili is None {
                        told is None
                    } else {
                        told matches Some(t) && t@ == "认证检查失败: "@ + joined(
                            account_faults(youtube, bilibili),
                            "; "@,
                        )
                    }
                },
            },
            old(self)@.wf() ==> final(self)@.wf(),
    {
        let at = match rfc3339(now) {
            Some(at) => at,
            None => {
                return Err(DbError::OutOfCalendar);
            },
        };
        let first = note_of(youtube, at.as_str());
        let second = note_of(bilibili, at.as_str());
        proof {
            if self@.wf() {
                set_then_get(self@, AUTH_YOUTUBE@, first@, now);
            }
        }
        self.set_setting(AUTH_YOUTUBE, first.as_str(), now);
        proof {
            if self@.wf() {
                set_then_get(self@, AUTH_BILIBILI@, second@, now);
            }
        }
        self.set_setting(AUTH_BILIBILI, second.as_str(), now);
        let mut failed: Vec<String> = Vec::new();
        match youtube {
            Some(e) => {
                failed.push(join("YouTube: ", e));
            },
            None => {},
        }
        match bilibili {
            Some(e) => {
                failed.push(join("Bilibili: ", e));
            },
            None => {},
        }
        proof {
            assert(views(failed@) =~= account_faults(youtube, bilibili));
        }
        if failed.len() == 0 {
            return Ok(None);
        }
        Ok(Some(join("认证检查失败: ", join_all(&failed, "; ").as_str())))
    }
}

// ---------------------------------------------------------------------------------------------
// Backups
// ---------------------------------------------------------------------------------------------

/// The names of the backups of a time.
#[derive(Debug)]
pub struct BackupNames {
    pub hourly: String,
    pub daily: String,
    pub weekly: String,
}

/// The name of the backup of a time under a pattern.
pub open spec fn backup_name(ms: int, pattern: Seq<char>) -> Option<Seq<char>> {
    match utc_text(ms, pattern) {
        Some(t) => Some("state-"@ + t + ".db"@),
        None => None,
    }
}

fn backup_file(stamp: &str) -> (r: String)
    ensures
        r@ == "state-"@ + stamp@ + ".db"@,
{
    let mut s = join("state-", stamp);
    s.append(".db");
    s
}

/// The names of the backups of a time; none outside the calendar.
pub fn backup_names(now: i64) -> (r: Option<BackupNames>)
    ensures
        ({
            let hour = backup_name(now as int, HOUR_PATTERN@);
            let day = backup_name(now as int, DAY_PATTERN@);
            let week = backup_name(now as int, WEEK_PATTERN@);
            if hour is Some && day is Some && week is Some {
                r matches Some(n) && hour == Some(n.hourly@) && day == Some(n.daily@) && week == Some(
                    n.weekly@,
                )
            } else {
                r is None
            }
        }),
{
    match (
        utc_format(now, HOUR_PATTERN),
        utc_format(now, DAY_PATTERN),
        utc_format(now, WEEK_PATTERN),
    ) {
        (Some(h), Some(d), Some(w)) => Some(
            BackupNames {
                hourly: backup_file(h.as_str()),
                daily: backup_file(d.as_str()),
                weekly: backup_file(w.as_str()),
            },
        ),
        _ => None,
    }
}

/// The names, each of them there.
pub open spec fn some_of(names: Seq<Seq<char>>) -> Seq<Option<Seq<char>>> {
    names.map_values(|n: Seq<char>| Some(n))
}

/// How many of so many are too many.
pub open spec fn excess(len: int, keep: int) -> int {
    if len > keep {
        len - keep
    } else {
        0
    }
}

/// Whether `gone` are the places of the names that come first, as many as there are too many.
pub open spec fn first_names(names: Seq<Seq<char>>, keep: int, gone: Seq<int>) -> bool {
    exists|order: Seq<int>| #[trigger]
        text_arranged(some_of(names), order) && order.len() == names.len() && gone == order.take(
            excess(names.len() as int, keep),
        )
}

proof fn arranged_all(names: Seq<Seq<char>>, order: Seq<int>)
    requires
        text_arranged(some_of(names), order),
    ensures
        order.len() == names.len(),
{
    let keys = some_of(names);
    let n = names.len() as int;
    let all = Set::new(|k: int| 0 <= k < n);
    assert(order.no_duplicates()) by {
        assert forall|i: int, j: int| 0 <= i < order.len() && 0 <= j < order.len() && i != j implies order[i]
            != order[j] by {
            if i < j {
                assert(text_before(keys, order[i], order[j]));
                if order[i] == order[j] {
                    text_order_is_total(keys[order[i]]->0, keys[order[i]]->0);
                }
            } else {
                assert(text_before(keys, order[j], order[i]));
                if order[i] == order[j] {
                    text_order_is_total(keys[order[i]]->0, keys[order[i]]->0);
                }
            }
        }
    }
    order.unique_seq_to_set();
    assert(order.to_set() =~= all) by {
        assert forall|k: int| all.contains(k) implies order.to_set().contains(k) by {
            assert(keys[k] is Some);
        }
    }
    vstd::set_lib::lemma_int_range(0, n);
    assert(all =~= vstd::set_lib::set_int_range(0, n));
}

/// Which of the files of a directory go so that only the last `keep` by name stay.
pub fn surplus(names: &Vec<String>, keep: usize) -> (r: Vec<usize>)
    ensures
        first_names(views(names@), keep as int, places(r@)),
        r@.len() == excess(names@.len() as int, keep as int),
        forall|i: int| 0 <= i < r@.len() ==> (#[trigger] r@[i]) < names@.len(),
{
    let mut keys: Vec<Option<String>> = Vec::new();
    let mut i: usize = 0;
    while i < names.len()
        invariant
            0 <= i <= names@.len(),
            keys@.len() == i,
            forall|j: int| 0 <= j < i ==> opt_view(#[trigger] keys@[j]) == Some(names@[j]@),
        decreases names@.len() - i,
    {
        keys.push(Some(names[i].clone()));
        i = i + 1;
    }
    proof {
        assert(optional_views(keys@) =~= some_of(views(names@)));
    }
    let order = arrange_texts(&keys);
    proof {
        arranged_all(views(names@), places(order@));
        assert(places(order@).len() == order@.len());
    }
    let mut out: Vec<usize> = Vec::new();
    let mut k: usize = 0;
    let count: usize = if names.len() > keep {
        names.len() - keep
    } else {
        0
    };
    while k < count
        invariant
            0 <= k <= count <= order@.len(),
            order@.len() == names@.len(),
            out@.len() == k,
            forall|j: int| 0 <= j < k ==> (#[trigger] out@[j]) == order@[j],
        decreases count - k,
    {
        out.push(order[k]);
        k = k + 1;
    }
    proof {
        assert(places(out@) =~= places(order@).take(count as int));
        assert(first_names(views(names@), keep as int, places(out@)));
    }
    out
}

// ---------------------------------------------------------------------------------------------
// What a user asks for
// ---------------------------------------------------------------------------------------------

/// What it means to try a job again.
#[derive(Debug, Clone, Copy, PartialEq, Eq, Structural)]
pub enum Retried {
    /// It starts again.
    Job,
    /// Only its subtitle is tried again: the video is published already.
    Subtitle,
}

impl Database {
    /// Tries a job again. A published video is not prepared or submitted again: there only the
    /// subtitle starts anew.
    pub fn retry_by_hand(&mut self, id: &str, now: i64) -> (r: Result<Retried, DbError>)
        ensures
            match old(self)@.job_at(id@) {
                None => r == refused::<Retried>(DbError::NoJob) && final(self)@ == old(self)@,
                Some(k) => {
                    let row = old(self)@.jobs[k];
                    match job_of(row) {
                        Err(e) => r == refused::<Retried>(e) && final(self)@ == old(self)@,
                        Ok(job) => if job.status == JobStatus::UploadedOriginalPendingSubtitle {
                            if row.claim_free(now) {
                                r == Ok::<Retried, DbError>(Retried::Subtitle) && final(self)@ == old(
                                    self,
                                )@.with_job(
                                    k,
                                    (RowModel {
                                        job: JobModel {
                                            subtitle_attempt: 0,
                                            error: None,
                                            ..row.job
                                        },
                                        subtitle_retry_at: Some(now),
                                        updated_at: now,
                                        ..row
                                    }),
                                )
                            } else {
                                r == refused::<Retried>(DbError::NotPendingSubtitle) && final(self)@
                                    == old(self)@
                            }
                        } else if row.retryable() {
                            r == Ok::<Retried, DbError>(Retried::Job) && final(self)@ == old(
                                self,
                            )@.with_job(k, row.restarted(now))
                        } else {
                            final(self)@ == old(self)@ && r == if row.paused_in_doubt() {
                                refused::<Retried>(DbError::UncertainPause)
                            } else {
                                refused::<Retried>(DbError::NotRetryable(job.status))
                            }
                        },
                    }
                },
            },
            old(self)@.wf() ==> final(self)@.wf(),
    {
        match self.find_job(id) {
            None => Err(DbError::NoJob),
            Some(k) => match self.jobs[k].read() {
                Err(e) => Err(e),
                Ok(job) => if job.status == JobStatus::UploadedOriginalPendingSubtitle {
                    match self.rearm_pending_subtitle(id, now) {
                        Ok(()) => Ok(Retried::Subtitle),
                        Err(e) => Err(e),
                    }
                } else {
                    match self.retry_job(id, now) {
                        Ok(()) => Ok(Retried::Job),
                        Err(e) => Err(e),
                    }
                },
            },
        }
    }
}

/// Whether the models may be set so; there is one choice.
pub fn profile_allowed(provider: Option<&str>, model: &str) -> (r: bool)
    ensures
        r == ((provider matches Some(p) ==> p@ == AI_PROVIDER@) && model@ == AI_MODEL@),
{
    let fits = match provider {
        Some(p) => same_text(p, AI_PROVIDER),
        None => true,
    };
    fits && same_text(model, AI_MODEL)
}

/// How the subscription of a channel is shown.
pub fn websub_status(enabled: bool, lease_expires_at: Option<i64>, has_callback: bool, now: i64) -> (r:
    &'static str)
    ensures
        r@ == if !enabled {
            "channel_disabled"@
        } else {
            match lease_expires_at {
                Some(t) => if t > now {
                    "active"@
                } else {
                    "expired"@
                },
                None => if has_callback {
                    "pending_verification"@
                } else {
                    "not_subscribed"@
                },
            }
        },
{
    if !enabled {
        return "channel_disabled";
    }
    match lease_expires_at {
        Some(t) => if t > now {
            "active"
        } else {
            "expired"
        },
        None => if has_callback {
            "pending_verification"
        } else {
            "not_subscribed"
        },
    }
}

/// An account that was found good is noted as such with the time, a bad one with why; both are told
/// where both are bad, YouTube's first.
pub proof fn accounts_are_noted(youtube: &str, bilibili: &str, at: Seq<char>)
    ensures
        starts(account_note(None, at), "ok "@),
        account_note(None, at).skip(3) == at,
        starts(account_note(Some(youtube), at), "failed"@),
        account_faults(None, None).len() == 0,
        account_faults(Some(youtube), None).len() == 1,
        account_faults(None, Some(bilibili)).len() == 1,
        account_faults(Some(youtube), Some(bilibili)).len() == 2,
        account_faults(Some(youtube), Some(bilibili))[0] == "YouTube: "@ + youtube@,
        account_faults(Some(youtube), Some(bilibili))[1] == "Bilibili: "@ + bilibili@,
{
    reveal_strlit("ok ");
    reveal_strlit("failed");
    reveal_strlit("failed: ");
    assert(("ok "@ + at).subrange(0, 3) =~= "ok "@);
    assert(("ok "@ + at).skip(3) =~= at);
    assert(("failed: "@ + youtube@).subrange(0, 6) =~= "failed"@);
}

/// So many copies stay as are to be kept, and the first in the order of their names go.
pub proof fn old_copies_go_first(names: Seq<Seq<char>>, keep: int, gone: Seq<int>)
    requires
        first_names(names, keep, gone),
        keep >= 0,
    ensures
        names.len() <= keep ==> gone.len() == 0,
        names.len() > keep ==> gone.len() == names.len() - keep,
        forall|i: int, j: int|
            #![trigger gone[i], names[j]]
            0 <= i < gone.len() && 0 <= j < names.len() && !gone.contains(j) ==> !text_less(
                names[j],
                names[gone[i]],
            ),
{
    let keys = some_of(names);
    let order = choose|order: Seq<int>| #[trigger]
        text_arranged(keys, order) && order.len() == names.len() && gone == order.take(
            excess(names.len() as int, keep),
        );
    assert forall|i: int, j: int|
        #![trigger gone[i], names[j]]
        0 <= i < gone.len() && 0 <= j < names.len() && !gone.contains(j) implies !text_less(
        names[j],
        names[gone[i]],
    ) by {
        assert(keys[j] is Some);
        let at = choose|at: int| 0 <= at < order.len() && order[at] == j;
        if at < gone.len() {
            assert(gone[at] == j);
        }
        assert(gone[i] == order[i]);
        assert(text_before(keys, order[i], order[at]));
        text_order_is_total(names[j], names[gone[i]]);
    }
}

/// What is told of a subscription: whether its channel is watched, then whether it lasts, is over,
/// is asked for, or is missing.
pub proof fn subscriptions_are_told(enabled: bool, until: Option<i64>, asked: bool, now: i64, r: &'static str)
    requires
        call_ensures(websub_status, (enabled, until, asked, now), r),
    ensures
        !enabled ==> r@ == "channel_disabled"@,
        enabled && until is Some && now < until->Some_0 ==> r@ == "active"@,
        enabled && until is Some && until->Some_0 <= now ==> r@ == "expired"@,
        enabled && until is None && asked ==> r@ == "pending_verification"@,
        enabled && until is None && !asked ==> r@ == "not_subscribed"@,
{
}

/// Only the one model of the one provider may be called by hand.
pub proof fn one_profile_is_allowed(provider: Option<&str>, model: &str, r: bool)
    requires
        call_ensures(profile_allowed, (provider, model), r),
    ensures
        r <==> model@ == "deepseek-v4-flash"@ && (provider is None || provider->Some_0@
            == "deepseek"@),
{
}

/// History is kept for thirty days, fifty candidates are looked at in a round, and four hourly
/// copies stay.
pub proof fn upkeep_has_its_limits()
    ensures
        HISTORY_RETENTION_DAYS == 30,
        GATE_BATCH == 50,
        HOURLY_BACKUPS == 4,
{
}

} // verus!
