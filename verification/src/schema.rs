//! Bringing tables of older layouts up to date.
use vstd::prelude::*;
use vstd::string::StringExecFns;

use crate::fault::{refused, DbError};
use crate::json::{parsed, read_json, Json, JsonModel};
use crate::jobs::countable;
use crate::model::{stored_texts_differ, ChannelPriority, TransferMode};
use crate::order::{is_text_less, text_less, text_order_is_total, text_order_is_transitive};
use crate::rows::{channel_row_reads, job_reads, Cell, CellModel};
use crate::settings::{remove_keeps_wf, set_then_get, NEXT_BILIBILI_SUBMIT_AT};
use crate::store::{
    is_first, place, place_is, place_is_none, place_means, CallModel, ChannelRowModel, Database,
    DbModel, HoldAction, HoldModel, JobModel, MaintenanceHold, MaintenanceHoldEvent, RowModel,
    SettingModel,
};
use crate::text::{
    debug_form, debug_text, decimal, decimal_of, opt_view, same_optional, same_text, signed_decimal, signed_decimal_of,
    views,
};

verus! {

/// The layout that this version knows.
pub const CURRENT_SCHEMA_VERSION: i64 = 22;

/// The setting in which an older version kept who held up submissions.
pub const LEGACY_HOLD_OWNER: &'static str = "bilibili.upload_hold_owner";

/// The setting in which an older version kept the deadline from before it held up submissions.
pub const LEGACY_HOLD_PREVIOUS: &'static str = "bilibili.upload_hold_previous";

/// The deadline by which an older version held up submissions.
pub const LEGACY_HOLD_UNTIL: &'static str = "2099-12-31T23:59:59+00:00";

/// How long a lock lasts that is made of an older hold.
pub const LEGACY_HOLD_LEASE_MS: i64 = 300_000;

/// Whether tables of a layout can be used without being brought up to date.
pub fn schema_is_current(version: i64) -> (r: bool)
    ensures
        r == (version == CURRENT_SCHEMA_VERSION),
{
    version == CURRENT_SCHEMA_VERSION
}

/// The newest layout that the tables were brought to; zero where there is none.
pub open spec fn newest(versions: Seq<i64>, n: int) -> int
    decreases n,
{
    if n <= 0 {
        0
    } else if n == 1 || versions[n - 1] > newest(versions, n - 1) {
        versions[n - 1] as int
    } else {
        newest(versions, n - 1)
    }
}

/// Checks that tables have the layout that this version knows.
pub fn check_schema(version: i64) -> (r: Result<(), String>)
    ensures
        r is Ok <==> version == CURRENT_SCHEMA_VERSION,
        r matches Err(e) ==> e@ == "数据库 schema 版本不兼容：当前 v"@ + signed_decimal_of(
            version as int,
        ) + "，需要 v"@ + signed_decimal_of(CURRENT_SCHEMA_VERSION as int),
{
    if schema_is_current(version) {
        return Ok(());
    }
    let mut s = "数据库 schema 版本不兼容：当前 v".to_owned();
    let have = signed_decimal(version);
    let want = signed_decimal(CURRENT_SCHEMA_VERSION);
    s.append(have.as_str());
    s.append("，需要 v");
    s.append(want.as_str());
    Err(s)
}

/// The newest layout that the tables were brought to.
pub fn schema_version(versions: &[i64]) -> (r: i64)
    ensures
        r == newest(versions@, versions@.len() as int),
{
    let mut best: i64 = 0;
    let mut i: usize = 0;
    while i < versions.len()
        invariant
            0 <= i <= versions@.len(),
            best == newest(versions@, i as int),
        decreases versions@.len() - i,
    {
        if i == 0 || versions[i] > best {
            best = versions[i];
        }
        i = i + 1;
    }
    best
}

/// How many jobs have a published video.
pub open spec fn holders(jobs: Seq<RowModel>, bvid: Seq<char>, n: int) -> int
    decreases n,
{
    if n <= 0 {
        0
    } else {
        holders(jobs, bvid, n - 1) + if jobs[n - 1].job.bvid == Some(bvid) {
            1int
        } else {
            0int
        }
    }
}

/// Whether several jobs have a published video.
pub open spec fn repeated(db: DbModel, bvid: Seq<char>) -> bool {
    holders(db.jobs, bvid, db.jobs.len() as int) > 1
}

/// Whether a published video is the first, by its text, that several jobs have.
pub open spec fn first_repeated(db: DbModel, bvid: Seq<char>) -> bool {
    repeated(db, bvid) && forall|other: Seq<char>|
        #[trigger] repeated(db, other) ==> other == bvid || text_less(bvid, other)
}

proof fn holders_some(jobs: Seq<RowModel>, bvid: Seq<char>, n: int)
    requires
        0 <= n <= jobs.len(),
        holders(jobs, bvid, n) > 0,
    ensures
        exists|k: int| 0 <= k < n && (#[trigger] jobs[k]).job.bvid == Some(bvid),
    decreases n,
{
    if n > 0 && jobs[n - 1].job.bvid != Some(bvid) {
        holders_some(jobs, bvid, n - 1);
    }
}

proof fn holders_bounds(jobs: Seq<RowModel>, bvid: Seq<char>, n: int)
    requires
        0 <= n <= jobs.len(),
    ensures
        0 <= holders(jobs, bvid, n) <= n,
    decreases n,
{
    if n > 0 {
        holders_bounds(jobs, bvid, n - 1);
    }
}

proof fn two_holders(jobs: Seq<RowModel>, bvid: Seq<char>, n: int)
    requires
        0 <= n <= jobs.len(),
        holders(jobs, bvid, n) > 1,
    ensures
        exists|i: int, j: int|
            0 <= i < j < n && (#[trigger] jobs[i]).job.bvid == Some(bvid) && (
            #[trigger] jobs[j]).job.bvid == Some(bvid),
    decreases n,
{
    if n > 0 {
        if jobs[n - 1].job.bvid == Some(bvid) {
            holders_some(jobs, bvid, n - 1);
            let i = choose|i: int| 0 <= i < n - 1 && (#[trigger] jobs[i]).job.bvid == Some(bvid);
            assert(jobs[i].job.bvid == Some(bvid) && jobs[n - 1].job.bvid == Some(bvid));
        } else {
            two_holders(jobs, bvid, n - 1);
        }
    }
}

/// In sound tables no two jobs have a published video in common.
pub proof fn sound_tables_repeat_nothing(db: DbModel, bvid: Seq<char>)
    requires
        db.wf(),
    ensures
        !repeated(db, bvid),
{
    if repeated(db, bvid) {
        two_holders(db.jobs, bvid, db.jobs.len() as int);
        let (i, j) = choose|i: int, j: int|
            0 <= i < j < db.jobs.len() && (#[trigger] db.jobs[i]).job.bvid == Some(bvid) && (
            #[trigger] db.jobs[j]).job.bvid == Some(bvid);
        assert(db.jobs[i].job.bvid != db.jobs[j].job.bvid);
    }
}

/// What is made of a call from before calls were noted when they start.
pub open spec fn closed_call(c: CallModel) -> CallModel {
    if c.finished_at is None && c.status == "success"@ {
        CallModel { finished_at: Some(c.created_at), ..c }
    } else {
        c
    }
}

/// The tables with all calls closed that an older version left open.
pub open spec fn calls_closed(db: DbModel) -> DbModel {
    DbModel { calls: db.calls.map_values(|c: CallModel| closed_call(c)), ..db }
}

/// Closing old calls keeps the tables sound.
pub proof fn closed_calls_keep_wf(db: DbModel)
    requires
        db.wf(),
    ensures
        calls_closed(db).wf(),
{
    let after = calls_closed(db);
    assert forall|i: int, j: int| 0 <= i < j < after.calls.len() implies (
    #[trigger] after.calls[i]).id != (#[trigger] after.calls[j]).id by {
        let a = db.calls[i];
        let b = db.calls[j];
    }
    assert forall|i: int| 0 <= i < after.calls.len() implies (
    #[trigger] after.calls[i]).id <= after.call_seq by {
        let a = db.calls[i];
    }
}

/// The deadline that was kept from before an older version held up submissions.
pub open spec fn kept_deadline(db: DbModel) -> Result<Option<Seq<char>>, DbError> {
    match db.setting(LEGACY_HOLD_PREVIOUS@) {
        None => Ok(None),
        Some(v) => match parsed(v) {
            Some(JsonModel::Null) => Ok(None),
            Some(JsonModel::Text(t)) => Ok(Some(t)),
            _ => Err(DbError::BadLegacyHold),
        },
    }
}

/// The tables with submissions not held up any more.
pub open spec fn freed(db: DbModel, previous: Option<Seq<char>>, now: i64) -> DbModel {
    let deadline = if db.setting(NEXT_BILIBILI_SUBMIT_AT@) == Some(LEGACY_HOLD_UNTIL@) {
        match previous {
            Some(p) => db.with_setting(NEXT_BILIBILI_SUBMIT_AT@, p, now),
            None => db.without_setting(NEXT_BILIBILI_SUBMIT_AT@),
        }
    } else {
        db
    };
    deadline.without_setting(LEGACY_HOLD_OWNER@).without_setting(LEGACY_HOLD_PREVIOUS@)
}

/// The tables with a hold of an older version made into a lock with a lease; nothing changes where
/// there is none.
pub open spec fn hold_converted(db: DbModel, now: i64) -> Result<DbModel, DbError> {
    match db.setting(LEGACY_HOLD_OWNER@) {
        None => Ok(db),
        Some(owner) => match kept_deadline(db) {
            Err(e) => Err(e),
            Ok(previous) => {
                let free = freed(db, previous, now);
                if free.hold is Some || owner.len() == 0 {
                    Ok(free)
                } else if free.hold_event_seq == i64::MAX {
                    Err(DbError::Full)
                } else {
                    let hold = HoldModel {
                        owner,
                        reason: "从 v21 live_once 永久投稿 hold 迁移"@,
                        acquired_at: now,
                        heartbeat_at: now,
                        expires_at: (now + LEGACY_HOLD_LEASE_MS) as i64,
                    };
                    Ok(
                        free.hold_changed(
                            Some(hold),
                            free.hold_event(HoldAction::Acquired, hold, None, now),
                        ),
                    )
                }
            },
        },
    }
}

impl Database {
    fn count_holders(&self, bvid: &str) -> (r: usize)
        ensures
            r == holders(self@.jobs, bvid@, self@.jobs.len() as int),
    {
        let mut n: usize = 0;
        let mut i: usize = 0;
        while i < self.jobs.len()
            invariant
                0 <= i <= self.jobs@.len(),
                n <= i,
                n == holders(self@.jobs, bvid@, i as int),
            decreases self.jobs@.len() - i,
        {
            proof {
                assert(self@.jobs[i as int] == self.jobs@[i as int]@);
            }
            if same_optional(&self.jobs[i].job.bvid, bvid) {
                n = n + 1;
            }
            i = i + 1;
        }
        n
    }

    /// The first published video, by its text, that several jobs have, and how many.
    pub fn duplicate_bvid(&self) -> (r: Option<(String, usize)>)
        ensures
            match r {
                Some((bvid, n)) => first_repeated(self@, bvid@) && n == holders(
                    self@.jobs,
                    bvid@,
                    self@.jobs.len() as int,
                ),
                None => forall|bvid: Seq<char>| !#[trigger] repeated(self@, bvid),
            },
    {
        let mut best: Option<(String, usize)> = None;
        let mut i: usize = 0;
        while i < self.jobs.len()
            invariant
                0 <= i <= self.jobs@.len(),
                match best {
                    Some((bvid, n)) => repeated(self@, bvid@) && n == holders(
                        self@.jobs,
                        bvid@,
                        self@.jobs.len() as int,
                    ) && forall|k: int|
                        0 <= k < i && (#[trigger] self@.jobs[k]).job.bvid is Some && repeated(
                            self@,
                            self@.jobs[k].job.bvid->Some_0,
                        ) ==> self@.jobs[k].job.bvid->Some_0 == bvid@ || text_less(
                            bvid@,
                            self@.jobs[k].job.bvid->Some_0,
                        ),
                    None => forall|k: int|
                        0 <= k < i && (#[trigger] self@.jobs[k]).job.bvid is Some ==> !repeated(
                            self@,
                            self@.jobs[k].job.bvid->Some_0,
                        ),
                },
            decreases self.jobs@.len() - i,
        {
            proof {
                assert(self@.jobs[i as int] == self.jobs@[i as int]@);
            }
            match &self.jobs[i].job.bvid {
                Some(bvid) => {
                    let n: usize = self.count_holders(bvid.as_str());
                    let better = n > 1 && match &best {
                        Some((b, _)) => is_text_less(bvid.as_str(), b.as_str()),
                        None => true,
                    };
                    proof {
                        match &best {
                            Some((b, _)) => {
                                text_order_is_total(bvid@, b@);
                                if better {
                                    assert forall|k: int|
                                        0 <= k < i && (#[trigger] self@.jobs[k]).job.bvid is Some
                                            && repeated(self@, self@.jobs[k].job.bvid->Some_0)
                                        implies text_less(
                                        bvid@,
                                        self@.jobs[k].job.bvid->Some_0,
                                    ) by {
                                        let other = self@.jobs[k].job.bvid->Some_0;
                                        if other != b@ {
                                            text_order_is_transitive(bvid@, b@, other);
                                        }
                                    }
                                }
                            },
                            None => {},
                        }
                    }
                    if better {
                        best = Some((bvid.clone(), n));
                    }
                },
                None => {},
            }
            i = i + 1;
        }
        proof {
            assert forall|other: Seq<char>| #[trigger] repeated(self@, other) implies (match &best {
                Some((b, _)) => other == b@ || text_less(b@, other),
                None => false,
            }) by {
                holders_some(self@.jobs, other, self@.jobs.len() as int);
                let k = choose|k: int|
                    0 <= k < self@.jobs.len() && (#[trigger] self@.jobs[k]).job.bvid == Some(other);
                assert(self@.jobs[k].job.bvid == Some(other));
            }
        }
        best
    }

    /// Closes calls from before calls were noted when they start.
    pub fn close_old_calls(&mut self)
        ensures
            final(self)@ == calls_closed(old(self)@),
            old(self)@.wf() ==> final(self)@.wf(),
    {
        let ghost before = self@;
        let mut i: usize = 0;
        while i < self.calls.len()
            invariant
                before == old(self)@,
                self@ == (DbModel { calls: self@.calls, ..before }),
                self.calls@.len() == before.calls.len(),
                0 <= i <= self.calls@.len(),
                forall|j: int|
                    0 <= j < self.calls@.len() ==> (#[trigger] self@.calls[j]) == if j < i {
                        closed_call(before.calls[j])
                    } else {
                        before.calls[j]
                    },
            decreases self.calls@.len() - i,
        {
            let ghost rows = self@.calls;
            proof {
                assert(rows[i as int] == self.calls@[i as int]@);
            }
            if self.calls[i].finished_at.is_none() && same_text(
                self.calls[i].status.as_str(),
                "success",
            ) {
                self.calls[i].finished_at = Some(self.calls[i].created_at);
            }
            proof {
                assert(self@.calls =~= rows.update(i as int, closed_call(before.calls[i as int])));
            }
            i = i + 1;
        }
        proof {
            assert(self@.calls =~= before.calls.map_values(|c: CallModel| closed_call(c)));
            if before.wf() {
                closed_calls_keep_wf(before);
            }
        }
    }

    fn free_submissions(&mut self, previous: &Option<String>, now: i64)
        ensures
            final(self)@ == freed(old(self)@, opt_view(*previous), now),
            final(self)@.hold == old(self)@.hold,
            final(self)@.hold_event_seq == old(self)@.hold_event_seq,
            old(self)@.wf() ==> final(self)@.wf(),
    {
        if same_optional(&self.get_setting(NEXT_BILIBILI_SUBMIT_AT), LEGACY_HOLD_UNTIL) {
            match previous {
                Some(p) => {
                    proof {
                        set_then_get(self@, NEXT_BILIBILI_SUBMIT_AT@, p@, now);
                    }
                    self.set_setting(NEXT_BILIBILI_SUBMIT_AT, p.as_str(), now);
                },
                None => {
                    proof {
                        if self@.wf() {
                            remove_keeps_wf(self@, NEXT_BILIBILI_SUBMIT_AT@);
                        }
                    }
                    self.delete_setting(NEXT_BILIBILI_SUBMIT_AT);
                },
            }
        }
        proof {
            if self@.wf() {
                remove_keeps_wf(self@, LEGACY_HOLD_OWNER@);
            }
        }
        self.delete_setting(LEGACY_HOLD_OWNER);
        proof {
            if self@.wf() {
                remove_keeps_wf(self@, LEGACY_HOLD_PREVIOUS@);
            }
        }
        self.delete_setting(LEGACY_HOLD_PREVIOUS);
    }

    /// Makes a hold of an older version into a lock with a lease, and lets submissions go on from
    /// where they were held up.
    pub fn convert_legacy_hold(&mut self, now: i64) -> (r: Result<(), DbError>)
        requires
            countable(now + LEGACY_HOLD_LEASE_MS),
        ensures
            match hold_converted(old(self)@, now) {
                Ok(after) => r is Ok && final(self)@ == after,
                Err(e) => r == refused::<()>(e) && final(self)@ == old(self)@,
            },
            old(self)@.wf() ==> final(self)@.wf(),
    {
        let owner = match self.get_setting(LEGACY_HOLD_OWNER) {
            None => {
                return Ok(());
            },
            Some(owner) => owner,
        };
        let previous: Option<String> = match self.get_setting(LEGACY_HOLD_PREVIOUS) {
            None => None,
            Some(v) => match read_json(v.as_str()) {
                Some(Json::Null) => None,
                Some(Json::Text(t)) => Some(t),
                _ => {
                    return Err(DbError::BadLegacyHold);
                },
            },
        };
        let makes = self.hold.is_none() && !owner.as_str().is_empty();
        if makes && self.hold_event_seq == i64::MAX {
            return Err(DbError::Full);
        }
        let ghost before = self@;
        self.free_submissions(&previous, now);
        if makes {
            let end: i64 = now + LEGACY_HOLD_LEASE_MS;
            self.hold_event_seq = self.hold_event_seq + 1;
            self.hold_events.push(
                MaintenanceHoldEvent {
                    id: self.hold_event_seq,
                    action: HoldAction::Acquired,
                    owner: owner.clone(),
                    previous_owner: None,
                    reason: "从 v21 live_once 永久投稿 hold 迁移".to_owned(),
                    previous_reason: None,
                    occurred_at: now,
                    expires_at: Some(end),
                },
            );
            self.hold = Some(
                MaintenanceHold {
                    owner,
                    reason: "从 v21 live_once 永久投稿 hold 迁移".to_owned(),
                    acquired_at: now,
                    heartbeat_at: now,
                    expires_at: end,
                },
            );
            proof {
                assert(self@ =~= hold_converted(before, now)->Ok_0);
            }
        }
        Ok(())
    }
}

/// Afterwards no setting tells of the older hold any more, and converting again changes nothing.
pub proof fn conversion_is_final(db: DbModel, now: i64, later_on: i64)
    requires
        db.wf(),
        hold_converted(db, now) is Ok,
    ensures
        hold_converted(db, now)->Ok_0.setting(LEGACY_HOLD_OWNER@) is None,
        hold_converted(hold_converted(db, now)->Ok_0, later_on) == Ok::<DbModel, DbError>(
            hold_converted(db, now)->Ok_0,
        ),
{
    let after = hold_converted(db, now)->Ok_0;
    match db.setting(LEGACY_HOLD_OWNER@) {
        None => {},
        Some(owner) => {
            let previous = kept_deadline(db)->Ok_0;
            let free = freed(db, previous, now);
            let deadline = if db.setting(NEXT_BILIBILI_SUBMIT_AT@) == Some(LEGACY_HOLD_UNTIL@) {
                match previous {
                    Some(p) => {
                        set_then_get(db, NEXT_BILIBILI_SUBMIT_AT@, p, now);
                        db.with_setting(NEXT_BILIBILI_SUBMIT_AT@, p, now)
                    },
                    None => {
                        remove_keeps_wf(db, NEXT_BILIBILI_SUBMIT_AT@);
                        db.without_setting(NEXT_BILIBILI_SUBMIT_AT@)
                    },
                }
            } else {
                db
            };
            remove_keeps_wf(deadline, LEGACY_HOLD_OWNER@);
            let gone = deadline.without_setting(LEGACY_HOLD_OWNER@);
            absent_stays_absent(gone, LEGACY_HOLD_OWNER@, LEGACY_HOLD_PREVIOUS@);
            assert(free.setting(LEGACY_HOLD_OWNER@) is None);
            assert(after.settings == free.settings);
        },
    }
}

proof fn absent_stays_absent(db: DbModel, key: Seq<char>, other: Seq<char>)
    requires
        db.setting(key) is None,
    ensures
        db.without_setting(other).setting(key) is None,
{
    let p = |r: SettingModel| r.key == key;
    place_means(db.settings, p);
    place_means(db.settings, |r: SettingModel| r.key == other);
    let after = db.without_setting(other);
    assert forall|j: int| 0 <= j < after.settings.len() implies !p(#[trigger] after.settings[j]) by {
        match db.setting_at(other) {
            Some(k) => {
                let i = if j < k {
                    j
                } else {
                    j + 1
                };
                assert(after.settings[j] == db.settings[i]);
                assert(!p(db.settings[i]));
            },
            None => {
                assert(!p(db.settings[j]));
            },
        }
    }
    place_is_none(after.settings, p);
}

/// What rows hold in a column that they are older than.
#[derive(Debug, Clone, Copy)]
pub enum Blank {
    /// Nothing.
    Nothing,
    /// The number zero.
    Zero,
    /// A word.
    Word(&'static str),
}

/// What rows hold in a column that they are older than.
pub enum BlankModel {
    Nothing,
    Zero,
    Word(Seq<char>),
}

impl Blank {
    /// What rows hold.
    pub open spec fn view(&self) -> BlankModel {
        match self {
            Blank::Nothing => BlankModel::Nothing,
            Blank::Zero => BlankModel::Zero,
            Blank::Word(w) => BlankModel::Word(w@),
        }
    }

    /// The definition of such a column.
    pub fn definition(&self) -> (r: String)
        ensures
            r@ == self@.definition(),
    {
        match self {
            Blank::Nothing => "TEXT".to_owned(),
            Blank::Zero => "INTEGER NOT NULL DEFAULT 0".to_owned(),
            Blank::Word(w) => {
                let mut s = "TEXT NOT NULL DEFAULT '".to_owned();
                s.append(w);
                s.append("'");
                s
            },
        }
    }

    /// The value that is read.
    pub fn cell(&self) -> (r: Cell)
        ensures
            r@ == self@.cell(),
    {
        match self {
            Blank::Nothing => Cell::Null,
            Blank::Zero => Cell::Int(0),
            Blank::Word(w) => Cell::Text((*w).to_owned()),
        }
    }
}

impl BlankModel {
    /// The definition of such a column.
    pub open spec fn definition(self) -> Seq<char> {
        match self {
            BlankModel::Nothing => "TEXT"@,
            BlankModel::Zero => "INTEGER NOT NULL DEFAULT 0"@,
            BlankModel::Word(w) => "TEXT NOT NULL DEFAULT '"@ + w + "'"@,
        }
    }

    /// The value that is read.
    pub open spec fn cell(self) -> CellModel {
        match self {
            BlankModel::Nothing => CellModel::Null,
            BlankModel::Zero => CellModel::Int(0),
            BlankModel::Word(w) => CellModel::Text(w),
        }
    }
}

/// A column that newer tables have.
#[derive(Debug, Clone, Copy)]
pub struct Column {
    pub table: &'static str,
    pub name: &'static str,
    pub blank: Blank,
}

/// The table and name of every column that was added to a table, in order, and what older rows hold
/// there.
pub open spec fn added() -> Seq<(Seq<char>, Seq<char>, BlankModel)> {
    seq![
        ("ai_calls"@, "input_json"@, BlankModel::Nothing),
        ("ai_calls"@, "output_json"@, BlankModel::Nothing),
        ("jobs"@, "append_to_bvid"@, BlankModel::Nothing),
        ("channels"@, "transfer_mode"@, BlankModel::Word("translated"@)),
        ("jobs"@, "transfer_mode"@, BlankModel::Word("translated"@)),
        ("jobs"@, "source_metadata_json"@, BlankModel::Nothing),
        ("jobs"@, "prepared_upload_json"@, BlankModel::Nothing),
        ("jobs"@, "subtitle_attempt"@, BlankModel::Zero),
        ("jobs"@, "subtitle_retry_at"@, BlankModel::Nothing),
        ("jobs"@, "retry_at"@, BlankModel::Nothing),
        ("channels"@, "next_poll_at"@, BlankModel::Nothing),
        ("channels"@, "consecutive_failures"@, BlankModel::Zero),
        ("channels"@, "uploads_playlist_id"@, BlankModel::Nothing),
        ("channels"@, "websub_lease_expires_at"@, BlankModel::Nothing),
        ("channels"@, "websub_secret"@, BlankModel::Nothing),
        ("channels"@, "websub_callback_path"@, BlankModel::Nothing),
        ("channels"@, "next_data_api_poll_at"@, BlankModel::Nothing),
        ("channels"@, "data_api_etag"@, BlankModel::Nothing),
        ("channels"@, "websub_last_received_at"@, BlankModel::Nothing),
        ("video_candidates"@, "source_language"@, BlankModel::Nothing),
        ("video_candidates"@, "source_language_mismatch"@, BlankModel::Zero),
        ("ai_calls"@, "status"@, BlankModel::Word("success"@)),
        ("ai_calls"@, "error"@, BlankModel::Nothing),
        ("ai_calls"@, "finished_at"@, BlankModel::Nothing),
        ("channels"@, "priority"@, BlankModel::Word("normal"@)),
        ("jobs"@, "claim_kind"@, BlankModel::Nothing),
        ("jobs"@, "claim_owner"@, BlankModel::Nothing),
        ("jobs"@, "claim_expires_at"@, BlankModel::Nothing),
    ]
}

/// Tables and names of columns, and what older rows hold there.
pub open spec fn column_texts(v: Seq<Column>) -> Seq<(Seq<char>, Seq<char>, BlankModel)> {
    v.map_values(|c: Column| (c.table@, c.name@, c.blank@))
}

/// The columns that were added to a table, in order.
pub fn added_columns() -> (r: Vec<Column>)
    ensures
        column_texts(r@) == added(),
{
    let mut out: Vec<Column> = Vec::new();
    out.push(Column { table: "ai_calls", name: "input_json", blank: Blank::Nothing });
    out.push(Column { table: "ai_calls", name: "output_json", blank: Blank::Nothing });
    out.push(Column { table: "jobs", name: "append_to_bvid", blank: Blank::Nothing });
    out.push(Column { table: "channels", name: "transfer_mode", blank: Blank::Word("translated") });
    out.push(Column { table: "jobs", name: "transfer_mode", blank: Blank::Word("translated") });
    out.push(Column { table: "jobs", name: "source_metadata_json", blank: Blank::Nothing });
    out.push(Column { table: "jobs", name: "prepared_upload_json", blank: Blank::Nothing });
    out.push(Column { table: "jobs", name: "subtitle_attempt", blank: Blank::Zero });
    out.push(Column { table: "jobs", name: "subtitle_retry_at", blank: Blank::Nothing });
    out.push(Column { table: "jobs", name: "retry_at", blank: Blank::Nothing });
    out.push(Column { table: "channels", name: "next_poll_at", blank: Blank::Nothing });
    out.push(Column { table: "channels", name: "consecutive_failures", blank: Blank::Zero });
    out.push(Column { table: "channels", name: "uploads_playlist_id", blank: Blank::Nothing });
    out.push(Column { table: "channels", name: "websub_lease_expires_at", blank: Blank::Nothing });
    out.push(Column { table: "channels", name: "websub_secret", blank: Blank::Nothing });
    out.push(Column { table: "channels", name: "websub_callback_path", blank: Blank::Nothing });
    out.push(Column { table: "channels", name: "next_data_api_poll_at", blank: Blank::Nothing });
    out.push(Column { table: "channels", name: "data_api_etag", blank: Blank::Nothing });
    out.push(Column { table: "channels", name: "websub_last_received_at", blank: Blank::Nothing });
    out.push(Column { table: "video_candidates", name: "source_language", blank: Blank::Nothing });
    out.push(Column { table: "video_candidates", name: "source_language_mismatch", blank: Blank::Zero });
    out.push(Column { table: "ai_calls", name: "status", blank: Blank::Word("success") });
    out.push(Column { table: "ai_calls", name: "error", blank: Blank::Nothing });
    out.push(Column { table: "ai_calls", name: "finished_at", blank: Blank::Nothing });
    out.push(Column { table: "channels", name: "priority", blank: Blank::Word("normal") });
    out.push(Column { table: "jobs", name: "claim_kind", blank: Blank::Nothing });
    out.push(Column { table: "jobs", name: "claim_owner", blank: Blank::Nothing });
    out.push(Column { table: "jobs", name: "claim_expires_at", blank: Blank::Nothing });
    proof {
        assert(column_texts(out@) =~= added());
    }
    out
}

/// Whether a column is the first in the list under its table and name.
pub open spec fn stands_for(table: Seq<char>, name: Seq<char>, i: int) -> bool {
    &&& 0 <= i < added().len()
    &&& added()[i].0 == table && added()[i].1 == name
    &&& forall|j: int| 0 <= j < i ==> !((#[trigger] added()[j]).0 == table && added()[j].1 == name)
}

/// What a row that is older than a column reads there; nothing where the column was always there.
pub open spec fn fresh_of(table: Seq<char>, name: Seq<char>) -> Option<CellModel> {
    if exists|i: int| stands_for(table, name, i) {
        Some(added()[choose|i: int| stands_for(table, name, i)].2.cell())
    } else {
        None
    }
}

proof fn one_stands(table: Seq<char>, name: Seq<char>, i: int)
    requires
        stands_for(table, name, i),
    ensures
        fresh_of(table, name) == Some(added()[i].2.cell()),
{
    assert forall|k: int| #[trigger] stands_for(table, name, k) implies k == i by {
        if k < i {
            assert(!(added()[k].0 == table && added()[k].1 == name));
        } else if k > i {
            assert(!(added()[i].0 == table && added()[i].1 == name));
        }
    }
}

/// What a row that is older than a column reads there; nothing where the column was always there.
pub fn fresh_cell(table: &str, name: &str) -> (r: Option<Cell>)
    ensures
        match fresh_of(table@, name@) {
            Some(cell) => r matches Some(c) && c@ == cell,
            None => r is None,
        },
{
    let columns = added_columns();
    let ghost all = added();
    let mut i: usize = 0;
    while i < columns.len()
        invariant
            0 <= i <= columns@.len(),
            all == added(),
            all == column_texts(columns@),
            forall|j: int|
                0 <= j < i ==> !((#[trigger] added()[j]).0 == table@ && added()[j].1 == name@),
        decreases columns@.len() - i,
    {
        let c = columns[i];
        proof {
            assert(all[i as int] == (c.table@, c.name@, c.blank@));
        }
        if same_text(c.table, table) && same_text(c.name, name) {
            proof {
                one_stands(table@, name@, i as int);
            }
            return Some(c.blank.cell());
        }
        i = i + 1;
    }
    None
}

/// Tables and columns that are there.
pub open spec fn present(v: Seq<(String, String)>) -> Seq<(Seq<char>, Seq<char>)> {
    v.map_values(|p: (String, String)| (p.0@, p.1@))
}

/// Whether a table has a column.
pub open spec fn has(have: Seq<(Seq<char>, Seq<char>)>, table: Seq<char>, name: Seq<char>) -> bool {
    exists|i: int| 0 <= i < have.len() && #[trigger] have[i] == (table, name)
}

/// Whether a table has a column.
pub fn has_column(have: &[(String, String)], table: &str, name: &str) -> (r: bool)
    ensures
        r == has(present(have@), table@, name@),
{
    let ghost all = present(have@);
    let mut i: usize = 0;
    while i < have.len()
        invariant
            0 <= i <= have@.len(),
            all == present(have@),
            forall|j: int| 0 <= j < i ==> #[trigger] all[j] != (table@, name@),
        decreases have@.len() - i,
    {
        proof {
            assert(all[i as int] == (have@[i as int].0@, have@[i as int].1@));
        }
        if same_text(have[i].0.as_str(), table) && same_text(have[i].1.as_str(), name) {
            return true;
        }
        i = i + 1;
    }
    false
}

/// The statement that adds a column.
pub open spec fn alteration(c: (Seq<char>, Seq<char>, BlankModel)) -> Seq<char> {
    "ALTER TABLE "@ + c.0 + " ADD COLUMN "@ + c.1 + " "@ + c.2.definition()
}

/// The statements that add those of the first `n` columns that are not there.
pub open spec fn alterations_of(
    have: Seq<(Seq<char>, Seq<char>)>,
    columns: Seq<(Seq<char>, Seq<char>, BlankModel)>,
    n: int,
) -> Seq<Seq<char>>
    decreases n,
{
    if n <= 0 {
        Seq::empty()
    } else {
        let front = alterations_of(have, columns, n - 1);
        if has(have, columns[n - 1].0, columns[n - 1].1) {
            front
        } else {
            front.push(alteration(columns[n - 1]))
        }
    }
}

/// The statements that bring older tables up to date, given the columns that they have: each column
/// that is missing is added, in order.
pub fn alterations(have: &[(String, String)]) -> (r: Vec<String>)
    ensures
        views(r@) == alterations_of(present(have@), added(), added().len() as int),
{
    let columns = added_columns();
    let ghost all = added();
    let mut out: Vec<String> = Vec::new();
    proof {
        assert(views(out@) =~= alterations_of(present(have@), all, 0));
    }
    let mut n: usize = 0;
    while n < columns.len()
        invariant
            0 <= n <= columns@.len(),
            all == column_texts(columns@),
            views(out@) == alterations_of(present(have@), all, n as int),
        decreases columns@.len() - n,
    {
        let c = columns[n];
        let ghost before = views(out@);
        proof {
            assert(all[n as int] == (c.table@, c.name@, c.blank@));
        }
        if !has_column(have, c.table, c.name) {
            let mut s = "ALTER TABLE ".to_owned();
            s.append(c.table);
            s.append(" ADD COLUMN ");
            s.append(c.name);
            s.append(" ");
            s.append(c.blank.definition().as_str());
            out.push(s);
            proof {
                assert(views(out@) =~= before.push(s@));
            }
        }
        n = n + 1;
    }
    out
}

proof fn nothing_to_alter(
    have: Seq<(Seq<char>, Seq<char>)>,
    columns: Seq<(Seq<char>, Seq<char>, BlankModel)>,
    n: int,
)
    requires
        0 <= n <= columns.len(),
        forall|i: int| 0 <= i < n ==> has(have, (#[trigger] columns[i]).0, columns[i].1),
    ensures
        alterations_of(have, columns, n).len() == 0,
    decreases n,
{
    if n > 0 {
        nothing_to_alter(have, columns, n - 1);
        assert(has(have, columns[n - 1].0, columns[n - 1].1));
    }
}

/// The columns that are there once those that lack were added.
pub open spec fn altered(have: Seq<(Seq<char>, Seq<char>)>) -> Seq<(Seq<char>, Seq<char>)> {
    have + added().map_values(|c: (Seq<char>, Seq<char>, BlankModel)| (c.0, c.1))
}

/// Whatever columns there were: once those that lack were added, nothing is left to add.
pub proof fn migration_is_idempotent(have: Seq<(Seq<char>, Seq<char>)>)
    ensures
        alterations_of(altered(have), added(), added().len() as int).len() == 0,
{
    let all = altered(have);
    assert forall|i: int| 0 <= i < added().len() implies has(
        all,
        (#[trigger] added()[i]).0,
        added()[i].1,
    ) by {
        assert(all[have.len() + i] == (added()[i].0, added()[i].1));
    }
    nothing_to_alter(all, added(), added().len() as int);
}

/// The layouts up to one, in order, that are not among those that were noted.
pub open spec fn lacking(have: Seq<i64>, n: int) -> Seq<i64>
    decreases n,
{
    if n <= 0 {
        Seq::empty()
    } else if have.contains(n as i64) {
        lacking(have, n - 1)
    } else {
        lacking(have, n - 1).push(n as i64)
    }
}

/// The layouts that are noted once the tables have all up to one.
pub open spec fn recorded_to(have: Seq<i64>, n: int) -> Seq<i64> {
    have + lacking(have, n)
}

/// The layouts that are noted once the tables are up to date.
pub open spec fn recorded(have: Seq<i64>) -> Seq<i64> {
    recorded_to(have, CURRENT_SCHEMA_VERSION as int)
}

/// The layouts that are to be noted once the tables have all up to `last`.
pub fn missing_versions(have: &[i64], last: i64) -> (r: Vec<i64>)
    ensures
        r@ == lacking(have@, last as int),
{
    let mut out: Vec<i64> = Vec::new();
    let mut n: i64 = 0;
    while n < last
        invariant
            0 <= n,
            n <= last || n == 0,
            out@ == lacking(have@, n as int),
        decreases last - n,
    {
        n = n + 1;
        let mut found = false;
        let mut i: usize = 0;
        while i < have.len()
            invariant
                0 <= i <= have@.len(),
                found == (exists|j: int| 0 <= j < i && #[trigger] have@[j] == n),
            decreases have@.len() - i,
        {
            if have[i] == n {
                found = true;
            }
            i = i + 1;
        }
        if !found {
            out.push(n);
        }
    }
    out
}

/// The last layout for which a published video may have several jobs.
pub const LAST_REPEATED_VERSION: i64 = 19;

/// The last layout that has no lock of its own.
pub const LAST_UNLOCKED_VERSION: i64 = 21;

proof fn newest_bounds(v: Seq<i64>, n: int, top: int)
    requires
        0 <= n <= v.len(),
        0 <= top,
        forall|i: int| 0 <= i < n ==> (#[trigger] v[i]) <= top,
    ensures
        newest(v, n) <= top,
        forall|i: int| 0 <= i < n ==> (#[trigger] v[i]) <= newest(v, n),
    decreases n,
{
    if n > 0 {
        newest_bounds(v, n - 1, top);
    }
}

proof fn lacking_is_bounded(have: Seq<i64>, n: int)
    requires
        0 <= n <= i64::MAX,
    ensures
        forall|i: int|
            0 <= i < lacking(have, n).len() ==> 1 <= (#[trigger] lacking(have, n)[i]) <= n,
        forall|v: i64| 1 <= v <= n ==> have.contains(v) || #[trigger] lacking(have, n).contains(v),
    decreases n,
{
    if n > 0 {
        lacking_is_bounded(have, n - 1);
        let front = lacking(have, n - 1);
        let all = lacking(have, n);
        assert forall|v: i64| 1 <= v <= n implies have.contains(v) || #[trigger] all.contains(v) by {
            if v == n {
                if !have.contains(v) {
                    assert(all[front.len() as int] == v);
                }
            } else if !have.contains(v) {
                assert(front.contains(v));
                let k = choose|k: int| 0 <= k < front.len() && front[k] == v;
                assert(all[k] == v);
            }
        }
    }
}

proof fn nothing_lacks(have: Seq<i64>, n: int)
    requires
        forall|v: i64| 1 <= v <= n ==> #[trigger] have.contains(v),
        n <= i64::MAX,
    ensures
        lacking(have, n).len() == 0,
    decreases n,
{
    if n > 0 {
        nothing_lacks(have, n - 1);
        assert(have.contains(n as i64));
    }
}

/// Tables of any earlier layout, or without any, have the layout up to which they were brought: the
/// one that this version knows, or the last one before what stood in the way. Then nothing up to it
/// is left to be noted.
pub proof fn migration_is_recorded(have: Seq<i64>, top: int)
    requires
        1 <= top <= i64::MAX,
        forall|i: int| 0 <= i < have.len() ==> (#[trigger] have[i]) <= top,
    ensures
        newest(recorded_to(have, top), recorded_to(have, top).len() as int) == top,
        recorded_to(recorded_to(have, top), top) == recorded_to(have, top),
{
    let new = lacking(have, top);
    let all = recorded_to(have, top);
    lacking_is_bounded(have, top);
    assert forall|i: int| 0 <= i < all.len() implies (#[trigger] all[i]) <= top by {
        if i >= have.len() {
            assert(all[i] == new[i - have.len()]);
        } else {
            assert(all[i] == have[i]);
        }
    }
    assert forall|v: i64| 1 <= v <= top implies #[trigger] all.contains(v) by {
        if have.contains(v) {
            let k = choose|k: int| 0 <= k < have.len() && have[k] == v;
            assert(all[k] == v);
        } else {
            assert(new.contains(v));
            let k = choose|k: int| 0 <= k < new.len() && new[k] == v;
            assert(all[have.len() + k] == v);
        }
    }
    newest_bounds(all, all.len() as int, top);
    assert(all.contains(top as i64));
    nothing_lacks(all, top);
    assert(recorded_to(all, top) =~= all);
}

/// Why tables cannot be brought up to date.
#[derive(Debug)]
pub enum MigrationFault {
    /// Several jobs have the same published video: which, and how many.
    Repeated { bvid: String, holders: usize },
    /// The tables refuse.
    Refused(DbError),
}

impl MigrationFault {
    /// The message for this fault.
    pub open spec fn text(&self) -> Seq<char> {
        match self {
            MigrationFault::Repeated { bvid, holders } => DbError::DuplicateBvid.text(
                debug_text(bvid@),
                decimal_of(*holders as nat),
            ),
            MigrationFault::Refused(e) => e.text(Seq::empty(), Seq::empty()),
        }
    }

    /// The message for this fault.
    pub fn message(&self) -> (r: String)
        ensures
            r@ == self.text(),
    {
        match self {
            MigrationFault::Repeated { bvid, holders } => {
                let quoted = debug_form(bvid.as_str());
                let count = decimal(*holders as u64);
                DbError::DuplicateBvid.message(quoted.as_str(), count.as_str())
            },
            MigrationFault::Refused(e) => {
                let none = String::new();
                e.message(none.as_str(), none.as_str())
            },
        }
    }
}

/// Whether a fault tells of the published video that comes first by its text among those that
/// several jobs have, and how many have it.
pub open spec fn tells_repeated(f: MigrationFault, db: DbModel) -> bool {
    f matches MigrationFault::Repeated { bvid, holders: n } && first_repeated(db, bvid@) && n
        == holders(db.jobs, bvid@, db.jobs.len() as int)
}

/// What bringing the rows up to date comes to: an error where several jobs have the same published
/// video or the old lock cannot be read.
pub open spec fn migrated(db: DbModel, now: i64) -> Result<DbModel, DbError> {
    if exists|bvid: Seq<char>| repeated(calls_closed(db), bvid) {
        Err(DbError::DuplicateBvid)
    } else {
        hold_converted(calls_closed(db), now)
    }
}

impl Database {
    /// Brings the rows of an older version up to date: calls that it left open are closed, no
    /// published video may have several jobs, and its lock becomes one that ends by itself. All
    /// layouts that the tables come to are noted, also where they do not come to the last.
    pub fn migrate(&mut self, versions: &mut Vec<i64>, now: i64) -> (r: Result<(), MigrationFault>)
        requires
            countable(now + LEGACY_HOLD_LEASE_MS),
        ensures
            match migrated(old(self)@, now) {
                Ok(after) => r is Ok && final(self)@ == after && final(versions)@ == recorded(
                    old(versions)@,
                ),
                Err(e) => final(self)@ == calls_closed(old(self)@) && if e
                    == DbError::DuplicateBvid {
                    &&& r matches Err(f)
                    &&& tells_repeated(f, old(self)@)
                    &&& final(versions)@ == recorded_to(
                        old(versions)@,
                        LAST_REPEATED_VERSION as int,
                    )
                } else {
                    &&& r matches Err(MigrationFault::Refused(x))
                    &&& x == e
                    &&& final(versions)@ == recorded_to(
                        old(versions)@,
                        LAST_UNLOCKED_VERSION as int,
                    )
                },
            },
            old(self)@.wf() ==> final(self)@.wf(),
    {
        self.close_old_calls();
        proof {
            assert(self@.jobs == old(self)@.jobs);
            assert forall|b: Seq<char>| #[trigger] repeated(self@, b) == repeated(old(self)@, b) by {}
        }
        match self.duplicate_bvid() {
            Some((bvid, holders)) => {
                proof {
                    assert(repeated(self@, bvid@));
                    assert forall|other: Seq<char>| #[trigger]
                        repeated(old(self)@, other) implies other == bvid@ || text_less(
                        bvid@,
                        other,
                    ) by {
                        assert(repeated(self@, other));
                    }
                }
                let mut new = missing_versions(versions.as_slice(), LAST_REPEATED_VERSION);
                versions.append(&mut new);
                Err(MigrationFault::Repeated { bvid, holders })
            },
            None => match self.convert_legacy_hold(now) {
                Err(e) => {
                    let mut new = missing_versions(versions.as_slice(), LAST_UNLOCKED_VERSION);
                    versions.append(&mut new);
                    Err(MigrationFault::Refused(e))
                },
                Ok(()) => {
                    let mut new = missing_versions(versions.as_slice(), CURRENT_SCHEMA_VERSION);
                    versions.append(&mut new);
                    Ok(())
                },
            },
        }
    }
}

/// Sound tables that are brought up to date once stay as they are when it is done again.
pub proof fn migrating_again_changes_nothing(db: DbModel, now: i64, later_on: i64)
    requires
        db.wf(),
        migrated(db, now) is Ok,
    ensures
        migrated(migrated(db, now)->Ok_0, later_on) == Ok::<DbModel, DbError>(
            migrated(db, now)->Ok_0,
        ),
{
    let closed = calls_closed(db);
    let after = migrated(db, now)->Ok_0;
    closed_calls_keep_wf(db);
    conversion_is_final(closed, now, later_on);
    assert(after.jobs == closed.jobs);
    assert(after.calls == closed.calls);
    assert(calls_closed(after).calls =~= after.calls);
    assert(calls_closed(after) =~= after);
    assert forall|bvid: Seq<char>| !repeated(calls_closed(after), bvid) by {
        assert(!repeated(closed, bvid));
    }
}

/// Where no published video has several jobs, and an older lock can be read and made into one that
/// ends, the tables are brought up to date, and every job and channel stays as it is.
pub proof fn migration_keeps_jobs_and_channels(db: DbModel, now: i64)
    requires
        forall|bvid: Seq<char>| !#[trigger] repeated(db, bvid),
        db.setting(LEGACY_HOLD_OWNER@) matches Some(owner) ==> kept_deadline(db) is Ok && (
        db.hold is Some || owner.len() == 0 || db.hold_event_seq < i64::MAX),
    ensures
        migrated(db, now) matches Ok(after) && after.jobs == db.jobs && after.channels
            == db.channels,
{
    let closed = calls_closed(db);
    assert forall|bvid: Seq<char>| !#[trigger] repeated(closed, bvid) by {
        assert(!repeated(db, bvid));
    }
    assert(closed.settings == db.settings);
    assert(closed.setting(LEGACY_HOLD_OWNER@) == db.setting(LEGACY_HOLD_OWNER@));
    assert(kept_deadline(closed) == kept_deadline(db));
}

/// A job that is older than its mode is translated, and one that is older than the attempts at its
/// subtitle had none.
pub proof fn older_jobs_are_translated(cells: Seq<CellModel>, job: JobModel)
    requires
        job_reads(cells, job),
    ensures
        fresh_of("jobs"@, "transfer_mode"@) == Some(cells[6]) ==> job.transfer_mode
            == TransferMode::Translated,
        fresh_of("jobs"@, "subtitle_attempt"@) == Some(cells[20]) ==> job.subtitle_attempt == 0,
{
    reveal_strlit("ai_calls");
    reveal_strlit("jobs");
    reveal_strlit("channels");
    reveal_strlit("append_to_bvid");
    reveal_strlit("transfer_mode");
    reveal_strlit("source_metadata_json");
    reveal_strlit("prepared_upload_json");
    reveal_strlit("subtitle_attempt");
    assert("ai_calls"@.len() == 8);
    assert("jobs"@.len() == 4);
    assert("channels"@.len() == 8);
    assert("append_to_bvid"@.len() == 14);
    assert("transfer_mode"@.len() == 13);
    assert("source_metadata_json"@.len() == 20);
    assert("prepared_upload_json"@.len() == 20);
    assert("subtitle_attempt"@.len() == 16);
    assert(added()[0].0 == "ai_calls"@ && added()[0].1 == "input_json"@);
    assert(added()[1].0 == "ai_calls"@ && added()[1].1 == "output_json"@);
    assert(added()[2].0 == "jobs"@ && added()[2].1 == "append_to_bvid"@);
    assert(added()[3].0 == "channels"@ && added()[3].1 == "transfer_mode"@);
    assert(added()[4].0 == "jobs"@ && added()[4].1 == "transfer_mode"@);
    assert(added()[5].0 == "jobs"@ && added()[5].1 == "source_metadata_json"@);
    assert(added()[6].0 == "jobs"@ && added()[6].1 == "prepared_upload_json"@);
    assert(added()[7].0 == "jobs"@ && added()[7].1 == "subtitle_attempt"@);
    assert(stands_for("jobs"@, "transfer_mode"@, 4));
    one_stands("jobs"@, "transfer_mode"@, 4);
    assert(stands_for("jobs"@, "subtitle_attempt"@, 7));
    one_stands("jobs"@, "subtitle_attempt"@, 7);
    stored_texts_differ();
    assert(TransferMode::Translated.text() == "translated"@);
}

/// A channel that is older than its mode is translated, one that is older than its priority is a
/// normal one, and one that is older than its failures had none.
pub proof fn older_channels_are_normal(cells: Seq<CellModel>, row: ChannelRowModel)
    requires
        channel_row_reads(cells, row),
    ensures
        fresh_of("channels"@, "transfer_mode"@) == Some(cells[5]) ==> row.channel.transfer_mode
            == TransferMode::Translated,
        fresh_of("channels"@, "priority"@) == Some(cells[6]) ==> row.channel.priority
            == ChannelPriority::Normal,
        fresh_of("channels"@, "consecutive_failures"@) == Some(cells[10])
            ==> row.channel.consecutive_failures == 0,
{
    reveal_strlit("ai_calls");
    reveal_strlit("jobs");
    reveal_strlit("channels");
    reveal_strlit("video_candidates");
    reveal_strlit("transfer_mode");
    reveal_strlit("next_poll_at");
    reveal_strlit("consecutive_failures");
    reveal_strlit("uploads_playlist_id");
    reveal_strlit("websub_lease_expires_at");
    reveal_strlit("websub_secret");
    reveal_strlit("websub_callback_path");
    reveal_strlit("next_data_api_poll_at");
    reveal_strlit("data_api_etag");
    reveal_strlit("websub_last_received_at");
    reveal_strlit("priority");
    assert("jobs"@.len() == 4);
    assert("channels"@.len() == 8);
    assert("video_candidates"@.len() == 16);
    assert("transfer_mode"@.len() == 13);
    assert("next_poll_at"@.len() == 12);
    assert("consecutive_failures"@.len() == 20);
    assert("uploads_playlist_id"@.len() == 19);
    assert("websub_lease_expires_at"@.len() == 23);
    assert("websub_secret"@.len() == 13);
    assert("websub_callback_path"@.len() == 20);
    assert("next_data_api_poll_at"@.len() == 21);
    assert("data_api_etag"@.len() == 13);
    assert("websub_last_received_at"@.len() == 23);
    assert("priority"@.len() == 8);
    assert(added()[0].0 == "ai_calls"@ && added()[0].1 == "input_json"@);
    assert(added()[1].0 == "ai_calls"@ && added()[1].1 == "output_json"@);
    assert(added()[2].0 == "jobs"@ && added()[2].1 == "append_to_bvid"@);
    assert(added()[3].0 == "channels"@ && added()[3].1 == "transfer_mode"@);
    assert(added()[4].0 == "jobs"@ && added()[4].1 == "transfer_mode"@);
    assert(added()[5].0 == "jobs"@ && added()[5].1 == "source_metadata_json"@);
    assert(added()[6].0 == "jobs"@ && added()[6].1 == "prepared_upload_json"@);
    assert(added()[7].0 == "jobs"@ && added()[7].1 == "subtitle_attempt"@);
    assert(added()[8].0 == "jobs"@ && added()[8].1 == "subtitle_retry_at"@);
    assert(added()[9].0 == "jobs"@ && added()[9].1 == "retry_at"@);
    assert(added()[10].0 == "channels"@ && added()[10].1 == "next_poll_at"@);
    assert(added()[11].0 == "channels"@ && added()[11].1 == "consecutive_failures"@);
    assert(added()[12].0 == "channels"@ && added()[12].1 == "uploads_playlist_id"@);
    assert(added()[13].0 == "channels"@ && added()[13].1 == "websub_lease_expires_at"@);
    assert(added()[14].0 == "channels"@ && added()[14].1 == "websub_secret"@);
    assert(added()[15].0 == "channels"@ && added()[15].1 == "websub_callback_path"@);
    assert(added()[16].0 == "channels"@ && added()[16].1 == "next_data_api_poll_at"@);
    assert(added()[17].0 == "channels"@ && added()[17].1 == "data_api_etag"@);
    assert(added()[18].0 == "channels"@ && added()[18].1 == "websub_last_received_at"@);
    assert(added()[19].0 == "video_candidates"@ && added()[19].1 == "source_language"@);
    assert(added()[20].0 == "video_candidates"@ && added()[20].1 == "source_language_mismatch"@);
    assert(added()[21].0 == "ai_calls"@ && added()[21].1 == "status"@);
    assert(added()[22].0 == "ai_calls"@ && added()[22].1 == "error"@);
    assert(added()[23].0 == "ai_calls"@ && added()[23].1 == "finished_at"@);
    assert(added()[24].0 == "channels"@ && added()[24].1 == "priority"@);
    assert("channels"@[0] != "ai_calls"@[0]);
    assert(stands_for("channels"@, "transfer_mode"@, 3));
    one_stands("channels"@, "transfer_mode"@, 3);
    assert(stands_for("channels"@, "consecutive_failures"@, 11));
    one_stands("channels"@, "consecutive_failures"@, 11);
    assert(stands_for("channels"@, "priority"@, 24));
    one_stands("channels"@, "priority"@, 24);
    stored_texts_differ();
    assert(TransferMode::Translated.text() == "translated"@);
    assert(ChannelPriority::Normal.text() == "normal"@);
}

// ---------------------------------------------------------------------------------------------
// What a migration brings
// ---------------------------------------------------------------------------------------------

/// The version of the tables is the highest that was noted.
pub proof fn newest_version_counts(versions: Seq<i64>, n: int, i: int)
    requires
        0 < n <= versions.len(),
        0 <= i < n,
    ensures
        versions[i] <= newest(versions, n),
        exists|j: int| 0 <= j < n && (#[trigger] versions[j]) == newest(versions, n),
    decreases n,
{
    if n > 1 {
        if i < n - 1 {
            newest_version_counts(versions, n - 1, i);
        } else {
            newest_version_counts(versions, n - 1, 0);
        }
        let j = choose|j: int| 0 <= j < n - 1 && (#[trigger] versions[j]) == newest(versions, n - 1);
        assert(versions[j] == newest(versions, n - 1));
        assert(versions[n - 1] == newest(versions, n) || versions[j] == newest(versions, n));
    } else {
        assert(versions[0] == newest(versions, 1));
    }
}

/// A call that succeeded and has no end ends when it began; every other stays.
pub proof fn open_successes_are_closed(db: DbModel, i: int)
    requires
        0 <= i < db.calls.len(),
    ensures
        ({
            let a = db.calls[i];
            let b = calls_closed(db).calls[i];
            &&& calls_closed(db).calls.len() == db.calls.len()
            &&& a.finished_at is None && a.status == "success"@ ==> b.finished_at == Some(
                a.created_at,
            ) && b.usage == a.usage && b.id == a.id && b.status == a.status
            &&& a.finished_at is Some || a.status != "success"@ ==> b == a
            &&& calls_closed(db).jobs == db.jobs && calls_closed(db).settings == db.settings
        }),
{
}

/// The lock of the older layout becomes a lock of this one, of the same owner, for five minutes; the
/// deadline that it had put aside is put back, and its settings go.
pub proof fn old_locks_are_carried_over(db: DbModel, owner: Seq<char>, now: i64)
    requires
        db.wf(),
        db.setting("bilibili.upload_hold_owner"@) == Some(owner),
        owner.len() > 0,
        db.hold is None,
        db.hold_event_seq < i64::MAX,
        now + 300_000 <= i64::MAX,
        kept_deadline(db) is Ok,
    ensures
        ({
            let r = hold_converted(db, now);
            let after = r->Ok_0;
            &&& r is Ok
            &&& after.hold is Some && after.hold->Some_0.owner == owner
            &&& after.hold->Some_0.acquired_at == now
            &&& after.hold->Some_0.expires_at == now + 300_000
            &&& after.hold_events.len() == db.hold_events.len() + 1
            &&& after.hold_events.last().action == HoldAction::Acquired
            &&& after.setting("bilibili.upload_hold_owner"@) is None
            &&& after.jobs == db.jobs && after.channels == db.channels
        }),
        db.setting("bilibili.upload_hold_previous"@) is None ==> kept_deadline(db) == Ok::<
            Option<Seq<char>>,
            DbError,
        >(None),
{
    conversion_is_final(db, now, now);
}

/// Without the older lock nothing is carried over, and where a lock is held that one stays.
pub proof fn no_old_lock_changes_nothing(db: DbModel, now: i64)
    ensures
        db.setting("bilibili.upload_hold_owner"@) is None ==> hold_converted(db, now) == Ok::<
            DbModel,
            DbError,
        >(db),
        db.hold is Some && hold_converted(db, now) is Ok ==> hold_converted(db, now)->Ok_0.hold
            == db.hold,
{
}

/// The deadline that the older lock had put aside is put back where it had set its own.
pub proof fn deadlines_are_put_back(db: DbModel, previous: Option<Seq<char>>, now: i64)
    requires
        db.wf(),
        db.setting("bilibili.next_submit_at"@) == Some("2099-12-31T23:59:59+00:00"@),
    ensures
        freed(db, previous, now).setting("bilibili.next_submit_at"@) == previous,
{
    let key = "bilibili.next_submit_at"@;
    let owner = "bilibili.upload_hold_owner"@;
    let kept = "bilibili.upload_hold_previous"@;
    reveal_strlit("bilibili.next_submit_at");
    reveal_strlit("bilibili.upload_hold_owner");
    reveal_strlit("bilibili.upload_hold_previous");
    assert(key.len() == 23 && owner.len() == 26 && kept.len() == 29);
    let first = match previous {
        Some(p) => db.with_setting(key, p, now),
        None => db.without_setting(key),
    };
    if previous is Some {
        set_then_get(db, key, previous->Some_0, now);
    } else {
        remove_keeps_wf(db, key);
    }
    others_stay(first, owner, key);
    remove_keeps_wf(first, owner);
    others_stay(first.without_setting(owner), kept, key);
}

proof fn others_stay(db: DbModel, gone: Seq<char>, key: Seq<char>)
    requires
        db.wf(),
        gone != key,
    ensures
        db.without_setting(gone).setting(key) == db.setting(key),
{
    let p = |r: SettingModel| r.key == key;
    let q = |r: SettingModel| r.key == gone;
    place_means(db.settings, p);
    place_means(db.settings, q);
    let after = db.without_setting(gone);
    place_means(after.settings, p);
    assert(db.setting_at(key) == place(db.settings, p));
    assert(db.setting_at(gone) == place(db.settings, q));
    assert(after.setting_at(key) == place(after.settings, p));
    if db.setting_at(gone) is Some {
        let g = db.setting_at(gone)->Some_0;
        if db.setting_at(key) is Some {
            let k = db.setting_at(key)->Some_0;
            let at = if k < g { k } else { k - 1 };
            assert(after.settings[at] == db.settings[k]);
            assert forall|j: int| 0 <= j < at implies !p(#[trigger] after.settings[j]) by {
                if j < g {
                    assert(after.settings[j] == db.settings[j]);
                } else {
                    assert(after.settings[j] == db.settings[j + 1]);
                }
            }
            assert(is_first(after.settings, p, at));
            place_is(after.settings, p, at);
        } else {
            assert forall|j: int| 0 <= j < after.settings.len() implies !p(
                #[trigger] after.settings[j],
            ) by {
                if j < g {
                    assert(after.settings[j] == db.settings[j]);
                } else {
                    assert(after.settings[j] == db.settings[j + 1]);
                }
            }
            place_is_none(after.settings, p);
        }
    }
}

/// A column that is added to older rows is empty, zero or a word, as its definition says.
pub proof fn added_columns_are_blank(w: Seq<char>)
    ensures
        BlankModel::Nothing.cell() == CellModel::Null && BlankModel::Nothing.definition() == "TEXT"@,
        BlankModel::Zero.cell() == CellModel::Int(0),
        BlankModel::Word(w).cell() == CellModel::Text(w),
        BlankModel::Word(w).definition() == "TEXT NOT NULL DEFAULT '"@ + w + "'"@,
{
}

/// Just the columns that are not there are added.
pub proof fn only_missing_columns_are_added(
    have: Seq<(Seq<char>, Seq<char>)>,
    columns: Seq<(Seq<char>, Seq<char>, BlankModel)>,
    n: int,
)
    requires
        0 <= n < columns.len(),
    ensures
        ({
            let there = exists|i: int|
                0 <= i < have.len() && #[trigger] have[i] == (columns[n].0, columns[n].1);
            let before = alterations_of(have, columns, n);
            let after = alterations_of(have, columns, n + 1);
            &&& there ==> after == before
            &&& !there ==> after == before.push(
                "ALTER TABLE "@ + columns[n].0 + " ADD COLUMN "@ + columns[n].1 + " "@
                    + columns[n].2.definition(),
            )
        }),
{
}

/// A published video is repeated just where two jobs have it.
pub proof fn repeated_means_two_jobs(db: DbModel, bvid: Seq<char>)
    ensures
        repeated(db, bvid) <==> exists|i: int, j: int|
            0 <= i < j < db.jobs.len() && (#[trigger] db.jobs[i]).job.bvid == Some(bvid) && (
            #[trigger] db.jobs[j]).job.bvid == Some(bvid),
{
    let n = db.jobs.len() as int;
    if repeated(db, bvid) {
        let j = last_holder(db.jobs, bvid, n);
        let i = last_holder(db.jobs, bvid, j);
        assert(db.jobs[i].job.bvid == Some(bvid) && db.jobs[j].job.bvid == Some(bvid));
    }
    if exists|i: int, j: int|
        0 <= i < j < db.jobs.len() && (#[trigger] db.jobs[i]).job.bvid == Some(bvid) && (
        #[trigger] db.jobs[j]).job.bvid == Some(bvid) {
        let (i, j) = choose|i: int, j: int|
            0 <= i < j < db.jobs.len() && (#[trigger] db.jobs[i]).job.bvid == Some(bvid) && (
            #[trigger] db.jobs[j]).job.bvid == Some(bvid);
        holders_grow(db.jobs, bvid, i + 1, j);
        holders_grow(db.jobs, bvid, 0, i);
        holders_grow(db.jobs, bvid, j + 1, n);
    }
}

proof fn last_holder(jobs: Seq<RowModel>, bvid: Seq<char>, n: int) -> (k: int)
    requires
        0 <= n <= jobs.len(),
        holders(jobs, bvid, n) > 0,
    ensures
        0 <= k < n,
        jobs[k].job.bvid == Some(bvid),
        holders(jobs, bvid, k) == holders(jobs, bvid, n) - 1,
    decreases n,
{
    if jobs[n - 1].job.bvid == Some(bvid) {
        n - 1
    } else {
        last_holder(jobs, bvid, n - 1)
    }
}

proof fn holders_grow(jobs: Seq<RowModel>, bvid: Seq<char>, a: int, b: int)
    requires
        0 <= a <= b <= jobs.len(),
    ensures
        0 <= holders(jobs, bvid, a) <= holders(jobs, bvid, b),
    decreases b,
{
    if b > a {
        holders_grow(jobs, bvid, a, b - 1);
    } else if a > 0 {
        holders_grow(jobs, bvid, a - 1, a - 1);
    }
}

/// The versions that are noted behind a migration are all up to the present one.
pub proof fn all_versions_are_noted(have: Seq<i64>, v: i64)
    requires
        1 <= v <= 22,
    ensures
        recorded(have).contains(v),
{
    lacking_is_noted(have, 22, v);
    if have.contains(v) {
        let i = choose|i: int| 0 <= i < have.len() && have[i] == v;
        assert(recorded(have)[i] == v);
    } else {
        let l = lacking(have, 22);
        let i = choose|i: int| 0 <= i < l.len() && l[i] == v;
        assert(recorded(have)[have.len() + i] == v);
    }
}

proof fn lacking_is_noted(have: Seq<i64>, n: int, v: i64)
    requires
        1 <= v <= n <= 22,
    ensures
        have.contains(v) || lacking(have, n).contains(v),
    decreases n,
{
    if v == n {
        if !have.contains(v) {
            let l = lacking(have, n);
            assert(l[l.len() - 1] == v);
        }
    } else {
        lacking_is_noted(have, n - 1, v);
        if !have.contains(v) {
            let front = lacking(have, n - 1);
            let i = choose|i: int| 0 <= i < front.len() && front[i] == v;
            assert(lacking(have, n)[i] == v);
        }
    }
}

} // verus!
