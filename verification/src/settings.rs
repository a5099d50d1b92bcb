//! Named values: settings, the state of discovery, and the quota that is kept in it.
use vstd::prelude::*;

use crate::clock::{
    format_timestamp, parse_rfc3339, rfc3339, rfc3339_millis, rfc3339_text, stamp_text,
    YEAR_9999_END_MS,
};
use crate::fault::DbError;
use crate::store::{
    is_first, place, place_is, place_is_none, place_means, same_place, Database, DbModel, Setting,
    SettingModel, StateModel, StateValue,
};
use crate::text::{chars_of, decimal, decimal_of, digit, opt_view, same_text};

verus! {

/// The setting that tells when the next video may be submitted.
pub const NEXT_BILIBILI_SUBMIT_AT: &'static str = "bilibili.next_submit_at";

/// The setting that tells from when on recordings of live streams are carried over.
pub const LIVE_REPLAY_CURSOR: &'static str = "live_replay.enqueue_after";

/// The value of discovery that counts the quota that was used.
pub const QUOTA_USED: &'static str = "quota_used_today";

/// The value of discovery that tells when the quota starts anew.
pub const QUOTA_RESET: &'static str = "quota_reset_at";

impl DbModel {
    /// Where a setting stands.
    pub open spec fn setting_at(self, key: Seq<char>) -> Option<int> {
        place(self.settings, |r: SettingModel| r.key == key)
    }

    /// The value of a setting.
    pub open spec fn setting(self, key: Seq<char>) -> Option<Seq<char>> {
        match self.setting_at(key) {
            Some(k) => Some(self.settings[k].value),
            None => None,
        }
    }

    /// The tables with a setting of that value.
    pub open spec fn with_setting(self, key: Seq<char>, value: Seq<char>, now: i64) -> DbModel {
        let row = SettingModel { key, value, updated_at: now };
        match self.setting_at(key) {
            Some(k) => DbModel { settings: self.settings.update(k, row), ..self },
            None => DbModel { settings: self.settings.push(row), ..self },
        }
    }

    /// The tables without a setting.
    pub open spec fn without_setting(self, key: Seq<char>) -> DbModel {
        match self.setting_at(key) {
            Some(k) => DbModel { settings: self.settings.remove(k), ..self },
            None => self,
        }
    }

    /// Where a value of discovery stands.
    pub open spec fn state_at(self, key: Seq<char>) -> Option<int> {
        place(self.discovery, |r: StateModel| r.key == key)
    }

    /// A value of discovery.
    pub open spec fn state(self, key: Seq<char>) -> Option<Seq<char>> {
        match self.state_at(key) {
            Some(k) => Some(self.discovery[k].value),
            None => None,
        }
    }

    /// The tables with a value of discovery.
    pub open spec fn with_state(self, key: Seq<char>, value: Seq<char>) -> DbModel {
        let row = StateModel { key, value };
        match self.state_at(key) {
            Some(k) => DbModel { discovery: self.discovery.update(k, row), ..self },
            None => DbModel { discovery: self.discovery.push(row), ..self },
        }
    }

    /// The tables without a value of discovery.
    pub open spec fn without_state(self, key: Seq<char>) -> DbModel {
        match self.state_at(key) {
            Some(k) => DbModel { discovery: self.discovery.remove(k), ..self },
            None => self,
        }
    }
}

/// What was set is what is read, other settings are as they were, and the tables stay sound.
pub proof fn set_then_get(db: DbModel, key: Seq<char>, value: Seq<char>, now: i64)
    ensures
        db.with_setting(key, value, now).setting(key) == Some(value),
        forall|other: Seq<char>|
            other != key ==> #[trigger] db.with_setting(key, value, now).setting(other)
                == db.setting(other),
        db.wf() ==> db.with_setting(key, value, now).wf(),
{
    let after = db.with_setting(key, value, now);
    let p = |r: SettingModel| r.key == key;
    place_means(db.settings, p);
    let at = match db.setting_at(key) {
        Some(k) => k,
        None => db.settings.len() as int,
    };
    assert(is_first(after.settings, p, at)) by {
        assert forall|j: int| 0 <= j < at implies !p(#[trigger] after.settings[j]) by {
            assert(after.settings[j] == db.settings[j]);
        }
    }
    place_is(after.settings, p, at);
    assert forall|other: Seq<char>| other != key implies #[trigger] after.setting(other)
        == db.setting(other) by {
        let q = |r: SettingModel| r.key == other;
        place_means(db.settings, q);
        match db.setting_at(other) {
            Some(k) => {
                assert(db.settings[k].key == other);
                assert(after.settings[k] == db.settings[k]);
                assert forall|j: int| 0 <= j < k implies !q(#[trigger] after.settings[j]) by {
                    if j != at {
                        assert(after.settings[j] == db.settings[j]);
                    }
                }
                assert(is_first(after.settings, q, k));
                place_is(after.settings, q, k);
            },
            None => {
                assert forall|j: int| 0 <= j < after.settings.len() implies !q(
                    #[trigger] after.settings[j],
                ) by {
                    if j != at {
                        assert(after.settings[j] == db.settings[j]);
                    }
                }
                place_is_none(after.settings, q);
            },
        }
    }
    if db.wf() {
        assert forall|i: int, j: int| 0 <= i < j < after.settings.len() implies (
        #[trigger] after.settings[i]).key != (#[trigger] after.settings[j]).key by {
            if i != at {
                assert(after.settings[i] == db.settings[i]);
            }
            if j != at {
                assert(after.settings[j] == db.settings[j]);
            }
        }
    }
}

/// Removing a setting keeps the tables sound, and the setting is gone.
pub proof fn remove_keeps_wf(db: DbModel, key: Seq<char>)
    requires
        db.wf(),
    ensures
        db.without_setting(key).wf(),
        db.without_setting(key).setting(key) is None,
{
    let p = |r: SettingModel| r.key == key;
    place_means(db.settings, p);
    match db.setting_at(key) {
        Some(k) => {
            let after = db.without_setting(key).settings;
            assert forall|i: int, j: int| 0 <= i < j < after.len() implies (#[trigger] after[i]).key
                != (#[trigger] after[j]).key by {
                let a = if i < k { i } else { i + 1 };
                let b = if j < k { j } else { j + 1 };
                assert(after[i] == db.settings[a] && after[j] == db.settings[b]);
            }
            assert forall|j: int| 0 <= j < after.len() implies !p(#[trigger] after[j]) by {
                let b = if j < k { j } else { j + 1 };
                assert(after[j] == db.settings[b]);
                assert(db.settings[k].key == key);
            }
            place_is_none(after, p);
        },
        None => {},
    }
}

/// What was set of discovery is what is read, other values are as they were, and the tables stay
/// sound.
pub proof fn set_then_get_state(db: DbModel, key: Seq<char>, value: Seq<char>)
    ensures
        db.with_state(key, value).state(key) == Some(value),
        forall|other: Seq<char>|
            other != key ==> #[trigger] db.with_state(key, value).state(other) == db.state(other),
        db.wf() ==> db.with_state(key, value).wf(),
{
    let after = db.with_state(key, value);
    let p = |r: StateModel| r.key == key;
    place_means(db.discovery, p);
    let at = match db.state_at(key) {
        Some(k) => k,
        None => db.discovery.len() as int,
    };
    assert(is_first(after.discovery, p, at)) by {
        assert forall|j: int| 0 <= j < at implies !p(#[trigger] after.discovery[j]) by {
            assert(after.discovery[j] == db.discovery[j]);
        }
    }
    place_is(after.discovery, p, at);
    assert forall|other: Seq<char>| other != key implies #[trigger] after.state(other) == db.state(
        other,
    ) by {
        let q = |r: StateModel| r.key == other;
        place_means(db.discovery, q);
        match db.state_at(other) {
            Some(k) => {
                assert(db.discovery[k].key == other);
                assert(after.discovery[k] == db.discovery[k]);
                assert forall|j: int| 0 <= j < k implies !q(#[trigger] after.discovery[j]) by {
                    if j != at {
                        assert(after.discovery[j] == db.discovery[j]);
                    }
                }
                assert(is_first(after.discovery, q, k));
                place_is(after.discovery, q, k);
            },
            None => {
                assert forall|j: int| 0 <= j < after.discovery.len() implies !q(
                    #[trigger] after.discovery[j],
                ) by {
                    if j != at {
                        assert(after.discovery[j] == db.discovery[j]);
                    }
                }
                place_is_none(after.discovery, q);
            },
        }
    }
    if db.wf() {
        assert forall|i: int, j: int| 0 <= i < j < after.discovery.len() implies (
        #[trigger] after.discovery[i]).key != (#[trigger] after.discovery[j]).key by {
            if i != at {
                assert(after.discovery[i] == db.discovery[i]);
            }
            if j != at {
                assert(after.discovery[j] == db.discovery[j]);
            }
        }
    }
}

/// Removing a value of discovery keeps the tables sound, and the value is gone.
pub proof fn remove_state_keeps_wf(db: DbModel, key: Seq<char>)
    requires
        db.wf(),
    ensures
        db.without_state(key).wf(),
        db.without_state(key).state(key) is None,
{
    let p = |r: StateModel| r.key == key;
    place_means(db.discovery, p);
    match db.state_at(key) {
        Some(k) => {
            let after = db.without_state(key).discovery;
            assert forall|i: int, j: int| 0 <= i < j < after.len() implies (#[trigger] after[i]).key
                != (#[trigger] after[j]).key by {
                let a = if i < k { i } else { i + 1 };
                let b = if j < k { j } else { j + 1 };
                assert(after[i] == db.discovery[a] && after[j] == db.discovery[b]);
            }
            assert forall|j: int| 0 <= j < after.len() implies !p(#[trigger] after[j]) by {
                let b = if j < k { j } else { j + 1 };
                assert(after[j] == db.discovery[b]);
                assert(db.discovery[k].key == key);
            }
            place_is_none(after, p);
        },
        None => {},
    }
}

impl Database {
    fn find_setting(&self, key: &str) -> (r: Option<usize>)
        ensures
            same_place(r, self@.setting_at(key@), self.settings@.len() as int),
            r matches Some(k) ==> self@.settings[k as int].key == key@,
    {
        let ghost p = |r: SettingModel| r.key == key@;
        let ghost rows = self@.settings;
        let mut i: usize = 0;
        while i < self.settings.len()
            invariant
                rows == self@.settings,
                rows.len() == self.settings@.len(),
                p == (|r: SettingModel| r.key == key@),
                0 <= i <= rows.len(),
                forall|j: int| 0 <= j < i ==> !p(#[trigger] rows[j]),
            decreases self.settings@.len() - i,
        {
            proof {
                assert(rows[i as int] == self.settings@[i as int]@);
            }
            if same_text(self.settings[i].key.as_str(), key) {
                proof {
                    assert(is_first(rows, p, i as int));
                    place_is(rows, p, i as int);
                }
                return Some(i);
            }
            i = i + 1;
        }
        proof {
            place_is_none(rows, p);
        }
        None
    }

    fn find_state(&self, key: &str) -> (r: Option<usize>)
        ensures
            same_place(r, self@.state_at(key@), self.discovery@.len() as int),
            r matches Some(k) ==> self@.discovery[k as int].key == key@,
    {
        let ghost p = |r: StateModel| r.key == key@;
        let ghost rows = self@.discovery;
        let mut i: usize = 0;
        while i < self.discovery.len()
            invariant
                rows == self@.discovery,
                rows.len() == self.discovery@.len(),
                p == (|r: StateModel| r.key == key@),
                0 <= i <= rows.len(),
                forall|j: int| 0 <= j < i ==> !p(#[trigger] rows[j]),
            decreases self.discovery@.len() - i,
        {
            proof {
                assert(rows[i as int] == self.discovery@[i as int]@);
            }
            if same_text(self.discovery[i].key.as_str(), key) {
                proof {
                    assert(is_first(rows, p, i as int));
                    place_is(rows, p, i as int);
                }
                return Some(i);
            }
            i = i + 1;
        }
        proof {
            place_is_none(rows, p);
        }
        None
    }

    /// Gives a setting a value.
    pub fn set_setting(&mut self, key: &str, value: &str, now: i64)
        ensures
            final(self)@ == old(self)@.with_setting(key@, value@, now),
    {
        match self.find_setting(key) {
            Some(k) => {
                self.settings[k].value = value.to_owned();
                self.settings[k].updated_at = now;
            },
            None => {
                self.settings.push(
                    Setting { key: key.to_owned(), value: value.to_owned(), updated_at: now },
                );
            },
        }
    }

    /// The value of a setting.
    pub fn get_setting(&self, key: &str) -> (r: Option<String>)
        ensures
            opt_view(r) == self@.setting(key@),
    {
        match self.find_setting(key) {
            Some(k) => Some(self.settings[k].value.clone()),
            None => None,
        }
    }

    /// Removes a setting.
    pub fn delete_setting(&mut self, key: &str)
        ensures
            final(self)@ == old(self)@.without_setting(key@),
    {
        match self.find_setting(key) {
            Some(k) => {
                let _ = self.settings.remove(k);
            },
            None => {},
        }
    }

    /// A value of discovery.
    pub fn get_discovery_state(&self, key: &str) -> (r: Option<String>)
        ensures
            opt_view(r) == self@.state(key@),
    {
        match self.find_state(key) {
            Some(k) => Some(self.discovery[k].value.clone()),
            None => None,
        }
    }

    /// Sets a value of discovery.
    pub fn set_discovery_state(&mut self, key: &str, value: &str)
        ensures
            final(self)@ == old(self)@.with_state(key@, value@),
    {
        match self.find_state(key) {
            Some(k) => {
                self.discovery[k].value = value.to_owned();
            },
            None => {
                self.discovery.push(StateValue { key: key.to_owned(), value: value.to_owned() });
            },
        }
    }

    /// Removes a value of discovery.
    pub fn delete_discovery_state(&mut self, key: &str)
        ensures
            final(self)@ == old(self)@.without_state(key@),
    {
        match self.find_state(key) {
            Some(k) => {
                let _ = self.discovery.remove(k);
            },
            None => {},
        }
    }

    /// Whether the point in time that a setting names has come. A setting that is not there is
    /// due; one that is no point in time is an error.
    pub fn setting_deadline_due(&self, key: &str, now: i64) -> (r: Result<bool, DbError>)
        ensures
            r == deadline_due(self@.setting(key@), now),
    {
        match self.get_setting(key) {
            None => Ok(true),
            Some(value) => match parse_rfc3339(value.as_str()) {
                None => Err(DbError::BadDeadline),
                Some(deadline) => Ok(deadline <= now),
            },
        }
    }

    /// Whether a video may be submitted: the lock is free and the deadline has come.
    pub fn bilibili_submission_due(&self, now: i64) -> (r: Result<bool, DbError>)
        ensures
            self@.held(now) ==> r == Ok::<bool, DbError>(false),
            !self@.held(now) ==> r == deadline_due(self@.setting(NEXT_BILIBILI_SUBMIT_AT@), now),
    {
        if self.is_held(now) {
            return Ok(false);
        }
        self.setting_deadline_due(NEXT_BILIBILI_SUBMIT_AT, now)
    }

    /// From when on recordings of live streams are carried over. The first time, and where the
    /// stored value is no point in time, that is now, and it is stored.
    pub fn live_replay_cutoff(&mut self, now: i64) -> (r: Result<i64, DbError>)
        ensures
            match cutoff_of(old(self)@) {
                Some(at) => r matches Ok(ms) && ms == at && final(self)@ == old(self)@,
                None => match rfc3339_text(now as int) {
                    Some(text) => r == Ok::<i64, DbError>(now) && final(self)@
                        == old(self)@.with_setting(LIVE_REPLAY_CURSOR@, text, now),
                    None => r == Err::<i64, DbError>(DbError::OutOfCalendar) && final(self)@
                        == old(self)@,
                },
            },
            0 <= now <= YEAR_9999_END_MS ==> r is Ok && cutoff_of(final(self)@)
                is Some,
    {
        match self.get_setting(LIVE_REPLAY_CURSOR) {
            Some(value) => match parse_rfc3339(value.as_str()) {
                Some(at) => {
                    return Ok(at);
                },
                None => {},
            },
            None => {},
        }
        match rfc3339(now) {
            None => Err(DbError::OutOfCalendar),
            Some(text) => {
                proof {
                    set_then_get(self@, LIVE_REPLAY_CURSOR@, text@, now);
                }
                self.set_setting(LIVE_REPLAY_CURSOR, text.as_str(), now);
                Ok(now)
            },
        }
    }
}

/// Whether a stored deadline has come.
pub open spec fn deadline_due(value: Option<Seq<char>>, now: i64) -> Result<bool, DbError> {
    match value {
        None => Ok(true),
        Some(v) => match rfc3339_millis(v) {
            None => Err(DbError::BadDeadline),
            Some(at) => Ok(at <= now),
        },
    }
}

/// The stored point in time from when on recordings of live streams are carried over.
pub open spec fn cutoff_of(db: DbModel) -> Option<int> {
    match db.setting(LIVE_REPLAY_CURSOR@) {
        Some(v) => rfc3339_millis(v),
        None => None,
    }
}

/// A deadline in the calendar that was set is due just from then on.
pub proof fn deadline_is_kept(db: DbModel, key: Seq<char>, text: Seq<char>, at: int, set: i64, now: i64)
    requires
        rfc3339_millis(text) == Some(at),
    ensures
        deadline_due(db.with_setting(key, text, set).setting(key), now) == Ok::<bool, DbError>(
            at <= now,
        ),
{
    set_then_get(db, key, text, set);
}

/// What is left of the quota.
#[derive(Debug, Clone, Copy, PartialEq, Eq, Structural)]
pub struct DiscoveryQuota {
    pub used: u32,
    pub reset_at: i64,
    pub allowed: bool,
}

/// Whether a character is a decimal digit.
pub open spec fn is_digit(c: char) -> bool {
    '0' <= c && c <= '9'
}

/// The number that digits spell.
pub open spec fn number_of(s: Seq<char>) -> int
    decreases s.len(),
{
    if s.len() == 0 {
        0
    } else {
        number_of(s.drop_last()) * 10 + (s.last() as int - '0' as int)
    }
}

/// A text without a plus sign in front.
pub open spec fn unsigned(s: Seq<char>) -> Seq<char> {
    if s.len() > 0 && s[0] == '+' {
        s.skip(1)
    } else {
        s
    }
}

/// Whether there are digits and nothing else.
pub open spec fn all_digits(s: Seq<char>) -> bool {
    s.len() > 0 && forall|i: int| 0 <= i < s.len() ==> is_digit(#[trigger] s[i])
}

/// The number that a text spells, where it is one up to `limit`: digits, after a plus sign or none.
pub open spec fn parsed_number(s: Seq<char>, limit: int) -> Option<int> {
    if all_digits(unsigned(s)) && number_of(unsigned(s)) <= limit {
        Some(number_of(unsigned(s)))
    } else {
        None
    }
}

/// The number that was written in decimal is the one that is read.
pub proof fn decimal_reads_back(n: nat, limit: int)
    requires
        n <= limit,
    ensures
        parsed_number(decimal_of(n), limit) == Some(n as int),
{
    decimal_digits(n);
    assert(is_digit(decimal_of(n)[0]));
}

proof fn decimal_digits(n: nat)
    ensures
        all_digits(decimal_of(n)),
        number_of(decimal_of(n)) == n,
    decreases n,
{
    if n < 10 {
        reveal_with_fuel(number_of, 2);
    } else {
        decimal_digits(n / 10);
        let s = decimal_of(n);
        assert(s.drop_last() =~= decimal_of(n / 10));
        assert forall|i: int| 0 <= i < s.len() implies is_digit(#[trigger] s[i]) by {
            if i < s.len() - 1 {
                assert(s[i] == decimal_of(n / 10)[i]);
            }
        }
    }
}

proof fn number_grows(s: Seq<char>, n: int)
    requires
        0 <= n <= s.len(),
        forall|i: int| 0 <= i < s.len() ==> is_digit(#[trigger] s[i]),
    ensures
        0 <= number_of(s.take(n)) <= number_of(s),
    decreases s.len() - n,
{
    if n == s.len() {
        assert(s.take(n) =~= s);
        number_is_positive(s);
    } else {
        number_grows(s, n + 1);
        assert(s.take(n + 1).drop_last() =~= s.take(n));
        number_is_positive(s.take(n));
        assert(is_digit(s[n]));
    }
}

proof fn number_is_positive(s: Seq<char>)
    requires
        forall|i: int| 0 <= i < s.len() ==> is_digit(#[trigger] s[i]),
    ensures
        number_of(s) >= 0,
    decreases s.len(),
{
    if s.len() > 0 {
        number_is_positive(s.drop_last());
        assert(is_digit(s[s.len() - 1]));
    }
}

/// Reads a number up to `limit`.
pub fn parse_number(text: &str, limit: u64) -> (r: Option<u64>)
    ensures
        r is Some <==> parsed_number(text@, limit as int) is Some,
        r matches Some(n) ==> parsed_number(text@, limit as int) == Some(n as int),
{
    let chars = chars_of(text);
    let n: usize = chars.len();
    let start: usize = if n > 0 && chars[0] == '+' {
        1
    } else {
        0
    };
    let ghost digits = unsigned(text@);
    if start >= n {
        return None;
    }
    let mut value: u64 = 0;
    let mut i: usize = start;
    proof {
        assert(digits.take(0) =~= Seq::<char>::empty());
    }
    while i < n
        invariant
            chars@ == text@,
            n == chars@.len(),
            start == 0 || start == 1,
            start <= i <= n,
            digits.len() == n - start,
            forall|j: int| 0 <= j < digits.len() ==> digits[j] == chars@[j + start],
            forall|j: int| 0 <= j < i - start ==> is_digit(#[trigger] digits[j]),
            value == number_of(digits.take(i - start)),
            value <= limit,
            digits == unsigned(text@),
        decreases n - i,
    {
        let c: char = chars[i];
        let ghost at = i - start;
        if !('0' <= c && c <= '9') {
            proof {
                assert(digits[at] == c);
            }
            return None;
        }
        let d: u64 = (c as u64) - ('0' as u64);
        proof {
            assert(digits.take(at + 1).drop_last() =~= digits.take(at));
            assert(number_of(digits.take(at + 1)) == value * 10 + d);
        }
        if d > limit || value > limit / 10 || value * 10 > limit - d {
            proof {
                if parsed_number(text@, limit as int) is Some {
                    number_grows(digits, at + 1);
                }
            }
            return None;
        }
        value = value * 10 + d;
        i = i + 1;
    }
    proof {
        assert(digits.take(digits.len() as int) =~= digits);
    }
    Some(value)
}

/// What the stored quota comes to at a time: how much of it is used, and when it starts anew.
pub open spec fn quota_at(db: DbModel, now: i64, next_reset_at: i64) -> Result<(int, int), DbError> {
    let reset = match db.state(QUOTA_RESET@) {
        Some(v) => match rfc3339_millis(v) {
            Some(at) => Ok(Some(at)),
            None => Err(DbError::BadQuotaReset),
        },
        None => Ok(None),
    };
    let used = match db.state(QUOTA_USED@) {
        Some(v) => match parsed_number(v, u32::MAX as int) {
            Some(n) => Ok(n),
            None => Err(DbError::BadQuotaUsed),
        },
        None => Ok(0),
    };
    match (reset, used) {
        (Err(e), _) => Err(e),
        (_, Err(e)) => Err(e),
        (Ok(Some(at)), Ok(n)) => if at > now {
            Ok((n, at))
        } else {
            Ok((0, next_reset_at as int))
        },
        (Ok(None), Ok(_)) => Ok((0, next_reset_at as int)),
    }
}

/// The use after so many units more, as far as it can be counted.
pub open spec fn quota_sum(used: int, units: u32) -> int {
    if used + units <= u32::MAX {
        used + units
    } else {
        u32::MAX as int
    }
}

/// How much is used after an attempt to use more: the units are added where the sum is within the
/// budget.
pub open spec fn quota_after(used: int, units: u32, budget: u32, exhaust: bool) -> int {
    if exhaust {
        budget as int
    } else if quota_sum(used, units) <= budget {
        quota_sum(used, units)
    } else {
        used
    }
}

impl Database {
    /// Uses units of the quota where they are within the budget.
    pub fn consume_discovery_quota(
        &mut self,
        units: u32,
        budget: u32,
        now: i64,
        next_reset_at: i64,
    ) -> (r: Result<DiscoveryQuota, DbError>)
        ensures
            quota_updated(old(self)@, final(self)@, r, units, budget, now, next_reset_at, false),
            r matches Ok(q) ==> quota_reads_back(final(self)@, q),
    {
        self.update_discovery_quota(units, budget, now, next_reset_at, false)
    }

    /// Marks the whole budget as used.
    pub fn exhaust_discovery_quota(&mut self, budget: u32, now: i64, next_reset_at: i64) -> (r: Result<
        DiscoveryQuota,
        DbError,
    >)
        ensures
            quota_updated(old(self)@, final(self)@, r, 0, budget, now, next_reset_at, true),
            r matches Ok(q) ==> quota_reads_back(final(self)@, q),
    {
        self.update_discovery_quota(0, budget, now, next_reset_at, true)
    }

    fn update_discovery_quota(
        &mut self,
        units: u32,
        budget: u32,
        now: i64,
        next_reset_at: i64,
        force_exhausted: bool,
    ) -> (r: Result<DiscoveryQuota, DbError>)
        ensures
            quota_updated(
                old(self)@,
                final(self)@,
                r,
                units,
                budget,
                now,
                next_reset_at,
                force_exhausted,
            ),
            r matches Ok(q) ==> quota_reads_back(final(self)@, q),
    {
        let stored_reset: Option<i64> = match self.get_discovery_state(QUOTA_RESET) {
            Some(value) => match parse_rfc3339(value.as_str()) {
                Some(at) => Some(at),
                None => {
                    return Err(DbError::BadQuotaReset);
                },
            },
            None => None,
        };
        let stored_used: u32 = match self.get_discovery_state(QUOTA_USED) {
            Some(value) => match parse_number(value.as_str(), u32::MAX as u64) {
                Some(n) => n as u32,
                None => {
                    return Err(DbError::BadQuotaUsed);
                },
            },
            None => 0,
        };
        let (base, reset_at): (u32, i64) = match stored_reset {
            Some(at) => if at > now {
                (stored_used, at)
            } else {
                (0, next_reset_at)
            },
            None => (0, next_reset_at),
        };
        let sum: u32 = base.saturating_add(units);
        let allowed = sum <= budget;
        let used: u32 = if force_exhausted {
            budget
        } else if allowed {
            sum
        } else {
            base
        };
        match format_timestamp(reset_at) {
            None => Err(DbError::OutOfCalendar),
            Some(text) => {
                let digits = decimal(used as u64);
                proof {
                    let first = self@.with_state(QUOTA_USED@, digits@);
                    set_then_get_state(self@, QUOTA_USED@, digits@);
                    set_then_get_state(first, QUOTA_RESET@, text@);
                    reveal_strlit("quota_used_today");
                    reveal_strlit("quota_reset_at");
                    assert(QUOTA_USED@.len() != QUOTA_RESET@.len());
                    assert(first.with_state(QUOTA_RESET@, text@).state(QUOTA_USED@) == first.state(
                        QUOTA_USED@,
                    ));
                    decimal_reads_back(used as nat, u32::MAX as int);
                }
                self.set_discovery_state(QUOTA_USED, digits.as_str());
                self.set_discovery_state(QUOTA_RESET, text.as_str());
                Ok(DiscoveryQuota { used, reset_at, allowed })
            },
        }
    }
}

/// Whether the quota that was stored is the one that is read the next time, where it ends by the
/// year 9999.
pub open spec fn quota_reads_back(db: DbModel, q: DiscoveryQuota) -> bool {
    0 <= q.reset_at <= YEAR_9999_END_MS ==> forall|now: i64, next_reset_at: i64|
        #[trigger] quota_at(db, now, next_reset_at) == if q.reset_at > now {
            Ok::<(int, int), DbError>((q.used as int, q.reset_at as int))
        } else {
            Ok::<(int, int), DbError>((0, next_reset_at as int))
        }
}

/// What an attempt to use the quota does: nothing where the stored values cannot be read or the
/// time cannot be written, and otherwise it stores the new use and the end of the period.
pub open spec fn quota_updated(
    before: DbModel,
    after: DbModel,
    r: Result<DiscoveryQuota, DbError>,
    units: u32,
    budget: u32,
    now: i64,
    next_reset_at: i64,
    exhaust: bool,
) -> bool {
    match quota_at(before, now, next_reset_at) {
        Err(e) => r == Err::<DiscoveryQuota, DbError>(e) && after == before,
        Ok((base, reset_at)) => match stamp_text(reset_at) {
            None => r == Err::<DiscoveryQuota, DbError>(DbError::OutOfCalendar) && after == before,
            Some(text) => {
                &&& r matches Ok(q)
                &&& q.reset_at == reset_at
                &&& q.allowed == (quota_sum(base, units) <= budget)
                &&& q.used == quota_after(base, units, budget, exhaust)
                &&& after == before.with_state(QUOTA_USED@, decimal_of(q.used as nat)).with_state(
                    QUOTA_RESET@,
                    text,
                )
            },
        },
    }
}

/// Within a period the use never falls, and where it was within the budget it stays there.
pub proof fn quota_stays_within_budget(
    before: DbModel,
    after: DbModel,
    r: Result<DiscoveryQuota, DbError>,
    units: u32,
    budget: u32,
    now: i64,
    next_reset_at: i64,
)
    requires
        quota_updated(before, after, r, units, budget, now, next_reset_at, false),
        quota_at(before, now, next_reset_at) is Ok,
        quota_at(before, now, next_reset_at)->Ok_0.0 <= budget,
    ensures
        r matches Ok(q) ==> quota_at(before, now, next_reset_at)->Ok_0.0 <= q.used <= budget,
        r matches Ok(q) ==> (q.allowed <==> q.used == quota_sum(
            quota_at(before, now, next_reset_at)->Ok_0.0,
            units,
        )),
{
    let (base, at) = quota_at(before, now, next_reset_at)->Ok_0;
    assert(base >= 0) by {
        match before.state(QUOTA_USED@) {
            Some(v) => {
                if all_digits(unsigned(v)) {
                    number_is_positive(unsigned(v));
                }
            },
            None => {},
        }
    }
}

/// A setting is found under its own key alone, and a removed one is gone while the others stay.
pub proof fn settings_are_found(db: DbModel, k: int, key: Seq<char>)
    requires
        db.wf(),
        0 <= k < db.settings.len(),
    ensures
        db.setting(db.settings[k].key) == Some(db.settings[k].value),
        db.setting(key) is None <==> forall|j: int|
            0 <= j < db.settings.len() ==> (#[trigger] db.settings[j]).key != key,
{
    let own = db.settings[k].key;
    let p = |r: SettingModel| r.key == own;
    assert(is_first(db.settings, p, k));
    place_is(db.settings, p, k);
    let q = |r: SettingModel| r.key == key;
    place_means(db.settings, q);
    assert(db.setting_at(key) == place(db.settings, q));
    if db.setting_at(key) is None {
        assert forall|j: int| 0 <= j < db.settings.len() implies (#[trigger] db.settings[j]).key
            != key by {
            assert(!q(db.settings[j]));
        }
    }
}

/// A deadline that is not set is always due; one that is set is due from its time on; one that
/// cannot be read is an error.
pub proof fn deadlines_are_due_from_their_time(value: Option<Seq<char>>, now: i64)
    ensures
        value is None ==> deadline_due(value, now) == Ok::<bool, DbError>(true),
        value is Some && rfc3339_millis(value->Some_0) is Some ==> deadline_due(value, now) == Ok::<
            bool,
            DbError,
        >(rfc3339_millis(value->Some_0)->Some_0 <= now),
        value is Some && rfc3339_millis(value->Some_0) is None ==> deadline_due(value, now) is Err,
{
}

/// What is asked of the quota is added where the budget allows it; what it does not allow is
/// refused and not added; a quota that is exhausted is at its budget.
pub proof fn quota_is_spent_within_the_budget(used: u32, units: u32, budget: u32)
    ensures
        used + units <= budget ==> quota_after(used as int, units, budget, false) == used + units,
        used + units > budget && used + units <= u32::MAX ==> quota_after(
            used as int,
            units,
            budget,
            false,
        ) == used,
        quota_after(used as int, units, budget, true) == budget,
        used + units <= u32::MAX ==> quota_sum(used as int, units) == used + units,
        used + units > u32::MAX ==> quota_sum(used as int, units) == u32::MAX,
{
}

/// A quota is counted until its reset and starts anew behind it.
pub proof fn quota_starts_anew_at_its_reset(db: DbModel, now: i64, next_reset_at: i64, at: int, used: int)
    requires
        db.state("quota_reset_at"@) is Some,
        rfc3339_millis(db.state("quota_reset_at"@)->Some_0) == Some(at),
        db.state("quota_used_today"@) is Some,
        parsed_number(db.state("quota_used_today"@)->Some_0, u32::MAX as int) == Some(used),
    ensures
        at > now ==> quota_at(db, now, next_reset_at) == Ok::<(int, int), DbError>((used, at)),
        at <= now ==> quota_at(db, now, next_reset_at) == Ok::<(int, int), DbError>(
            (0, next_reset_at as int),
        ),
{
}

/// A text of digits is the number that they spell: each further digit counts ten times what stood
/// before it.
pub proof fn digits_count_by_ten(s: Seq<char>, d: char)
    requires
        '0' <= d && d <= '9',
    ensures
        number_of(s.push(d)) == 10 * number_of(s) + (d as int - 48),
        number_of(Seq::<char>::empty()) == 0,
{
    assert(s.push(d).drop_last() =~= s);
}

/// What is asked of the quota is allowed where the day's use and it stay within the budget; the use
/// is then noted with its reset, and reads back.
pub proof fn quota_is_noted(
    before: DbModel,
    after: DbModel,
    r: Result<DiscoveryQuota, DbError>,
    units: u32,
    budget: u32,
    now: i64,
    next_reset_at: i64,
    base: int,
    reset_at: int,
)
    requires
        quota_updated(before, after, r, units, budget, now, next_reset_at, false),
        quota_at(before, now, next_reset_at) == Ok::<(int, int), DbError>((base, reset_at)),
        0 <= base,
        base + units <= u32::MAX,
        stamp_text(reset_at) is Some,
    ensures
        r is Ok,
        r->Ok_0.allowed <==> base + units <= budget,
        r->Ok_0.used == if base + units <= budget { base + units } else { base },
        r->Ok_0.reset_at == reset_at,
        after.state("quota_reset_at"@) == stamp_text(reset_at),
        after.jobs == before.jobs && after.settings == before.settings,
{
    let q = r->Ok_0;
    let noted = before.with_state("quota_used_today"@, decimal_of(q.used as nat));
    set_then_get_state(noted, "quota_reset_at"@, stamp_text(reset_at)->Some_0);
}

} // verus!
