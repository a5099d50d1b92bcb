//! The channels that are watched: adding them, when each is polled next, and their subscriptions.
use vstd::prelude::*;

use crate::fault::{refused, DbError};
use crate::model::{ChannelPriority, TransferMode};
use crate::order::{arrange, arranged, key_less, places, Key};
use crate::queue::str_view;
use crate::settings::{all_digits, is_digit, number_of, parse_number, parsed_number};
use crate::store::{
    channel_update_keeps_wf, channels_and_candidates_are_found, is_first, place, place_is,
    place_is_none, place_means, same_place, Channel, ChannelModel, ChannelRow, ChannelRowModel,
    Database, DbModel, RowModel,
};
use crate::text::{chars_of, copy_optional, opt_view, own_optional, same_optional, string_of};

verus! {

/// What a subscription needs of a channel. It is not shown in logs, so that the secret is not.
pub struct WebSubChannel {
    pub id: i64,
    pub youtube_channel_id: String,
    pub name: String,
    pub enabled: bool,
    pub lease_expires_at: Option<i64>,
    pub secret: Option<String>,
    pub callback_path: Option<String>,
    pub last_received_at: Option<i64>,
}

/// Whether a subscription is that of a row.
pub open spec fn subscribes(w: WebSubChannel, row: ChannelRowModel) -> bool {
    &&& w.id == row.channel.id
    &&& w.youtube_channel_id@ == row.channel.youtube_channel_id
    &&& w.name@ == row.channel.name
    &&& w.enabled == row.channel.enabled
    &&& w.lease_expires_at == row.channel.websub_lease_expires_at
    &&& opt_view(w.secret) == row.websub_secret
    &&& opt_view(w.callback_path) == row.websub_callback_path
    &&& w.last_received_at == row.channel.websub_last_received_at
}

impl ChannelRow {
    fn subscription(&self) -> (r: WebSubChannel)
        ensures
            subscribes(r, self@),
    {
        WebSubChannel {
            id: self.channel.id,
            youtube_channel_id: self.channel.youtube_channel_id.clone(),
            name: self.channel.name.clone(),
            enabled: self.channel.enabled,
            lease_expires_at: self.channel.websub_lease_expires_at,
            secret: copy_optional(&self.websub_secret),
            callback_path: copy_optional(&self.websub_callback_path),
            last_received_at: self.channel.websub_last_received_at,
        }
    }
}

/// The row of a new channel.
pub open spec fn new_channel(
    id: i64,
    youtube_id: Seq<char>,
    name: Seq<char>,
    url: Seq<char>,
    feed_url: Seq<char>,
    mode: TransferMode,
    now: i64,
) -> ChannelRowModel {
    ChannelRowModel {
        channel: ChannelModel {
            id,
            youtube_channel_id: youtube_id,
            name,
            url,
            enabled: true,
            transfer_mode: mode,
            priority: ChannelPriority::Normal,
            last_checked_at: None,
            last_error: None,
            next_poll_at: None,
            consecutive_failures: 0,
            uploads_playlist_id: None,
            next_data_api_poll_at: None,
            data_api_etag: None,
            websub_lease_expires_at: None,
            websub_last_received_at: None,
        },
        feed_url,
        baseline_at: Some(now),
        last_reconcile_at: None,
        created_at: now,
        websub_secret: None,
        websub_callback_path: None,
    }
}

/// What a write to a channel gives: the row that `row` makes of it, or an error where there is none.
pub open spec fn channel_write(
    before: DbModel,
    after: DbModel,
    r: Result<(), DbError>,
    at: Option<int>,
    missing: DbError,
    row: spec_fn(ChannelRowModel) -> ChannelRowModel,
) -> bool {
    match at {
        Some(k) => r is Ok && after == before.with_channel(k, row(before.channels[k])),
        None => r == refused::<()>(missing) && after == before,
    }
}

/// What a write to a channel gives that does nothing where there is none.
pub open spec fn quiet_channel_write(
    before: DbModel,
    after: DbModel,
    at: Option<int>,
    row: spec_fn(ChannelRowModel) -> ChannelRowModel,
) -> bool {
    match at {
        Some(k) => after == before.with_channel(k, row(before.channels[k])),
        None => after == before,
    }
}

proof fn channel_step(before: DbModel, after: DbModel, k: int)
    requires
        0 <= k < before.channels.len(),
        after == before.with_channel(k, after.channels[k]),
        after.channels[k].channel.id == before.channels[k].channel.id,
        after.channels[k].channel.youtube_channel_id
            == before.channels[k].channel.youtube_channel_id,
    ensures
        before.wf() ==> after.wf(),
{
    if before.wf() {
        channel_update_keeps_wf(before, k, after.channels[k]);
    }
}

/// What adding a channel does. A channel that is there gets the new name and addresses; its past
/// stays.
pub open spec fn channel_added(
    db: DbModel,
    youtube_id: Seq<char>,
    name: Seq<char>,
    url: Seq<char>,
    feed_url: Seq<char>,
    mode: TransferMode,
    now: i64,
) -> Result<(DbModel, i64), DbError> {
    match db.youtube_channel_at(youtube_id) {
        Some(k) => {
            let row = db.channels[k];
            Ok(
                (
                    db.with_channel(
                        k,
                        ChannelRowModel {
                            channel: ChannelModel { name, url, transfer_mode: mode, ..row.channel },
                            feed_url,
                            ..row
                        },
                    ),
                    row.channel.id,
                ),
            )
        },
        None => if db.channel_seq == i64::MAX {
            Err(DbError::Full)
        } else {
            let id = (db.channel_seq + 1) as i64;
            Ok(
                (
                    DbModel {
                        channels: db.channels.push(
                            new_channel(id, youtube_id, name, url, feed_url, mode, now),
                        ),
                        channel_seq: id,
                        ..db
                    },
                    id,
                ),
            )
        },
    }
}

/// Which channels are asked for.
#[derive(Debug, Clone, Copy, PartialEq, Eq, Structural)]
pub enum Due {
    /// All.
    Every,
    /// Those whose feed is due, preferred ones first.
    Feed,
    /// Those of a priority whose feed is due.
    FeedOf(ChannelPriority),
    /// Those that are due for a question to the API, preferred ones first.
    DataApi,
    /// Those whose subscription ends by that time or is missing.
    Lease,
}

/// What a time that is not there or has come is ordered by: first those without, then the earlier
/// ones, then the smaller number.
pub open spec fn time_key(rank: i64, at: Option<i64>, id: i64) -> Key {
    match at {
        None => ((rank * 2) as i64, 0, id),
        Some(t) => ((rank * 2 + 1) as i64, t, id),
    }
}

/// Whether a time is not there or has come.
pub open spec fn time_due(at: Option<i64>, now: i64) -> bool {
    at matches Some(t) ==> t <= now
}

/// Preferred channels come first.
pub open spec fn rank(p: ChannelPriority) -> i64 {
    if p == ChannelPriority::Priority {
        0
    } else {
        1
    }
}

impl ChannelRowModel {
    /// What the channel is ordered by among those that are asked for; nothing where it is not.
    pub open spec fn due_key(self, due: Due, now: i64) -> Option<Key> {
        let c = self.channel;
        match due {
            Due::Every => Some((0, 0, c.id)),
            Due::Feed => if c.enabled && time_due(c.next_poll_at, now) {
                Some(time_key(rank(c.priority), c.next_poll_at, c.id))
            } else {
                None
            },
            Due::FeedOf(p) => if c.enabled && c.priority == p && time_due(c.next_poll_at, now) {
                Some(time_key(0, c.next_poll_at, c.id))
            } else {
                None
            },
            Due::DataApi => if c.enabled && time_due(c.next_data_api_poll_at, now) {
                Some(time_key(rank(c.priority), c.next_data_api_poll_at, c.id))
            } else {
                None
            },
            Due::Lease => if c.enabled && time_due(c.websub_lease_expires_at, now) {
                Some((0, 0, c.id))
            } else {
                None
            },
        }
    }
}

fn key_of_time(rank: i64, at: Option<i64>, id: i64) -> (r: Key)
    requires
        0 <= rank <= 1,
    ensures
        r == time_key(rank, at, id),
{
    match at {
        None => (rank * 2, 0, id),
        Some(t) => (rank * 2 + 1, t, id),
    }
}

fn is_time_due(at: Option<i64>, now: i64) -> (r: bool)
    ensures
        r == time_due(at, now),
{
    match at {
        None => true,
        Some(t) => t <= now,
    }
}

fn rank_of(p: ChannelPriority) -> (r: i64)
    ensures
        r == rank(p),
        0 <= r <= 1,
{
    match p {
        ChannelPriority::Priority => 0,
        ChannelPriority::Normal => 1,
    }
}

impl ChannelRow {
    fn due_key(&self, due: Due, now: i64) -> (r: Option<Key>)
        ensures
            r == self@.due_key(due, now),
    {
        let c = &self.channel;
        match due {
            Due::Every => Some((0, 0, c.id)),
            Due::Feed => if c.enabled && is_time_due(c.next_poll_at, now) {
                Some(key_of_time(rank_of(c.priority), c.next_poll_at, c.id))
            } else {
                None
            },
            Due::FeedOf(p) => if c.enabled && c.priority == p && is_time_due(c.next_poll_at, now) {
                Some(key_of_time(0, c.next_poll_at, c.id))
            } else {
                None
            },
            Due::DataApi => if c.enabled && is_time_due(c.next_data_api_poll_at, now) {
                Some(key_of_time(rank_of(c.priority), c.next_data_api_poll_at, c.id))
            } else {
                None
            },
            Due::Lease => if c.enabled && is_time_due(c.websub_lease_expires_at, now) {
                Some((0, 0, c.id))
            } else {
                None
            },
        }
    }
}

/// The keys of the channels that are asked for.
pub open spec fn due_keys(db: DbModel, due: Due, now: i64) -> Seq<Option<Key>> {
    db.channels.map_values(|r: ChannelRowModel| r.due_key(due, now))
}

/// The channels as they are seen from outside.
pub open spec fn channel_views(v: Seq<Channel>) -> Seq<ChannelModel> {
    v.map_values(|c: Channel| c@)
}

/// Whether a list holds the channels that are asked for, in their order.
pub open spec fn lists_due(v: Seq<Channel>, db: DbModel, due: Due, now: i64) -> bool {
    exists|order: Seq<int>|
        #![trigger arranged(due_keys(db, due, now), order)]
        arranged(due_keys(db, due, now), order) && channel_views(v) == order.map_values(
            |k: int| db.channels[k].channel,
        )
}

/// Whether a list holds the subscriptions of the channels that are asked for, in their order.
pub open spec fn lists_subscriptions(v: Seq<WebSubChannel>, db: DbModel, due: Due, now: i64) -> bool {
    exists|order: Seq<int>|
        #![trigger arranged(due_keys(db, due, now), order)]
        arranged(due_keys(db, due, now), order) && v.len() == order.len() && forall|i: int|
            0 <= i < v.len() ==> subscribes(#[trigger] v[i], db.channels[order[i]])
}

/// The number that a text spells, with a sign or none.
pub open spec fn parsed_int(s: Seq<char>) -> Option<int> {
    if s.len() > 0 && s[0] == '-' {
        if all_digits(s.skip(1)) && number_of(s.skip(1)) <= -(i64::MIN as int) {
            Some(-number_of(s.skip(1)))
        } else {
            None
        }
    } else {
        parsed_number(s, i64::MAX as int)
    }
}

fn parse_int(text: &str) -> (r: Option<i64>)
    ensures
        r is Some <==> parsed_int(text@) is Some,
        r matches Some(n) ==> parsed_int(text@) == Some(n as int),
{
    let chars = chars_of(text);
    let n: usize = chars.len();
    if n > 0 && chars[0] == '-' {
        let digits = string_of(&chars, 1, n);
        proof {
            assert(digits@ =~= text@.skip(1));
        }
        if n > 1 && chars[1] == '+' {
            proof {
                assert(digits@[0] == '+');
                assert(!is_digit(digits@[0]));
            }
            return None;
        }
        match parse_number(digits.as_str(), 0x8000_0000_0000_0000) {
            Some(m) => Some((-(m as i128)) as i64),
            None => None,
        }
    } else {
        match parse_number(text, i64::MAX as u64) {
            Some(m) => Some(m as i64),
            None => None,
        }
    }
}

impl DbModel {
    /// The channel that is meant: that of a number, or else that of a name on YouTube.
    pub open spec fn meant_channel(self, identifier: Seq<char>) -> Option<int> {
        match parsed_int(identifier) {
            Some(id) => self.channel_at(id as i64),
            None => self.youtube_channel_at(identifier),
        }
    }

    /// Where the channel stands that is on and has that callback.
    pub open spec fn callback_at(self, path: Seq<char>) -> Option<int> {
        place(
            self.channels,
            |r: ChannelRowModel| r.channel.enabled && r.websub_callback_path == Some(path),
        )
    }

    /// Whether another channel than the one at `k` has that callback.
    pub open spec fn callback_taken(self, k: int, path: Seq<char>) -> bool {
        exists|j: int|
            0 <= j < self.channels.len() && j != k && (
            #[trigger] self.channels[j]).websub_callback_path == Some(path)
    }
}

/// The keys of the jobs of a channel whose publication is known, the earliest first.
pub open spec fn publication_keys(db: DbModel, channel_id: i64) -> Seq<Option<Key>> {
    db.jobs.map_values(
        |r: RowModel|
            if r.job.channel_id == Some(channel_id) && r.job.published_at is Some {
                Some((r.job.published_at->Some_0, 0i64, 0i64))
            } else {
                None
            },
    )
}

impl Database {
    /// Adds a channel, or gives one that is there a new name and addresses. Tells its number.
    pub fn add_channel(
        &mut self,
        channel_id: &str,
        name: &str,
        url: &str,
        feed_url: &str,
        transfer_mode: TransferMode,
        now: i64,
    ) -> (r: Result<i64, DbError>)
        ensures
            match channel_added(
                old(self)@,
                channel_id@,
                name@,
                url@,
                feed_url@,
                transfer_mode,
                now,
            ) {
                Err(e) => r == refused::<i64>(e) && final(self)@ == old(self)@,
                Ok((after, id)) => r == Ok::<i64, DbError>(id) && final(self)@ == after,
            },
            old(self)@.wf() ==> final(self)@.wf(),
    {
        match self.find_youtube_channel(channel_id) {
            Some(k) => {
                let ghost before = self@;
                self.channels[k].channel.name = name.to_owned();
                self.channels[k].channel.url = url.to_owned();
                self.channels[k].channel.transfer_mode = transfer_mode;
                self.channels[k].feed_url = feed_url.to_owned();
                proof {
                    assert(self@ =~= before.with_channel(k as int, self@.channels[k as int]));
                    channel_step(before, self@, k as int);
                }
                Ok(self.channels[k].channel.id)
            },
            None => {
                if self.channel_seq == i64::MAX {
                    return Err(DbError::Full);
                }
                let ghost before = self@;
                let id: i64 = self.channel_seq + 1;
                self.channel_seq = id;
                self.channels.push(
                    ChannelRow {
                        channel: Channel {
                            id,
                            youtube_channel_id: channel_id.to_owned(),
                            name: name.to_owned(),
                            url: url.to_owned(),
                            enabled: true,
                            transfer_mode,
                            priority: ChannelPriority::Normal,
                            last_checked_at: None,
                            last_error: None,
                            next_poll_at: None,
                            consecutive_failures: 0,
                            uploads_playlist_id: None,
                            next_data_api_poll_at: None,
                            data_api_etag: None,
                            websub_lease_expires_at: None,
                            websub_last_received_at: None,
                        },
                        feed_url: feed_url.to_owned(),
                        baseline_at: Some(now),
                        last_reconcile_at: None,
                        created_at: now,
                        websub_secret: None,
                        websub_callback_path: None,
                    },
                );
                proof {
                    let p = |r: ChannelRowModel| r.channel.youtube_channel_id == channel_id@;
                    place_means(before.channels, p);
                    if before.wf() {
                        let after = self@.channels;
                        assert forall|i: int, j: int| 0 <= i < j < after.len() implies {
                            &&& (#[trigger] after[i]).channel.id != (#[trigger] after[j]).channel.id
                            &&& after[i].channel.youtube_channel_id
                                != after[j].channel.youtube_channel_id
                        } by {
                            let a = before.channels[i];
                            assert(after[i] == a);
                            if j < before.channels.len() {
                                let b = before.channels[j];
                                assert(after[j] == b);
                            } else {
                                assert(!p(before.channels[i]));
                            }
                        }
                        assert forall|i: int| 0 <= i < after.len() implies (
                        #[trigger] after[i]).channel.id <= id by {
                            if i < before.channels.len() {
                                let a = before.channels[i];
                                assert(after[i] == a);
                            }
                        }
                    }
                }
                Ok(id)
            },
        }
    }

    fn list_due(&self, due: Due, now: i64) -> (r: Vec<usize>)
        ensures
            arranged(due_keys(self@, due, now), places(r@)),
            forall|i: int| 0 <= i < r@.len() ==> (#[trigger] r@[i]) < self.channels@.len(),
    {
        let mut keys: Vec<Option<Key>> = Vec::new();
        let mut i: usize = 0;
        while i < self.channels.len()
            invariant
                0 <= i <= self.channels@.len(),
                keys@.len() == i,
                forall|j: int| 0 <= j < i ==> keys@[j] == due_keys(self@, due, now)[j],
            decreases self.channels@.len() - i,
        {
            keys.push(self.channels[i].due_key(due, now));
            i = i + 1;
        }
        proof {
            assert(keys@ =~= due_keys(self@, due, now));
        }
        arrange(&keys)
    }

    fn channels_due(&self, due: Due, now: i64) -> (r: Vec<Channel>)
        ensures
            lists_due(r@, self@, due, now),
    {
        let order = self.list_due(due, now);
        let ghost want = places(order@).map_values(|k: int| self@.channels[k].channel);
        let mut out: Vec<Channel> = Vec::new();
        let mut i: usize = 0;
        while i < order.len()
            invariant
                want == places(order@).map_values(|k: int| self@.channels[k].channel),
                forall|j: int|
                    0 <= j < order@.len() ==> (#[trigger] order@[j]) < self.channels@.len(),
                0 <= i <= order@.len(),
                channel_views(out@) == want.take(i as int),
            decreases order@.len() - i,
        {
            let ghost before = out@;
            out.push(self.channels[order[i]].channel.copied());
            proof {
                let k = order@[i as int] as int;
                assert(want[i as int] == self@.channels[k].channel);
                assert(self@.channels[k] == self.channels@[k]@);
                assert(channel_views(out@) =~= channel_views(before).push(want[i as int]));
                assert(channel_views(out@) =~= want.take(i + 1));
            }
            i = i + 1;
        }
        proof {
            assert(want.take(want.len() as int) =~= want);
        }
        out
    }

    fn subscriptions_due(&self, due: Due, now: i64) -> (r: Vec<WebSubChannel>)
        ensures
            lists_subscriptions(r@, self@, due, now),
    {
        let order = self.list_due(due, now);
        let ghost want = places(order@);
        let mut out: Vec<WebSubChannel> = Vec::new();
        let mut i: usize = 0;
        while i < order.len()
            invariant
                want == places(order@),
                forall|j: int|
                    0 <= j < order@.len() ==> (#[trigger] order@[j]) < self.channels@.len(),
                0 <= i <= order@.len(),
                out@.len() == i,
                forall|j: int|
                    0 <= j < i ==> subscribes(#[trigger] out@[j], self@.channels[want[j]]),
            decreases order@.len() - i,
        {
            out.push(self.channels[order[i]].subscription());
            i = i + 1;
        }
        out
    }

    /// All channels in the order of their numbers.
    pub fn list_channels(&self) -> (r: Vec<Channel>)
        ensures
            lists_due(r@, self@, Due::Every, 0),
    {
        self.channels_due(Due::Every, 0)
    }

    /// The channels that are on and whose feed is due: preferred ones first, then those that wait
    /// longest.
    pub fn list_due_channels(&self, now: i64) -> (r: Vec<Channel>)
        ensures
            lists_due(r@, self@, Due::Feed, now),
    {
        self.channels_due(Due::Feed, now)
    }

    /// The preferred channels that are on and whose feed is due.
    pub fn list_due_priority_channels(&self, now: i64) -> (r: Vec<Channel>)
        ensures
            lists_due(r@, self@, Due::FeedOf(ChannelPriority::Priority), now),
    {
        self.channels_due(Due::FeedOf(ChannelPriority::Priority), now)
    }

    /// The other channels that are on and whose feed is due.
    pub fn list_due_normal_channels(&self, now: i64) -> (r: Vec<Channel>)
        ensures
            lists_due(r@, self@, Due::FeedOf(ChannelPriority::Normal), now),
    {
        self.channels_due(Due::FeedOf(ChannelPriority::Normal), now)
    }

    /// The channels that are on and due for a question to the API.
    pub fn list_due_data_api_channels(&self, now: i64) -> (r: Vec<Channel>)
        ensures
            lists_due(r@, self@, Due::DataApi, now),
    {
        self.channels_due(Due::DataApi, now)
    }

    /// The subscriptions of channels that are on which end by a time or are missing.
    pub fn due_websub_channels(&self, renew_before: i64) -> (r: Vec<WebSubChannel>)
        ensures
            lists_subscriptions(r@, self@, Due::Lease, renew_before),
    {
        self.subscriptions_due(Due::Lease, renew_before)
    }

    /// The subscriptions of all channels.
    pub fn list_websub_channels(&self) -> (r: Vec<WebSubChannel>)
        ensures
            lists_subscriptions(r@, self@, Due::Every, 0),
    {
        self.subscriptions_due(Due::Every, 0)
    }

    /// A channel by its number.
    pub fn channel(&self, id: i64) -> (r: Result<Channel, DbError>)
        ensures
            match self@.channel_at(id) {
                Some(k) => r matches Ok(c) && c@ == self@.channels[k].channel,
                None => r matches Err(e) && e == DbError::NoRow,
            },
    {
        match self.find_channel(id) {
            Some(k) => Ok(self.channels[k].channel.copied()),
            None => Err(DbError::NoRow),
        }
    }

    /// The address of a channel's feed.
    pub fn channel_feed(&self, id: i64) -> (r: Result<String, DbError>)
        ensures
            match self@.channel_at(id) {
                Some(k) => r matches Ok(s) && s@ == self@.channels[k].feed_url,
                None => r matches Err(e) && e == DbError::NoRow,
            },
    {
        match self.find_channel(id) {
            Some(k) => Ok(self.channels[k].feed_url.clone()),
            None => Err(DbError::NoRow),
        }
    }

    /// The address of a channel.
    pub fn channel_url(&self, id: i64) -> (r: Result<String, DbError>)
        ensures
            match self@.channel_at(id) {
                Some(k) => r matches Ok(s) && s@ == self@.channels[k].channel.url,
                None => r matches Err(e) && e == DbError::NoRow,
            },
    {
        match self.find_channel(id) {
            Some(k) => Ok(self.channels[k].channel.url.clone()),
            None => Err(DbError::NoRow),
        }
    }

    /// How the videos of a channel are carried over.
    pub fn channel_transfer_mode(&self, id: i64) -> (r: Result<TransferMode, DbError>)
        ensures
            r == match self@.channel_at(id) {
                Some(k) => Ok(self@.channels[k].channel.transfer_mode),
                None => refused::<TransferMode>(DbError::NoRow),
            },
    {
        match self.find_channel(id) {
            Some(k) => Ok(self.channels[k].channel.transfer_mode),
            None => Err(DbError::NoRow),
        }
    }

    /// Up to when the videos of a channel are history.
    pub fn channel_baseline(&self, id: i64) -> (r: Result<Option<i64>, DbError>)
        ensures
            r == match self@.channel_at(id) {
                Some(k) => Ok(self@.channels[k].baseline_at),
                None => refused::<Option<i64>>(DbError::NoRow),
            },
    {
        match self.find_channel(id) {
            Some(k) => Ok(self.channels[k].baseline_at),
            None => Err(DbError::NoRow),
        }
    }

    /// How often the feed of a channel failed in a row.
    pub fn channel_consecutive_failures(&self, id: i64) -> (r: Result<u32, DbError>)
        ensures
            r == match self@.channel_at(id) {
                Some(k) => Ok(self@.channels[k].channel.consecutive_failures),
                None => refused::<u32>(DbError::NoRow),
            },
    {
        match self.find_channel(id) {
            Some(k) => Ok(self.channels[k].channel.consecutive_failures),
            None => Err(DbError::NoRow),
        }
    }

    /// When the jobs of a channel were published, the earliest first.
    pub fn channel_publication_history(&self, id: i64) -> (r: Vec<i64>)
        ensures
            exists|order: Seq<int>|
                #![trigger arranged(publication_keys(self@, id), order)]
                arranged(publication_keys(self@, id), order) && r@ == order.map_values(
                    |k: int| self@.jobs[k].job.published_at->Some_0,
                ),
    {
        let mut keys: Vec<Option<Key>> = Vec::new();
        let mut i: usize = 0;
        while i < self.jobs.len()
            invariant
                0 <= i <= self.jobs@.len(),
                keys@.len() == i,
                forall|j: int| 0 <= j < i ==> keys@[j] == publication_keys(self@, id)[j],
            decreases self.jobs@.len() - i,
        {
            let ours = match self.jobs[i].job.channel_id {
                Some(c) => c == id,
                None => false,
            };
            match self.jobs[i].job.published_at {
                Some(t) => {
                    if ours {
                        keys.push(Some((t, 0, 0)));
                    } else {
                        keys.push(None);
                    }
                },
                None => {
                    keys.push(None);
                },
            }
            i = i + 1;
        }
        proof {
            assert(keys@ =~= publication_keys(self@, id));
        }
        let order = arrange(&keys);
        let ghost want = places(order@).map_values(
            |k: int| self@.jobs[k].job.published_at->Some_0,
        );
        let mut out: Vec<i64> = Vec::new();
        let mut i: usize = 0;
        while i < order.len()
            invariant
                keys@ == publication_keys(self@, id),
                keys@.len() == self.jobs@.len(),
                arranged(keys@, places(order@)),
                want == places(order@).map_values(|k: int| self@.jobs[k].job.published_at->Some_0),
                forall|j: int| 0 <= j < order@.len() ==> (#[trigger] order@[j]) < keys@.len(),
                0 <= i <= order@.len(),
                out@ == want.take(i as int),
            decreases order@.len() - i,
        {
            let ghost before = out@;
            proof {
                assert(places(order@)[i as int] == order@[i as int]);
                assert(keys@[order@[i as int] as int] is Some);
            }
            match keys[order[i]] {
                Some(key) => {
                    out.push(key.0);
                },
                None => {},
            }
            proof {
                assert(want[i as int] == self@.jobs[order@[i as int] as int].job.published_at->Some_0);
                assert(out@ =~= before.push(want[i as int]));
                assert(out@ =~= want.take(i + 1));
            }
            i = i + 1;
        }
        proof {
            assert(want.take(want.len() as int) =~= want);
        }
        out
    }

    /// Whether a channel without a list of uploads was added after a time.
    pub fn has_missing_uploads_playlist_created_after(&self, refreshed_at: i64) -> (r: bool)
        ensures
            r == exists|k: int|
                0 <= k < self@.channels.len() && (
                #[trigger] self@.channels[k]).channel.uploads_playlist_id is None
                    && self@.channels[k].created_at > refreshed_at,
    {
        let mut i: usize = 0;
        while i < self.channels.len()
            invariant
                0 <= i <= self.channels@.len(),
                forall|k: int|
                    0 <= k < i ==> !((#[trigger] self@.channels[k]).channel.uploads_playlist_id is None
                        && self@.channels[k].created_at > refreshed_at),
            decreases self.channels@.len() - i,
        {
            if self.channels[i].channel.uploads_playlist_id.is_none() && self.channels[i].created_at
                > refreshed_at {
                proof {
                    let row = self@.channels[i as int];
                    assert(row.channel.uploads_playlist_id is None);
                }
                return true;
            }
            i = i + 1;
        }
        false
    }

    /// The subscription of the channel that is meant by a number or a name on YouTube.
    pub fn websub_channel(&self, identifier: &str) -> (r: Option<WebSubChannel>)
        ensures
            match self@.meant_channel(identifier@) {
                Some(k) => r matches Some(w) && subscribes(w, self@.channels[k]),
                None => r is None,
            },
    {
        let at: Option<usize> = match parse_int(identifier) {
            Some(id) => self.find_channel(id),
            None => self.find_youtube_channel(identifier),
        };
        match at {
            Some(k) => Some(self.channels[k].subscription()),
            None => None,
        }
    }

    fn find_callback(&self, path: &str) -> (r: Option<usize>)
        ensures
            same_place(r, self@.callback_at(path@), self.channels@.len() as int),
    {
        let ghost p = |r: ChannelRowModel|
            r.channel.enabled && r.websub_callback_path == Some(path@);
        let ghost rows = self@.channels;
        let mut i: usize = 0;
        while i < self.channels.len()
            invariant
                rows == self@.channels,
                rows.len() == self.channels@.len(),
                p == (|r: ChannelRowModel|
                    r.channel.enabled && r.websub_callback_path == Some(path@)),
                0 <= i <= rows.len(),
                forall|j: int| 0 <= j < i ==> !p(#[trigger] rows[j]),
            decreases self.channels@.len() - i,
        {
            proof {
                assert(rows[i as int] == self.channels@[i as int]@);
            }
            if self.channels[i].channel.enabled && same_optional(
                &self.channels[i].websub_callback_path,
                path,
            ) {
                proof {
                    assert(is_first(rows, p, i as int));
                    place_is(rows, p, i as int);
                }
                return Some(i);
            }
            i = i + 1;
        }
        proof {
            place_is_none(rows, p);
        }
        None
    }

    fn is_callback_taken(&self, k: usize, path: &str) -> (r: bool)
        ensures
            r == self@.callback_taken(k as int, path@),
    {
        let mut i: usize = 0;
        while i < self.channels.len()
            invariant
                0 <= i <= self.channels@.len(),
                forall|j: int|
                    0 <= j < i && j != k ==> (#[trigger] self@.channels[j]).websub_callback_path
                        != Some(path@),
            decreases self.channels@.len() - i,
        {
            if i != k && same_optional(&self.channels[i].websub_callback_path, path) {
                proof {
                    assert(self@.channels[i as int].websub_callback_path == Some(path@));
                }
                return true;
            }
            i = i + 1;
        }
        false
    }

    /// The subscription of the channel that is on and has a callback.
    pub fn websub_channel_by_callback(&self, callback_path: &str) -> (r: Option<WebSubChannel>)
        ensures
            match self@.callback_at(callback_path@) {
                Some(k) => r matches Some(w) && subscribes(w, self@.channels[k]),
                None => r is None,
            },
    {
        match self.find_callback(callback_path) {
            Some(k) => Some(self.channels[k].subscription()),
            None => None,
        }
    }

    /// Gives a channel a callback and a secret where it has none, and tells those it has. Two
    /// channels cannot have the same callback.
    pub fn ensure_websub_credentials(&mut self, id: i64, callback_path: &str, secret: &str) -> (r: Result<
        WebSubChannel,
        DbError,
    >)
        ensures
            match old(self)@.channel_at(id) {
                None => (r matches Err(e) && e == DbError::NoChannel) && final(self)@ == old(self)@,
                Some(k) => {
                    let row = old(self)@.channels[k];
                    if row.websub_callback_path is None && old(self)@.callback_taken(
                        k,
                        callback_path@,
                    ) {
                        (r matches Err(e) && e == DbError::DuplicateId) && final(self)@ == old(self)@
                    } else {
                        let after = ChannelRowModel {
                            websub_callback_path: if row.websub_callback_path is Some {
                                row.websub_callback_path
                            } else {
                                Some(callback_path@)
                            },
                            websub_secret: if row.websub_secret is Some {
                                row.websub_secret
                            } else {
                                Some(secret@)
                            },
                            ..row
                        };
                        (r matches Ok(w) && subscribes(w, after)) && final(self)@ == old(
                            self)@.with_channel(k, after)
                    }
                },
            },
            old(self)@.wf() ==> final(self)@.wf(),
    {
        match self.find_channel(id) {
            None => Err(DbError::NoChannel),
            Some(k) => {
                if self.channels[k].websub_callback_path.is_none() && self.is_callback_taken(
                    k,
                    callback_path,
                ) {
                    return Err(DbError::DuplicateId);
                }
                let ghost before = self@;
                if self.channels[k].websub_callback_path.is_none() {
                    self.channels[k].websub_callback_path = Some(callback_path.to_owned());
                }
                if self.channels[k].websub_secret.is_none() {
                    self.channels[k].websub_secret = Some(secret.to_owned());
                }
                proof {
                    assert(self@ =~= before.with_channel(k as int, self@.channels[k as int]));
                    channel_step(before, self@, k as int);
                }
                Ok(self.channels[k].subscription())
            },
        }
    }

    /// Sets when a channel is next asked for at the API, and the tag of the last answer if there is one.
    pub fn schedule_data_api_poll(&mut self, id: i64, next_poll_at: i64, etag: Option<&str>) -> (r: Result<(), DbError>)
        ensures
            channel_write(
                old(self)@,
                final(self)@,
                r,
                old(self)@.channel_at(id),
                DbError::NoChannel,
                |row: ChannelRowModel|
                    ChannelRowModel {
                        channel: ChannelModel {
                            next_data_api_poll_at: Some(next_poll_at),
                            data_api_etag: if etag is Some {
                                str_view(etag)
                            } else {
                                row.channel.data_api_etag
                            },
                            ..row.channel
                        },
                        ..row
                    },
            ),
            old(self)@.wf() ==> final(self)@.wf(),
    {
        match self.find_channel(id) {
            None => Err(DbError::NoChannel),
            Some(k) => {
                let ghost before = self@;
                self.channels[k].channel.next_data_api_poll_at = Some(next_poll_at);
                match etag {
                    Some(tag) => {
                        self.channels[k].channel.data_api_etag = Some(tag.to_owned());
                    },
                    None => {},
                }
                proof {
                    assert(self@ =~= before.with_channel(k as int, self@.channels[k as int]));
                    channel_step(before, self@, k as int);
                }
                Ok(())
            },
        }
    }

    /// Keeps the tag of the last answer of the API.
    pub fn set_channel_data_api_etag(&mut self, id: i64, etag: &str) -> (r: Result<(), DbError>)
        ensures
            channel_write(
                old(self)@,
                final(self)@,
                r,
                old(self)@.channel_at(id),
                DbError::NoChannel,
                |row: ChannelRowModel|
                    ChannelRowModel {
                        channel: ChannelModel { data_api_etag: Some(etag@), ..row.channel },
                        ..row
                    },
            ),
            old(self)@.wf() ==> final(self)@.wf(),
    {
        match self.find_channel(id) {
            None => Err(DbError::NoChannel),
            Some(k) => {
                let ghost before = self@;
                self.channels[k].channel.data_api_etag = Some(etag.to_owned());
                proof {
                    assert(self@ =~= before.with_channel(k as int, self@.channels[k as int]));
                    channel_step(before, self@, k as int);
                }
                Ok(())
            },
        }
    }

    /// Notes the list of uploads of a channel.
    pub fn set_channel_uploads_playlist(&mut self, youtube_channel_id: &str, uploads_playlist_id: &str) -> (r: Result<(), DbError>)
        ensures
            channel_write(
                old(self)@,
                final(self)@,
                r,
                old(self)@.youtube_channel_at(youtube_channel_id@),
                DbError::NoYoutubeChannel,
                |row: ChannelRowModel|
                    ChannelRowModel {
                        channel: ChannelModel {
                            uploads_playlist_id: Some(uploads_playlist_id@),
                            ..row.channel
                        },
                        ..row
                    },
            ),
            old(self)@.wf() ==> final(self)@.wf(),
    {
        match self.find_youtube_channel(youtube_channel_id) {
            None => Err(DbError::NoYoutubeChannel),
            Some(k) => {
                let ghost before = self@;
                self.channels[k].channel.uploads_playlist_id = Some(uploads_playlist_id.to_owned());
                proof {
                    assert(self@ =~= before.with_channel(k as int, self@.channels[k as int]));
                    channel_step(before, self@, k as int);
                }
                Ok(())
            },
        }
    }

    /// Notes until when a channel is subscribed to.
    pub fn mark_websub_lease(&mut self, id: i64, lease_expires_at: i64) -> (r: Result<(), DbError>)
        ensures
            channel_write(
                old(self)@,
                final(self)@,
                r,
                old(self)@.channel_at(id),
                DbError::NoChannel,
                |row: ChannelRowModel|
                    ChannelRowModel {
                        channel: ChannelModel {
                            websub_lease_expires_at: Some(lease_expires_at),
                            ..row.channel
                        },
                        ..row
                    },
            ),
            old(self)@.wf() ==> final(self)@.wf(),
    {
        match self.find_channel(id) {
            None => Err(DbError::NoChannel),
            Some(k) => {
                let ghost before = self@;
                self.channels[k].channel.websub_lease_expires_at = Some(lease_expires_at);
                proof {
                    assert(self@ =~= before.with_channel(k as int, self@.channels[k as int]));
                    channel_step(before, self@, k as int);
                }
                Ok(())
            },
        }
    }

    /// Notes that a push came in, and when the channel is next asked for at the API.
    pub fn mark_websub_received(&mut self, id: i64, received_at: i64, next_data_api_poll_at: i64) -> (r: Result<(), DbError>)
        ensures
            channel_write(
                old(self)@,
                final(self)@,
                r,
                old(self)@.channel_at(id),
                DbError::NoChannel,
                |row: ChannelRowModel|
                    ChannelRowModel {
                        channel: ChannelModel {
                            websub_last_received_at: Some(received_at),
                            next_data_api_poll_at: Some(next_data_api_poll_at),
                            ..row.channel
                        },
                        ..row
                    },
            ),
            old(self)@.wf() ==> final(self)@.wf(),
    {
        match self.find_channel(id) {
            None => Err(DbError::NoChannel),
            Some(k) => {
                let ghost before = self@;
                self.channels[k].channel.websub_last_received_at = Some(received_at);
                self.channels[k].channel.next_data_api_poll_at = Some(next_data_api_poll_at);
                proof {
                    assert(self@ =~= before.with_channel(k as int, self@.channels[k as int]));
                    channel_step(before, self@, k as int);
                }
                Ok(())
            },
        }
    }

    /// Turns a channel on or off.
    pub fn set_channel_enabled(&mut self, id: i64, enabled: bool) -> (r: Result<(), DbError>)
        ensures
            channel_write(
                old(self)@,
                final(self)@,
                r,
                old(self)@.channel_at(id),
                DbError::NoChannel,
                |row: ChannelRowModel|
                    ChannelRowModel { channel: ChannelModel { enabled, ..row.channel }, ..row },
            ),
            old(self)@.wf() ==> final(self)@.wf(),
    {
        match self.find_channel(id) {
            None => Err(DbError::NoChannel),
            Some(k) => {
                let ghost before = self@;
                self.channels[k].channel.enabled = enabled;
                proof {
                    assert(self@ =~= before.with_channel(k as int, self@.channels[k as int]));
                    channel_step(before, self@, k as int);
                }
                Ok(())
            },
        }
    }

    /// Sets how the videos of a channel are carried over.
    pub fn set_channel_transfer_mode(&mut self, id: i64, transfer_mode: TransferMode) -> (r: Result<(), DbError>)
        ensures
            channel_write(
                old(self)@,
                final(self)@,
                r,
                old(self)@.channel_at(id),
                DbError::NoChannel,
                |row: ChannelRowModel|
                    ChannelRowModel {
                        channel: ChannelModel { transfer_mode, ..row.channel },
                        ..row
                    },
            ),
            old(self)@.wf() ==> final(self)@.wf(),
    {
        match self.find_channel(id) {
            None => Err(DbError::NoChannel),
            Some(k) => {
                let ghost before = self@;
                self.channels[k].channel.transfer_mode = transfer_mode;
                proof {
                    assert(self@ =~= before.with_channel(k as int, self@.channels[k as int]));
                    channel_step(before, self@, k as int);
                }
                Ok(())
            },
        }
    }

    /// Sets the priority of a channel; its feed and the API are due at once.
    pub fn set_channel_priority(&mut self, id: i64, priority: ChannelPriority, now: i64) -> (r: Result<(), DbError>)
        ensures
            channel_write(
                old(self)@,
                final(self)@,
                r,
                old(self)@.channel_at(id),
                DbError::NoChannel,
                |row: ChannelRowModel|
                    ChannelRowModel {
                        channel: ChannelModel {
                            priority,
                            next_poll_at: Some(now),
                            next_data_api_poll_at: Some(now),
                            ..row.channel
                        },
                        ..row
                    },
            ),
            old(self)@.wf() ==> final(self)@.wf(),
    {
        match self.find_channel(id) {
            None => Err(DbError::NoChannel),
            Some(k) => {
                let ghost before = self@;
                self.channels[k].channel.priority = priority;
                self.channels[k].channel.next_poll_at = Some(now);
                self.channels[k].channel.next_data_api_poll_at = Some(now);
                proof {
                    assert(self@ =~= before.with_channel(k as int, self@.channels[k as int]));
                    channel_step(before, self@, k as int);
                }
                Ok(())
            },
        }
    }

    /// Puts off the feed of a channel; that is no failure.
    pub fn defer_channel_poll_until(&mut self, id: i64, next_poll_at: i64) -> (r: Result<(), DbError>)
        ensures
            channel_write(
                old(self)@,
                final(self)@,
                r,
                old(self)@.channel_at(id),
                DbError::NoChannel,
                |row: ChannelRowModel|
                    ChannelRowModel {
                        channel: ChannelModel { next_poll_at: Some(next_poll_at), ..row.channel },
                        ..row
                    },
            ),
            old(self)@.wf() ==> final(self)@.wf(),
    {
        match self.find_channel(id) {
            None => Err(DbError::NoChannel),
            Some(k) => {
                let ghost before = self@;
                self.channels[k].channel.next_poll_at = Some(next_poll_at);
                proof {
                    assert(self@ =~= before.with_channel(k as int, self@.channels[k as int]));
                    channel_step(before, self@, k as int);
                }
                Ok(())
            },
        }
    }

    /// Notes that a channel was looked at.
    pub fn mark_channel_checked(&mut self, id: i64, error: Option<&str>, now: i64)
        ensures
            quiet_channel_write(
                old(self)@,
                final(self)@,
                old(self)@.channel_at(id),
                |row: ChannelRowModel|
                    ChannelRowModel {
                        channel: ChannelModel {
                            last_checked_at: Some(now),
                            last_error: str_view(error),
                            ..row.channel
                        },
                        ..row
                    },
            ),
            old(self)@.wf() ==> final(self)@.wf(),
    {
        match self.find_channel(id) {
            None => {},
            Some(k) => {
                let ghost before = self@;
                self.channels[k].channel.last_checked_at = Some(now);
                self.channels[k].channel.last_error = own_optional(error);
                proof {
                    assert(self@ =~= before.with_channel(k as int, self@.channels[k as int]));
                    channel_step(before, self@, k as int);
                }
            },
        }
    }

    /// Notes that the list of a channel was gone through.
    pub fn mark_channel_reconciled(&mut self, id: i64, error: Option<&str>, now: i64)
        ensures
            quiet_channel_write(
                old(self)@,
                final(self)@,
                old(self)@.channel_at(id),
                |row: ChannelRowModel|
                    ChannelRowModel {
                        channel: ChannelModel { last_error: str_view(error), ..row.channel },
                        last_reconcile_at: Some(now),
                        ..row
                    },
            ),
            old(self)@.wf() ==> final(self)@.wf(),
    {
        match self.find_channel(id) {
            None => {},
            Some(k) => {
                let ghost before = self@;
                self.channels[k].last_reconcile_at = Some(now);
                self.channels[k].channel.last_error = own_optional(error);
                proof {
                    assert(self@ =~= before.with_channel(k as int, self@.channels[k as int]));
                    channel_step(before, self@, k as int);
                }
            },
        }
    }

    /// Notes how looking at a feed ended: when, with what error, when it is next, and whether the feed
    /// failed once more in a row.
    pub fn finish_channel_poll(&mut self, id: i64, error: Option<&str>, rss_failed: bool, next_poll_at: i64, now: i64) -> (r:
        Result<(), DbError>)
        ensures
            match old(self)@.channel_at(id) {
                None => r == refused::<()>(DbError::NoChannel) && final(self)@ == old(self)@,
                Some(k) => {
                    let row = old(self)@.channels[k];
                    if rss_failed && row.channel.consecutive_failures == u32::MAX {
                        r == refused::<()>(DbError::TooLarge) && final(self)@ == old(self)@
                    } else {
                        r is Ok && final(self)@ == old(self)@.with_channel(
                            k,
                            (ChannelRowModel {
                                channel: ChannelModel {
                                    last_checked_at: Some(now),
                                    last_error: str_view(error),
                                    next_poll_at: Some(next_poll_at),
                                    consecutive_failures: if rss_failed {
                                        (row.channel.consecutive_failures + 1) as u32
                                    } else {
                                        0
                                    },
                                    ..row.channel
                                },
                                ..row
                            }),
                        )
                    }
                },
            },
            old(self)@.wf() ==> final(self)@.wf(),
    {
        match self.find_channel(id) {
            None => Err(DbError::NoChannel),
            Some(k) => {
                let failures: u32 = self.channels[k].channel.consecutive_failures;
                if rss_failed && failures == u32::MAX {
                    return Err(DbError::TooLarge);
                }
                let ghost before = self@;
                self.channels[k].channel.last_checked_at = Some(now);
                self.channels[k].channel.last_error = own_optional(error);
                self.channels[k].channel.next_poll_at = Some(next_poll_at);
                self.channels[k].channel.consecutive_failures = if rss_failed {
                    failures + 1
                } else {
                    0
                };
                proof {
                    assert(self@ =~= before.with_channel(k as int, self@.channels[k as int]));
                    channel_step(before, self@, k as int);
                }
                Ok(())
            },
        }
    }
}

// ---------------------------------------------------------------------------------------------
// What a channel is when it is added, and when it is due
// ---------------------------------------------------------------------------------------------

/// A channel that is added is watched from then on: nothing that was published up to that time is
/// carried over. One that is known keeps its number, its baseline and its priority, and takes the
/// name, the addresses and the transfer mode anew.
pub proof fn added_channels_start_at_their_baseline(
    db: DbModel,
    youtube_id: Seq<char>,
    name: Seq<char>,
    url: Seq<char>,
    feed_url: Seq<char>,
    mode: TransferMode,
    now: i64,
)
    requires
        db.wf(),
        db.channel_seq < i64::MAX,
    ensures
        ({
            let r = channel_added(db, youtube_id, name, url, feed_url, mode, now);
            let (after, id) = r->Ok_0;
            let known = |k: int|
                0 <= k < db.channels.len() && db.channels[k].channel.youtube_channel_id == youtube_id;
            &&& r is Ok
            &&& (forall|k: int| 0 <= k < db.channels.len() ==> (#[trigger] db.channels[k]).channel.youtube_channel_id
                != youtube_id) ==> {
                let row = after.channels.last();
                &&& after.channels == db.channels.push(row)
                &&& id == db.channel_seq + 1 && row.channel.id == id && after.channel_seq == id
                &&& row.channel.youtube_channel_id == youtube_id
                &&& row.channel.name == name && row.channel.url == url && row.feed_url == feed_url
                &&& row.channel.enabled && row.channel.transfer_mode == mode
                &&& row.channel.priority == ChannelPriority::Normal
                &&& row.baseline_at == Some(now) && row.created_at == now
                &&& row.channel.next_poll_at is None && row.channel.consecutive_failures == 0
                &&& row.channel.last_checked_at is None && row.channel.last_error is None
                &&& row.channel.uploads_playlist_id is None && row.websub_secret is None
            }
            &&& forall|k: int| #[trigger]
                known(k) ==> {
                    let old_row = db.channels[k];
                    let row = after.channels[k];
                    &&& id == old_row.channel.id && row.channel.id == id
                    &&& row.channel.name == name && row.channel.url == url
                    &&& row.feed_url == feed_url && row.channel.transfer_mode == mode
                    &&& row.baseline_at == old_row.baseline_at
                    &&& row.channel.enabled == old_row.channel.enabled
                    &&& row.channel.priority == old_row.channel.priority
                    &&& row.channel.next_poll_at == old_row.channel.next_poll_at
                    &&& row.channel.youtube_channel_id == youtube_id
                    &&& row.created_at == old_row.created_at
                    &&& after.channels.len() == db.channels.len()
                    &&& after.channel_seq == db.channel_seq
                }
            &&& after.jobs == db.jobs && after.candidates == db.candidates
        }),
{
    let called = |r: ChannelRowModel| r.channel.youtube_channel_id == youtube_id;
    place_means(db.channels, called);
    assert(db.youtube_channel_at(youtube_id) == place(db.channels, called));
    if db.youtube_channel_at(youtube_id) is Some {
        let at = db.youtube_channel_at(youtube_id)->Some_0;
        assert(db.channels[at].channel.youtube_channel_id == youtube_id);
        assert forall|k: int| 0 <= k < db.channels.len()
            && db.channels[k].channel.youtube_channel_id == youtube_id implies k == at by {
            channels_and_candidates_are_found(db, k, 0);
        }
    } else {
        assert forall|k: int| 0 <= k < db.channels.len() implies (
        #[trigger] db.channels[k]).channel.youtube_channel_id != youtube_id by {
            assert(!called(db.channels[k]));
        }
    }
}

/// A channel's feed is due where the channel is watched and its time has come or is not set; so it
/// is with the API, and with a subscription that ends or is missing. One that is not watched is
/// due for nothing.
pub proof fn channels_are_due_in_time(row: ChannelRowModel, now: i64, p: ChannelPriority)
    ensures
        ({
            let c = row.channel;
            &&& row.due_key(Due::Feed, now) is Some <==> c.enabled && (c.next_poll_at is None
                || c.next_poll_at->Some_0 <= now)
            &&& row.due_key(Due::FeedOf(p), now) is Some <==> c.enabled && c.priority == p && (
            c.next_poll_at is None || c.next_poll_at->Some_0 <= now)
            &&& row.due_key(Due::DataApi, now) is Some <==> c.enabled && (
            c.next_data_api_poll_at is None || c.next_data_api_poll_at->Some_0 <= now)
            &&& row.due_key(Due::Lease, now) is Some <==> c.enabled && (
            c.websub_lease_expires_at is None || c.websub_lease_expires_at->Some_0 <= now)
            &&& row.due_key(Due::Every, now) is Some
        }),
{
}

/// Of two channels that are due the preferred one comes first; of two alike, the one without a
/// time; then the one that is due longer; then the one with the lower number.
pub proof fn due_channels_come_in_order(a: ChannelRowModel, b: ChannelRowModel, now: i64)
    requires
        a.due_key(Due::Feed, now) is Some,
        b.due_key(Due::Feed, now) is Some,
    ensures
        ({
            let x = a.due_key(Due::Feed, now)->Some_0;
            let y = b.due_key(Due::Feed, now)->Some_0;
            let p = ChannelPriority::Priority;
            &&& a.channel.priority == p && b.channel.priority != p ==> key_less(x, y)
            &&& a.channel.priority == b.channel.priority && a.channel.next_poll_at is None
                && b.channel.next_poll_at is Some ==> key_less(x, y)
            &&& a.channel.priority == b.channel.priority && a.channel.next_poll_at is Some
                && b.channel.next_poll_at is Some && a.channel.next_poll_at->Some_0
                < b.channel.next_poll_at->Some_0 ==> key_less(x, y)
            &&& a.channel.priority == b.channel.priority && a.channel.next_poll_at
                == b.channel.next_poll_at && a.channel.id < b.channel.id ==> key_less(x, y)
        }),
{
}

/// A channel is meant by its number or by its name on YouTube.
pub proof fn channels_are_meant_by_number_or_name(db: DbModel, k: int, identifier: Seq<char>)
    requires
        db.wf(),
        0 <= k < db.channels.len(),
    ensures
        parsed_int(identifier) == Some(db.channels[k].channel.id as int) ==> db.meant_channel(
            identifier,
        ) == Some(k),
        parsed_int(identifier) is None && identifier == db.channels[k].channel.youtube_channel_id
            ==> db.meant_channel(identifier) == Some(k),
{
    channels_and_candidates_are_found(db, k, 0);
}

/// A callback leads to a watched channel that has that path.
pub proof fn callbacks_lead_to_watched_channels(db: DbModel, path: Seq<char>)
    ensures
        db.callback_at(path) matches Some(k) ==> 0 <= k < db.channels.len()
            && db.channels[k].channel.enabled && db.channels[k].websub_callback_path == Some(path),
        db.callback_at(path) is None ==> forall|k: int|
            0 <= k < db.channels.len() && (#[trigger] db.channels[k]).channel.enabled
                ==> db.channels[k].websub_callback_path != Some(path),
{
    let p = |r: ChannelRowModel| r.channel.enabled && r.websub_callback_path == Some(path);
    place_means(db.channels, p);
    assert(db.callback_at(path) == place(db.channels, p));
    if db.callback_at(path) is None {
        assert forall|k: int| 0 <= k < db.channels.len() && (
        #[trigger] db.channels[k]).channel.enabled implies db.channels[k].websub_callback_path
            != Some(path) by {
            assert(!p(db.channels[k]));
        }
    }
}

/// A write to a channel changes no other channel and no other table.
pub proof fn channel_writes_touch_one_channel(
    before: DbModel,
    after: DbModel,
    at: Option<int>,
    row: spec_fn(ChannelRowModel) -> ChannelRowModel,
    r: Result<(), DbError>,
    missing: DbError,
)
    requires
        at is Some ==> 0 <= at->Some_0 < before.channels.len(),
        quiet_channel_write(before, after, at, row) || channel_write(
            before,
            after,
            r,
            at,
            missing,
            row,
        ),
    ensures
        at is None ==> after == before,
        at matches Some(k) ==> {
            &&& after.channels[k] == row(before.channels[k])
            &&& after.channels.len() == before.channels.len()
            &&& forall|j: int|
                0 <= j < before.channels.len() && j != k ==> #[trigger] after.channels[j]
                    == before.channels[j]
            &&& after.jobs == before.jobs && after.candidates == before.candidates
            &&& after.settings == before.settings
        },
        channel_write(before, after, r, at, missing, row) ==> (r is Ok <==> at is Some) && (r is Err
            ==> r->Err_0 == missing),
{
}

/// The list of channels that are due holds each of them, and none that is not.
pub proof fn due_lists_hold_the_due(v: Seq<Channel>, db: DbModel, due: Due, now: i64, k: int, i: int)
    requires
        lists_due(v, db, due, now),
    ensures
        0 <= k < db.channels.len() && db.channels[k].due_key(due, now) is Some ==> exists|j: int|
            0 <= j < v.len() && (#[trigger] v[j])@ == db.channels[k].channel,
        0 <= i < v.len() ==> exists|j: int|
            0 <= j < db.channels.len() && v[i]@ == (#[trigger] db.channels[j]).channel
                && db.channels[j].due_key(due, now) is Some,
{
    let keys = due_keys(db, due, now);
    let order = choose|order: Seq<int>|
        #![trigger arranged(keys, order)]
        arranged(keys, order) && channel_views(v) == order.map_values(
            |k: int| db.channels[k].channel,
        );
    assert(channel_views(v).len() == order.len());
    if 0 <= k < db.channels.len() && db.channels[k].due_key(due, now) is Some {
        assert(keys[k] is Some);
        let j = choose|j: int| 0 <= j < order.len() && order[j] == k;
        assert(channel_views(v)[j] == db.channels[order[j]].channel);
        assert(v[j]@ == db.channels[k].channel);
    }
    if 0 <= i < v.len() {
        assert(channel_views(v)[i] == db.channels[order[i]].channel);
        let j = order[i];
        assert(keys[j] is Some);
        assert(v[i]@ == db.channels[j].channel);
    }
}

/// A channel's history is when its own videos were published, as far as that is known, the oldest
/// first.
pub proof fn histories_are_of_the_channel(db: DbModel, channel_id: i64, k: int)
    requires
        0 <= k < db.jobs.len(),
    ensures
        publication_keys(db, channel_id).len() == db.jobs.len(),
        publication_keys(db, channel_id)[k] is Some <==> db.jobs[k].job.channel_id == Some(channel_id)
            && db.jobs[k].job.published_at is Some,
        publication_keys(db, channel_id)[k] is Some ==> publication_keys(db, channel_id)[k]->Some_0.0
            == db.jobs[k].job.published_at->Some_0,
{
}

/// A subscription shows its channel's own values.
pub proof fn subscriptions_show_their_channel(w: WebSubChannel, row: ChannelRowModel)
    requires
        subscribes(w, row),
    ensures
        w.id == row.channel.id && w.youtube_channel_id@ == row.channel.youtube_channel_id,
        w.name@ == row.channel.name && w.enabled == row.channel.enabled,
        w.lease_expires_at == row.channel.websub_lease_expires_at,
        w.last_received_at == row.channel.websub_last_received_at,
        w.secret is Some <==> row.websub_secret is Some,
        w.secret is Some ==> w.secret->Some_0@ == row.websub_secret->Some_0,
        w.callback_path is Some <==> row.websub_callback_path is Some,
        w.callback_path is Some ==> w.callback_path->Some_0@ == row.websub_callback_path->Some_0,
{
}

/// What is set of a channel is what it then has, and nothing else of it changes: whether it is
/// watched, its transfer mode, and its priority, which has it asked at once.
pub proof fn channels_have_what_is_set(
    a: &mut Database,
    b: &mut Database,
    c: &mut Database,
    k: int,
    id: i64,
    enabled: bool,
    mode: TransferMode,
    priority: ChannelPriority,
    now: i64,
    ra: Result<(), DbError>,
    rb: Result<(), DbError>,
    rc: Result<(), DbError>,
)
    requires
        call_ensures(Database::set_channel_enabled, (a, id, enabled), ra),
        call_ensures(Database::set_channel_transfer_mode, (b, id, mode), rb),
        call_ensures(Database::set_channel_priority, (c, id, priority, now), rc),
        old(a)@ == old(b)@ && old(a)@ == old(c)@,
        old(a)@.wf(),
        0 <= k < old(a)@.channels.len(),
        old(a)@.channels[k].channel.id == id,
    ensures
        ra is Ok && rb is Ok && rc is Ok,
        ({
            let row = old(a)@.channels[k];
            &&& final(a)@.channels[k].channel.enabled == enabled
            &&& final(a)@.channels[k].channel.transfer_mode == row.channel.transfer_mode
            &&& final(a)@.channels[k].channel.priority == row.channel.priority
            &&& final(b)@.channels[k].channel.transfer_mode == mode
            &&& final(b)@.channels[k].channel.enabled == row.channel.enabled
            &&& final(b)@.channels[k].baseline_at == row.baseline_at
            &&& final(c)@.channels[k].channel.priority == priority
            &&& final(c)@.channels[k].channel.next_poll_at == Some(now)
            &&& final(c)@.channels[k].channel.next_data_api_poll_at == Some(now)
            &&& final(c)@.channels[k].channel.transfer_mode == row.channel.transfer_mode
            &&& final(b)@.jobs == old(a)@.jobs
        }),
{
    channels_and_candidates_are_found(old(a)@, k, 0);
}

/// A poll that ended is noted: when, what went wrong, and when the next is; failures are counted one
/// by one and forgotten with the first success.
pub proof fn polls_are_noted(
    db: &mut Database,
    id: i64,
    error: Option<&str>,
    failed: bool,
    next: i64,
    now: i64,
    k: int,
    r: Result<(), DbError>,
)
    requires
        call_ensures(Database::finish_channel_poll, (db, id, error, failed, next, now), r),
        old(db)@.wf(),
        0 <= k < old(db)@.channels.len(),
        old(db)@.channels[k].channel.id == id,
        old(db)@.channels[k].channel.consecutive_failures < u32::MAX,
    ensures
        r is Ok,
        ({
            let before = old(db)@.channels[k].channel;
            let after = final(db)@.channels[k].channel;
            &&& after.last_checked_at == Some(now) && after.next_poll_at == Some(next)
            &&& after.last_error is Some <==> error is Some
            &&& error is Some ==> after.last_error->Some_0 == error->Some_0@
            &&& failed ==> after.consecutive_failures == before.consecutive_failures + 1
            &&& !failed ==> after.consecutive_failures == 0
            &&& after.transfer_mode == before.transfer_mode && after.enabled == before.enabled
        }),
{
    channels_and_candidates_are_found(old(db)@, k, 0);
}

} // verus!
