//! Limits on requests: the circuit that opens when feeds fail, and the slots for the slow fallback.
//! Points in time are milliseconds of a clock that does not run backwards.
use std::collections::{HashMap, VecDeque};
use vstd::prelude::*;

verus! {

broadcast use {
    vstd::std_specs::hash::group_hash_axioms,
    vstd::std_specs::vecdeque::group_vec_dequeue_axioms,
};

/// How long a feed result counts.
pub const RSS_CIRCUIT_WINDOW_MS: u64 = 600_000;

/// The fewest results that can open the circuit.
pub const RSS_CIRCUIT_MIN_SAMPLES: usize = 8;

/// The circuit opens when more than this share of the results are failures.
pub const RSS_CIRCUIT_FAILURE_PERCENT: usize = 60;

/// How long the circuit stays open.
pub const RSS_CIRCUIT_DURATION_MS: i64 = 600_000;

/// How many channels are still polled in a round while the circuit is open.
pub const RSS_CIRCUIT_PROBES: usize = 2;

/// How long a channel waits for its next fallback.
pub const FALLBACK_CHANNEL_COOLDOWN_MS: u64 = 600_000;

/// The time in which only so many fallbacks start.
pub const FALLBACK_GLOBAL_WINDOW_MS: u64 = 600_000;

/// How many fallbacks start in that time.
pub const FALLBACK_GLOBAL_LIMIT: usize = 3;

/// The time from `at` to `now`; none where `at` lies behind `now`.
pub open spec fn age(at: u64, now: u64) -> int {
    if at <= now {
        now - at
    } else {
        0
    }
}

fn elapsed(at: u64, now: u64) -> (r: u64)
    ensures
        r == age(at, now),
{
    if at <= now {
        now - at
    } else {
        0
    }
}

/// The results of feed requests of the last ten minutes, the oldest first.
#[derive(Debug)]
pub struct RssCircuitWindow {
    pub samples: VecDeque<(u64, bool)>,
}

/// The samples without those at the front that do not count any more.
pub open spec fn fresh(samples: Seq<(u64, bool)>, now: u64) -> Seq<(u64, bool)>
    decreases samples.len(),
{
    if samples.len() > 0 && age(samples[0].0, now) >= RSS_CIRCUIT_WINDOW_MS {
        fresh(samples.subrange(1, samples.len() as int), now)
    } else {
        samples
    }
}

/// The number of failures among the first `n` samples.
pub open spec fn failures(samples: Seq<(u64, bool)>, n: int) -> int
    decreases n,
{
    if n <= 0 {
        0
    } else {
        failures(samples, n - 1) + if samples[n - 1].1 {
            1int
        } else {
            0int
        }
    }
}

/// Whether the samples open the circuit: there are enough, and more than the share are failures.
pub open spec fn opens(samples: Seq<(u64, bool)>) -> bool {
    samples.len() >= RSS_CIRCUIT_MIN_SAMPLES && failures(samples, samples.len() as int) * 100
        > samples.len() * RSS_CIRCUIT_FAILURE_PERCENT
}

impl RssCircuitWindow {
    /// A window without results.
    pub fn new() -> (r: Self)
        ensures
            r.samples@.len() == 0,
    {
        RssCircuitWindow { samples: VecDeque::new() }
    }

    /// Adds a result and tells whether the window opens the circuit.
    pub fn record(&mut self, failed: bool, now: u64) -> (r: bool)
        ensures
            final(self).samples@ == fresh(old(self).samples@, now).push((now, failed)),
            r == opens(final(self).samples@),
    {
        let ghost before = self.samples@;
        while self.samples.len() > 0 && elapsed(self.samples[0].0, now) >= RSS_CIRCUIT_WINDOW_MS
            invariant
                fresh(self.samples@, now) == fresh(before, now),
            decreases self.samples@.len(),
        {
            let ghost s = self.samples@;
            let _ = self.samples.pop_front();
            proof {
                assert(self.samples@ =~= s.subrange(1, s.len() as int));
            }
        }
        self.samples.push_back((now, failed));
        let n: usize = self.samples.len();
        let mut count: usize = 0;
        let mut i: usize = 0;
        while i < n
            invariant
                n == self.samples@.len(),
                0 <= i <= n,
                count <= i,
                count == failures(self.samples@, i as int),
            decreases n - i,
        {
            if self.samples[i].1 {
                count = count + 1;
            }
            i = i + 1;
        }
        n >= RSS_CIRCUIT_MIN_SAMPLES && (count as u128) * 100 > (n as u128) * (
        RSS_CIRCUIT_FAILURE_PERCENT as u128)
    }
}

/// Whether samples are in the order of their times and none lies behind `now`.
pub open spec fn in_time_order(samples: Seq<(u64, bool)>, now: u64) -> bool {
    &&& forall|i: int, j: int|
        0 <= i <= j < samples.len() ==> (#[trigger] samples[i]).0 <= (#[trigger] samples[j]).0
    &&& forall|i: int| 0 <= i < samples.len() ==> (#[trigger] samples[i]).0 <= now
}

/// On a clock that does not run backwards, the window holds just the results of the last ten
/// minutes: each one in it is younger, and what was dropped was not.
pub proof fn window_slides(samples: Seq<(u64, bool)>, now: u64)
    requires
        in_time_order(samples, now),
    ensures
        in_time_order(fresh(samples, now), now),
        forall|i: int|
            0 <= i < fresh(samples, now).len() ==> age((#[trigger] fresh(samples, now)[i]).0, now)
                < RSS_CIRCUIT_WINDOW_MS,
        exists|k: int|
            0 <= k <= samples.len() && fresh(samples, now) == #[trigger] samples.subrange(
                k,
                samples.len() as int,
            ) && forall|i: int|
                0 <= i < k ==> age((#[trigger] samples[i]).0, now) >= RSS_CIRCUIT_WINDOW_MS,
    decreases samples.len(),
{
    if samples.len() > 0 && age(samples[0].0, now) >= RSS_CIRCUIT_WINDOW_MS {
        let rest = samples.subrange(1, samples.len() as int);
        assert forall|i: int, j: int| 0 <= i <= j < rest.len() implies (#[trigger] rest[i]).0 <= (
        #[trigger] rest[j]).0 by {
            assert(rest[i] == samples[i + 1] && rest[j] == samples[j + 1]);
        }
        assert forall|i: int| 0 <= i < rest.len() implies (#[trigger] rest[i]).0 <= now by {
            assert(rest[i] == samples[i + 1]);
        }
        window_slides(rest, now);
        let k = choose|k: int|
            0 <= k <= rest.len() && fresh(rest, now) == #[trigger] rest.subrange(
                k,
                rest.len() as int,
            ) && forall|i: int|
                0 <= i < k ==> age((#[trigger] rest[i]).0, now) >= RSS_CIRCUIT_WINDOW_MS;
        assert(rest.subrange(k, rest.len() as int) =~= samples.subrange(
            k + 1,
            samples.len() as int,
        ));
        assert forall|i: int| 0 <= i < k + 1 implies age((#[trigger] samples[i]).0, now)
            >= RSS_CIRCUIT_WINDOW_MS by {
            if i > 0 {
                assert(rest[i - 1] == samples[i]);
            }
        }
    } else {
        assert(samples.subrange(0, samples.len() as int) =~= samples);
        assert forall|i: int| 0 <= i < samples.len() implies age((#[trigger] samples[i]).0, now)
            < RSS_CIRCUIT_WINDOW_MS by {
            assert(samples[0].0 <= samples[i].0);
        }
    }
}

/// What came of asking for a fallback.
#[derive(Debug, Clone, Copy, PartialEq, Eq, Structural)]
pub enum FallbackClaim {
    Allowed,
    ChannelCooldown,
    GlobalCircuitOpen,
}

/// When each channel last fell back, and when the last fallbacks of all channels started.
#[derive(Debug)]
pub struct FallbackLimiter {
    pub per_channel: HashMap<i64, u64>,
    pub global_starts: VecDeque<u64>,
}

/// The starts without those at the front that do not count any more.
pub open spec fn recent(starts: Seq<u64>, now: u64) -> Seq<u64>
    decreases starts.len(),
{
    if starts.len() > 0 && age(starts[0], now) >= FALLBACK_GLOBAL_WINDOW_MS {
        recent(starts.subrange(1, starts.len() as int), now)
    } else {
        starts
    }
}

/// When each channel last fell back, and when the last fallbacks of all channels started.
#[verifier::ext_equal]
pub struct LimiterModel {
    pub per_channel: Map<i64, u64>,
    pub global_starts: Seq<u64>,
}

impl LimiterModel {
    /// A limiter that has not granted anything.
    pub open spec fn unused() -> LimiterModel {
        LimiterModel { per_channel: Map::empty(), global_starts: Seq::empty() }
    }

    /// Whether a channel fell back too short a time ago.
    pub open spec fn cooling(self, channel_id: i64, now: u64) -> bool {
        self.per_channel.contains_key(channel_id) && age(self.per_channel[channel_id], now)
            < FALLBACK_CHANNEL_COOLDOWN_MS
    }

    /// What asking for a fallback of a channel comes to.
    pub open spec fn claimed(self, channel_id: i64, now: u64) -> (LimiterModel, FallbackClaim) {
        let starts = recent(self.global_starts, now);
        if self.cooling(channel_id, now) {
            (self, FallbackClaim::ChannelCooldown)
        } else if starts.len() >= FALLBACK_GLOBAL_LIMIT {
            (LimiterModel { global_starts: starts, ..self }, FallbackClaim::GlobalCircuitOpen)
        } else {
            (
                LimiterModel {
                    per_channel: self.per_channel.insert(channel_id, now),
                    global_starts: starts.push(now),
                },
                FallbackClaim::Allowed,
            )
        }
    }
}

/// A limiter after the first `n` requests, each of a channel at a time, and those that it granted.
pub open spec fn after_requests(requests: Seq<(i64, u64)>, n: int) -> (LimiterModel, Seq<(i64, u64)>)
    decreases n,
{
    if n <= 0 {
        (LimiterModel::unused(), Seq::empty())
    } else {
        let (m, granted) = after_requests(requests, n - 1);
        let (channel_id, now) = requests[n - 1];
        let (next, claim) = m.claimed(channel_id, now);
        (
            next,
            if claim == FallbackClaim::Allowed {
                granted.push((channel_id, now))
            } else {
                granted
            },
        )
    }
}

/// Whether requests come in the order of their times.
pub open spec fn in_order_of_time(requests: Seq<(i64, u64)>) -> bool {
    forall|i: int, j: int|
        0 <= i <= j < requests.len() ==> (#[trigger] requests[i]).1 <= (#[trigger] requests[j]).1
}

/// Whether what a limiter remembers at a time fits what it granted: the starts are the last of the
/// granted ones, those before are long ago, and each channel is known by its last one.
spec fn remembers(m: LimiterModel, granted: Seq<(i64, u64)>, now: u64) -> bool {
    let gone = granted.len() - m.global_starts.len();
    &&& 0 <= gone
    &&& forall|k: int|
        0 <= k < m.global_starts.len() ==> #[trigger] m.global_starts[k] == granted[gone + k].1
    &&& forall|i: int|
        0 <= i < gone ==> now - (#[trigger] granted[i]).1 >= FALLBACK_GLOBAL_WINDOW_MS
    &&& forall|i: int| 0 <= i < granted.len() ==> (#[trigger] granted[i]).1 <= now
    &&& forall|i: int|
        0 <= i < granted.len() ==> m.per_channel.contains_key((#[trigger] granted[i]).0)
            && granted[i].1 <= m.per_channel[granted[i].0] <= now
    &&& forall|c: i64| #[trigger] m.per_channel.contains_key(c) ==> m.per_channel[c] <= now
}

/// Whether granted fallbacks are spread: no four lie within ten minutes, and no two of one channel.
pub open spec fn spread(granted: Seq<(i64, u64)>) -> bool {
    &&& forall|i: int, j: int|
        0 <= i && i + FALLBACK_GLOBAL_LIMIT <= j < granted.len() ==> (#[trigger] granted[j]).1 - (
        #[trigger] granted[i]).1 >= FALLBACK_GLOBAL_WINDOW_MS
    &&& forall|i: int, j: int|
        0 <= i < j < granted.len() && (#[trigger] granted[i]).0 == (#[trigger] granted[j]).0
            ==> granted[j].1 - granted[i].1 >= FALLBACK_CHANNEL_COOLDOWN_MS
}

proof fn recent_is_a_tail(starts: Seq<u64>, now: u64)
    requires
        forall|k: int| 0 <= k < starts.len() ==> (#[trigger] starts[k]) <= now,
    ensures
        ({
            let gone = starts.len() - recent(starts, now).len();
            &&& 0 <= gone
            &&& recent(starts, now) == starts.subrange(gone, starts.len() as int)
            &&& forall|k: int|
                0 <= k < gone ==> now - (#[trigger] starts[k]) >= FALLBACK_GLOBAL_WINDOW_MS
        }),
    decreases starts.len(),
{
    if starts.len() > 0 && age(starts[0], now) >= FALLBACK_GLOBAL_WINDOW_MS {
        let rest = starts.subrange(1, starts.len() as int);
        assert forall|k: int| 0 <= k < rest.len() implies (#[trigger] rest[k]) <= now by {
            assert(rest[k] == starts[k + 1]);
        }
        recent_is_a_tail(rest, now);
        let gone = rest.len() - recent(rest, now).len();
        assert(rest.subrange(gone, rest.len() as int) =~= starts.subrange(
            gone + 1,
            starts.len() as int,
        ));
        assert forall|k: int| 0 <= k < gone + 1 implies now - (#[trigger] starts[k])
            >= FALLBACK_GLOBAL_WINDOW_MS by {
            if k > 0 {
                assert(rest[k - 1] == starts[k]);
            }
        }
    } else {
        assert(starts.subrange(0, starts.len() as int) =~= starts);
    }
}

proof fn one_more_request(m: LimiterModel, granted: Seq<(i64, u64)>, last: u64, channel_id: i64, now: u64)
    requires
        remembers(m, granted, last),
        spread(granted),
        last <= now,
    ensures
        ({
            let (next, claim) = m.claimed(channel_id, now);
            let all = if claim == FallbackClaim::Allowed {
                granted.push((channel_id, now))
            } else {
                granted
            };
            remembers(next, all, now) && spread(all)
        }),
{
    let (next, claim) = m.claimed(channel_id, now);
    let gone = granted.len() - m.global_starts.len();
    assert forall|k: int| 0 <= k < m.global_starts.len() implies (#[trigger] m.global_starts[k])
        <= now by {
        assert(granted[gone + k].1 <= last);
    }
    recent_is_a_tail(m.global_starts, now);
    let starts = recent(m.global_starts, now);
    let more = m.global_starts.len() - starts.len();
    assert forall|k: int| 0 <= k < starts.len() implies #[trigger] starts[k] == granted[gone + more
        + k].1 by {
        assert(starts[k] == m.global_starts[more + k]);
    }
    assert forall|i: int| 0 <= i < gone + more implies now - (#[trigger] granted[i]).1
        >= FALLBACK_GLOBAL_WINDOW_MS by {
        if i >= gone {
            assert(m.global_starts[i - gone] == granted[gone + (i - gone)].1);
        }
    }
    if claim == FallbackClaim::Allowed {
        let all = granted.push((channel_id, now));
        let len = granted.len() as int;
        assert forall|i: int, j: int|
            0 <= i && i + FALLBACK_GLOBAL_LIMIT <= j < all.len() implies (#[trigger] all[j]).1 - (
        #[trigger] all[i]).1 >= FALLBACK_GLOBAL_WINDOW_MS by {
            assert(all[i] == granted[i]);
            if j < len {
                assert(all[j] == granted[j]);
            }
        }
        assert forall|i: int, j: int|
            0 <= i < j < all.len() && (#[trigger] all[i]).0 == (
            #[trigger] all[j]).0 implies all[j].1 - all[i].1 >= FALLBACK_CHANNEL_COOLDOWN_MS by {
            assert(all[i] == granted[i]);
            if j < len {
                assert(all[j] == granted[j]);
            } else {
                assert(m.per_channel.contains_key(granted[i].0));
            }
        }
        assert forall|i: int| 0 <= i < all.len() implies next.per_channel.contains_key(
            (#[trigger] all[i]).0,
        ) && all[i].1 <= next.per_channel[all[i].0] <= now by {
            if i < len {
                assert(all[i] == granted[i]);
                assert(m.per_channel.contains_key(granted[i].0));
            }
        }
        assert forall|k: int| 0 <= k < next.global_starts.len() implies #[trigger]
            next.global_starts[k] == all[all.len() - next.global_starts.len() + k].1 by {
            if k < starts.len() {
                assert(starts[k] == granted[gone + more + k].1);
            }
        }
        assert forall|i: int| 0 <= i < all.len() - next.global_starts.len() implies now - (
        #[trigger] all[i]).1 >= FALLBACK_GLOBAL_WINDOW_MS by {
            assert(all[i] == granted[i]);
        }
        assert forall|i: int| 0 <= i < all.len() implies (#[trigger] all[i]).1 <= now by {
            if i < len {
                assert(all[i] == granted[i]);
            }
        }
    } else {
        assert forall|i: int| 0 <= i < granted.len() implies m.per_channel.contains_key(
            (#[trigger] granted[i]).0,
        ) && granted[i].1 <= m.per_channel[granted[i].0] <= now by {
            assert(m.per_channel.contains_key(granted[i].0));
        }
        assert forall|c: i64| #[trigger] m.per_channel.contains_key(c) implies m.per_channel[c]
            <= now by {}
        if claim == FallbackClaim::ChannelCooldown {
            assert forall|i: int| 0 <= i < gone implies now - (#[trigger] granted[i]).1
                >= FALLBACK_GLOBAL_WINDOW_MS by {
                assert(last - granted[i].1 >= FALLBACK_GLOBAL_WINDOW_MS);
            }
        }
    }
}

proof fn requests_are_remembered(requests: Seq<(i64, u64)>, n: int)
    requires
        in_order_of_time(requests),
        0 <= n <= requests.len(),
    ensures
        ({
            let (m, granted) = after_requests(requests, n);
            &&& spread(granted)
            &&& n > 0 ==> remembers(m, granted, requests[n - 1].1)
            &&& n == 0 ==> m == LimiterModel::unused() && granted.len() == 0
        }),
    decreases n,
{
    if n > 0 {
        requests_are_remembered(requests, n - 1);
        let (m, granted) = after_requests(requests, n - 1);
        let last: u64 = if n > 1 {
            requests[n - 2].1
        } else {
            0
        };
        assert(last <= requests[n - 1].1) by {
            if n > 1 {
                assert(requests[n - 2].1 <= requests[n - 1].1);
            }
        }
        assert(remembers(m, granted, last));
        one_more_request(m, granted, last, requests[n - 1].0, requests[n - 1].1);
    }
}

/// Whatever fallbacks are asked for, on a clock that does not run backwards: within ten minutes at
/// most three are granted in all, and at most one to a channel.
pub proof fn fallbacks_are_few(requests: Seq<(i64, u64)>)
    requires
        in_order_of_time(requests),
    ensures
        spread(after_requests(requests, requests.len() as int).1),
{
    requests_are_remembered(requests, requests.len() as int);
}

impl FallbackLimiter {
    /// What the limiter remembers.
    pub open spec fn view(&self) -> LimiterModel {
        LimiterModel { per_channel: self.per_channel@, global_starts: self.global_starts@ }
    }

    /// A limiter that has not granted anything.
    pub fn new() -> (r: Self)
        ensures
            r@ == LimiterModel::unused(),
    {
        FallbackLimiter { per_channel: HashMap::new(), global_starts: VecDeque::new() }
    }

    /// Asks for a fallback of a channel. It is granted where the channel's last one and the third
    /// last of all are long enough ago.
    pub fn claim(&mut self, channel_id: i64, now: u64) -> (r: FallbackClaim)
        ensures
            (final(self)@, r) == old(self)@.claimed(channel_id, now),
    {
        match self.per_channel.get(&channel_id) {
            Some(last) => {
                if elapsed(*last, now) < FALLBACK_CHANNEL_COOLDOWN_MS {
                    return FallbackClaim::ChannelCooldown;
                }
            },
            None => {},
        }
        let ghost before = self.global_starts@;
        while self.global_starts.len() > 0 && elapsed(self.global_starts[0], now)
            >= FALLBACK_GLOBAL_WINDOW_MS
            invariant
                recent(self.global_starts@, now) == recent(before, now),
                self.per_channel@ == old(self).per_channel@,
            decreases self.global_starts@.len(),
        {
            let ghost s = self.global_starts@;
            let _ = self.global_starts.pop_front();
            proof {
                assert(self.global_starts@ =~= s.subrange(1, s.len() as int));
            }
        }
        if self.global_starts.len() >= FALLBACK_GLOBAL_LIMIT {
            return FallbackClaim::GlobalCircuitOpen;
        }
        self.per_channel.insert(channel_id, now);
        self.global_starts.push_back(now);
        FallbackClaim::Allowed
    }

    /// When a channel last fell back.
    pub open spec fn last_of(&self, channel_id: i64) -> Option<u64> {
        if self.per_channel@.contains_key(channel_id) {
            Some(self.per_channel@[channel_id])
        } else {
            None
        }
    }

    /// When a channel last fell back.
    pub fn last_attempt(&self, channel_id: i64) -> (r: Option<u64>)
        ensures
            r == self.last_of(channel_id),
    {
        match self.per_channel.get(&channel_id) {
            Some(at) => Some(*at),
            None => None,
        }
    }

    /// Whether `a` comes strictly before `b` in line for a fallback: it never fell back and `b`
    /// did, or it did longer ago.
    pub open spec fn ahead(&self, a: i64, b: i64) -> bool {
        match (self.last_of(a), self.last_of(b)) {
            (None, Some(_)) => true,
            (Some(x), Some(y)) => x < y,
            _ => false,
        }
    }

    fn is_ahead(&self, a: i64, b: i64) -> (r: bool)
        ensures
            r == self.ahead(a, b),
    {
        match (self.last_attempt(a), self.last_attempt(b)) {
            (None, Some(_)) => true,
            (Some(x), Some(y)) => x < y,
            _ => false,
        }
    }

    /// Whether no channel stands behind one that it comes strictly before.
    pub open spec fn lined_up(&self, ids: Seq<i64>) -> bool {
        forall|i: int, j: int| 0 <= i < j < ids.len() ==> !#[trigger] self.ahead(ids[j], ids[i])
    }

    /// The channels in line for a fallback: those that never fell back first, then those that did
    /// longest ago, and otherwise in the order in which they were given. `order` tells for each
    /// place in line which of the given channels stands there.
    pub fn fallback_order(&self, ids: &[i64]) -> (r: (Vec<i64>, Vec<usize>))
        ensures
            r.0@.len() == ids@.len(),
            r.1@.len() == ids@.len(),
            forall|k: int|
                0 <= k < r.1@.len() ==> (#[trigger] r.1@[k]) < ids@.len() && r.0@[k]
                    == ids@[r.1@[k] as int],
            r.1@.no_duplicates(),
            self.lined_up(r.0@),
            forall|i: int, j: int|
                0 <= i < j < r.1@.len() && (#[trigger] r.1@[i]) > (#[trigger] r.1@[j])
                    ==> self.ahead(r.0@[i], r.0@[j]),
    {
        let mut out: Vec<i64> = Vec::new();
        let mut order: Vec<usize> = Vec::new();
        let mut n: usize = 0;
        while n < ids.len()
            invariant
                0 <= n <= ids@.len(),
                out@.len() == n,
                order@.len() == n,
                forall|k: int|
                    0 <= k < n ==> (#[trigger] order@[k]) < n && out@[k] == ids@[order@[k] as int],
                order@.no_duplicates(),
                self.lined_up(out@),
                forall|i: int, j: int|
                    0 <= i < j < n && (#[trigger] order@[i]) > (#[trigger] order@[j])
                        ==> self.ahead(out@[i], out@[j]),
            decreases ids@.len() - n,
        {
            let id: i64 = ids[n];
            let mut at: usize = n;
            while at > 0 && self.is_ahead(id, out[at - 1])
                invariant
                    0 <= at <= n,
                    out@.len() == n,
                    forall|k: int| at <= k < n ==> self.ahead(id, #[trigger] out@[k]),
                decreases at,
            {
                at = at - 1;
            }
            let ghost before = out@;
            let ghost before_order = order@;
            proof {
                assert forall|k: int| 0 <= k < at implies !self.ahead(id, #[trigger] before[k]) by {
                    if k < at - 1 {
                        assert(!self.ahead(before[at - 1], before[k]));
                        assert(!self.ahead(id, before[at - 1]));
                    }
                }
            }
            out.insert(at, id);
            order.insert(at, n);
            proof {
                assert forall|i: int, j: int| 0 <= i < j < out@.len() implies !#[trigger] self.ahead(
                    out@[j],
                    out@[i],
                ) by {
                    let a = if i < at { i } else { i - 1 };
                    let b = if j < at { j } else { j - 1 };
                    if i != at && j != at {
                        assert(out@[i] == before[a] && out@[j] == before[b]);
                        assert(!self.ahead(before[b], before[a]));
                    } else if j == at {
                        assert(out@[i] == before[i]);
                    } else {
                        assert(out@[j] == before[j - 1]);
                        assert(self.ahead(id, before[j - 1]));
                    }
                }
                assert forall|i: int, j: int|
                    0 <= i < j < order@.len() && (#[trigger] order@[i]) > (#[trigger] order@[j])
                    implies self.ahead(out@[i], out@[j]) by {
                    let a = if i < at { i } else { i - 1 };
                    let b = if j < at { j } else { j - 1 };
                    if i != at && j != at {
                        assert(order@[i] == before_order[a] && order@[j] == before_order[b]);
                        assert(out@[i] == before[a] && out@[j] == before[b]);
                    } else if i == at {
                        assert(out@[j] == before[j - 1]);
                    } else {
                        assert(order@[i] == before_order[i]);
                        assert(before_order[i] < n);
                    }
                }
                assert forall|k: int| 0 <= k < order@.len() implies (#[trigger] order@[k]) < n + 1
                    && out@[k] == ids@[order@[k] as int] by {
                    if k < at {
                        assert(order@[k] == before_order[k]);
                    } else if k > at {
                        assert(order@[k] == before_order[k - 1]);
                    }
                }
                assert(order@.no_duplicates()) by {
                    assert forall|i: int, j: int|
                        0 <= i < order@.len() && 0 <= j < order@.len() && i != j implies order@[i]
                        != order@[j] by {
                        let a = if i < at { i } else { i - 1 };
                        let b = if j < at { j } else { j - 1 };
                        if i != at {
                            assert(order@[i] == before_order[a]);
                            assert(before_order[a] < n);
                        }
                        if j != at {
                            assert(order@[j] == before_order[b]);
                            assert(before_order[b] < n);
                        }
                    }
                }
            }
            n = n + 1;
        }
        (out, order)
    }
}

// ---------------------------------------------------------------------------------------------
// When the brakes take hold
// ---------------------------------------------------------------------------------------------

/// The circuit opens from eight samples on, where more than sixty in a hundred failed.
pub proof fn circuit_opens_on_many_failures(samples: Seq<(u64, bool)>)
    ensures
        opens(samples) <==> samples.len() >= 8 && failures(samples, samples.len() as int) * 10
            > samples.len() * 6,
{
}

/// A sample that failed counts as a failure, another does not.
pub proof fn failures_are_counted(samples: Seq<(u64, bool)>, n: int)
    requires
        0 <= n < samples.len(),
    ensures
        failures(samples, 0) == 0,
        samples[n].1 ==> failures(samples, n + 1) == failures(samples, n) + 1,
        !samples[n].1 ==> failures(samples, n + 1) == failures(samples, n),
{
}

/// A sample counts for ten minutes.
pub proof fn samples_count_for_ten_minutes(samples: Seq<(u64, bool)>, now: u64)
    requires
        in_time_order(samples, now),
        samples.len() > 0,
    ensures
        now - samples[0].0 < 600_000 ==> fresh(samples, now) == samples,
        now - samples[0].0 >= 600_000 ==> fresh(samples, now) == fresh(samples.drop_first(), now),
{
    assert(samples[0].0 <= now);
    assert(samples.subrange(1, samples.len() as int) =~= samples.drop_first());
}

/// A fallback is granted if and only if its channel had none for ten minutes and fewer than three
/// were granted in the last ten; the channel's wait is looked at first.
pub proof fn fallbacks_are_granted_sparingly(m: LimiterModel, channel_id: i64, now: u64)
    ensures
        ({
            let (after, claim) = m.claimed(channel_id, now);
            let cooling = m.per_channel.contains_key(channel_id) && now
                < m.per_channel[channel_id] + 600_000;
            let many = recent(m.global_starts, now).len() >= 3;
            &&& claim == FallbackClaim::ChannelCooldown <==> cooling
            &&& claim == FallbackClaim::GlobalCircuitOpen <==> !cooling && many
            &&& claim == FallbackClaim::Allowed <==> !cooling && !many
            &&& claim == FallbackClaim::Allowed ==> after.per_channel.contains_key(channel_id)
                && after.per_channel[channel_id] == now && after.global_starts.len() > 0
                && after.global_starts.last() == now
            &&& claim != FallbackClaim::Allowed ==> after.per_channel == m.per_channel
            &&& forall|other: i64|
                other != channel_id ==> (after.per_channel.contains_key(other)
                    <==> #[trigger] m.per_channel.contains_key(other))
        }),
{
}

/// A grant counts for ten minutes.
pub proof fn grants_count_for_ten_minutes(starts: Seq<u64>, now: u64)
    requires
        starts.len() > 0,
        starts[0] <= now,
    ensures
        now - starts[0] < 600_000 ==> recent(starts, now) == starts,
        now - starts[0] >= 600_000 ==> recent(starts, now) == recent(starts.drop_first(), now),
{
    assert(starts.subrange(1, starts.len() as int) =~= starts.drop_first());
}

/// No four fallbacks are granted within ten minutes, and no two of one channel.
pub proof fn fallbacks_keep_apart(requests: Seq<(i64, u64)>, i: int, j: int)
    requires
        in_order_of_time(requests),
        0 <= i < j < after_requests(requests, requests.len() as int).1.len(),
    ensures
        ({
            let granted = after_requests(requests, requests.len() as int).1;
            &&& j >= i + 3 ==> granted[j].1 - granted[i].1 >= 600_000
            &&& granted[i].0 == granted[j].0 ==> granted[j].1 - granted[i].1 >= 600_000
        }),
{
    fallbacks_are_few(requests);
}

/// Of two channels the one that had no fallback comes first, then the one whose last lies longer
/// back.
pub proof fn long_waiting_channels_come_first(m: FallbackLimiter, a: i64, b: i64)
    ensures
        !m.per_channel@.contains_key(a) && m.per_channel@.contains_key(b) ==> m.ahead(a, b)
            && !m.ahead(b, a),
        m.per_channel@.contains_key(a) && m.per_channel@.contains_key(b) && m.per_channel@[a]
            < m.per_channel@[b] ==> m.ahead(a, b) && !m.ahead(b, a),
        !m.per_channel@.contains_key(a) && !m.per_channel@.contains_key(b) ==> !m.ahead(a, b),
{
}

} // verus!
