//! When a channel is polled next: predicted from when it published, from its subscription, and
//! from how often it failed.
use vstd::prelude::*;

use crate::channels::publication_keys;
use crate::clock::{
    is_zone, local_time, local_time_of, names_zone, parse_rfc2822, rfc2822_millis, LocalTime,
};
use crate::config::Config;
use crate::fault::DbError;
use crate::jobs::countable;
use crate::model::ChannelPriority;
use crate::order::arranged;
use crate::queue::str_view;
use crate::settings::{parse_number, parsed_number};
use crate::store::{
    channels_and_candidates_are_found, Channel, ChannelModel, ChannelRowModel, Database, DbModel,
};
use crate::text::{trim, trimmed};

verus! {

/// How far the use of the API is cut back to stay within its quota.
#[derive(Debug, Clone, Copy, PartialEq, Eq, Structural)]
pub enum QuotaDegradation {
    Normal,
    SkipDeepScan,
    ExtendCold,
    NarrowHot,
    FallbackOnly,
}

impl QuotaDegradation {
    /// How far, as a number.
    pub open spec fn level(self) -> int {
        match self {
            QuotaDegradation::Normal => 0,
            QuotaDegradation::SkipDeepScan => 1,
            QuotaDegradation::ExtendCold => 2,
            QuotaDegradation::NarrowHot => 3,
            QuotaDegradation::FallbackOnly => 4,
        }
    }

    fn level_number(self) -> (r: u8)
        ensures
            r == self.level(),
    {
        match self {
            QuotaDegradation::Normal => 0,
            QuotaDegradation::SkipDeepScan => 1,
            QuotaDegradation::ExtendCold => 2,
            QuotaDegradation::NarrowHot => 3,
            QuotaDegradation::FallbackOnly => 4,
        }
    }

    /// Whether it is cut back at least that far.
    pub fn at_least(self, other: QuotaDegradation) -> (r: bool)
        ensures
            r == (self.level() >= other.level()),
    {
        self.level_number() >= other.level_number()
    }
}

/// Why a channel is polled at an interval.
#[derive(Debug, Clone, Copy, PartialEq, Eq, Structural)]
pub enum DataApiPollMode {
    Priority,
    WebSubFallback,
    InsufficientHistory,
    PredictedHot,
    PredictedCold,
}

/// The interval until a channel is asked for next, in seconds, and why.
#[derive(Debug, Clone, Copy, PartialEq, Eq, Structural)]
pub struct DataApiPollDecision {
    pub interval: u64,
    pub mode: DataApiPollMode,
}

/// The seconds of a week.
pub const WEEK_SECONDS: i64 = 604_800;

/// So many minutes in seconds, as far as they can be counted.
pub open spec fn minutes(m: u64) -> int {
    if m * 60 <= u64::MAX {
        m * 60
    } else {
        u64::MAX as int
    }
}

fn minutes_in_seconds(m: u64) -> (r: u64)
    ensures
        r == minutes(m),
{
    if m <= u64::MAX / 60 {
        m * 60
    } else {
        u64::MAX
    }
}

/// How many of the first `n` publications fell on a weekday and in an hour.
pub open spec fn published_in(history: Seq<LocalTime>, weekday: int, hour: int, n: int) -> int
    decreases n,
{
    if n <= 0 {
        0
    } else {
        published_in(history, weekday, hour, n - 1) + if history[n - 1].weekday == weekday
            && history[n - 1].second as int / 3600 == hour {
            1int
        } else {
            0int
        }
    }
}

/// How many publications fell on a weekday and in an hour.
pub open spec fn publications(history: Seq<LocalTime>, weekday: int, hour: int) -> int {
    published_in(history, weekday, hour, history.len() as int)
}

/// Whether most publications of a weekday fell in an hour, the first of such hours.
pub open spec fn is_peak(history: Seq<LocalTime>, weekday: int, hour: int) -> bool {
    &&& 0 <= weekday < 7
    &&& 0 <= hour < 24
    &&& publications(history, weekday, hour) > 0
    &&& forall|g: int|
        0 <= g < 24 ==> #[trigger] publications(history, weekday, g) <= publications(
            history,
            weekday,
            hour,
        )
    &&& forall|g: int|
        0 <= g < hour ==> #[trigger] publications(history, weekday, g) < publications(
            history,
            weekday,
            hour,
        )
}

/// The middle of an hour of a weekday, in seconds of the week.
pub open spec fn centre(weekday: int, hour: int) -> int {
    weekday * 86_400 + hour * 3600 + 1800
}

/// The second of the week of a point in time.
pub open spec fn week_second(t: LocalTime) -> int {
    t.weekday * 86_400 + t.second
}

/// How far two seconds of the week are apart, the week being a circle.
pub open spec fn week_distance(a: int, b: int) -> int {
    let d = if a >= b {
        a - b
    } else {
        b - a
    };
    if d <= WEEK_SECONDS - d {
        d
    } else {
        WEEK_SECONDS - d
    }
}

/// Half the width of a hot window in seconds. It is narrower when the quota runs short.
pub open spec fn half_window(window_minutes: u64, degradation: QuotaDegradation) -> int {
    let m = if degradation.level() >= QuotaDegradation::NarrowHot.level() {
        if window_minutes / 2 >= 1 {
            (window_minutes / 2) as u64
        } else {
            1
        }
    } else {
        window_minutes
    };
    minutes(m) / 2
}

/// Whether a point in time lies in the hot window around the peak of some weekday.
pub open spec fn is_hot(history: Seq<LocalTime>, now: LocalTime, half: int) -> bool {
    exists|w: int, h: int|
        #[trigger] is_peak(history, w, h) && week_distance(week_second(now), centre(w, h)) <= half
}

/// The seconds until the hot window around a second of the week starts.
pub open spec fn seconds_until(centre: int, half: int, now: int) -> int {
    ((centre - half) % WEEK_SECONDS as int - now) % WEEK_SECONDS as int
}

/// The interval outside the hot windows, before it is cut short by the next one.
pub open spec fn cold_interval(cold_minutes: u64, degradation: QuotaDegradation) -> int {
    let base = minutes(cold_minutes);
    if degradation.level() >= QuotaDegradation::ExtendCold.level() {
        if base * 2 <= u64::MAX {
            base * 2
        } else {
            u64::MAX as int
        }
    } else {
        base
    }
}

/// Whether an interval is the longest up to `base` that does not pass the start of a hot window.
pub open spec fn reaches(
    history: Seq<LocalTime>,
    now: LocalTime,
    half: int,
    base: int,
    interval: int,
) -> bool {
    &&& interval <= base
    &&& forall|w: int, h: int|
        #[trigger] is_peak(history, w, h) && seconds_until(centre(w, h), half, week_second(now)) > 0
            ==> interval <= seconds_until(centre(w, h), half, week_second(now))
    &&& interval == base || starts_next(history, now, half, interval)
}

/// Whether a hot window starts after that many seconds.
pub open spec fn starts_next(history: Seq<LocalTime>, now: LocalTime, half: int, seconds: int) -> bool {
    seconds > 0 && exists|w: int, h: int|
        #[trigger] is_peak(history, w, h) && seconds_until(centre(w, h), half, week_second(now))
            == seconds
}

/// What the prediction decides for a channel, given when it published, how often, and the time.
pub open spec fn predicted(
    config: Config,
    history: Seq<LocalTime>,
    count: int,
    now: LocalTime,
    degradation: QuotaDegradation,
    websub_active: bool,
    r: DataApiPollDecision,
) -> bool {
    let half = half_window(config.monitor.prediction_window_minutes, degradation);
    if websub_active {
        r.mode == DataApiPollMode::WebSubFallback && r.interval == minutes(
            config.websub.data_api_poll_minutes,
        )
    } else if count < config.monitor.prediction_min_samples {
        r.mode == DataApiPollMode::InsufficientHistory && r.interval == minutes(
            config.monitor.prediction_fallback_poll_minutes,
        )
    } else if is_hot(history, now, half) {
        r.mode == DataApiPollMode::PredictedHot && r.interval
            == config.monitor.prediction_hot_poll_seconds
    } else {
        r.mode == DataApiPollMode::PredictedCold && reaches(
            history,
            now,
            half,
            cold_interval(config.monitor.prediction_cold_poll_minutes, degradation),
            r.interval as int,
        )
    }
}

fn count_published(history: &Vec<LocalTime>, weekday: u32, hour: u32) -> (r: usize)
    ensures
        r == publications(history@, weekday as int, hour as int),
{
    let mut count: usize = 0;
    let mut i: usize = 0;
    while i < history.len()
        invariant
            0 <= i <= history@.len(),
            count <= i,
            count == published_in(history@, weekday as int, hour as int, i as int),
        decreases history@.len() - i,
    {
        if history[i].weekday == weekday && history[i].second / 3600 == hour {
            count = count + 1;
        }
        i = i + 1;
    }
    count
}

fn peak_hour(history: &Vec<LocalTime>, weekday: u32) -> (r: Option<u32>)
    requires
        weekday < 7,
    ensures
        r matches Some(h) ==> is_peak(history@, weekday as int, h as int),
        r is None ==> forall|h: int| !is_peak(history@, weekday as int, h),
{
    let mut best: usize = 0;
    let mut hour: Option<u32> = None;
    let mut h: u32 = 0;
    while h < 24
        invariant
            weekday < 7,
            0 <= h <= 24,
            forall|g: int|
                0 <= g < h ==> #[trigger] publications(history@, weekday as int, g) <= best,
            hour is None ==> best == 0,
            hour matches Some(x) ==> x < h && best > 0 && publications(
                history@,
                weekday as int,
                x as int,
            ) == best && forall|g: int|
                0 <= g < x ==> #[trigger] publications(history@, weekday as int, g) < best,
        decreases 24 - h,
    {
        let count: usize = count_published(history, weekday, h);
        if count > best {
            best = count;
            hour = Some(h);
        }
        h = h + 1;
    }
    proof {
        if hour is None {
            assert forall|g: int| !is_peak(history@, weekday as int, g) by {
                if 0 <= g < 24 {
                    assert(publications(history@, weekday as int, g) <= 0);
                }
            }
        }
    }
    hour
}

/// A weekday has one peak at most.
pub proof fn one_peak_a_day(history: Seq<LocalTime>, weekday: int, a: int, b: int)
    requires
        is_peak(history, weekday, a),
        is_peak(history, weekday, b),
    ensures
        a == b,
{
    assert(publications(history, weekday, a) <= publications(history, weekday, b));
    assert(publications(history, weekday, b) <= publications(history, weekday, a));
}

fn peaks(history: &Vec<LocalTime>) -> (r: Vec<(u32, u32)>)
    ensures
        forall|i: int|
            0 <= i < r@.len() ==> is_peak(
                history@,
                (#[trigger] r@[i]).0 as int,
                r@[i].1 as int,
            ),
        forall|w: int, h: int|
            is_peak(history@, w, h) ==> exists|i: int|
                0 <= i < r@.len() && (#[trigger] r@[i]).0 == w && r@[i].1 == h,
{
    let mut out: Vec<(u32, u32)> = Vec::new();
    let mut w: u32 = 0;
    while w < 7
        invariant
            0 <= w <= 7,
            forall|i: int|
                0 <= i < out@.len() ==> is_peak(
                    history@,
                    (#[trigger] out@[i]).0 as int,
                    out@[i].1 as int,
                ),
            forall|v: int, h: int|
                is_peak(history@, v, h) && v < w ==> exists|i: int|
                    0 <= i < out@.len() && (#[trigger] out@[i]).0 == v && out@[i].1 == h,
        decreases 7 - w,
    {
        let ghost before = out@;
        match peak_hour(history, w) {
            Some(h) => {
                out.push((w, h));
                proof {
                    assert(out@[before.len() as int] == (w, h));
                    assert forall|v: int, g: int|
                        is_peak(history@, v, g) && v < w + 1 implies exists|i: int|
                        0 <= i < out@.len() && (#[trigger] out@[i]).0 == v && out@[i].1 == g by {
                        if v == w {
                            one_peak_a_day(history@, v, g, h as int);
                        } else {
                            let i = choose|i: int|
                                0 <= i < before.len() && (#[trigger] before[i]).0 == v
                                    && before[i].1 == g;
                            assert(out@[i] == before[i]);
                        }
                    }
                }
            },
            None => {},
        }
        w = w + 1;
    }
    out
}

fn distance_in_week(a: i64, b: i64) -> (r: i64)
    requires
        0 <= a < WEEK_SECONDS,
        0 <= b < WEEK_SECONDS,
    ensures
        r == week_distance(a as int, b as int),
{
    let d: i64 = if a >= b {
        a - b
    } else {
        b - a
    };
    if d <= WEEK_SECONDS - d {
        d
    } else {
        WEEK_SECONDS - d
    }
}

fn wait_for(centre: i64, half: i64, now: i64) -> (r: i64)
    requires
        0 <= centre < WEEK_SECONDS,
        0 <= half,
        0 <= now < WEEK_SECONDS,
    ensures
        r == seconds_until(centre as int, half as int, now as int),
        0 <= r < WEEK_SECONDS,
{
    let h: i64 = half % WEEK_SECONDS;
    let start: i64 = (centre + WEEK_SECONDS - h) % WEEK_SECONDS;
    proof {
        let w = WEEK_SECONDS as int;
        let q = half as int / w;
        vstd::arithmetic::div_mod::lemma_fundamental_div_mod(half as int, w);
        assert(half == w * q + h);
        vstd::arithmetic::div_mod::lemma_mod_multiples_vanish(-(q + 1), centre + w - h, w);
        assert(w * (-(q + 1)) + (centre + w - h) == centre - half) by (nonlinear_arith)
            requires
                half == w * q + h,
        ;
        assert((centre - half) % w == start);
    }
    let r: i64 = (start + WEEK_SECONDS - now) % WEEK_SECONDS;
    r
}

/// Decides when a channel is asked for next, from the weekdays and hours of its publications. `count`
/// is how many there are.
pub fn predict(
    config: &Config,
    history: &Vec<LocalTime>,
    count: usize,
    now: LocalTime,
    degradation: QuotaDegradation,
    websub_active: bool,
) -> (r: DataApiPollDecision)
    requires
        now.wf(),
    ensures
        predicted(*config, history@, count as int, now, degradation, websub_active, r),
{
    if websub_active {
        return DataApiPollDecision {
            interval: minutes_in_seconds(config.websub.data_api_poll_minutes),
            mode: DataApiPollMode::WebSubFallback,
        };
    }
    if count < config.monitor.prediction_min_samples {
        return DataApiPollDecision {
            interval: minutes_in_seconds(config.monitor.prediction_fallback_poll_minutes),
            mode: DataApiPollMode::InsufficientHistory,
        };
    }
    let window: u64 = config.monitor.prediction_window_minutes;
    let narrowed: u64 = if degradation.at_least(QuotaDegradation::NarrowHot) {
        if window / 2 >= 1 {
            window / 2
        } else {
            1
        }
    } else {
        window
    };
    let half: i64 = (minutes_in_seconds(narrowed) / 2) as i64;
    let second: i64 = (now.weekday as i64) * 86_400 + now.second as i64;
    let list = peaks(history);
    let base: u64 = minutes_in_seconds(config.monitor.prediction_cold_poll_minutes);
    let cold: u64 = if degradation.at_least(QuotaDegradation::ExtendCold) {
        if base <= u64::MAX / 2 {
            base * 2
        } else {
            u64::MAX
        }
    } else {
        base
    };
    let mut interval: u64 = cold;
    let mut i: usize = 0;
    while i < list.len()
        invariant
            0 <= i <= list@.len(),
            half >= 0,
            second == week_second(now),
            0 <= second < WEEK_SECONDS,
            interval <= cold,
            forall|j: int|
                0 <= j < list@.len() ==> is_peak(
                    history@,
                    (#[trigger] list@[j]).0 as int,
                    list@[j].1 as int,
                ),
            forall|j: int|
                0 <= j < i ==> week_distance(
                    second as int,
                    centre((#[trigger] list@[j]).0 as int, list@[j].1 as int),
                ) > half,
            forall|j: int|
                0 <= j < i ==> ({
                    let s = seconds_until(
                        centre((#[trigger] list@[j]).0 as int, list@[j].1 as int),
                        half as int,
                        second as int,
                    );
                    s > 0 ==> interval <= s
                }),
            interval == cold || starts_next(history@, now, half as int, interval as int),
            half == half_window(config.monitor.prediction_window_minutes, degradation),
            count >= config.monitor.prediction_min_samples,
            !websub_active,
        decreases list@.len() - i,
    {
        let (w, h): (u32, u32) = list[i];
        proof {
            assert(is_peak(history@, w as int, h as int));
        }
        let middle: i64 = (w as i64) * 86_400 + (h as i64) * 3600 + 1800;
        if distance_in_week(second, middle) <= half {
            proof {
                assert(is_peak(history@, w as int, h as int));
                assert(is_hot(history@, now, half as int));
            }
            return DataApiPollDecision {
                interval: config.monitor.prediction_hot_poll_seconds,
                mode: DataApiPollMode::PredictedHot,
            };
        }
        let wait: i64 = wait_for(middle, half, second);
        if wait > 0 && (wait as u64) < interval {
            interval = wait as u64;
            proof {
                assert(is_peak(history@, w as int, h as int));
                assert(starts_next(history@, now, half as int, interval as int));
            }
        }
        i = i + 1;
    }
    proof {
        if is_hot(history@, now, half as int) {
            let (w, h) = choose|w: int, h: int|
                #[trigger] is_peak(history@, w, h) && week_distance(week_second(now), centre(w, h))
                    <= half;
            let j = choose|j: int|
                0 <= j < list@.len() && (#[trigger] list@[j]).0 == w && list@[j].1 == h;
            assert(week_distance(second as int, centre(list@[j].0 as int, list@[j].1 as int)) > half);
        }
        assert forall|w: int, h: int|
            #[trigger] is_peak(history@, w, h) && seconds_until(
                centre(w, h),
                half as int,
                week_second(now),
            ) > 0 implies interval <= seconds_until(centre(w, h), half as int, week_second(now)) by {
            let j = choose|j: int|
                0 <= j < list@.len() && (#[trigger] list@[j]).0 == w && list@[j].1 == h;
            let s = seconds_until(
                centre(list@[j].0 as int, list@[j].1 as int),
                half as int,
                second as int,
            );
            assert(s > 0 ==> interval <= s);
        }
    }
    DataApiPollDecision { interval, mode: DataApiPollMode::PredictedCold }
}

/// A channel is never asked for later than when its next hot window starts, and inside one it is
/// asked for at the hot interval.
pub proof fn hot_windows_are_not_missed(
    config: Config,
    history: Seq<LocalTime>,
    count: int,
    now: LocalTime,
    degradation: QuotaDegradation,
    r: DataApiPollDecision,
    w: int,
    h: int,
)
    requires
        predicted(config, history, count, now, degradation, false, r),
        count >= config.monitor.prediction_min_samples,
        is_peak(history, w, h),
    ensures
        ({
            let half = half_window(config.monitor.prediction_window_minutes, degradation);
            let s = seconds_until(centre(w, h), half, week_second(now));
            &&& week_distance(week_second(now), centre(w, h)) <= half ==> r.interval
                == config.monitor.prediction_hot_poll_seconds
            &&& r.mode == DataApiPollMode::PredictedCold && s > 0 ==> r.interval <= s
        }),
{
}

/// Those of the first `n` points in time that lie in the calendar, where a zone is in force.
pub open spec fn in_zone(history: Seq<i64>, zone: Seq<char>, n: int) -> Seq<LocalTime>
    decreases n,
{
    if n <= 0 {
        Seq::empty()
    } else {
        match local_time_of(history[n - 1] as int, zone) {
            Some(t) => in_zone(history, zone, n - 1).push(t),
            None => in_zone(history, zone, n - 1),
        }
    }
}

/// Why a channel cannot be scheduled.
#[derive(Debug, Clone, Copy, PartialEq, Eq, Structural)]
pub enum ScheduleError {
    /// The configured zone is none.
    Timezone,
    /// The present, or when the channel is next, lies outside the calendar.
    OutOfCalendar,
    /// The tables refuse.
    Database(DbError),
}

/// Decides when a channel is asked for next, from when it published and the zone that is in force.
/// A point in time outside the calendar counts as a publication but on no weekday.
pub fn prediction_poll_decision(
    config: &Config,
    history: &[i64],
    now: i64,
    timezone: &str,
    degradation: QuotaDegradation,
    websub_active: bool,
) -> (r: Result<DataApiPollDecision, ScheduleError>)
    ensures
        r == Err::<DataApiPollDecision, ScheduleError>(ScheduleError::Timezone) <==> !is_zone(
            timezone@,
        ),
        is_zone(timezone@) ==> match local_time_of(now as int, timezone@) {
            None => r == Err::<DataApiPollDecision, ScheduleError>(ScheduleError::OutOfCalendar),
            Some(t) => r matches Ok(d) && predicted(
                *config,
                in_zone(history@, timezone@, history@.len() as int),
                history@.len() as int,
                t,
                degradation,
                websub_active,
                d,
            ),
        },
{
    if !names_zone(timezone) {
        return Err(ScheduleError::Timezone);
    }
    let local_now = match local_time(now, timezone) {
        Some(t) => t,
        None => {
            return Err(ScheduleError::OutOfCalendar);
        },
    };
    let mut local: Vec<LocalTime> = Vec::new();
    let mut i: usize = 0;
    while i < history.len()
        invariant
            0 <= i <= history@.len(),
            local@ == in_zone(history@, timezone@, i as int),
        decreases history@.len() - i,
    {
        match local_time(history[i], timezone) {
            Some(t) => {
                local.push(t);
            },
            None => {},
        }
        i = i + 1;
    }
    Ok(predict(config, &local, history.len(), local_now, degradation, websub_active))
}

/// Whether a channel is subscribed to.
pub open spec fn subscribed(config: Config, c: ChannelModel, now: i64) -> bool {
    config.websub.enabled && (c.websub_lease_expires_at matches Some(t) && t > now)
}

/// Whether a channel is subscribed to, so that new videos are pushed and polling is only for what
/// the push misses.
pub fn websub_lease_active(config: &Config, channel: &Channel, now: i64) -> (r: bool)
    ensures
        r == subscribed(*config, channel@, now),
{
    config.websub.enabled && match channel.websub_lease_expires_at {
        Some(t) => t > now,
        None => false,
    }
}

/// The interval after a feed was read, in seconds.
pub open spec fn feed_interval(config: Config, c: ChannelModel, now: i64) -> int {
    if subscribed(config, c, now) {
        minutes(config.websub.data_api_poll_minutes)
    } else if config.monitor.poll_seconds >= 1 {
        config.monitor.poll_seconds as int
    } else {
        1
    }
}

/// The interval after a feed was read, in seconds: that of the subscription, or the usual one.
pub fn rss_poll_interval(config: &Config, channel: &Channel, now: i64) -> (r: u64)
    ensures
        r == feed_interval(*config, channel@, now),
{
    if websub_lease_active(config, channel, now) {
        minutes_in_seconds(config.websub.data_api_poll_minutes)
    } else if config.monitor.poll_seconds >= 1 {
        config.monitor.poll_seconds
    } else {
        1
    }
}

/// What is decided for a channel: a preferred one without a subscription is asked for at the usual
/// interval, any other by prediction.
pub open spec fn api_decided(
    config: Config,
    c: ChannelModel,
    history: Seq<i64>,
    now: i64,
    degradation: QuotaDegradation,
    r: Result<DataApiPollDecision, ScheduleError>,
) -> bool {
    let zone = config.runtime.timezone@;
    let active = subscribed(config, c, now);
    if c.priority == ChannelPriority::Priority && !active {
        r matches Ok(d) && d.mode == DataApiPollMode::Priority && d.interval == (
        if config.monitor.poll_seconds >= 1 {
            config.monitor.poll_seconds
        } else {
            1u64
        })
    } else if !is_zone(zone) {
        r == Err::<DataApiPollDecision, ScheduleError>(ScheduleError::Timezone)
    } else {
        match local_time_of(now as int, zone) {
            None => r == Err::<DataApiPollDecision, ScheduleError>(ScheduleError::OutOfCalendar),
            Some(t) => r matches Ok(d) && predicted(
                config,
                in_zone(history, zone, history.len() as int),
                history.len() as int,
                t,
                degradation,
                active,
                d,
            ),
        }
    }
}

/// Decides when a channel is asked for next at the API.
pub fn data_api_poll_decision(
    config: &Config,
    channel: &Channel,
    history: &[i64],
    now: i64,
    degradation: QuotaDegradation,
) -> (r: Result<DataApiPollDecision, ScheduleError>)
    ensures
        api_decided(*config, channel@, history@, now, degradation, r),
{
    let active = websub_lease_active(config, channel, now);
    if channel.priority == ChannelPriority::Priority && !active {
        let interval: u64 = if config.monitor.poll_seconds >= 1 {
            config.monitor.poll_seconds
        } else {
            1
        };
        return Ok(DataApiPollDecision { interval, mode: DataApiPollMode::Priority });
    }
    prediction_poll_decision(
        config,
        history,
        now,
        config.runtime.timezone.as_str(),
        degradation,
        active,
    )
}

/// The point in time after an interval, where it can be counted.
pub open spec fn after_interval(now: i64, seconds: int) -> Option<int> {
    if countable(now + seconds * 1000) {
        Some(now + seconds * 1000)
    } else {
        None
    }
}

fn time_after(now: i64, seconds: u64) -> (r: Option<i64>)
    ensures
        r is Some <==> after_interval(now, seconds as int) is Some,
        r matches Some(t) ==> after_interval(now, seconds as int) == Some(t as int),
{
    let t: i128 = (now as i128) + (seconds as i128) * 1000;
    if t <= i64::MAX as i128 {
        Some(t as i64)
    } else {
        None
    }
}

/// The row of a channel that is asked for at a time, with the tag of the last answer where one came.
pub open spec fn asked_at(row: ChannelRowModel, at: i64, etag: Option<&str>) -> ChannelRowModel {
    ChannelRowModel {
        channel: ChannelModel {
            next_data_api_poll_at: Some(at),
            data_api_etag: if etag is Some {
                str_view(etag)
            } else {
                row.channel.data_api_etag
            },
            ..row.channel
        },
        ..row
    }
}

/// What it does to decide when a channel is asked for next, and to set it.
pub open spec fn api_scheduled(
    before: DbModel,
    after: DbModel,
    config: Config,
    channel_id: i64,
    now: i64,
    degradation: QuotaDegradation,
    etag: Option<&str>,
    r: Result<DataApiPollDecision, ScheduleError>,
) -> bool {
    &&& r is Err ==> after == before
    &&& before.channel_at(channel_id) is None ==> r == Err::<DataApiPollDecision, ScheduleError>(
        ScheduleError::Database(DbError::NoRow),
    )
    &&& r matches Ok(d) ==> (before.channel_at(channel_id) matches Some(k) && (after_interval(
        now,
        d.interval as int,
    ) matches Some(t) && after == before.with_channel(
        k,
        asked_at(before.channels[k], t as i64, etag),
    )))
    &&& before.channel_at(channel_id) matches Some(k) ==> exists|history: Seq<i64>|
        #![trigger history_of(before, channel_id, history)]
        history_of(before, channel_id, history) && scheduled_as(
            config,
            before.channels[k].channel,
            history,
            now,
            degradation,
            r,
        )
}

/// What setting when a channel is asked for next does: it waits until the quota starts anew where
/// that is used up, else what is decided for it holds.
pub open spec fn api_rescheduled(
    before: DbModel,
    after: DbModel,
    config: Config,
    channel_id: i64,
    now: i64,
    degradation: QuotaDegradation,
    reset_at: i64,
    etag: Option<&str>,
    r: Result<Option<DataApiPollDecision>, ScheduleError>,
) -> bool {
    if degradation == QuotaDegradation::FallbackOnly {
        match before.channel_at(channel_id) {
            Some(k) => r == Ok::<Option<DataApiPollDecision>, ScheduleError>(None) && after
                == before.with_channel(k, asked_at(before.channels[k], reset_at, etag)),
            None => r == Err::<Option<DataApiPollDecision>, ScheduleError>(
                ScheduleError::Database(DbError::NoChannel),
            ) && after == before,
        }
    } else {
        match r {
            Ok(None) => false,
            Ok(Some(d)) => api_scheduled(
                before,
                after,
                config,
                channel_id,
                now,
                degradation,
                etag,
                Ok(d),
            ),
            Err(e) => api_scheduled(
                before,
                after,
                config,
                channel_id,
                now,
                degradation,
                etag,
                Err(e),
            ),
        }
    }
}

impl Database {
    /// Decides when a channel is asked for next at the API, and sets it.
    pub fn schedule_data_api_channel(
        &mut self,
        config: &Config,
        channel_id: i64,
        now: i64,
        degradation: QuotaDegradation,
        etag: Option<&str>,
    ) -> (r: Result<DataApiPollDecision, ScheduleError>)
        ensures
            api_scheduled(
                old(self)@,
                final(self)@,
                *config,
                channel_id,
                now,
                degradation,
                etag,
                r,
            ),
            old(self)@.wf() ==> final(self)@.wf(),
    {
        let channel = match self.channel(channel_id) {
            Ok(c) => c,
            Err(e) => {
                return Err(ScheduleError::Database(e));
            },
        };
        let history = self.channel_publication_history(channel_id);
        proof {
            assert(history_of(self@, channel_id, history@));
        }
        let decision = match data_api_poll_decision(
            config,
            &channel,
            history.as_slice(),
            now,
            degradation,
        ) {
            Ok(d) => d,
            Err(e) => {
                return Err(e);
            },
        };
        let next: i64 = match time_after(now, decision.interval) {
            Some(t) => t,
            None => {
                return Err(ScheduleError::OutOfCalendar);
            },
        };
        match self.schedule_data_api_poll(channel_id, next, etag) {
            Ok(()) => Ok(decision),
            Err(e) => Err(ScheduleError::Database(e)),
        }
    }

    /// Sets when a channel is asked for next at the API: when the quota starts anew where it is used
    /// up, else as is decided for it.
    pub fn reschedule_api_channel(
        &mut self,
        config: &Config,
        channel_id: i64,
        now: i64,
        degradation: QuotaDegradation,
        reset_at: i64,
        etag: Option<&str>,
    ) -> (r: Result<Option<DataApiPollDecision>, ScheduleError>)
        ensures
            api_rescheduled(
                old(self)@,
                final(self)@,
                *config,
                channel_id,
                now,
                degradation,
                reset_at,
                etag,
                r,
            ),
            old(self)@.wf() ==> final(self)@.wf(),
    {
        if degradation == QuotaDegradation::FallbackOnly {
            return match self.schedule_data_api_poll(channel_id, reset_at, etag) {
                Ok(()) => Ok(None),
                Err(e) => Err(ScheduleError::Database(e)),
            };
        }
        match self.schedule_data_api_channel(config, channel_id, now, degradation, etag) {
            Ok(d) => Ok(Some(d)),
            Err(e) => Err(e),
        }
    }
}

/// Whether a list holds when the jobs of a channel were published, the earliest first.
pub open spec fn history_of(db: DbModel, channel_id: i64, history: Seq<i64>) -> bool {
    exists|order: Seq<int>|
        #![trigger arranged(publication_keys(db, channel_id), order)]
        arranged(publication_keys(db, channel_id), order) && history
            == order.map_values(|k: int| db.jobs[k].job.published_at->Some_0)
}

/// What scheduling gives: what was decided, or that the next time lies outside the calendar.
pub open spec fn scheduled_as(
    config: Config,
    c: ChannelModel,
    history: Seq<i64>,
    now: i64,
    degradation: QuotaDegradation,
    r: Result<DataApiPollDecision, ScheduleError>,
) -> bool {
    api_decided(config, c, history, now, degradation, r) || (r == Err::<
        DataApiPollDecision,
        ScheduleError,
    >(ScheduleError::OutOfCalendar) && exists|d: DataApiPollDecision|
        api_decided(
            config,
            c,
            history,
            now,
            degradation,
            Ok::<DataApiPollDecision, ScheduleError>(d),
        ) && #[trigger] after_interval(now, d.interval as int) is None)
}

/// The most that a channel waits after failures, in milliseconds.
pub const CHANNEL_FAILURE_BACKOFF_CAP_MS: u64 = 21_600_000;

/// The part of jitter that is a whole.
pub const JITTER_WHOLE: u32 = 131_070;

/// The least jitter, a half.
pub const JITTER_LEAST: u32 = 65_535;

/// The most jitter, one and a half.
pub const JITTER_MOST: u32 = 196_605;

/// The first two bytes of `uuid::Uuid::new_v4` as one number. Which number is left to chance.
#[verifier::external_body]
pub(crate) fn random_sample() -> (r: u16) {
    let bytes = uuid::Uuid::new_v4().into_bytes();
    u16::from_be_bytes([bytes[0], bytes[1]])
}

/// The jitter that a number from chance stands for: the least for zero, the most for the largest.
pub fn jitter_of(sample: u16) -> (r: u32)
    ensures
        r == JITTER_LEAST + 2 * sample,
        JITTER_LEAST <= r <= JITTER_MOST,
{
    JITTER_LEAST + 2 * (sample as u32)
}

/// A jitter from a half to one and a half, by chance.
pub fn random_jitter_factor() -> (r: u32)
    ensures
        JITTER_LEAST <= r <= JITTER_MOST,
{
    jitter_of(random_sample())
}

/// Two to a power, up to the twentieth.
pub open spec fn doubled(exponent: int) -> int
    decreases exponent,
{
    if exponent <= 0 {
        1
    } else if exponent > 20 {
        0x10_0000
    } else {
        2 * doubled(exponent - 1)
    }
}

/// A jitter within its bounds.
pub open spec fn jitter_within(jitter: u32) -> int {
    if jitter < JITTER_LEAST {
        JITTER_LEAST as int
    } else if jitter > JITTER_MOST {
        JITTER_MOST as int
    } else {
        jitter as int
    }
}

/// A wait in milliseconds that doubles with the exponent and is spread by jitter, as far as it can
/// be counted.
pub open spec fn backoff(base_seconds: u64, exponent: u32, jitter: u32) -> int {
    let ms = base_seconds * 1000 * doubled(exponent as int) * jitter_within(jitter)
        / JITTER_WHOLE as int;
    if ms <= u64::MAX {
        ms
    } else {
        u64::MAX as int
    }
}

proof fn doubled_bounds(e: int)
    ensures
        1 <= doubled(e) <= 0x10_0000,
        e >= 20 ==> doubled(e) == 0x10_0000,
    decreases e,
{
    reveal_with_fuel(doubled, 22);
    if 0 < e <= 20 {
        doubled_bounds(e - 1);
    }
}

/// A wait in milliseconds that doubles with the exponent and is spread by jitter.
pub fn jittered_backoff(base_seconds: u64, exponent: u32, jitter: u32) -> (r: u64)
    ensures
        r == backoff(base_seconds, exponent, jitter),
{
    let mut factor: u128 = 1;
    let top: u32 = if exponent > 20 {
        20
    } else {
        exponent
    };
    let mut e: u32 = 0;
    while e < top
        invariant
            0 <= e <= top <= 20,
            factor == doubled(e as int),
            1 <= factor <= 0x10_0000,
        decreases top - e,
    {
        proof {
            doubled_bounds(e + 1);
        }
        factor = factor * 2;
        e = e + 1;
    }
    proof {
        doubled_bounds(exponent as int);
        doubled_bounds(20);
        assert(factor == doubled(exponent as int));
    }
    let j: u128 = if jitter < JITTER_LEAST {
        JITTER_LEAST as u128
    } else if jitter > JITTER_MOST {
        JITTER_MOST as u128
    } else {
        jitter as u128
    };
    let base: u128 = (base_seconds as u128) * 1000;
    proof {
        assert(base * factor <= 0x4000_0000_0000_0000_0000 * 0x10_0000) by (nonlinear_arith)
            requires
                0 <= base <= 0x4000_0000_0000_0000_0000,
                0 <= factor <= 0x10_0000,
        ;
        assert((base * factor) * j <= 0x4000_0000_0000_0000_0000_00000 * 196_605) by (
            nonlinear_arith)
            requires
                0 <= base * factor <= 0x4000_0000_0000_0000_0000_00000,
                0 <= j <= 196_605,
        ;
    }
    let ms: u128 = base * factor * j / (JITTER_WHOLE as u128);
    if ms <= u64::MAX as u128 {
        ms as u64
    } else {
        u64::MAX
    }
}

/// A wait doubles with each failure up to the twentieth and lies between a half and one and a half
/// of that.
pub proof fn backoff_is_spread(base_seconds: u64, exponent: u32, jitter: u32)
    requires
        base_seconds * 1000 * doubled(exponent as int) * JITTER_MOST <= u64::MAX,
    ensures
        base_seconds * 500 * doubled(exponent as int) <= backoff(base_seconds, exponent, jitter)
            <= base_seconds * 1500 * doubled(exponent as int),
{
    doubled_bounds(exponent as int);
    let d = doubled(exponent as int);
    let j = jitter_within(jitter);
    let x = base_seconds * 1000 * d;
    assert(x >= 0) by (nonlinear_arith)
        requires
            x == base_seconds * 1000 * d,
            d >= 1,
    ;
    assert(x * 65_535 <= x * j <= x * 196_605) by (nonlinear_arith)
        requires
            x >= 0,
            65_535 <= j <= 196_605,
    ;
    assert(base_seconds * 500 * d * 2 == x && base_seconds * 1500 * d * 2 == x * 3) by (
        nonlinear_arith)
        requires
            x == base_seconds * 1000 * d,
    ;
    let low = base_seconds * 500 * d;
    let high = base_seconds * 1500 * d;
    assert(low * 131_070 <= x * j <= high * 131_070);
    assert(x * j / 131_070 >= low && x * j / 131_070 <= high) by (nonlinear_arith)
        requires
            low * 131_070 <= x * j <= high * 131_070,
    ;
}

/// How reading a feed failed.
#[derive(Debug, Clone, Copy, PartialEq, Eq, Structural)]
pub enum FeedFailure {
    /// The server answered with a status, and perhaps told when to ask again.
    Http { status: u16, retry_at: Option<i64> },
    /// The request failed: it took too long or found nobody, or else.
    Request { timeout_or_connect: bool },
    /// The answer is too long.
    BodyTooLarge,
}

/// How often reading a feed is tried again at once.
pub const RSS_MAX_RETRIES: u32 = 3;

/// The first wait before reading a feed is tried again, in seconds.
pub const RSS_RETRY_BASE_SECONDS: u64 = 1;

/// The longest answer that is read.
pub const RSS_BODY_LIMIT: usize = 1_048_576;

impl FeedFailure {
    /// Whether it is worth trying again at once.
    pub open spec fn passing(self) -> bool {
        match self {
            FeedFailure::Http { status, .. } => 500 <= status < 600,
            FeedFailure::Request { timeout_or_connect } => timeout_or_connect,
            FeedFailure::BodyTooLarge => false,
        }
    }

    /// Whether it is worth trying again at once: the server erred, took too long or was not found.
    pub fn retryable(&self) -> (r: bool)
        ensures
            r == self.passing(),
    {
        match self {
            FeedFailure::Http { status, .. } => 500 <= *status && *status < 600,
            FeedFailure::Request { timeout_or_connect } => *timeout_or_connect,
            FeedFailure::BodyTooLarge => false,
        }
    }

    /// When the server wants to be asked again.
    pub fn retry_at(&self) -> (r: Option<i64>)
        ensures
            r == match *self {
                FeedFailure::Http { retry_at, .. } => retry_at,
                _ => None,
            },
    {
        match self {
            FeedFailure::Http { retry_at, .. } => *retry_at,
            _ => None,
        }
    }
}

/// The wait before reading a feed is tried again after so many tries before this one, in
/// milliseconds; nothing where it is given up.
pub fn next_feed_try(failure: &FeedFailure, retries: u32, jitter: u32) -> (r: Option<u64>)
    ensures
        r is Some <==> retries < RSS_MAX_RETRIES && failure.passing(),
        r matches Some(ms) ==> ms == backoff(RSS_RETRY_BASE_SECONDS, retries, jitter),
{
    if retries < RSS_MAX_RETRIES && failure.retryable() {
        Some(jittered_backoff(RSS_RETRY_BASE_SECONDS, retries, jitter))
    } else {
        None
    }
}

/// The point in time that a `Retry-After` names: so many seconds from now, or a date.
pub open spec fn retry_after(text: Seq<char>, now: i64) -> Option<int> {
    let raw = trimmed(text);
    match parsed_number(raw, u64::MAX as int) {
        Some(n) => if countable(now + n * 1000) {
            Some(now + n * 1000)
        } else {
            None
        },
        None => rfc2822_millis(raw),
    }
}

/// Reads a `Retry-After`: so many seconds from now, or a date.
pub fn parse_retry_after(value: &str, now: i64) -> (r: Option<i64>)
    ensures
        r is Some <==> retry_after(value@, now) is Some,
        r matches Some(t) ==> retry_after(value@, now) == Some(t as int),
{
    let raw = trim(value);
    match parse_number(raw.as_str(), u64::MAX) {
        Some(n) => {
            let t: i128 = (now as i128) + (n as i128) * 1000;
            if t <= i64::MAX as i128 {
                Some(t as i64)
            } else {
                None
            }
        },
        None => parse_rfc2822(raw.as_str()),
    }
}

/// When a feed is read next: when the server wants it, else after a wait that grows with the
/// failures, else after the usual interval.
pub open spec fn next_feed_poll(
    config: Config,
    c: ChannelModel,
    failed: bool,
    retry_at: Option<i64>,
    jitter: u32,
    now: i64,
) -> Option<int> {
    if retry_at is Some {
        Some(retry_at->Some_0 as int)
    } else if failed {
        let base = if config.monitor.poll_seconds >= 1 {
            config.monitor.poll_seconds
        } else {
            1u64
        };
        let wait = backoff(base, c.consecutive_failures, jitter);
        let ms = if wait <= CHANNEL_FAILURE_BACKOFF_CAP_MS {
            wait
        } else {
            CHANNEL_FAILURE_BACKOFF_CAP_MS as int
        };
        if countable(now + ms) {
            Some(now + ms)
        } else {
            None
        }
    } else {
        after_interval(now, feed_interval(config, c, now))
    }
}

/// Decides when a feed is read next; nothing where that lies outside the range of times.
pub fn next_poll_after(
    config: &Config,
    channel: &Channel,
    failed: bool,
    retry_at: Option<i64>,
    jitter: u32,
    now: i64,
) -> (r: Option<i64>)
    ensures
        r is Some <==> next_feed_poll(*config, channel@, failed, retry_at, jitter, now) is Some,
        r matches Some(t) ==> next_feed_poll(*config, channel@, failed, retry_at, jitter, now)
            == Some(t as int),
{
    match retry_at {
        Some(t) => {
            return Some(t);
        },
        None => {},
    }
    if failed {
        let base: u64 = if config.monitor.poll_seconds >= 1 {
            config.monitor.poll_seconds
        } else {
            1
        };
        let wait: u64 = jittered_backoff(base, channel.consecutive_failures, jitter);
        let ms: u64 = if wait <= CHANNEL_FAILURE_BACKOFF_CAP_MS {
            wait
        } else {
            CHANNEL_FAILURE_BACKOFF_CAP_MS
        };
        let t: i128 = (now as i128) + ms as i128;
        if t <= i64::MAX as i128 {
            Some(t as i64)
        } else {
            None
        }
    } else {
        time_after(now, rss_poll_interval(config, channel, now))
    }
}

// ---------------------------------------------------------------------------------------------
// When a channel is asked again
// ---------------------------------------------------------------------------------------------

/// A minute has sixty seconds, as far as they can be counted.
pub proof fn minutes_have_sixty_seconds(m: u64)
    ensures
        m * 60 <= u64::MAX ==> minutes(m) == m * 60,
        m * 60 > u64::MAX ==> minutes(m) == u64::MAX,
{
}

/// The publications of an hour of a weekday are counted one by one, and no other is.
pub proof fn publications_are_counted(history: Seq<LocalTime>, weekday: int, hour: int, n: int)
    requires
        0 <= n < history.len(),
    ensures
        ({
            let t = history[n];
            published_in(history, weekday, hour, n + 1) == published_in(history, weekday, hour, n)
                + if t.weekday == weekday && hour * 3600 <= t.second < hour * 3600 + 3600 {
                1int
            } else {
                0int
            }
        }),
        published_in(history, weekday, hour, 0) == 0,
{
}

/// The middle of an hour is half an hour behind its start, and days follow each other.
pub proof fn hours_have_their_middle(t: LocalTime, hour: int)
    requires
        t.second == hour * 3600,
    ensures
        centre(t.weekday as int, hour) == week_second(t) + 1_800,
        centre(t.weekday as int + 1, hour) == centre(t.weekday as int, hour) + 86_400,
{
}

/// The distance between two points of a week is the shorter way round, either way, and never more
/// than half a week.
pub proof fn weeks_go_round(a: int, b: int)
    requires
        0 <= a < 604_800,
        0 <= b < 604_800,
    ensures
        week_distance(a, b) == week_distance(b, a),
        0 <= week_distance(a, b) <= 302_400,
        week_distance(a, b) == 0 <==> a == b,
        a <= b && b - a <= 302_400 ==> week_distance(a, b) == b - a,
        a <= b && b - a > 302_400 ==> week_distance(a, b) == a + 604_800 - b,
{
}

/// An hour in which more was published than in any other of its day makes a channel hot around its
/// middle, within the half window, and no longer.
pub proof fn channels_are_hot_around_their_peaks(
    history: Seq<LocalTime>,
    now: LocalTime,
    half: int,
    w: int,
    h: int,
)
    requires
        0 <= w < 7,
        0 <= h < 24,
        publications(history, w, h) > 0,
        forall|g: int|
            0 <= g < 24 && g != h ==> #[trigger] publications(history, w, g) < publications(
                history,
                w,
                h,
            ),
        now.weekday == w,
        0 <= half,
    ensures
        -half <= now.second - (h * 3600 + 1_800) <= half ==> is_hot(history, now, half),
{
    assert(is_peak(history, w, h));
}

/// A channel without publications is never hot.
pub proof fn quiet_channels_are_cold(history: Seq<LocalTime>, now: LocalTime, half: int)
    requires
        history.len() == 0,
    ensures
        !is_hot(history, now, half),
{
    assert forall|w: int, h: int| !(#[trigger] is_peak(history, w, h)) by {
        assert(publications(history, w, h) == 0);
    }
}

/// The window around a peak is as wide as configured, and half of that, but at least a minute, when
/// the quota runs low. What is cold waits as configured, and twice as long when the quota runs low.
pub proof fn low_quota_saves_calls(window_minutes: u64, cold_minutes: u64, d: QuotaDegradation)
    requires
        window_minutes <= 10_080,
        cold_minutes <= 525_600,
    ensures
        ({
            let narrow = d == QuotaDegradation::NarrowHot || d == QuotaDegradation::FallbackOnly;
            &&& !narrow ==> half_window(window_minutes, d) == window_minutes * 30
            &&& narrow && window_minutes >= 2 ==> half_window(window_minutes, d) == (window_minutes
                / 2) * 30
            &&& narrow && window_minutes < 2 ==> half_window(window_minutes, d) == 30
        }),
        d == QuotaDegradation::Normal || d == QuotaDegradation::SkipDeepScan ==> cold_interval(
            cold_minutes,
            d,
        ) == cold_minutes * 60,
        d == QuotaDegradation::ExtendCold || d == QuotaDegradation::NarrowHot || d
            == QuotaDegradation::FallbackOnly ==> cold_interval(cold_minutes, d) == cold_minutes
            * 120,
{
}

/// How a channel is polled goes by what is known of it: a subscription makes it rare; too few
/// publications give the fallback; a hot channel is polled at the hot interval; a cold one no later
/// than at the cold one.
pub proof fn polling_goes_by_the_history(
    config: Config,
    history: Seq<LocalTime>,
    count: int,
    now: LocalTime,
    degradation: QuotaDegradation,
    websub_active: bool,
    r: DataApiPollDecision,
)
    requires
        predicted(config, history, count, now, degradation, websub_active, r),
        config.websub.data_api_poll_minutes <= 525_600,
        config.monitor.prediction_fallback_poll_minutes <= 525_600,
    ensures
        ({
            let few = count < config.monitor.prediction_min_samples;
            let hot = is_hot(
                history,
                now,
                half_window(config.monitor.prediction_window_minutes, degradation),
            );
            &&& websub_active ==> r.mode == DataApiPollMode::WebSubFallback && r.interval
                == config.websub.data_api_poll_minutes * 60
            &&& !websub_active && few ==> r.mode == DataApiPollMode::InsufficientHistory
                && r.interval == config.monitor.prediction_fallback_poll_minutes * 60
            &&& !websub_active && !few && hot ==> r.mode == DataApiPollMode::PredictedHot
                && r.interval == config.monitor.prediction_hot_poll_seconds
            &&& !websub_active && !few && !hot ==> r.mode == DataApiPollMode::PredictedCold
                && r.interval <= cold_interval(
                config.monitor.prediction_cold_poll_minutes,
                degradation,
            )
        }),
{
}

/// A subscription counts while it is switched on and lasts.
pub proof fn subscriptions_count_while_they_last(config: Config, c: ChannelModel, now: i64)
    ensures
        subscribed(config, c, now) <==> config.websub.enabled && c.websub_lease_expires_at is Some
            && now < c.websub_lease_expires_at->Some_0,
        !subscribed(config, c, now) && config.monitor.poll_seconds > 0 ==> feed_interval(
            config,
            c,
            now,
        ) == config.monitor.poll_seconds,
        !subscribed(config, c, now) && config.monitor.poll_seconds == 0 ==> feed_interval(
            config,
            c,
            now,
        ) == 1,
        subscribed(config, c, now) && config.websub.data_api_poll_minutes <= 525_600
            ==> feed_interval(config, c, now) == config.websub.data_api_poll_minutes * 60,
{
}

/// A preferred channel without a subscription is polled at the plain interval, whatever its history.
pub proof fn preferred_channels_are_polled_plainly(
    config: Config,
    c: ChannelModel,
    history: Seq<i64>,
    now: i64,
    degradation: QuotaDegradation,
    r: Result<DataApiPollDecision, ScheduleError>,
)
    requires
        api_decided(config, c, history, now, degradation, r),
        c.priority == ChannelPriority::Priority,
        !config.websub.enabled,
    ensures
        r is Ok && r->Ok_0.mode == DataApiPollMode::Priority,
        config.monitor.poll_seconds > 0 ==> r->Ok_0.interval == config.monitor.poll_seconds,
        config.monitor.poll_seconds == 0 ==> r->Ok_0.interval == 1,
{
}

/// The wait after failures doubles with each, up to twenty times, and is spread by the jitter: at
/// its middle the wait is exact.
pub proof fn backoff_doubles(base_seconds: u64, exponent: u32)
    requires
        base_seconds <= 3_600,
    ensures
        backoff(base_seconds, 0, 131_070) == base_seconds * 1_000,
        exponent < 20 ==> backoff(base_seconds, (exponent + 1) as u32, 131_070) == 2 * backoff(
            base_seconds,
            exponent,
            131_070,
        ),
        exponent >= 20 ==> backoff(base_seconds, exponent, 131_070) == backoff(
            base_seconds,
            20,
            131_070,
        ),
{
    doubled_is_small(exponent as int);
    doubled_is_small(exponent as int + 1);
    doubled_is_small(20);
    doubled_is_small(0);
    exact_middle(base_seconds, doubled(exponent as int));
    exact_middle(base_seconds, doubled(exponent as int + 1));
    exact_middle(base_seconds, doubled(20));
    exact_middle(base_seconds, doubled(0));
    if exponent < 20 {
        assert(doubled(exponent as int + 1) == 2 * doubled(exponent as int));
        let a = base_seconds * 1000;
        let d = doubled(exponent as int);
        assert(a * (2 * d) == 2 * (a * d)) by (nonlinear_arith);
    } else if exponent > 20 {
        assert(doubled(20) == 0x10_0000) by {
            reveal_with_fuel(doubled, 22);
        }
    }
}

proof fn doubled_is_small(n: int)
    ensures
        1 <= doubled(n) <= 0x10_0000,
        0 <= n <= 10 ==> doubled(n) <= 0x400,
    decreases n,
{
    reveal_with_fuel(doubled, 22);
    if n == 20 || n == 19 || n == 18 || n == 17 || n == 16 || n == 15 || n == 14 || n == 13 || n
        == 12 || n == 11 {
    } else if 0 < n <= 20 {
        doubled_is_small(n - 1);
    }
}

proof fn exact_middle(base_seconds: u64, d: int)
    requires
        base_seconds <= 3_600,
        1 <= d <= 0x10_0000,
    ensures
        base_seconds * 1000 * d * 131_070 / 131_070 == base_seconds * 1000 * d,
        0 <= base_seconds * 1000 * d <= u64::MAX,
{
    let a = base_seconds * 1000;
    assert(0 <= a * d <= 3_600_000 * 0x10_0000) by (nonlinear_arith)
        requires
            0 <= a <= 3_600_000,
            1 <= d <= 0x10_0000,
    ;
    let x = a * d;
    assert(x * 131_070 / 131_070 == x);
}

/// Only failures that may pass are tried again at once: those of the server, and requests that took
/// too long or found nobody.
pub proof fn passing_failures_are_tried_again(status: u16, retry_at: Option<i64>, slow: bool)
    ensures
        (FeedFailure::Http { status, retry_at }).passing() <==> 500 <= status <= 599,
        (FeedFailure::Request { timeout_or_connect: slow }).passing() <==> slow,
        !FeedFailure::BodyTooLarge.passing(),
{
}

/// A channel is polled next when the server says; after a failure, a wait that grows and is at most
/// six hours; else after its interval.
pub proof fn next_poll_follows_the_outcome(
    config: Config,
    c: ChannelModel,
    failed: bool,
    retry_at: Option<i64>,
    jitter: u32,
    now: i64,
)
    requires
        0 <= now,
        now + 21_600_000 <= i64::MAX,
    ensures
        ({
            let r = next_feed_poll(config, c, failed, retry_at, jitter, now);
            let plain = config.monitor.poll_seconds;
            &&& retry_at is Some ==> r == Some(retry_at->Some_0 as int)
            &&& retry_at is None && failed ==> r is Some && now <= r->Some_0 <= now + 21_600_000
            &&& retry_at is None && !failed && !config.websub.enabled && 0 < plain <= 86_400 && now
                + plain * 1_000 <= i64::MAX ==> r == Some(now + plain * 1_000)
        }),
{
    let base = if config.monitor.poll_seconds >= 1 { config.monitor.poll_seconds } else { 1u64 };
    backoff_is_positive(base, c.consecutive_failures, jitter);
}

proof fn backoff_is_positive(base: u64, exponent: u32, jitter: u32)
    ensures
        backoff(base, exponent, jitter) >= 0,
{
    doubled_is_small(exponent as int);
    let a = base * 1000;
    let d = doubled(exponent as int);
    let j = jitter_within(jitter);
    assert(a * d * j >= 0) by (nonlinear_arith)
        requires
            a >= 0,
            d >= 1,
            j >= 0,
    ;
    let x = a * d * j;
    assert(x / 131_070 >= 0) by (nonlinear_arith)
        requires
            x >= 0,
    ;
}

/// What a server says to wait is counted in seconds from now.
pub proof fn servers_say_seconds(text: Seq<char>, n: int, now: i64)
    requires
        parsed_number(trimmed(text), u64::MAX as int) == Some(n),
        i64::MIN <= now + n * 1_000 <= i64::MAX,
    ensures
        retry_after(text, now) == Some(now + n * 1_000),
{
}

/// An interval is counted in seconds from now, and the answer's tag is kept until a new one comes.
pub proof fn next_questions_are_noted(row: ChannelRowModel, at: i64, etag: Option<&str>, now: i64, seconds: int)
    ensures
        ({
            let after = asked_at(row, at, etag);
            &&& after.channel.next_data_api_poll_at == Some(at)
            &&& etag is None ==> after.channel.data_api_etag == row.channel.data_api_etag
            &&& etag is Some ==> after.channel.data_api_etag == Some(etag->Some_0@)
            &&& after.channel.id == row.channel.id
            &&& after.channel.next_poll_at == row.channel.next_poll_at
            &&& after.baseline_at == row.baseline_at
        }),
        i64::MIN <= now + seconds * 1_000 <= i64::MAX ==> after_interval(now, seconds) == Some(
            now + seconds * 1_000,
        ),
{
}

/// A feed that failed is tried again three times at most and only where the failure may pass, after
/// a second at first and twice as long each time, up to the jitter.
pub proof fn feeds_are_tried_again_thrice(status: u16, retries: u32, failure: FeedFailure, r: Option<u64>)
    requires
        call_ensures(next_feed_try, (&failure, retries, 131_070u32), r),
        failure == (FeedFailure::Http { status, retry_at: None }),
    ensures
        r is Some <==> retries < 3 && 500 <= status <= 599,
        r is Some && retries == 0 ==> r == Some(1_000u64),
        r is Some && retries == 1 ==> r == Some(2_000u64),
        r is Some && retries == 2 ==> r == Some(4_000u64),
{
    backoff_doubles(1, 0);
    backoff_doubles(1, 1);
}

/// The jitter goes from half to one and a half, evenly with the sample.
pub proof fn jitter_goes_with_the_sample(sample: u16, r: u32)
    requires
        call_ensures(jitter_of, (sample,), r),
    ensures
        r == 65_535 + 2 * sample,
        131_070 <= 2 * r <= 3 * 131_070,
{
}

/// The times of a history are told in the zone one by one; those outside the calendar are left out.
pub proof fn histories_are_told_in_the_zone(history: Seq<i64>, zone: Seq<char>, n: int)
    requires
        0 <= n < history.len(),
    ensures
        in_zone(history, zone, 0).len() == 0,
        local_time_of(history[n] as int, zone) is Some ==> in_zone(history, zone, n + 1) == in_zone(
            history,
            zone,
            n,
        ).push(local_time_of(history[n] as int, zone)->Some_0),
        local_time_of(history[n] as int, zone) is None ==> in_zone(history, zone, n + 1) == in_zone(
            history,
            zone,
            n,
        ),
{
}

/// A channel that was asked is asked again after the interval that was decided; one that waits for
/// the quota, when that starts anew.
pub proof fn channels_are_asked_again(
    before: DbModel,
    after: DbModel,
    config: Config,
    k: int,
    now: i64,
    degradation: QuotaDegradation,
    reset_at: i64,
    etag: Option<&str>,
    r: Result<Option<DataApiPollDecision>, ScheduleError>,
)
    requires
        before.wf(),
        0 <= k < before.channels.len(),
        api_rescheduled(
            before,
            after,
            config,
            before.channels[k].channel.id,
            now,
            degradation,
            reset_at,
            etag,
            r,
        ),
    ensures
        r is Err ==> after == before,
        r is Ok && degradation == QuotaDegradation::FallbackOnly ==> after.channels[k].channel.next_data_api_poll_at
            == Some(reset_at),
        r is Ok && degradation != QuotaDegradation::FallbackOnly ==> r->Ok_0 is Some
            && after.channels[k].channel.next_data_api_poll_at == Some(
            (now + r->Ok_0->Some_0.interval * 1_000) as i64,
        ),
        r is Ok && etag is None ==> after.channels[k].channel.data_api_etag
            == before.channels[k].channel.data_api_etag,
        r is Ok && etag is Some ==> after.channels[k].channel.data_api_etag == Some(etag->Some_0@),
        r is Ok ==> after.channels[k].channel.next_poll_at
            == before.channels[k].channel.next_poll_at,
        after.candidates == before.candidates && after.jobs == before.jobs,
{
    channels_and_candidates_are_found(before, k, 0);
}

/// The peak of a day is the hour with the most publications, and of several alike the first.
pub proof fn first_of_the_busiest_hours_is_the_peak(history: Seq<LocalTime>, w: int, h: int, g: int)
    requires
        is_peak(history, w, h),
        0 <= g < 24,
    ensures
        publications(history, w, g) <= publications(history, w, h),
        publications(history, w, g) == publications(history, w, h) ==> h <= g,
        publications(history, w, h) > 0,
{
    if g < h {
        assert(publications(history, w, g) < publications(history, w, h));
    }
}

/// The time until a window opens is counted forward, through the end of the week where need be.
pub proof fn windows_open_within_a_week(c: int, half: int, now: int)
    ensures
        ({
            let s = seconds_until(c, half, now);
            &&& 0 <= s < 604_800
            &&& 0 <= now && now <= c - half && c - half < 604_800 ==> s == c - half - now
            &&& 0 <= c - half && c - half < now && now < 604_800 ==> s == c - half + 604_800 - now
        }),
{
    let a = (c - half) % 604_800;
    vstd::arithmetic::div_mod::lemma_mod_bound(c - half, 604_800);
    vstd::arithmetic::div_mod::lemma_mod_bound(a - now, 604_800);
    if 0 <= c - half < 604_800 {
        vstd::arithmetic::div_mod::lemma_small_mod((c - half) as nat, 604_800);
        if 0 <= now && now <= c - half {
            vstd::arithmetic::div_mod::lemma_small_mod((c - half - now) as nat, 604_800);
        } else if c - half < now && now < 604_800 {
            vstd::arithmetic::div_mod::lemma_mod_add_multiples_vanish(c - half - now, 604_800);
            vstd::arithmetic::div_mod::lemma_small_mod((c - half - now + 604_800) as nat, 604_800);
        }
    }
}

} // verus!
