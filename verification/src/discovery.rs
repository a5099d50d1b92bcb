//! Finding videos: what feeds, lists and the API tell, and which candidates are let in.
use vstd::prelude::*;

use crate::candidates::{new_candidate, NewVideoCandidate};
use crate::clock::{
    calendar_millis, calendar_millis_of, parse_rfc3339, rfc3339, rfc3339_millis, rfc3339_text,
};
use crate::fault::{refused, DbError};
use crate::jobs::countable;
use crate::json::{list_model, list_model_index, member, Json, JsonModel};
use crate::limits::{fresh, opens, RssCircuitWindow, RSS_CIRCUIT_DURATION_MS, RSS_CIRCUIT_PROBES};
use crate::markup::{harmless, is_harmless, mute, muted};
use crate::model::{CandidateSource, GateState};
use crate::queue::job_of;
use crate::reply::{int_field, text_field};
use crate::schedule::QuotaDegradation;
use crate::settings::{remove_state_keeps_wf, set_then_get_state};
use crate::store::{
    only_what_is_there_is_found, place, place_means, CandidateModel, ChannelModel, ChannelRowModel,
    Database, DbModel, OverDurationModel,
};
use crate::text::{
    chars_of, copy_optional, opt_view, same_text, starts, starts_with, string_of, views,
};
use crate::youtube::{canonical_youtube_video_url, is_video_id, is_youtube_video_id, watch_url};

verus! {

/// What yt-dlp is asked to tell of a video. Lists of formats and fragments, which have no bound, are
/// left out.
pub const VIDEO_METADATA_TEMPLATE: &'static str = "%(.{_type,id,title,description,uploader,upload_date,channel,channel_id,timestamp,duration,width,height,fps,thumbnail,webpage_url,live_status})j";

/// How long a candidate waits that is put off.
pub const RECHECK_INTERVAL_MS: i64 = 1_800_000;

/// The value of discovery that tells until when feeds are mostly left alone.
pub const RSS_CIRCUIT_STATE_KEY: &'static str = "rss_circuit_open_until";

/// The value of discovery that tells when the lists of uploads were last asked for.
pub const API_UPLOADS_REFRESHED_AT_KEY: &'static str = "uploads_playlist_refreshed_at";

/// How long the lists of uploads are good for.
pub const API_UPLOADS_REFRESH_INTERVAL_MS: i64 = 86_400_000;

// ---------------------------------------------------------------------------------------------
// What is found
// ---------------------------------------------------------------------------------------------

/// A video that was found.
#[derive(Debug)]
pub struct Found {
    pub video_id: String,
    pub title: Option<String>,
    pub published_at: Option<i64>,
}

/// What is known of a video that was found.
#[verifier::ext_equal]
pub struct FoundModel {
    pub video_id: Seq<char>,
    pub title: Option<Seq<char>>,
    pub published_at: Option<i64>,
}

impl Found {
    /// What is known of the video.
    pub open spec fn view(&self) -> FoundModel {
        FoundModel {
            video_id: self.video_id@,
            title: opt_view(self.title),
            published_at: self.published_at,
        }
    }
}

/// What an entry of a list is good for.
#[derive(Debug)]
pub enum Turn {
    Skip,
    Stop,
    Take(Found),
}

/// What an entry of a list is good for.
#[verifier::ext_equal]
pub enum TurnModel {
    Skip,
    Stop,
    Take(FoundModel),
}

impl Turn {
    /// What the entry is good for.
    pub open spec fn view(&self) -> TurnModel {
        match self {
            Turn::Skip => TurnModel::Skip,
            Turn::Stop => TurnModel::Stop,
            Turn::Take(f) => TurnModel::Take(f@),
        }
    }
}

/// What entries are good for.
pub open spec fn turn_views(v: Seq<Turn>) -> Seq<TurnModel> {
    v.map_values(|t: Turn| t@)
}

/// The candidate that a video becomes.
pub open spec fn candidate_of(f: FoundModel, channel_id: Option<i64>, source: CandidateSource, now: i64) -> CandidateModel {
    CandidateModel {
        video_id: f.video_id,
        channel_id,
        url: watch_url(f.video_id),
        title: f.title,
        published_at: f.published_at,
        source,
        discovered_at: now,
        gate_state: GateState::Pending,
        gate_attempts: 0,
        next_gate_at: None,
        last_error: None,
        source_language: None,
        source_language_mismatch: false,
    }
}

/// What offering a video does. One that has a job or is known to be too long is left; otherwise it
/// becomes a candidate unless it is one. Whether it became one comes with it.
pub open spec fn offered(
    db: DbModel,
    f: FoundModel,
    channel_id: Option<i64>,
    source: CandidateSource,
    limit_seconds: u64,
    now: i64,
) -> Result<(DbModel, bool), DbError> {
    let at = db.video_at(f.video_id);
    if at is Some {
        match job_of(db.jobs[at->Some_0]) {
            Err(e) => Err(e),
            Ok(_) => Ok((db, false)),
        }
    } else if db.too_long(f.video_id, limit_seconds) || db.candidate_at(f.video_id) is Some {
        Ok((db, false))
    } else if channel_id matches Some(c) && db.channel_at(c) is None {
        Err(DbError::ForeignKey)
    } else {
        Ok(
            (
                DbModel {
                    candidates: db.candidates.push(candidate_of(f, channel_id, source, now)),
                    ..db
                },
                true,
            ),
        )
    }
}

/// How far a list was gone through.
#[verifier::ext_equal]
pub struct Progress {
    pub db: DbModel,
    pub outcome: Result<int, DbError>,
    pub stopped: bool,
}

/// What the first `n` entries of a list do, one after the other: nothing more after one that says
/// stop or an error.
pub open spec fn taken(
    db: DbModel,
    turns: Seq<TurnModel>,
    channel_id: Option<i64>,
    source: CandidateSource,
    limit_seconds: u64,
    now: i64,
    n: int,
) -> Progress
    decreases n,
{
    if n <= 0 {
        Progress { db, outcome: Ok(0), stopped: false }
    } else {
        let before = taken(db, turns, channel_id, source, limit_seconds, now, n - 1);
        match before.outcome {
            Err(_) => before,
            Ok(count) => if before.stopped {
                before
            } else {
                match turns[n - 1] {
                    TurnModel::Skip => before,
                    TurnModel::Stop => Progress { stopped: true, ..before },
                    TurnModel::Take(f) => match offered(
                        before.db,
                        f,
                        channel_id,
                        source,
                        limit_seconds,
                        now,
                    ) {
                        Err(e) => Progress { outcome: Err(e), ..before },
                        Ok((after, added)) => Progress {
                            db: after,
                            outcome: Ok(
                                count + if added {
                                    1int
                                } else {
                                    0int
                                },
                            ),
                            stopped: false,
                        },
                    },
                }
            },
        }
    }
}

proof fn taken_stays(
    db: DbModel,
    turns: Seq<TurnModel>,
    channel_id: Option<i64>,
    source: CandidateSource,
    limit_seconds: u64,
    now: i64,
    k: int,
    n: int,
)
    requires
        0 <= k <= n,
        taken(db, turns, channel_id, source, limit_seconds, now, k).outcome is Err || taken(
            db,
            turns,
            channel_id,
            source,
            limit_seconds,
            now,
            k,
        ).stopped,
    ensures
        taken(db, turns, channel_id, source, limit_seconds, now, n) == taken(
            db,
            turns,
            channel_id,
            source,
            limit_seconds,
            now,
            k,
        ),
    decreases n - k,
{
    if k < n {
        taken_stays(db, turns, channel_id, source, limit_seconds, now, k, n - 1);
    }
}

/// Finding videos only adds candidates: no job is made, and what was there stays.
pub proof fn finding_only_adds_candidates(
    db: DbModel,
    turns: Seq<TurnModel>,
    channel_id: Option<i64>,
    source: CandidateSource,
    limit_seconds: u64,
    now: i64,
    n: int,
)
    requires
        0 <= n,
    ensures
        ({
            let after = taken(db, turns, channel_id, source, limit_seconds, now, n).db;
            &&& after == (DbModel { candidates: after.candidates, ..db })
            &&& db.candidates.len() <= after.candidates.len()
            &&& forall|i: int|
                0 <= i < db.candidates.len() ==> (#[trigger] after.candidates[i])
                    == db.candidates[i]
        }),
    decreases n,
{
    if n > 0 {
        finding_only_adds_candidates(db, turns, channel_id, source, limit_seconds, now, n - 1);
    }
}

impl Database {
    fn offer(
        &mut self,
        f: &Found,
        channel_id: Option<i64>,
        source: CandidateSource,
        limit_seconds: u64,
        now: i64,
    ) -> (r: Result<bool, DbError>)
        requires
            is_video_id(f.video_id@),
        ensures
            match offered(old(self)@, f@, channel_id, source, limit_seconds, now) {
                Err(e) => r == refused::<bool>(e) && final(self)@ == old(self)@,
                Ok((after, added)) => r == Ok::<bool, DbError>(added) && final(self)@ == after,
            },
            old(self)@.wf() ==> final(self)@.wf(),
    {
        match self.get_job_by_video_id(f.video_id.as_str()) {
            Err(e) => {
                return Err(e);
            },
            Ok(Some(_)) => {
                return Ok(false);
            },
            Ok(None) => {},
        }
        if self.is_over_duration_video(f.video_id.as_str(), limit_seconds) {
            return Ok(false);
        }
        let url = match canonical_youtube_video_url(f.video_id.as_str()) {
            Ok(u) => u,
            Err(_) => {
                return Ok(false);
            },
        };
        let candidate = NewVideoCandidate {
            video_id: f.video_id.as_str(),
            channel_id,
            url: url.as_str(),
            title: match &f.title {
                Some(t) => Some(t.as_str()),
                None => None,
            },
            published_at: f.published_at,
            source,
        };
        proof {
            assert(new_candidate(candidate, now) =~= candidate_of(f@, channel_id, source, now));
        }
        self.insert_video_candidate(&candidate, now)
    }

    /// Goes through what entries are good for and makes candidates of videos. Tells how many.
    pub fn take_found(
        &mut self,
        turns: &Vec<Turn>,
        channel_id: Option<i64>,
        source: CandidateSource,
        limit_seconds: u64,
        now: i64,
    ) -> (r: Result<usize, DbError>)
        requires
            forall|i: int|
                0 <= i < turns@.len() ==> ((#[trigger] turns@[i]) matches Turn::Take(f)
                    ==> is_video_id(f.video_id@)),
        ensures
            ({
                let end = taken(
                    old(self)@,
                    turn_views(turns@),
                    channel_id,
                    source,
                    limit_seconds,
                    now,
                    turns@.len() as int,
                );
                &&& final(self)@ == end.db
                &&& match end.outcome {
                    Ok(n) => r matches Ok(count) && count == n,
                    Err(e) => r == refused::<usize>(e),
                }
            }),
            old(self)@.wf() ==> final(self)@.wf(),
    {
        let ghost before = self@;
        let ghost views = turn_views(turns@);
        let mut count: usize = 0;
        let mut i: usize = 0;
        while i < turns.len()
            invariant
                before == old(self)@,
                views == turn_views(turns@),
                forall|j: int|
                    0 <= j < turns@.len() ==> ((#[trigger] turns@[j]) matches Turn::Take(f)
                        ==> is_video_id(f.video_id@)),
                0 <= i <= turns@.len(),
                count <= i,
                taken(before, views, channel_id, source, limit_seconds, now, i as int) == (Progress {
                    db: self@,
                    outcome: Ok(count as int),
                    stopped: false,
                }),
                before.wf() ==> self@.wf(),
            decreases turns@.len() - i,
        {
            proof {
                assert(views[i as int] == turns@[i as int]@);
            }
            match &turns[i] {
                Turn::Skip => {},
                Turn::Stop => {
                    proof {
                        taken_stays(
                            before,
                            views,
                            channel_id,
                            source,
                            limit_seconds,
                            now,
                            i + 1,
                            turns@.len() as int,
                        );
                    }
                    return Ok(count);
                },
                Turn::Take(f) => {
                    match self.offer(f, channel_id, source, limit_seconds, now) {
                        Err(e) => {
                            proof {
                                taken_stays(
                                    before,
                                    views,
                                    channel_id,
                                    source,
                                    limit_seconds,
                                    now,
                                    i + 1,
                                    turns@.len() as int,
                                );
                            }
                            return Err(e);
                        },
                        Ok(true) => {
                            count = count + 1;
                        },
                        Ok(false) => {},
                    }
                },
            }
            i = i + 1;
        }
        Ok(count)
    }
}

// ---------------------------------------------------------------------------------------------
// Feeds
// ---------------------------------------------------------------------------------------------

/// An entry of a feed.
#[derive(Debug)]
pub struct FeedEntry {
    pub id: String,
    pub title: Option<String>,
    pub published: Option<i64>,
    pub updated: Option<i64>,
}

/// What an entry of a feed holds.
#[verifier::ext_equal]
pub struct EntryModel {
    pub id: Seq<char>,
    pub title: Option<Seq<char>>,
    pub published: Option<i64>,
    pub updated: Option<i64>,
}

impl FeedEntry {
    /// What the entry holds.
    pub open spec fn view(&self) -> EntryModel {
        EntryModel {
            id: self.id@,
            title: opt_view(self.title),
            published: self.published,
            updated: self.updated,
        }
    }
}

/// What entries of a feed hold.
pub open spec fn entry_views(v: Seq<FeedEntry>) -> Seq<EntryModel> {
    v.map_values(|e: FeedEntry| e@)
}

/// What the entries of an optional feed hold.
pub open spec fn feed_view(v: Option<Vec<FeedEntry>>) -> Option<Seq<EntryModel>> {
    match v {
        Some(x) => Some(entry_views(x@)),
        None => None,
    }
}

/// The entries that a feed holds, times in milliseconds and an id that is missing left empty;
/// nothing where the bytes are no feed (`feed_rs::parser::Parser::parse`).
pub uninterp spec fn feed_of(bytes: Seq<u8>) -> Option<Seq<EntryModel>>;

/// An id for an entry that has none.
pub(crate) fn no_id() -> (r: String)
    ensures
        r@.len() == 0,
{
    String::new()
}

/// `feed_rs::parser::Parser::parse`: the entries that bytes hold as an Atom, RSS or JSON feed. With
/// a generator of ids that gives the empty text they depend on the bytes alone. The formats are left
/// to the crate. Only harmless bytes are handed to it: it takes a time of play for a number that fits
/// and panics where it does not, and it descends by recursion into elements that can stand inside
/// their own kind, both only where the feed tells of media or podcasts.
#[verifier::external_body]
pub(crate) fn parse_feed(bytes: &[u8]) -> (r: Option<Vec<FeedEntry>>)
    requires
        harmless(bytes@),
    ensures
        feed_view(r) == feed_of(bytes@),
{
    let parser = feed_rs::parser::Builder::new().id_generator(|_, _, _| no_id()).build();
    let entries = parser.parse(bytes).ok()?.entries.into_iter().map(
        |e| FeedEntry {
            id: e.id,
            title: e.title.map(|t| t.content),
            published: e.published.map(|d| d.timestamp_millis()),
            updated: e.updated.map(|d| d.timestamp_millis()),
        },
    );
    Some(entries.collect())
}

/// The entries of a feed; nothing where the bytes are no feed. Where what the feed tells of media or
/// podcasts could do harm, it is read without that: it is no part of an entry.
pub open spec fn feed_within(bytes: Seq<u8>) -> Option<Seq<EntryModel>> {
    if harmless(bytes) {
        feed_of(bytes)
    } else if harmless(muted(bytes)) {
        feed_of(muted(bytes))
    } else {
        None
    }
}

/// The video of an entry.
pub open spec fn video_of(id: Seq<char>) -> Seq<char> {
    if starts(id, "yt:video:"@) {
        id.skip("yt:video:"@.len() as int)
    } else {
        id
    }
}

/// When an entry was published, or else changed.
pub open spec fn entry_time(e: EntryModel) -> Option<i64> {
    if e.published is Some {
        e.published
    } else {
        e.updated
    }
}

/// Whether a time is not later than a channel's baseline; an unknown time is not.
pub open spec fn is_history(at: Option<i64>, baseline: Option<i64>) -> bool {
    match baseline {
        None => false,
        Some(b) => match at {
            None => true,
            Some(t) => t <= b,
        },
    }
}

/// What an entry of a feed is good for: videos after the baseline are taken.
pub open spec fn feed_turn(e: EntryModel, baseline: Option<i64>, enqueue: bool) -> TurnModel {
    if !enqueue || is_history(entry_time(e), baseline) || !is_video_id(video_of(e.id)) {
        TurnModel::Skip
    } else {
        TurnModel::Take(
            FoundModel {
                video_id: video_of(e.id),
                title: e.title,
                published_at: entry_time(e),
            },
        )
    }
}

fn turn_of_entry(e: &FeedEntry, baseline: Option<i64>, enqueue: bool) -> (r: Turn)
    ensures
        r@ == feed_turn(e@, baseline, enqueue),
        r matches Turn::Take(f) ==> is_video_id(f.video_id@),
{
    let at: Option<i64> = match e.published {
        Some(t) => Some(t),
        None => e.updated,
    };
    let history = match baseline {
        None => false,
        Some(b) => match at {
            None => true,
            Some(t) => t <= b,
        },
    };
    if !enqueue || history {
        return Turn::Skip;
    }
    let chars = chars_of(e.id.as_str());
    let video_id = if starts_with(e.id.as_str(), "yt:video:") {
        let p = chars_of("yt:video:");
        let s = string_of(&chars, p.len(), chars.len());
        proof {
            assert(s@ =~= e.id@.skip("yt:video:"@.len() as int));
        }
        s
    } else {
        e.id.clone()
    };
    if !is_youtube_video_id(video_id.as_str()) {
        return Turn::Skip;
    }
    Turn::Take(Found { video_id, title: copy_optional(&e.title), published_at: at })
}

/// What the entries of a feed are good for.
pub fn feed_turns(entries: &Vec<FeedEntry>, baseline: Option<i64>, enqueue: bool) -> (r: Vec<Turn>)
    ensures
        turn_views(r@) == entry_views(entries@).map_values(
            |e: EntryModel| feed_turn(e, baseline, enqueue),
        ),
        forall|i: int|
            0 <= i < r@.len() ==> ((#[trigger] r@[i]) matches Turn::Take(f) ==> is_video_id(
                f.video_id@,
            )),
{
    let mut out: Vec<Turn> = Vec::new();
    let mut i: usize = 0;
    while i < entries.len()
        invariant
            0 <= i <= entries@.len(),
            out@.len() == i,
            forall|j: int|
                0 <= j < i ==> (#[trigger] out@[j])@ == feed_turn(entries@[j]@, baseline, enqueue),
            forall|j: int|
                0 <= j < i ==> ((#[trigger] out@[j]) matches Turn::Take(f) ==> is_video_id(
                    f.video_id@,
                )),
        decreases entries@.len() - i,
    {
        out.push(turn_of_entry(&entries[i], baseline, enqueue));
        i = i + 1;
    }
    proof {
        assert(turn_views(out@) =~= entry_views(entries@).map_values(
            |e: EntryModel| feed_turn(e, baseline, enqueue),
        ));
    }
    out
}

/// Reads a feed and tells what its entries are good for; nothing where the bytes are no feed.
pub fn read_feed(bytes: &[u8], baseline: Option<i64>, enqueue: bool) -> (r: Option<Vec<Turn>>)
    ensures
        match feed_within(bytes@) {
            None => r is None,
            Some(entries) => r matches Some(turns) && turn_views(turns@) == entries.map_values(
                |e: EntryModel| feed_turn(e, baseline, enqueue),
            ),
        },
        r matches Some(turns) ==> forall|i: int|
            0 <= i < turns@.len() ==> ((#[trigger] turns@[i]) matches Turn::Take(f) ==> is_video_id(
                f.video_id@,
            )),
{
    let found = if is_harmless(bytes) {
        parse_feed(bytes)
    } else {
        let rest = mute(bytes);
        if is_harmless(rest.as_slice()) {
            parse_feed(rest.as_slice())
        } else {
            None
        }
    };
    match found {
        None => None,
        Some(entries) => Some(feed_turns(&entries, baseline, enqueue)),
    }
}

/// Nothing that was published up to the baseline is taken from a feed.
pub proof fn feeds_bring_no_history(e: EntryModel, baseline: i64, enqueue: bool)
    ensures
        feed_turn(e, Some(baseline), enqueue) matches TurnModel::Take(f) ==> (f.published_at matches
            Some(t) && t > baseline),
{
}

// ---------------------------------------------------------------------------------------------
// Lists of a channel
// ---------------------------------------------------------------------------------------------

/// Whether a video is later than a channel's baseline; nothing where its time is not known.
pub open spec fn after_baseline(baseline: Option<i64>, timestamp: Option<i64>) -> Option<bool> {
    match baseline {
        None => Some(true),
        Some(b) => match timestamp {
            None => None,
            Some(s) => match calendar_millis_of(s as int) {
                None => None,
                Some(ms) => Some(ms > b),
            },
        },
    }
}

/// Whether a video is later than a channel's baseline; nothing where its time is not known.
pub fn reconcile_after_baseline(baseline: Option<i64>, timestamp: Option<i64>) -> (r: Option<bool>)
    ensures
        r == after_baseline(baseline, timestamp),
{
    match baseline {
        None => Some(true),
        Some(b) => match timestamp {
            None => None,
            Some(s) => match calendar_millis(s) {
                None => None,
                Some(ms) => Some(ms > b),
            },
        },
    }
}

/// The time that an entry of a list names.
pub open spec fn listed_time(e: JsonModel) -> Option<int> {
    if member(e, "timestamp"@) is Some {
        int_field(e, "timestamp"@)
    } else {
        int_field(e, "release_timestamp"@)
    }
}

/// A second as an optional number of its kind.
pub open spec fn narrowed(x: Option<int>) -> Option<i64> {
    match x {
        Some(n) => Some(n as i64),
        None => None,
    }
}

/// What an entry of a list is good for. The list starts with the latest, so the first that is not
/// later than the baseline ends it.
pub open spec fn list_turn(e: JsonModel, baseline: Option<i64>) -> TurnModel {
    match text_field(e, "id"@) {
        None => TurnModel::Skip,
        Some(id) => if !is_video_id(id) {
            TurnModel::Skip
        } else if after_baseline(baseline, narrowed(listed_time(e))) == Some(false) {
            TurnModel::Stop
        } else {
            TurnModel::Take(
                FoundModel {
                    video_id: id,
                    title: text_field(e, "title"@),
                    published_at: match listed_time(e) {
                        Some(s) => narrowed(calendar_millis_of(s)),
                        None => None,
                    },
                },
            )
        },
    }
}

/// The entries of a list.
pub open spec fn listed_entries(v: JsonModel) -> Seq<JsonModel> {
    match member(v, "entries"@) {
        Some(JsonModel::List(items)) => items,
        _ => Seq::empty(),
    }
}

fn int_of(v: &Json, key: &str) -> (r: Option<i64>)
    ensures
        r is Some <==> int_field(v@, key@) is Some,
        r matches Some(n) ==> int_field(v@, key@) == Some(n as int),
{
    match v.get(key) {
        Some(x) => x.as_i64(),
        None => None,
    }
}

fn text_of<'a>(v: &'a Json, key: &str) -> (r: Option<&'a String>)
    ensures
        r is Some <==> text_field(v@, key@) is Some,
        r matches Some(t) ==> text_field(v@, key@) == Some(t@),
{
    match v.get(key) {
        Some(x) => x.as_text(),
        None => None,
    }
}

fn turn_of_item(e: &Json, baseline: Option<i64>) -> (r: Turn)
    ensures
        r@ == list_turn(e@, baseline),
        r matches Turn::Take(f) ==> is_video_id(f.video_id@),
{
    let id = match text_of(e, "id") {
        None => {
            return Turn::Skip;
        },
        Some(id) => id,
    };
    if !is_youtube_video_id(id.as_str()) {
        return Turn::Skip;
    }
    let timestamp: Option<i64> = if e.get("timestamp").is_some() {
        int_of(e, "timestamp")
    } else {
        int_of(e, "release_timestamp")
    };
    match reconcile_after_baseline(baseline, timestamp) {
        Some(false) => {
            return Turn::Stop;
        },
        _ => {},
    }
    let published_at: Option<i64> = match timestamp {
        Some(s) => calendar_millis(s),
        None => None,
    };
    let title: Option<String> = match text_of(e, "title") {
        Some(t) => Some(t.clone()),
        None => None,
    };
    Turn::Take(Found { video_id: id.clone(), title, published_at })
}

/// What the entries of a channel's list are good for.
pub fn reconcile_turns(v: &Json, baseline: Option<i64>) -> (r: Vec<Turn>)
    ensures
        turn_views(r@) == listed_entries(v@).map_values(|e: JsonModel| list_turn(e, baseline)),
        forall|i: int|
            0 <= i < r@.len() ==> ((#[trigger] r@[i]) matches Turn::Take(f) ==> is_video_id(
                f.video_id@,
            )),
{
    let mut out: Vec<Turn> = Vec::new();
    let ghost want = listed_entries(v@).map_values(|e: JsonModel| list_turn(e, baseline));
    match v.get("entries") {
        Some(x) => match x.as_list() {
            Some(items) => {
                let ghost models = list_model(items@);
                let mut i: usize = 0;
                proof {
                    list_model_index(items@);
                    assert(turn_views(out@) =~= want.take(0));
                }
                while i < items.len()
                    invariant
                        models == list_model(items@),
                        listed_entries(v@) == models,
                        models.len() == items@.len(),
                        want == models.map_values(|e: JsonModel| list_turn(e, baseline)),
                        0 <= i <= items@.len(),
                        turn_views(out@) == want.take(i as int),
                        forall|j: int|
                            0 <= j < out@.len() ==> ((#[trigger] out@[j]) matches Turn::Take(f)
                                ==> is_video_id(f.video_id@)),
                    decreases items@.len() - i,
                {
                    let ghost before = out@;
                    proof {
                        list_model_index(items@);
                    }
                    let t = turn_of_item(&items[i], baseline);
                    out.push(t);
                    proof {
                        assert(want[i as int] == list_turn(items@[i as int]@, baseline));
                        assert(turn_views(out@) =~= turn_views(before).push(want[i as int]));
                        assert(turn_views(out@) =~= want.take(i + 1));
                    }
                    i = i + 1;
                }
                proof {
                    assert(want.take(want.len() as int) =~= want);
                }
            },
            None => {
                proof {
                    assert(turn_views(out@) =~= want);
                }
            },
        },
        None => {
            proof {
                assert(turn_views(out@) =~= want);
            }
        },
    }
    out
}

/// A video of a list of uploads.
#[derive(Debug)]
pub struct PlaylistVideo {
    pub video_id: String,
    pub title: Option<String>,
    pub published_at: Option<i64>,
}

/// What a video of a list of uploads is good for.
pub open spec fn upload_turn(v: PlaylistVideo) -> TurnModel {
    if is_video_id(v.video_id@) {
        TurnModel::Take(
            FoundModel {
                video_id: v.video_id@,
                title: opt_view(v.title),
                published_at: v.published_at,
            },
        )
    } else {
        TurnModel::Skip
    }
}

/// What the videos of a list of uploads are good for.
pub fn upload_turns(videos: &Vec<PlaylistVideo>) -> (r: Vec<Turn>)
    ensures
        turn_views(r@) == videos@.map_values(|v: PlaylistVideo| upload_turn(v)),
        forall|i: int|
            0 <= i < r@.len() ==> ((#[trigger] r@[i]) matches Turn::Take(f) ==> is_video_id(
                f.video_id@,
            )),
{
    let mut out: Vec<Turn> = Vec::new();
    let mut i: usize = 0;
    while i < videos.len()
        invariant
            0 <= i <= videos@.len(),
            out@.len() == i,
            forall|j: int| 0 <= j < i ==> (#[trigger] out@[j])@ == upload_turn(videos@[j]),
            forall|j: int|
                0 <= j < i ==> ((#[trigger] out@[j]) matches Turn::Take(f) ==> is_video_id(
                    f.video_id@,
                )),
        decreases videos@.len() - i,
    {
        let v = &videos[i];
        if is_youtube_video_id(v.video_id.as_str()) {
            out.push(
                Turn::Take(
                    Found {
                        video_id: v.video_id.clone(),
                        title: copy_optional(&v.title),
                        published_at: v.published_at,
                    },
                ),
            );
        } else {
            out.push(Turn::Skip);
        }
        i = i + 1;
    }
    proof {
        assert(turn_views(out@) =~= videos@.map_values(|v: PlaylistVideo| upload_turn(v)));
    }
    out
}

impl Database {
    /// Makes candidates of the videos of a channel's list of uploads. Tells how many.
    pub fn persist_playlist_candidates(
        &mut self,
        channel_id: i64,
        videos: &Vec<PlaylistVideo>,
        limit_seconds: u64,
        now: i64,
    ) -> (r: Result<usize, DbError>)
        ensures
            ({
                let end = taken(
                    old(self)@,
                    videos@.map_values(|v: PlaylistVideo| upload_turn(v)),
                    Some(channel_id),
                    CandidateSource::DataApi,
                    limit_seconds,
                    now,
                    videos@.len() as int,
                );
                &&& final(self)@ == end.db
                &&& match end.outcome {
                    Ok(n) => r matches Ok(count) && count == n,
                    Err(e) => r == refused::<usize>(e),
                }
            }),
            old(self)@.wf() ==> final(self)@.wf(),
    {
        let turns = upload_turns(videos);
        proof {
            assert(turn_views(turns@).len() == videos@.len());
        }
        self.take_found(&turns, Some(channel_id), CandidateSource::DataApi, limit_seconds, now)
    }

    /// Makes candidates of the entries of a channel's list that are later than its baseline. Tells
    /// how many.
    pub fn take_reconciled(&mut self, channel_id: i64, v: &Json, limit_seconds: u64, now: i64) -> (r:
        Result<usize, DbError>)
        ensures
            match old(self)@.channel_at(channel_id) {
                None => r == refused::<usize>(DbError::NoRow) && final(self)@ == old(self)@,
                Some(k) => {
                    let end = taken(
                        old(self)@,
                        listed_entries(v@).map_values(
                            |e: JsonModel| list_turn(e, old(self)@.channels[k].baseline_at),
                        ),
                        Some(channel_id),
                        CandidateSource::Ytdlp,
                        limit_seconds,
                        now,
                        listed_entries(v@).len() as int,
                    );
                    &&& final(self)@ == end.db
                    &&& match end.outcome {
                        Ok(n) => r matches Ok(count) && count == n,
                        Err(e) => r == refused::<usize>(e),
                    }
                },
            },
            old(self)@.wf() ==> final(self)@.wf(),
    {
        let baseline: Option<i64> = match self.channel_baseline(channel_id) {
            Ok(b) => b,
            Err(e) => {
                return Err(e);
            },
        };
        let turns = reconcile_turns(v, baseline);
        proof {
            assert(turn_views(turns@).len() == turns@.len());
        }
        self.take_found(&turns, Some(channel_id), CandidateSource::Ytdlp, limit_seconds, now)
    }

    /// Makes candidates of the entries of a feed that are later than the channel's baseline. Tells
    /// how many; nothing where the bytes are no feed.
    pub fn take_feed(
        &mut self,
        channel_id: i64,
        bytes: &[u8],
        enqueue: bool,
        limit_seconds: u64,
        now: i64,
    ) -> (r: Result<Option<usize>, DbError>)
        ensures
            match old(self)@.channel_at(channel_id) {
                None => r == refused::<Option<usize>>(DbError::NoRow) && final(self)@ == old(self)@,
                Some(k) => match feed_within(bytes@) {
                    None => r == Ok::<Option<usize>, DbError>(None) && final(self)@ == old(self)@,
                    Some(entries) => {
                        let end = taken(
                            old(self)@,
                            entries.map_values(
                                |e: EntryModel|
                                    feed_turn(e, old(self)@.channels[k].baseline_at, enqueue),
                            ),
                            Some(channel_id),
                            CandidateSource::Rss,
                            limit_seconds,
                            now,
                            entries.len() as int,
                        );
                        &&& final(self)@ == end.db
                        &&& match end.outcome {
                            Ok(n) => r matches Ok(Some(count)) && count == n,
                            Err(e) => r == refused::<Option<usize>>(e),
                        }
                    },
                },
            },
            old(self)@.wf() ==> final(self)@.wf(),
    {
        let baseline: Option<i64> = match self.channel_baseline(channel_id) {
            Ok(b) => b,
            Err(e) => {
                return Err(e);
            },
        };
        match read_feed(bytes, baseline, enqueue) {
            None => Ok(None),
            Some(turns) => {
                proof {
                    assert(turn_views(turns@).len() == turns@.len());
                }
                match self.take_found(
                    &turns,
                    Some(channel_id),
                    CandidateSource::Rss,
                    limit_seconds,
                    now,
                ) {
                    Ok(n) => Ok(Some(n)),
                    Err(e) => Err(e),
                }
            },
        }
    }
}

// ---------------------------------------------------------------------------------------------
// The circuit of feeds
// ---------------------------------------------------------------------------------------------

/// Until when feeds are mostly left alone, if that has not passed.
pub open spec fn circuit_open(db: DbModel, now: i64) -> Option<int> {
    match db.state(RSS_CIRCUIT_STATE_KEY@) {
        None => None,
        Some(v) => match rfc3339_millis(v) {
            Some(t) => if t > now {
                Some(t)
            } else {
                None
            },
            None => None,
        },
    }
}

/// What a feed is done with while so many others were already probed.
#[derive(Debug, Clone, Copy, PartialEq, Eq, Structural)]
pub enum CircuitTurn {
    /// It is read.
    Poll,
    /// It is read to see whether feeds work again.
    Probe,
    /// It is put off until then.
    Defer(i64),
}

/// Decides what a feed is done with: while feeds are mostly left alone only a few are probed in a
/// round.
pub fn circuit_turn(open_until: Option<i64>, probes: usize) -> (r: CircuitTurn)
    ensures
        r == match open_until {
            None => CircuitTurn::Poll,
            Some(t) => if probes >= RSS_CIRCUIT_PROBES {
                CircuitTurn::Defer(t)
            } else {
                CircuitTurn::Probe
            },
        },
{
    match open_until {
        None => CircuitTurn::Poll,
        Some(t) => if probes >= RSS_CIRCUIT_PROBES {
            CircuitTurn::Defer(t)
        } else {
            CircuitTurn::Probe
        },
    }
}

impl Database {
    /// Until when feeds are mostly left alone. A time that has passed or is none is removed.
    pub fn rss_circuit_open_until(&mut self, now: i64) -> (r: Option<i64>)
        ensures
            match circuit_open(old(self)@, now) {
                Some(t) => (r matches Some(x) && x == t) && final(self)@ == old(self)@,
                None => r is None && final(self)@ == old(self)@.without_state(
                    RSS_CIRCUIT_STATE_KEY@,
                ),
            },
            old(self)@.wf() ==> final(self)@.wf(),
    {
        proof {
            if self@.wf() {
                remove_state_keeps_wf(self@, RSS_CIRCUIT_STATE_KEY@);
            }
        }
        match self.get_discovery_state(RSS_CIRCUIT_STATE_KEY) {
            None => {
                proof {
                    assert(self@.state_at(RSS_CIRCUIT_STATE_KEY@) is None);
                }
                None
            },
            Some(raw) => match parse_rfc3339(raw.as_str()) {
                Some(t) => if t > now {
                    Some(t)
                } else {
                    self.delete_discovery_state(RSS_CIRCUIT_STATE_KEY);
                    None
                },
                None => {
                    self.delete_discovery_state(RSS_CIRCUIT_STATE_KEY);
                    None
                },
            },
        }
    }

    /// Counts how reading a feed ended. Where too many failed, feeds are mostly left alone for a
    /// while. `instant` is on a clock that does not run backwards.
    pub fn record_rss_sample(
        &mut self,
        circuit: &mut RssCircuitWindow,
        failed: bool,
        instant: u64,
        now: i64,
    ) -> (r: Result<(), DbError>)
        requires
            countable(now + RSS_CIRCUIT_DURATION_MS),
        ensures
            final(circuit).samples@ == fresh(old(circuit).samples@, instant).push((instant, failed)),
            ({
                let cleared = old(self)@.without_state(RSS_CIRCUIT_STATE_KEY@);
                if !opens(final(circuit).samples@) {
                    r is Ok && final(self)@ == old(self)@
                } else if circuit_open(old(self)@, now) is Some {
                    r is Ok && final(self)@ == old(self)@
                } else {
                    match rfc3339_text(now + RSS_CIRCUIT_DURATION_MS) {
                        Some(text) => r is Ok && final(self)@ == cleared.with_state(
                            RSS_CIRCUIT_STATE_KEY@,
                            text,
                        ),
                        None => r == refused::<()>(DbError::OutOfCalendar) && final(self)@
                            == cleared,
                    }
                }
            }),
            old(self)@.wf() ==> final(self)@.wf(),
    {
        if !circuit.record(failed, instant) {
            return Ok(());
        }
        if self.rss_circuit_open_until(now).is_some() {
            return Ok(());
        }
        match rfc3339(now + RSS_CIRCUIT_DURATION_MS) {
            None => Err(DbError::OutOfCalendar),
            Some(text) => {
                proof {
                    set_then_get_state(self@, RSS_CIRCUIT_STATE_KEY@, text@);
                }
                self.set_discovery_state(RSS_CIRCUIT_STATE_KEY, text.as_str());
                Ok(())
            },
        }
    }
}

// ---------------------------------------------------------------------------------------------
// The lists of uploads
// ---------------------------------------------------------------------------------------------

/// Whether the lists of uploads are asked for again: once in each process, after a day, and where a
/// channel came since that has none.
pub open spec fn refresh_due(db: DbModel, refreshed_this_process: bool, now: i64) -> bool {
    let last = match db.state(API_UPLOADS_REFRESHED_AT_KEY@) {
        Some(v) => rfc3339_millis(v),
        None => None,
    };
    ||| !refreshed_this_process
    ||| last is None
    ||| now - last->Some_0 >= API_UPLOADS_REFRESH_INTERVAL_MS
    ||| newcomer(db, last->Some_0)
}

/// Whether a channel without a list of uploads was added after a time.
pub open spec fn newcomer(db: DbModel, since: int) -> bool {
    exists|k: int|
        0 <= k < db.channels.len() && (#[trigger] db.channels[k]).channel.uploads_playlist_id is None
            && db.channels[k].created_at > since
}

/// The list of uploads that was found of a channel.
pub open spec fn upload_list(found: Seq<(String, String)>, youtube_id: Seq<char>, n: int) -> Option<
    Seq<char>,
>
    decreases n,
{
    if n <= 0 {
        None
    } else if upload_list(found, youtube_id, n - 1) is Some {
        upload_list(found, youtube_id, n - 1)
    } else if found[n - 1].0@ == youtube_id {
        Some(found[n - 1].1@)
    } else {
        None
    }
}

/// A channel with the list of uploads that was found.
pub open spec fn listed_channel(row: ChannelRowModel, found: Seq<(String, String)>) -> ChannelRowModel {
    match upload_list(found, row.channel.youtube_channel_id, found.len() as int) {
        Some(list) => ChannelRowModel {
            channel: ChannelModel { uploads_playlist_id: Some(list), ..row.channel },
            ..row
        },
        None => row,
    }
}

fn find_upload_list(found: &Vec<(String, String)>, youtube_id: &str) -> (r: Option<usize>)
    ensures
        match r {
            Some(k) => k < found@.len() && upload_list(found@, youtube_id@, found@.len() as int)
                == Some(found@[k as int].1@),
            None => upload_list(found@, youtube_id@, found@.len() as int) is None,
        },
{
    let mut at: Option<usize> = None;
    let mut i: usize = 0;
    while i < found.len()
        invariant
            0 <= i <= found@.len(),
            match at {
                Some(k) => k < i && upload_list(found@, youtube_id@, i as int) == Some(
                    found@[k as int].1@,
                ),
                None => upload_list(found@, youtube_id@, i as int) is None,
            },
        decreases found@.len() - i,
    {
        if at.is_none() && same_text(found[i].0.as_str(), youtube_id) {
            at = Some(i);
        }
        i = i + 1;
    }
    at
}

impl Database {
    /// Whether the lists of uploads are asked for again.
    pub fn uploads_refresh_due(&self, refreshed_this_process: bool, now: i64) -> (r: bool)
        ensures
            r == refresh_due(self@, refreshed_this_process, now),
    {
        let last: Option<i64> = match self.get_discovery_state(API_UPLOADS_REFRESHED_AT_KEY) {
            Some(v) => parse_rfc3339(v.as_str()),
            None => None,
        };
        match last {
            None => true,
            Some(t) => !refreshed_this_process || (now as i128) - (t as i128)
                >= API_UPLOADS_REFRESH_INTERVAL_MS as i128
                || self.has_missing_uploads_playlist_created_after(t),
        }
    }

    /// Keeps the lists of uploads that were found, and when.
    pub fn store_upload_playlists(&mut self, found: &Vec<(String, String)>, now: i64) -> (r: Result<
        (),
        DbError,
    >)
        ensures
            ({
                let with_lists = DbModel {
                    channels: old(self)@.channels.map_values(
                        |row: ChannelRowModel| listed_channel(row, found@),
                    ),
                    ..old(self)@
                };
                match rfc3339_text(now as int) {
                    Some(text) => r is Ok && final(self)@ == with_lists.with_state(
                        API_UPLOADS_REFRESHED_AT_KEY@,
                        text,
                    ),
                    None => r == refused::<()>(DbError::OutOfCalendar) && final(self)@ == old(self)@,
                }
            }),
            old(self)@.wf() ==> final(self)@.wf(),
    {
        let text = match rfc3339(now) {
            Some(t) => t,
            None => {
                return Err(DbError::OutOfCalendar);
            },
        };
        let ghost before = self@;
        let mut i: usize = 0;
        while i < self.channels.len()
            invariant
                before == old(self)@,
                self@ == (DbModel { channels: self@.channels, ..before }),
                self.channels@.len() == before.channels.len(),
                0 <= i <= self.channels@.len(),
                forall|j: int|
                    0 <= j < self.channels@.len() ==> (#[trigger] self@.channels[j]) == if j < i {
                        listed_channel(before.channels[j], found@)
                    } else {
                        before.channels[j]
                    },
            decreases self.channels@.len() - i,
        {
            let ghost rows = self@.channels;
            proof {
                assert(rows[i as int] == self.channels@[i as int]@);
            }
            match find_upload_list(found, self.channels[i].channel.youtube_channel_id.as_str()) {
                Some(k) => {
                    self.channels[i].channel.uploads_playlist_id = Some(found[k].1.clone());
                },
                None => {},
            }
            proof {
                assert(self@.channels =~= rows.update(
                    i as int,
                    listed_channel(before.channels[i as int], found@),
                ));
            }
            i = i + 1;
        }
        proof {
            assert(self@.channels =~= before.channels.map_values(
                |row: ChannelRowModel| listed_channel(row, found@),
            ));
            let mid = self@;
            if before.wf() {
                assert forall|i: int, j: int| 0 <= i < j < mid.channels.len() implies {
                    &&& (#[trigger] mid.channels[i]).channel.id != (
                    #[trigger] mid.channels[j]).channel.id
                    &&& mid.channels[i].channel.youtube_channel_id
                        != mid.channels[j].channel.youtube_channel_id
                } by {
                    let a = before.channels[i];
                    let b = before.channels[j];
                }
                assert forall|i: int| 0 <= i < mid.channels.len() implies (
                #[trigger] mid.channels[i]).channel.id <= mid.channel_seq by {
                    let a = before.channels[i];
                }
            }
            set_then_get_state(mid, API_UPLOADS_REFRESHED_AT_KEY@, text@);
        }
        self.set_discovery_state(API_UPLOADS_REFRESHED_AT_KEY, text.as_str());
        Ok(())
    }
}

/// What is done with a channel that is due at the API.
#[derive(Debug, Clone, Copy, PartialEq, Eq, Structural)]
pub enum ApiTurn {
    /// It waits until the quota starts anew.
    WaitForReset,
    /// It has no list of uploads and is scheduled as usual.
    NoPlaylist,
    /// Its list of uploads is read.
    Ask,
}

/// Decides what is done with a channel that is due at the API.
pub fn api_turn(degradation: QuotaDegradation, has_playlist: bool) -> (r: ApiTurn)
    ensures
        r == if degradation == QuotaDegradation::FallbackOnly {
            ApiTurn::WaitForReset
        } else if !has_playlist {
            ApiTurn::NoPlaylist
        } else {
            ApiTurn::Ask
        },
{
    if degradation == QuotaDegradation::FallbackOnly {
        ApiTurn::WaitForReset
    } else if !has_playlist {
        ApiTurn::NoPlaylist
    } else {
        ApiTurn::Ask
    }
}

/// How all channels are gone through once a day.
#[derive(Debug, Clone, Copy, PartialEq, Eq, Structural)]
pub enum DeepScan {
    /// With the lists of yt-dlp.
    Reconcile,
    /// Not at all today.
    Skip,
    /// With the API.
    Scan,
}

/// Decides how all channels are gone through: with the API while the quota is not cut back, not at
/// all while it is, and with yt-dlp where the API cannot be used.
pub fn deep_scan_plan(degradation: Option<QuotaDegradation>) -> (r: DeepScan)
    ensures
        r == match degradation {
            None => DeepScan::Reconcile,
            Some(QuotaDegradation::FallbackOnly) => DeepScan::Reconcile,
            Some(QuotaDegradation::Normal) => DeepScan::Scan,
            Some(_) => DeepScan::Skip,
        },
{
    match degradation {
        None => DeepScan::Reconcile,
        Some(d) => match d {
            QuotaDegradation::FallbackOnly => DeepScan::Reconcile,
            QuotaDegradation::Normal => DeepScan::Scan,
            _ => DeepScan::Skip,
        },
    }
}

/// What is done with a channel while all are gone through with the API.
#[derive(Debug, Clone, Copy, PartialEq, Eq, Structural)]
pub enum ScanTurn {
    /// The quota is cut back; the rest is left.
    Stop,
    /// It has no list of uploads; yt-dlp is asked.
    Reconcile,
    /// Its list of uploads is read.
    Ask,
}

/// Decides what is done with a channel while all are gone through with the API.
pub fn scan_turn(degradation: QuotaDegradation, has_playlist: bool) -> (r: ScanTurn)
    ensures
        r == if degradation != QuotaDegradation::Normal {
            ScanTurn::Stop
        } else if !has_playlist {
            ScanTurn::Reconcile
        } else {
            ScanTurn::Ask
        },
{
    if degradation != QuotaDegradation::Normal {
        ScanTurn::Stop
    } else if !has_playlist {
        ScanTurn::Reconcile
    } else {
        ScanTurn::Ask
    }
}

// ---------------------------------------------------------------------------------------------
// What is taken and what is not
// ---------------------------------------------------------------------------------------------

/// An entry that carries a publication time not later than the baseline is never taken, whatever
/// its update time. An entry that is taken keeps its own publication time where it carries one; its
/// update time counts only where it carries none.
pub proof fn publication_times_decide(
    e: EntryModel,
    updated: Option<i64>,
    baseline: Option<i64>,
    enqueue: bool,
)
    ensures
        ({
            let r = feed_turn(e, baseline, enqueue);
            &&& !(r is Stop)
            &&& e.published is Some && baseline is Some && e.published->Some_0
                <= baseline->Some_0 ==> r is Skip
            &&& e.published is None && baseline is Some && e.updated is Some && e.updated->Some_0
                <= baseline->Some_0 ==> r is Skip
            &&& e.published is None && e.updated is None && baseline is Some ==> r is Skip
            &&& r is Take && e.published is Some ==> r->Take_0.published_at == e.published
            &&& r is Take && e.published is None ==> r->Take_0.published_at == e.updated
            &&& r is Take ==> r->Take_0.title == e.title && enqueue
        }),
        e.published is Some ==> feed_turn((EntryModel { updated, ..e }), baseline, enqueue)
            == feed_turn(e, baseline, enqueue),
{
}

/// An entry under a video's id, bare or behind `yt:video:`, is taken if and only if candidates are
/// wanted and it is newer than the baseline or there is none. Later entries are taken where earlier
/// ones are.
pub proof fn new_entries_are_taken(e: EntryModel, id: Seq<char>, baseline: Option<i64>, enqueue: bool)
    requires
        id.len() == 11,
        forall|i: int|
            0 <= i < 11 ==> ({
                let c = #[trigger] id[i];
                ||| 'a' <= c && c <= 'z'
                ||| 'A' <= c && c <= 'Z'
                ||| '0' <= c && c <= '9'
                ||| c == '-'
                ||| c == '_'
            }),
        e.id == id || e.id == "yt:video:"@ + id,
    ensures
        ({
            let r = feed_turn(e, baseline, enqueue);
            let at = if e.published is Some { e.published } else { e.updated };
            &&& r is Take <==> enqueue && (baseline is None || (at is Some && at->Some_0
                > baseline->Some_0))
            &&& r is Take ==> r->Take_0.video_id == id
        }),
{
    reveal_strlit("yt:video:");
    if e.id == id {
        if starts(id, "yt:video:"@) {
            assert(id.subrange(0, 9)[2] == id[2]);
            assert("yt:video:"@[2] == ':');
        }
    } else {
        let whole = "yt:video:"@ + id;
        assert(whole.subrange(0, 9) =~= "yt:video:"@);
        assert(whole.skip(9) =~= id);
    }
}

/// What is not a video's id is not taken, from a feed, a list or the API.
pub proof fn only_videos_are_taken(e: EntryModel, baseline: Option<i64>, enqueue: bool, v: JsonModel, p: PlaylistVideo)
    ensures
        feed_turn(e, baseline, enqueue) matches TurnModel::Take(f) ==> f.video_id.len() == 11,
        list_turn(v, baseline) matches TurnModel::Take(f) ==> f.video_id.len() == 11,
        upload_turn(p) matches TurnModel::Take(f) ==> f.video_id.len() == 11 && f.video_id
            == p.video_id@ && f.published_at == p.published_at && (f.title is Some
            == p.title is Some) && (f.title is Some ==> f.title->Some_0 == p.title->Some_0@),
        !(upload_turn(p) is Stop),
{
}

/// A list goes from new to old: an entry with a time not later than the baseline ends it, and one
/// without a time, or where there is no baseline, does not. What is taken keeps its id, its title
/// and its time, turned from seconds into milliseconds.
pub proof fn lists_end_at_the_baseline(v: JsonModel, baseline: Option<i64>, id: Seq<char>, seconds: i64)
    requires
        text_field(v, "id"@) == Some(id),
        is_video_id(id),
    ensures
        baseline is None ==> list_turn(v, baseline) is Take,
        member(v, "timestamp"@) is None && member(v, "release_timestamp"@) is None ==> list_turn(
            v,
            baseline,
        ) is Take,
        int_field(v, "timestamp"@) == Some(seconds as int) && member(v, "timestamp"@) is Some
            && calendar_millis_of(seconds as int) is Some ==> {
            let r = list_turn(v, baseline);
            &&& r is Stop <==> baseline is Some && seconds * 1000 <= baseline->Some_0
            &&& r is Take <==> baseline is None || seconds * 1000 > baseline->Some_0
            &&& r is Take && countable(seconds * 1000) ==> r->Take_0.published_at == Some(
                (seconds * 1000) as i64,
            )
        },
        list_turn(v, baseline) matches TurnModel::Take(f) ==> f.video_id == id && f.title
            == text_field(v, "title"@),
{
}

/// What is offered becomes a candidate if and only if nothing knows its video: no job, no
/// candidate, and no finding that it is too long for a limit at least as wide. The candidate is the
/// last one, with the address of its video; nothing else changes.
pub proof fn offers_become_candidates(
    db: DbModel,
    f: FoundModel,
    channel_id: Option<i64>,
    source: CandidateSource,
    limit_seconds: u64,
    now: i64,
)
    requires
        db.wf(),
        offered(db, f, channel_id, source, limit_seconds, now) is Ok,
    ensures
        ({
            let (after, added) = offered(db, f, channel_id, source, limit_seconds, now)->Ok_0;
            let queued = exists|j: int|
                0 <= j < db.jobs.len() && (#[trigger] db.jobs[j]).job.video_id == f.video_id;
            let waiting = exists|j: int|
                0 <= j < db.candidates.len() && (#[trigger] db.candidates[j]).video_id
                    == f.video_id;
            let too_long = limit_seconds > 0 && exists|j: int|
                0 <= j < db.over_duration.len() && (#[trigger] db.over_duration[j]).video_id
                    == f.video_id && limit_seconds <= db.over_duration[j].limit_seconds;
            let row = after.candidates.last();
            &&& added <==> !queued && !waiting && !too_long
            &&& !added ==> after == db
            &&& added ==> {
                &&& after.candidates == db.candidates.push(row)
                &&& after.jobs == db.jobs && after.channels == db.channels
                &&& row.video_id == f.video_id && row.title == f.title
                &&& row.published_at == f.published_at && row.channel_id == channel_id
                &&& row.source == source && row.discovered_at == now
                &&& row.url == "https://www.youtube.com/watch?v="@ + f.video_id
                &&& row.gate_state == GateState::Pending && row.gate_attempts == 0
                &&& row.next_gate_at is None
            }
        }),
{
    let id = f.video_id;
    only_what_is_there_is_found(db, id, 0);
    let long = |r: OverDurationModel| r.video_id == id;
    place_means(db.over_duration, long);
    assert(db.over_duration_at(id) == place(db.over_duration, long));
    if db.over_duration_at(id) is None {
        assert forall|j: int| 0 <= j < db.over_duration.len() implies (
        #[trigger] db.over_duration[j]).video_id != id by {
            assert(!long(db.over_duration[j]));
        }
    } else {
        let k = db.over_duration_at(id)->Some_0;
        assert(long(db.over_duration[k]));
        assert forall|j: int| 0 <= j < db.over_duration.len() && (
        #[trigger] db.over_duration[j]).video_id == id implies j == k by {
            if j < k {
                assert(!long(db.over_duration[j]));
            }
        }
    }
}

/// The end of a list is final: what stands behind it is not looked at. What is skipped changes
/// nothing, and the count grows by one with each new candidate and not otherwise.
pub proof fn lists_are_taken_in_turn(
    db: DbModel,
    turns: Seq<TurnModel>,
    channel_id: Option<i64>,
    source: CandidateSource,
    limit_seconds: u64,
    now: i64,
    n: int,
)
    requires
        0 <= n < turns.len(),
    ensures
        ({
            let before = taken(db, turns, channel_id, source, limit_seconds, now, n);
            let after = taken(db, turns, channel_id, source, limit_seconds, now, n + 1);
            &&& before.stopped || before.outcome is Err ==> after == before
            &&& !before.stopped && before.outcome is Ok && turns[n] is Skip ==> after == before
            &&& !before.stopped && before.outcome is Ok && turns[n] is Stop ==> after.stopped
                && after.db == before.db && after.outcome == before.outcome
            &&& turns[n] is Take && before.outcome is Ok ==> after.stopped == before.stopped
            &&& after.outcome is Ok ==> before.outcome is Ok && after.outcome->Ok_0
                - before.outcome->Ok_0 == after.db.candidates.len() - before.db.candidates.len()
        }),
        taken(db, turns, channel_id, source, limit_seconds, now, 0).db == db,
{
    reveal_with_fuel(taken, 2);
}

/// Every candidate that was added bears where it was found, by which channel and when, and waits;
/// the count is how many were added.
pub proof fn new_ones_bear_their_source(
    db: DbModel,
    turns: Seq<TurnModel>,
    channel_id: Option<i64>,
    source: CandidateSource,
    limit_seconds: u64,
    now: i64,
    n: int,
)
    requires
        0 <= n <= turns.len(),
    ensures
        ({
            let end = taken(db, turns, channel_id, source, limit_seconds, now, n);
            &&& end.outcome is Ok ==> end.db.candidates.len() == db.candidates.len()
                + end.outcome->Ok_0
            &&& db.candidates.len() <= end.db.candidates.len()
            &&& forall|i: int|
                db.candidates.len() <= i < end.db.candidates.len() ==> {
                    let c = #[trigger] end.db.candidates[i];
                    &&& c.source == source && c.channel_id == channel_id
                    &&& c.discovered_at == now && c.gate_state == GateState::Pending
                    &&& c.gate_attempts == 0
                    &&& c.url == "https://www.youtube.com/watch?v="@ + c.video_id
                }
        }),
    decreases n,
{
    if n > 0 {
        new_ones_bear_their_source(db, turns, channel_id, source, limit_seconds, now, n - 1);
    }
}

/// The circuit for feeds is open until the time that was noted, and closed without one.
pub proof fn circuit_is_open_until_its_time(db: DbModel, now: i64)
    ensures
        ({
            let noted = db.state("rss_circuit_open_until"@);
            let until = rfc3339_millis(noted->Some_0);
            &&& circuit_open(db, now) is Some <==> noted is Some && until is Some && until->Some_0
                > now
            &&& circuit_open(db, now) is Some ==> circuit_open(db, now) == until
        }),
{
}

/// The lists of uploads are looked up anew once in a process, once a day, where that was never
/// noted, and for a channel that came since.
pub proof fn lists_are_looked_up_daily(db: DbModel, refreshed_this_process: bool, now: i64)
    ensures
        !refreshed_this_process ==> refresh_due(db, refreshed_this_process, now),
        ({
            let noted = db.state("uploads_playlist_refreshed_at"@);
            let last = rfc3339_millis(noted->Some_0);
            let fresh_one = exists|k: int|
                0 <= k < db.channels.len() && (
                #[trigger] db.channels[k]).channel.uploads_playlist_id is None
                    && db.channels[k].created_at > last->Some_0;
            &&& refreshed_this_process && (noted is None || last is None) ==> refresh_due(db, true, now)
            &&& refreshed_this_process && noted is Some && last is Some ==> (refresh_due(db, true, now)
                <==> now - last->Some_0 >= 86_400_000 || fresh_one)
        }),
{
}

/// A channel takes the list of uploads that was found for it, and keeps its own where none was.
pub proof fn channels_take_their_lists(row: ChannelRowModel, found: Seq<(String, String)>)
    ensures
        ({
            let after = listed_channel(row, found);
            &&& (forall|i: int|
                0 <= i < found.len() ==> (#[trigger] found[i]).0@ != row.channel.youtube_channel_id)
                ==> after == row
            &&& found.len() > 0 && found[0].0@ == row.channel.youtube_channel_id
                ==> after.channel.uploads_playlist_id == Some(found[0].1@)
            &&& after.channel.id == row.channel.id && after.baseline_at == row.baseline_at
            &&& after.channel.next_poll_at == row.channel.next_poll_at
        }),
{
    let id = row.channel.youtube_channel_id;
    if forall|i: int| 0 <= i < found.len() ==> (#[trigger] found[i]).0@ != id {
        nothing_listed(found, id, found.len() as int);
    }
    if found.len() > 0 && found[0].0@ == id {
        first_is_listed(found, id, found.len() as int);
    }
}

proof fn nothing_listed(found: Seq<(String, String)>, id: Seq<char>, n: int)
    requires
        0 <= n <= found.len(),
        forall|i: int| 0 <= i < found.len() ==> (#[trigger] found[i]).0@ != id,
    ensures
        upload_list(found, id, n) is None,
    decreases n,
{
    if n > 0 {
        nothing_listed(found, id, n - 1);
    }
}

proof fn first_is_listed(found: Seq<(String, String)>, id: Seq<char>, n: int)
    requires
        0 < n <= found.len(),
        found[0].0@ == id,
    ensures
        upload_list(found, id, n) == Some(found[0].1@),
    decreases n,
{
    if n > 1 {
        first_is_listed(found, id, n - 1);
    } else {
        assert(upload_list(found, id, 0) is None);
    }
}

/// While the circuit is open two feeds are read to see whether they work again, and the others wait
/// until it closes; while it is closed all are read.
pub proof fn open_circuits_let_two_through(until: i64, probes: usize, a: CircuitTurn, b: CircuitTurn)
    requires
        call_ensures(circuit_turn, (Some(until), probes), a),
        call_ensures(circuit_turn, (None::<i64>, probes), b),
    ensures
        probes < 2 ==> a == CircuitTurn::Probe,
        probes >= 2 ==> a == CircuitTurn::Defer(until),
        b == CircuitTurn::Poll,
{
}

/// The API is asked for a channel with a list of uploads while any quota is left; the daily scan
/// goes by the API on a full quota alone, and by the lists of yt-dlp without any.
pub proof fn quota_decides_who_is_asked(
    d: QuotaDegradation,
    listed: bool,
    api: ApiTurn,
    scan: ScanTurn,
    deep: DeepScan,
    unknown: DeepScan,
)
    requires
        call_ensures(api_turn, (d, listed), api),
        call_ensures(scan_turn, (d, listed), scan),
        call_ensures(deep_scan_plan, (Some(d),), deep),
        call_ensures(deep_scan_plan, (None::<QuotaDegradation>,), unknown),
    ensures
        api is WaitForReset <==> d == QuotaDegradation::FallbackOnly,
        api is Ask <==> d != QuotaDegradation::FallbackOnly && listed,
        scan is Stop <==> d != QuotaDegradation::Normal,
        scan is Ask <==> d == QuotaDegradation::Normal && listed,
        deep is Scan <==> d == QuotaDegradation::Normal,
        deep is Reconcile <==> d == QuotaDegradation::FallbackOnly,
        unknown is Reconcile,
{
}

/// Whether something lies behind the baseline is not known where its time is not; without a
/// baseline all does.
pub proof fn baselines_are_compared_in_milliseconds(baseline: Option<i64>, seconds: i64)
    requires
        calendar_millis_of(seconds as int) is Some,
    ensures
        after_baseline(None, Some(seconds)) == Some(true),
        after_baseline(None, None) == Some(true),
        baseline is Some ==> after_baseline(baseline, Some(seconds)) == Some(
            seconds * 1_000 > baseline->Some_0,
        ),
        baseline is Some ==> after_baseline(baseline, None) is None,
{
}

/// The entries of a list are those under `entries`, and the time of one is its own before that of
/// its release.
pub proof fn entries_are_read_from_the_list(v: JsonModel, items: Seq<JsonModel>, n: int, r: int)
    requires
        i64::MIN <= n <= i64::MAX,
        i64::MIN <= r <= i64::MAX,
    ensures
        member(v, "entries"@) == Some(JsonModel::List(items)) ==> listed_entries(v) == items,
        member(v, "entries"@) is None ==> listed_entries(v).len() == 0,
        member(v, "timestamp"@) == Some(JsonModel::Int(n)) ==> listed_time(v) == Some(n),
        member(v, "timestamp"@) is None && member(v, "release_timestamp"@) == Some(JsonModel::Int(r))
            ==> listed_time(v) == Some(r),
{
}

/// What is taken of a feed: an entry published up to the baseline never is, whatever its update
/// time, and one that is keeps its own publication time.
pub proof fn feeds_are_read_by_publication(
    entries: &Vec<FeedEntry>,
    baseline: Option<i64>,
    enqueue: bool,
    turns: Vec<Turn>,
    i: int,
)
    requires
        call_ensures(feed_turns, (entries, baseline, enqueue), turns),
        0 <= i < entries@.len(),
        entries@[i].published is Some,
    ensures
        turns@.len() == entries@.len(),
        baseline is Some && entries@[i].published->Some_0 <= baseline->Some_0 ==> turns@[i] is Skip,
        turns@[i] is Take ==> turns@[i]->Take_0.published_at == entries@[i].published,
{
    assert(turn_views(turns@).len() == turns@.len());
    assert(entry_views(entries@)[i] == entries@[i]@);
    assert(turn_views(turns@)[i] == turns@[i]@);
    publication_times_decide(entries@[i]@, None, baseline, enqueue);
}

} // verus!
