//! How a video is prepared: whether there is room for it, which way it goes, what is fetched and
//! what is planned for its submission.
use vstd::prelude::*;

use crate::config::StorageConfig;
use crate::fault::{refused, DbError};
use crate::jobs::countable;
use crate::ledger::used_on_day;
use crate::model::{JobStatus, PreparedUpload, TransferMode, VideoMetadata};
use crate::store::Database;
use crate::subtitle::{all_translated, translation_checkpoint_complete, Cue};
use crate::text::{
    chars_of, decimal, decimal_of, found_at, join, join_all, joined, occurs_at, signed_decimal,
    signed_decimal_of, starts, starts_with, views,
};

verus! {

/// The bytes of a gibibyte.
pub const GIB: u64 = 1_073_741_824;

/// How much room there is.
#[derive(Debug, Clone, Copy, PartialEq, Eq, Structural)]
pub enum Room {
    /// It cannot be read.
    Unknown,
    /// Too little to work, in gibibytes.
    Short(u64),
    /// Little, in gibibytes.
    Low(u64),
    /// Enough, in gibibytes.
    Enough(u64),
}

/// How much room so many free bytes are.
pub open spec fn room_of(free_bytes: Option<u64>, storage: StorageConfig) -> Room {
    match free_bytes {
        None => Room::Unknown,
        Some(bytes) => {
            let gib = bytes / GIB;
            if gib < storage.stop_free_gib {
                Room::Short(gib)
            } else if gib < storage.warn_free_gib {
                Room::Low(gib)
            } else {
                Room::Enough(gib)
            }
        },
    }
}

/// How much room so many free bytes are; nothing is known where they could not be read.
pub fn ensure_disk(free_bytes: Option<u64>, storage: StorageConfig) -> (r: Room)
    ensures
        r == room_of(free_bytes, storage),
{
    match free_bytes {
        None => Room::Unknown,
        Some(bytes) => {
            let gib: u64 = bytes / GIB;
            if gib < storage.stop_free_gib {
                Room::Short(gib)
            } else if gib < storage.warn_free_gib {
                Room::Low(gib)
            } else {
                Room::Enough(gib)
            }
        },
    }
}

/// Why no preparation starts.
#[derive(Debug, Clone, Copy, PartialEq, Eq, Structural)]
pub enum PrepareRefusal {
    /// How much room there is cannot be read.
    RoomUnknown,
    /// There is too little room, in gibibytes.
    NoRoom { gib: u64, stop: u64 },
    /// The tokens of the day are used up.
    DailyLimit(i64),
}

impl PrepareRefusal {
    /// The message.
    pub open spec fn text(self) -> Seq<char> {
        match self {
            PrepareRefusal::RoomUnknown => "读取剩余磁盘空间失败"@,
            PrepareRefusal::NoRoom { gib, stop } => "剩余磁盘 "@ + decimal_of(gib as nat)
                + "GiB，低于停止阈值 "@ + decimal_of(stop as nat) + "GiB"@,
            PrepareRefusal::DailyLimit(limit) => "已达到每日 token 上限 "@ + signed_decimal_of(
                limit as int,
            ),
        }
    }

    /// The message.
    pub fn message(&self) -> (r: String)
        ensures
            r@ == self.text(),
    {
        match self {
            PrepareRefusal::RoomUnknown => "读取剩余磁盘空间失败".to_owned(),
            PrepareRefusal::NoRoom { gib, stop } => {
                let mut s = "剩余磁盘 ".to_owned();
                s.append(decimal(*gib).as_str());
                s.append("GiB，低于停止阈值 ");
                s.append(decimal(*stop).as_str());
                s.append("GiB");
                s
            },
            PrepareRefusal::DailyLimit(limit) => join(
                "已达到每日 token 上限 ",
                signed_decimal(*limit).as_str(),
            ),
        }
    }
}

/// Why no preparation starts, if it does not, with `used` tokens used today.
pub open spec fn prepare_refusal_of(
    free_bytes: Option<u64>,
    storage: StorageConfig,
    limit: Option<i64>,
    used: int,
) -> Option<PrepareRefusal> {
    match room_of(free_bytes, storage) {
        Room::Unknown => Some(PrepareRefusal::RoomUnknown),
        Room::Short(gib) => Some(PrepareRefusal::NoRoom { gib, stop: storage.stop_free_gib }),
        _ => match limit {
            Some(n) => if used >= n {
                Some(PrepareRefusal::DailyLimit(n))
            } else {
                None
            },
            None => None,
        },
    }
}

impl Database {
    /// Why no preparation starts, if it does not: too little room, or the tokens of the day are used
    /// up.
    pub fn prepare_refusal(
        &self,
        free_bytes: Option<u64>,
        storage: StorageConfig,
        limit: Option<i64>,
        now: i64,
    ) -> (r: Result<Option<PrepareRefusal>, DbError>)
        ensures
            ({
                let used = used_on_day(self@.calls, now, self@.calls.len() as int);
                let room = room_of(free_bytes, storage);
                if !(room is Unknown) && !(room is Short) && limit is Some && !countable(used) {
                    r == refused::<Option<PrepareRefusal>>(DbError::TooLarge)
                } else {
                    r == Ok::<Option<PrepareRefusal>, DbError>(
                        prepare_refusal_of(free_bytes, storage, limit, used),
                    )
                }
            }),
    {
        match ensure_disk(free_bytes, storage) {
            Room::Unknown => Ok(Some(PrepareRefusal::RoomUnknown)),
            Room::Short(gib) => Ok(
                Some(PrepareRefusal::NoRoom { gib, stop: storage.stop_free_gib }),
            ),
            _ => match limit {
                None => Ok(None),
                Some(n) => match self.ai_tokens_today(now) {
                    Err(e) => Err(e),
                    Ok(used) => if used >= n {
                        Ok(Some(PrepareRefusal::DailyLimit(n)))
                    } else {
                        Ok(None)
                    },
                },
            },
        }
    }
}

/// Which way a preparation goes.
#[derive(Debug, Clone, Copy, PartialEq, Eq, Structural)]
pub enum Route {
    /// The video alone.
    Direct,
    /// The video that is there, with the title that is there.
    Reuse,
    /// The video and its subtitles.
    Translate,
}

/// Which way a preparation goes, where a title and the video are there already or not.
pub fn prepare_route(mode: TransferMode, has_publication: bool, has_video: bool) -> (r: Route)
    ensures
        r is Direct <==> mode is Direct,
        r is Reuse <==> mode is Translated && has_publication && has_video,
{
    match mode {
        TransferMode::Direct => Route::Direct,
        TransferMode::Translated => if has_publication && has_video {
            Route::Reuse
        } else {
            Route::Translate
        },
    }
}

/// What the submission is planned as, and what the job is when it is through.
pub open spec fn plan_of(route: Route, has_subtitle: bool) -> (TransferMode, JobStatus) {
    match route {
        Route::Direct => (TransferMode::Direct, JobStatus::Completed),
        Route::Reuse => (TransferMode::Translated, JobStatus::Completed),
        Route::Translate => if has_subtitle {
            (TransferMode::Translated, JobStatus::Completed)
        } else {
            (TransferMode::Direct, JobStatus::UploadedOriginalPendingSubtitle)
        },
    }
}

/// The plan of a submission. A video that was to be translated and has no subtitles goes as it is
/// and waits for them.
pub fn plan_submission(route: Route, has_subtitle: bool, video_path: &str, cover_path: &str) -> (r:
    PreparedUpload)
    ensures
        r matches PreparedUpload::Submission { video_path: v, cover_path: c, mode, completion_status }
            && v@ == video_path@ && c@ == cover_path@ && (mode, completion_status) == plan_of(
            route,
            has_subtitle,
        ) && completion_status.completes(),
{
    let (mode, completion_status) = match route {
        Route::Direct => (TransferMode::Direct, JobStatus::Completed),
        Route::Reuse => (TransferMode::Translated, JobStatus::Completed),
        Route::Translate => if has_subtitle {
            (TransferMode::Translated, JobStatus::Completed)
        } else {
            (TransferMode::Direct, JobStatus::UploadedOriginalPendingSubtitle)
        },
    };
    PreparedUpload::Submission {
        video_path: video_path.to_owned(),
        cover_path: cover_path.to_owned(),
        mode,
        completion_status,
    }
}

// ---------------------------------------------------------------------------------------------
// Files
// ---------------------------------------------------------------------------------------------

/// A file of a directory: its name and its length in bytes.
#[derive(Debug)]
pub struct FileEntry {
    pub name: String,
    pub len: u64,
}

/// The least length of a video file, in bytes.
pub const MIN_VIDEO_BYTES: u64 = 1_024;

/// Whether a file is the video as it was fetched.
pub open spec fn is_video_file(f: FileEntry, video_id: Seq<char>) -> bool {
    starts(f.name@, video_id + ".raw."@) && f.len > MIN_VIDEO_BYTES
}

/// Whether a file is a subtitle: its name ends so, and it is not empty.
pub open spec fn is_subtitle_file(f: FileEntry) -> bool {
    &&& f.name@.len() > 4
    &&& occurs_at(f.name@, ".vtt"@, f.name@.len() - 4)
    &&& f.len > 0
}

/// The first file that is one of those looked for, if any.
pub open spec fn first_file(files: Seq<FileEntry>, p: spec_fn(FileEntry) -> bool, r: Option<usize>) -> bool {
    match r {
        Some(k) => k < files.len() && p(files[k as int]) && forall|j: int|
            0 <= j < k ==> !p(#[trigger] files[j]),
        None => forall|j: int| 0 <= j < files.len() ==> !p(#[trigger] files[j]),
    }
}

/// The video among the files of its directory.
pub fn find_video(files: &[FileEntry], video_id: &str) -> (r: Option<usize>)
    ensures
        first_file(files@, |f: FileEntry| is_video_file(f, video_id@), r),
{
    let head = join(video_id, ".raw.");
    let mut k: usize = 0;
    while k < files.len()
        invariant
            0 <= k <= files@.len(),
            head@ == video_id@ + ".raw."@,
            forall|j: int| 0 <= j < k ==> !is_video_file(#[trigger] files@[j], video_id@),
        decreases files@.len() - k,
    {
        if starts_with(files[k].name.as_str(), head.as_str()) && files[k].len > MIN_VIDEO_BYTES {
            return Some(k);
        }
        k = k + 1;
    }
    None
}

/// The subtitle among the files of a directory.
pub fn find_subtitle(files: &[FileEntry]) -> (r: Option<usize>)
    ensures
        first_file(files@, |f: FileEntry| is_subtitle_file(f), r),
{
    let tail = chars_of(".vtt");
    proof {
        reveal_strlit(".vtt");
    }
    let mut k: usize = 0;
    while k < files.len()
        invariant
            0 <= k <= files@.len(),
            tail@ == ".vtt"@,
            tail@.len() == 4,
            forall|j: int| 0 <= j < k ==> !is_subtitle_file(#[trigger] files@[j]),
        decreases files@.len() - k,
    {
        let name = chars_of(files[k].name.as_str());
        if name.len() > 4 && found_at(&name, &tail, name.len() - 4) && files[k].len > 0 {
            return Some(k);
        }
        k = k + 1;
    }
    None
}

/// The name of the cover of a video.
pub fn cover_name(video_id: &str) -> (r: String)
    ensures
        r@ == video_id@ + ".youtube-cover.jpg"@,
{
    join(video_id, ".youtube-cover.jpg")
}

/// The name of the file that keeps the sentences of a video.
pub fn segmented_name(video_id: &str) -> (r: String)
    ensures
        r@ == video_id@ + ".en.segmented.json"@,
{
    join(video_id, ".en.segmented.json")
}

/// The name of the file that keeps the translation of a video.
pub fn translated_name(video_id: &str) -> (r: String)
    ensures
        r@ == video_id@ + ".en-zh-CN.translated.json"@,
{
    join(video_id, ".en-zh-CN.translated.json")
}

/// The farthest that a fetched video may be from the length that was told, in milliseconds.
pub const LENGTH_TOLERANCE_MS: u64 = 3_000;

/// Whether a fetched video is as long as was told, within three seconds. Where nothing was told any
/// length is accepted.
pub fn length_accepted(told_ms: Option<u64>, fetched_ms: u64) -> (r: bool)
    ensures
        r == (told_ms matches Some(t) ==> -LENGTH_TOLERANCE_MS <= fetched_ms - t
            <= LENGTH_TOLERANCE_MS),
{
    match told_ms {
        None => true,
        Some(t) => if t <= fetched_ms {
            fetched_ms - t <= LENGTH_TOLERANCE_MS
        } else {
            t - fetched_ms <= LENGTH_TOLERANCE_MS
        },
    }
}

// ---------------------------------------------------------------------------------------------
// The format that is asked for
// ---------------------------------------------------------------------------------------------

/// Whether `s` is the whole part of the square root of `n`.
pub open spec fn is_root(n: int, s: int) -> bool {
    0 <= s && s * s <= n < (s + 1) * (s + 1)
}

/// The whole part of the square root of `n`.
pub open spec fn root_of(n: int) -> int {
    choose|s: int| is_root(n, s)
}

/// There is one such number.
pub proof fn one_root(n: int, a: int, b: int)
    requires
        is_root(n, a),
        is_root(n, b),
    ensures
        a == b,
{
    if a < b {
        assert((a + 1) * (a + 1) <= b * b) by (nonlinear_arith)
            requires
                0 <= a,
                a + 1 <= b,
        ;
    }
    if b < a {
        assert((b + 1) * (b + 1) <= a * a) by (nonlinear_arith)
            requires
                0 <= b,
                b + 1 <= a,
        ;
    }
}

/// The whole part of the square root of a number.
pub fn square_root(n: u64) -> (r: u64)
    ensures
        is_root(n as int, r as int),
        r == root_of(n as int),
{
    let mut low: u64 = 0;
    let mut high: u64 = 0x1_0000_0000;
    assert(high as int * high as int > n) by (nonlinear_arith)
        requires
            high == 0x1_0000_0000,
            n <= 0xffff_ffff_ffff_ffff,
    ;
    while high - low > 1
        invariant
            0 <= low < high <= 0x1_0000_0000,
            low as int * low as int <= n,
            high as int * high as int > n,
        decreases high - low,
    {
        let mid: u64 = low + (high - low) / 2;
        assert(0 <= mid as int * mid as int <= 0x1_0000_0000_0000_0000) by (nonlinear_arith)
            requires
                0 <= mid <= 0x1_0000_0000,
        ;
        if (mid as u128) * (mid as u128) <= n as u128 {
            low = mid;
        } else {
            high = mid;
        }
    }
    proof {
        assert(high == low + 1);
        assert(is_root(n as int, low as int));
        one_root(n as int, low as int, root_of(n as int));
    }
    low
}

/// One choice of format: at most so many frames, so wide and so high.
pub open spec fn choice(
    head: Seq<char>,
    max_fps: Seq<char>,
    width: int,
    height: int,
    tail: Seq<char>,
) -> Seq<char> {
    head + "[fps<="@ + max_fps + "][width<="@ + decimal_of(width as nat) + "][height<="@
        + decimal_of(height as nat) + "]"@ + tail
}

fn choice_text(head: &str, max_fps: &str, width: u64, height: u64, tail: &str) -> (r: String)
    ensures
        r@ == choice(head@, max_fps@, width as int, height as int, tail@),
{
    let mut s = head.to_owned();
    s.append("[fps<=");
    s.append(max_fps);
    s.append("][width<=");
    s.append(decimal(width).as_str());
    s.append("][height<=");
    s.append(decimal(height).as_str());
    s.append("]");
    s.append(tail);
    s
}

/// The choices of format, best first: the orientation of the video before the other, and H.264 with
/// AAC before anything else.
pub open spec fn choices(upright: bool, square: int, f: Seq<char>) -> Seq<Seq<char>> {
    let (w, h) = if upright {
        (1080int, 1920int)
    } else {
        (1920int, 1080int)
    };
    let avc = "bv*[vcodec^=avc1]"@;
    let aac = "+ba[acodec^=mp4a]"@;
    let both = "b[vcodec^=avc1][acodec^=mp4a]"@;
    seq![
        choice(avc, f, w, h, aac),
        choice(avc, f, h, w, aac),
        choice(avc, f, square, square, aac),
        choice(both, f, w, h, ""@),
        choice(both, f, h, w, ""@),
        choice("bv*"@, f, w, h, "+ba"@),
        choice("bv*"@, f, h, w, "+ba"@),
        choice("b"@, f, w, h, ""@),
        choice("b"@, f, h, w, ""@),
    ]
}

/// The formats that are asked for, with the most frames per second in decimal.
pub fn download_format_selector(meta: &VideoMetadata, max_pixels: u64, max_fps: &str) -> (r: String)
    ensures
        r@ == joined(
            choices(
                meta.upright() || meta.shorts_address(),
                root_of(max_pixels as int),
                max_fps@,
            ),
            "/"@,
        ),
{
    let upright = meta.is_vertical();
    let (w, h): (u64, u64) = if upright {
        (1080, 1920)
    } else {
        (1920, 1080)
    };
    let square: u64 = square_root(max_pixels);
    let avc = "bv*[vcodec^=avc1]";
    let aac = "+ba[acodec^=mp4a]";
    let both = "b[vcodec^=avc1][acodec^=mp4a]";
    let mut parts: Vec<String> = Vec::new();
    parts.push(choice_text(avc, max_fps, w, h, aac));
    parts.push(choice_text(avc, max_fps, h, w, aac));
    parts.push(choice_text(avc, max_fps, square, square, aac));
    parts.push(choice_text(both, max_fps, w, h, ""));
    parts.push(choice_text(both, max_fps, h, w, ""));
    parts.push(choice_text("bv*", max_fps, w, h, "+ba"));
    parts.push(choice_text("bv*", max_fps, h, w, "+ba"));
    parts.push(choice_text("b", max_fps, w, h, ""));
    parts.push(choice_text("b", max_fps, h, w, ""));
    proof {
        assert(views(parts@) =~= choices(upright, square as int, max_fps@));
    }
    join_all(&parts, "/")
}

// ---------------------------------------------------------------------------------------------
// Subtitles that are there already
// ---------------------------------------------------------------------------------------------

/// How many of the first `n` cues have a translation.
pub open spec fn translated_count(cues: Seq<Cue>, n: int) -> int
    decreases n,
{
    if n <= 0 {
        0
    } else {
        translated_count(cues, n - 1) + if cues[n - 1].translation is Some {
            1int
        } else {
            0int
        }
    }
}

/// What is left to translate of what was kept.
#[derive(Debug, Clone, Copy, PartialEq, Eq, Structural)]
pub enum TranslationWork {
    /// Nothing; there are so many cues.
    Done(usize),
    /// The rest; so many cues are done, of so many.
    Resume { done: usize, total: usize },
}

/// What is left to translate of the cues that were kept.
pub fn translation_work(kept: &[Cue]) -> (r: TranslationWork)
    ensures
        r == if all_translated(kept@, 0, kept@.len() as int) {
            TranslationWork::Done(kept@.len() as usize)
        } else {
            TranslationWork::Resume {
                done: translated_count(kept@, kept@.len() as int) as usize,
                total: kept@.len() as usize,
            }
        },
{
    if translation_checkpoint_complete(kept) {
        return TranslationWork::Done(kept.len());
    }
    let mut done: usize = 0;
    let mut i: usize = 0;
    while i < kept.len()
        invariant
            0 <= i <= kept@.len(),
            0 <= done <= i,
            done == translated_count(kept@, i as int),
        decreases kept@.len() - i,
    {
        if kept[i].translation.is_some() {
            done = done + 1;
        }
        i = i + 1;
    }
    TranslationWork::Resume { done, total: kept.len() }
}

impl TranslationWork {
    /// What is logged of it.
    pub open spec fn text(self) -> Seq<char> {
        match self {
            TranslationWork::Done(n) => "复用翻译缓存: "@ + decimal_of(n as nat) + " cues"@,
            TranslationWork::Resume { done, total } => "续传翻译检查点: "@ + decimal_of(
                done as nat,
            ) + "/"@ + decimal_of(total as nat) + " cues"@,
        }
    }

    /// What is logged of it.
    pub fn message(&self) -> (r: String)
        ensures
            r@ == self.text(),
    {
        match self {
            TranslationWork::Done(n) => {
                let mut s = "复用翻译缓存: ".to_owned();
                s.append(decimal(*n as u64).as_str());
                s.append(" cues");
                s
            },
            TranslationWork::Resume { done, total } => {
                let mut s = "续传翻译检查点: ".to_owned();
                s.append(decimal(*done as u64).as_str());
                s.append("/");
                s.append(decimal(*total as u64).as_str());
                s.append(" cues");
                s
            },
        }
    }
}

/// Whether the limits of the model's context make sense.
pub open spec fn budget_valid(context: usize, safe: usize) -> bool {
    0 < safe <= context
}

/// How many tokens a call may have, or the message that the limits make no sense.
pub fn ai_token_budget(context: usize, safe: usize) -> (r: Result<usize, String>)
    ensures
        r is Ok <==> budget_valid(context, safe),
        r matches Ok(n) ==> n == safe,
        r matches Err(e) ==> e@ == "AI token 配置无效: safe_context_tokens="@ + decimal_of(
            safe as nat,
        ) + ", context_window_tokens="@ + decimal_of(context as nat),
{
    if context == 0 || safe == 0 || safe > context {
        let mut s = "AI token 配置无效: safe_context_tokens=".to_owned();
        s.append(decimal(safe as u64).as_str());
        s.append(", context_window_tokens=");
        s.append(decimal(context as u64).as_str());
        Err(s)
    } else {
        Ok(safe)
    }
}

/// How the stage that reads what YouTube tells is logged when it failed.
pub fn metadata_stage_end(live: bool) -> (r: &'static str)
    ensures
        r@ == if live {
            "deferred"@
        } else {
            "failed"@
        },
{
    if live {
        "deferred"
    } else {
        "failed"
    }
}

// ---------------------------------------------------------------------------------------------
// What a preparation needs, and what comes of it
// ---------------------------------------------------------------------------------------------

/// Work stops below one limit of free gibibytes and is warned of below the other; where the room
/// cannot be read it stops too.
pub proof fn room_goes_by_whole_gibibytes(bytes: u64, storage: StorageConfig)
    ensures
        ({
            let r = room_of(Some(bytes), storage);
            let gib = bytes / 1_073_741_824;
            &&& r is Short <==> gib < storage.stop_free_gib
            &&& r is Low <==> storage.stop_free_gib <= gib < storage.warn_free_gib
            &&& r is Enough <==> storage.stop_free_gib <= gib && storage.warn_free_gib <= gib
            &&& r is Short ==> r->Short_0 == gib
            &&& r is Low ==> r->Low_0 == gib
            &&& r is Enough ==> r->Enough_0 == gib
        }),
        room_of(None, storage) is Unknown,
{
}

/// A preparation starts if and only if there is room and the tokens of the day, where they are
/// limited, are not used up.
pub proof fn preparations_need_room_and_tokens(
    free_bytes: Option<u64>,
    storage: StorageConfig,
    limit: Option<i64>,
    used: int,
)
    ensures
        prepare_refusal_of(free_bytes, storage, limit, used) is None <==> free_bytes is Some
            && free_bytes->Some_0 / 1_073_741_824 >= storage.stop_free_gib && (limit is None || used
            < limit->Some_0),
        prepare_refusal_of(free_bytes, storage, limit, used) matches Some(
            PrepareRefusal::DailyLimit(n),
        ) ==> limit == Some(n) && used >= n,
{
}

/// A video that goes as it is is done when it is through, and so is one that goes with its
/// subtitles; one that was to be translated and has none goes as it is and waits for them.
pub proof fn plans_tell_the_mode(has_subtitle: bool)
    ensures
        plan_of(Route::Direct, has_subtitle).0 == TransferMode::Direct,
        plan_of(Route::Direct, has_subtitle).1 == JobStatus::Completed,
        plan_of(Route::Reuse, has_subtitle).0 == TransferMode::Translated,
        plan_of(Route::Reuse, has_subtitle).1 == JobStatus::Completed,
        plan_of(Route::Translate, true).0 == TransferMode::Translated,
        plan_of(Route::Translate, true).1 == JobStatus::Completed,
        plan_of(Route::Translate, false).0 == TransferMode::Direct,
        plan_of(Route::Translate, false).1 == JobStatus::UploadedOriginalPendingSubtitle,
{
}

/// A video's file is named after it and holds more than a kibibyte; a subtitle's is not empty and
/// has the ending of one.
pub proof fn files_are_known_by_their_names(f: FileEntry, video_id: Seq<char>)
    ensures
        is_video_file(f, video_id) <==> f.len > 1_024 && f.name@.len() >= video_id.len() + 5
            && f.name@.take(video_id.len() as int) == video_id && f.name@.subrange(
            video_id.len() as int,
            video_id.len() as int + 5,
        ) == ".raw."@,
        is_subtitle_file(f) <==> f.len > 0 && f.name@.len() > 4 && f.name@.skip(f.name@.len() - 4)
            == ".vtt"@,
{
    reveal_strlit(".raw.");
    reveal_strlit(".vtt");
    let head = video_id + ".raw."@;
    let s = f.name@;
    let n = video_id.len() as int;
    if s.len() >= n + 5 {
        assert(s.subrange(0, n + 5).take(n) =~= s.take(n));
        assert(s.subrange(0, n + 5).skip(n) =~= s.subrange(n, n + 5));
        assert(head.take(n) =~= video_id);
        assert(head.skip(n) =~= ".raw."@);
        if s.take(n) == video_id && s.subrange(n, n + 5) == ".raw."@ {
            assert(s.subrange(0, n + 5) =~= s.take(n) + s.subrange(n, n + 5));
        }
    }
    if s.len() > 4 {
        assert(s.subrange(s.len() - 4, s.len() as int) =~= s.skip(s.len() - 4));
    }
}

/// The cues that are counted as done are those with a translation: the count grows by one with
/// each, and is all of them just where none is left.
pub proof fn translated_cues_are_counted(cues: Seq<Cue>, n: int)
    requires
        0 <= n <= cues.len(),
    ensures
        0 <= translated_count(cues, n) <= n,
        translated_count(cues, n) == n <==> forall|i: int|
            0 <= i < n ==> (#[trigger] cues[i]).translation is Some,
        n < cues.len() ==> translated_count(cues, n + 1) == translated_count(cues, n)
            + if cues[n].translation is Some { 1int } else { 0int },
    decreases n,
{
    if n > 0 {
        translated_cues_are_counted(cues, n - 1);
    }
}

/// The formats that are asked for lie within the picture's limits: an upright video is asked for
/// upright first, and a wide one wide. The codecs that every player has come first.
pub proof fn formats_are_asked_in_order(upright: bool, square: int, f: Seq<char>)
    ensures
        choices(upright, square, f).len() == 9,
        ({
            let tall = "[width<="@ + decimal_of(1080) + "][height<="@ + decimal_of(1920) + "]"@;
            let wide = "[width<="@ + decimal_of(1920) + "][height<="@ + decimal_of(1080) + "]"@;
            let fps = "[fps<="@ + f + "]"@;
            let (first, second) = if upright { (tall, wide) } else { (wide, tall) };
            let c = choices(upright, square, f);
            &&& c[0] == "bv*[vcodec^=avc1]"@ + fps + first + "+ba[acodec^=mp4a]"@
            &&& c[1] == "bv*[vcodec^=avc1]"@ + fps + second + "+ba[acodec^=mp4a]"@
            &&& c[3] == "b[vcodec^=avc1][acodec^=mp4a]"@ + fps + first
            &&& c[4] == "b[vcodec^=avc1][acodec^=mp4a]"@ + fps + second
            &&& c[5] == "bv*"@ + fps + first + "+ba"@
            &&& c[6] == "bv*"@ + fps + second + "+ba"@
            &&& c[7] == "b"@ + fps + first
            &&& c[8] == "b"@ + fps + second
        }),
{
    let tall = "[width<="@ + decimal_of(1080) + "][height<="@ + decimal_of(1920) + "]"@;
    let wide = "[width<="@ + decimal_of(1920) + "][height<="@ + decimal_of(1080) + "]"@;
    choice_parts("bv*[vcodec^=avc1]"@, f, "+ba[acodec^=mp4a]"@);
    choice_parts("b[vcodec^=avc1][acodec^=mp4a]"@, f, ""@);
    choice_parts("bv*"@, f, "+ba"@);
    choice_parts("b"@, f, ""@);
    reveal_strlit("");
    let fps = "[fps<="@ + f + "]"@;
    assert("b[vcodec^=avc1][acodec^=mp4a]"@ + fps + tall + ""@ =~= "b[vcodec^=avc1][acodec^=mp4a]"@
        + fps + tall);
    assert("b[vcodec^=avc1][acodec^=mp4a]"@ + fps + wide + ""@ =~= "b[vcodec^=avc1][acodec^=mp4a]"@
        + fps + wide);
    assert("b"@ + fps + tall + ""@ =~= "b"@ + fps + tall);
    assert("b"@ + fps + wide + ""@ =~= "b"@ + fps + wide);
}

proof fn choice_parts(head: Seq<char>, f: Seq<char>, tail: Seq<char>)
    ensures
        ({
            let tall = "[width<="@ + decimal_of(1080) + "][height<="@ + decimal_of(1920) + "]"@;
            let wide = "[width<="@ + decimal_of(1920) + "][height<="@ + decimal_of(1080) + "]"@;
            let fps = "[fps<="@ + f + "]"@;
            &&& choice(head, f, 1080, 1920, tail) == head + fps + tall + tail
            &&& choice(head, f, 1920, 1080, tail) == head + fps + wide + tail
        }),
{
    let tall = "[width<="@ + decimal_of(1080) + "][height<="@ + decimal_of(1920) + "]"@;
    let wide = "[width<="@ + decimal_of(1920) + "][height<="@ + decimal_of(1080) + "]"@;
    let fps = "[fps<="@ + f + "]"@;
    reveal_strlit("][width<=");
    reveal_strlit("[width<=");
    reveal_strlit("]");
    assert("][width<="@ =~= "]"@ + "[width<="@);
    assert(choice(head, f, 1080, 1920, tail) =~= head + fps + tall + tail);
    assert(choice(head, f, 1920, 1080, tail) =~= head + fps + wide + tail);
}

/// A video goes as it is where its mode says so; what is kept is used where both the title and the
/// video are; else it is translated. The plan bears the files, and the mode that came of it.
pub proof fn ways_go_by_mode_and_material(
    mode: TransferMode,
    titled: bool,
    fetched: bool,
    has_subtitle: bool,
    video: &str,
    cover: &str,
    route: Route,
    plan: PreparedUpload,
)
    requires
        call_ensures(prepare_route, (mode, titled, fetched), route),
        call_ensures(plan_submission, (route, has_subtitle, video, cover), plan),
    ensures
        route is Direct <==> mode == TransferMode::Direct,
        route is Reuse <==> mode == TransferMode::Translated && titled && fetched,
        route is Translate <==> mode == TransferMode::Translated && !(titled && fetched),
        plan->video_path@ == video@ && plan->cover_path@ == cover@,
        mode == TransferMode::Direct ==> plan->mode == TransferMode::Direct
            && plan->completion_status == JobStatus::Completed,
        route is Translate && !has_subtitle ==> plan->mode == TransferMode::Direct
            && plan->completion_status == JobStatus::UploadedOriginalPendingSubtitle,
        mode == TransferMode::Translated && (has_subtitle || route is Reuse) ==> plan->mode
            == TransferMode::Translated && plan->completion_status == JobStatus::Completed,
{
}

/// A fetched video is accepted where it is as long as was told, give or take three seconds.
pub proof fn lengths_may_differ_by_three_seconds(told: Option<u64>, fetched: u64, r: bool)
    requires
        call_ensures(length_accepted, (told, fetched), r),
    ensures
        r <==> told is None || (fetched <= told->Some_0 + 3_000 && told->Some_0 <= fetched + 3_000),
{
}

/// The first file that fits is taken, and none where none fits.
pub proof fn first_fitting_file_is_taken(files: Seq<FileEntry>, p: spec_fn(FileEntry) -> bool, r: Option<usize>)
    requires
        first_file(files, p, r),
    ensures
        r is Some ==> r->Some_0 < files.len() && p(files[r->Some_0 as int]),
        forall|j: int|
            0 <= j < files.len() && p(#[trigger] files[j]) ==> r is Some && r->Some_0 <= j,
{
}

/// A root's square is not more than the number, and the next one's is.
pub proof fn roots_are_exact(n: int, s: int)
    requires
        0 <= s,
        n == s * s,
    ensures
        root_of(n) == s,
{
    assert(is_root(n, s)) by (nonlinear_arith)
        requires
            n == s * s,
            0 <= s,
    ;
    one_root(n, s, root_of(n));
}

/// The third format that is asked for has the side of the square that the allowed points make.
pub proof fn square_formats_hold_the_points(upright: bool, square: int, f: Seq<char>)
    ensures
        choices(upright, square, f)[2] == "bv*[vcodec^=avc1]"@ + "[fps<="@ + f + "][width<="@
            + decimal_of(square as nat) + "][height<="@ + decimal_of(square as nat) + "]"@
            + "+ba[acodec^=mp4a]"@,
{
}

} // verus!
