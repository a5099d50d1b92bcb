//! Cutting a video's cues into sentences, one window of cues at a time.
use vstd::prelude::*;
use vstd::string::StringExecFns;

use crate::batching::{
    append_core_ranges, at_least_as_good, capped, choose_adaptive_boundary, core_of_covered_window,
    core_ranges, covers, covers_append, covers_bounds, each_index_in_one_range, earlier,
    estimate_segment_argument_bytes, estimate_segment_tokens, later, max_segment_window_end,
    models_are_told_the_cue, pair, pair_of, range_fault, segment_bytes, segment_total, token_json,
    token_model, usable_boundary, validate_ranges_cover, window_fits, BatchError,
    PI_MAX_PROMPT_ARGUMENT_BYTES,
};
use crate::config::BatchMode;
use crate::json::{
    fields_model, fields_model_index, list_model, list_model_index, member, member_is, Json,
    JsonModel,
};
use crate::reply::{
    all_ranges, item_range, parse_ranges, range_items, ranges_fault, ranges_of, ReplyError,
};
use crate::subtitle::{numbered, Cue};
use crate::text::{decimal_of, join};
use crate::translate::{delay_after, retry_delay_seconds, Note, NoteLevel};

verus! {

/// The limits that a segmentation keeps.
#[derive(Debug, Clone, Copy)]
pub struct SegmentSettings {
    pub batch_mode: BatchMode,
    /// Tokens that one prompt may need.
    pub budget: usize,
    /// Cues that one window may hold.
    pub max_cues: usize,
    /// Cues that a window shares with the one before it.
    pub overlap: usize,
}

/// Why a segmentation cannot go on.
#[derive(Debug, PartialEq, Eq, Structural, Clone, Copy)]
pub enum SegmentError {
    /// All cues were to go into one prompt, and they do not fit.
    WholeVideoTooLarge { tokens: usize, budget: usize, bytes: usize },
    /// A cue alone is over a limit.
    Window(BatchError),
    /// The overlap leaves no room for the core of a window.
    NoRoomForCore,
}

impl SegmentError {
    /// The message for this error.
    pub open spec fn text(self) -> Seq<char> {
        match self {
            SegmentError::WholeVideoTooLarge { tokens, budget, bytes } => pair_of(
                pair_of(
                    "whole_video 分句超过安全输入阈值: estimated_tokens="@,
                    tokens as int,
                    budget as int,
                ) + ", bytes="@,
                bytes as int,
                PI_MAX_PROMPT_ARGUMENT_BYTES as int,
            ) + "；请改用 adaptive"@,
            SegmentError::Window(e) => e.text(),
            SegmentError::NoRoomForCore => "安全 token 阈值过小，无法容纳分句核心字幕"@,
        }
    }

    /// The message for this error.
    pub fn message(&self) -> (r: String)
        ensures
            r@ == self.text(),
    {
        match self {
            SegmentError::WholeVideoTooLarge { tokens, budget, bytes } => {
                let a = pair(
                    "whole_video 分句超过安全输入阈值: estimated_tokens=",
                    *tokens,
                    *budget,
                );
                let b = join(a.as_str(), ", bytes=");
                let c = pair(b.as_str(), *bytes, PI_MAX_PROMPT_ARGUMENT_BYTES);
                join(c.as_str(), "；请改用 adaptive")
            },
            SegmentError::Window(e) => e.message(),
            SegmentError::NoRoomForCore => "安全 token 阈值过小，无法容纳分句核心字幕".to_owned(),
        }
    }
}

/// The cues of one prompt: those from `start` to `end`, without `end`. The ranges of the core,
/// which starts at `core_start`, are kept, up to a boundary near `preferred_end`.
#[derive(Debug, PartialEq, Eq, Structural, Clone, Copy)]
pub struct Window {
    pub start: usize,
    pub end: usize,
    pub core_start: usize,
    pub preferred_end: usize,
}

/// What a segmentation does next.
#[derive(Debug, PartialEq, Eq, Structural, Clone, Copy)]
pub enum SegmentStep {
    Call(Window),
    Done,
}

/// Whether all cues fit one prompt.
pub open spec fn fits_prompt(cues: Seq<Cue>, settings: SegmentSettings) -> bool {
    capped(segment_total(cues, 0, cues.len() as int)) <= settings.budget && capped(
        segment_bytes(cues, 0, cues.len() as int),
    ) <= PI_MAX_PROMPT_ARGUMENT_BYTES
}

/// Whether all cues go into one prompt.
pub open spec fn one_prompt(cues: Seq<Cue>, settings: SegmentSettings) -> bool {
    settings.batch_mode == BatchMode::WholeVideo || (fits_prompt(cues, settings) && cues.len()
        <= settings.max_cues)
}

/// Where the window for the core at `cursor` starts.
pub open spec fn window_start_of(cursor: int, overlap: int) -> int {
    later(cursor - overlap, 0)
}

/// Whether `end` is the last cue of the longest window from `start` on that fits a prompt.
pub open spec fn longest_window(cues: Seq<Cue>, start: int, end: int, budget: usize) -> bool {
    &&& start <= end < cues.len()
    &&& forall|e: int|
        start <= e <= end ==> #[trigger] window_fits(
            cues,
            start,
            e,
            budget,
            PI_MAX_PROMPT_ARGUMENT_BYTES,
        )
    &&& end + 1 < cues.len() ==> !window_fits(
        cues,
        start,
        end + 1,
        budget,
        PI_MAX_PROMPT_ARGUMENT_BYTES,
    )
}

/// Whether `w` is the window for the core at `cursor`, where `budget_end` is the last cue that
/// the limits of a prompt allow.
pub open spec fn window_for(
    cues: Seq<Cue>,
    cursor: int,
    settings: SegmentSettings,
    budget_end: int,
    w: Window,
) -> bool {
    let start = window_start_of(cursor, settings.overlap as int);
    let last = earlier(budget_end, start + settings.max_cues - 1);
    &&& longest_window(cues, start, budget_end, settings.budget)
    &&& w.start == start
    &&& w.end == last + 1
    &&& w.core_start == cursor
    &&& cursor <= last
    &&& w.preferred_end == if last + 1 < cues.len() {
        later(later(last - settings.overlap, 0), cursor)
    } else {
        cues.len() - 1
    }
}

/// Whether some window for the core at `cursor` exists.
pub open spec fn has_window(cues: Seq<Cue>, cursor: int, settings: SegmentSettings, w: Window) -> bool {
    exists|budget_end: int| window_for(cues, cursor, settings, budget_end, w)
}

/// Why there is no window for the core at `cursor`: its first cue is too large, or nothing of the
/// core fits behind the overlap.
pub open spec fn window_fault(cues: Seq<Cue>, cursor: int, settings: SegmentSettings) -> SegmentError {
    let start = window_start_of(cursor, settings.overlap as int);
    if window_fits(cues, start, start, settings.budget, PI_MAX_PROMPT_ARGUMENT_BYTES) {
        SegmentError::NoRoomForCore
    } else {
        SegmentError::Window(
            BatchError::CueTooLarge {
                cue: start as usize,
                tokens: capped(segment_total(cues, start, start + 1)) as usize,
                token_budget: settings.budget,
                bytes: capped(segment_bytes(cues, start, start + 1)) as usize,
                byte_budget: PI_MAX_PROMPT_ARGUMENT_BYTES,
            },
        )
    }
}

/// The window for the core at `cursor`.
pub fn next_window(cues: &[Cue], cursor: usize, settings: &SegmentSettings) -> (r: Result<
    Window,
    SegmentError,
>)
    requires
        cursor < cues@.len(),
        settings.max_cues > 0,
    ensures
        r matches Ok(w) ==> has_window(cues@, cursor as int, *settings, w),
        r matches Err(e) ==> e == window_fault(cues@, cursor as int, *settings),
        r is Ok <== exists|w: Window| has_window(cues@, cursor as int, *settings, w),
{
    let start: usize = if cursor >= settings.overlap {
        cursor - settings.overlap
    } else {
        0
    };
    let budget_end: usize = match max_segment_window_end(
        cues,
        start,
        settings.budget,
        PI_MAX_PROMPT_ARGUMENT_BYTES,
    ) {
        Ok(end) => end,
        Err(e) => {
            proof {
                assert forall|b: int, w: Window|
                    !#[trigger] window_for(cues@, cursor as int, *settings, b, w) by {
                    if window_for(cues@, cursor as int, *settings, b, w) {
                        assert(window_fits(
                            cues@,
                            start as int,
                            start as int,
                            settings.budget,
                            PI_MAX_PROMPT_ARGUMENT_BYTES,
                        ));
                    }
                }
            }
            return Err(SegmentError::Window(e));
        },
    };
    let cue_end: usize = start.saturating_add(settings.max_cues - 1);
    let last: usize = if budget_end <= cue_end {
        budget_end
    } else {
        cue_end
    };
    proof {
        assert forall|b: int, w: Window|
            #[trigger] window_for(cues@, cursor as int, *settings, b, w) implies b
            == budget_end by {
            if b < budget_end {
                assert(window_fits(
                    cues@,
                    start as int,
                    b + 1,
                    settings.budget,
                    PI_MAX_PROMPT_ARGUMENT_BYTES,
                ));
            } else if b > budget_end {
                assert(window_fits(
                    cues@,
                    start as int,
                    budget_end + 1,
                    settings.budget,
                    PI_MAX_PROMPT_ARGUMENT_BYTES,
                ));
            }
        }
    }
    if last < cursor {
        return Err(SegmentError::NoRoomForCore);
    }
    let n: usize = cues.len();
    let preferred_end: usize = if last < n - 1 {
        let back: usize = if last >= settings.overlap {
            last - settings.overlap
        } else {
            0
        };
        if back >= cursor {
            back
        } else {
            cursor
        }
    } else {
        n - 1
    };
    let w = Window { start, end: last + 1, core_start: cursor, preferred_end };
    proof {
        assert(window_for(cues@, cursor as int, *settings, budget_end as int, w));
    }
    Ok(w)
}

/// A segmentation under way: the cues before `cursor` are cut already, into `ranges`.
#[derive(Debug)]
pub struct SegmentRun {
    pub len: usize,
    pub whole: bool,
    pub cursor: usize,
    pub calls: usize,
    pub ranges: Vec<(usize, usize)>,
}

impl SegmentRun {
    /// The ranges so far cover the cues before the cursor, each once and in order.
    pub open spec fn wf(&self) -> bool {
        &&& self.cursor <= self.len
        &&& covers(self.ranges@, 0, self.cursor as int)
        &&& self.whole ==> (self.calls == 0 && self.cursor == 0) || (self.calls > 0 && self.cursor
            == self.len)
    }

    /// Whether nothing is left to cut.
    pub open spec fn done(&self) -> bool {
        if self.whole {
            self.calls > 0
        } else {
            self.cursor == self.len
        }
    }

    /// Whether `w` is a window whose core starts at the cursor.
    pub open spec fn takes(&self, w: Window) -> bool {
        &&& w.start <= w.core_start == self.cursor
        &&& w.end <= self.len
        &&& w.core_start <= w.preferred_end < w.end || (self.len == 0 && w.end == 0)
        &&& self.whole ==> w.start == 0 && w.end == self.len && self.calls == 0
    }

    /// A segmentation of `cues` that has not cut any yet.
    pub fn start(cues: &[Cue], settings: &SegmentSettings) -> (r: Result<
        SegmentRun,
        SegmentError,
    >)
        ensures
            r is Ok <==> (settings.batch_mode == BatchMode::WholeVideo ==> fits_prompt(
                cues@,
                *settings,
            )),
            r matches Ok(run) ==> {
                &&& run.wf()
                &&& run.len == cues@.len()
                &&& run.whole == one_prompt(cues@, *settings)
                &&& run.cursor == 0
                &&& run.calls == 0
                &&& run.ranges@.len() == 0
            },
            r matches Err(e) ==> e == (SegmentError::WholeVideoTooLarge {
                tokens: capped(segment_total(cues@, 0, cues@.len() as int)) as usize,
                budget: settings.budget,
                bytes: capped(segment_bytes(cues@, 0, cues@.len() as int)) as usize,
            }),
    {
        let tokens: usize = estimate_segment_tokens(cues);
        let bytes: usize = estimate_segment_argument_bytes(cues);
        let fits = tokens <= settings.budget && bytes <= PI_MAX_PROMPT_ARGUMENT_BYTES;
        let whole = match settings.batch_mode {
            BatchMode::WholeVideo => true,
            BatchMode::Adaptive => fits && cues.len() <= settings.max_cues,
        };
        if whole && !fits {
            return Err(
                SegmentError::WholeVideoTooLarge { tokens, budget: settings.budget, bytes },
            );
        }
        Ok(SegmentRun { len: cues.len(), whole, cursor: 0, calls: 0, ranges: Vec::new() })
    }

    /// The next window to hand to the model, or that all cues are cut.
    pub fn next_step(&self, cues: &[Cue], settings: &SegmentSettings) -> (r: Result<
        SegmentStep,
        SegmentError,
    >)
        requires
            self.wf(),
            self.len == cues@.len(),
            settings.max_cues > 0,
        ensures
            r == Ok::<SegmentStep, SegmentError>(SegmentStep::Done) <==> self.done(),
            r matches Ok(SegmentStep::Call(w)) ==> {
                &&& self.takes(w)
                &&& self.whole ==> w.preferred_end == later(self.len - 1, 0)
                &&& !self.whole ==> has_window(cues@, self.cursor as int, *settings, w)
            },
            r matches Err(e) ==> !self.whole && self.cursor < self.len && e == window_fault(
                cues@,
                self.cursor as int,
                *settings,
            ) && forall|w: Window| !has_window(cues@, self.cursor as int, *settings, w),
    {
        if self.whole {
            if self.calls > 0 {
                return Ok(SegmentStep::Done);
            }
            let last: usize = if self.len > 0 {
                self.len - 1
            } else {
                0
            };
            return Ok(
                SegmentStep::Call(
                    Window { start: 0, end: self.len, core_start: 0, preferred_end: last },
                ),
            );
        }
        if self.cursor == self.len {
            return Ok(SegmentStep::Done);
        }
        match next_window(cues, self.cursor, settings) {
            Ok(w) => Ok(SegmentStep::Call(w)),
            Err(e) => {
                proof {
                    assert forall|w: Window|
                        !#[trigger] has_window(cues@, self.cursor as int, *settings, w) by {
                        if has_window(cues@, self.cursor as int, *settings, w) {
                            assert(exists|x: Window|
                                has_window(cues@, self.cursor as int, *settings, x));
                        }
                    }
                }
                Err(e)
            },
        }
    }

    /// Takes over the ranges of a window that cover it. The core's ranges up to the boundary
    /// nearest to the preferred one are kept, in the last window all of them.
    pub fn accept(&mut self, w: Window, local: Vec<(usize, usize)>)
        requires
            old(self).wf(),
            !old(self).done(),
            old(self).takes(w),
            covers(local@, 0, w.end - w.start),
            old(self).calls < usize::MAX,
        ensures
            final(self).wf(),
            final(self).len == old(self).len,
            final(self).whole == old(self).whole,
            final(self).calls == old(self).calls + 1,
            old(self).ranges@.is_prefix_of(final(self).ranges@),
            old(self).whole ==> final(self).ranges@ == local@ && final(self).cursor
                == old(self).len,
            !old(self).whole ==> {
                let chosen = final(self).cursor - 1;
                &&& old(self).cursor <= chosen < w.end
                &&& w.end == old(self).len ==> chosen == old(self).len - 1
                &&& w.end < old(self).len ==> {
                    &&& exists|k: int|
                        #[trigger] usable_boundary(
                            local@,
                            w.start as int,
                            old(self).cursor as int,
                            w.end - 1,
                            k,
                        ) && chosen == w.start + local@[k].1
                    &&& forall|k: int|
                        #[trigger] usable_boundary(
                            local@,
                            w.start as int,
                            old(self).cursor as int,
                            w.end - 1,
                            k,
                        ) ==> at_least_as_good(
                            chosen,
                            w.start + local@[k].1,
                            w.preferred_end as int,
                        )
                }
                &&& core_ranges(
                    local@,
                    w.start as int,
                    old(self).cursor as int,
                    chosen,
                    0,
                    old(self).cursor as int,
                ) matches Ok(added) && final(self).ranges@ == old(self).ranges@ + added
            },
            final(self).done() || final(self).cursor > old(self).cursor,
    {
        let ghost before = self.ranges@;
        let ghost cursor0 = self.cursor;
        if self.whole {
            proof {
                covers_bounds(before, 0, 0);
                assert(before =~= Seq::empty());
            }
            self.ranges = local;
            self.cursor = self.len;
            self.calls = self.calls + 1;
            return ;
        }
        proof {
            covers_bounds(local@, 0, w.end - w.start);
            assert forall|k: int| 0 <= k < local@.len() implies w.start + (#[trigger] local@[k]).0
                <= usize::MAX && w.start + local@[k].1 <= usize::MAX by {}
        }
        let mut chosen: usize = w.end - 1;
        if w.end < self.len {
            match choose_adaptive_boundary(
                local.as_slice(),
                w.start,
                self.cursor,
                w.preferred_end,
                w.end - 1,
            ) {
                Ok(end) => {
                    chosen = end;
                },
                Err(_) => {
                    proof {
                        // The last range of a covered window ends where the window does.
                        assert(usable_boundary(
                            local@,
                            w.start as int,
                            self.cursor as int,
                            w.end - 1,
                            local@.len() - 1,
                        ));
                    }
                },
            }
        }
        proof {
            core_of_covered_window(
                local@,
                w.end - w.start,
                w.start as int,
                self.cursor as int,
                chosen as int,
            );
        }
        let outcome = append_core_ranges(
            &mut self.ranges,
            local.as_slice(),
            w.start,
            self.cursor,
            chosen,
        );
        proof {
            assert(outcome is Ok);
            let added = core_ranges(
                local@,
                w.start as int,
                cursor0 as int,
                chosen as int,
                0,
                cursor0 as int,
            )->Ok_0;
            covers_append(before, added, 0, cursor0 as int, chosen + 1);
        }
        self.cursor = chosen + 1;
        self.calls = self.calls + 1;
    }
}

/// A finished segmentation puts every cue into exactly one sentence.
pub proof fn finished_segmentation_covers_all(run: SegmentRun)
    requires
        run.wf(),
        run.done(),
    ensures
        covers(run.ranges@, 0, run.len as int),
{
}

// ---------------------------------------------------------------------------------------------
// The call for one window
// ---------------------------------------------------------------------------------------------

/// The cues of a window as they stand in a prompt.
pub open spec fn tokens_model(cues: Seq<Cue>) -> Seq<JsonModel> {
    Seq::new(cues.len(), |i: int| token_model(i, cues[i]))
}

/// The prompt for one window.
pub open spec fn segment_prompt(
    cues: Seq<Cue>,
    source_lang: Seq<char>,
    core_start: int,
    preferred_end: int,
) -> JsonModel {
    JsonModel::Object(
        seq![
            ("core_start"@, JsonModel::Int(core_start)),
            ("preferred_end"@, JsonModel::Int(preferred_end)),
            ("source_lang"@, JsonModel::Text(source_lang)),
            ("task"@, JsonModel::Text("segment"@)),
            ("tokens"@, JsonModel::List(tokens_model(cues))),
        ],
    )
}

/// The prompt for the cues of one window; `core_start` and `preferred_end` count from its start.
pub fn segment_payload(cues: &[Cue], source_lang: &str, core_start: usize, preferred_end: usize) -> (r:
    Json)
    ensures
        r@ == segment_prompt(cues@, source_lang@, core_start as int, preferred_end as int),
{
    let mut tokens: Vec<Json> = Vec::new();
    let mut i: usize = 0;
    while i < cues.len()
        invariant
            0 <= i <= cues@.len(),
            tokens@.len() == i,
            forall|j: int| 0 <= j < i ==> (#[trigger] tokens@[j])@ == token_model(j, cues@[j]),
        decreases cues@.len() - i,
    {
        tokens.push(token_json(i, &cues[i]));
        i = i + 1;
    }
    proof {
        list_model_index(tokens@);
        assert(list_model(tokens@) =~= tokens_model(cues@));
    }
    let mut fields: Vec<(String, Json)> = Vec::new();
    fields.push(("core_start".to_owned(), Json::Uint(core_start as u64)));
    fields.push(("preferred_end".to_owned(), Json::Uint(preferred_end as u64)));
    fields.push(("source_lang".to_owned(), Json::Text(source_lang.to_owned())));
    fields.push(("task".to_owned(), Json::Text("segment".to_owned())));
    fields.push(("tokens".to_owned(), Json::List(tokens)));
    proof {
        fields_model_index(fields@);
        assert(fields_model(fields@) =~= segment_prompt(
            cues@,
            source_lang@,
            core_start as int,
            preferred_end as int,
        )->Object_0);
    }
    Json::Object(fields)
}

/// Why an answer to a segmentation prompt does not cut the window.
#[derive(Debug, PartialEq, Eq, Structural, Clone, Copy)]
pub enum RangesError {
    Reply(ReplyError),
    Cover(BatchError),
}

impl RangesError {
    /// The message for this error.
    pub fn message(&self) -> (r: String)
        ensures
            r@ == match *self {
                RangesError::Reply(e) => e.text(),
                RangesError::Cover(e) => e.text(),
            },
    {
        match self {
            RangesError::Reply(e) => e.message(),
            RangesError::Cover(e) => e.message(),
        }
    }
}

/// Whether an answer holds ranges that cover a window of `len` cues.
pub open spec fn cuts_window(value: JsonModel, ranges: Seq<(usize, usize)>, len: int) -> bool {
    range_items(value) matches Some(items) && ranges_of(items, ranges) && covers(ranges, 0, len)
}

/// The ranges that items spell, where each of them spells one.
pub open spec fn spelled_ranges(items: Seq<JsonModel>) -> Seq<(usize, usize)> {
    Seq::new(items.len(), |i: int| item_range(items[i])->Some_0)
}

/// The ranges of an answer, where they cover a window of `len` cues.
pub fn judge_ranges(value: &Json, len: usize) -> (r: Result<Vec<(usize, usize)>, RangesError>)
    ensures
        r matches Ok(ranges) ==> cuts_window(value@, ranges@, len as int),
        r matches Err(RangesError::Reply(e)) ==> !(range_items(value@) matches Some(items)
            && all_ranges(items)) && ranges_fault(value@, e),
        r matches Err(RangesError::Cover(e)) ==> (range_items(value@) matches Some(items)
            && all_ranges(items) && range_fault(spelled_ranges(items), len, e)),
        r is Ok <== exists|ranges: Seq<(usize, usize)>| cuts_window(value@, ranges, len as int),
{
    match parse_ranges(value) {
        Err(e) => {
            proof {
                if exists|ranges: Seq<(usize, usize)>| cuts_window(value@, ranges, len as int) {
                    let ranges = choose|ranges: Seq<(usize, usize)>|
                        cuts_window(value@, ranges, len as int);
                    let items = range_items(value@)->Some_0;
                    assert(all_ranges(items));
                }
            }
            Err(RangesError::Reply(e))
        },
        Ok(ranges) => match validate_ranges_cover(len, ranges.as_slice()) {
            Err(e) => {
                proof {
                    assert(spelled_ranges(range_items(value@)->Some_0) =~= ranges@);
                    if exists|other: Seq<(usize, usize)>| cuts_window(value@, other, len as int) {
                        let other = choose|other: Seq<(usize, usize)>|
                            cuts_window(value@, other, len as int);
                        let items = range_items(value@)->Some_0;
                        assert forall|i: int| 0 <= i < items.len() implies other[i]
                            == ranges@[i] by {
                            assert(item_range(items[i]) == Some(other[i]));
                        }
                        assert(other =~= ranges@);
                    }
                }
                Err(RangesError::Cover(e))
            },
            Ok(()) => Ok(ranges),
        },
    }
}

/// The note on a failed call for one window.
pub open spec fn window_note(
    core_start: int,
    preferred_end: int,
    attempt: int,
    attempts: int,
    error: Seq<char>,
) -> Seq<char> {
    "分句窗口 "@ + decimal_of(core_start as nat) + ".."@ + decimal_of(preferred_end as nat)
        + " 第 "@ + decimal_of(attempt as nat) + "/"@ + decimal_of(attempts as nat) + " 次失败: "@
        + error
}

/// After a failed call for one window: how long to wait before the next call and what to note,
/// or nothing where it was the last one.
pub fn retry_window(
    core_start: usize,
    preferred_end: usize,
    attempt: usize,
    attempts: usize,
    error: &str,
) -> (r: Option<(u64, Note)>)
    requires
        attempt > 0,
    ensures
        r is Some <==> attempt < attempts,
        r matches Some((delay, note)) ==> delay == delay_after(attempt as int) && note.level
            == NoteLevel::Warn && note.text@ == window_note(
            core_start as int,
            preferred_end as int,
            attempt as int,
            attempts as int,
            error@,
        ),
{
    if attempt >= attempts {
        return None;
    }
    let a = numbered("分句窗口 ", core_start, "..");
    let b = numbered(a.as_str(), preferred_end, " 第 ");
    let c = numbered(b.as_str(), attempt, "/");
    let d = numbered(c.as_str(), attempts, " 次失败: ");
    let text = join(d.as_str(), error);
    Some((retry_delay_seconds(attempt), Note { level: NoteLevel::Warn, text }))
}

// ---------------------------------------------------------------------------------------------
// Sentences
// ---------------------------------------------------------------------------------------------

/// The texts of the cues `from..to`, separated by spaces.
pub open spec fn sources_joined(cues: Seq<Cue>, from: int, to: int) -> Seq<char>
    decreases to - from,
{
    if to <= from {
        Seq::empty()
    } else if to == from + 1 {
        cues[from].source@
    } else {
        sources_joined(cues, from, to - 1) + seq![' '] + cues[to - 1].source@
    }
}

/// Whether `merged` is the sentence that the cues of a range make up.
pub open spec fn merges(cues: Seq<Cue>, range: (usize, usize), merged: Cue) -> bool {
    &&& merged.start == cues[range.0 as int].start
    &&& merged.end == cues[range.1 as int].end
    &&& merged.source@ == sources_joined(cues, range.0 as int, range.1 + 1)
    &&& merged.translation is None
}

/// The sentences that ranges covering the cues make of them.
pub fn apply_ranges(cues: &[Cue], ranges: &[(usize, usize)]) -> (r: Vec<Cue>)
    requires
        covers(ranges@, 0, cues@.len() as int),
    ensures
        r@.len() == ranges@.len(),
        forall|k: int| 0 <= k < ranges@.len() ==> merges(cues@, ranges@[k], #[trigger] r@[k]),
{
    proof {
        covers_bounds(ranges@, 0, cues@.len() as int);
    }
    let total: usize = cues.len();
    let mut out: Vec<Cue> = Vec::new();
    let mut k: usize = 0;
    while k < ranges.len()
        invariant
            0 <= k <= ranges@.len(),
            total == cues@.len(),
            forall|j: int|
                0 <= j < ranges@.len() ==> 0 <= (#[trigger] ranges@[j]).0 <= ranges@[j].1 < total,
            out@.len() == k,
            forall|j: int| 0 <= j < k ==> merges(cues@, ranges@[j], #[trigger] out@[j]),
        decreases ranges@.len() - k,
    {
        let (a, b) = ranges[k];
        assert(ranges@[k as int] == (a, b));
        let mut source = cues[a].source.clone();
        let mut i: usize = a + 1;
        while i <= b
            invariant
                a < i <= b + 1,
                b < total,
                total == cues@.len(),
                source@ == sources_joined(cues@, a as int, i as int),
            decreases b + 1 - i,
        {
            source.push(' ');
            source.append(cues[i].source.as_str());
            proof {
                assert(source@ =~= sources_joined(cues@, a as int, i + 1));
            }
            i = i + 1;
        }
        out.push(Cue { start: cues[a].start, end: cues[b].end, source, translation: None });
        k = k + 1;
    }
    out
}

// ---------------------------------------------------------------------------------------------
// What the windows and the sentences are
// ---------------------------------------------------------------------------------------------

/// All cues go into one prompt where that is asked for, or where they fit it and are few enough.
pub proof fn one_prompt_where_all_fit(cues: Seq<Cue>, settings: SegmentSettings)
    requires
        segment_total(cues, 0, cues.len() as int) <= usize::MAX,
        segment_bytes(cues, 0, cues.len() as int) <= usize::MAX,
    ensures
        fits_prompt(cues, settings) <==> segment_total(cues, 0, cues.len() as int)
            <= settings.budget && segment_bytes(cues, 0, cues.len() as int) <= 98_304,
        settings.batch_mode == BatchMode::WholeVideo ==> one_prompt(cues, settings),
        settings.batch_mode == BatchMode::Adaptive ==> (one_prompt(cues, settings) <==> segment_total(
            cues,
            0,
            cues.len() as int,
        ) <= settings.budget && segment_bytes(cues, 0, cues.len() as int) <= 98_304 && cues.len()
            <= settings.max_cues),
{
}

/// A window starts the overlap before what is done, goes as far as the limits let it, holds no more
/// cues than allowed, and is to be cut the overlap before its end, save at the last cue.
pub proof fn windows_overlap_and_reach_far(
    cues: Seq<Cue>,
    cursor: int,
    settings: SegmentSettings,
    w: Window,
)
    requires
        has_window(cues, cursor, settings, w),
        0 <= cursor < cues.len(),
    ensures
        w.start == if cursor >= settings.overlap { cursor - settings.overlap } else { 0 },
        w.start <= cursor < w.end <= cues.len(),
        w.core_start == cursor,
        w.end - w.start <= settings.max_cues,
        segment_total(cues, w.start as int, w.end as int) <= settings.budget,
        segment_bytes(cues, w.start as int, w.end as int) <= 98_304,
        w.end < cues.len() && w.end - w.start < settings.max_cues ==> segment_total(
            cues,
            w.start as int,
            w.end + 1,
        ) > settings.budget || segment_bytes(cues, w.start as int, w.end + 1) > 98_304,
        w.end == cues.len() ==> w.preferred_end == cues.len() - 1,
        w.end < cues.len() && w.end - 1 - settings.overlap >= cursor ==> w.preferred_end == w.end - 1
            - settings.overlap,
        w.end < cues.len() && w.end - 1 - settings.overlap < cursor ==> w.preferred_end == cursor,
{
    let budget_end = choose|budget_end: int| window_for(cues, cursor, settings, budget_end, w);
    assert(window_fits(cues, w.start as int, w.end - 1, settings.budget, 98_304));
}

/// A sentence is its cues from the first to the last: it starts with the first, ends with the last,
/// and holds their texts with a space between each two.
pub proof fn sentences_join_their_cues(cues: Seq<Cue>, range: (usize, usize), merged: Cue, m: int)
    requires
        merges(cues, range, merged),
        range.0 <= range.1 < cues.len(),
    ensures
        merged.start == cues[range.0 as int].start,
        merged.end == cues[range.1 as int].end,
        merged.translation is None,
        range.0 == range.1 ==> merged.source@ == cues[range.0 as int].source@,
        range.0 < m <= range.1 ==> merged.source@ == sources_joined(cues, range.0 as int, m)
            + seq![' '] + sources_joined(cues, m, range.1 + 1),
{
    if range.0 < m <= range.1 {
        sources_split(cues, range.0 as int, m, range.1 + 1);
    }
}

proof fn sources_split(cues: Seq<Cue>, from: int, m: int, to: int)
    requires
        0 <= from < m < to <= cues.len(),
    ensures
        sources_joined(cues, from, to) == sources_joined(cues, from, m) + seq![' ']
            + sources_joined(cues, m, to),
    decreases to - m,
{
    if to > m + 1 {
        sources_split(cues, from, m, to - 1);
        assert(sources_joined(cues, from, to) =~= sources_joined(cues, from, m) + seq![' ']
            + sources_joined(cues, m, to));
    }
}

/// What the model is asked: to cut these cues into sentences, from where on, and where to.
pub proof fn models_are_asked_to_segment(
    cues: Seq<Cue>,
    source_lang: Seq<char>,
    core_start: int,
    preferred_end: int,
    i: int,
)
    requires
        0 <= i < cues.len(),
    ensures
        ({
            let m = segment_prompt(cues, source_lang, core_start, preferred_end);
            &&& member(m, "task"@) == Some(JsonModel::Text("segment"@))
            &&& member(m, "core_start"@) == Some(JsonModel::Int(core_start))
            &&& member(m, "preferred_end"@) == Some(JsonModel::Int(preferred_end))
            &&& member(m, "source_lang"@) == Some(JsonModel::Text(source_lang))
            &&& member(m, "tokens"@) matches Some(JsonModel::List(items))
            &&& items.len() == cues.len()
            &&& member(items[i], "i"@) == Some(JsonModel::Int(i))
            &&& member(items[i], "text"@) == Some(JsonModel::Text(cues[i].source@))
        }),
{
    reveal_strlit("core_start");
    reveal_strlit("preferred_end");
    reveal_strlit("source_lang");
    reveal_strlit("task");
    reveal_strlit("tokens");
    let fields = segment_prompt(cues, source_lang, core_start, preferred_end)->Object_0;
    assert(fields[0].0 == "core_start"@ && fields[1].0 == "preferred_end"@ && fields[2].0
        == "source_lang"@ && fields[3].0 == "task"@ && fields[4].0 == "tokens"@);
    assert("core_start"@.len() == 10 && "preferred_end"@.len() == 13 && "source_lang"@.len() == 11
        && "task"@.len() == 4 && "tokens"@.len() == 6);
    member_is(fields, 0);
    member_is(fields, 1);
    member_is(fields, 2);
    member_is(fields, 3);
    member_is(fields, 4);
    models_are_told_the_cue(i, cues[i]);
}

/// An answer cuts a window where its ranges are the ones it spells and leave no cue out.
pub proof fn answers_cut_the_whole_window(value: JsonModel, ranges: Seq<(usize, usize)>, len: int, i: int)
    requires
        cuts_window(value, ranges, len),
        0 <= i < len,
    ensures
        exists|k: int| 0 <= k < ranges.len() && (#[trigger] ranges[k]).0 <= i <= ranges[k].1,
        member(value, "ranges"@) matches Some(JsonModel::List(items)) && items.len() == ranges.len(),
{
    each_index_in_one_range(ranges, 0, len, i);
}

/// Where no window can be made, a cue alone is too large, or the overlap leaves no room.
pub proof fn windows_fail_for_a_reason(cues: Seq<Cue>, cursor: int, settings: SegmentSettings)
    requires
        0 <= cursor < cues.len() <= usize::MAX,
    ensures
        ({
            let start = if cursor >= settings.overlap { cursor - settings.overlap } else { 0 };
            let alone = segment_total(cues, start, start + 1) <= settings.budget && segment_bytes(
                cues,
                start,
                start + 1,
            ) <= 98_304;
            let e = window_fault(cues, cursor, settings);
            &&& alone <==> e is NoRoomForCore
            &&& !alone ==> e is Window && e->Window_0 is CueTooLarge && e->Window_0->CueTooLarge_cue == start
        }),
{
}

} // verus!
