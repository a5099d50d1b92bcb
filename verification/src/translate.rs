//! Translating a video's cues in batches: which batches, and how a batch is retried and halved.
use vstd::prelude::*;
use vstd::string::StringExecFns;

use crate::batching::{
    batches_fault, capped, contiguous, estimate_translation_tokens, greedy, in_order,
    sentence_too_large, translation_batches, translation_total, validate_translation_indexes,
    BatchError,
};
use crate::config::BatchMode;
use crate::json::{
    absent_members, fields_model, fields_model_index, list_model, list_model_index, member, member_is,
    Json, JsonModel,
};
use crate::reply::{
    all_translations, index_field, is_translation, parse_translations, spells, translation_items,
    translations_fault, translations_of, ReplyError,
};
use crate::subtitle::{all_translated, numbered, numbered_of, translation_batch_checkpointed, Cue};
use crate::text::{decimal, decimal_of, join, opt_view};

verus! {

/// The limits that a translation keeps.
#[derive(Debug, Clone, Copy)]
pub struct TranslationSettings {
    pub batch_mode: BatchMode,
    /// Tokens that one prompt may need.
    pub budget: usize,
    /// Cues that one batch may hold.
    pub batch_cues: usize,
    /// Batches that may be under way at once.
    pub concurrency: usize,
    /// Times that a batch is tried again.
    pub batch_retries: usize,
}

/// Why a translation cannot be planned.
#[derive(Debug, PartialEq, Eq, Structural, Clone, Copy)]
pub enum PlanError {
    /// All cues were to go into one prompt, and they do not fit.
    WholeVideoTooLarge { estimated: usize, budget: usize },
    /// The cues could not be cut into batches.
    Batches(BatchError),
    /// No batch may be under way.
    NoConcurrency,
}

impl PlanError {
    /// The message for this error.
    pub open spec fn text(self) -> Seq<char> {
        match self {
            PlanError::WholeVideoTooLarge { estimated, budget } => numbered_of(
                numbered_of("whole_video 翻译预计需要 "@, estimated, " tokens，超过安全阈值 "@),
                budget,
                "；请改用 adaptive"@,
            ),
            PlanError::Batches(e) => e.text(),
            PlanError::NoConcurrency => "translation_concurrency 必须大于 0"@,
        }
    }

    /// The message for this error.
    pub fn message(&self) -> (r: String)
        ensures
            r@ == self.text(),
    {
        match self {
            PlanError::WholeVideoTooLarge { estimated, budget } => {
                let a = numbered("whole_video 翻译预计需要 ", *estimated, " tokens，超过安全阈值 ");
                numbered(a.as_str(), *budget, "；请改用 adaptive")
            },
            PlanError::Batches(e) => e.message(),
            PlanError::NoConcurrency => "translation_concurrency 必须大于 0".to_owned(),
        }
    }
}

/// The batches of a translation, those that are still to be translated, and how many of these
/// may be under way at once.
#[derive(Debug)]
pub struct TranslationPlan {
    pub batches: Vec<(usize, usize)>,
    pub pending: Vec<(usize, usize)>,
    pub concurrency: usize,
}

/// The batches of `batches[..n]` that are not translated already.
pub open spec fn untranslated_batches(
    cues: Seq<Cue>,
    batches: Seq<(usize, usize)>,
    n: int,
) -> Seq<(usize, usize)>
    decreases n,
{
    if n <= 0 || n > batches.len() {
        Seq::empty()
    } else {
        let front = untranslated_batches(cues, batches, n - 1);
        let last = batches[n - 1];
        if all_translated(cues, last.0 as int, last.1 as int) {
            front
        } else {
            front.push(last)
        }
    }
}

/// How many batches may be under way at once: no more than there are, and at least one.
pub open spec fn concurrency_for(limit: int, pending: int) -> int {
    let some = if pending < 1 {
        1
    } else {
        pending
    };
    if limit <= some {
        limit
    } else {
        some
    }
}

/// Whether the batches of a plan lie inside the cues.
pub open spec fn inside(batches: Seq<(usize, usize)>, len: int) -> bool {
    forall|k: int| 0 <= k < batches.len() ==> (#[trigger] batches[k]).0 <= batches[k].1 <= len
}

proof fn contiguous_inside(batches: Seq<(usize, usize)>, from: int, to: int)
    requires
        contiguous(batches, from, to),
    ensures
        inside(batches, to),
    decreases batches.len(),
{
    if batches.len() > 0 {
        contiguous_inside(batches.drop_last(), from, batches.last().0 as int);
        assert forall|k: int| 0 <= k < batches.len() implies (#[trigger] batches[k]).0
            <= batches[k].1 <= to by {
            if k < batches.len() - 1 {
                assert(batches[k] == batches.drop_last()[k]);
            }
        }
    }
}

/// Whether the cues can be cut into batches.
pub open spec fn batches_exist(cues: Seq<Cue>, settings: TranslationSettings) -> bool {
    match settings.batch_mode {
        BatchMode::WholeVideo => capped(translation_total(cues, 0, cues.len() as int))
            <= settings.budget,
        BatchMode::Adaptive => cues.len() == 0 || (settings.batch_cues > 0 && forall|i: int|
            0 <= i < cues.len() ==> !sentence_too_large(#[trigger] cues[i], settings.budget)),
    }
}

/// Cuts the cues into batches and picks those that are not translated already.
pub fn plan_translation(cues: &[Cue], settings: &TranslationSettings) -> (r: Result<
    TranslationPlan,
    PlanError,
>)
    ensures
        r matches Ok(plan) ==> {
            &&& settings.concurrency > 0
            &&& settings.batch_mode == BatchMode::WholeVideo ==> plan.batches@ == seq![
                (0usize, cues@.len() as usize),
            ] && capped(translation_total(cues@, 0, cues@.len() as int)) <= settings.budget
            &&& settings.batch_mode == BatchMode::Adaptive ==> contiguous(
                plan.batches@,
                0,
                cues@.len() as int,
            ) && greedy(cues@, plan.batches@, settings.budget, settings.batch_cues)
            &&& inside(plan.batches@, cues@.len() as int)
            &&& plan.pending@ == untranslated_batches(
                cues@,
                plan.batches@,
                plan.batches@.len() as int,
            )
            &&& plan.concurrency == concurrency_for(
                settings.concurrency as int,
                plan.pending@.len() as int,
            )
        },
        r matches Err(PlanError::WholeVideoTooLarge { estimated, budget }) ==> settings.batch_mode
            == BatchMode::WholeVideo && estimated == capped(
            translation_total(cues@, 0, cues@.len() as int),
        ) && budget == settings.budget && estimated > settings.budget,
        r matches Err(PlanError::Batches(e)) ==> settings.batch_mode == BatchMode::Adaptive
            && cues@.len() > 0 && (settings.batch_cues == 0 || exists|i: int|
            0 <= i < cues@.len() && sentence_too_large(
                #[trigger] cues@[i],
                settings.budget,
            )) && batches_fault(cues@, settings.budget, settings.batch_cues, e),
        r matches Err(PlanError::NoConcurrency) ==> settings.concurrency == 0 && batches_exist(
            cues@,
            *settings,
        ),
        r is Ok <== settings.concurrency > 0 && batches_exist(cues@, *settings),
{
    let batches: Vec<(usize, usize)> = match settings.batch_mode {
        BatchMode::WholeVideo => {
            let estimated: usize = estimate_translation_tokens(cues);
            if estimated > settings.budget {
                return Err(PlanError::WholeVideoTooLarge { estimated, budget: settings.budget });
            }
            let mut one: Vec<(usize, usize)> = Vec::new();
            one.push((0, cues.len()));
            proof {
                assert(one@ =~= seq![(0usize, cues@.len() as usize)]);
            }
            one
        },
        BatchMode::Adaptive => match translation_batches(
            cues,
            settings.budget,
            settings.batch_cues,
        ) {
            Ok(b) => {
                proof {
                    contiguous_inside(b@, 0, cues@.len() as int);
                }
                b
            },
            Err(e) => {
                return Err(PlanError::Batches(e));
            },
        },
    };
    if settings.concurrency == 0 {
        return Err(PlanError::NoConcurrency);
    }
    let mut pending: Vec<(usize, usize)> = Vec::new();
    let mut k: usize = 0;
    while k < batches.len()
        invariant
            0 <= k <= batches@.len(),
            inside(batches@, cues@.len() as int),
            pending@ == untranslated_batches(cues@, batches@, k as int),
        decreases batches@.len() - k,
    {
        let (start, end) = batches[k];
        assert(batches@[k as int].0 <= batches@[k as int].1 <= cues@.len());
        if !translation_batch_checkpointed(cues, start, end) {
            pending.push((start, end));
        }
        k = k + 1;
    }
    let some: usize = if pending.len() < 1 {
        1
    } else {
        pending.len()
    };
    let concurrency: usize = if settings.concurrency <= some {
        settings.concurrency
    } else {
        some
    };
    Ok(TranslationPlan { batches, pending, concurrency })
}

// ---------------------------------------------------------------------------------------------
// One batch
// ---------------------------------------------------------------------------------------------

/// The longest wait before a call is tried again, in seconds.
pub const MAX_RETRY_DELAY: u64 = 30;

/// Two to the power of `n`.
pub open spec fn power_of_two(n: nat) -> nat
    decreases n,
{
    if n == 0 {
        1
    } else {
        2 * power_of_two((n - 1) as nat)
    }
}

/// The wait before the call that follows the failed call number `attempt`: 1 s, then twice as
/// long each time, and never over the limit.
pub open spec fn delay_after(attempt: int) -> int {
    let doubled = power_of_two((attempt - 1) as nat) as int;
    if doubled < MAX_RETRY_DELAY {
        doubled
    } else {
        MAX_RETRY_DELAY as int
    }
}

proof fn power_grows(n: nat)
    requires
        n >= 5,
    ensures
        power_of_two(n) >= 32,
    decreases n,
{
    if n == 5 {
        reveal_with_fuel(power_of_two, 6);
    } else {
        power_grows((n - 1) as nat);
    }
}

/// The wait before the call that follows the failed call number `attempt`.
pub fn retry_delay_seconds(attempt: usize) -> (r: u64)
    requires
        attempt > 0,
    ensures
        r == delay_after(attempt as int),
{
    proof {
        reveal_with_fuel(power_of_two, 6);
        if attempt >= 6 {
            power_grows((attempt - 1) as nat);
        }
    }
    if attempt == 1 {
        1
    } else if attempt == 2 {
        2
    } else if attempt == 3 {
        4
    } else if attempt == 4 {
        8
    } else if attempt == 5 {
        16
    } else {
        MAX_RETRY_DELAY
    }
}

/// Why an answer to a translation prompt is no translation of the cues.
#[derive(Debug, PartialEq, Eq, Structural, Clone, Copy)]
pub enum AnswerError {
    Reply(ReplyError),
    Indexes(BatchError),
}

impl AnswerError {
    /// The message for this error.
    pub open spec fn text(self) -> Seq<char> {
        match self {
            AnswerError::Reply(e) => e.text(),
            AnswerError::Indexes(e) => e.text(),
        }
    }

    /// The message for this error.
    pub fn message(&self) -> (r: String)
        ensures
            r@ == self.text(),
    {
        match self {
            AnswerError::Reply(e) => e.message(),
            AnswerError::Indexes(e) => e.message(),
        }
    }
}

/// Whether an answer holds one translation for each of `len` cues, in order.
pub open spec fn translates(value: JsonModel, len: int) -> bool {
    translation_items(value) matches Some(items) && all_translations(items) && items.len() == len
        && forall|i: int|
        0 <= i < items.len() ==> index_field(#[trigger] items[i], "i"@) == Some(
            i as usize,
        )
}

/// Whether `e` says what is wrong first with the number or the order of translations for `len`
/// cues.
pub open spec fn index_fault(items: Seq<JsonModel>, len: usize, e: BatchError) -> bool {
    if items.len() != len {
        e == (BatchError::TranslationCount { got: items.len() as usize, want: len })
    } else {
        e matches BatchError::TranslationIndex { index, expected } && expected < len
            && index_field(items[expected as int], "i"@) == Some(index) && index != expected
            && forall|j: int|
            0 <= j < expected ==> index_field(#[trigger] items[j], "i"@) == Some(j as usize)
    }
}

/// The translations of an answer, where it holds one for each of `len` cues, in order.
pub fn judge_translations(value: &Json, len: usize) -> (r: Result<
    Vec<(usize, String)>,
    AnswerError,
>)
    ensures
        r is Ok <==> translates(value@, len as int),
        r matches Ok(out) ==> out@.len() == len && in_order(out@, len as int) && (
        translation_items(value@) matches Some(items) && translations_of(items, out@)),
        r matches Err(AnswerError::Reply(e)) ==> !(translation_items(value@) matches Some(items)
            && all_translations(items)) && translations_fault(value@, e),
        r matches Err(AnswerError::Indexes(e)) ==> (translation_items(value@) matches Some(items)
            && all_translations(items) && index_fault(items, len, e)),
{
    match parse_translations(value) {
        Err(e) => Err(AnswerError::Reply(e)),
        Ok(out) => match validate_translation_indexes(len, out.as_slice()) {
            Err(e) => {
                proof {
                    let items = translation_items(value@)->Some_0;
                    assert forall|j: int| 0 <= j < items.len() implies index_field(
                        #[trigger] items[j],
                        "i"@,
                    ) == Some(out@[j].0) by {
                        assert(spells(items[j], out@[j]));
                    }
                    if translates(value@, len as int) {
                        assert forall|i: int| 0 <= i < out@.len() implies (#[trigger] out@[i]).0
                            == i by {
                            assert(spells(items[i], out@[i]));
                        }
                    }
                }
                Err(AnswerError::Indexes(e))
            },
            Ok(()) => {
                proof {
                    let items = translation_items(value@)->Some_0;
                    assert forall|i: int| 0 <= i < items.len() implies index_field(
                        #[trigger] items[i],
                        "i"@,
                    ) == Some(i as usize) by {
                        assert(spells(items[i], out@[i]));
                        assert(out@[i].0 == i);
                    }
                }
                Ok(out)
            },
        },
    }
}

/// How a call to the model ended.
#[derive(Debug)]
pub enum CallOutcome {
    /// The process failed, with this message.
    Failed(String),
    /// The process answered with these translations, or with something that is none.
    Answered {
        translations: Result<Vec<(usize, String)>, AnswerError>,
        duration_ms: u64,
        peak_rss_kib: u64,
    },
}

/// How serious a note is.
#[derive(Debug, PartialEq, Eq, Structural, Clone, Copy)]
pub enum NoteLevel {
    Warn,
    Error,
}

/// A line for the job's event log.
#[derive(Debug)]
pub struct Note {
    pub level: NoteLevel,
    pub text: String,
}

/// What is done next for a batch.
#[derive(Debug)]
pub enum BatchAction {
    /// Wait that many seconds and call the model with the current cues.
    Call { delay_seconds: u64 },
    /// All cues of the batch are translated.
    Done,
    /// The batch cannot be translated.
    Fail(String),
}

/// A batch under way. The cues before `current.0` are translated into `results`; `current` is the
/// place and number of cues of the call under way; `later` are the pieces behind it, the next one
/// last.
#[derive(Debug)]
pub struct BatchRun {
    pub start: usize,
    pub len: usize,
    pub attempts: usize,
    pub attempt: usize,
    pub current: (usize, usize),
    pub later: Vec<(usize, usize)>,
    pub feedback: Option<String>,
    pub results: Vec<(usize, String)>,
    pub duration_ms: u64,
    pub peak_rss_kib: u64,
}

/// Whether pieces, the last of them first, follow each other without gaps from `from` to `to`.
pub open spec fn stacked(pieces: Seq<(usize, usize)>, from: int, to: int) -> bool
    decreases pieces.len(),
{
    if pieces.len() == 0 {
        from == to
    } else {
        let next = pieces.last();
        next.0 == from && next.1 > 0 && stacked(pieces.drop_last(), from + next.1, to)
    }
}

/// How many calls a piece of `n` cues can take at most.
pub open spec fn calls_for(attempts: int, n: int) -> int {
    attempts * (2 * n - 1)
}

/// How many calls the pieces can take at most.
pub open spec fn calls_for_all(attempts: int, pieces: Seq<(usize, usize)>) -> int
    decreases pieces.len(),
{
    if pieces.len() == 0 {
        0
    } else {
        calls_for_all(attempts, pieces.drop_last()) + calls_for(attempts, pieces.last().1 as int)
    }
}

/// The text of a piece of a batch: its first and last cue in the video.
pub open spec fn piece_text(first: int, len: int) -> Seq<char> {
    "翻译批次 "@ + decimal_of(first as nat) + ".."@ + decimal_of((first + len) as nat)
}

/// What the model is told after an answer that could not be used.
pub open spec fn feedback_text(error: Seq<char>) -> Seq<char> {
    "上一轮输出未通过解析/校验："@ + error
        + "。请只输出符合要求的 JSON，不要输出解释、Markdown 或额外字段。"@
}

/// The note on an answer that could not be used.
pub open spec fn invalid_note(first: int, len: int, error: Seq<char>) -> Seq<char> {
    piece_text(first, len) + " 输出无效，带反馈重试: "@ + error
}

/// The note on a failed call.
pub open spec fn failed_note(
    first: int,
    len: int,
    attempt: int,
    attempts: int,
    error: Seq<char>,
) -> Seq<char> {
    piece_text(first, len) + " 第 "@ + decimal_of(attempt as nat) + "/"@ + decimal_of(
        attempts as nat,
    ) + " 次失败: "@ + error
}

/// The note on a piece that is halved after its last try.
pub open spec fn halved_note(first: int, len: int) -> Seq<char> {
    piece_text(first, len) + " 重试耗尽，自动降半重试"@
}

/// The message of a batch that failed for good.
pub open spec fn gave_up_text(first: int, len: int, attempts: int, error: Seq<char>) -> Seq<char> {
    piece_text(first, len) + " 在 "@ + decimal_of(attempts as nat) + " 次尝试后失败: "@ + error
}

fn piece(first: usize, len: usize) -> (r: String)
    requires
        first + len <= usize::MAX,
    ensures
        r@ == piece_text(first as int, len as int),
{
    let head = numbered("翻译批次 ", first, "..");
    let digits = decimal((first + len) as u64);
    join(head.as_str(), digits.as_str())
}

/// Whether the notes of a step are those of the given levels and texts.
pub open spec fn notes_are(notes: Seq<Note>, expected: Seq<(NoteLevel, Seq<char>)>) -> bool {
    &&& notes.len() == expected.len()
    &&& forall|i: int|
        0 <= i < notes.len() ==> (#[trigger] notes[i]).level == expected[i].0 && notes[i].text@
            == expected[i].1
}

impl BatchRun {
    /// The pieces cover the rest of the batch, and the results the cues before them in order.
    pub open spec fn wf(&self) -> bool {
        &&& self.start + self.len <= usize::MAX
        &&& 1 <= self.attempt <= self.attempts
        &&& self.current.0 == self.results@.len()
        &&& self.current.1 > 0
        &&& self.current.0 + self.current.1 <= self.len
        &&& stacked(self.later@, self.current.0 + self.current.1, self.len as int)
        &&& in_order(self.results@, self.results@.len() as int)
    }

    /// How many more calls the batch can take at most.
    pub open spec fn calls_left(&self) -> int {
        calls_for(self.attempts as int, self.current.1 as int) - (self.attempt - 1)
            + calls_for_all(self.attempts as int, self.later@)
    }

    /// The first cue of the current piece in the video.
    pub open spec fn first(&self) -> int {
        self.start + self.current.0
    }

    /// Whether nothing changed but what the call cost.
    pub open spec fn same_plan(&self, other: &BatchRun) -> bool {
        &&& self.start == other.start
        &&& self.len == other.len
        &&& self.attempts == other.attempts
    }

    /// A batch of `len` cues from `start` on, tried once and then `retries` times again.
    pub fn begin(start: usize, len: usize, retries: usize) -> (r: BatchRun)
        requires
            len > 0,
            start + len <= usize::MAX,
        ensures
            r.wf(),
            r.start == start,
            r.len == len,
            r.attempts == capped(retries + 1),
            r.attempt == 1,
            r.current == (0usize, len),
            r.later@.len() == 0,
            r.feedback is None,
            r.results@.len() == 0,
            r.duration_ms == 0,
            r.peak_rss_kib == 0,
            r.calls_left() == calls_for(r.attempts as int, len as int),
    {
        BatchRun {
            start,
            len,
            attempts: retries.saturating_add(1),
            attempt: 1,
            current: (0, len),
            later: Vec::new(),
            feedback: None,
            results: Vec::new(),
            duration_ms: 0,
            peak_rss_kib: 0,
        }
    }

    /// Whether an outcome can come from a call with the current piece.
    pub open spec fn takes(&self, outcome: CallOutcome) -> bool {
        outcome matches CallOutcome::Answered { translations: Ok(t), .. } ==> t@.len()
            == self.current.1 && in_order(t@, self.current.1 as int)
    }

    /// The text of the error in an outcome that is no translation.
    pub open spec fn error_of(outcome: CallOutcome) -> Seq<char> {
        match outcome {
            CallOutcome::Failed(t) => t@,
            CallOutcome::Answered { translations: Err(e), .. } => e.text(),
            _ => Seq::empty(),
        }
    }

    /// Whether an outcome is a usable answer.
    pub open spec fn usable(outcome: CallOutcome) -> bool {
        outcome matches CallOutcome::Answered { translations: Ok(_), .. }
    }

    /// Whether the run went on to the next piece after the translations `t` of the current one.
    pub open spec fn moved_on(&self, old: &BatchRun, t: Seq<(usize, String)>) -> bool {
        &&& self.results@.len() == old.results@.len() + t.len()
        &&& forall|i: int|
            0 <= i < old.results@.len() ==> #[trigger] self.results@[i] == old.results@[i]
        &&& forall|i: int|
            0 <= i < t.len() ==> (#[trigger] t[i]).1 == self.results@[old.results@.len() + i].1
        &&& in_order(self.results@, self.results@.len() as int)
        &&& old.later@.len() > 0 ==> self.current == old.later@.last() && self.later@
            == old.later@.drop_last() && self.attempt == 1 && self.feedback is None
    }

    /// Whether the current piece was cut in two, the first half of which comes next.
    pub open spec fn halved(&self, old: &BatchRun) -> bool {
        let mid = old.current.1 / 2;
        &&& self.current == (old.current.0, mid)
        &&& self.later@ == old.later@.push(
            ((old.current.0 + mid) as usize, (old.current.1 - mid) as usize),
        )
        &&& self.attempt == 1
        &&& self.feedback is None
        &&& self.results@ == old.results@
    }

    /// Whether the same piece is tried once more.
    pub open spec fn tries_again(&self, old: &BatchRun) -> bool {
        &&& self.current == old.current
        &&& self.later@ == old.later@
        &&& self.attempt == old.attempt + 1
        &&& self.results@ == old.results@
    }

    /// Takes the outcome of the call under way. An answer that is no translation is tried again
    /// with feedback, a failed call after a wait. A piece that failed its last try is cut in two,
    /// down to single cues; a single cue that failed its last try fails the batch.
    pub fn step(&mut self, outcome: CallOutcome) -> (r: (BatchAction, Vec<Note>))
        requires
            old(self).wf(),
            old(self).takes(outcome),
        ensures
            final(self).same_plan(old(self)),
            final(self).duration_ms == match outcome {
                CallOutcome::Failed(_) => old(self).duration_ms as int,
                CallOutcome::Answered { duration_ms, .. } => if old(self).duration_ms + duration_ms
                    <= u64::MAX {
                    old(self).duration_ms + duration_ms
                } else {
                    u64::MAX as int
                },
            },
            final(self).peak_rss_kib == match outcome {
                CallOutcome::Failed(_) => old(self).peak_rss_kib,
                CallOutcome::Answered { peak_rss_kib, .. } => if peak_rss_kib
                    > old(self).peak_rss_kib {
                    peak_rss_kib
                } else {
                    old(self).peak_rss_kib
                },
            },
            r.0 is Call ==> final(self).wf() && final(self).calls_left() < old(self).calls_left(),
            r.0 is Done ==> final(self).results@.len() == old(self).len && in_order(
                final(self).results@,
                old(self).len as int,
            ),
            r.0 is Done <==> Self::usable(outcome) && old(self).later@.len() == 0,
            outcome matches CallOutcome::Answered { translations: Ok(t), .. } ==> {
                &&& final(self).moved_on(old(self), t@)
                &&& r.1@.len() == 0
                &&& old(self).later@.len() > 0 ==> r.0 == (BatchAction::Call { delay_seconds: 0 })
            },
            !Self::usable(outcome) && old(self).attempt < old(self).attempts ==> {
                &&& final(self).tries_again(old(self))
                &&& outcome is Failed ==> final(self).feedback == old(self).feedback && r.0 == (
                BatchAction::Call { delay_seconds: delay_after(old(self).attempt as int) as u64 })
                    && notes_are(
                    r.1@,
                    seq![
                        (
                            NoteLevel::Warn,
                            failed_note(
                                old(self).first(),
                                old(self).current.1 as int,
                                old(self).attempt as int,
                                old(self).attempts as int,
                                Self::error_of(outcome),
                            ),
                        ),
                    ],
                )
                &&& outcome is Answered ==> (final(self).feedback matches Some(f) && f@
                    == feedback_text(Self::error_of(outcome))) && r.0 == (BatchAction::Call {
                    delay_seconds: 0,
                }) && notes_are(
                    r.1@,
                    seq![
                        (
                            NoteLevel::Warn,
                            invalid_note(
                                old(self).first(),
                                old(self).current.1 as int,
                                Self::error_of(outcome),
                            ),
                        ),
                    ],
                )
            },
            !Self::usable(outcome) && old(self).attempt == old(self).attempts
                && old(self).current.1 > 1 ==> {
                &&& final(self).halved(old(self))
                &&& r.0 == (BatchAction::Call { delay_seconds: 0 })
                &&& outcome is Answered ==> r.1@.len() == 0
                &&& outcome is Failed ==> notes_are(
                    r.1@,
                    seq![
                        (
                            NoteLevel::Error,
                            failed_note(
                                old(self).first(),
                                old(self).current.1 as int,
                                old(self).attempt as int,
                                old(self).attempts as int,
                                Self::error_of(outcome),
                            ),
                        ),
                        (
                            NoteLevel::Warn,
                            halved_note(old(self).first(), old(self).current.1 as int),
                        ),
                    ],
                )
            },
            !Self::usable(outcome) && old(self).attempt == old(self).attempts
                && old(self).current.1 == 1 ==> {
                &&& r.0 matches BatchAction::Fail(m) && m@ == gave_up_text(
                    old(self).first(),
                    1,
                    old(self).attempts as int,
                    Self::error_of(outcome),
                )
                &&& notes_are(
                    r.1@,
                    seq![
                        (
                            NoteLevel::Error,
                            failed_note(
                                old(self).first(),
                                1,
                                old(self).attempt as int,
                                old(self).attempts as int,
                                Self::error_of(outcome),
                            ),
                        ),
                    ],
                )
            },
    {
        let mut notes: Vec<Note> = Vec::new();
        let first: usize = self.start + self.current.0;
        let len: usize = self.current.1;
        match outcome {
            CallOutcome::Answered { translations, duration_ms, peak_rss_kib } => {
                self.duration_ms = self.duration_ms.saturating_add(duration_ms);
                if peak_rss_kib > self.peak_rss_kib {
                    self.peak_rss_kib = peak_rss_kib;
                }
                match translations {
                    Ok(t) => {
                        let more = self.keep(t);
                        let action = if more {
                            BatchAction::Call { delay_seconds: 0 }
                        } else {
                            BatchAction::Done
                        };
                        (action, notes)
                    },
                    Err(e) => {
                        let error = e.message();
                        if self.attempt < self.attempts {
                            notes.push(
                                Note {
                                    level: NoteLevel::Warn,
                                    text: joined3(
                                        piece(first, len),
                                        " 输出无效，带反馈重试: ",
                                        error.as_str(),
                                    ),
                                },
                            );
                            self.feedback = Some(
                                joined3(
                                    "上一轮输出未通过解析/校验：".to_owned(),
                                    error.as_str(),
                                    "。请只输出符合要求的 JSON，不要输出解释、Markdown 或额外字段。",
                                ),
                            );
                            self.attempt = self.attempt + 1;
                            (BatchAction::Call { delay_seconds: 0 }, notes)
                        } else if len > 1 {
                            self.halve();
                            (BatchAction::Call { delay_seconds: 0 }, notes)
                        } else {
                            notes.push(
                                Note { level: NoteLevel::Error, text: self.failure(error.as_str()) },
                            );
                            (BatchAction::Fail(self.gave_up(error.as_str())), notes)
                        }
                    },
                }
            },
            CallOutcome::Failed(error) => {
                if self.attempt < self.attempts {
                    notes.push(Note { level: NoteLevel::Warn, text: self.failure(error.as_str()) });
                    let delay_seconds: u64 = retry_delay_seconds(self.attempt);
                    self.attempt = self.attempt + 1;
                    (BatchAction::Call { delay_seconds }, notes)
                } else {
                    notes.push(
                        Note { level: NoteLevel::Error, text: self.failure(error.as_str()) },
                    );
                    if len > 1 {
                        notes.push(
                            Note {
                                level: NoteLevel::Warn,
                                text: join(piece(first, len).as_str(), " 重试耗尽，自动降半重试"),
                            },
                        );
                        self.halve();
                        (BatchAction::Call { delay_seconds: 0 }, notes)
                    } else {
                        (BatchAction::Fail(self.gave_up(error.as_str())), notes)
                    }
                }
            },
        }
    }

    fn failure(&self, error: &str) -> (r: String)
        requires
            self.wf(),
        ensures
            r@ == failed_note(
                self.first(),
                self.current.1 as int,
                self.attempt as int,
                self.attempts as int,
                error@,
            ),
    {
        let head = piece(self.start + self.current.0, self.current.1);
        let front = join(head.as_str(), " 第 ");
        let a = numbered(front.as_str(), self.attempt, "/");
        let b = numbered(a.as_str(), self.attempts, " 次失败: ");
        join(b.as_str(), error)
    }

    fn gave_up(&self, error: &str) -> (r: String)
        requires
            self.wf(),
        ensures
            r@ == gave_up_text(
                self.first(),
                self.current.1 as int,
                self.attempts as int,
                error@,
            ),
    {
        let head = piece(self.start + self.current.0, self.current.1);
        let front = join(head.as_str(), " 在 ");
        let a = numbered(front.as_str(), self.attempts, " 次尝试后失败: ");
        join(a.as_str(), error)
    }

    /// Cuts the current piece in two.
    fn halve(&mut self)
        requires
            old(self).wf(),
            old(self).attempt == old(self).attempts,
            old(self).current.1 > 1,
        ensures
            final(self).wf(),
            final(self).same_plan(old(self)),
            final(self).halved(old(self)),
            final(self).calls_left() < old(self).calls_left(),
            final(self).duration_ms == old(self).duration_ms,
            final(self).peak_rss_kib == old(self).peak_rss_kib,
    {
        let (at, len) = self.current;
        let mid: usize = len / 2;
        let ghost before = self.later@;
        self.later.push((at + mid, len - mid));
        self.current = (at, mid);
        self.attempt = 1;
        self.feedback = None;
        proof {
            assert(self.later@.drop_last() =~= before);
            let a = self.attempts as int;
            assert(calls_for(a, len as int) == calls_for(a, mid as int) + calls_for(a, len - mid)
                + a) by (nonlinear_arith)
                requires
                    calls_for(a, len as int) == a * (2 * len - 1),
                    calls_for(a, mid as int) == a * (2 * mid - 1),
                    calls_for(a, len - mid) == a * (2 * (len - mid) - 1),
            ;
        }
    }

    /// Keeps the translations of the current piece and goes on to the next. Returns whether there
    /// is a next.
    fn keep(&mut self, t: Vec<(usize, String)>) -> (more: bool)
        requires
            old(self).wf(),
            t@.len() == old(self).current.1,
            in_order(t@, t@.len() as int),
        ensures
            final(self).same_plan(old(self)),
            final(self).moved_on(old(self), t@),
            more == (old(self).later@.len() > 0),
            more ==> final(self).wf() && final(self).calls_left() < old(self).calls_left(),
            !more ==> final(self).results@.len() == old(self).len,
            final(self).duration_ms == old(self).duration_ms,
            final(self).peak_rss_kib == old(self).peak_rss_kib,
    {
        let ghost base = self.results@;
        let at: usize = self.current.0;
        let n: usize = t.len();
        let mut i: usize = 0;
        while i < n
            invariant
                0 <= i <= n,
                n == t@.len(),
                at == base.len(),
                base == old(self).results@,
                at + n <= old(self).len,
                self.results@.len() == at + i,
                forall|j: int| 0 <= j < base.len() ==> #[trigger] self.results@[j] == base[j],
                forall|j: int| 0 <= j < i ==> (#[trigger] t@[j]).1 == self.results@[at + j].1,
                in_order(base, base.len() as int),
                in_order(self.results@, self.results@.len() as int),
                self.same_plan(old(self)),
                self.attempt == old(self).attempt,
                self.current == old(self).current,
                self.later@ == old(self).later@,
                self.duration_ms == old(self).duration_ms,
                self.peak_rss_kib == old(self).peak_rss_kib,
            decreases n - i,
        {
            self.results.push((at + i, t[i].1.clone()));
            i = i + 1;
        }
        let ghost left = old(self).calls_left();
        let ghost stack = self.later@;
        match self.later.pop() {
            Some(next) => {
                self.current = next;
                self.attempt = 1;
                self.feedback = None;
                proof {
                    assert(stack.drop_last() =~= self.later@);
                    stacked_bounds(self.later@, next.0 + next.1, self.len as int);
                    let a = self.attempts as int;
                    let m = old(self).current.1 as int;
                    assert(calls_for(a, m) >= a) by (nonlinear_arith)
                        requires
                            calls_for(a, m) == a * (2 * m - 1),
                            m >= 1,
                            a >= 1,
                    ;
                }
                true
            },
            None => false,
        }
    }
}

fn joined3(a: String, b: &str, c: &str) -> (r: String)
    ensures
        r@ == a@ + b@ + c@,
{
    let mut s = a;
    s.append(b);
    s.append(c);
    s
}

/// A batch of `len` cues ends after at most `attempts * (2 * len - 1)` calls: that many are left
/// at its start, a step that asks for another call leaves fewer, and none is left below one.
pub proof fn calls_left_is_positive(run: BatchRun)
    requires
        run.wf(),
    ensures
        run.calls_left() >= 1,
{
    let a = run.attempts as int;
    let m = run.current.1 as int;
    assert(calls_for(a, m) >= a) by (nonlinear_arith)
        requires
            calls_for(a, m) == a * (2 * m - 1),
            m >= 1,
            a >= 1,
    ;
    stacked_calls(a, run.later@, run.current.0 + run.current.1, run.len as int);
}

proof fn stacked_bounds(pieces: Seq<(usize, usize)>, from: int, to: int)
    requires
        stacked(pieces, from, to),
    ensures
        from <= to,
    decreases pieces.len(),
{
    if pieces.len() > 0 {
        stacked_bounds(pieces.drop_last(), from + pieces.last().1, to);
    }
}

proof fn stacked_calls(a: int, pieces: Seq<(usize, usize)>, from: int, to: int)
    requires
        a >= 1,
        stacked(pieces, from, to),
    ensures
        calls_for_all(a, pieces) >= 0,
    decreases pieces.len(),
{
    if pieces.len() > 0 {
        stacked_calls(a, pieces.drop_last(), from + pieces.last().1, to);
        let m = pieces.last().1 as int;
        assert(calls_for(a, m) >= 0) by (nonlinear_arith)
            requires
                calls_for(a, m) == a * (2 * m - 1),
                m >= 1,
                a >= 1,
        ;
    }
}

/// The cues with the translations of one batch put in from `start` on.
pub open spec fn with_translations(
    cues: Seq<Cue>,
    start: int,
    translations: Seq<(usize, String)>,
    i: int,
) -> Cue {
    if start <= i < start + translations.len() {
        Cue {
            start: cues[i].start,
            end: cues[i].end,
            source: cues[i].source,
            translation: Some(translations[i - start].1),
        }
    } else {
        cues[i]
    }
}

/// Puts the translations of a finished batch into the cues from `start` on.
pub fn apply_translations(cues: &mut Vec<Cue>, start: usize, translations: Vec<(usize, String)>)
    requires
        start + translations@.len() <= old(cues)@.len(),
        in_order(translations@, translations@.len() as int),
    ensures
        final(cues)@.len() == old(cues)@.len(),
        forall|i: int|
            0 <= i < old(cues)@.len() ==> #[trigger] final(cues)@[i] == with_translations(
                old(cues)@,
                start as int,
                translations@,
                i,
            ),
        all_translated(final(cues)@, start as int, start + translations@.len()),
{
    let n: usize = translations.len();
    let total: usize = cues.len();
    let ghost base = cues@;
    let mut k: usize = 0;
    while k < n
        invariant
            0 <= k <= n,
            total == base.len(),
            n == translations@.len(),
            base == old(cues)@,
            start + n <= base.len(),
            cues@.len() == base.len(),
            forall|i: int|
                0 <= i < base.len() ==> #[trigger] cues@[i] == with_translations(
                    base,
                    start as int,
                    translations@.take(k as int),
                    i,
                ),
        decreases n - k,
    {
        let at: usize = start + k;
        let cue = &cues[at];
        let filled = Cue {
            start: cue.start,
            end: cue.end,
            source: cue.source.clone(),
            translation: Some(translations[k].1.clone()),
        };
        cues.set(at, filled);
        k = k + 1;
        proof {
            assert forall|i: int| 0 <= i < base.len() implies #[trigger] cues@[i]
                == with_translations(base, start as int, translations@.take(k as int), i) by {
                if i != at && start <= i < start + k {
                    assert(translations@.take(k as int)[i - start] == translations@.take(
                        k - 1,
                    )[i - start]);
                }
            }
        }
    }
    proof {
        assert(translations@.take(n as int) =~= translations@);
    }
}

/// A cue as it stands in a translation prompt.
pub open spec fn item_model(index: int, cue: Cue) -> JsonModel {
    JsonModel::Object(
        seq![("i"@, JsonModel::Int(index)), ("text"@, JsonModel::Text(cue.source@))],
    )
}

/// The cues as they stand in a translation prompt.
pub open spec fn items_model(cues: Seq<Cue>) -> Seq<JsonModel> {
    Seq::new(cues.len(), |i: int| item_model(i, cues[i]))
}

/// The prompt for one batch. Feedback on the answer before it comes along where there is any.
pub open spec fn translate_prompt(
    cues: Seq<Cue>,
    source_lang: Seq<char>,
    target_lang: Seq<char>,
    feedback: Option<Seq<char>>,
) -> JsonModel {
    let rest = seq![
        ("items"@, JsonModel::List(items_model(cues))),
        ("source_lang"@, JsonModel::Text(source_lang)),
        ("target_lang"@, JsonModel::Text(target_lang)),
        ("task"@, JsonModel::Text("translate"@)),
    ];
    match feedback {
        Some(f) => JsonModel::Object(seq![("feedback"@, JsonModel::Text(f))] + rest),
        None => JsonModel::Object(rest),
    }
}

/// The prompt for the cues of one batch.
pub fn translate_payload(
    cues: &[Cue],
    source_lang: &str,
    target_lang: &str,
    feedback: &Option<String>,
) -> (r: Json)
    ensures
        r@ == translate_prompt(
            cues@,
            source_lang@,
            target_lang@,
            opt_view(*feedback),
        ),
{
    let mut items: Vec<Json> = Vec::new();
    let mut i: usize = 0;
    while i < cues.len()
        invariant
            0 <= i <= cues@.len(),
            items@.len() == i,
            forall|j: int| 0 <= j < i ==> (#[trigger] items@[j])@ == item_model(j, cues@[j]),
        decreases cues@.len() - i,
    {
        let mut entry: Vec<(String, Json)> = Vec::new();
        entry.push(("i".to_owned(), Json::Uint(i as u64)));
        entry.push(("text".to_owned(), Json::Text(cues[i].source.clone())));
        proof {
            fields_model_index(entry@);
            assert(fields_model(entry@) =~= item_model(i as int, cues@[i as int])->Object_0);
        }
        items.push(Json::Object(entry));
        i = i + 1;
    }
    proof {
        list_model_index(items@);
        assert(list_model(items@) =~= items_model(cues@));
    }
    let mut fields: Vec<(String, Json)> = Vec::new();
    match feedback {
        Some(f) => {
            fields.push(("feedback".to_owned(), Json::Text(f.clone())));
        },
        None => {},
    }
    fields.push(("items".to_owned(), Json::List(items)));
    fields.push(("source_lang".to_owned(), Json::Text(source_lang.to_owned())));
    fields.push(("target_lang".to_owned(), Json::Text(target_lang.to_owned())));
    fields.push(("task".to_owned(), Json::Text("translate".to_owned())));
    proof {
        fields_model_index(fields@);
        assert(fields_model(fields@) =~= translate_prompt(
            cues@,
            source_lang@,
            target_lang@,
            opt_view(*feedback),
        )->Object_0);
    }
    Json::Object(fields)
}

// ---------------------------------------------------------------------------------------------
// What is translated, and how often it is tried
// ---------------------------------------------------------------------------------------------

/// The batches that are left are those with a cue that has no translation, in their order.
pub proof fn left_batches_lack_a_translation(cues: Seq<Cue>, batches: Seq<(usize, usize)>, n: int)
    requires
        0 <= n <= batches.len(),
    ensures
        untranslated_batches(cues, batches, n) == batches.take(n).filter(
            |b: (usize, usize)|
                exists|i: int| b.0 <= i < b.1 && (#[trigger] cues[i]).translation is None,
        ),
    decreases n,
{
    reveal(Seq::filter);
    let p = |b: (usize, usize)|
        exists|i: int| b.0 <= i < b.1 && (#[trigger] cues[i]).translation is None;
    if n > 0 {
        left_batches_lack_a_translation(cues, batches, n - 1);
        assert(batches.take(n).drop_last() =~= batches.take(n - 1));
        let last = batches[n - 1];
        assert(batches.take(n).last() == last);
        if all_translated(cues, last.0 as int, last.1 as int) {
            assert(!p(last));
        } else {
            let i = choose|i: int| last.0 <= i < last.1 && !((#[trigger] cues[i]).translation is Some);
            assert(cues[i].translation is None);
            assert(p(last));
        }
    } else {
        assert(batches.take(n) =~= Seq::<(usize, usize)>::empty());
    }
}

/// As many batches are under way as are allowed and left, and at least one.
pub proof fn no_more_at_once_than_are_left(limit: int, pending: int)
    requires
        limit >= 1,
        pending >= 0,
    ensures
        1 <= concurrency_for(limit, pending) <= limit,
        pending >= 1 ==> concurrency_for(limit, pending) <= pending,
        concurrency_for(limit, pending) == limit || concurrency_for(limit, pending) == pending
            || pending == 0,
{
}

/// The wait before a further try is a second at first, doubles each time, and is at most thirty.
pub proof fn waits_double_up_to_thirty(attempt: int)
    requires
        attempt >= 1,
    ensures
        delay_after(1) == 1,
        delay_after(2) == 2,
        delay_after(3) == 4,
        delay_after(4) == 8,
        delay_after(5) == 16,
        attempt >= 6 ==> delay_after(attempt) == 30,
        1 <= delay_after(attempt) <= 30,
{
    reveal_with_fuel(power_of_two, 6);
    powers_grow((attempt - 1) as nat);
}

proof fn powers_grow(n: nat)
    ensures
        power_of_two(n) >= 1,
        n >= 5 ==> power_of_two(n) >= 32,
    decreases n,
{
    reveal_with_fuel(power_of_two, 6);
    if n > 5 {
        powers_grow((n - 1) as nat);
    } else if n > 0 {
        powers_grow((n - 1) as nat);
    }
}

/// A batch is called for as often as allowed, and then its halves are: in all no oftener than for
/// each cue and each cut.
pub proof fn halves_are_tried_as_often(attempts: int, n: int, half: int)
    requires
        1 <= half < n,
        attempts >= 1,
    ensures
        calls_for(attempts, 1) == attempts,
        calls_for(attempts, n) == attempts + calls_for(attempts, half) + calls_for(
            attempts,
            n - half,
        ),
{
    assert(attempts * (2 * 1 - 1) == attempts) by (nonlinear_arith);
    assert(attempts * (2 * n - 1) == attempts + attempts * (2 * half - 1) + attempts * (2 * (n
        - half) - 1)) by (nonlinear_arith);
}

/// A batch that failed too often goes on as its two halves: the first now, the second next, and
/// together they are the batch.
pub proof fn halves_make_the_whole(run: BatchRun, old: BatchRun)
    requires
        run.halved(&old),
        old.current.1 >= 2,
        old.current.0 + old.current.1 <= usize::MAX,
    ensures
        ({
            let second = run.later@.last();
            &&& run.current.0 == old.current.0
            &&& run.current.1 >= 1 && second.1 >= 1
            &&& second.0 == run.current.0 + run.current.1
            &&& second.0 + second.1 == old.current.0 + old.current.1
            &&& second.1 - run.current.1 == 0 || second.1 - run.current.1 == 1
            &&& run.later@.len() == old.later@.len() + 1
            &&& run.attempt == 1
            &&& run.results@ == old.results@
        }),
{
}

/// A translation goes to its own cue, and changes neither its times nor its text; the other cues
/// stay as they are.
pub proof fn translations_go_to_their_cues(
    cues: Seq<Cue>,
    start: int,
    translations: Seq<(usize, String)>,
    i: int,
)
    ensures
        ({
            let after = with_translations(cues, start, translations, i);
            &&& after.start == cues[i].start && after.end == cues[i].end
            &&& after.source == cues[i].source
            &&& i < start || start + translations.len() <= i ==> after.translation
                == cues[i].translation
            &&& start <= i < start + translations.len() ==> after.translation == Some(
                translations[i - start].1,
            )
        }),
{
}

/// What the model is asked: to translate these cues, from which language into which; and what was
/// wrong with its last answer, where it was.
pub proof fn models_are_asked_to_translate(
    cues: Seq<Cue>,
    source_lang: Seq<char>,
    target_lang: Seq<char>,
    feedback: Option<Seq<char>>,
    i: int,
)
    requires
        0 <= i < cues.len(),
    ensures
        ({
            let m = translate_prompt(cues, source_lang, target_lang, feedback);
            &&& member(m, "task"@) == Some(JsonModel::Text("translate"@))
            &&& member(m, "source_lang"@) == Some(JsonModel::Text(source_lang))
            &&& member(m, "target_lang"@) == Some(JsonModel::Text(target_lang))
            &&& feedback is Some ==> member(m, "feedback"@) == Some(
                JsonModel::Text(feedback->Some_0),
            )
            &&& feedback is None ==> member(m, "feedback"@) is None
            &&& member(m, "items"@) matches Some(JsonModel::List(items))
            &&& items.len() == cues.len()
            &&& member(items[i], "i"@) == Some(JsonModel::Int(i))
            &&& member(items[i], "text"@) == Some(JsonModel::Text(cues[i].source@))
        }),
{
    reveal_strlit("items");
    reveal_strlit("source_lang");
    reveal_strlit("target_lang");
    reveal_strlit("task");
    reveal_strlit("feedback");
    reveal_strlit("i");
    reveal_strlit("text");
    assert("items"@.len() == 5 && "source_lang"@.len() == 11 && "target_lang"@.len() == 11
        && "task"@.len() == 4 && "feedback"@.len() == 8 && "i"@.len() == 1 && "text"@.len() == 4);
    assert("source_lang"@[0] != "target_lang"@[0]);
    let m = translate_prompt(cues, source_lang, target_lang, feedback);
    let fields = m->Object_0;
    let d = if feedback is Some { 1int } else { 0int };
    if feedback is Some {
        assert(fields[0].0 == "feedback"@);
        member_is(fields, 0);
    } else {
        absent_members(m, "feedback"@);
    }
    assert(fields.len() == 4 + d);
    assert(fields[d].0 == "items"@ && fields[d + 1].0 == "source_lang"@ && fields[d + 2].0
        == "target_lang"@ && fields[d + 3].0 == "task"@);
    member_is(fields, d);
    member_is(fields, d + 1);
    member_is(fields, d + 2);
    member_is(fields, d + 3);
    let parts = item_model(i, cues[i])->Object_0;
    assert(parts[0].0 == "i"@ && parts[1].0 == "text"@);
    member_is(parts, 0);
    member_is(parts, 1);
}

/// A video can be cut into batches where all of it fits one prompt, if that is asked for, and else
/// where each cue alone does.
pub proof fn batches_exist_where_cues_fit(cues: Seq<Cue>, settings: TranslationSettings)
    requires
        translation_total(cues, 0, cues.len() as int) <= usize::MAX,
    ensures
        settings.batch_mode == BatchMode::WholeVideo ==> (batches_exist(cues, settings)
            <==> translation_total(cues, 0, cues.len() as int) <= settings.budget),
        settings.batch_mode == BatchMode::Adaptive && cues.len() > 0 ==> (batches_exist(
            cues,
            settings,
        ) <==> settings.batch_cues > 0 && forall|i: int|
            0 <= i < cues.len() ==> !sentence_too_large(#[trigger] cues[i], settings.budget)),
{
}

/// An answer is accepted where it has a translation for each cue, in order.
pub proof fn answers_have_all_translations(value: JsonModel, len: int, i: int)
    requires
        translates(value, len),
        0 <= i < len <= usize::MAX,
    ensures
        member(value, "translations"@) matches Some(JsonModel::List(items)) && items.len() == len
            && member(items[i], "i"@) == Some(JsonModel::Int(i)) && member(items[i], "text"@) matches Some(
            JsonModel::Text(_),
        ),
{
    let items = translation_items(value)->Some_0;
    assert(index_field(items[i], "i"@) == Some(i as usize));
    assert(is_translation(items[i]));
}

/// An answer that is used adds its translations behind those that are there, and the next piece is
/// taken up afresh.
pub proof fn used_answers_are_added(run: BatchRun, old: BatchRun, t: Seq<(usize, String)>, i: int)
    requires
        run.moved_on(&old, t),
    ensures
        run.results@.len() == old.results@.len() + t.len(),
        0 <= i < old.results@.len() ==> run.results@[i] == old.results@[i],
        0 <= i < t.len() ==> run.results@[old.results@.len() + i].1 == t[i].1,
        0 <= i < run.results@.len() ==> run.results@[i].0 == i,
        old.later@.len() > 0 ==> run.current == old.later@.last() && run.attempt == 1
            && run.feedback is None && run.later@.len() == old.later@.len() - 1,
{
    if 0 <= i < t.len() {
        assert(t[i].1 == run.results@[old.results@.len() + i].1);
    }
}

/// A further try is of the same piece, and loses nothing.
pub proof fn further_tries_are_of_the_same_piece(run: BatchRun, old: BatchRun)
    requires
        run.tries_again(&old),
    ensures
        run.current == old.current && run.later@ == old.later@,
        run.attempt == old.attempt + 1,
        run.results@ == old.results@,
{
}

} // verus!
