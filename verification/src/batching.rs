//! How subtitle cues are cut into windows and batches that fit the model's input limits.
use vstd::prelude::*;
use vstd::string::StringExecFns;

use crate::json::{
    fields_model, fields_model_index, json_text, member, member_is, write_json, Json, JsonModel,
};
use crate::subtitle::{numbered, Cue, INVALID_TIME};
use crate::text::{
    ascii_word, chars_of, decimal, decimal_of, digit, is_ascii_word, is_space, join, space,
    string_of,
};

verus! {

/// Tokens that every prompt needs besides its cues.
pub const PI_PROMPT_OVERHEAD_TOKENS: usize = 2_048;

/// Bytes that a segmentation prompt needs besides its cues.
pub const SEGMENT_OVERHEAD_BYTES: usize = 512;

/// The longest prompt that is passed as one process argument.
pub const PI_MAX_PROMPT_ARGUMENT_BYTES: usize = 98_304;

/// `n`, or the largest `usize` where `n` is larger.
pub open spec fn capped(n: int) -> int {
    if n <= usize::MAX {
        n
    } else {
        usize::MAX as int
    }
}

// ---------------------------------------------------------------------------------------------
// Estimates
// ---------------------------------------------------------------------------------------------

/// Whether `c` belongs to a run of characters that share tokens.
pub open spec fn in_run(c: char) -> bool {
    is_ascii_word(c) || c == '_' || c == '-' || c == '\''
}

/// Tokens of a run of `n` such characters: four characters to a token, rounded up.
pub open spec fn run_tokens(n: int) -> int {
    (n + 3) / 4
}

/// Tokens of the text up to its last closed run, and the length of the run that it ends in.
pub open spec fn scan_tokens(s: Seq<char>) -> (int, int)
    decreases s.len(),
{
    if s.len() == 0 {
        (0, 0)
    } else {
        let (tokens, run) = scan_tokens(s.drop_last());
        let c = s.last();
        if in_run(c) {
            (tokens, run + 1)
        } else {
            (tokens + run_tokens(run) + if is_space(c) {
                0int
            } else {
                1int
            }, 0)
        }
    }
}

/// The estimated number of tokens of a text: runs of ASCII word characters count one token for
/// every four characters, every other visible character counts one, and no text counts none.
pub open spec fn text_tokens(s: Seq<char>) -> int {
    let (tokens, run) = scan_tokens(s);
    let total = tokens + run_tokens(run);
    if total < 1 {
        1
    } else {
        total
    }
}

proof fn scan_bounds(s: Seq<char>)
    ensures
        0 <= scan_tokens(s).0,
        0 <= scan_tokens(s).1,
        scan_tokens(s).0 + scan_tokens(s).1 <= s.len(),
    decreases s.len(),
{
    if s.len() > 0 {
        scan_bounds(s.drop_last());
    }
}

/// A text has at least one token, and at most one per character or one in all.
pub proof fn text_tokens_bounds(s: Seq<char>)
    ensures
        1 <= text_tokens(s),
        text_tokens(s) <= s.len() || text_tokens(s) == 1,
{
    scan_bounds(s);
}

/// The estimated number of tokens of a text.
pub fn estimate_text_tokens(text: &str) -> (r: usize)
    ensures
        r == text_tokens(text@),
{
    let chars = chars_of(text);
    let n: usize = chars.len();
    let mut tokens: usize = 0;
    let mut run: usize = 0;
    let mut i: usize = 0;
    while i < n
        invariant
            chars@ == text@,
            n == chars@.len(),
            0 <= i <= n,
            (tokens as int, run as int) == scan_tokens(text@.take(i as int)),
            tokens + run <= i,
        decreases n - i,
    {
        let c = chars[i];
        proof {
            assert(text@.take(i + 1).drop_last() =~= text@.take(i as int));
            assert(text@.take(i + 1).last() == c);
        }
        if ascii_word(c) || c == '_' || c == '-' || c == '\'' {
            run = run + 1;
        } else {
            let closed: usize = run / 4 + if run % 4 > 0 {
                1
            } else {
                0
            };
            tokens = tokens + closed;
            if !space(c) {
                tokens = tokens + 1;
            }
            run = 0;
        }
        i = i + 1;
    }
    proof {
        assert(text@.take(n as int) =~= text@);
    }
    let total: usize = tokens + (run / 4 + if run % 4 > 0 {
        1
    } else {
        0
    });
    if total < 1 {
        1
    } else {
        total
    }
}

/// Tokens of a cue in a segmentation prompt.
pub open spec fn segment_tokens(cue: Cue) -> int {
    capped(text_tokens(cue.source@) + 22)
}

/// Tokens of a cue in a translation prompt: its text there and back.
pub open spec fn translation_tokens(cue: Cue) -> int {
    capped(capped(2 * text_tokens(cue.source@)) + 20)
}

/// Tokens of a cue in a segmentation prompt.
pub fn segment_cue_tokens(cue: &Cue) -> (r: usize)
    ensures
        r == segment_tokens(*cue),
{
    estimate_text_tokens(cue.source.as_str()).saturating_add(22)
}

/// Tokens of a cue in a translation prompt.
pub fn translation_cue_tokens(cue: &Cue) -> (r: usize)
    ensures
        r == translation_tokens(*cue),
{
    let source: usize = estimate_text_tokens(cue.source.as_str());
    source.saturating_add(source).saturating_add(20)
}

/// The sum of `f` over the cues `from..to`.
pub open spec fn sum_over(cues: Seq<Cue>, f: spec_fn(Cue) -> int, from: int, to: int) -> int
    decreases to - from,
{
    if to <= from {
        0
    } else {
        sum_over(cues, f, from, to - 1) + f(cues[to - 1])
    }
}

/// Tokens of a segmentation prompt with the cues `from..to`.
pub open spec fn segment_total(cues: Seq<Cue>, from: int, to: int) -> int {
    PI_PROMPT_OVERHEAD_TOKENS + sum_over(cues, |c: Cue| segment_tokens(c), from, to)
}

/// Tokens of a translation prompt with the cues `from..to`.
pub open spec fn translation_total(cues: Seq<Cue>, from: int, to: int) -> int {
    PI_PROMPT_OVERHEAD_TOKENS + sum_over(cues, |c: Cue| translation_tokens(c), from, to)
}

/// Tokens of a segmentation prompt with all of the cues.
pub fn estimate_segment_tokens(cues: &[Cue]) -> (r: usize)
    ensures
        r == capped(segment_total(cues@, 0, cues@.len() as int)),
{
    let mut total: usize = PI_PROMPT_OVERHEAD_TOKENS;
    let mut i: usize = 0;
    while i < cues.len()
        invariant
            0 <= i <= cues@.len(),
            total == capped(segment_total(cues@, 0, i as int)),
        decreases cues@.len() - i,
    {
        total = total.saturating_add(segment_cue_tokens(&cues[i]));
        i = i + 1;
    }
    total
}

/// Tokens of a translation prompt with all of the cues.
pub fn estimate_translation_tokens(cues: &[Cue]) -> (r: usize)
    ensures
        r == capped(translation_total(cues@, 0, cues@.len() as int)),
{
    let mut total: usize = PI_PROMPT_OVERHEAD_TOKENS;
    let mut i: usize = 0;
    while i < cues.len()
        invariant
            0 <= i <= cues@.len(),
            total == capped(translation_total(cues@, 0, i as int)),
        decreases cues@.len() - i,
    {
        total = total.saturating_add(translation_cue_tokens(&cues[i]));
        i = i + 1;
    }
    total
}

// ---------------------------------------------------------------------------------------------
// Times and cues as JSON
// ---------------------------------------------------------------------------------------------

/// The digits behind the decimal point of `f` thousandths, without trailing zeros.
pub open spec fn fraction_of(f: nat) -> Seq<char> {
    if f % 100 == 0 {
        decimal_of(f / 100)
    } else if f % 10 == 0 {
        decimal_of((100 + f / 10) as nat).subrange(1, 3)
    } else {
        decimal_of((1000 + f) as nat).subrange(1, 4)
    }
}

/// A count of milliseconds as decimal seconds, with at least one digit behind the point.
pub open spec fn seconds_of(ms: int) -> Seq<char> {
    if ms < 0 {
        seq!['-'] + decimal_of((-ms) as nat / 1000) + seq!['.'] + fraction_of((-ms) as nat % 1000)
    } else {
        decimal_of(ms as nat / 1000) + seq!['.'] + fraction_of(ms as nat % 1000)
    }
}

proof fn decimal_lengths(n: nat)
    ensures
        100 <= n < 1000 ==> decimal_of(n).len() == 3,
        1000 <= n < 10000 ==> decimal_of(n).len() == 4,
{
    reveal_with_fuel(decimal_of, 5);
}

fn fraction(f: u64) -> (r: String)
    requires
        f < 1000,
    ensures
        r@ == fraction_of(f as nat),
{
    if f % 100 == 0 {
        decimal(f / 100)
    } else if f % 10 == 0 {
        proof {
            decimal_lengths((100 + f / 10) as nat);
        }
        let digits = decimal(100 + f / 10);
        let chars = chars_of(digits.as_str());
        string_of(&chars, 1, 3)
    } else {
        proof {
            decimal_lengths((1000 + f) as nat);
        }
        let digits = decimal(1000 + f);
        let chars = chars_of(digits.as_str());
        string_of(&chars, 1, 4)
    }
}

/// A count of milliseconds as decimal seconds.
pub fn seconds_text(ms: i64) -> (r: String)
    ensures
        r@ == seconds_of(ms as int),
{
    let mut out = String::new();
    let magnitude: u64 = if ms < 0 {
        let low: i64 = ms + 1;
        (-low) as u64 + 1
    } else {
        ms as u64
    };
    if ms < 0 {
        out.push('-');
    }
    let whole = decimal(magnitude / 1000);
    let rest = fraction(magnitude % 1000);
    out.append(whole.as_str());
    out.push('.');
    out.append(rest.as_str());
    proof {
        assert(out@ =~= seconds_of(ms as int));
    }
    out
}

/// A time as a JSON number of seconds; a time that is no finite number has none.
pub open spec fn time_model(ms: int) -> JsonModel {
    if ms == INVALID_TIME {
        JsonModel::Null
    } else {
        JsonModel::Real(seconds_of(ms))
    }
}

/// A time as a JSON number of seconds.
pub fn time_json(ms: i64) -> (r: Json)
    ensures
        r@ == time_model(ms as int),
{
    if ms == INVALID_TIME {
        Json::Null
    } else {
        Json::Real(seconds_text(ms))
    }
}

/// A cue of a segmentation prompt: its place in the window, its times and its text.
pub open spec fn token_model(index: int, cue: Cue) -> JsonModel {
    JsonModel::Object(
        seq![
            ("end"@, time_model(cue.end as int)),
            ("i"@, JsonModel::Int(index)),
            ("start"@, time_model(cue.start as int)),
            ("text"@, JsonModel::Text(cue.source@)),
        ],
    )
}

/// A cue of a segmentation prompt.
pub fn token_json(index: usize, cue: &Cue) -> (r: Json)
    ensures
        r@ == token_model(index as int, *cue),
{
    let mut fields: Vec<(String, Json)> = Vec::new();
    fields.push(("end".to_owned(), time_json(cue.end)));
    fields.push(("i".to_owned(), Json::Uint(index as u64)));
    fields.push(("start".to_owned(), time_json(cue.start)));
    fields.push(("text".to_owned(), Json::Text(cue.source.clone())));
    proof {
        fields_model_index(fields@);
        assert(fields_model(fields@) =~= token_model(index as int, *cue)->Object_0);
    }
    Json::Object(fields)
}

/// Bytes of a text in UTF-8.
pub open spec fn byte_len(s: Seq<char>) -> int {
    vstd::utf8::encode_utf8(s).len() as int
}

/// Bytes of a cue in a segmentation prompt, with the comma behind it.
pub open spec fn cue_bytes(index: int, cue: Cue) -> int {
    capped(byte_len(json_text(token_model(index, cue))) + 1)
}

/// Bytes of a cue in a segmentation prompt, with the comma behind it.
pub fn segment_cue_argument_bytes(index: usize, cue: &Cue) -> (r: usize)
    ensures
        r == cue_bytes(index as int, *cue),
{
    let text = write_json(&token_json(index, cue));
    let bytes = text.as_str().as_bytes();
    bytes.len().saturating_add(1)
}

/// The sum of the bytes of the cues `from..to`, numbered from the cue `first` on.
pub open spec fn bytes_over(cues: Seq<Cue>, first: int, from: int, to: int) -> int
    decreases to - from,
{
    if to <= from {
        0
    } else {
        bytes_over(cues, first, from, to - 1) + cue_bytes(to - 1 - first, cues[to - 1])
    }
}

/// Bytes of a segmentation prompt with the cues `from..to`.
pub open spec fn segment_bytes(cues: Seq<Cue>, from: int, to: int) -> int {
    SEGMENT_OVERHEAD_BYTES + bytes_over(cues, from, from, to)
}

/// Bytes of a segmentation prompt with all of the cues.
pub fn estimate_segment_argument_bytes(cues: &[Cue]) -> (r: usize)
    ensures
        r == capped(segment_bytes(cues@, 0, cues@.len() as int)),
{
    let mut total: usize = SEGMENT_OVERHEAD_BYTES;
    let mut i: usize = 0;
    while i < cues.len()
        invariant
            0 <= i <= cues@.len(),
            total == capped(segment_bytes(cues@, 0, i as int)),
        decreases cues@.len() - i,
    {
        total = total.saturating_add(segment_cue_argument_bytes(i, &cues[i]));
        i = i + 1;
    }
    total
}

// ---------------------------------------------------------------------------------------------
// Windows and batches
// ---------------------------------------------------------------------------------------------

/// Why cues could not be cut, or why a model's answer does not fit them.
#[derive(Debug, PartialEq, Eq, Structural, Clone, Copy)]
pub enum BatchError {
    /// A window starts behind the last cue.
    WindowStart { start: usize, len: usize },
    /// One cue alone is over a limit.
    CueTooLarge {
        cue: usize,
        tokens: usize,
        token_budget: usize,
        bytes: usize,
        byte_budget: usize,
    },
    /// Batches of no cues were asked for.
    NoBatchCues,
    /// One cue alone is over the token limit of a translation.
    SentenceTooLarge { budget: usize, cue: usize, estimated: usize },
    /// A range does not start where the one before it ended, or leaves the window.
    RangeGap { start: usize, end: usize, expected: usize, len: usize },
    /// The ranges end before the window does.
    RangeShort { covered: usize, len: usize },
    /// There are not as many translations as cues.
    TranslationCount { got: usize, want: usize },
    /// A translation stands out of order.
    TranslationIndex { index: usize, expected: usize },
    /// No range of the window ends inside the core.
    NoBoundary,
    /// A range of the core does not start where the one before it ended.
    MergeGap { start: usize, end: usize, expected: usize },
    /// The ranges end before the core does.
    MergeShort { covered: usize, want: usize },
}

/// `head`, `a`, a slash, `b`.
pub open spec fn pair_of(head: Seq<char>, a: int, b: int) -> Seq<char> {
    head + decimal_of(a as nat) + "/"@ + decimal_of(b as nat)
}

/// `head`, `a`, a slash, `b`.
pub fn pair(head: &str, a: usize, b: usize) -> (r: String)
    ensures
        r@ == pair_of(head@, a as int, b as int),
{
    let front = numbered(head, a, "/");
    let digits = decimal(b as u64);
    join(front.as_str(), digits.as_str())
}

/// `head`, the range from `start` to `end`, and where it was expected to start.
pub open spec fn range_text_of(head: Seq<char>, start: int, end: int, expected: int) -> Seq<char> {
    head + decimal_of(start as nat) + ".."@ + decimal_of(end as nat) + ", expected="@
        + decimal_of(expected as nat)
}

fn range_text(head: &str, start: usize, end: usize, expected: usize) -> (r: String)
    ensures
        r@ == range_text_of(head@, start as int, end as int, expected as int),
{
    let a = numbered(head, start, "..");
    let b = numbered(a.as_str(), end, ", expected=");
    let digits = decimal(expected as u64);
    join(b.as_str(), digits.as_str())
}

impl BatchError {
    /// The message for this error.
    pub open spec fn text(self) -> Seq<char> {
        match self {
            BatchError::WindowStart { start, len } => pair_of(
                "分句窗口起点越界: "@,
                start as int,
                len as int,
            ),
            BatchError::CueTooLarge { cue, tokens, token_budget, bytes, byte_budget } => pair_of(
                pair_of(
                    "单条字幕已超过安全输入阈值: cue="@ + decimal_of(cue as nat)
                        + ", estimated_tokens="@,
                    tokens as int,
                    token_budget as int,
                ) + ", bytes="@,
                bytes as int,
                byte_budget as int,
            ),
            BatchError::NoBatchCues => "translation_batch_cues 必须大于 0"@,
            BatchError::SentenceTooLarge { budget, cue, estimated } => "单句翻译已超过安全 token 阈值 "@
                + decimal_of(budget as nat) + ": cue="@ + decimal_of(cue as nat) + ", estimated="@
                + decimal_of(estimated as nat),
            BatchError::RangeGap { start, end, expected, len } => range_text_of(
                "Pi 分句范围不连续或越界: "@,
                start as int,
                end as int,
                expected as int,
            ) + ", len="@ + decimal_of(len as nat),
            BatchError::RangeShort { covered, len } => pair_of(
                "Pi 分句没有覆盖完整窗口: "@,
                covered as int,
                len as int,
            ),
            BatchError::TranslationCount { got, want } => pair_of(
                "Pi 翻译数量不匹配: "@,
                got as int,
                want as int,
            ),
            BatchError::TranslationIndex { index, expected } => "Pi 翻译索引无序或缺失: index="@
                + decimal_of(index as nat) + ", expected="@ + decimal_of(expected as nat),
            BatchError::NoBoundary => "Pi 分句窗口中没有可用边界"@,
            BatchError::MergeGap { start, end, expected } => range_text_of(
                "重叠分句合并失败: "@,
                start as int,
                end as int,
                expected as int,
            ),
            BatchError::MergeShort { covered, want } => pair_of(
                "重叠分句未覆盖核心窗口: "@,
                covered as int,
                want as int,
            ),
        }
    }

    /// The message for this error.
    pub fn message(&self) -> (r: String)
        ensures
            r@ == self.text(),
    {
        match self {
            BatchError::WindowStart { start, len } => pair("分句窗口起点越界: ", *start, *len),
            BatchError::CueTooLarge { cue, tokens, token_budget, bytes, byte_budget } => {
                let a = numbered("单条字幕已超过安全输入阈值: cue=", *cue, ", estimated_tokens=");
                let b = pair(a.as_str(), *tokens, *token_budget);
                let c = join(b.as_str(), ", bytes=");
                pair(c.as_str(), *bytes, *byte_budget)
            },
            BatchError::NoBatchCues => "translation_batch_cues 必须大于 0".to_owned(),
            BatchError::SentenceTooLarge { budget, cue, estimated } => {
                let a = numbered("单句翻译已超过安全 token 阈值 ", *budget, ": cue=");
                let b = numbered(a.as_str(), *cue, ", estimated=");
                let digits = decimal(*estimated as u64);
                join(b.as_str(), digits.as_str())
            },
            BatchError::RangeGap { start, end, expected, len } => {
                let a = range_text("Pi 分句范围不连续或越界: ", *start, *end, *expected);
                let b = join(a.as_str(), ", len=");
                let digits = decimal(*len as u64);
                join(b.as_str(), digits.as_str())
            },
            BatchError::RangeShort { covered, len } => pair(
                "Pi 分句没有覆盖完整窗口: ",
                *covered,
                *len,
            ),
            BatchError::TranslationCount { got, want } => pair("Pi 翻译数量不匹配: ", *got, *want),
            BatchError::TranslationIndex { index, expected } => {
                let a = numbered("Pi 翻译索引无序或缺失: index=", *index, ", expected=");
                let digits = decimal(*expected as u64);
                join(a.as_str(), digits.as_str())
            },
            BatchError::NoBoundary => "Pi 分句窗口中没有可用边界".to_owned(),
            BatchError::MergeGap { start, end, expected } => range_text(
                "重叠分句合并失败: ",
                *start,
                *end,
                *expected,
            ),
            BatchError::MergeShort { covered, want } => pair("重叠分句未覆盖核心窗口: ", *covered, *want),
        }
    }
}

/// Whether the cues `start..=end` fit both limits of a segmentation prompt.
pub open spec fn window_fits(
    cues: Seq<Cue>,
    start: int,
    end: int,
    token_budget: usize,
    byte_budget: usize,
) -> bool {
    segment_total(cues, start, end + 1) <= token_budget && segment_bytes(cues, start, end + 1)
        <= byte_budget
}

/// The last cue of the longest window that starts at `start` and fits both limits.
pub fn max_segment_window_end(
    cues: &[Cue],
    start: usize,
    token_budget: usize,
    byte_budget: usize,
) -> (r: Result<usize, BatchError>)
    ensures
        r is Ok <==> start < cues@.len() && window_fits(
            cues@,
            start as int,
            start as int,
            token_budget,
            byte_budget,
        ),
        r matches Ok(end) ==> {
            &&& start <= end < cues@.len()
            &&& forall|e: int|
                start <= e <= end ==> #[trigger] window_fits(
                    cues@,
                    start as int,
                    e,
                    token_budget,
                    byte_budget,
                )
            &&& end + 1 < cues@.len() ==> !window_fits(
                cues@,
                start as int,
                end + 1,
                token_budget,
                byte_budget,
            )
        },
        r matches Err(e) ==> {
            &&& start >= cues@.len() ==> e == (BatchError::WindowStart {
                start,
                len: cues@.len() as usize,
            })
            &&& start < cues@.len() ==> e == (BatchError::CueTooLarge {
                cue: start,
                tokens: capped(segment_total(cues@, start as int, start + 1)) as usize,
                token_budget,
                bytes: capped(segment_bytes(cues@, start as int, start + 1)) as usize,
                byte_budget,
            })
        },
{
    if start >= cues.len() {
        return Err(BatchError::WindowStart { start, len: cues.len() });
    }
    let mut total: usize = PI_PROMPT_OVERHEAD_TOKENS;
    let mut bytes: usize = SEGMENT_OVERHEAD_BYTES;
    let mut next: usize = start;
    let mut open = true;
    while open && next < cues.len()
        invariant
            start < cues@.len(),
            start <= next <= cues@.len(),
            total == segment_total(cues@, start as int, next as int),
            bytes == segment_bytes(cues@, start as int, next as int),
            forall|e: int|
                start <= e < next ==> #[trigger] window_fits(
                    cues@,
                    start as int,
                    e,
                    token_budget,
                    byte_budget,
                ),
            !open ==> next < cues@.len() && !window_fits(
                cues@,
                start as int,
                next as int,
                token_budget,
                byte_budget,
            ),
        decreases cues@.len() - next + if open {
            1int
        } else {
            0int
        },
    {
        let item: usize = segment_cue_tokens(&cues[next]);
        let item_bytes: usize = segment_cue_argument_bytes(next - start, &cues[next]);
        let fits = match (total.checked_add(item), bytes.checked_add(item_bytes)) {
            (Some(t), Some(b)) => t <= token_budget && b <= byte_budget,
            _ => false,
        };
        if fits {
            total = total + item;
            bytes = bytes + item_bytes;
            proof {
                assert(window_fits(cues@, start as int, next as int, token_budget, byte_budget));
            }
            next = next + 1;
        } else {
            open = false;
        }
    }
    if next == start {
        let tokens: usize = PI_PROMPT_OVERHEAD_TOKENS.saturating_add(
            segment_cue_tokens(&cues[start]),
        );
        let size: usize = SEGMENT_OVERHEAD_BYTES.saturating_add(
            segment_cue_argument_bytes(0, &cues[start]),
        );
        proof {
            reveal_with_fuel(sum_over, 2);
            reveal_with_fuel(bytes_over, 2);
        }
        Err(
            BatchError::CueTooLarge { cue: start, tokens, token_budget, bytes: size, byte_budget },
        )
    } else {
        proof {
            assert(window_fits(cues@, start as int, start as int, token_budget, byte_budget));
        }
        Ok(next - 1)
    }
}

/// Whether the cues `start..end` fit the limits of a translation batch.
pub open spec fn batch_fits(
    cues: Seq<Cue>,
    start: int,
    end: int,
    budget: usize,
    max_cues: usize,
) -> bool {
    end - start <= max_cues && translation_total(cues, start, end) <= budget
}

/// Whether batches follow each other without gaps from `from` to `to`, none of them empty.
pub open spec fn contiguous(batches: Seq<(usize, usize)>, from: int, to: int) -> bool
    decreases batches.len(),
{
    if batches.len() == 0 {
        from == to
    } else {
        let last = batches.last();
        contiguous(batches.drop_last(), from, last.0 as int) && last.0 < last.1 && last.1 == to
    }
}

/// Whether every batch fits the limits and none but the last could take one cue more.
pub open spec fn greedy(
    cues: Seq<Cue>,
    batches: Seq<(usize, usize)>,
    budget: usize,
    max_cues: usize,
) -> bool {
    forall|k: int|
        0 <= k < batches.len() ==> {
            &&& #[trigger] batch_fits(
                cues,
                batches[k].0 as int,
                batches[k].1 as int,
                budget,
                max_cues,
            )
            &&& batches[k].1 < cues.len() ==> !batch_fits(
                cues,
                batches[k].0 as int,
                batches[k].1 + 1,
                budget,
                max_cues,
            )
        }
}

/// Whether a cue alone is over the token limit of a translation.
pub open spec fn sentence_too_large(cue: Cue, budget: usize) -> bool {
    PI_PROMPT_OVERHEAD_TOKENS + translation_tokens(cue) > budget
}

/// Whether `i` is the first cue that alone is over the token limit.
pub open spec fn first_too_large(cues: Seq<Cue>, budget: usize, i: int) -> bool {
    &&& 0 <= i < cues.len()
    &&& sentence_too_large(cues[i], budget)
    &&& forall|j: int| 0 <= j < i ==> !sentence_too_large(#[trigger] cues[j], budget)
}

/// Whether `e` says why the cues cannot be cut into batches.
pub open spec fn batches_fault(
    cues: Seq<Cue>,
    budget: usize,
    max_cues: usize,
    e: BatchError,
) -> bool {
    if max_cues == 0 {
        e == BatchError::NoBatchCues
    } else {
        e matches BatchError::SentenceTooLarge { budget: b, cue, estimated } && b == budget
            && first_too_large(cues, budget, cue as int) && estimated == capped(
            PI_PROMPT_OVERHEAD_TOKENS + translation_tokens(cues[cue as int]),
        )
    }
}

/// Cuts the cues into the longest batches that fit the limits, from the front.
pub fn translation_batches(cues: &[Cue], budget: usize, max_cues: usize) -> (r: Result<
    Vec<(usize, usize)>,
    BatchError,
>)
    ensures
        r is Ok <==> cues@.len() == 0 || (max_cues > 0 && forall|i: int|
            0 <= i < cues@.len() ==> !sentence_too_large(#[trigger] cues@[i], budget)),
        r matches Ok(batches) ==> {
            &&& contiguous(batches@, 0, cues@.len() as int)
            &&& greedy(cues@, batches@, budget, max_cues)
        },
        r matches Err(e) ==> batches_fault(cues@, budget, max_cues, e),
{
    let mut batches: Vec<(usize, usize)> = Vec::new();
    if cues.len() == 0 {
        return Ok(batches);
    }
    if max_cues == 0 {
        return Err(BatchError::NoBatchCues);
    }
    let mut start: usize = 0;
    let mut total: usize = PI_PROMPT_OVERHEAD_TOKENS;
    let mut index: usize = 0;
    while index < cues.len()
        invariant
            max_cues > 0,
            0 <= start <= index <= cues@.len(),
            index > 0 ==> start < index,
            contiguous(batches@, 0, start as int),
            greedy(cues@, batches@, budget, max_cues),
            forall|k: int| 0 <= k < batches@.len() ==> (#[trigger] batches@[k]).1 <= start,
            total == translation_total(cues@, start as int, index as int),
            index > 0 ==> batch_fits(cues@, start as int, index as int, budget, max_cues),
            forall|i: int| 0 <= i < index ==> !sentence_too_large(#[trigger] cues@[i], budget),
        decreases cues@.len() - index,
    {
        let item: usize = translation_cue_tokens(&cues[index]);
        let alone: usize = PI_PROMPT_OVERHEAD_TOKENS.saturating_add(item);
        let alone_fits = match PI_PROMPT_OVERHEAD_TOKENS.checked_add(item) {
            Some(t) => t <= budget,
            None => false,
        };
        if !alone_fits {
            proof {
                assert(first_too_large(cues@, budget, index as int));
            }
            return Err(BatchError::SentenceTooLarge { budget, cue: index, estimated: alone });
        }
        let joins = index - start < max_cues && match total.checked_add(item) {
            Some(t) => t <= budget,
            None => false,
        };
        if index > start && !joins {
            proof {
                assert(!batch_fits(cues@, start as int, index + 1, budget, max_cues));
            }
            let ghost before = batches@;
            batches.push((start, index));
            proof {
                assert(batches@.drop_last() =~= before);
                assert forall|k: int| 0 <= k < batches@.len() implies {
                    &&& #[trigger] batch_fits(
                        cues@,
                        batches@[k].0 as int,
                        batches@[k].1 as int,
                        budget,
                        max_cues,
                    )
                    &&& batches@[k].1 < cues@.len() ==> !batch_fits(
                        cues@,
                        batches@[k].0 as int,
                        batches@[k].1 + 1,
                        budget,
                        max_cues,
                    )
                } by {
                    if k < before.len() {
                        assert(batches@[k] == before[k]);
                        assert(batch_fits(
                            cues@,
                            before[k].0 as int,
                            before[k].1 as int,
                            budget,
                            max_cues,
                        ));
                    }
                }
            }
            start = index;
            total = PI_PROMPT_OVERHEAD_TOKENS;
        }
        total = total + item;
        proof {
            if start == index {
                reveal_with_fuel(sum_over, 2);
            }
        }
        index = index + 1;
    }
    let ghost before = batches@;
    batches.push((start, cues.len()));
    proof {
        assert(batches@.drop_last() =~= before);
        assert forall|k: int| 0 <= k < batches@.len() implies {
            &&& #[trigger] batch_fits(
                cues@,
                batches@[k].0 as int,
                batches@[k].1 as int,
                budget,
                max_cues,
            )
            &&& batches@[k].1 < cues@.len() ==> !batch_fits(
                cues@,
                batches@[k].0 as int,
                batches@[k].1 + 1,
                budget,
                max_cues,
            )
        } by {
            if k < before.len() {
                assert(batches@[k] == before[k]);
                assert(batch_fits(cues@, before[k].0 as int, before[k].1 as int, budget, max_cues));
            }
        }
    }
    Ok(batches)
}

// ---------------------------------------------------------------------------------------------
// Ranges
// ---------------------------------------------------------------------------------------------

/// Whether inclusive ranges follow each other without gaps from `from` up to, and without, `to`.
pub open spec fn covers(ranges: Seq<(usize, usize)>, from: int, to: int) -> bool
    decreases ranges.len(),
{
    if ranges.len() == 0 {
        from == to
    } else {
        let last = ranges.last();
        covers(ranges.drop_last(), from, last.0 as int) && last.0 <= last.1 && last.1 + 1 == to
    }
}

/// Each index of a covered stretch lies in exactly one of the ranges that cover it.
pub proof fn each_index_in_one_range(ranges: Seq<(usize, usize)>, from: int, to: int, i: int)
    requires
        covers(ranges, from, to),
        from <= i < to,
    ensures
        exists|k: int| 0 <= k < ranges.len() && (#[trigger] ranges[k]).0 <= i <= ranges[k].1,
        forall|k: int, l: int|
            0 <= k < ranges.len() && 0 <= l < ranges.len() && (#[trigger] ranges[k]).0 <= i
                <= ranges[k].1 && (#[trigger] ranges[l]).0 <= i <= ranges[l].1 ==> k == l,
    decreases ranges.len(),
{
    covers_bounds(ranges, from, to);
    let last = ranges.last();
    let front = ranges.drop_last();
    covers_bounds(front, from, last.0 as int);
    if i < last.0 {
        each_index_in_one_range(front, from, last.0 as int, i);
        let k = choose|k: int|
            0 <= k < front.len() && (#[trigger] front[k]).0 <= i <= front[k].1;
        assert(ranges[k] == front[k]);
        assert forall|a: int, b: int|
            0 <= a < ranges.len() && 0 <= b < ranges.len() && (#[trigger] ranges[a]).0 <= i
                <= ranges[a].1 && (#[trigger] ranges[b]).0 <= i <= ranges[b].1 implies a == b by {
            assert(a < front.len() && b < front.len());
            assert(ranges[a] == front[a] && ranges[b] == front[b]);
        }
    } else {
        assert(ranges[ranges.len() - 1] == last);
        assert forall|a: int|
            0 <= a < ranges.len() && (#[trigger] ranges[a]).0 <= i <= ranges[a].1 implies a
            == ranges.len() - 1 by {
            if a < front.len() {
                assert(ranges[a] == front[a]);
                assert(front[a].1 < last.0);
            }
        }
    }
}

/// Covering ranges lie inside the covered stretch.
pub proof fn covers_bounds(ranges: Seq<(usize, usize)>, from: int, to: int)
    requires
        covers(ranges, from, to),
    ensures
        from <= to,
        forall|k: int|
            0 <= k < ranges.len() ==> from <= (#[trigger] ranges[k]).0 <= ranges[k].1 < to,
    decreases ranges.len(),
{
    if ranges.len() > 0 {
        covers_bounds(ranges.drop_last(), from, ranges.last().0 as int);
        assert forall|k: int| 0 <= k < ranges.len() implies from <= (#[trigger] ranges[k]).0
            <= ranges[k].1 < to by {
            if k < ranges.len() - 1 {
                assert(ranges[k] == ranges.drop_last()[k]);
            }
        }
    }
}

/// What covers a stretch up to `m` and what covers it from there together cover all of it.
pub proof fn covers_append(
    a: Seq<(usize, usize)>,
    b: Seq<(usize, usize)>,
    from: int,
    m: int,
    to: int,
)
    requires
        covers(a, from, m),
        covers(b, m, to),
    ensures
        covers(a + b, from, to),
    decreases b.len(),
{
    if b.len() == 0 {
        assert(a + b =~= a);
    } else {
        covers_append(a, b.drop_last(), from, m, b.last().0 as int);
        assert((a + b).drop_last() =~= a + b.drop_last());
    }
}

/// Whether the ranges of a prefix cover the window up to `expected`.
pub open spec fn covered_prefix(ranges: Seq<(usize, usize)>, k: int, expected: int) -> bool {
    0 <= k <= ranges.len() && covers(ranges.take(k), 0, expected)
}

/// Whether range `k` is the first that does not continue at `expected` inside the window.
pub open spec fn gap_at(
    ranges: Seq<(usize, usize)>,
    len: usize,
    start: usize,
    end: usize,
    expected: usize,
    k: int,
) -> bool {
    &&& 0 <= k < ranges.len()
    &&& covered_prefix(ranges, k, expected as int)
    &&& ranges[k] == (start, end)
    &&& start != expected || end < start || end >= len
}

/// Whether a range is the first that does not continue at `expected` inside the window.
pub open spec fn has_gap(
    ranges: Seq<(usize, usize)>,
    len: usize,
    start: usize,
    end: usize,
    expected: usize,
) -> bool {
    exists|k: int| gap_at(ranges, len, start, end, expected, k)
}

/// Whether `e` says why the ranges do not cover a window of `len` cues.
pub open spec fn range_fault(ranges: Seq<(usize, usize)>, len: usize, e: BatchError) -> bool {
    match e {
        BatchError::RangeGap { start, end, expected, len: n } => n == len && has_gap(
            ranges,
            len,
            start,
            end,
            expected,
        ),
        BatchError::RangeShort { covered, len: n } => n == len && covered != len && covers(
            ranges,
            0,
            covered as int,
        ),
        _ => false,
    }
}

/// Checks that the ranges cover a window of `len` cues in order, each cue once.
pub fn validate_ranges_cover(len: usize, ranges: &[(usize, usize)]) -> (r: Result<(), BatchError>)
    ensures
        r is Ok <==> covers(ranges@, 0, len as int),
        r matches Err(e) ==> range_fault(ranges@, len, e),
{
    let mut expected: usize = 0;
    let mut k: usize = 0;
    proof {
        assert(ranges@.take(0) =~= Seq::empty());
    }
    while k < ranges.len()
        invariant
            0 <= k <= ranges@.len(),
            expected <= len,
            covered_prefix(ranges@, k as int, expected as int),
        decreases ranges@.len() - k,
    {
        let (start, end) = ranges[k];
        proof {
            assert(ranges@.take(k + 1).drop_last() =~= ranges@.take(k as int));
        }
        if start != expected || end < start || end >= len {
            proof {
                if covers(ranges@, 0, len as int) {
                    covers_prefix(ranges@, 0, len as int, k as int);
                    covers_bounds(ranges@, 0, len as int);
                    covers_unique(
                        ranges@.take(k as int),
                        0,
                        expected as int,
                        ranges@[k as int].0 as int,
                    );
                }
            }
            proof {
                assert(gap_at(ranges@, len, start, end, expected, k as int));
                assert(has_gap(ranges@, len, start, end, expected));
            }
            return Err(BatchError::RangeGap { start, end, expected, len });
        }
        expected = end + 1;
        k = k + 1;
    }
    proof {
        assert(ranges@.take(k as int) =~= ranges@);
    }
    if expected != len {
        proof {
            if covers(ranges@, 0, len as int) {
                covers_unique(ranges@, 0, expected as int, len as int);
            }
        }
        return Err(BatchError::RangeShort { covered: expected, len });
    }
    Ok(())
}

/// Ranges cover at most one stretch from a given start.
proof fn covers_unique(ranges: Seq<(usize, usize)>, from: int, a: int, b: int)
    requires
        covers(ranges, from, a),
        covers(ranges, from, b),
    ensures
        a == b,
{
}

/// A prefix of covering ranges covers up to the start of the next range.
proof fn covers_prefix(ranges: Seq<(usize, usize)>, from: int, to: int, k: int)
    requires
        covers(ranges, from, to),
        0 <= k < ranges.len(),
    ensures
        covers(ranges.take(k), from, ranges[k].0 as int),
    decreases ranges.len(),
{
    let front = ranges.drop_last();
    if k == ranges.len() - 1 {
        assert(ranges.take(k) =~= front);
    } else {
        covers_prefix(front, from, ranges.last().0 as int, k);
        assert(front.take(k) =~= ranges.take(k));
    }
}

/// Whether translation `i` stands at place `i`.
pub open spec fn in_order(translations: Seq<(usize, String)>, upto: int) -> bool {
    forall|i: int| 0 <= i < upto ==> (#[trigger] translations[i]).0 == i
}

/// Checks that there is one translation for each of `len` cues, in order.
pub fn validate_translation_indexes(len: usize, translations: &[(usize, String)]) -> (r: Result<
    (),
    BatchError,
>)
    ensures
        r is Ok <==> translations@.len() == len && in_order(translations@, len as int),
        r matches Err(e) ==> {
            &&& translations@.len() != len ==> e == (BatchError::TranslationCount {
                got: translations@.len() as usize,
                want: len,
            })
            &&& translations@.len() == len ==> (e matches BatchError::TranslationIndex {
                index,
                expected,
            } && expected < len && in_order(translations@, expected as int)
                && translations@[expected as int].0 == index && index != expected)
        },
{
    if translations.len() != len {
        return Err(BatchError::TranslationCount { got: translations.len(), want: len });
    }
    let mut i: usize = 0;
    while i < translations.len()
        invariant
            translations@.len() == len,
            0 <= i <= len,
            in_order(translations@, i as int),
        decreases len - i,
    {
        let index: usize = translations[i].0;
        if index != i {
            assert(translations@[i as int].0 != i);
            return Err(BatchError::TranslationIndex { index, expected: i });
        }
        i = i + 1;
    }
    Ok(())
}

/// Whether range `k` of a window ends inside the core.
pub open spec fn usable_boundary(
    local: Seq<(usize, usize)>,
    window_start: int,
    cursor: int,
    window_end: int,
    k: int,
) -> bool {
    0 <= k < local.len() && cursor <= window_start + local[k].1 <= window_end
}

/// The distance of two places.
pub open spec fn distance(a: int, b: int) -> int {
    if a <= b {
        b - a
    } else {
        a - b
    }
}

/// Whether a boundary at `a` is at least as good as one at `b`: nearer to the preferred one, or
/// as near and not behind it.
pub open spec fn at_least_as_good(a: int, b: int, preferred: int) -> bool {
    distance(a, preferred) < distance(b, preferred) || (distance(a, preferred) == distance(
        b,
        preferred,
    ) && (a <= preferred || b > preferred))
}

/// The end of the range that ends nearest to `preferred_end`, among those that end between
/// `cursor` and `window_end`; of two as near, the earlier.
pub fn choose_adaptive_boundary(
    local: &[(usize, usize)],
    window_start: usize,
    cursor: usize,
    preferred_end: usize,
    window_end: usize,
) -> (r: Result<usize, BatchError>)
    requires
        forall|k: int| 0 <= k < local@.len() ==> window_start + (#[trigger] local@[k]).1 <= usize::MAX,
    ensures
        r is Ok <==> exists|k: int|
            usable_boundary(local@, window_start as int, cursor as int, window_end as int, k),
        r matches Ok(end) ==> {
            &&& cursor <= end <= window_end
            &&& exists|k: int|
                #[trigger] usable_boundary(
                    local@,
                    window_start as int,
                    cursor as int,
                    window_end as int,
                    k,
                ) && end == window_start + local@[k].1
            &&& forall|k: int|
                #[trigger] usable_boundary(
                    local@,
                    window_start as int,
                    cursor as int,
                    window_end as int,
                    k,
                ) ==> at_least_as_good(
                    end as int,
                    window_start + local@[k].1,
                    preferred_end as int,
                )
        },
        r matches Err(e) ==> e == BatchError::NoBoundary,
{
    let mut best: Option<usize> = None;
    let mut k: usize = 0;
    while k < local.len()
        invariant
            0 <= k <= local@.len(),
            forall|j: int|
                0 <= j < local@.len() ==> window_start + (#[trigger] local@[j]).1 <= usize::MAX,
            best is None ==> forall|j: int|
                0 <= j < k ==> !usable_boundary(
                    local@,
                    window_start as int,
                    cursor as int,
                    window_end as int,
                    j,
                ),
            best matches Some(end) ==> {
                &&& cursor <= end <= window_end
                &&& exists|j: int|
                    #[trigger] usable_boundary(
                        local@,
                        window_start as int,
                        cursor as int,
                        window_end as int,
                        j,
                    ) && end == window_start + local@[j].1
                &&& forall|j: int|
                    0 <= j < k && #[trigger] usable_boundary(
                        local@,
                        window_start as int,
                        cursor as int,
                        window_end as int,
                        j,
                    ) ==> at_least_as_good(
                        end as int,
                        window_start + local@[j].1,
                        preferred_end as int,
                    )
            },
        decreases local@.len() - k,
    {
        let end: usize = window_start + local[k].1;
        if end >= cursor && end <= window_end {
            proof {
                assert(usable_boundary(
                    local@,
                    window_start as int,
                    cursor as int,
                    window_end as int,
                    k as int,
                ));
            }
            let better = match best {
                None => true,
                Some(old_end) => {
                    let d: usize = if end <= preferred_end {
                        preferred_end - end
                    } else {
                        end - preferred_end
                    };
                    let old_d: usize = if old_end <= preferred_end {
                        preferred_end - old_end
                    } else {
                        old_end - preferred_end
                    };
                    d < old_d || (d == old_d && end <= preferred_end && old_end > preferred_end)
                },
            };
            if better {
                best = Some(end);
            }
        }
        k = k + 1;
    }
    match best {
        Some(end) => Ok(end),
        None => Err(BatchError::NoBoundary),
    }
}

/// The larger of two places.
pub open spec fn later(a: int, b: int) -> int {
    if a >= b {
        a
    } else {
        b
    }
}

/// The smaller of two places.
pub open spec fn earlier(a: int, b: int) -> int {
    if a <= b {
        a
    } else {
        b
    }
}

/// The ranges of a window from range `k` on, cut down to the core, where they continue without
/// a gap at `expected` and reach the core's end.
pub open spec fn core_ranges(
    local: Seq<(usize, usize)>,
    window_start: int,
    core_start: int,
    core_end: int,
    k: int,
    expected: int,
) -> Result<Seq<(usize, usize)>, BatchError>
    decreases local.len() - k,
{
    let reached = if expected == core_end + 1 {
        Ok(Seq::empty())
    } else {
        Err(BatchError::MergeShort { covered: expected as usize, want: (core_end + 1) as usize })
    };
    if k >= local.len() || k < 0 {
        reached
    } else {
        let start = window_start + local[k].0;
        let end = window_start + local[k].1;
        if end < core_start {
            core_ranges(local, window_start, core_start, core_end, k + 1, expected)
        } else if start > core_end {
            reached
        } else {
            let a = later(start, core_start);
            let b = earlier(end, core_end);
            if a != expected || b < a {
                Err(
                    BatchError::MergeGap {
                        start: a as usize,
                        end: b as usize,
                        expected: expected as usize,
                    },
                )
            } else {
                match core_ranges(local, window_start, core_start, core_end, k + 1, b + 1) {
                    Ok(rest) => Ok(seq![(a as usize, b as usize)] + rest),
                    Err(e) => Err(e),
                }
            }
        }
    }
}

/// The ranges of a window from range `k` on, cut down to the core, as far as they continue without a
/// gap at `expected`.
pub open spec fn core_taken(
    local: Seq<(usize, usize)>,
    window_start: int,
    core_start: int,
    core_end: int,
    k: int,
    expected: int,
) -> Seq<(usize, usize)>
    decreases local.len() - k,
{
    if k >= local.len() || k < 0 {
        Seq::empty()
    } else {
        let start = window_start + local[k].0;
        let end = window_start + local[k].1;
        let a = later(start, core_start);
        let b = earlier(end, core_end);
        if end < core_start {
            core_taken(local, window_start, core_start, core_end, k + 1, expected)
        } else if start > core_end || a != expected || b < a {
            Seq::empty()
        } else {
            seq![(a as usize, b as usize)] + core_taken(
                local,
                window_start,
                core_start,
                core_end,
                k + 1,
                b + 1,
            )
        }
    }
}

/// Appends the ranges of a window, cut down to the core, to `output`. What was appended before an
/// error stays.
pub fn append_core_ranges(
    output: &mut Vec<(usize, usize)>,
    local: &[(usize, usize)],
    window_start: usize,
    core_start: usize,
    core_end: usize,
) -> (r: Result<(), BatchError>)
    requires
        core_end < usize::MAX,
        forall|k: int|
            0 <= k < local@.len() ==> window_start + (#[trigger] local@[k]).0 <= usize::MAX
                && window_start + local@[k].1 <= usize::MAX,
    ensures
        r matches Ok(()) ==> (core_ranges(
            local@,
            window_start as int,
            core_start as int,
            core_end as int,
            0,
            core_start as int,
        ) matches Ok(added) && final(output)@ == old(output)@ + added),
        r matches Err(e) ==> core_ranges(
            local@,
            window_start as int,
            core_start as int,
            core_end as int,
            0,
            core_start as int,
        ) == Err::<Seq<(usize, usize)>, BatchError>(e),
        final(output)@ == old(output)@ + core_taken(
            local@,
            window_start as int,
            core_start as int,
            core_end as int,
            0,
            core_start as int,
        ),
{
    let ghost base = output@;
    let ghost mut added: Seq<(usize, usize)> = Seq::empty();
    let mut expected: usize = core_start;
    let mut k: usize = 0;
    let mut open = true;
    while open && k < local.len()
        invariant
            core_end < usize::MAX,
            0 <= k <= local@.len(),
            forall|j: int|
                0 <= j < local@.len() ==> window_start + (#[trigger] local@[j]).0 <= usize::MAX
                    && window_start + local@[j].1 <= usize::MAX,
            output@ == base + added,
            base == old(output)@,
            core_ranges(
                local@,
                window_start as int,
                core_start as int,
                core_end as int,
                0,
                core_start as int,
            ) == (match core_ranges(
                local@,
                window_start as int,
                core_start as int,
                core_end as int,
                k as int,
                expected as int,
            ) {
                Ok(rest) => Ok(added + rest),
                Err(e) => Err(e),
            }),
            core_taken(
                local@,
                window_start as int,
                core_start as int,
                core_end as int,
                0,
                core_start as int,
            ) == added + core_taken(
                local@,
                window_start as int,
                core_start as int,
                core_end as int,
                k as int,
                expected as int,
            ),
            !open ==> k < local@.len() && window_start + local@[k as int].0 > core_end
                && window_start + local@[k as int].1 >= core_start,
        decreases local@.len() - k + if open {
            1int
        } else {
            0int
        },
    {
        let (s, e) = local[k];
        let global_start: usize = window_start + s;
        let global_end: usize = window_start + e;
        if global_end < core_start {
            k = k + 1;
        } else if global_start > core_end {
            open = false;
        } else {
            let a: usize = if global_start >= core_start {
                global_start
            } else {
                core_start
            };
            let b: usize = if global_end <= core_end {
                global_end
            } else {
                core_end
            };
            if a != expected || b < a {
                proof {
                    assert(added + Seq::<(usize, usize)>::empty() =~= added);
                }
                return Err(BatchError::MergeGap { start: a, end: b, expected });
            }
            output.push((a, b));
            proof {
                let taken = core_taken(
                    local@,
                    window_start as int,
                    core_start as int,
                    core_end as int,
                    k + 1,
                    b + 1,
                );
                assert((added + (seq![(a, b)] + taken)) =~= added.push((a, b)) + taken);
                let rest = core_ranges(
                    local@,
                    window_start as int,
                    core_start as int,
                    core_end as int,
                    k + 1,
                    b + 1,
                );
                if rest is Ok {
                    assert((added + (seq![(a, b)] + rest->Ok_0)) =~= added.push((a, b))
                        + rest->Ok_0);
                }
                added = added.push((a, b));
                assert(output@ =~= base + added);
            }
            expected = b + 1;
            k = k + 1;
        }
    }
    proof {
        assert(added + Seq::<(usize, usize)>::empty() =~= added);
    }
    if expected != core_end + 1 {
        return Err(BatchError::MergeShort { covered: expected, want: core_end + 1 });
    }
    Ok(())
}

/// A window whose ranges cover it gives ranges that cover any core inside it.
pub proof fn core_of_covered_window(
    local: Seq<(usize, usize)>,
    len: int,
    window_start: int,
    core_start: int,
    core_end: int,
)
    requires
        covers(local, 0, len),
        0 <= window_start <= core_start <= core_end < window_start + len <= usize::MAX,
    ensures
        core_ranges(local, window_start, core_start, core_end, 0, core_start) matches Ok(added)
            && covers(added, core_start, core_end + 1),
{
    covers_bounds(local, 0, len);
    covers_steps(local, 0, len);
    if local.len() == 0 {
    } else {
        core_walk(local, len, window_start, core_start, core_end, 0, core_start);
    }
}

/// Where the next of covering ranges starts.
spec fn step_at(ranges: Seq<(usize, usize)>, to: int, k: int) -> int {
    if k < ranges.len() {
        ranges[k].0 as int
    } else {
        to
    }
}

proof fn covers_steps(ranges: Seq<(usize, usize)>, from: int, to: int)
    requires
        covers(ranges, from, to),
    ensures
        step_at(ranges, to, 0) == from,
        forall|k: int|
            0 <= k < ranges.len() ==> (#[trigger] ranges[k]).1 + 1 == step_at(ranges, to, k + 1),
    decreases ranges.len(),
{
    if ranges.len() > 0 {
        let front = ranges.drop_last();
        let mid = ranges.last().0 as int;
        covers_steps(front, from, mid);
        assert forall|k: int| 0 <= k < ranges.len() implies (#[trigger] ranges[k]).1 + 1 == step_at(
            ranges,
            to,
            k + 1,
        ) by {
            if k < front.len() {
                assert(ranges[k] == front[k]);
                assert(step_at(front, mid, k + 1) == step_at(ranges, to, k + 1));
            }
        }
        assert(step_at(front, mid, 0) == step_at(ranges, to, 0));
    }
}

proof fn core_walk(
    local: Seq<(usize, usize)>,
    len: int,
    window_start: int,
    core_start: int,
    core_end: int,
    k: int,
    expected: int,
)
    requires
        covers(local, 0, len),
        0 <= window_start <= core_start <= core_end < window_start + len <= usize::MAX,
        0 <= k <= local.len(),
        core_start <= expected <= core_end + 1,
        expected == earlier(
            later(window_start + step_at(local, len, k), core_start),
            core_end + 1,
        ),
        forall|j: int| 0 <= j < local.len() ==> 0 <= (#[trigger] local[j]).0 <= local[j].1 < len,
        forall|j: int|
            0 <= j < local.len() ==> (#[trigger] local[j]).1 + 1 == step_at(local, len, j + 1),
    ensures
        core_ranges(local, window_start, core_start, core_end, k, expected) matches Ok(added)
            && covers(added, expected, core_end + 1),
    decreases local.len() - k,
{
    if k < local.len() {
        let start = window_start + local[k].0;
        let end = window_start + local[k].1;
        assert(step_at(local, len, k + 1) == local[k].1 + 1);
        if end < core_start {
            core_walk(local, len, window_start, core_start, core_end, k + 1, expected);
        } else if start > core_end {
        } else {
            let a = later(start, core_start);
            let b = earlier(end, core_end);
            core_walk(local, len, window_start, core_start, core_end, k + 1, b + 1);
            let rest = core_ranges(local, window_start, core_start, core_end, k + 1, b + 1)->Ok_0;
            let head = seq![(a as usize, b as usize)];
            assert(covers(head, a, b + 1)) by {
                reveal_with_fuel(covers, 2);
                assert(head.drop_last() =~= Seq::empty());
                assert(head.last() == (a as usize, b as usize));
            }
            covers_append(head, rest, a, b + 1, core_end + 1);
        }
    }
}

// ---------------------------------------------------------------------------------------------
// What the batches of a translation are
// ---------------------------------------------------------------------------------------------

proof fn contiguous_bounds(batches: Seq<(usize, usize)>, from: int, to: int)
    requires
        contiguous(batches, from, to),
    ensures
        from <= to,
        forall|k: int|
            0 <= k < batches.len() ==> from <= (#[trigger] batches[k]).0 < batches[k].1 <= to,
        batches.len() == 0 <==> from == to,
    decreases batches.len(),
{
    if batches.len() > 0 {
        contiguous_bounds(batches.drop_last(), from, batches.last().0 as int);
        assert forall|k: int| 0 <= k < batches.len() implies from <= (#[trigger] batches[k]).0
            < batches[k].1 <= to by {
            if k < batches.len() - 1 {
                assert(batches[k] == batches.drop_last()[k]);
            }
        }
    }
}

/// A larger stretch of cues needs at least as many tokens.
proof fn sum_monotone(cues: Seq<Cue>, from: int, mid: int, to: int)
    requires
        from <= mid <= to,
    ensures
        sum_over(cues, |c: Cue| translation_tokens(c), from, mid) <= sum_over(
            cues,
            |c: Cue| translation_tokens(c),
            from,
            to,
        ),
    decreases to - mid,
{
    if mid < to {
        sum_monotone(cues, from, mid, to - 1);
        text_tokens_bounds(cues[to - 1].source@);
    }
}

/// The limits leave only one way to cut the cues: two lists of greedy batches of the same cues
/// are the same.
pub proof fn batches_are_unique(
    cues: Seq<Cue>,
    a: Seq<(usize, usize)>,
    b: Seq<(usize, usize)>,
    budget: usize,
    max_cues: usize,
)
    requires
        contiguous(a, 0, cues.len() as int),
        contiguous(b, 0, cues.len() as int),
        greedy(cues, a, budget, max_cues),
        greedy(cues, b, budget, max_cues),
    ensures
        a == b,
{
    contiguous_bounds(a, 0, cues.len() as int);
    contiguous_bounds(b, 0, cues.len() as int);
    contiguous_steps(a, 0, cues.len() as int);
    contiguous_steps(b, 0, cues.len() as int);
    same_up_to(cues, a, b, budget, max_cues, a.len() as int);
    if a.len() < b.len() {
        assert(a.take(a.len() as int) =~= a);
        if a.len() > 0 {
            assert(b[a.len() - 1] == a[a.len() - 1]);
            assert(joined(b, a.len() as int));
        }
        assert(b[a.len() as int].0 < b[a.len() as int].1 <= cues.len());
    }
    assert(a =~= b);
}

/// Whether batch `k` starts where the one before it ends.
spec fn joined(batches: Seq<(usize, usize)>, k: int) -> bool {
    batches[k].0 == batches[k - 1].1
}

proof fn contiguous_steps(batches: Seq<(usize, usize)>, from: int, to: int)
    requires
        contiguous(batches, from, to),
    ensures
        batches.len() > 0 ==> batches[0].0 == from && batches[batches.len() - 1].1 == to,
        forall|k: int| 1 <= k < batches.len() ==> #[trigger] joined(batches, k),
    decreases batches.len(),
{
    if batches.len() > 0 {
        let front = batches.drop_last();
        contiguous_steps(front, from, batches.last().0 as int);
        assert forall|k: int| 1 <= k < batches.len() implies #[trigger] joined(batches, k) by {
            if k < front.len() {
                assert(joined(front, k));
                assert(batches[k] == front[k] && batches[k - 1] == front[k - 1]);
            } else {
                assert(batches[k - 1] == front[front.len() - 1]);
            }
        }
        if front.len() > 0 {
            assert(batches[0] == front[0]);
        } else {
            reveal_with_fuel(contiguous, 2);
        }
    }
}

proof fn same_up_to(
    cues: Seq<Cue>,
    a: Seq<(usize, usize)>,
    b: Seq<(usize, usize)>,
    budget: usize,
    max_cues: usize,
    n: int,
)
    requires
        0 <= n <= a.len(),
        contiguous(a, 0, cues.len() as int),
        contiguous(b, 0, cues.len() as int),
        greedy(cues, a, budget, max_cues),
        greedy(cues, b, budget, max_cues),
    ensures
        n <= b.len(),
        forall|k: int| 0 <= k < n ==> #[trigger] a[k] == b[k],
    decreases n,
{
    if n > 0 {
        contiguous_bounds(a, 0, cues.len() as int);
        contiguous_bounds(b, 0, cues.len() as int);
        contiguous_steps(a, 0, cues.len() as int);
        contiguous_steps(b, 0, cues.len() as int);
        let k = n - 1;
        same_up_to(cues, a, b, budget, max_cues, k);
        if k > 0 {
            assert(a[k - 1] == b[k - 1]);
            assert(joined(a, k));
        }
        assert(a[k].0 < a[k].1 <= cues.len());
        assert(k < b.len()) by {
            if k >= b.len() && k > 0 {
                assert(b[b.len() - 1].1 == cues.len());
                assert(a[k - 1] == b[k - 1]);
            }
        }
        assert(b[k].0 < b[k].1 <= cues.len());
        assert(a[k].0 == b[k].0) by {
            if k > 0 {
                assert(joined(b, k));
            }
        }
        assert(batch_fits(cues, a[k].0 as int, a[k].1 as int, budget, max_cues));
        assert(batch_fits(cues, b[k].0 as int, b[k].1 as int, budget, max_cues));
        if a[k].1 < b[k].1 {
            sum_monotone(cues, a[k].0 as int, a[k].1 + 1, b[k].1 as int);
        } else if b[k].1 < a[k].1 {
            sum_monotone(cues, b[k].0 as int, b[k].1 + 1, a[k].1 as int);
        }
    }
}

/// Every cue of a translation belongs to exactly one batch.
pub proof fn each_cue_in_one_batch(batches: Seq<(usize, usize)>, from: int, to: int, i: int)
    requires
        contiguous(batches, from, to),
        from <= i < to,
    ensures
        exists|k: int| 0 <= k < batches.len() && (#[trigger] batches[k]).0 <= i < batches[k].1,
        forall|k: int, l: int|
            0 <= k < batches.len() && 0 <= l < batches.len() && (#[trigger] batches[k]).0 <= i
                < batches[k].1 && (#[trigger] batches[l]).0 <= i < batches[l].1 ==> k == l,
    decreases batches.len(),
{
    contiguous_bounds(batches, from, to);
    let last = batches.last();
    let front = batches.drop_last();
    contiguous_bounds(front, from, last.0 as int);
    if i < last.0 {
        each_cue_in_one_batch(front, from, last.0 as int, i);
        let k = choose|k: int| 0 <= k < front.len() && (#[trigger] front[k]).0 <= i < front[k].1;
        assert(batches[k] == front[k]);
        assert forall|a: int, b: int|
            0 <= a < batches.len() && 0 <= b < batches.len() && (#[trigger] batches[a]).0 <= i
                < batches[a].1 && (#[trigger] batches[b]).0 <= i < batches[b].1 implies a == b by {
            assert(a < front.len() && b < front.len());
            assert(batches[a] == front[a] && batches[b] == front[b]);
        }
    } else {
        assert(batches[batches.len() - 1] == last);
        assert forall|a: int|
            0 <= a < batches.len() && (#[trigger] batches[a]).0 <= i < batches[a].1 implies a
            == batches.len() - 1 by {
            if a < front.len() {
                assert(batches[a] == front[a]);
                assert(front[a].1 <= last.0);
            }
        }
    }
}

// ---------------------------------------------------------------------------------------------
// What a cue costs, and where windows end
// ---------------------------------------------------------------------------------------------

/// A word costs a token for each four of its characters, and one for the rest.
pub proof fn words_cost_by_fours(s: Seq<char>)
    requires
        s.len() > 0,
        forall|i: int|
            0 <= i < s.len() ==> ({
                let c = #[trigger] s[i];
                ||| 'a' <= c && c <= 'z'
                ||| 'A' <= c && c <= 'Z'
                ||| '0' <= c && c <= '9'
                ||| c == '_'
                ||| c == '-'
                ||| c == '\''
            }),
    ensures
        4 * text_tokens(s) >= s.len(),
        4 * text_tokens(s) < s.len() + 4,
{
    run_is_counted(s);
}

proof fn run_is_counted(s: Seq<char>)
    requires
        forall|i: int| 0 <= i < s.len() ==> in_run(#[trigger] s[i]),
    ensures
        scan_tokens(s) == (0int, s.len() as int),
    decreases s.len(),
{
    if s.len() > 0 {
        assert(s.last() == s[s.len() - 1]);
        assert forall|i: int| 0 <= i < s.drop_last().len() implies in_run(
            #[trigger] s.drop_last()[i],
        ) by {
            assert(s.drop_last()[i] == s[i]);
        }
        run_is_counted(s.drop_last());
    }
}

/// A character that belongs to no word and is no space costs a token; a space costs none.
pub proof fn symbols_cost_one_and_spaces_none(s: Seq<char>, c: char)
    requires
        !(('a' <= c && c <= 'z') || ('A' <= c && c <= 'Z') || ('0' <= c && c <= '9') || c == '_' || c
            == '-' || c == '\''),
    ensures
        !is_space(c) ==> text_tokens(s.push(c).push(c)) == text_tokens(s.push(c)) + 1,
        !is_space(c) ==> text_tokens(s) <= text_tokens(s.push(c)) <= text_tokens(s) + 1,
        is_space(c) ==> text_tokens(s.push(c)) == text_tokens(s),
{
    tokens_are_counted(s);
    assert(s.push(c).drop_last() =~= s);
    assert(s.push(c).push(c).drop_last() =~= s.push(c));
    assert(run_tokens(0) == 0);
}

proof fn tokens_are_counted(s: Seq<char>)
    ensures
        scan_tokens(s).0 >= 0,
        scan_tokens(s).1 >= 0,
    decreases s.len(),
{
    if s.len() > 0 {
        tokens_are_counted(s.drop_last());
    }
}

/// A prompt costs its frame and what each of its cues costs: for a cut into sentences the source
/// and a bit more, for a translation twice the source and a bit more.
pub proof fn prompts_cost_their_cues(cues: Seq<Cue>, from: int, to: int)
    requires
        0 <= from <= to < cues.len(),
        text_tokens(cues[to].source@) <= 1_000_000,
    ensures
        segment_total(cues, from, from) == 2_048,
        translation_total(cues, from, from) == 2_048,
        segment_total(cues, from, to + 1) == segment_total(cues, from, to) + text_tokens(
            cues[to].source@,
        ) + 22,
        translation_total(cues, from, to + 1) == translation_total(cues, from, to) + 2
            * text_tokens(cues[to].source@) + 20,
        segment_bytes(cues, from, from) == 512,
{
}

/// A window fits where its tokens and its bytes are within their limits; a batch where its tokens
/// and its cues are.
pub proof fn limits_are_not_passed(
    cues: Seq<Cue>,
    start: int,
    end: int,
    tokens: usize,
    bytes: usize,
    max_cues: usize,
)
    ensures
        window_fits(cues, start, end, tokens, bytes) <==> segment_total(cues, start, end + 1)
            <= tokens && segment_bytes(cues, start, end + 1) <= bytes,
        batch_fits(cues, start, end, tokens, max_cues) <==> end - start <= max_cues
            && translation_total(cues, start, end) <= tokens,
        sentence_too_large(cues[start], tokens) <==> translation_total(cues, start, start + 1)
            > tokens,
{
    assert(sum_over(cues, |c: Cue| translation_tokens(c), start, start) == 0);
}

/// What the model is told of a cue: its place, its times in seconds and its text.
pub proof fn models_are_told_the_cue(index: int, cue: Cue)
    ensures
        ({
            let m = token_model(index, cue);
            &&& member(m, "i"@) == Some(JsonModel::Int(index))
            &&& member(m, "text"@) == Some(JsonModel::Text(cue.source@))
            &&& cue.start != i64::MIN ==> member(m, "start"@) == Some(
                JsonModel::Real(seconds_of(cue.start as int)),
            )
            &&& cue.end != i64::MIN ==> member(m, "end"@) == Some(
                JsonModel::Real(seconds_of(cue.end as int)),
            )
        }),
{
    reveal_strlit("end");
    reveal_strlit("i");
    reveal_strlit("start");
    reveal_strlit("text");
    let fields = token_model(index, cue)->Object_0;
    assert(fields[0].0 == "end"@ && fields[1].0 == "i"@ && fields[2].0 == "start"@ && fields[3].0
        == "text"@);
    assert("end"@.len() == 3 && "i"@.len() == 1 && "start"@.len() == 5 && "text"@.len() == 4);
    member_is(fields, 0);
    member_is(fields, 1);
    member_is(fields, 2);
    member_is(fields, 3);
}

/// Times are told in seconds, with as many decimals as are needed and at least one.
pub proof fn times_are_told_in_seconds(ms: int, f: nat)
    requires
        f < 1_000,
    ensures
        ms >= 0 ==> seconds_of(ms) == decimal_of((ms / 1_000) as nat) + seq!['.'] + fraction_of(
            (ms % 1_000) as nat,
        ),
        ms > 0 ==> seconds_of(-ms) == seq!['-'] + seconds_of(ms),
        f % 100 == 0 ==> fraction_of(f) == seq![digit(f / 100)],
        f % 100 != 0 && f % 10 == 0 ==> fraction_of(f) == seq![digit(f / 100), digit(f / 10 % 10)],
        f % 10 != 0 ==> fraction_of(f) == seq![
            digit(f / 100),
            digit(f / 10 % 10),
            digit(f % 10),
        ],
{
    if ms > 0 {
        assert(seconds_of(-ms) =~= seq!['-'] + seconds_of(ms));
    }
    if f % 100 == 0 {
        assert(f / 100 < 10);
    } else if f % 10 == 0 {
        let n = (100 + f / 10) as nat;
        reveal_with_fuel(decimal_of, 3);
        assert(n / 10 / 10 == 1);
        assert(n / 10 % 10 == f / 100) by (nonlinear_arith)
            requires
                n == 100 + f / 10,
                f < 1_000,
        ;
        assert(n % 10 == f / 10 % 10);
        assert(decimal_of(n) =~= seq![digit(1), digit(n / 10 % 10), digit(n % 10)]);
        assert(fraction_of(f) =~= seq![digit(f / 100), digit(f / 10 % 10)]);
    } else {
        let n = (1000 + f) as nat;
        reveal_with_fuel(decimal_of, 4);
        assert(n / 10 / 10 / 10 == 1);
        assert(n / 10 / 10 % 10 == f / 100);
        assert(n / 10 % 10 == f / 10 % 10);
        assert(n % 10 == f % 10);
        assert(decimal_of(n) =~= seq![
            digit(1),
            digit(n / 10 / 10 % 10),
            digit(n / 10 % 10),
            digit(n % 10),
        ]);
        assert(fraction_of(f) =~= seq![digit(f / 100), digit(f / 10 % 10), digit(f % 10)]);
    }
}

/// A window's cut is best nearest to where it is wanted; of two as near, the one that is not behind
/// it.
pub proof fn nearer_cuts_are_better(a: int, b: int, preferred: int)
    ensures
        a == preferred && b != preferred ==> at_least_as_good(a, b, preferred) && !at_least_as_good(
            b,
            a,
            preferred,
        ),
        a < b <= preferred ==> at_least_as_good(b, a, preferred) && !at_least_as_good(a, b, preferred),
        preferred <= a < b ==> at_least_as_good(a, b, preferred) && !at_least_as_good(b, a, preferred),
        a < preferred < b && preferred - a == b - preferred ==> at_least_as_good(a, b, preferred)
            && !at_least_as_good(b, a, preferred),
        a < preferred < b && preferred - a < b - preferred ==> !at_least_as_good(b, a, preferred),
        a < preferred < b && preferred - a > b - preferred ==> !at_least_as_good(a, b, preferred),
{
}

/// A cut can be used where a range of the window ends, behind what is done and inside the window.
pub proof fn cuts_lie_at_ends_of_ranges(
    local: Seq<(usize, usize)>,
    window_start: int,
    cursor: int,
    window_end: int,
    k: int,
)
    requires
        0 <= k < local.len(),
    ensures
        usable_boundary(local, window_start, cursor, window_end, k) <==> cursor <= window_start
            + local[k].1 && window_start + local[k].1 <= window_end,
{
}

/// What is taken of a window's ranges is each of them as far as it lies in the core: it starts
/// where the range or the core starts and ends where the range or the core ends.
pub proof fn cores_keep_the_cuts(
    local: Seq<(usize, usize)>,
    window_start: int,
    core_start: int,
    core_end: int,
    k: int,
    expected: int,
    i: int,
)
    requires
        0 <= k,
        0 <= window_start,
        0 <= core_start <= core_end < usize::MAX,
        core_ranges(local, window_start, core_start, core_end, k, expected) matches Ok(added) && 0
            <= i < added.len(),
    ensures
        ({
            let (a, b) = core_ranges(local, window_start, core_start, core_end, k, expected)->Ok_0[i];
            exists|j: int|
                {
                    &&& k <= j < local.len()
                    &&& a == later(window_start + (#[trigger] local[j]).0, core_start)
                    &&& b == earlier(window_start + local[j].1, core_end)
                    &&& a <= b
                }
        }),
    decreases local.len() - k,
{
    let start = window_start + local[k].0;
    let end = window_start + local[k].1;
    if end < core_start {
        cores_keep_the_cuts(local, window_start, core_start, core_end, k + 1, expected, i);
    } else {
        let a = later(start, core_start);
        let b = earlier(end, core_end);
        let rest = core_ranges(local, window_start, core_start, core_end, k + 1, b + 1)->Ok_0;
        let all = core_ranges(local, window_start, core_start, core_end, k, expected)->Ok_0;
        assert(all == seq![(a as usize, b as usize)] + rest);
        if i > 0 {
            assert(all[i] == rest[i - 1]);
            cores_keep_the_cuts(local, window_start, core_start, core_end, k + 1, b + 1, i - 1);
        } else {
            assert(all[0] == (a as usize, b as usize));
            assert(local[k].0 <= usize::MAX);
        }
    }
}

/// The later of two is not before either, the earlier not behind.
pub proof fn later_and_earlier(a: int, b: int)
    ensures
        later(a, b) >= a && later(a, b) >= b && (later(a, b) == a || later(a, b) == b),
        earlier(a, b) <= a && earlier(a, b) <= b && (earlier(a, b) == a || earlier(a, b) == b),
        distance(a, b) == distance(b, a) && (a <= b ==> distance(a, b) == b - a),
{
}

/// What cannot be counted counts as the most that can.
pub proof fn counts_stop_at_the_most(n: int)
    ensures
        n <= usize::MAX ==> capped(n) == n,
        n > usize::MAX ==> capped(n) == usize::MAX,
{
}

} // verus!
