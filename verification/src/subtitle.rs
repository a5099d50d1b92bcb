//! Subtitle cues, the checks on cached ones, and merging and translating them.
use vstd::prelude::*;
use vstd::string::StringExecFns;

use crate::text::{
    blank, chars_of, control, decimal, decimal_of, is_blank, is_control, letter_or_number,
    same_text, trimmed,
};

verus! {

/// One subtitle line. Times are whole milliseconds from the start of the video; `INVALID_TIME`
/// stands for a time that is no finite number.
#[derive(Debug)]
pub struct Cue {
    pub start: i64,
    pub end: i64,
    pub source: String,
    pub translation: Option<String>,
}

/// Stands for a time that is no finite number.
pub const INVALID_TIME: i64 = -0x8000_0000_0000_0000;

/// Two cached times that differ by at most this many milliseconds count as equal.
pub const TIME_TOLERANCE: i64 = 1;

impl Cue {
    /// A copy of this cue.
    pub fn copied(&self) -> (r: Cue)
        ensures
            r == *self,
    {
        Cue {
            start: self.start,
            end: self.end,
            source: self.source.clone(),
            translation: match &self.translation {
                Some(t) => Some(t.clone()),
                None => None,
            },
        }
    }
}

/// Copies of the cues `from..to`.
pub fn copied_cues(cues: &[Cue], from: usize, to: usize) -> (r: Vec<Cue>)
    requires
        from <= to <= cues@.len(),
    ensures
        r@ == cues@.subrange(from as int, to as int),
{
    let mut out: Vec<Cue> = Vec::new();
    let mut i: usize = from;
    while i < to
        invariant
            from <= i <= to <= cues@.len(),
            out@ == cues@.subrange(from as int, i as int),
        decreases to - i,
    {
        out.push(cues[i].copied());
        i = i + 1;
        proof {
            assert(out@ =~= cues@.subrange(from as int, i as int));
        }
    }
    out
}

/// Why cached subtitles are not used.
#[derive(Debug, PartialEq, Eq, Structural, Clone, Copy)]
pub enum CueError {
    /// There is no cue at all.
    Empty,
    /// The cue's times are not `0 <= start < end`.
    Time(usize),
    /// The cue has no text.
    Source(usize),
    /// The cue starts before the one in front of it.
    Order(usize),
    /// The cache holds another number of cues than the source.
    Count { cached: usize, source: usize },
    /// The cached cue is not the one of the source.
    Mismatch(usize),
    /// The source has words and the translation is blank.
    BlankTranslation(usize),
    /// The translation holds a control character other than a line break.
    ControlCharacter(usize),
    /// A translation or a range names a cue that does not exist.
    Index(usize),
}

impl CueError {
    /// The message for this error.
    pub open spec fn text(self) -> Seq<char> {
        match self {
            CueError::Empty => "字幕缓存为空"@,
            CueError::Time(i) => numbered_of("字幕缓存第 "@, i, " 条时间无效"@),
            CueError::Source(i) => numbered_of("字幕缓存第 "@, i, " 条原文为空"@),
            CueError::Order(i) => numbered_of("字幕缓存第 "@, i, " 条开始时间早于前一条"@),
            CueError::Count { cached, source } => numbered_of(
                numbered_of("翻译缓存数量不匹配: "@, cached, "/"@),
                source,
                ""@,
            ),
            CueError::Mismatch(i) => numbered_of("翻译缓存第 "@, i, " 条与分句缓存不匹配"@),
            CueError::BlankTranslation(i) => numbered_of("翻译缓存第 "@, i, " 条译文为空"@),
            CueError::ControlCharacter(i) => numbered_of("翻译缓存第 "@, i, " 条含非法控制字符"@),
            CueError::Index(i) => numbered_of("字幕索引越界: "@, i, ""@),
        }
    }

    /// The message for this error.
    pub fn message(&self) -> (r: String)
        ensures
            r@ == self.text(),
    {
        match self {
            CueError::Empty => "字幕缓存为空".to_owned(),
            CueError::Time(i) => numbered("字幕缓存第 ", *i, " 条时间无效"),
            CueError::Source(i) => numbered("字幕缓存第 ", *i, " 条原文为空"),
            CueError::Order(i) => numbered("字幕缓存第 ", *i, " 条开始时间早于前一条"),
            CueError::Count { cached, source } => {
                let head = numbered("翻译缓存数量不匹配: ", *cached, "/");
                numbered(head.as_str(), *source, "")
            },
            CueError::Mismatch(i) => numbered("翻译缓存第 ", *i, " 条与分句缓存不匹配"),
            CueError::BlankTranslation(i) => numbered("翻译缓存第 ", *i, " 条译文为空"),
            CueError::ControlCharacter(i) => numbered("翻译缓存第 ", *i, " 条含非法控制字符"),
            CueError::Index(i) => numbered("字幕索引越界: ", *i, ""),
        }
    }
}

/// `head`, the number, `tail`.
pub open spec fn numbered_of(head: Seq<char>, n: usize, tail: Seq<char>) -> Seq<char> {
    head + decimal_of(n as nat) + tail
}

/// `head`, the number, `tail`.
pub fn numbered(head: &str, n: usize, tail: &str) -> (r: String)
    ensures
        r@ == numbered_of(head@, n, tail@),
        r@ == head@ + decimal_of(n as nat) + tail@,
{
    let digits = decimal(n as u64);
    let mut s = head.to_owned();
    s.append(digits.as_str());
    s.append(tail);
    s
}

/// Whether a cue's times are usable.
pub open spec fn time_ok(cue: Cue) -> bool {
    0 <= cue.start < cue.end
}

/// Whether cue `i` starts no earlier than the cue before it, but for the tolerance.
pub open spec fn order_ok(cues: Seq<Cue>, i: int) -> bool {
    i == 0 || cues[i - 1].start <= cues[i].start + TIME_TOLERANCE
}

/// Whether cue `i` passes every check on a cached cue.
pub open spec fn cached_cue_ok(cues: Seq<Cue>, i: int) -> bool {
    time_ok(cues[i]) && !is_blank(cues[i].source@) && order_ok(cues, i)
}

/// Whether cached cues are usable.
pub open spec fn cached_ok(cues: Seq<Cue>) -> bool {
    cues.len() > 0 && forall|i: int| 0 <= i < cues.len() ==> cached_cue_ok(cues, i)
}

/// Whether `i` is the first cue that fails a check on cached cues.
pub open spec fn first_bad(cues: Seq<Cue>, i: int) -> bool {
    &&& 0 <= i < cues.len()
    &&& !cached_cue_ok(cues, i)
    &&& forall|j: int| 0 <= j < i ==> cached_cue_ok(cues, j)
}

/// Whether `e` says what is wrong first with cached cues.
pub open spec fn cache_fault(cues: Seq<Cue>, e: CueError) -> bool {
    if cues.len() == 0 {
        e == CueError::Empty
    } else {
        ||| e matches CueError::Time(i) && first_bad(cues, i as int) && !time_ok(cues[i as int])
        ||| e matches CueError::Source(i) && first_bad(cues, i as int) && time_ok(cues[i as int])
            && is_blank(cues[i as int].source@)
        ||| e matches CueError::Order(i) && first_bad(cues, i as int) && time_ok(cues[i as int])
            && !is_blank(cues[i as int].source@)
    }
}

/// Checks the timeline and the text of cached cues, in order.
pub fn validate_cached_cues(cues: &[Cue]) -> (r: Result<(), CueError>)
    ensures
        r is Ok <==> cached_ok(cues@),
        r matches Err(e) ==> cache_fault(cues@, e),
{
    if cues.len() == 0 {
        return Err(CueError::Empty);
    }
    let mut i: usize = 0;
    while i < cues.len()
        invariant
            0 <= i <= cues@.len(),
            cues@.len() > 0,
            forall|j: int| 0 <= j < i ==> cached_cue_ok(cues@, j),
        decreases cues@.len() - i,
    {
        let cue = &cues[i];
        if cue.start < 0 || cue.end <= cue.start {
            assert(first_bad(cues@, i as int));
            return Err(CueError::Time(i));
        }
        if blank(cue.source.as_str()) {
            assert(first_bad(cues@, i as int));
            return Err(CueError::Source(i));
        }
        if i > 0 {
            let before: i64 = cues[i - 1].start;
            assert(cached_cue_ok(cues@, i - 1));
            if before - TIME_TOLERANCE > cue.start {
                assert(first_bad(cues@, i as int));
                return Err(CueError::Order(i));
            }
        }
        i = i + 1;
    }
    Ok(())
}

/// The cues without their translations.
pub open spec fn untranslated(cues: Seq<Cue>) -> Seq<Cue> {
    cues.map_values(|c: Cue| (Cue { start: c.start, end: c.end, source: c.source, translation: None }))
}

/// The cues of a segmentation cache, once checked: their translations are dropped.
pub fn load_segmented_cache(cues: Vec<Cue>) -> (r: Result<Vec<Cue>, CueError>)
    ensures
        r is Ok <==> cached_ok(cues@),
        r matches Ok(out) ==> out@ == untranslated(cues@),
        r matches Err(e) ==> cache_fault(cues@, e),
{
    match validate_cached_cues(cues.as_slice()) {
        Err(e) => Err(e),
        Ok(()) => {
            let mut out: Vec<Cue> = Vec::new();
            let mut i: usize = 0;
            while i < cues.len()
                invariant
                    0 <= i <= cues@.len(),
                    out@ == untranslated(cues@).take(i as int),
                decreases cues@.len() - i,
            {
                let c = &cues[i];
                out.push(
                    Cue { start: c.start, end: c.end, source: c.source.clone(), translation: None },
                );
                i = i + 1;
                proof {
                    assert(out@ =~= untranslated(cues@).take(i as int));
                }
            }
            proof {
                assert(untranslated(cues@).take(i as int) =~= untranslated(cues@));
            }
            Ok(out)
        },
    }
}

/// Whether a character of `s` is a letter or a number.
pub open spec fn has_word(s: Seq<char>) -> bool {
    exists|i: int| 0 <= i < s.len() && letter_or_number(#[trigger] s[i])
}

/// Whether `s` holds a control character other than a line break.
pub open spec fn has_control(s: Seq<char>) -> bool {
    exists|i: int| 0 <= i < s.len() && is_control(#[trigger] s[i]) && s[i] != '\n'
}

fn word_in(s: &str) -> (r: bool)
    ensures
        r == has_word(s@),
{
    let chars = chars_of(s);
    let mut i: usize = 0;
    while i < chars.len()
        invariant
            chars@ == s@,
            0 <= i <= chars@.len(),
            forall|j: int| 0 <= j < i ==> !letter_or_number(#[trigger] s@[j]),
        decreases chars@.len() - i,
    {
        if chars[i].is_alphanumeric() {
            assert(letter_or_number(s@[i as int]));
            return true;
        }
        i = i + 1;
    }
    false
}

fn control_in(s: &str) -> (r: bool)
    ensures
        r == has_control(s@),
{
    let chars = chars_of(s);
    let mut i: usize = 0;
    while i < chars.len()
        invariant
            chars@ == s@,
            0 <= i <= chars@.len(),
            forall|j: int| 0 <= j < i ==> !(is_control(#[trigger] s@[j]) && s@[j] != '\n'),
        decreases chars@.len() - i,
    {
        if control(chars[i]) && chars[i] != '\n' {
            assert(is_control(s@[i as int]));
            return true;
        }
        i = i + 1;
    }
    false
}

/// Whether two times differ by no more than the tolerance.
pub open spec fn times_close(a: int, b: int) -> bool {
    -TIME_TOLERANCE <= a - b <= TIME_TOLERANCE
}

fn close(a: i64, b: i64) -> (r: bool)
    ensures
        r == times_close(a as int, b as int),
{
    let d: i128 = a as i128 - b as i128;
    -1 <= d && d <= 1
}

/// Whether a cached cue is the cue of the source, translated or not.
pub open spec fn same_cue(cached: Cue, source: Cue) -> bool {
    &&& cached.source@ == source.source@
    &&& times_close(cached.start as int, source.start as int)
    &&& times_close(cached.end as int, source.end as int)
}

/// Whether a cached translation is blank though the source has words.
pub open spec fn blank_translation(cached: Cue) -> bool {
    cached.translation matches Some(t) && is_blank(t@) && has_word(cached.source@)
}

/// Whether a cached translation holds a forbidden control character.
pub open spec fn dirty_translation(cached: Cue) -> bool {
    cached.translation matches Some(t) && has_control(t@)
}

/// Whether a checkpointed cue may be used for a source cue.
pub open spec fn checkpoint_cue_ok(cached: Cue, source: Cue) -> bool {
    same_cue(cached, source) && !blank_translation(cached) && !dirty_translation(cached)
}

/// Whether a checkpoint may be used for the source cues.
pub open spec fn checkpoint_ok(cached: Seq<Cue>, source: Seq<Cue>) -> bool {
    &&& cached_ok(cached)
    &&& cached.len() == source.len()
    &&& forall|i: int| 0 <= i < source.len() ==> #[trigger] checkpoint_cue_ok(cached[i], source[i])
}

/// Whether `i` is the first cue of a checkpoint that may not be used.
pub open spec fn first_unusable(cached: Seq<Cue>, source: Seq<Cue>, i: int) -> bool {
    &&& 0 <= i < source.len()
    &&& !checkpoint_cue_ok(cached[i], source[i])
    &&& forall|j: int| 0 <= j < i ==> #[trigger] checkpoint_cue_ok(cached[j], source[j])
}

/// Checks a translation checkpoint against the cues that it was made for. A cue may still be
/// without a translation.
pub fn load_translation_checkpoint(cached: Vec<Cue>, source: &[Cue]) -> (r: Result<
    Vec<Cue>,
    CueError,
>)
    ensures
        r is Ok <==> checkpoint_ok(cached@, source@),
        r matches Ok(out) ==> out@ == cached@,
        r matches Err(e) ==> {
            ||| !cached_ok(cached@) && cache_fault(cached@, e)
            ||| cached_ok(cached@) && e == (CueError::Count {
                cached: cached@.len() as usize,
                source: source@.len() as usize,
            }) && cached@.len() != source@.len()
            ||| cached_ok(cached@) && cached@.len() == source@.len() && (e matches CueError::Mismatch(
                i,
            ) && first_unusable(cached@, source@, i as int) && !same_cue(
                cached@[i as int],
                source@[i as int],
            ))
            ||| cached_ok(cached@) && cached@.len() == source@.len() && (
            e matches CueError::BlankTranslation(i) && first_unusable(cached@, source@, i as int)
                && same_cue(cached@[i as int], source@[i as int]) && blank_translation(
                cached@[i as int],
            ))
            ||| cached_ok(cached@) && cached@.len() == source@.len() && (
            e matches CueError::ControlCharacter(i) && first_unusable(cached@, source@, i as int)
                && same_cue(cached@[i as int], source@[i as int]) && !blank_translation(
                cached@[i as int],
            ))
        },
{
    match validate_cached_cues(cached.as_slice()) {
        Err(e) => {
            return Err(e);
        },
        Ok(()) => {},
    }
    if cached.len() != source.len() {
        return Err(CueError::Count { cached: cached.len(), source: source.len() });
    }
    let mut i: usize = 0;
    while i < source.len()
        invariant
            cached_ok(cached@),
            0 <= i <= source@.len(),
            cached@.len() == source@.len(),
            forall|j: int| 0 <= j < i ==> #[trigger] checkpoint_cue_ok(cached@[j], source@[j]),
        decreases source@.len() - i,
    {
        let a = &cached[i];
        let b = &source[i];
        if !same_text(a.source.as_str(), b.source.as_str()) || !close(a.start, b.start) || !close(
            a.end,
            b.end,
        ) {
            assert(first_unusable(cached@, source@, i as int));
            return Err(CueError::Mismatch(i));
        }
        match &a.translation {
            Some(t) => {
                if blank(t.as_str()) && word_in(a.source.as_str()) {
                    assert(first_unusable(cached@, source@, i as int));
                    return Err(CueError::BlankTranslation(i));
                }
                if control_in(t.as_str()) {
                    assert(first_unusable(cached@, source@, i as int));
                    return Err(CueError::ControlCharacter(i));
                }
            },
            None => {},
        }
        assert(checkpoint_cue_ok(cached@[i as int], source@[i as int]));
        i = i + 1;
    }
    Ok(cached)
}

/// Whether the cues `from..to` all have a translation.
pub open spec fn all_translated(cues: Seq<Cue>, from: int, to: int) -> bool {
    forall|i: int| from <= i < to ==> (#[trigger] cues[i]).translation is Some
}

/// Whether the cues `start..end` all have a translation already.
pub fn translation_batch_checkpointed(cues: &[Cue], start: usize, end: usize) -> (r: bool)
    requires
        start <= end <= cues@.len(),
    ensures
        r == all_translated(cues@, start as int, end as int),
{
    let mut i: usize = start;
    while i < end
        invariant
            start <= i <= end <= cues@.len(),
            all_translated(cues@, start as int, i as int),
        decreases end - i,
    {
        if cues[i].translation.is_none() {
            assert(cues@[i as int].translation is None);
            return false;
        }
        i = i + 1;
    }
    true
}

/// Whether every cue has a translation.
pub fn translation_checkpoint_complete(cues: &[Cue]) -> (r: bool)
    ensures
        r == all_translated(cues@, 0, cues@.len() as int),
{
    translation_batch_checkpointed(cues, 0, cues.len())
}

// ---------------------------------------------------------------------------------------------
// What a cache may hold
// ---------------------------------------------------------------------------------------------

/// A cache is good if and only if it holds cues, each of them ends behind its start, has a text, and
/// starts no more than a millisecond before the one in front of it.
pub proof fn good_caches_hold_timed_cues(cues: Seq<Cue>)
    ensures
        cached_ok(cues) <==> cues.len() > 0 && forall|i: int|
            #![trigger cues[i]]
            0 <= i < cues.len() ==> 0 <= cues[i].start && cues[i].start < cues[i].end && trimmed(
                cues[i].source@,
            ).len() > 0 && (i > 0 ==> cues[i - 1].start <= cues[i].start + 1),
{
    if cached_ok(cues) {
        assert forall|i: int|
            #![trigger cues[i]]
            0 <= i < cues.len() implies 0 <= cues[i].start && cues[i].start < cues[i].end && trimmed(
            cues[i].source@,
        ).len() > 0 && (i > 0 ==> cues[i - 1].start <= cues[i].start + 1) by {
            assert(cached_cue_ok(cues, i));
        }
    }
    if cues.len() > 0 && forall|i: int|
        #![trigger cues[i]]
        0 <= i < cues.len() ==> 0 <= cues[i].start && cues[i].start < cues[i].end && trimmed(
            cues[i].source@,
        ).len() > 0 && (i > 0 ==> cues[i - 1].start <= cues[i].start + 1) {
        assert forall|i: int| 0 <= i < cues.len() implies cached_cue_ok(cues, i) by {
            assert(0 <= cues[i].start);
        }
    }
}

/// A kept translation can be used if and only if its cues are those of the source, up to a
/// millisecond, none is blank where the source has words, and none holds a control but a line break.
pub proof fn usable_translations_match_their_source(cached: Seq<Cue>, source: Seq<Cue>, i: int)
    requires
        checkpoint_ok(cached, source),
        0 <= i < source.len(),
    ensures
        cached.len() == source.len(),
        cached[i].source@ == source[i].source@,
        -1 <= cached[i].start - source[i].start <= 1,
        -1 <= cached[i].end - source[i].end <= 1,
        cached[i].translation is Some && trimmed(cached[i].translation->Some_0@).len() == 0
            ==> forall|j: int|
            0 <= j < source[i].source@.len() ==> !letter_or_number(#[trigger] source[i].source@[j]),
        cached[i].translation is Some ==> forall|j: int|
            0 <= j < cached[i].translation->Some_0@.len() && is_control(
                #[trigger] cached[i].translation->Some_0@[j],
            ) ==> cached[i].translation->Some_0@[j] == '\n',
{
    assert(checkpoint_cue_ok(cached[i], source[i]));
}

/// A translation that differs from its source in text, or in time by more than a millisecond, or is
/// blank where the source has a word, is not used.
pub proof fn strange_translations_are_not_used(cached: Seq<Cue>, source: Seq<Cue>, i: int)
    requires
        0 <= i < source.len(),
        cached.len() == source.len(),
        cached[i].source@ != source[i].source@ || cached[i].start - source[i].start > 1
            || source[i].start - cached[i].start > 1 || cached[i].end - source[i].end > 1
            || source[i].end - cached[i].end > 1 || (cached[i].translation is Some && trimmed(
            cached[i].translation->Some_0@,
        ).len() == 0 && exists|j: int|
            0 <= j < cached[i].source@.len() && letter_or_number(#[trigger] cached[i].source@[j])),
    ensures
        !checkpoint_ok(cached, source),
{
    assert(!checkpoint_cue_ok(cached[i], source[i]));
}

/// A cue without its translation keeps its times and its text.
pub proof fn cues_keep_all_but_the_translation(cues: Seq<Cue>, i: int)
    requires
        0 <= i < cues.len(),
    ensures
        untranslated(cues).len() == cues.len(),
        untranslated(cues)[i].start == cues[i].start,
        untranslated(cues)[i].end == cues[i].end,
        untranslated(cues)[i].source == cues[i].source,
        untranslated(cues)[i].translation is None,
{
}

/// What is wrong with a cache is told of its first bad cue.
pub proof fn first_bad_cue_is_told(cues: Seq<Cue>, e: CueError, i: int)
    requires
        cache_fault(cues, e),
        0 <= i < cues.len(),
        e == CueError::Time(i as usize) || e == CueError::Source(i as usize) || e
            == CueError::Order(i as usize),
        i <= usize::MAX,
    ensures
        !cached_cue_ok(cues, i),
        forall|j: int| 0 <= j < i ==> cached_cue_ok(cues, j),
        e is Time <==> !(0 <= cues[i].start < cues[i].end),
        e is Source <==> 0 <= cues[i].start < cues[i].end && trimmed(cues[i].source@).len() == 0,
{
}

} // verus!
