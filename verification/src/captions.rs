//! The soft subtitles that are submitted to Bilibili.
use vstd::prelude::*;

use crate::subtitle::{Cue, INVALID_TIME};
use crate::text::{blank, chars_of, is_blank, string_of, trim, trimmed};

verus! {

/// One line of soft subtitles; times are milliseconds.
#[derive(Debug)]
pub struct CcCue {
    pub from: i64,
    pub to: i64,
    pub content: String,
}

/// The most characters of one line.
pub const CC_MAX_CHARS: usize = 100;

/// The most bytes of one line.
pub const CC_MAX_BYTES: usize = 300;

/// The times and the text of a line.
pub struct CcModel {
    pub from: int,
    pub to: int,
    pub content: Seq<char>,
}

impl CcCue {
    /// The times and the text of this line.
    pub open spec fn view(&self) -> CcModel {
        CcModel { from: self.from as int, to: self.to as int, content: self.content@ }
    }
}

/// The times and texts of lines.
pub open spec fn cc_models(v: Seq<CcCue>) -> Seq<CcModel> {
    v.map_values(|c: CcCue| c@)
}

/// The line that a cue makes: its translation, cut off at the video's end. Cues without a
/// translation, without a length or behind the end make none.
pub open spec fn cc_of(cue: Cue, max_to: Option<i64>) -> Option<CcModel> {
    let to = match max_to {
        Some(m) => if cue.end <= m {
            cue.end
        } else {
            m
        },
        None => cue.end,
    };
    match cue.translation {
        Some(t) => if is_blank(t@) || cue.start == INVALID_TIME || cue.end == INVALID_TIME || cue.end
            <= cue.start || to <= cue.start {
            None
        } else {
            Some(CcModel { from: cue.start as int, to: to as int, content: trimmed(t@) })
        },
        None => None,
    }
}

/// The lines that the cues `cues[..n]` make, in order.
pub open spec fn cc_list(cues: Seq<Cue>, max_to: Option<i64>, n: int) -> Seq<CcModel>
    decreases n,
{
    if n <= 0 || n > cues.len() {
        Seq::empty()
    } else {
        let front = cc_list(cues, max_to, n - 1);
        match cc_of(cues[n - 1], max_to) {
            Some(m) => front.push(m),
            None => front,
        }
    }
}

/// The lines that translated cues make, in order, cut off at the video's end where it is known.
pub fn cc_cues_from(cues: &[Cue], max_to: Option<i64>) -> (r: Vec<CcCue>)
    ensures
        cc_models(r@) == cc_list(cues@, max_to, cues@.len() as int),
{
    let mut out: Vec<CcCue> = Vec::new();
    let mut i: usize = 0;
    proof {
        assert(cc_models(out@) =~= Seq::empty());
    }
    while i < cues.len()
        invariant
            0 <= i <= cues@.len(),
            cc_models(out@) == cc_list(cues@, max_to, i as int),
        decreases cues@.len() - i,
    {
        let cue = &cues[i];
        let ghost before = cc_models(out@);
        let to: i64 = match max_to {
            Some(m) => if cue.end <= m {
                cue.end
            } else {
                m
            },
            None => cue.end,
        };
        match &cue.translation {
            Some(t) => {
                if !blank(t.as_str()) && cue.start != INVALID_TIME && cue.end != INVALID_TIME
                    && cue.end > cue.start && to > cue.start {
                    out.push(CcCue { from: cue.start, to, content: trim(t.as_str()) });
                    proof {
                        assert(cc_models(out@) =~= before.push(out@.last()@));
                    }
                }
            },
            None => {},
        }
        i = i + 1;
    }
    out
}

// ---------------------------------------------------------------------------------------------
// Lines that are too long
// ---------------------------------------------------------------------------------------------

/// Bytes of a character in UTF-8.
pub open spec fn char_bytes(c: char) -> int {
    if c <= '\u{7f}' {
        1
    } else if c <= '\u{7ff}' {
        2
    } else if c <= '\u{ffff}' {
        3
    } else {
        4
    }
}

/// Bytes of the characters `from..to`.
pub open spec fn bytes_between(s: Seq<char>, from: int, to: int) -> int
    decreases to - from,
{
    if to <= from {
        0
    } else {
        bytes_between(s, from, to - 1) + char_bytes(s[to - 1])
    }
}

/// Whether a line may hold the characters `from..to`.
pub open spec fn line_fits(s: Seq<char>, from: int, to: int) -> bool {
    to - from <= CC_MAX_CHARS && bytes_between(s, from, to) <= CC_MAX_BYTES
}

/// The end of the longest line from `from` on, at `to` or behind it.
pub open spec fn longest_from(s: Seq<char>, from: int, to: int) -> int
    decreases s.len() - to,
{
    if to >= s.len() || !line_fits(s, from, to + 1) {
        to
    } else {
        longest_from(s, from, to + 1)
    }
}

/// The punctuation at which a line is cut.
pub open spec fn punctuation(c: char) -> bool {
    ||| c == '，' || c == '。' || c == '！' || c == '？'
    ||| c == '；' || c == '：' || c == '、' || c == '…'
    ||| c == ',' || c == '.' || c == '!' || c == '?'
    ||| c == ';' || c == ':'
}

/// The place behind the last punctuation of the characters `from..to`, or `from`.
pub open spec fn last_break(s: Seq<char>, from: int, to: int) -> int
    decreases to - from,
{
    if to <= from {
        from
    } else if punctuation(s[to - 1]) {
        to
    } else {
        last_break(s, from, to - 1)
    }
}

/// Where the line that starts at `from` ends: at the end of the text where the rest fits one
/// line, else behind the last punctuation that fits, else where the line is full.
pub open spec fn cut_after(s: Seq<char>, from: int) -> int {
    let full = longest_from(s, from, from);
    if full >= s.len() {
        s.len() as int
    } else if last_break(s, from, full) > from {
        last_break(s, from, full)
    } else {
        full
    }
}

/// The time of character `k` of a line, in proportion to its place in the text.
pub open spec fn time_at(m: CcModel, k: int) -> int {
    m.from + ((m.to - m.from) * k) / (m.content.len() as int)
}

/// The lines that a line is cut into from character `k` on.
pub open spec fn pieces_from(m: CcModel, k: int) -> Seq<CcModel>
    decreases m.content.len() - k,
    via pieces_from_decreases
{
    let s = m.content;
    if k < 0 || k >= s.len() {
        Seq::empty()
    } else {
        let cut = cut_after(s, k);
        seq![
            CcModel { from: time_at(m, k), to: time_at(m, cut), content: s.subrange(k, cut) },
        ] + pieces_from(m, cut)
    }
}

#[via_fn]
proof fn pieces_from_decreases(m: CcModel, k: int) {
    if 0 <= k < m.content.len() {
        cut_bounds(m.content, k);
    }
}

proof fn longest_bounds(s: Seq<char>, from: int, to: int)
    requires
        0 <= from <= to <= s.len(),
        line_fits(s, from, to),
    ensures
        to <= longest_from(s, from, to) <= s.len(),
        line_fits(s, from, longest_from(s, from, to)),
        to == from && from < s.len() ==> longest_from(s, from, to) > from,
    decreases s.len() - to,
{
    if to < s.len() && line_fits(s, from, to + 1) {
        longest_bounds(s, from, to + 1);
    }
    if to == from && from < s.len() {
        reveal_with_fuel(bytes_between, 2);
        assert(line_fits(s, from, to + 1));
    }
}

proof fn break_bounds(s: Seq<char>, from: int, to: int)
    requires
        0 <= from <= to <= s.len(),
    ensures
        from <= last_break(s, from, to) <= to,
        bytes_between(s, from, last_break(s, from, to)) <= bytes_between(s, from, to),
        last_break(s, from, to) > from ==> punctuation(s[last_break(s, from, to) - 1]),
    decreases to - from,
{
    if from < to && !punctuation(s[to - 1]) {
        break_bounds(s, from, to - 1);
    }
}

proof fn cut_bounds(s: Seq<char>, k: int)
    requires
        0 <= k < s.len(),
    ensures
        k < cut_after(s, k) <= s.len(),
        line_fits(s, k, cut_after(s, k)),
        cut_after(s, k) < s.len() ==> punctuation(s[cut_after(s, k) - 1]) || cut_after(s, k)
            == longest_from(s, k, k),
{
    longest_bounds(s, k, k);
    break_bounds(s, k, longest_from(s, k, k));
}

/// The texts of lines one after the other.
pub open spec fn all_content(pieces: Seq<CcModel>) -> Seq<char>
    decreases pieces.len(),
{
    if pieces.len() == 0 {
        Seq::empty()
    } else {
        pieces[0].content + all_content(pieces.subrange(1, pieces.len() as int))
    }
}

/// Cutting a line loses nothing of its text.
pub proof fn pieces_keep_the_text(m: CcModel, k: int)
    requires
        0 <= k <= m.content.len(),
    ensures
        all_content(pieces_from(m, k)) == m.content.subrange(k, m.content.len() as int),
    decreases m.content.len() - k,
{
    let s = m.content;
    if k < s.len() {
        cut_bounds(s, k);
        let cut = cut_after(s, k);
        pieces_keep_the_text(m, cut);
        let all = pieces_from(m, k);
        assert(all.subrange(1, all.len() as int) =~= pieces_from(m, cut));
        assert(s.subrange(k, cut) + s.subrange(cut, s.len() as int) =~= s.subrange(
            k,
            s.len() as int,
        ));
    } else {
        assert(s.subrange(k, s.len() as int) =~= Seq::empty());
    }
}

/// Every line that a line is cut into keeps the limits and holds something.
pub proof fn pieces_keep_the_limits(m: CcModel, k: int, j: int)
    requires
        0 <= k <= m.content.len(),
        0 <= j < pieces_from(m, k).len(),
    ensures
        0 < pieces_from(m, k)[j].content.len() <= CC_MAX_CHARS,
        bytes_between(
            pieces_from(m, k)[j].content,
            0,
            pieces_from(m, k)[j].content.len() as int,
        ) <= CC_MAX_BYTES,
    decreases m.content.len() - k,
{
    let s = m.content;
    if k < s.len() {
        cut_bounds(s, k);
        let cut = cut_after(s, k);
        if j == 0 {
            same_bytes(s, k, cut, cut - k);
        } else {
            pieces_keep_the_limits(m, cut, j - 1);
            assert(pieces_from(m, k)[j] == pieces_from(m, cut)[j - 1]);
        }
    }
}

proof fn same_bytes(s: Seq<char>, from: int, to: int, n: int)
    requires
        0 <= from <= to <= s.len(),
        0 <= n <= to - from,
    ensures
        bytes_between(s.subrange(from, to), 0, n) == bytes_between(s, from, from + n),
    decreases n,
{
    if n > 0 {
        same_bytes(s, from, to, n - 1);
        assert(s.subrange(from, to)[n - 1] == s[from + n - 1]);
    }
}

/// The lines that a line is cut into follow each other without a gap from its start to its end.
pub proof fn pieces_keep_the_timeline(m: CcModel)
    requires
        m.content.len() > 0,
        m.from <= m.to,
    ensures
        pieces_from(m, 0).len() > 0,
        pieces_from(m, 0)[0].from == m.from,
        pieces_from(m, 0).last().to == m.to,
        forall|j: int|
            0 < j < pieces_from(m, 0).len() ==> (#[trigger] pieces_from(m, 0)[j]).from
                == pieces_from(m, 0)[j - 1].to,
{
    let n = m.content.len() as int;
    assert(((m.to - m.from) * 0) / n == 0) by (nonlinear_arith)
        requires
            n > 0,
    ;
    assert(((m.to - m.from) * n) / n == m.to - m.from) by (nonlinear_arith)
        requires
            n > 0,
    ;
    timeline_from(m, 0);
}

proof fn timeline_from(m: CcModel, k: int)
    requires
        0 <= k < m.content.len(),
    ensures
        pieces_from(m, k).len() > 0,
        pieces_from(m, k)[0].from == time_at(m, k),
        pieces_from(m, k).last().to == time_at(m, m.content.len() as int),
        forall|j: int|
            0 < j < pieces_from(m, k).len() ==> (#[trigger] pieces_from(m, k)[j]).from
                == pieces_from(m, k)[j - 1].to,
    decreases m.content.len() - k,
{
    let s = m.content;
    cut_bounds(s, k);
    let cut = cut_after(s, k);
    let all = pieces_from(m, k);
    let rest = pieces_from(m, cut);
    if cut < s.len() {
        timeline_from(m, cut);
        assert(all.last() == rest.last());
        assert forall|j: int| 0 < j < all.len() implies (#[trigger] all[j]).from == all[j
            - 1].to by {
            assert(all[j] == rest[j - 1]);
            if j > 1 {
                assert(all[j - 1] == rest[j - 2]);
            }
        }
    } else {
        assert(rest =~= Seq::empty());
    }
}

fn bytes_of(c: char) -> (r: usize)
    ensures
        r == char_bytes(c),
        1 <= r <= 4,
{
    if c <= '\u{7f}' {
        1
    } else if c <= '\u{7ff}' {
        2
    } else if c <= '\u{ffff}' {
        3
    } else {
        4
    }
}

fn breaks(c: char) -> (r: bool)
    ensures
        r == punctuation(c),
{
    c == '，' || c == '。' || c == '！' || c == '？' || c == '；' || c == '：' || c == '、' || c
        == '…' || c == ',' || c == '.' || c == '!' || c == '?' || c == ';' || c == ':'
}

fn cut_line(chars: &Vec<char>, from: usize) -> (r: usize)
    requires
        from < chars@.len(),
    ensures
        r == cut_after(chars@, from as int),
        from < r <= chars@.len(),
{
    let n: usize = chars.len();
    let mut full: usize = from;
    let mut bytes: usize = 0;
    let mut open = true;
    while open && full < n
        invariant
            from < n,
            n == chars@.len(),
            from <= full <= n,
            full - from <= CC_MAX_CHARS,
            bytes == bytes_between(chars@, from as int, full as int),
            bytes <= CC_MAX_BYTES,
            longest_from(chars@, from as int, from as int) == longest_from(
                chars@,
                from as int,
                full as int,
            ),
            !open ==> full < n && !line_fits(chars@, from as int, full + 1),
        decreases n - full + if open {
            1int
        } else {
            0int
        },
    {
        let more: usize = bytes + bytes_of(chars[full]);
        if full - from < CC_MAX_CHARS && more <= CC_MAX_BYTES {
            bytes = more;
            full = full + 1;
        } else {
            open = false;
        }
    }
    proof {
        cut_bounds(chars@, from as int);
    }
    if full >= n {
        return n;
    }
    let mut at: usize = full;
    while at > from && !breaks(chars[at - 1])
        invariant
            n == chars@.len(),
            from <= at <= full < n,
            last_break(chars@, from as int, full as int) == last_break(
                chars@,
                from as int,
                at as int,
            ),
        decreases at - from,
    {
        at = at - 1;
    }
    if at > from {
        at
    } else {
        full
    }
}

fn moment(from: i64, to: i64, k: usize, n: usize) -> (r: i64)
    requires
        from <= to,
        k <= n,
        n > 0,
    ensures
        r == from + ((to - from) * k) / (n as int),
        from <= r <= to,
{
    let span: i128 = to as i128 - from as i128;
    proof {
        assert(0 <= span * k <= span * n) by (nonlinear_arith)
            requires
                0 <= span,
                0 <= k <= n,
        ;
        assert(span * k <= 0xffff_ffff_ffff_ffff * 0xffff_ffff_ffff_ffff) by (nonlinear_arith)
            requires
                0 <= span <= 0xffff_ffff_ffff_ffff,
                0 <= k <= 0xffff_ffff_ffff_ffff,
        ;
        assert(0 <= (span * k) / (n as int) <= span) by (nonlinear_arith)
            requires
                0 <= span * k <= span * n,
                n > 0,
                0 <= span,
        ;
    }
    let share: u128 = (span as u128) * (k as u128) / (n as u128);
    (from as i128 + share as i128) as i64
}

/// The lines that a line is cut into: the line itself where it keeps the limits.
pub fn split_cc_cue(cue: &CcCue) -> (r: Vec<CcCue>)
    requires
        cue.from <= cue.to,
    ensures
        cc_models(r@) == pieces_from(cue@, 0),
{
    let chars = chars_of(cue.content.as_str());
    let n: usize = chars.len();
    let ghost m = cue@;
    let mut out: Vec<CcCue> = Vec::new();
    let mut k: usize = 0;
    proof {
        assert(cc_models(out@) + pieces_from(m, 0) =~= pieces_from(m, 0));
    }
    while k < n
        invariant
            m == cue@,
            chars@ == m.content,
            n == chars@.len(),
            cue.from <= cue.to,
            0 <= k <= n,
            cc_models(out@) + pieces_from(m, k as int) == pieces_from(m, 0),
        decreases n - k,
    {
        let cut: usize = cut_line(&chars, k);
        let ghost before = cc_models(out@);
        out.push(
            CcCue {
                from: moment(cue.from, cue.to, k, n),
                to: moment(cue.from, cue.to, cut, n),
                content: string_of(&chars, k, cut),
            },
        );
        proof {
            assert(cc_models(out@) =~= before.push(out@.last()@));
            assert(cc_models(out@) + pieces_from(m, cut as int) =~= before + pieces_from(
                m,
                k as int,
            ));
        }
        k = cut;
    }
    proof {
        assert(cc_models(out@) + pieces_from(m, k as int) =~= cc_models(out@));
    }
    out
}

/// The lines that the lines `list[..n]` are cut into, in order.
pub open spec fn all_pieces(list: Seq<CcModel>, n: int) -> Seq<CcModel>
    decreases n,
{
    if n <= 0 || n > list.len() {
        Seq::empty()
    } else {
        all_pieces(list, n - 1) + pieces_from(list[n - 1], 0)
    }
}

/// The lines that lines are cut into, in order.
pub fn split_cc_cues(list: &[CcCue]) -> (r: Vec<CcCue>)
    requires
        forall|i: int| 0 <= i < list@.len() ==> (#[trigger] list@[i]).from <= list@[i].to,
    ensures
        cc_models(r@) == all_pieces(cc_models(list@), list@.len() as int),
{
    let mut out: Vec<CcCue> = Vec::new();
    let mut i: usize = 0;
    proof {
        assert(cc_models(out@) =~= Seq::empty());
    }
    while i < list.len()
        invariant
            0 <= i <= list@.len(),
            forall|j: int| 0 <= j < list@.len() ==> (#[trigger] list@[j]).from <= list@[j].to,
            cc_models(out@) == all_pieces(cc_models(list@), i as int),
        decreases list@.len() - i,
    {
        assert(list@[i as int].from <= list@[i as int].to);
        assert(cc_models(list@)[i as int] == list@[i as int]@);
        let mut pieces = split_cc_cue(&list[i]);
        let ghost before = out@;
        let ghost added = pieces@;
        out.append(&mut pieces);
        proof {
            assert(cc_models(out@) =~= cc_models(before) + cc_models(added));
        }
        i = i + 1;
    }
    out
}

/// Lines made of cues end after they start.
pub proof fn cc_lines_have_a_length(cues: Seq<Cue>, max_to: Option<i64>, n: int)
    ensures
        forall|k: int|
            0 <= k < cc_list(cues, max_to, n).len() ==> (#[trigger] cc_list(cues, max_to, n)[k]).from
                < cc_list(cues, max_to, n)[k].to && cc_list(cues, max_to, n)[k].content.len() > 0,
    decreases n,
{
    if 0 < n <= cues.len() {
        cc_lines_have_a_length(cues, max_to, n - 1);
        let front = cc_list(cues, max_to, n - 1);
        let all = cc_list(cues, max_to, n);
        assert forall|k: int| 0 <= k < all.len() implies (#[trigger] all[k]).from < all[k].to
            && all[k].content.len() > 0 by {
            if k < front.len() {
                assert(all[k] == front[k]);
            }
        }
    }
}

// ---------------------------------------------------------------------------------------------
// What becomes of cues
// ---------------------------------------------------------------------------------------------

/// Whether a line shows a cue: from the cue's own start to its end, or to the end of the video where
/// that comes first, with the translation without the blanks around it.
pub open spec fn shows_cue(line: CcModel, cue: Cue, max_to: Option<i64>) -> bool {
    &&& line.from == cue.start
    &&& line.to <= cue.end
    &&& max_to matches Some(m) ==> line.to <= m
    &&& line.to == cue.end || (max_to matches Some(m) && line.to == m)
    &&& cue.translation matches Some(t) && line.content == trimmed(t@)
}

/// Whether a cue has a line: it has a translation that is not blank, valid times, and begins before
/// its end and that of the video.
pub open spec fn has_line(cue: Cue, max_to: Option<i64>) -> bool {
    &&& cue.translation matches Some(t) && trimmed(t@).len() > 0
    &&& cue.start != i64::MIN && cue.end != i64::MIN
    &&& cue.start < cue.end
    &&& max_to matches Some(m) ==> cue.start < m
}

/// Whether lines are those of some of the first `n` cues, in order: each line shows its cue, and every
/// cue that has a line is among them.
pub open spec fn lines_of(lines: Seq<CcModel>, cues: Seq<Cue>, max_to: Option<i64>, n: int, from: Seq<int>) -> bool {
    &&& from.len() == lines.len()
    &&& forall|k: int|
        0 <= k < from.len() ==> 0 <= (#[trigger] from[k]) < n && shows_cue(
            lines[k],
            cues[from[k]],
            max_to,
        ) && has_line(cues[from[k]], max_to)
    &&& forall|a: int, b: int|
        0 <= a < b < from.len() ==> (#[trigger] from[a]) < (#[trigger] from[b])
    &&& forall|i: int| 0 <= i < n && has_line(#[trigger] cues[i], max_to) ==> from.contains(i)
}

/// The cues that lines come from.
pub open spec fn sources(cues: Seq<Cue>, max_to: Option<i64>, n: int) -> Seq<int>
    decreases n,
{
    if n <= 0 {
        Seq::empty()
    } else if has_line(cues[n - 1], max_to) {
        sources(cues, max_to, n - 1).push(n - 1)
    } else {
        sources(cues, max_to, n - 1)
    }
}

/// Every line comes from one cue, in order, and starts exactly where that cue starts, ends where the
/// cue or the video ends, and holds its translation. No cue that has something to show is left out.
pub proof fn lines_follow_the_cues(cues: Seq<Cue>, max_to: Option<i64>, n: int)
    requires
        0 <= n <= cues.len(),
    ensures
        lines_of(cc_list(cues, max_to, n), cues, max_to, n, sources(cues, max_to, n)),
    decreases n,
{
    if n > 0 {
        lines_follow_the_cues(cues, max_to, n - 1);
        let before = sources(cues, max_to, n - 1);
        let all = sources(cues, max_to, n);
        assert forall|i: int| 0 <= i < n && has_line(#[trigger] cues[i], max_to) implies all.contains(
            i,
        ) by {
            if i < n - 1 {
                let k = choose|k: int| 0 <= k < before.len() && before[k] == i;
                assert(all[k] == i);
            } else {
                assert(all[before.len() as int] == i);
            }
        }
    }
}

/// Cues that do not overlap give lines that do not overlap.
pub proof fn lines_do_not_overlap(cues: Seq<Cue>, max_to: Option<i64>, a: int, b: int)
    requires
        forall|i: int, j: int|
            0 <= i < j < cues.len() ==> (#[trigger] cues[i]).end <= (#[trigger] cues[j]).start,
        0 <= a < b < cc_list(cues, max_to, cues.len() as int).len(),
    ensures
        ({
            let lines = cc_list(cues, max_to, cues.len() as int);
            lines[a].to <= lines[b].from && lines[a].from < lines[a].to
        }),
{
    let n = cues.len() as int;
    lines_follow_the_cues(cues, max_to, n);
    let from = sources(cues, max_to, n);
    assert(from[a] < from[b]);
    assert(cues[from[a]].end <= cues[from[b]].start);
}

/// Each piece of a line has at most 100 characters and 300 bytes, one byte to a character of ASCII
/// and three to one of Chinese.
pub proof fn pieces_fit_the_platform(m: CcModel, j: int)
    requires
        0 <= j < pieces_from(m, 0).len(),
    ensures
        0 < pieces_from(m, 0)[j].content.len() <= 100,
        bytes_between(
            pieces_from(m, 0)[j].content,
            0,
            pieces_from(m, 0)[j].content.len() as int,
        ) <= 300,
        forall|c: char| c <= '\u{7f}' ==> #[trigger] char_bytes(c) == 1,
        forall|c: char| '\u{7f}' < c && c <= '\u{7ff}' ==> #[trigger] char_bytes(c) == 2,
        forall|c: char| '\u{7ff}' < c && c <= '\u{ffff}' ==> #[trigger] char_bytes(c) == 3,
        forall|c: char| '\u{ffff}' < c ==> #[trigger] char_bytes(c) == 4,
        forall|s: Seq<char>, c: char|
            #![trigger bytes_between(s.push(c), 0, s.len() as int + 1)]
            bytes_between(s.push(c), 0, s.len() as int + 1) == bytes_between(s.push(c), 0, s.len() as int)
                + char_bytes(c),
{
    pieces_keep_the_limits(m, 0, j);
}

/// A line that fits is one piece: the line itself.
pub proof fn short_lines_stay_whole(m: CcModel)
    requires
        0 < m.content.len() <= 100,
        bytes_between(m.content, 0, m.content.len() as int) <= 300,
    ensures
        pieces_from(m, 0) == seq![m],
{
    whole_fits(m.content, 0);
    reveal_with_fuel(pieces_from, 2);
    assert(cut_after(m.content, 0) == m.content.len());
    assert(m.content.subrange(0, m.content.len() as int) =~= m.content);
    let d = m.to - m.from;
    let n = m.content.len() as int;
    assert(time_at(m, n) == m.to) by {
        assert((d * n) / n == d) by (nonlinear_arith)
            requires
                n > 0,
        ;
    }
    assert(time_at(m, 0) == m.from) by {
        assert((d * 0) / n == 0) by (nonlinear_arith)
            requires
                n > 0,
        ;
    }
    assert(pieces_from(m, n) =~= Seq::empty());
    assert(pieces_from(m, 0) =~= seq![m]);
}

proof fn fewer_bytes(s: Seq<char>, to: int)
    requires
        0 <= to <= s.len(),
    ensures
        bytes_between(s, 0, to) <= bytes_between(s, 0, s.len() as int),
    decreases s.len() - to,
{
    if to < s.len() {
        fewer_bytes(s, to + 1);
    }
}

proof fn whole_fits(s: Seq<char>, to: int)
    requires
        0 <= to <= s.len() <= 100,
        bytes_between(s, 0, s.len() as int) <= 300,
    ensures
        longest_from(s, 0, to) == s.len(),
    decreases s.len() - to,
{
    if to < s.len() {
        fewer_bytes(s, to + 1);
        whole_fits(s, to + 1);
    }
}

/// A piece that is not the last ends with punctuation, or holds none: a sentence is cut inside only
/// where there is no other place.
pub proof fn pieces_end_at_punctuation(m: CcModel, k: int, j: int)
    requires
        0 <= k <= m.content.len(),
        0 <= j < pieces_from(m, k).len() - 1,
    ensures
        ({
            let c = pieces_from(m, k)[j].content;
            c.len() > 0 && (punctuation(c.last()) || forall|i: int|
                0 <= i < c.len() ==> !punctuation(#[trigger] c[i]))
        }),
        punctuation('，') && punctuation('。') && punctuation('！') && punctuation('？'),
    decreases m.content.len() - k,
{
    let s = m.content;
    let cut = cut_after(s, k);
    cut_bounds(s, k);
    assert(pieces_from(m, k)[0].content == s.subrange(k, cut));
    if j > 0 {
        assert(pieces_from(m, k)[j] == pieces_from(m, cut)[j - 1]);
        cut_bounds(s, k);
        pieces_end_at_punctuation(m, cut, j - 1);
    } else {
        cut_bounds(s, k);
        longest_bounds(s, k, k);
        let full = longest_from(s, k, k);
        if full >= s.len() {
            assert(pieces_from(m, cut).len() == 0);
        } else {
            last_break_means(s, k, full);
            let c = s.subrange(k, cut);
            if last_break(s, k, full) > k {
                assert(c.last() == s[cut - 1]);
            } else {
                assert forall|i: int| 0 <= i < c.len() implies !punctuation(#[trigger] c[i]) by {
                    assert(c[i] == s[k + i]);
                }
            }
        }
    }
}

proof fn last_break_means(s: Seq<char>, from: int, to: int)
    requires
        0 <= from <= to <= s.len(),
    ensures
        from <= last_break(s, from, to) <= to,
        last_break(s, from, to) > from ==> punctuation(s[last_break(s, from, to) - 1]),
        last_break(s, from, to) == from ==> forall|i: int|
            from <= i < to ==> !punctuation(#[trigger] s[i]),
    decreases to - from,
{
    if to > from && !punctuation(s[to - 1]) {
        last_break_means(s, from, to - 1);
    }
}

/// Lines are cut one by one, and their pieces keep their order.
pub proof fn lines_are_cut_one_by_one(list: Seq<CcModel>, n: int)
    requires
        0 <= n < list.len(),
    ensures
        all_pieces(list, 0).len() == 0,
        all_pieces(list, n + 1) == all_pieces(list, n) + pieces_from(list[n], 0),
        all_pieces(list, n + 1).len() == all_pieces(list, n).len() + pieces_from(list[n], 0).len(),
{
}

/// Each piece takes as much as it can: no later punctuation would still fit, nor, where there is
/// none, one character more.
pub proof fn pieces_take_what_fits(s: Seq<char>, k: int, i: int)
    requires
        0 <= k < i <= s.len(),
        i - k <= 100,
        bytes_between(s, k, i) <= 300,
    ensures
        i == s.len() ==> cut_after(s, k) == s.len(),
        punctuation(s[i - 1]) ==> i <= cut_after(s, k),
        (forall|j: int| k <= j < i ==> !punctuation(#[trigger] s[j])) && (forall|j: int|
            k <= j < s.len() ==> !punctuation(#[trigger] s[j])) ==> i <= cut_after(s, k),
{
    reaches_at_least(s, k, k, i);
    let full = longest_from(s, k, k);
    longest_bounds(s, k, k);
    if full < s.len() {
        no_later_break(s, k, full, i);
        last_break_means(s, k, full);
        if last_break(s, k, full) > k {
            assert(punctuation(s[last_break(s, k, full) - 1]));
        }
    }
}

proof fn reaches_at_least(s: Seq<char>, from: int, to: int, i: int)
    requires
        0 <= from <= to <= i <= s.len(),
        i - from <= 100,
        bytes_between(s, from, i) <= 300,
    ensures
        longest_from(s, from, to) >= i,
    decreases i - to,
{
    if to < i {
        bytes_only_grow(s, from, to + 1, i);
        reaches_at_least(s, from, to + 1, i);
    } else {
        stays_behind(s, from, to);
    }
}

proof fn stays_behind(s: Seq<char>, from: int, to: int)
    requires
        0 <= from <= to <= s.len(),
    ensures
        longest_from(s, from, to) >= to,
    decreases s.len() - to,
{
    if to < s.len() && line_fits(s, from, to + 1) {
        stays_behind(s, from, to + 1);
    }
}

proof fn bytes_only_grow(s: Seq<char>, from: int, a: int, b: int)
    requires
        from <= a <= b,
    ensures
        bytes_between(s, from, a) <= bytes_between(s, from, b),
    decreases b - a,
{
    if a < b {
        bytes_only_grow(s, from, a, b - 1);
    }
}

proof fn no_later_break(s: Seq<char>, from: int, to: int, i: int)
    requires
        0 <= from < i <= to <= s.len(),
    ensures
        punctuation(s[i - 1]) ==> last_break(s, from, to) >= i,
    decreases to - from,
{
    if i < to && !punctuation(s[to - 1]) {
        no_later_break(s, from, to - 1, i);
    }
}

/// A line is cut behind the punctuation of either script and behind nothing else.
pub proof fn lines_are_cut_behind_punctuation(c: char)
    ensures
        punctuation(c) <==> c == '，' || c == '。' || c == '！' || c == '？' || c == '；' || c == '：'
            || c == '、' || c == '…' || c == ',' || c == '.' || c == '!' || c == '?' || c == ';' || c
            == ':',
{
}

/// A piece starts at the time of its first character, in proportion to that character's place in the
/// line.
pub proof fn pieces_share_the_time(m: CcModel, k: int)
    requires
        0 <= k < m.content.len(),
        m.from <= m.to,
    ensures
        pieces_from(m, k).len() > 0,
        ({
            let n = m.content.len() as int;
            let piece = pieces_from(m, k)[0];
            let at = piece.from - m.from;
            let end = piece.to - m.from;
            let last = k + piece.content.len();
            &&& piece.content == m.content.subrange(k, last)
            &&& at * n <= (m.to - m.from) * k && (m.to - m.from) * k < (at + 1) * n
            &&& end * n <= (m.to - m.from) * last && (m.to - m.from) * last < (end + 1) * n
        }),
{
    let n = m.content.len() as int;
    let cut = cut_after(m.content, k);
    cut_bounds(m.content, k);
    in_proportion((m.to - m.from) * k, n);
    in_proportion((m.to - m.from) * cut, n);
}

proof fn in_proportion(x: int, n: int)
    requires
        n > 0,
    ensures
        (x / n) * n <= x,
        x < (x / n + 1) * n,
{
    vstd::arithmetic::div_mod::lemma_fundamental_div_mod(x, n);
    vstd::arithmetic::div_mod::lemma_mod_bound(x, n);
    let q = x / n;
    assert(q * n <= x && x < (q + 1) * n) by (nonlinear_arith)
        requires
            x == n * q + x % n,
            0 <= x % n < n,
    ;
}

/// The lines that are made of cues: the first, where all cues have one, starts with the first cue and
/// ends with it or with the video, and so on with each.
pub proof fn made_lines_follow_the_cues(cues: &[Cue], max_to: Option<i64>, lines: Vec<CcCue>, k: int)
    requires
        call_ensures(cc_cues_from, (cues, max_to), lines),
        forall|i: int| 0 <= i < cues@.len() ==> has_line(#[trigger] cues@[i], max_to),
        0 <= k < cues@.len(),
    ensures
        lines@.len() == cues@.len(),
        lines@[k].from == cues@[k].start,
        max_to is None ==> lines@[k].to == cues@[k].end,
        max_to is Some && cues@[k].end <= max_to->Some_0 ==> lines@[k].to == cues@[k].end,
        max_to is Some && cues@[k].end > max_to->Some_0 ==> lines@[k].to == max_to->Some_0,
        lines@[k].content@ == trimmed(cues@[k].translation->Some_0@),
{
    let n = cues@.len() as int;
    lines_follow_the_cues(cues@, max_to, n);
    all_sources(cues@, max_to, n);
    let from = sources(cues@, max_to, n);
    assert(from[k] == k);
    assert(cc_models(lines@)[k] == lines@[k]@);
    assert(cc_models(lines@).len() == lines@.len());
}

proof fn all_sources(cues: Seq<Cue>, max_to: Option<i64>, n: int)
    requires
        0 <= n <= cues.len(),
        forall|i: int| 0 <= i < cues.len() ==> has_line(#[trigger] cues[i], max_to),
    ensures
        sources(cues, max_to, n).len() == n,
        forall|i: int| 0 <= i < n ==> #[trigger] sources(cues, max_to, n)[i] == i,
    decreases n,
{
    if n > 0 {
        all_sources(cues, max_to, n - 1);
        assert(has_line(cues[n - 1], max_to));
    }
}

} // verus!
