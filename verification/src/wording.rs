//! The rules for titles, dynamics and tags: what is cut from a model's answer, and what is refused.
use vstd::prelude::*;
use vstd::string::StringExecFns;

use crate::batching::capped;
use crate::model::PublicationMetadata;
use crate::subtitle::numbered;
use crate::text::{
    blank, chars_of, contains_text, control, decimal_of, found_at, is_blank, is_control, is_space,
    join, join_all, joined, joining_puts_one_separator_between, lower, lowered, made_of, occurs_at,
    occurs_in, parts_occur, same_text, signed_decimal, signed_decimal_of, split_words, squeeze,
    squeezed, string_of, trimmed, views, words_are_words, words_from, words_of,
    words_stand_between_spaces,
};

verus! {

/// The section of Bilibili that videos go to.
pub const BILIBILI_TID: i64 = 172;

/// The widest title.
pub const MAX_TITLE_WIDTH: usize = 70;

/// The widest dynamic.
pub const MAX_DYNAMIC_WIDTH: usize = 120;

/// The longest tag, in characters.
pub const MAX_TAG_CHARS: usize = 20;

/// The most tags.
pub const MAX_TAGS: usize = 4;

/// The most sentences of a dynamic.
pub const MAX_SENTENCES: usize = 2;

/// The tag that stands first.
pub open spec fn core_tag() -> Seq<char> {
    "荒野乱斗"@
}

/// The tag that stands first.
pub fn core_tag_text() -> (r: String)
    ensures
        r@ == core_tag(),
{
    "荒野乱斗".to_owned()
}

// ---------------------------------------------------------------------------------------------
// Characters
// ---------------------------------------------------------------------------------------------

/// The characters that count as emoji.
pub open spec fn emoji(c: char) -> bool {
    let n = c as u32;
    ||| 0x1F000 <= n <= 0x1FAFF
    ||| 0x2600 <= n <= 0x26FF
    ||| 0x2700 <= n <= 0x27BF
    ||| 0xFE00 <= n <= 0xFE0F
}

/// Whether `ch` counts as an emoji.
pub fn is_emoji(ch: char) -> (r: bool)
    ensures
        r == emoji(ch),
{
    let n: u32 = ch as u32;
    (0x1F000 <= n && n <= 0x1FAFF) || (0x2600 <= n && n <= 0x26FF) || (0x2700 <= n && n <= 0x27BF)
        || (0xFE00 <= n && n <= 0xFE0F)
}

/// What is left of a text once emoji and what joins them are taken out.
pub open spec fn visible(c: char) -> bool {
    !emoji(c) && c != '\u{200D}' && c != '\u{20E3}'
}

/// The marks that start a hashtag.
pub open spec fn mark(c: char) -> bool {
    c == '#' || c == '＃'
}

/// Width of a text: two for each character outside ASCII, one for each inside.
pub open spec fn width_of(s: Seq<char>) -> int
    decreases s.len(),
{
    if s.len() == 0 {
        0
    } else {
        width_of(s.drop_last()) + if s.last() <= '\u{7f}' {
            1int
        } else {
            2int
        }
    }
}

/// The width of a text.
pub fn chinese_width(text: &str) -> (r: usize)
    ensures
        r == capped(width_of(text@)),
{
    let chars = chars_of(text);
    let mut width: usize = 0;
    let mut i: usize = 0;
    proof {
        assert(text@.take(0) =~= Seq::empty());
    }
    while i < chars.len()
        invariant
            chars@ == text@,
            0 <= i <= chars@.len(),
            width == capped(width_of(text@.take(i as int))),
        decreases chars@.len() - i,
    {
        proof {
            assert(text@.take(i + 1).drop_last() =~= text@.take(i as int));
            assert(text@.take(i + 1).last() == chars@[i as int]);
        }
        width = width.saturating_add(if chars[i] <= '\u{7f}' {
            1
        } else {
            2
        });
        i = i + 1;
    }
    proof {
        assert(text@.take(i as int) =~= text@);
    }
    width
}

/// The number of characters that end a sentence.
pub open spec fn sentence_ends(s: Seq<char>) -> int
    decreases s.len(),
{
    if s.len() == 0 {
        0
    } else {
        sentence_ends(s.drop_last()) + if ends_sentence(s.last()) {
            1int
        } else {
            0int
        }
    }
}

/// Whether a character ends a sentence.
pub open spec fn ends_sentence(c: char) -> bool {
    c == '。' || c == '！' || c == '？' || c == '!' || c == '?'
}

fn count_sentence_ends(text: &str) -> (r: usize)
    ensures
        r == sentence_ends(text@),
{
    let chars = chars_of(text);
    let n: usize = chars.len();
    let mut count: usize = 0;
    let mut i: usize = 0;
    proof {
        assert(text@.take(0) =~= Seq::empty());
    }
    while i < n
        invariant
            chars@ == text@,
            n == chars@.len(),
            0 <= i <= n,
            count <= i,
            count == sentence_ends(text@.take(i as int)),
        decreases n - i,
    {
        proof {
            assert(text@.take(i + 1).drop_last() =~= text@.take(i as int));
            assert(text@.take(i + 1).last() == chars@[i as int]);
        }
        let c = chars[i];
        if c == '。' || c == '！' || c == '？' || c == '!' || c == '?' {
            count = count + 1;
        }
        i = i + 1;
    }
    proof {
        assert(text@.take(n as int) =~= text@);
    }
    count
}

/// Whether a character of `s` is a control character.
pub open spec fn any_control(s: Seq<char>) -> bool {
    exists|i: int| 0 <= i < s.len() && is_control(#[trigger] s[i])
}

/// Whether a character of `s` is an emoji.
pub open spec fn any_emoji(s: Seq<char>) -> bool {
    exists|i: int| 0 <= i < s.len() && emoji(#[trigger] s[i])
}

/// Whether a character of `s` is a mark of hashtags.
pub open spec fn any_mark(s: Seq<char>) -> bool {
    exists|i: int| 0 <= i < s.len() && mark(#[trigger] s[i])
}

fn has_control(text: &str) -> (r: bool)
    ensures
        r == any_control(text@),
{
    let chars = chars_of(text);
    let mut i: usize = 0;
    while i < chars.len()
        invariant
            chars@ == text@,
            0 <= i <= chars@.len(),
            forall|j: int| 0 <= j < i ==> !is_control(#[trigger] text@[j]),
        decreases chars@.len() - i,
    {
        if control(chars[i]) {
            assert(is_control(text@[i as int]));
            return true;
        }
        i = i + 1;
    }
    false
}

fn has_emoji(text: &str) -> (r: bool)
    ensures
        r == any_emoji(text@),
{
    let chars = chars_of(text);
    let mut i: usize = 0;
    while i < chars.len()
        invariant
            chars@ == text@,
            0 <= i <= chars@.len(),
            forall|j: int| 0 <= j < i ==> !emoji(#[trigger] text@[j]),
        decreases chars@.len() - i,
    {
        if is_emoji(chars[i]) {
            assert(emoji(text@[i as int]));
            return true;
        }
        i = i + 1;
    }
    false
}

fn has_mark(text: &str) -> (r: bool)
    ensures
        r == any_mark(text@),
{
    let chars = chars_of(text);
    let mut i: usize = 0;
    while i < chars.len()
        invariant
            chars@ == text@,
            0 <= i <= chars@.len(),
            forall|j: int| 0 <= j < i ==> !mark(#[trigger] text@[j]),
        decreases chars@.len() - i,
    {
        if chars[i] == '#' || chars[i] == '＃' {
            assert(mark(text@[i as int]));
            return true;
        }
        i = i + 1;
    }
    false
}

// ---------------------------------------------------------------------------------------------
// Links
// ---------------------------------------------------------------------------------------------

/// Whether a link starts at place `i`, whatever the case of its letters.
pub open spec fn link_at(s: Seq<char>, i: int) -> bool {
    ||| occurs_at(lowered(s), "http://"@, i)
    ||| occurs_at(lowered(s), "https://"@, i)
    ||| occurs_at(lowered(s), "www."@, i)
}

/// Whether a link stands somewhere in `s`.
pub open spec fn any_link(s: Seq<char>) -> bool {
    exists|i: int| link_at(s, i)
}

fn lowered_chars(chars: &Vec<char>) -> (r: Vec<char>)
    ensures
        r@ == lowered(chars@),
{
    let mut out: Vec<char> = Vec::new();
    let mut i: usize = 0;
    while i < chars.len()
        invariant
            0 <= i <= chars@.len(),
            out@ == lowered(chars@).take(i as int),
        decreases chars@.len() - i,
    {
        out.push(lower(chars[i]));
        i = i + 1;
        proof {
            assert(out@ =~= lowered(chars@).take(i as int));
        }
    }
    proof {
        assert(lowered(chars@).take(i as int) =~= lowered(chars@));
    }
    out
}

fn link_found(low: &Vec<char>, i: usize) -> (r: bool)
    ensures
        r == (occurs_at(low@, "http://"@, i as int) || occurs_at(low@, "https://"@, i as int)
            || occurs_at(low@, "www."@, i as int)),
{
    found_at(low, &chars_of("http://"), i) || found_at(
        low,
        &chars_of("https://"),
        i,
    ) || found_at(low, &chars_of("www."), i)
}

fn has_link(text: &str) -> (r: bool)
    ensures
        r == any_link(text@),
{
    let chars = chars_of(text);
    let low = lowered_chars(&chars);
    let mut i: usize = 0;
    while i < low.len()
        invariant
            low@ == lowered(text@),
            0 <= i <= low@.len(),
            forall|j: int| 0 <= j < i ==> !link_at(text@, j),
        decreases low@.len() - i,
    {
        if link_found(&low, i) {
            assert(link_at(text@, i as int));
            return true;
        }
        i = i + 1;
    }
    let last = link_found(&low, i);
    proof {
        if last {
            assert(link_at(text@, i as int));
        }
    }
    last
}

// ---------------------------------------------------------------------------------------------
// Cleaning
// ---------------------------------------------------------------------------------------------

/// The first place of a word from `k` on where a hashtag or a link starts.
pub open spec fn cut_from(w: Seq<char>, k: int) -> int
    decreases w.len() - k,
{
    if k >= w.len() || mark(w[k]) || link_at(w, k) {
        k
    } else {
        cut_from(w, k + 1)
    }
}

/// The first place of a word from `k` on where a link starts.
pub open spec fn link_from(w: Seq<char>, k: int) -> int
    decreases w.len() - k,
{
    if k >= w.len() || link_at(w, k) {
        k
    } else {
        link_from(w, k + 1)
    }
}

/// A word up to the first hashtag or link in it.
pub open spec fn without_topic(w: Seq<char>) -> Seq<char> {
    w.take(cut_from(w, 0))
}

/// A word without the marks of hashtags.
pub open spec fn unmarked(w: Seq<char>) -> Seq<char> {
    w.filter(|c: char| !mark(c))
}

/// A word without the marks of hashtags, up to the first link in it.
pub open spec fn without_marks(w: Seq<char>) -> Seq<char> {
    unmarked(w).take(link_from(unmarked(w), 0))
}

/// The words of `words[..n]` that `f` leaves something of.
pub open spec fn kept_words(words: Seq<Seq<char>>, topics: bool, n: int) -> Seq<Seq<char>>
    decreases n,
{
    if n <= 0 || n > words.len() {
        Seq::empty()
    } else {
        let w = if topics {
            without_marks(words[n - 1])
        } else {
            without_topic(words[n - 1])
        };
        let front = kept_words(words, topics, n - 1);
        if w.len() == 0 {
            front
        } else {
            front.push(w)
        }
    }
}

/// A text without emoji.
pub open spec fn plain(s: Seq<char>) -> Seq<char> {
    s.filter(|c: char| visible(c))
}

/// A text without emoji, hashtags and links, its words separated by single spaces. Where nothing
/// but hashtags stands in it, their words are kept and only the marks go.
pub open spec fn sanitized(s: Seq<char>) -> Seq<char> {
    let words = words_of(plain(s));
    let strict = kept_words(words, false, words.len() as int);
    if strict.len() > 0 {
        joined(strict, " "@)
    } else {
        joined(kept_words(words, true, words.len() as int), " "@)
    }
}

fn plain_text(text: &str) -> (r: String)
    ensures
        r@ == plain(text@),
{
    let chars = chars_of(text);
    let ghost f = |c: char| visible(c);
    let mut out = String::new();
    let mut i: usize = 0;
    proof {
        assert(text@.take(0).filter(f) =~= Seq::empty());
    }
    while i < chars.len()
        invariant
            chars@ == text@,
            f == (|c: char| visible(c)),
            0 <= i <= chars@.len(),
            out@ == text@.take(i as int).filter(f),
        decreases chars@.len() - i,
    {
        let c = chars[i];
        proof {
            assert(text@.take(i + 1).drop_last() =~= text@.take(i as int));
            assert(text@.take(i + 1).last() == c);
            reveal(Seq::filter);
        }
        if !is_emoji(c) && c != '\u{200D}' && c != '\u{20E3}' {
            out.push(c);
        }
        i = i + 1;
    }
    proof {
        assert(text@.take(i as int) =~= text@);
    }
    out
}

fn strip_topic(word: &str) -> (r: String)
    ensures
        r@ == without_topic(word@),
{
    let chars = chars_of(word);
    let low = lowered_chars(&chars);
    let mut k: usize = 0;
    while k < chars.len() && !(chars[k] == '#' || chars[k] == '＃' || link_found(&low, k))
        invariant
            chars@ == word@,
            low@ == lowered(word@),
            0 <= k <= chars@.len(),
            cut_from(word@, 0) == cut_from(word@, k as int),
        decreases chars@.len() - k,
    {
        k = k + 1;
    }
    let out = string_of(&chars, 0, k);
    proof {
        assert(out@ =~= word@.take(k as int));
    }
    out
}

fn strip_marks(word: &str) -> (r: String)
    ensures
        r@ == without_marks(word@),
{
    let chars = chars_of(word);
    let ghost f = |c: char| !mark(c);
    let mut bare: Vec<char> = Vec::new();
    let mut i: usize = 0;
    proof {
        assert(word@.take(0).filter(f) =~= Seq::empty());
    }
    while i < chars.len()
        invariant
            chars@ == word@,
            f == (|c: char| !mark(c)),
            0 <= i <= chars@.len(),
            bare@ == word@.take(i as int).filter(f),
        decreases chars@.len() - i,
    {
        let c = chars[i];
        proof {
            assert(word@.take(i + 1).drop_last() =~= word@.take(i as int));
            assert(word@.take(i + 1).last() == c);
            reveal(Seq::filter);
        }
        if c != '#' && c != '＃' {
            bare.push(c);
        }
        i = i + 1;
    }
    proof {
        assert(word@.take(i as int) =~= word@);
    }
    let low = lowered_chars(&bare);
    let mut k: usize = 0;
    while k < bare.len() && !link_found(&low, k)
        invariant
            low@ == lowered(bare@),
            0 <= k <= bare@.len(),
            link_from(bare@, 0) == link_from(bare@, k as int),
        decreases bare@.len() - k,
    {
        k = k + 1;
    }
    let out = string_of(&bare, 0, k);
    proof {
        assert(out@ =~= bare@.take(k as int));
    }
    out
}

fn keep_words(words: &Vec<String>, topics: bool) -> (r: Vec<String>)
    ensures
        views(r@) == kept_words(views(words@), topics, words@.len() as int),
{
    let mut out: Vec<String> = Vec::new();
    let mut i: usize = 0;
    proof {
        assert(views(out@) =~= Seq::empty());
    }
    while i < words.len()
        invariant
            0 <= i <= words@.len(),
            views(out@) == kept_words(views(words@), topics, i as int),
        decreases words@.len() - i,
    {
        assert(views(words@)[i as int] == words@[i as int]@);
        let w = if topics {
            strip_marks(words[i].as_str())
        } else {
            strip_topic(words[i].as_str())
        };
        let ghost before = views(out@);
        if !w.as_str().is_empty() {
            out.push(w);
            proof {
                assert(views(out@) =~= before.push(w@));
            }
        }
        i = i + 1;
    }
    out
}

/// A text without emoji, hashtags and links.
pub fn sanitize_publication_text(text: &str) -> (r: String)
    ensures
        r@ == sanitized(text@),
{
    let clear = plain_text(text);
    let words = split_words(clear.as_str());
    proof {
        assert(views(words@).len() == words@.len());
    }
    let strict = keep_words(&words, false);
    proof {
        assert(views(strict@).len() == strict@.len());
    }
    if strict.len() > 0 {
        join_all(&strict, " ")
    } else {
        let loose = keep_words(&words, true);
        join_all(&loose, " ")
    }
}

// ---------------------------------------------------------------------------------------------
// What cleaning guarantees
// ---------------------------------------------------------------------------------------------

/// Whether every character of `s` keeps `ok`.
spec fn all_chars(s: Seq<char>, ok: spec_fn(char) -> bool) -> bool {
    forall|i: int| 0 <= i < s.len() ==> ok(#[trigger] s[i])
}

proof fn joined_chars(parts: Seq<Seq<char>>, sep: Seq<char>, ok: spec_fn(char) -> bool)
    requires
        all_chars(sep, ok),
        forall|k: int| 0 <= k < parts.len() ==> all_chars(#[trigger] parts[k], ok),
    ensures
        all_chars(joined(parts, sep), ok),
    decreases parts.len(),
{
    if parts.len() > 1 {
        joined_chars(parts.drop_last(), sep, ok);
        let front = joined(parts.drop_last(), sep);
        let whole = joined(parts, sep);
        assert(all_chars(parts[parts.len() - 1], ok));
        assert forall|i: int| 0 <= i < whole.len() implies ok(#[trigger] whole[i]) by {
            if i < front.len() {
                assert(whole[i] == front[i]);
            } else if i < front.len() + sep.len() {
                assert(whole[i] == sep[i - front.len()]);
            } else {
                assert(whole[i] == parts.last()[i - front.len() - sep.len()]);
            }
        }
    } else if parts.len() == 1 {
        assert(all_chars(parts[0], ok));
    }
}

proof fn cut_bounds(w: Seq<char>, k: int)
    requires
        0 <= k <= w.len(),
    ensures
        k <= cut_from(w, k) <= w.len(),
        forall|j: int| k <= j < cut_from(w, k) ==> !mark(#[trigger] w[j]),
        forall|j: int| k <= j < cut_from(w, k) ==> !link_at(w, j),
    decreases w.len() - k,
{
    if k < w.len() && !mark(w[k]) && !link_at(w, k) {
        cut_bounds(w, k + 1);
    }
}

proof fn link_bounds(w: Seq<char>, k: int)
    requires
        0 <= k <= w.len(),
    ensures
        k <= link_from(w, k) <= w.len(),
        forall|j: int| k <= j < link_from(w, k) ==> !link_at(w, j),
    decreases w.len() - k,
{
    if k < w.len() && !link_at(w, k) {
        link_bounds(w, k + 1);
    }
}

proof fn link_sizes()
    ensures
        "http://"@.len() == 7,
        "https://"@.len() == 8,
        "www."@.len() == 4,
        all_chars("http://"@, |c: char| c != ' '),
        all_chars("https://"@, |c: char| c != ' '),
        all_chars("www."@, |c: char| c != ' '),
{
    reveal_strlit("http://");
    reveal_strlit("https://");
    reveal_strlit("www.");
}

/// A place where `p` stands in a prefix of `w` is one where it stands in `w`.
proof fn occurs_in_prefix(w: Seq<char>, n: int, p: Seq<char>, i: int)
    requires
        0 <= n <= w.len(),
        occurs_at(lowered(w.take(n)), p, i),
    ensures
        occurs_at(lowered(w), p, i),
        i + p.len() <= n,
{
    assert(lowered(w).subrange(i, i + p.len()) =~= lowered(w.take(n)).subrange(i, i + p.len()));
}

proof fn prefix_without_link(w: Seq<char>, n: int)
    requires
        0 <= n <= w.len(),
        forall|j: int| 0 <= j < n ==> !link_at(w, j),
    ensures
        !any_link(w.take(n)),
{
    link_sizes();
    assert forall|i: int| !link_at(w.take(n), i) by {
        if occurs_at(lowered(w.take(n)), "http://"@, i) {
            occurs_in_prefix(w, n, "http://"@, i);
            assert(link_at(w, i));
        }
        if occurs_at(lowered(w.take(n)), "https://"@, i) {
            occurs_in_prefix(w, n, "https://"@, i);
            assert(link_at(w, i));
        }
        if occurs_at(lowered(w.take(n)), "www."@, i) {
            occurs_in_prefix(w, n, "www."@, i);
            assert(link_at(w, i));
        }
    }
}

/// What stands in `a`, a space and `b` without a space in it stands in `a` or in `b`.
proof fn occurs_in_one_side(a: Seq<char>, b: Seq<char>, p: Seq<char>, i: int)
    requires
        occurs_at(lowered(a + " "@ + b), p, i),
        all_chars(p, |c: char| c != ' '),
    ensures
        occurs_at(lowered(a), p, i) || occurs_at(lowered(b), p, i - a.len() - 1),
{
    reveal_strlit(" ");
    let whole = a + " "@ + b;
    let n = a.len() as int;
    assert(" "@.len() == 1);
    assert(whole[n] == ' ');
    if i <= n < i + p.len() {
        assert(lowered(whole).subrange(i, i + p.len())[n - i] == lowered(whole)[n]);
        assert(p[n - i] == ' ');
        assert(false);
    } else if i + p.len() <= n {
        assert(lowered(a).subrange(i, i + p.len()) =~= lowered(whole).subrange(i, i + p.len()));
    } else {
        let j = i - n - 1;
        assert(lowered(b).subrange(j, j + p.len()) =~= lowered(whole).subrange(i, i + p.len()));
    }
}

proof fn joined_without_link(parts: Seq<Seq<char>>)
    requires
        forall|k: int| 0 <= k < parts.len() ==> !any_link(#[trigger] parts[k]),
    ensures
        !any_link(joined(parts, " "@)),
    decreases parts.len(),
{
    link_sizes();
    if parts.len() == 0 {
        assert forall|i: int| !link_at(joined(parts, " "@), i) by {}
    } else if parts.len() == 1 {
        assert(!any_link(parts[0]));
    } else {
        let front = joined(parts.drop_last(), " "@);
        let last = parts.last();
        assert forall|k: int| 0 <= k < parts.drop_last().len() implies !any_link(
            #[trigger] parts.drop_last()[k],
        ) by {
            assert(parts.drop_last()[k] == parts[k]);
        }
        joined_without_link(parts.drop_last());
        assert(!any_link(parts[parts.len() - 1]));
        assert forall|i: int| !link_at(joined(parts, " "@), i) by {
            let j = i - front.len() - 1;
            if occurs_at(lowered(front + " "@ + last), "http://"@, i) {
                occurs_in_one_side(front, last, "http://"@, i);
                assert(link_at(front, i) || link_at(last, j));
            }
            if occurs_at(lowered(front + " "@ + last), "https://"@, i) {
                occurs_in_one_side(front, last, "https://"@, i);
                assert(link_at(front, i) || link_at(last, j));
            }
            if occurs_at(lowered(front + " "@ + last), "www."@, i) {
                occurs_in_one_side(front, last, "www."@, i);
                assert(link_at(front, i) || link_at(last, j));
            }
        }
    }
}

/// The characters that a cleaned text is made of.
spec fn clean_char(c: char) -> bool {
    visible(c) && !mark(c)
}

proof fn kept_words_are_clean(words: Seq<Seq<char>>, topics: bool, n: int)
    requires
        0 <= n <= words.len(),
        forall|k: int|
            0 <= k < words.len() ==> all_chars(#[trigger] words[k], |c: char| visible(c)),
    ensures
        forall|k: int|
            0 <= k < kept_words(words, topics, n).len() ==> all_chars(
                #[trigger] kept_words(words, topics, n)[k],
                |c: char| clean_char(c),
            ) && !any_link(kept_words(words, topics, n)[k]),
    decreases n,
{
    if n > 0 {
        kept_words_are_clean(words, topics, n - 1);
        let w = words[n - 1];
        assert(all_chars(w, |c: char| visible(c)));
        if topics {
            let f = |c: char| !mark(c);
            let u = unmarked(w);
            link_bounds(u, 0);
            let cut = link_from(u, 0);
            prefix_without_link(u, cut);
            let kept = u.take(cut);
            assert forall|i: int| 0 <= i < kept.len() implies clean_char(#[trigger] kept[i]) by {
                assert(kept[i] == u[i]);
                w.lemma_filter_pred(f, i);
                assert(u.contains(u[i]));
                w.lemma_filter_contains_rev(f, u[i]);
                let j = choose|j: int| 0 <= j < w.len() && w[j] == u[i];
                assert(visible(w[j]));
            }
        } else {
            cut_bounds(w, 0);
            let cut = cut_from(w, 0);
            prefix_without_link(w, cut);
            let kept = w.take(cut);
            assert forall|i: int| 0 <= i < kept.len() implies clean_char(#[trigger] kept[i]) by {
                assert(kept[i] == w[i]);
                assert(visible(w[i]));
            }
        }
        let front = kept_words(words, topics, n - 1);
        let all = kept_words(words, topics, n);
        assert forall|k: int| 0 <= k < all.len() implies all_chars(
            #[trigger] all[k],
            |c: char| clean_char(c),
        ) && !any_link(all[k]) by {
            if k < front.len() {
                assert(all[k] == front[k]);
            }
        }
    }
}

/// A cleaned text holds no emoji, no hashtag mark and no link, whatever the text was.
pub proof fn sanitized_is_clean(s: Seq<char>)
    ensures
        !any_emoji(sanitized(s)),
        !any_mark(sanitized(s)),
        !any_link(sanitized(s)),
{
    let p = plain(s);
    let f = |c: char| visible(c);
    let words = words_of(p);
    words_are_words(p, 0);
    assert forall|k: int| 0 <= k < words.len() implies all_chars(#[trigger] words[k], f) by {
        assert(made_of(words[k], p));
        assert forall|i: int| 0 <= i < words[k].len() implies f(#[trigger] words[k][i]) by {
            assert(p.contains(words[k][i]));
            let j = choose|j: int| 0 <= j < p.len() && p[j] == words[k][i];
            s.lemma_filter_pred(f, j);
        }
    }
    let strict = kept_words(words, false, words.len() as int);
    let topics = strict.len() == 0;
    let parts = kept_words(words, topics, words.len() as int);
    kept_words_are_clean(words, topics, words.len() as int);
    reveal_strlit(" ");
    let ok = |c: char| clean_char(c);
    assert(all_chars(" "@, ok)) by {
        assert(" "@.len() == 1 && " "@[0] == ' ');
        assert(clean_char(' '));
    }
    joined_chars(parts, " "@, ok);
    joined_without_link(parts);
    let out = joined(parts, " "@);
    assert(out == sanitized(s));
    assert forall|i: int| 0 <= i < out.len() implies !emoji(#[trigger] out[i]) && !mark(out[i]) by {
        assert(ok(out[i]));
    }
}

// ---------------------------------------------------------------------------------------------
// Checking
// ---------------------------------------------------------------------------------------------

/// A text field of a publication.
#[derive(Debug, PartialEq, Eq, Structural, Clone, Copy)]
pub enum Field {
    Title,
    Dynamic,
}

impl Field {
    /// The name of the field.
    pub open spec fn name(self) -> Seq<char> {
        match self {
            Field::Title => "标题"@,
            Field::Dynamic => "动态"@,
        }
    }

    /// The name of the field.
    pub fn label(self) -> (r: &'static str)
        ensures
            r@ == self.name(),
    {
        match self {
            Field::Title => "标题",
            Field::Dynamic => "动态",
        }
    }
}

/// Why a publication is refused.
#[derive(Debug, PartialEq, Eq, Structural, Clone, Copy)]
pub enum PublicationError {
    /// The answer has no such text.
    MissingText(Field),
    /// The answer has no list of tags.
    MissingTags,
    /// The list of tags is empty.
    EmptyTags,
    /// A tag is no text.
    TagNotText,
    /// The field is blank or holds a control character.
    BlankOrControl(Field),
    /// The field is too wide.
    TooWide { field: Field, width: usize, max: usize },
    /// The title holds a link or a hashtag.
    TitleLinkOrTopic,
    /// The section is another one.
    WrongSection(i64),
    /// The tags do not start with the core tag, or are too many.
    TagList,
    /// A tag is empty or too long.
    TagLength,
    /// The dynamic holds a link, a hashtag or a call for interaction.
    DynamicContent,
    /// The title or the dynamic holds an emoji.
    Emoji,
    /// The dynamic has too many sentences.
    TooManySentences,
}

impl PublicationError {
    /// The message for this error.
    pub open spec fn text(self) -> Seq<char> {
        match self {
            PublicationError::MissingText(Field::Title) => "Pi 投稿元数据缺少字符串 title"@,
            PublicationError::MissingText(Field::Dynamic) => "Pi 投稿元数据缺少字符串 dynamic"@,
            PublicationError::MissingTags => "Pi 投稿元数据缺少数组 tags"@,
            PublicationError::EmptyTags => "Pi 投稿元数据 tags 为空"@,
            PublicationError::TagNotText => "Pi 投稿元数据 tags 含非字符串项"@,
            PublicationError::BlankOrControl(field) => field.name() + "为空或含控制字符"@,
            PublicationError::TooWide { field, width, max } => field.name() + "宽度 "@ + decimal_of(
                width as nat,
            ) + " 超过上限 "@ + decimal_of(max as nat) + ""@,
            PublicationError::TitleLinkOrTopic => "标题含链接或话题"@,
            PublicationError::WrongSection(tid) => "投稿分区必须为 172，实际为 "@ + signed_decimal_of(
                tid as int,
            ),
            PublicationError::TagList => "投稿标签必须以“荒野乱斗”开头且总数为 1～4"@,
            PublicationError::TagLength => "投稿标签为空或超过 20 字"@,
            PublicationError::DynamicContent => "动态含链接、话题或引导互动内容"@,
            PublicationError::Emoji => "标题或动态含 emoji"@,
            PublicationError::TooManySentences => "动态超过 2 句"@,
        }
    }

    /// The message for this error.
    pub fn message(&self) -> (r: String)
        ensures
            r@ == self.text(),
    {
        match self {
            PublicationError::MissingText(field) => match field {
                Field::Title => "Pi 投稿元数据缺少字符串 title".to_owned(),
                Field::Dynamic => "Pi 投稿元数据缺少字符串 dynamic".to_owned(),
            },
            PublicationError::MissingTags => "Pi 投稿元数据缺少数组 tags".to_owned(),
            PublicationError::EmptyTags => "Pi 投稿元数据 tags 为空".to_owned(),
            PublicationError::TagNotText => "Pi 投稿元数据 tags 含非字符串项".to_owned(),
            PublicationError::BlankOrControl(field) => join(field.label(), "为空或含控制字符"),
            PublicationError::TooWide { field, width, max } => {
                let a = join(field.label(), "宽度 ");
                let b = numbered(a.as_str(), *width, " 超过上限 ");
                numbered(b.as_str(), *max, "")
            },
            PublicationError::TitleLinkOrTopic => "标题含链接或话题".to_owned(),
            PublicationError::WrongSection(tid) => {
                let digits = signed_decimal(*tid);
                join("投稿分区必须为 172，实际为 ", digits.as_str())
            },
            PublicationError::TagList => "投稿标签必须以“荒野乱斗”开头且总数为 1～4".to_owned(),
            PublicationError::TagLength => "投稿标签为空或超过 20 字".to_owned(),
            PublicationError::DynamicContent => "动态含链接、话题或引导互动内容".to_owned(),
            PublicationError::Emoji => "标题或动态含 emoji".to_owned(),
            PublicationError::TooManySentences => "动态超过 2 句".to_owned(),
        }
    }
}

/// What is wrong with a text field, if anything.
pub open spec fn field_fault(field: Field, s: Seq<char>, max: usize) -> Option<PublicationError> {
    if is_blank(s) || any_control(s) {
        Some(PublicationError::BlankOrControl(field))
    } else if width_of(s) > max {
        Some(
            PublicationError::TooWide { field, width: capped(width_of(s)) as usize, max },
        )
    } else {
        None
    }
}

/// Checks that a field is not blank, holds no control character and is not too wide.
pub fn validate_text_field(field: Field, text: &str, max_width: usize) -> (r: Result<
    (),
    PublicationError,
>)
    requires
        max_width < usize::MAX,
    ensures
        r is Ok <==> field_fault(field, text@, max_width) is None,
        r matches Err(e) ==> field_fault(field, text@, max_width) == Some(e),
{
    if blank(text) || has_control(text) {
        return Err(PublicationError::BlankOrControl(field));
    }
    let width: usize = chinese_width(text);
    if width > max_width {
        return Err(PublicationError::TooWide { field, width, max: max_width });
    }
    Ok(())
}

/// Whether a text asks its readers to interact.
pub open spec fn asks_for_interaction(s: Seq<char>) -> bool {
    ||| occurs_in(s, "关注我"@)
    ||| occurs_in(s, "点赞"@)
    ||| occurs_in(s, "投币"@)
    ||| occurs_in(s, "三连"@)
    ||| occurs_in(s, "订阅频道"@)
    ||| occurs_in(s, "转发"@)
}

/// Whether the tags are one to four and start with the core tag.
pub open spec fn tag_list_ok(tags: Seq<Seq<char>>) -> bool {
    0 < tags.len() <= MAX_TAGS && tags[0] == core_tag()
}

/// Whether a tag is not empty and not too long.
pub open spec fn tag_ok(tag: Seq<char>) -> bool {
    0 < tag.len() <= MAX_TAG_CHARS
}

/// The first thing that is wrong with a publication, if anything.
pub open spec fn publication_fault(
    title: Seq<char>,
    dynamic: Seq<char>,
    tags: Seq<Seq<char>>,
    tid: int,
) -> Option<PublicationError> {
    if field_fault(Field::Title, title, MAX_TITLE_WIDTH) is Some {
        field_fault(Field::Title, title, MAX_TITLE_WIDTH)
    } else if field_fault(Field::Dynamic, dynamic, MAX_DYNAMIC_WIDTH) is Some {
        field_fault(Field::Dynamic, dynamic, MAX_DYNAMIC_WIDTH)
    } else if any_mark(title) || any_link(title) {
        Some(PublicationError::TitleLinkOrTopic)
    } else if tid != BILIBILI_TID {
        Some(PublicationError::WrongSection(tid as i64))
    } else if !tag_list_ok(tags) {
        Some(PublicationError::TagList)
    } else if exists|i: int| 0 <= i < tags.len() && !tag_ok(#[trigger] tags[i]) {
        Some(PublicationError::TagLength)
    } else if any_mark(dynamic) || any_link(dynamic) || asks_for_interaction(dynamic) {
        Some(PublicationError::DynamicContent)
    } else if any_emoji(title) || any_emoji(dynamic) {
        Some(PublicationError::Emoji)
    } else if sentence_ends(dynamic) > MAX_SENTENCES {
        Some(PublicationError::TooManySentences)
    } else {
        None
    }
}

/// The first thing that is wrong with a publication, if anything.
pub open spec fn metadata_fault(m: PublicationMetadata) -> Option<PublicationError> {
    publication_fault(m.title@, m.dynamic@, views(m.tags@), m.tid as int)
}

/// Checks a publication against all rules, in order.
pub fn validate_publication_metadata(metadata: &PublicationMetadata) -> (r: Result<
    (),
    PublicationError,
>)
    ensures
        r is Ok <==> metadata_fault(*metadata) is None,
        r matches Err(e) ==> metadata_fault(*metadata) == Some(e),
{
    let title = metadata.title.as_str();
    let dynamic = metadata.dynamic.as_str();
    match validate_text_field(Field::Title, title, MAX_TITLE_WIDTH) {
        Err(e) => {
            return Err(e);
        },
        Ok(()) => {},
    }
    match validate_text_field(Field::Dynamic, dynamic, MAX_DYNAMIC_WIDTH) {
        Err(e) => {
            return Err(e);
        },
        Ok(()) => {},
    }
    if has_mark(title) || has_link(title) {
        return Err(PublicationError::TitleLinkOrTopic);
    }
    if metadata.tid != BILIBILI_TID {
        return Err(PublicationError::WrongSection(metadata.tid));
    }
    let ghost tags = views(metadata.tags@);
    proof {
        assert(tags.len() == metadata.tags@.len());
        assert(metadata.tags@.len() > 0 ==> tags[0] == metadata.tags@[0]@);
    }
    if metadata.tags.len() == 0 || metadata.tags.len() > MAX_TAGS || !same_text(
        metadata.tags[0].as_str(),
        "荒野乱斗",
    ) {
        return Err(PublicationError::TagList);
    }
    let mut i: usize = 0;
    while i < metadata.tags.len()
        invariant
            0 <= i <= metadata.tags@.len(),
            tags == views(metadata.tags@),
            forall|j: int| 0 <= j < i ==> tag_ok(#[trigger] tags[j]),
            metadata_fault(*metadata) == publication_fault(
                metadata.title@,
                metadata.dynamic@,
                tags,
                metadata.tid as int,
            ),
            field_fault(Field::Title, metadata.title@, MAX_TITLE_WIDTH) is None,
            field_fault(Field::Dynamic, metadata.dynamic@, MAX_DYNAMIC_WIDTH) is None,
            !any_mark(metadata.title@) && !any_link(metadata.title@),
            metadata.tid == BILIBILI_TID,
            tag_list_ok(tags),
        decreases metadata.tags@.len() - i,
    {
        let chars = chars_of(metadata.tags[i].as_str());
        assert(tags[i as int] == chars@);
        if chars.len() == 0 || chars.len() > MAX_TAG_CHARS {
            assert(!tag_ok(tags[i as int]));
            return Err(PublicationError::TagLength);
        }
        i = i + 1;
    }
    if has_mark(dynamic) || has_link(dynamic) || contains_text(dynamic, "关注我") || contains_text(
        dynamic,
        "点赞",
    ) || contains_text(dynamic, "投币") || contains_text(dynamic, "三连") || contains_text(
        dynamic,
        "订阅频道",
    ) || contains_text(dynamic, "转发") {
        return Err(PublicationError::DynamicContent);
    }
    if has_emoji(title) || has_emoji(dynamic) {
        return Err(PublicationError::Emoji);
    }
    if count_sentence_ends(dynamic) > MAX_SENTENCES {
        return Err(PublicationError::TooManySentences);
    }
    Ok(())
}

// ---------------------------------------------------------------------------------------------
// Tags
// ---------------------------------------------------------------------------------------------

/// The characters that stay in a tag.
pub open spec fn tag_char(c: char) -> bool {
    !is_control(c) && c != '#' && c != '＃' && c != ',' && c != '，'
}

/// A tag without control characters, marks and commas, squeezed and cut to the longest tag.
pub open spec fn clean_tag(s: Seq<char>) -> Seq<char> {
    let t = squeezed(s.filter(|c: char| tag_char(c)));
    if t.len() <= MAX_TAG_CHARS {
        t
    } else {
        t.take(MAX_TAG_CHARS as int)
    }
}

/// The tags after the first `n` proposed ones: the core tag, then each new one, up to the most.
pub open spec fn tags_after(raw: Seq<Seq<char>>, n: int) -> Seq<Seq<char>>
    decreases n,
{
    if n <= 0 || n > raw.len() {
        seq![core_tag()]
    } else {
        let tags = tags_after(raw, n - 1);
        let tag = clean_tag(raw[n - 1]);
        if tags.len() >= MAX_TAGS || tag.len() == 0 || tags.contains(tag) {
            tags
        } else {
            tags.push(tag)
        }
    }
}

fn clean_tag_text(text: &str) -> (r: String)
    ensures
        r@ == clean_tag(text@),
{
    let chars = chars_of(text);
    let ghost f = |c: char| tag_char(c);
    let mut out = String::new();
    let mut i: usize = 0;
    proof {
        assert(text@.take(0).filter(f) =~= Seq::empty());
    }
    while i < chars.len()
        invariant
            chars@ == text@,
            f == (|c: char| tag_char(c)),
            0 <= i <= chars@.len(),
            out@ == text@.take(i as int).filter(f),
        decreases chars@.len() - i,
    {
        let c = chars[i];
        proof {
            assert(text@.take(i + 1).drop_last() =~= text@.take(i as int));
            assert(text@.take(i + 1).last() == c);
            reveal(Seq::filter);
        }
        if !control(c) && c != '#' && c != '＃' && c != ',' && c != '，' {
            out.push(c);
        }
        i = i + 1;
    }
    proof {
        assert(text@.take(i as int) =~= text@);
    }
    let tidy = squeeze(out.as_str());
    let tidy_chars = chars_of(tidy.as_str());
    if tidy_chars.len() <= MAX_TAG_CHARS {
        tidy
    } else {
        let cut = string_of(&tidy_chars, 0, MAX_TAG_CHARS);
        proof {
            assert(cut@ =~= tidy@.take(MAX_TAG_CHARS as int));
        }
        cut
    }
}

fn holds_tag(tags: &Vec<String>, tag: &str) -> (r: bool)
    ensures
        r == views(tags@).contains(tag@),
{
    let mut i: usize = 0;
    while i < tags.len()
        invariant
            0 <= i <= tags@.len(),
            forall|j: int| 0 <= j < i ==> (#[trigger] tags@[j])@ != tag@,
        decreases tags@.len() - i,
    {
        if same_text(tags[i].as_str(), tag) {
            assert(views(tags@)[i as int] == tag@);
            return true;
        }
        i = i + 1;
    }
    proof {
        assert forall|j: int| 0 <= j < views(tags@).len() implies views(tags@)[j] != tag@ by {
            assert(tags@[j]@ != tag@);
        }
    }
    false
}

/// The tags of a publication: the core tag, then each new proposed one, up to four in all.
pub fn sanitize_tags(raw: &[String]) -> (r: Vec<String>)
    ensures
        views(r@) == tags_after(views(raw@), raw@.len() as int),
{
    let mut tags: Vec<String> = Vec::new();
    tags.push(core_tag_text());
    proof {
        assert(views(tags@) =~= seq![core_tag()]);
    }
    let mut i: usize = 0;
    while i < raw.len()
        invariant
            0 <= i <= raw@.len(),
            views(tags@) == tags_after(views(raw@), i as int),
            views(raw@).len() == raw@.len(),
        decreases raw@.len() - i,
    {
        let tag = clean_tag_text(raw[i].as_str());
        let ghost before = views(tags@);
        proof {
            assert(views(raw@)[i as int] == raw@[i as int]@);
            assert(before.len() == tags@.len());
        }
        if tags.len() < MAX_TAGS && !tag.as_str().is_empty() && !holds_tag(&tags, tag.as_str()) {
            tags.push(tag);
            proof {
                assert(views(tags@) =~= before.push(tag@));
            }
        }
        i = i + 1;
    }
    tags
}

/// Cleaned tags always pass the checks on tags: they are one to four, start with the core tag,
/// and none is empty, too long or there twice.
pub proof fn cleaned_tags_pass(raw: Seq<Seq<char>>, n: int)
    ensures
        tag_list_ok(tags_after(raw, n)),
        forall|i: int| 0 <= i < tags_after(raw, n).len() ==> tag_ok(#[trigger] tags_after(raw, n)[i]),
        tags_after(raw, n).no_duplicates(),
    decreases n,
{
    reveal_strlit("荒野乱斗");
    assert(core_tag().len() == 4);
    if n > 0 && n <= raw.len() {
        cleaned_tags_pass(raw, n - 1);
        let tags = tags_after(raw, n - 1);
        let tag = clean_tag(raw[n - 1]);
        if !(tags.len() >= MAX_TAGS || tag.len() == 0 || tags.contains(tag)) {
            let out = tags.push(tag);
            assert forall|i: int| 0 <= i < out.len() implies tag_ok(#[trigger] out[i]) by {
                if i < tags.len() {
                    assert(out[i] == tags[i]);
                }
            }
            assert(out.no_duplicates()) by {
                assert forall|a: int, b: int|
                    0 <= a < out.len() && 0 <= b < out.len() && a != b implies out[a] != out[b] by {
                    if a < tags.len() && b < tags.len() {
                        assert(out[a] == tags[a] && out[b] == tags[b]);
                    } else if a < tags.len() {
                        assert(tags.contains(tags[a]));
                    } else if b < tags.len() {
                        assert(tags.contains(tags[b]));
                    }
                }
            }
        }
    }
}

// ---------------------------------------------------------------------------------------------
// What a publication may say
// ---------------------------------------------------------------------------------------------

/// A publication passes if and only if its title and its dynamic say something in one line each and
/// are not too wide, hold no link, no topic and no emoji, the dynamic asks for nothing and has at
/// most two sentences, the section is the right one, and the tags are one to four, not empty, not
/// too long, and start with the game.
pub proof fn good_publications_pass(
    title: Seq<char>,
    dynamic: Seq<char>,
    tags: Seq<Seq<char>>,
    tid: int,
)
    ensures
        publication_fault(title, dynamic, tags, tid) is None <==> {
            &&& trimmed(title).len() > 0 && trimmed(dynamic).len() > 0
            &&& forall|i: int| 0 <= i < title.len() ==> !is_control(#[trigger] title[i])
            &&& forall|i: int| 0 <= i < dynamic.len() ==> !is_control(#[trigger] dynamic[i])
            &&& width_of(title) <= 70 && width_of(dynamic) <= 120
            &&& !any_mark(title) && !any_link(title) && !any_emoji(title)
            &&& !any_mark(dynamic) && !any_link(dynamic) && !any_emoji(dynamic)
            &&& !asks_for_interaction(dynamic) && sentence_ends(dynamic) <= 2
            &&& tid == 172
            &&& 1 <= tags.len() <= 4 && tags[0] == "荒野乱斗"@
            &&& forall|i: int| 0 <= i < tags.len() ==> 1 <= (#[trigger] tags[i]).len() <= 20
        },
{
    if !any_control(title) {
        assert forall|i: int| 0 <= i < title.len() implies !is_control(#[trigger] title[i]) by {}
    }
    if !any_control(dynamic) {
        assert forall|i: int| 0 <= i < dynamic.len() implies !is_control(#[trigger] dynamic[i]) by {}
    }
    if forall|i: int| 0 <= i < tags.len() ==> tag_ok(#[trigger] tags[i]) {
        assert forall|i: int| 0 <= i < tags.len() implies 1 <= (#[trigger] tags[i]).len() <= 20 by {
            assert(tag_ok(tags[i]));
        }
    } else {
        let i = choose|i: int| 0 <= i < tags.len() && !tag_ok(#[trigger] tags[i]);
        assert(!(1 <= tags[i].len() <= 20));
    }
}

/// Characters of ASCII are one wide and all others two.
pub proof fn wide_characters_count_twice(s: Seq<char>, c: char)
    ensures
        width_of(Seq::<char>::empty()) == 0,
        c as u32 <= 127 ==> width_of(s.push(c)) == width_of(s) + 1,
        c as u32 > 127 ==> width_of(s.push(c)) == width_of(s) + 2,
{
    assert(s.push(c).drop_last() =~= s);
}

/// A sentence ends with each full stop, exclamation mark or question mark, of either script.
pub proof fn sentences_are_counted(s: Seq<char>, c: char)
    ensures
        sentence_ends(Seq::<char>::empty()) == 0,
        c == '。' || c == '！' || c == '？' || c == '!' || c == '?' ==> sentence_ends(s.push(c))
            == sentence_ends(s) + 1,
        c != '。' && c != '！' && c != '？' && c != '!' && c != '?' ==> sentence_ends(s.push(c))
            == sentence_ends(s),
{
    assert(s.push(c).drop_last() =~= s);
}

/// A text with a hash sign has a topic; one with an address, in letters of any size, has a link.
pub proof fn links_and_topics_are_seen(a: Seq<char>, b: Seq<char>)
    ensures
        any_mark(a.push('#') + b),
        any_mark(a.push('＃') + b),
        any_link(a + "https://"@ + b),
        any_link(a + "HTTPS://"@ + b),
        any_link(a + "http://"@ + b),
        any_link(a + "www."@ + b),
        asks_for_interaction(a + "三连"@ + b),
        asks_for_interaction(a + "点赞"@ + b),
        asks_for_interaction(a + "关注我"@ + b),
        asks_for_interaction(a + "投币"@ + b),
        asks_for_interaction(a + "转发"@ + b),
        asks_for_interaction(a + "订阅频道"@ + b),
{
    let n = a.len() as int;
    assert((a.push('#') + b)[n] == '#');
    assert((a.push('＃') + b)[n] == '＃');
    reveal_strlit("https://");
    reveal_strlit("HTTPS://");
    reveal_strlit("http://");
    reveal_strlit("www.");
    let s = a + "https://"@ + b;
    let t = a + "HTTPS://"@ + b;
    let u = a + "http://"@ + b;
    let v = a + "www."@ + b;
    assert(lowered(s).subrange(n, n + 8) =~= "https://"@);
    assert(link_at(s, n));
    assert(lowered(t).subrange(n, n + 8) =~= "https://"@);
    assert(link_at(t, n));
    assert(lowered(u).subrange(n, n + 7) =~= "http://"@);
    assert(link_at(u, n));
    assert(lowered(v).subrange(n, n + 4) =~= "www."@);
    assert(link_at(v, n));
    parts_occur(a, "三连"@, b);
    parts_occur(a, "点赞"@, b);
    parts_occur(a, "关注我"@, b);
    parts_occur(a, "投币"@, b);
    parts_occur(a, "转发"@, b);
    parts_occur(a, "订阅频道"@, b);
}

/// Emoji are the pictographs, the old symbols and dingbats and what varies them; letters are none.
pub proof fn emoji_are_pictures(c: char)
    ensures
        emoji(c) <==> (0x1F000 <= c as u32 <= 0x1FAFF) || (0x2600 <= c as u32 <= 0x27BF) || (0xFE00
            <= c as u32 <= 0xFE0F),
        c as u32 <= 0x7f ==> !emoji(c) && visible(c),
        0x4E00 <= c as u32 <= 0x9FFF ==> !emoji(c) && visible(c),
{
}

/// Words without links, topics and emoji stay as they are, with one space between each two.
pub proof fn clean_words_stay(s: Seq<char>)
    requires
        !any_mark(s),
        forall|i: int| 0 <= i < s.len() ==> visible(#[trigger] s[i]),
        forall|i: int|
            0 <= i < words_of(s).len() ==> !any_link(#[trigger] words_of(s)[i]),
        words_of(s).len() > 0,
    ensures
        sanitized(s) == joined(words_of(s), " "@),
{
    kept_all(s);
    let words = words_of(s);
    words_are_words(s, 0);
    assert forall|i: int| 0 <= i < words.len() implies !any_mark(#[trigger] words[i]) && words[i].len()
        > 0 by {
        assert(made_of(words_from(s, 0)[i], s));
        if any_mark(words[i]) {
            let j = choose|j: int| 0 <= j < words[i].len() && mark(#[trigger] words[i][j]);
            assert(s.contains(words[i][j]));
            let k = choose|k: int| 0 <= k < s.len() && s[k] == words[i][j];
            assert(mark(s[k]));
        }
    }
    words_are_kept(words, words.len() as int);
    assert(words.take(words.len() as int) =~= words);
}

proof fn kept_all(s: Seq<char>)
    requires
        forall|i: int| 0 <= i < s.len() ==> visible(#[trigger] s[i]),
    ensures
        plain(s) == s,
    decreases s.len(),
{
    reveal(Seq::filter);
    if s.len() > 0 {
        assert forall|i: int| 0 <= i < s.drop_last().len() implies visible(
            #[trigger] s.drop_last()[i],
        ) by {
            assert(s.drop_last()[i] == s[i]);
        }
        kept_all(s.drop_last());
        assert(visible(s[s.len() - 1]));
        assert(s.drop_last().push(s.last()) =~= s);
    } else {
        assert(plain(s) =~= s);
    }
}

proof fn words_are_kept(words: Seq<Seq<char>>, n: int)
    requires
        0 <= n <= words.len(),
        forall|i: int|
            0 <= i < words.len() ==> !any_mark(#[trigger] words[i]) && !any_link(words[i])
                && words[i].len() > 0,
    ensures
        kept_words(words, false, n) == words.take(n),
    decreases n,
{
    if n > 0 {
        words_are_kept(words, n - 1);
        let w = words[n - 1];
        nothing_to_cut(w, 0);
        assert(w.take(w.len() as int) =~= w);
        assert(words.take(n - 1).push(w) =~= words.take(n));
    } else {
        assert(words.take(0) =~= Seq::<Seq<char>>::empty());
    }
}

proof fn nothing_to_cut(w: Seq<char>, k: int)
    requires
        0 <= k <= w.len(),
        !any_mark(w),
        !any_link(w),
    ensures
        cut_from(w, k) == w.len(),
    decreases w.len() - k,
{
    if k < w.len() {
        assert(!mark(w[k]));
        assert(!link_at(w, k));
        nothing_to_cut(w, k + 1);
    }
}

/// A tag that is offered is added where it is new, not empty and there is room; the tags before it
/// stay. The first tag is the game's.
pub proof fn new_tags_are_added(raw: Seq<Seq<char>>, n: int)
    requires
        0 <= n < raw.len(),
    ensures
        ({
            let before = tags_after(raw, n);
            let after = tags_after(raw, n + 1);
            let tag = clean_tag(raw[n]);
            &&& before.len() < 4 && tag.len() > 0 && !before.contains(tag) ==> after == before.push(
                tag,
            )
            &&& before.len() >= 4 || tag.len() == 0 || before.contains(tag) ==> after == before
        }),
        tags_after(raw, 0) == seq!["荒野乱斗"@],
{
}

/// A tag keeps its words as far as there is room: without hash signs, commas and controls, with one
/// space between each two words, and at most twenty characters.
pub proof fn tags_keep_their_words(s: Seq<char>)
    ensures
        clean_tag(s).len() <= 20,
        s.len() > 0 && s.len() <= 20 && (forall|i: int|
            0 <= i < s.len() ==> !is_space(#[trigger] s[i]) && !is_control(s[i]) && s[i] != '#'
                && s[i] != '＃' && s[i] != ',' && s[i] != '，') ==> clean_tag(s) == s,
{
    if s.len() > 0 && s.len() <= 20 && (forall|i: int|
        0 <= i < s.len() ==> !is_space(#[trigger] s[i]) && !is_control(s[i]) && s[i] != '#' && s[i]
            != '＃' && s[i] != ',' && s[i] != '，') {
        tag_chars_stay(s);
        words_stand_between_spaces(s, ' ', s);
        joining_puts_one_separator_between(seq![s], s, " "@);
    }
}

proof fn tag_chars_stay(s: Seq<char>)
    requires
        forall|i: int| 0 <= i < s.len() ==> tag_char(#[trigger] s[i]),
    ensures
        s.filter(|c: char| tag_char(c)) == s,
    decreases s.len(),
{
    reveal(Seq::filter);
    let p = |c: char| tag_char(c);
    if s.len() > 0 {
        assert forall|i: int| 0 <= i < s.drop_last().len() implies tag_char(
            #[trigger] s.drop_last()[i],
        ) by {
            assert(s.drop_last()[i] == s[i]);
        }
        tag_chars_stay(s.drop_last());
        assert(tag_char(s[s.len() - 1]));
        assert(s.drop_last().push(s.last()) =~= s);
    } else {
        assert(s.filter(p) =~= s);
    }
}

/// A word is cut at its first topic or link, and keeps what stands before; where topics count as
/// words, it loses their signs alone and is cut at its first link.
pub proof fn words_are_cut_at_topics_and_links(w: Seq<char>)
    ensures
        exists|k: int|
            #![trigger w.take(k)]
            {
                &&& 0 <= k <= w.len()
                &&& without_topic(w) == w.take(k)
                &&& forall|j: int|
                    0 <= j < k ==> #[trigger] w[j] != '#' && w[j] != '＃' && !link_at(w, j)
                &&& k < w.len() ==> w[k] == '#' || w[k] == '＃' || link_at(w, k)
            },
        exists|k: int|
            #![trigger unmarked(w).take(k)]
            {
                &&& 0 <= k <= unmarked(w).len()
                &&& without_marks(w) == unmarked(w).take(k)
                &&& forall|j: int| 0 <= j < k ==> !(#[trigger] link_at(unmarked(w), j))
                &&& k < unmarked(w).len() ==> link_at(unmarked(w), k)
            },
        unmarked(w) == w.filter(|c: char| c != '#' && c != '＃'),
{
    cut_bounds(w, 0);
    first_cut(w, 0);
    link_bounds(unmarked(w), 0);
    first_link(unmarked(w), 0);
    assert(without_topic(w) == w.take(cut_from(w, 0)));
    assert(without_marks(w) == unmarked(w).take(link_from(unmarked(w), 0)));
    signs_alone_go(w);
}

proof fn first_cut(w: Seq<char>, k: int)
    requires
        0 <= k <= w.len(),
    ensures
        forall|j: int|
            k <= j < cut_from(w, k) ==> #[trigger] w[j] != '#' && w[j] != '＃' && !link_at(w, j),
        cut_from(w, k) < w.len() ==> mark(w[cut_from(w, k)]) || link_at(w, cut_from(w, k)),
    decreases w.len() - k,
{
    if k < w.len() && !mark(w[k]) && !link_at(w, k) {
        first_cut(w, k + 1);
    }
}

proof fn first_link(w: Seq<char>, k: int)
    requires
        0 <= k <= w.len(),
    ensures
        forall|j: int| k <= j < link_from(w, k) ==> !(#[trigger] link_at(w, j)),
        link_from(w, k) < w.len() ==> link_at(w, link_from(w, k)),
    decreases w.len() - k,
{
    if k < w.len() && !link_at(w, k) {
        first_link(w, k + 1);
    }
}

proof fn signs_alone_go(w: Seq<char>)
    ensures
        unmarked(w) == w.filter(|c: char| c != '#' && c != '＃'),
    decreases w.len(),
{
    reveal(Seq::filter);
    if w.len() > 0 {
        signs_alone_go(w.drop_last());
    }
}

/// A text that is one topic keeps its word: where nothing but topics would be left, their signs
/// alone go.
pub proof fn lone_topics_keep_their_word(s: Seq<char>, w: Seq<char>)
    requires
        s.len() > 0,
        s[0] == '#',
        w.len() > 0,
        s.filter(|c: char| c != '#' && c != '＃') == w,
        !any_link(w),
        s.filter(|c: char| visible(c)) == s,
        forall|i: int| 0 <= i < s.len() ==> !is_space(#[trigger] s[i]),
    ensures
        sanitized(s) == w,
{
    signs_alone_go(s);
    nothing_linked(w, 0);
    one_topic(s, w);
    topic_alone(s, w);
}

proof fn topic_alone(s: Seq<char>, w: Seq<char>)
    requires
        s.len() > 0,
        forall|i: int| 0 <= i < s.len() ==> !is_space(#[trigger] s[i]),
        plain(s) == s,
        kept_words(seq![s], false, 1).len() == 0,
        kept_words(seq![s], true, 1) == seq![w],
    ensures
        sanitized(s) == w,
{
    assert(words_of(s) == seq![s]) by {
        words_stand_between_spaces(s, ' ', Seq::empty());
    }
    assert(joined(seq![w], " "@) == w);
}

proof fn one_topic(s: Seq<char>, w: Seq<char>)
    requires
        s.len() > 0,
        s[0] == '#',
        w.len() > 0,
        unmarked(s) == w,
        link_from(w, 0) == w.len(),
    ensures
        kept_words(seq![s], false, 1).len() == 0,
        kept_words(seq![s], true, 1) == seq![w],
{
    let words = seq![s];
    assert(words[0] == s);
    assert(mark(s[0]));
    assert(cut_from(s, 0) == 0);
    assert(without_topic(s).len() == 0);
    assert(w.take(w.len() as int) =~= w);
    assert(without_marks(s) == w);
    assert(kept_words(words, false, 0) == Seq::<Seq<char>>::empty());
    assert(kept_words(words, true, 0) == Seq::<Seq<char>>::empty());
    assert(kept_words(words, true, 1) == Seq::<Seq<char>>::empty().push(w));
    assert(Seq::<Seq<char>>::empty().push(w) =~= seq![w]);
}

proof fn nothing_linked(w: Seq<char>, k: int)
    requires
        0 <= k <= w.len(),
        !any_link(w),
    ensures
        link_from(w, k) == w.len(),
    decreases w.len() - k,
{
    if k < w.len() {
        assert(!link_at(w, k));
        nothing_linked(w, k + 1);
    }
}

} // verus!
