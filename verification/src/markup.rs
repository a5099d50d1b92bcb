//! Screening the bytes of a feed before they are parsed.
use vstd::prelude::*;

use crate::text::chars_of;

verus! {

/// How many elements a feed may have that can stand inside their own kind, where it may have them at
/// all. YouTube puts one to a video, none inside another.
pub const MOST_NESTED: usize = 200;

/// The name under which a feed tells of media.
pub const MEDIA_NAME: &'static str = "http://search.yahoo.com/mrss/";

/// The name under which a feed tells of podcasts.
pub const PODCAST_NAME: &'static str = "http://www.itunes.com/dtds/podcast-1.0.dtd";

/// Whether a byte is blank in markup.
pub open spec fn is_gap(b: u8) -> bool {
    b == 0x20 || b == 0x09 || b == 0x0a || b == 0x0d
}

/// Whether a byte can change how the bytes after it are read, in some encoding.
pub open spec fn is_noise(b: u8) -> bool {
    b == 0x00 || b == 0x1b
}

/// Whether a byte is one of the two quotes.
pub open spec fn is_quote(b: u8) -> bool {
    b == 0x22 || b == 0x27
}

/// Whether an ASCII word stands at a place.
pub open spec fn word_at(b: Seq<u8>, i: int, word: Seq<char>) -> bool {
    &&& 0 <= i
    &&& i + word.len() <= b.len()
    &&& forall|k: int| 0 <= k < word.len() ==> (#[trigger] word[k]) as u32 == b[i + k] as u32
}

/// Where the blanks end that begin at a place.
pub open spec fn past_gap(b: Seq<u8>, i: int) -> int
    decreases b.len() - i,
{
    if 0 <= i < b.len() && is_gap(b[i]) {
        past_gap(b, i + 1)
    } else {
        i
    }
}

/// Whether an equals sign and a quote follow, with or without blanks.
pub open spec fn value_follows(b: Seq<u8>, i: int) -> bool {
    let sign = past_gap(b, i);
    let quote = past_gap(b, sign + 1);
    &&& 0 <= sign < b.len()
    &&& b[sign] == 0x3d
    &&& quote < b.len()
    &&& is_quote(b[quote])
}

/// Whether an attribute of that name begins at a place.
pub open spec fn attribute_at(b: Seq<u8>, i: int, name: Seq<char>) -> bool {
    &&& 0 < i < b.len()
    &&& is_gap(b[i - 1]) || is_quote(b[i - 1])
    &&& word_at(b, i, name)
    &&& value_follows(b, i + name.len())
}

/// Whether a place lies inside the name of an opening tag.
pub open spec fn inside_name(b: Seq<u8>, i: int) -> bool
    decreases i,
{
    &&& 0 < i < b.len()
    &&& if b[i - 1] == 0x3c {
        b[i] != 0x2f
    } else {
        !is_gap(b[i - 1]) && b[i - 1] != 0x3e && inside_name(b, i - 1)
    }
}

/// Whether an element can stand inside its own kind whose tag has its name around that place.
pub open spec fn nests_at(b: Seq<u8>, i: int) -> bool {
    inside_name(b, i) && (word_at(b, i, "content"@) || word_at(b, i, "category"@))
}

/// How many such elements begin before a place.
pub open spec fn nested(b: Seq<u8>, i: int) -> int
    decreases i,
{
    if i <= 0 {
        0
    } else {
        nested(b, i - 1) + if nests_at(b, i - 1) {
            1int
        } else {
            0
        }
    }
}

/// Whether nothing at a place is a time of play.
pub open spec fn calm_at(b: Seq<u8>, i: int) -> bool {
    &&& !attribute_at(b, i, "time"@)
    &&& !attribute_at(b, i, "start"@)
    &&& !attribute_at(b, i, "end"@)
    &&& !(inside_name(b, i) && word_at(b, i, "duration"@))
}

/// Whether bytes have no times of play, which may be numbers of any size, and few elements that can
/// stand inside their own kind.
pub open spec fn calm(b: Seq<u8>) -> bool {
    &&& forall|i: int| 0 <= i < b.len() ==> #[trigger] calm_at(b, i)
    &&& nested(b, b.len() as int) <= MOST_NESTED
}

/// Whether a name stands at a place between two quotes.
pub open spec fn quoted_at(b: Seq<u8>, i: int, name: Seq<char>) -> bool {
    &&& 0 < i
    &&& i + name.len() < b.len()
    &&& is_quote(b[i - 1])
    &&& b[i + name.len()] == b[i - 1]
    &&& word_at(b, i, name)
}

/// Whether a feed may tell of media or podcasts from a place on.
pub open spec fn tells_at(b: Seq<u8>, i: int) -> bool {
    quoted_at(b, i, MEDIA_NAME@) || quoted_at(b, i, PODCAST_NAME@)
}

/// Whether a feed tells neither of media nor of podcasts: only there are times of play, and elements
/// inside their own kind.
pub open spec fn quiet(b: Seq<u8>) -> bool {
    forall|i: int| 0 <= i < b.len() ==> !#[trigger] tells_at(b, i)
}

/// Whether bytes at a place say that they are not in UTF-8.
pub open spec fn strange_at(b: Seq<u8>, i: int) -> bool {
    &&& attribute_at(b, i, "encoding"@)
    &&& ({
        let value = past_gap(b, past_gap(b, i + "encoding"@.len()) + 1) + 1;
        !word_at(b, value, "UTF-8"@) && !word_at(b, value, "utf-8"@)
    })
}

/// Whether bytes may be in another encoding than UTF-8, by how they begin or by what they say.
pub open spec fn strange(b: Seq<u8>) -> bool {
    ||| b.len() > 0 && (b[0] == 0x00 || b[0] >= 0xfe)
    ||| b.len() > 1 && b[1] == 0x00
    ||| exists|i: int| 0 <= i < b.len() && #[trigger] strange_at(b, i)
}

/// Whether bytes may be in an encoding in which the same text can be spelled in several ways.
pub open spec fn noisy(b: Seq<u8>) -> bool {
    strange(b) && exists|i: int| 0 <= i < b.len() && #[trigger] is_noise(b[i])
}

/// Whether bytes can be parsed as a feed without harm.
pub open spec fn harmless(b: Seq<u8>) -> bool {
    !noisy(b) && (quiet(b) || calm(b))
}

/// The bytes of a feed that tells neither of media nor of podcasts any more, for their names are
/// spelled wrong. All else is left as it is.
pub open spec fn muted(b: Seq<u8>) -> Seq<u8> {
    Seq::new(
        b.len(),
        |i: int|
            if tells_at(b, i) {
                0x78u8
            } else {
                b[i]
            },
    )
}

proof fn told_at(b: Seq<u8>, i: int)
    requires
        tells_at(b, i),
    ensures
        0 <= i < b.len(),
        b[i] == 0x68,
{
    reveal_strlit("http://search.yahoo.com/mrss/");
    reveal_strlit("http://www.itunes.com/dtds/podcast-1.0.dtd");
    if quoted_at(b, i, MEDIA_NAME@) {
        assert(MEDIA_NAME@[0] as u32 == b[i + 0] as u32);
    } else {
        assert(PODCAST_NAME@[0] as u32 == b[i + 0] as u32);
    }
}

proof fn same_word(b: Seq<u8>, i: int, word: Seq<char>)
    requires
        forall|k: int|
            0 <= k < word.len() ==> (#[trigger] word[k]) as u32 != 0x68 && word[k] as u32 != 0x78,
    ensures
        word_at(muted(b), i, word) == word_at(b, i, word),
{
    let m = muted(b);
    assert forall|k: int|
        0 <= i && i + word.len() <= b.len() && 0 <= k < word.len() implies ((
    #[trigger] word[k]) as u32 == b[i + k] as u32) == (word[k] as u32 == m[i + k] as u32) by {
        if tells_at(b, i + k) {
            told_at(b, i + k);
        }
    }
    if word_at(b, i, word) {
        assert forall|k: int| 0 <= k < word.len() implies (#[trigger] word[k]) as u32 == m[i
            + k] as u32 by {
            assert(word[k] as u32 == b[i + k] as u32);
        }
    }
    if word_at(m, i, word) {
        assert forall|k: int| 0 <= k < word.len() implies (#[trigger] word[k]) as u32 == b[i
            + k] as u32 by {
            assert(word[k] as u32 == m[i + k] as u32);
        }
    }
}

proof fn same_gap(b: Seq<u8>, i: int)
    ensures
        past_gap(muted(b), i) == past_gap(b, i),
        0 <= i ==> i <= past_gap(b, i),
    decreases b.len() - i,
{
    if 0 <= i < b.len() {
        if tells_at(b, i) {
            told_at(b, i);
        }
        if is_gap(b[i]) {
            same_gap(b, i + 1);
        }
    }
}

proof fn name_has_no_x(b: Seq<u8>, i: int, name: Seq<char>)
    requires
        quoted_at(muted(b), i, name),
        forall|k: int| 0 <= k < name.len() ==> (#[trigger] name[k]) as u32 != 0x78,
    ensures
        quoted_at(b, i, name),
{
    let m = muted(b);
    assert forall|k: int| 0 <= k < name.len() implies (#[trigger] name[k]) as u32 == b[i
        + k] as u32 by {
        assert(name[k] as u32 == m[i + k] as u32);
        if tells_at(b, i + k) {
            assert(m[i + k] == 0x78);
        }
    }
    if tells_at(b, i - 1) {
        assert(m[i - 1] == 0x78);
    }
    if tells_at(b, i + name.len()) {
        assert(m[i + name.len()] == 0x78);
    }
}

/// A feed that was muted can be parsed without harm, but where its encoding stands in the way.
pub proof fn muted_is_harmless(b: Seq<u8>)
    ensures
        quiet(muted(b)),
        noisy(muted(b)) == noisy(b),
        harmless(muted(b)) == !noisy(b),
{
    let m = muted(b);
    reveal_strlit("http://search.yahoo.com/mrss/");
    reveal_strlit("http://www.itunes.com/dtds/podcast-1.0.dtd");
    reveal_strlit("encoding");
    reveal_strlit("UTF-8");
    reveal_strlit("utf-8");
    assert forall|i: int| 0 <= i < m.len() implies !#[trigger] tells_at(m, i) by {
        if tells_at(m, i) {
            told_at(m, i);
            if quoted_at(m, i, MEDIA_NAME@) {
                name_has_no_x(b, i, MEDIA_NAME@);
            } else {
                name_has_no_x(b, i, PODCAST_NAME@);
            }
            assert(m[i] == 0x78);
        }
    }
    assert forall|i: int| 0 <= i < b.len() implies {
        &&& is_noise(#[trigger] m[i]) == is_noise(b[i])
        &&& is_gap(m[i]) == is_gap(b[i])
        &&& is_quote(m[i]) == is_quote(b[i])
        &&& (m[i] == 0x3d) == (b[i] == 0x3d)
        &&& (m[i] >= 0xfe) == (b[i] >= 0xfe)
        &&& (m[i] == 0x00) == (b[i] == 0x00)
    } by {
        if tells_at(b, i) {
            told_at(b, i);
        }
    }
    assert forall|i: int| 0 <= i < b.len() implies #[trigger] strange_at(m, i) == strange_at(
        b,
        i,
    ) by {
        let n = i + "encoding"@.len();
        same_word(b, i, "encoding"@);
        same_gap(b, n);
        let sign = past_gap(b, n);
        same_gap(b, sign + 1);
        let value = past_gap(b, sign + 1) + 1;
        same_word(b, value, "UTF-8"@);
        same_word(b, value, "utf-8"@);
        if 0 < i {
            assert(is_gap(m[i - 1]) == is_gap(b[i - 1]));
        }
        if sign < b.len() {
            assert((m[sign] == 0x3d) == (b[sign] == 0x3d));
        }
        if value - 1 < b.len() {
            assert(is_quote(m[value - 1]) == is_quote(b[value - 1]));
        }
    }
    if strange(b) && exists|i: int| 0 <= i < b.len() && #[trigger] strange_at(b, i) {
        let i = choose|i: int| 0 <= i < b.len() && #[trigger] strange_at(b, i);
        assert(strange_at(m, i));
    }
    if exists|i: int| 0 <= i < b.len() && #[trigger] is_noise(b[i]) {
        let i = choose|i: int| 0 <= i < b.len() && #[trigger] is_noise(b[i]);
        assert(is_noise(m[i]));
    }
}

fn gap(b: u8) -> (r: bool)
    ensures
        r == is_gap(b),
{
    b == 0x20 || b == 0x09 || b == 0x0a || b == 0x0d
}

fn has_word(b: &[u8], i: usize, word: &Vec<char>) -> (r: bool)
    requires
        i <= b@.len(),
    ensures
        r == word_at(b@, i as int, word@),
{
    let len: usize = b.len();
    if word.len() > len - i {
        return false;
    }
    let mut k: usize = 0;
    while k < word.len()
        invariant
            0 <= k <= word@.len(),
            i + word@.len() <= len,
            len == b@.len(),
            forall|j: int| 0 <= j < k ==> (#[trigger] word@[j]) as u32 == b@[i + j] as u32,
        decreases word@.len() - k,
    {
        if word[k] as u32 != b[i + k] as u32 {
            return false;
        }
        k = k + 1;
    }
    true
}

fn skip_gap(b: &[u8], i: usize) -> (r: usize)
    requires
        i <= b@.len(),
    ensures
        r == past_gap(b@, i as int),
        i <= r <= b@.len(),
{
    let mut k: usize = i;
    while k < b.len() && gap(b[k])
        invariant
            i <= k <= b@.len(),
            past_gap(b@, i as int) == past_gap(b@, k as int),
        decreases b@.len() - k,
    {
        k = k + 1;
    }
    k
}

fn has_value(b: &[u8], i: usize) -> (r: bool)
    requires
        i <= b@.len(),
    ensures
        r == value_follows(b@, i as int),
{
    let sign: usize = skip_gap(b, i);
    if sign >= b.len() || b[sign] != 0x3d {
        return false;
    }
    let quote: usize = skip_gap(b, sign + 1);
    quote < b.len() && (b[quote] == 0x22 || b[quote] == 0x27)
}

fn has_attribute(b: &[u8], i: usize, name: &Vec<char>) -> (r: bool)
    requires
        i < b@.len(),
    ensures
        r == attribute_at(b@, i as int, name@),
{
    if i == 0 {
        return false;
    }
    let before: u8 = b[i - 1];
    (gap(before) || before == 0x22 || before == 0x27) && has_word(b, i, name) && has_value(
        b,
        i + name.len(),
    )
}

fn is_quoted(b: &[u8], i: usize, name: &Vec<char>) -> (r: bool)
    requires
        i < b@.len(),
    ensures
        r == quoted_at(b@, i as int, name@),
{
    let len: usize = b.len();
    if i == 0 || name.len() >= len - i {
        return false;
    }
    let before: u8 = b[i - 1];
    (before == 0x22 || before == 0x27) && b[i + name.len()] == before && has_word(b, i, name)
}

fn is_calm(b: &[u8]) -> (r: bool)
    ensures
        r == calm(b@),
{
    let time = chars_of("time");
    let start = chars_of("start");
    let end = chars_of("end");
    let duration = chars_of("duration");
    let content = chars_of("content");
    let category = chars_of("category");
    let mut naming = false;
    let mut count: usize = 0;
    let mut i: usize = 0;
    while i < b.len()
        invariant
            0 <= i <= b@.len(),
            time@ == "time"@,
            start@ == "start"@,
            end@ == "end"@,
            duration@ == "duration"@,
            content@ == "content"@,
            category@ == "category"@,
            0 < i < b@.len() ==> naming == (b@[i - 1] != 0x3c && !is_gap(b@[i - 1]) && b@[i - 1]
                != 0x3e && inside_name(b@, i - 1)),
            i == 0 ==> !naming,
            forall|j: int| 0 <= j < i ==> #[trigger] calm_at(b@, j),
            count == nested(b@, i as int),
            count <= i,
        decreases b@.len() - i,
    {
        let byte: u8 = b[i];
        let inside = if i > 0 && b[i - 1] == 0x3c {
            byte != 0x2f
        } else {
            naming
        };
        proof {
            assert(inside == inside_name(b@, i as int));
        }
        let harm = has_attribute(b, i, &time) || has_attribute(b, i, &start) || has_attribute(
            b,
            i,
            &end,
        ) || (inside && has_word(b, i, &duration));
        if harm {
            proof {
                assert(!calm_at(b@, i as int));
            }
            return false;
        }
        if inside && (has_word(b, i, &content) || has_word(b, i, &category)) {
            count = count + 1;
        }
        naming = inside && byte != 0x3c && byte != 0x3e && !gap(byte);
        i = i + 1;
    }
    count <= MOST_NESTED
}

fn is_quiet(b: &[u8]) -> (r: bool)
    ensures
        r == quiet(b@),
{
    let media = chars_of(MEDIA_NAME);
    let podcast = chars_of(PODCAST_NAME);
    let mut i: usize = 0;
    while i < b.len()
        invariant
            0 <= i <= b@.len(),
            media@ == MEDIA_NAME@,
            podcast@ == PODCAST_NAME@,
            forall|j: int| 0 <= j < i ==> !#[trigger] tells_at(b@, j),
        decreases b@.len() - i,
    {
        if is_quoted(b, i, &media) || is_quoted(b, i, &podcast) {
            proof {
                assert(tells_at(b@, i as int));
            }
            return false;
        }
        i = i + 1;
    }
    true
}

fn is_strange_at(b: &[u8], i: usize, encoding: &Vec<char>, upper: &Vec<char>, lower: &Vec<char>) -> (r:
    bool)
    requires
        i < b@.len(),
        encoding@ == "encoding"@,
        upper@ == "UTF-8"@,
        lower@ == "utf-8"@,
    ensures
        r == strange_at(b@, i as int),
{
    let len: usize = b.len();
    if !has_attribute(b, i, encoding) {
        return false;
    }
    assert(i + encoding@.len() <= len);
    let sign: usize = skip_gap(b, i + encoding.len());
    let value: usize = skip_gap(b, sign + 1) + 1;
    !has_word(b, value, upper) && !has_word(b, value, lower)
}

fn is_noisy(b: &[u8]) -> (r: bool)
    ensures
        r == noisy(b@),
{
    let encoding = chars_of("encoding");
    let upper = chars_of("UTF-8");
    let lower = chars_of("utf-8");
    let mut odd = (b.len() > 0 && (b[0] == 0x00 || b[0] >= 0xfe)) || (b.len() > 1 && b[1] == 0x00);
    let mut noise = false;
    let mut i: usize = 0;
    while i < b.len()
        invariant
            0 <= i <= b@.len(),
            encoding@ == "encoding"@,
            upper@ == "UTF-8"@,
            lower@ == "utf-8"@,
            odd == ((b@.len() > 0 && (b@[0] == 0x00 || b@[0] >= 0xfe)) || (b@.len() > 1 && b@[1]
                == 0x00) || exists|j: int| 0 <= j < i && #[trigger] strange_at(b@, j)),
            noise == (exists|j: int| 0 <= j < i && #[trigger] is_noise(b@[j])),
        decreases b@.len() - i,
    {
        let here = is_strange_at(b, i, &encoding, &upper, &lower);
        if here {
            proof {
                assert(strange_at(b@, i as int));
            }
            odd = true;
        }
        if b[i] == 0x00 || b[i] == 0x1b {
            proof {
                assert(is_noise(b@[i as int]));
            }
            noise = true;
        }
        i = i + 1;
    }
    odd && noise
}

/// Whether bytes can be parsed as a feed without harm.
pub fn is_harmless(b: &[u8]) -> (r: bool)
    ensures
        r == harmless(b@),
{
    !is_noisy(b) && (is_calm(b) || is_quiet(b))
}

/// The bytes of a feed that tells neither of media nor of podcasts any more.
pub fn mute(b: &[u8]) -> (r: Vec<u8>)
    ensures
        r@ == muted(b@),
{
    let media = chars_of(MEDIA_NAME);
    let podcast = chars_of(PODCAST_NAME);
    let mut out: Vec<u8> = Vec::new();
    let mut i: usize = 0;
    while i < b.len()
        invariant
            0 <= i <= b@.len(),
            media@ == MEDIA_NAME@,
            podcast@ == PODCAST_NAME@,
            out@.len() == i,
            forall|j: int| 0 <= j < i ==> #[trigger] out@[j] == muted(b@)[j],
        decreases b@.len() - i,
    {
        if is_quoted(b, i, &media) || is_quoted(b, i, &podcast) {
            out.push(0x78);
        } else {
            out.push(b[i]);
        }
        i = i + 1;
    }
    proof {
        assert(out@ =~= muted(b@));
    }
    out
}

} // verus!
