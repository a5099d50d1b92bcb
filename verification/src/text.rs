//! Strings as sequences of characters.
use vstd::prelude::*;
use vstd::string::StringExecFns;

verus! {

/// `String::push` appends one character to the end of the string.
pub assume_specification[ String::push ](s: &mut String, c: char)
    ensures
        final(s)@ == old(s)@.push(c),
;

/// The characters of `s`, in order.
pub fn chars_of(s: &str) -> (r: Vec<char>)
    ensures
        r@ == s@,
{
    let mut out: Vec<char> = Vec::new();
    for c in it: s.chars()
        invariant
            it.seq() == s@,
            out@ == it.seq().take(it.index()),
    {
        out.push(c);
        proof {
            assert(out@ == it.seq().take(it.index() + 1));
        }
    }
    proof {
        assert(s@.take(s@.len() as int) == s@);
    }
    out
}

/// The string made of the characters `from..to` of `chars`.
pub fn string_of(chars: &Vec<char>, from: usize, to: usize) -> (r: String)
    requires
        from <= to <= chars@.len(),
    ensures
        r@ == chars@.subrange(from as int, to as int),
{
    let mut out = String::new();
    let mut i: usize = from;
    while i < to
        invariant
            from <= i <= to <= chars@.len(),
            out@ == chars@.subrange(from as int, i as int),
        decreases to - i,
    {
        out.push(chars[i]);
        i = i + 1;
        proof {
            assert(out@ == chars@.subrange(from as int, i as int));
        }
    }
    out
}

/// Whether two strings hold the same characters.
pub fn same_text(a: &str, b: &str) -> (r: bool)
    ensures
        r == (a@ == b@),
{
    a.to_owned() == b.to_owned()
}

/// Whether an optional string is present and holds the characters of `b`.
pub fn same_optional(a: &Option<String>, b: &str) -> (r: bool)
    ensures
        r == (a matches Some(x) && x@ == b@),
{
    match a {
        Some(x) => same_text(x.as_str(), b),
        None => false,
    }
}

/// The optional characters of an optional string.
pub open spec fn opt_view(s: Option<String>) -> Option<Seq<char>> {
    match s {
        Some(x) => Some(x@),
        None => None,
    }
}

/// A copy of an optional string.
pub fn copy_optional(s: &Option<String>) -> (r: Option<String>)
    ensures
        r == *s,
{
    match s {
        Some(x) => Some(x.clone()),
        None => None,
    }
}

/// An optional borrowed string as an owned one.
pub fn own_optional(s: Option<&str>) -> (r: Option<String>)
    ensures
        s is None ==> r is None,
        s matches Some(x) ==> (r matches Some(y) && y@ == x@),
{
    match s {
        Some(x) => Some(x.to_owned()),
        None => None,
    }
}

/// The white space characters of Unicode (the property `White_Space`).
pub open spec fn is_space(c: char) -> bool {
    ||| '\u{9}' <= c && c <= '\u{d}'
    ||| c == ' '
    ||| c == '\u{85}'
    ||| c == '\u{a0}'
    ||| c == '\u{1680}'
    ||| '\u{2000}' <= c && c <= '\u{200a}'
    ||| c == '\u{2028}'
    ||| c == '\u{2029}'
    ||| c == '\u{202f}'
    ||| c == '\u{205f}'
    ||| c == '\u{3000}'
}

/// Whether `c` is white space.
pub fn space(c: char) -> (r: bool)
    ensures
        r == is_space(c),
{
    ('\u{9}' <= c && c <= '\u{d}') || c == ' ' || c == '\u{85}' || c == '\u{a0}' || c == '\u{1680}'
        || ('\u{2000}' <= c && c <= '\u{200a}') || c == '\u{2028}' || c == '\u{2029}' || c
        == '\u{202f}' || c == '\u{205f}' || c == '\u{3000}'
}

/// The control characters of Unicode (general category `Cc`).
pub open spec fn is_control(c: char) -> bool {
    c <= '\u{1f}' || ('\u{7f}' <= c && c <= '\u{9f}')
}

/// Whether `c` is a control character.
pub fn control(c: char) -> (r: bool)
    ensures
        r == is_control(c),
{
    c <= '\u{1f}' || ('\u{7f}' <= c && c <= '\u{9f}')
}

/// The ASCII letters and digits.
pub open spec fn is_ascii_word(c: char) -> bool {
    ||| '0' <= c && c <= '9'
    ||| 'A' <= c && c <= 'Z'
    ||| 'a' <= c && c <= 'z'
}

/// Whether `c` is an ASCII letter or digit.
pub fn ascii_word(c: char) -> (r: bool)
    ensures
        r == is_ascii_word(c),
{
    ('0' <= c && c <= '9') || ('A' <= c && c <= 'Z') || ('a' <= c && c <= 'z')
}

/// Whether `c` counts as a letter or a number (`char::is_alphanumeric`).
pub uninterp spec fn letter_or_number(c: char) -> bool;

/// `char::is_alphanumeric` depends on the character alone; which characters it accepts is
/// left to Unicode's tables.
pub assume_specification[ char::is_alphanumeric ](c: char) -> (r: bool)
    ensures
        r == letter_or_number(c),
;

/// An ASCII letter in lower case; any other character unchanged.
pub open spec fn ascii_lower(c: char) -> char {
    if 'A' <= c && c <= 'Z' {
        ((c as u32 + 32) as u32) as char
    } else {
        c
    }
}

/// `c` with an ASCII capital replaced by its small letter.
pub fn lower(c: char) -> (r: char)
    ensures
        r == ascii_lower(c),
{
    if 'A' <= c && c <= 'Z' {
        let code: u8 = c as u8;
        (code + 32) as char
    } else {
        c
    }
}

/// `s` in ASCII lower case.
pub open spec fn lowered(s: Seq<char>) -> Seq<char> {
    s.map_values(|c: char| ascii_lower(c))
}

/// Whether two strings are equal but for the case of ASCII letters.
pub fn same_ignoring_case(a: &str, b: &str) -> (r: bool)
    ensures
        r == (lowered(a@) == lowered(b@)),
{
    let x = chars_of(a);
    let y = chars_of(b);
    if x.len() != y.len() {
        proof {
            assert(lowered(a@).len() != lowered(b@).len());
        }
        return false;
    }
    let mut i: usize = 0;
    while i < x.len()
        invariant
            x@ == a@,
            y@ == b@,
            x@.len() == y@.len(),
            0 <= i <= x@.len(),
            forall|j: int| 0 <= j < i ==> ascii_lower(a@[j]) == ascii_lower(b@[j]),
        decreases x@.len() - i,
    {
        if lower(x[i]) != lower(y[i]) {
            proof {
                assert(lowered(a@)[i as int] != lowered(b@)[i as int]);
            }
            return false;
        }
        i = i + 1;
    }
    proof {
        assert(lowered(a@) =~= lowered(b@));
    }
    true
}

/// `s` without the white space at its start.
pub open spec fn trim_front(s: Seq<char>) -> Seq<char>
    decreases s.len(),
{
    if s.len() > 0 && is_space(s[0]) {
        trim_front(s.subrange(1, s.len() as int))
    } else {
        s
    }
}

/// `s` without the white space at its end.
pub open spec fn trim_back(s: Seq<char>) -> Seq<char>
    decreases s.len(),
{
    if s.len() > 0 && is_space(s[s.len() - 1]) {
        trim_back(s.subrange(0, s.len() - 1))
    } else {
        s
    }
}

/// `s` without the white space at both ends.
pub open spec fn trimmed(s: Seq<char>) -> Seq<char> {
    trim_back(trim_front(s))
}

/// Where the text of `chars[from..to]` starts and ends without the white space around it.
pub fn trim_bounds(chars: &Vec<char>, from: usize, to: usize) -> (r: (usize, usize))
    requires
        from <= to <= chars@.len(),
    ensures
        from <= r.0 <= r.1 <= to,
        chars@.subrange(r.0 as int, r.1 as int) == trimmed(chars@.subrange(from as int, to as int)),
{
    let mut a: usize = from;
    while a < to && space(chars[a])
        invariant
            from <= a <= to <= chars@.len(),
            trim_front(chars@.subrange(a as int, to as int)) == trim_front(
                chars@.subrange(from as int, to as int),
            ),
        decreases to - a,
    {
        proof {
            let s = chars@.subrange(a as int, to as int);
            assert(s.subrange(1, s.len() as int) == chars@.subrange(a + 1, to as int));
        }
        a = a + 1;
    }
    let mut b: usize = to;
    proof {
        let s = chars@.subrange(a as int, to as int);
        assert(trim_front(s) == s);
    }
    while a < b && space(chars[b - 1])
        invariant
            from <= a <= b <= to <= chars@.len(),
            trim_back(chars@.subrange(a as int, b as int)) == trimmed(
                chars@.subrange(from as int, to as int),
            ),
        decreases b - a,
    {
        proof {
            let s = chars@.subrange(a as int, b as int);
            assert(s.subrange(0, s.len() - 1) == chars@.subrange(a as int, b - 1));
        }
        b = b - 1;
    }
    (a, b)
}

/// `s` without the white space at both ends.
pub fn trim(s: &str) -> (r: String)
    ensures
        r@ == trimmed(s@),
{
    let chars = chars_of(s);
    let (a, b) = trim_bounds(&chars, 0, chars.len());
    proof {
        assert(chars@.subrange(0, chars@.len() as int) == s@);
    }
    string_of(&chars, a, b)
}

/// Whether nothing but white space stands in `s`.
pub open spec fn is_blank(s: Seq<char>) -> bool {
    trimmed(s).len() == 0
}

/// Whether nothing but white space stands in `s`.
pub fn blank(s: &str) -> (r: bool)
    ensures
        r == is_blank(s@),
{
    let t = trim(s);
    t.as_str().is_empty()
}

/// Whether `p` stands in `s` at position `i`.
pub open spec fn occurs_at(s: Seq<char>, p: Seq<char>, i: int) -> bool {
    0 <= i && i + p.len() <= s.len() && s.subrange(i, i + p.len()) == p
}

/// Whether `p` stands somewhere in `s`.
pub open spec fn occurs_in(s: Seq<char>, p: Seq<char>) -> bool {
    exists|i: int| occurs_at(s, p, i)
}

/// Whether `s` starts with `p`.
pub open spec fn starts(s: Seq<char>, p: Seq<char>) -> bool {
    occurs_at(s, p, 0)
}

/// Whether `p` stands in `s` at position `i`.
pub fn found_at(s: &Vec<char>, p: &Vec<char>, i: usize) -> (r: bool)
    ensures
        r == occurs_at(s@, p@, i as int),
{
    if p.len() > s.len() || i > s.len() - p.len() {
        return false;
    }
    let n: usize = s.len();
    let mut k: usize = 0;
    while k < p.len()
        invariant
            n == s@.len(),
            i + p@.len() <= n,
            0 <= k <= p@.len(),
            forall|j: int| 0 <= j < k ==> s@[i + j] == p@[j],
        decreases p@.len() - k,
    {
        if s[i + k] != p[k] {
            proof {
                assert(s@.subrange(i as int, i + p@.len())[k as int] != p@[k as int]);
            }
            return false;
        }
        k = k + 1;
    }
    proof {
        assert(s@.subrange(i as int, i + p@.len()) =~= p@);
    }
    true
}

/// Whether `p` stands somewhere in `s`.
pub fn contains_text(s: &str, p: &str) -> (r: bool)
    ensures
        r == occurs_in(s@, p@),
{
    let a = chars_of(s);
    let b = chars_of(p);
    let mut i: usize = 0;
    while i < a.len()
        invariant
            a@ == s@,
            b@ == p@,
            0 <= i <= a@.len(),
            forall|j: int| 0 <= j < i ==> !occurs_at(s@, p@, j),
        decreases a@.len() - i,
    {
        if found_at(&a, &b, i) {
            return true;
        }
        i = i + 1;
    }
    let last = found_at(&a, &b, i);
    proof {
        if !last {
            assert forall|j: int| !occurs_at(s@, p@, j) by {
                if 0 <= j < i {
                } else if j == i {
                } else {
                }
            }
        }
    }
    last
}

/// Whether `s` starts with `p`.
pub fn starts_with(s: &str, p: &str) -> (r: bool)
    ensures
        r == starts(s@, p@),
{
    let a = chars_of(s);
    let b = chars_of(p);
    found_at(&a, &b, 0)
}

/// The decimal digit `d`.
pub open spec fn digit(d: nat) -> char {
    if d == 0 {
        '0'
    } else if d == 1 {
        '1'
    } else if d == 2 {
        '2'
    } else if d == 3 {
        '3'
    } else if d == 4 {
        '4'
    } else if d == 5 {
        '5'
    } else if d == 6 {
        '6'
    } else if d == 7 {
        '7'
    } else if d == 8 {
        '8'
    } else {
        '9'
    }
}

/// `n` in decimal, without leading zeros.
pub open spec fn decimal_of(n: nat) -> Seq<char>
    decreases n,
{
    if n < 10 {
        seq![digit(n)]
    } else {
        decimal_of(n / 10).push(digit(n % 10))
    }
}

/// `n` in decimal, with a minus sign where it is negative.
pub open spec fn signed_decimal_of(n: int) -> Seq<char> {
    if n < 0 {
        seq!['-'] + decimal_of((-n) as nat)
    } else {
        decimal_of(n as nat)
    }
}

fn digit_char(d: u64) -> (r: char)
    requires
        d < 10,
    ensures
        r == digit(d as nat),
{
    match d {
        0 => '0',
        1 => '1',
        2 => '2',
        3 => '3',
        4 => '4',
        5 => '5',
        6 => '6',
        7 => '7',
        8 => '8',
        _ => '9',
    }
}

/// `n` in decimal.
pub fn decimal(n: u64) -> (r: String)
    ensures
        r@ == decimal_of(n as nat),
    decreases n,
{
    if n < 10 {
        let mut s = String::new();
        s.push(digit_char(n));
        proof {
            assert(s@ =~= seq![digit(n as nat)]);
        }
        s
    } else {
        let mut s = decimal(n / 10);
        s.push(digit_char(n % 10));
        s
    }
}

/// `n` in decimal, with a minus sign where it is negative.
pub fn signed_decimal(n: i64) -> (r: String)
    ensures
        r@ == signed_decimal_of(n as int),
{
    if n < 0 {
        let mut s = String::new();
        s.push('-');
        let low: i64 = n + 1;
        let magnitude: u64 = (-low) as u64 + 1;
        let d = decimal(magnitude);
        s.append(d.as_str());
        proof {
            assert(s@ =~= seq!['-'] + decimal_of((-(n as int)) as nat));
        }
        s
    } else {
        decimal(n as u64)
    }
}

/// The two texts one after the other.
pub fn join(a: &str, b: &str) -> (r: String)
    ensures
        r@ == a@ + b@,
{
    let mut s = a.to_owned();
    s.append(b);
    s
}

/// The first place from `k` on where `c` stands in `s`; the length where it does not.
pub open spec fn first_from(s: Seq<char>, c: char, k: int) -> int
    decreases s.len() - k,
{
    if k >= s.len() {
        s.len() as int
    } else if s[k] == c {
        k
    } else {
        first_from(s, c, k + 1)
    }
}

/// `s` without one carriage return at its end.
pub open spec fn without_return(s: Seq<char>) -> Seq<char> {
    if s.len() > 0 && s.last() == '\r' {
        s.drop_last()
    } else {
        s
    }
}

/// The lines of `s` from place `k` on, without their ends. Lines end with a line feed, with or
/// without a carriage return before it; the last may end with the text.
pub open spec fn lines_from(s: Seq<char>, k: int) -> Seq<Seq<char>>
    decreases s.len() - k,
{
    if k >= s.len() || k < 0 {
        Seq::empty()
    } else {
        let end = first_from(s, '\n', k);
        if end >= s.len() || end < k {
            seq![s.subrange(k, s.len() as int)]
        } else {
            seq![without_return(s.subrange(k, end))] + lines_from(s, end + 1)
        }
    }
}

/// The lines of `s`.
pub open spec fn lines_of(s: Seq<char>) -> Seq<Seq<char>> {
    lines_from(s, 0)
}

pub proof fn first_from_bounds(s: Seq<char>, c: char, k: int)
    requires
        0 <= k <= s.len(),
    ensures
        k <= first_from(s, c, k) <= s.len(),
        first_from(s, c, k) < s.len() ==> s[first_from(s, c, k)] == c,
        forall|j: int| k <= j < first_from(s, c, k) ==> s[j] != c,
    decreases s.len() - k,
{
    if k < s.len() && s[k] != c {
        first_from_bounds(s, c, k + 1);
    }
}

/// The first place from `k` on where `c` stands.
pub fn find_from(chars: &Vec<char>, c: char, k: usize) -> (r: usize)
    requires
        k <= chars@.len(),
    ensures
        r == first_from(chars@, c, k as int),
        k <= r <= chars@.len(),
{
    let mut i: usize = k;
    while i < chars.len() && chars[i] != c
        invariant
            k <= i <= chars@.len(),
            first_from(chars@, c, k as int) == first_from(chars@, c, i as int),
        decreases chars@.len() - i,
    {
        i = i + 1;
    }
    i
}

/// The views of strings.
pub open spec fn views(v: Seq<String>) -> Seq<Seq<char>> {
    v.map_values(|s: String| s@)
}

/// The lines of a text.
pub fn split_lines(text: &str) -> (r: Vec<String>)
    ensures
        views(r@) == lines_of(text@),
{
    let chars = chars_of(text);
    let n: usize = chars.len();
    let mut out: Vec<String> = Vec::new();
    let mut k: usize = 0;
    proof {
        assert(views(out@) + lines_from(text@, 0) =~= lines_of(text@));
    }
    while k < n
        invariant
            chars@ == text@,
            n == chars@.len(),
            0 <= k <= n,
            views(out@) + lines_from(text@, k as int) == lines_of(text@),
        decreases n - k,
    {
        let end: usize = find_from(&chars, '\n', k);
        let ghost before = views(out@);
        if end >= n {
            let line = string_of(&chars, k, n);
            out.push(line);
            proof {
                assert(views(out@) =~= before.push(text@.subrange(k as int, n as int)));
                assert(views(out@) =~= lines_of(text@));
            }
            return out;
        }
        let mut stop: usize = end;
        if end > k && chars[end - 1] == '\r' {
            stop = end - 1;
        }
        let line = string_of(&chars, k, stop);
        proof {
            assert(line@ =~= without_return(text@.subrange(k as int, end as int)));
        }
        out.push(line);
        proof {
            assert(views(out@) =~= before.push(without_return(text@.subrange(k as int, end as int))));
            assert(views(out@) + lines_from(text@, end + 1) =~= before + lines_from(
                text@,
                k as int,
            ));
        }
        k = end + 1;
    }
    proof {
        assert(views(out@) + lines_from(text@, k as int) =~= views(out@));
    }
    out
}

/// `s` without every `p` at its start.
pub open spec fn strip_front(s: Seq<char>, p: Seq<char>) -> Seq<char>
    decreases s.len(),
{
    if p.len() > 0 && starts(s, p) {
        strip_front(s.subrange(p.len() as int, s.len() as int), p)
    } else {
        s
    }
}

/// `s` without every `p` at its end.
pub open spec fn strip_back(s: Seq<char>, p: Seq<char>) -> Seq<char>
    decreases s.len(),
{
    if p.len() > 0 && occurs_at(s, p, s.len() - p.len()) {
        strip_back(s.subrange(0, s.len() - p.len()), p)
    } else {
        s
    }
}

/// Where `chars[from..to]` starts without the `p`s at its start.
pub fn skip_front(chars: &Vec<char>, from: usize, to: usize, p: &Vec<char>) -> (r: usize)
    requires
        from <= to <= chars@.len(),
    ensures
        from <= r <= to,
        chars@.subrange(r as int, to as int) == strip_front(
            chars@.subrange(from as int, to as int),
            p@,
        ),
{
    let mut a: usize = from;
    while p.len() > 0 && p.len() <= to - a && found_at(chars, p, a)
        invariant
            from <= a <= to <= chars@.len(),
            strip_front(chars@.subrange(a as int, to as int), p@) == strip_front(
                chars@.subrange(from as int, to as int),
                p@,
            ),
        decreases to - a,
    {
        proof {
            let s = chars@.subrange(a as int, to as int);
            assert(s.subrange(0, p@.len() as int) =~= chars@.subrange(a as int, a + p@.len()));
            assert(s.subrange(p@.len() as int, s.len() as int) =~= chars@.subrange(
                a + p@.len(),
                to as int,
            ));
        }
        a = a + p.len();
    }
    proof {
        let s = chars@.subrange(a as int, to as int);
        if p@.len() > 0 && starts(s, p@) {
            assert(s.subrange(0, p@.len() as int) =~= chars@.subrange(a as int, a + p@.len()));
        }
    }
    a
}

/// Where `chars[from..to]` ends without the `p`s at its end.
pub fn skip_back(chars: &Vec<char>, from: usize, to: usize, p: &Vec<char>) -> (r: usize)
    requires
        from <= to <= chars@.len(),
    ensures
        from <= r <= to,
        chars@.subrange(from as int, r as int) == strip_back(
            chars@.subrange(from as int, to as int),
            p@,
        ),
{
    let mut b: usize = to;
    while p.len() > 0 && p.len() <= b - from && found_at(chars, p, b - p.len())
        invariant
            from <= b <= to <= chars@.len(),
            strip_back(chars@.subrange(from as int, b as int), p@) == strip_back(
                chars@.subrange(from as int, to as int),
                p@,
            ),
        decreases b - from,
    {
        proof {
            let s = chars@.subrange(from as int, b as int);
            assert(s.subrange(s.len() - p@.len(), s.len() as int) =~= chars@.subrange(
                b - p@.len(),
                b as int,
            ));
            assert(s.subrange(0, s.len() - p@.len()) =~= chars@.subrange(
                from as int,
                b - p@.len(),
            ));
        }
        b = b - p.len();
    }
    proof {
        let s = chars@.subrange(from as int, b as int);
        if p@.len() > 0 && occurs_at(s, p@, s.len() - p@.len()) {
            assert(s.subrange(s.len() - p@.len(), s.len() as int) =~= chars@.subrange(
                b - p@.len(),
                b as int,
            ));
        }
    }
    b
}

/// The first place from `k` on that is no white space.
pub open spec fn skip_spaces(s: Seq<char>, k: int) -> int
    decreases s.len() - k,
{
    if k >= s.len() || !is_space(s[k]) {
        k
    } else {
        skip_spaces(s, k + 1)
    }
}

/// The first place from `k` on that is white space, or the end.
pub open spec fn word_end(s: Seq<char>, k: int) -> int
    decreases s.len() - k,
{
    if k >= s.len() || is_space(s[k]) {
        k
    } else {
        word_end(s, k + 1)
    }
}

/// The words of `s` from place `k` on: the longest stretches without white space.
pub open spec fn words_from(s: Seq<char>, k: int) -> Seq<Seq<char>>
    decreases s.len() - k,
    via words_from_decreases
{
    if k < 0 || k >= s.len() {
        Seq::empty()
    } else {
        let a = skip_spaces(s, k);
        if a >= s.len() {
            Seq::empty()
        } else {
            seq![s.subrange(a, word_end(s, a))] + words_from(s, word_end(s, a))
        }
    }
}

#[via_fn]
proof fn words_from_decreases(s: Seq<char>, k: int) {
    if 0 <= k < s.len() {
        skip_spaces_bounds(s, k);
        let a = skip_spaces(s, k);
        if a < s.len() {
            word_end_bounds(s, a);
        }
    }
}

/// The words of `s`.
pub open spec fn words_of(s: Seq<char>) -> Seq<Seq<char>> {
    words_from(s, 0)
}

proof fn skip_spaces_bounds(s: Seq<char>, k: int)
    requires
        0 <= k <= s.len(),
    ensures
        k <= skip_spaces(s, k) <= s.len(),
        skip_spaces(s, k) < s.len() ==> !is_space(s[skip_spaces(s, k)]),
    decreases s.len() - k,
{
    if k < s.len() && is_space(s[k]) {
        skip_spaces_bounds(s, k + 1);
    }
}

proof fn word_end_bounds(s: Seq<char>, k: int)
    requires
        0 <= k <= s.len(),
    ensures
        k <= word_end(s, k) <= s.len(),
        k < s.len() && !is_space(s[k]) ==> k < word_end(s, k),
        forall|j: int| k <= j < word_end(s, k) ==> !is_space(s[j]),
    decreases s.len() - k,
{
    if k < s.len() && !is_space(s[k]) {
        word_end_bounds(s, k + 1);
    }
}

/// Whether no character of `w` is white space.
pub open spec fn no_space(w: Seq<char>) -> bool {
    forall|j: int| 0 <= j < w.len() ==> !is_space(#[trigger] w[j])
}

/// Whether each character of `w` stands in `s`.
pub open spec fn made_of(w: Seq<char>, s: Seq<char>) -> bool {
    forall|j: int| 0 <= j < w.len() ==> s.contains(#[trigger] w[j])
}

/// Words hold no white space and only characters of their text.
pub proof fn words_are_words(s: Seq<char>, k: int)
    ensures
        forall|i: int|
            0 <= i < words_from(s, k).len() ==> no_space(#[trigger] words_from(s, k)[i])
                && made_of(words_from(s, k)[i], s) && words_from(s, k)[i].len() > 0,
    decreases s.len() - k,
{
    if 0 <= k < s.len() {
        skip_spaces_bounds(s, k);
        let a = skip_spaces(s, k);
        if a < s.len() {
            word_end_bounds(s, a);
            let b = word_end(s, a);
            words_are_words(s, b);
            let rest = words_from(s, b);
            assert forall|i: int| 0 <= i < words_from(s, k).len() implies no_space(
                #[trigger] words_from(s, k)[i],
            ) && made_of(words_from(s, k)[i], s) && words_from(s, k)[i].len() > 0 by {
                if i == 0 {
                    let w = s.subrange(a, b);
                    assert(words_from(s, k)[0] == w);
                    assert forall|j: int| 0 <= j < w.len() implies s.contains(#[trigger] w[j]) by {
                        assert(w[j] == s[a + j]);
                    }
                } else {
                    assert(words_from(s, k)[i] == rest[i - 1]);
                }
            }
        }
    }
}

/// The words of a text.
pub fn split_words(text: &str) -> (r: Vec<String>)
    ensures
        views(r@) == words_of(text@),
{
    let chars = chars_of(text);
    let n: usize = chars.len();
    let mut out: Vec<String> = Vec::new();
    let mut k: usize = 0;
    proof {
        assert(views(out@) + words_from(text@, 0) =~= words_of(text@));
    }
    while k < n
        invariant
            chars@ == text@,
            n == chars@.len(),
            0 <= k <= n,
            views(out@) + words_from(text@, k as int) == words_of(text@),
        decreases n - k,
    {
        let mut a: usize = k;
        while a < n && space(chars[a])
            invariant
                chars@ == text@,
                n == chars@.len(),
                k <= a <= n,
                skip_spaces(text@, k as int) == skip_spaces(text@, a as int),
            decreases n - a,
        {
            a = a + 1;
        }
        if a >= n {
            proof {
                assert(words_from(text@, k as int) =~= Seq::empty());
                assert(views(out@) =~= words_of(text@));
            }
            return out;
        }
        let mut b: usize = a;
        while b < n && !space(chars[b])
            invariant
                chars@ == text@,
                n == chars@.len(),
                a <= b <= n,
                word_end(text@, a as int) == word_end(text@, b as int),
            decreases n - b,
        {
            b = b + 1;
        }
        let ghost before = views(out@);
        out.push(string_of(&chars, a, b));
        proof {
            word_end_bounds(text@, a as int);
            assert(views(out@) =~= before.push(text@.subrange(a as int, b as int)));
            assert(views(out@) + words_from(text@, b as int) =~= before + words_from(
                text@,
                k as int,
            ));
        }
        k = b;
    }
    proof {
        assert(views(out@) + words_from(text@, k as int) =~= views(out@));
    }
    out
}

/// The texts one after the other with `sep` between them.
pub open spec fn joined(parts: Seq<Seq<char>>, sep: Seq<char>) -> Seq<char>
    decreases parts.len(),
{
    if parts.len() == 0 {
        Seq::empty()
    } else if parts.len() == 1 {
        parts[0]
    } else {
        joined(parts.drop_last(), sep) + sep + parts.last()
    }
}

/// The texts one after the other with `sep` between them.
pub fn join_all(parts: &Vec<String>, sep: &str) -> (r: String)
    ensures
        r@ == joined(views(parts@), sep@),
{
    let mut out = String::new();
    let mut i: usize = 0;
    proof {
        assert(views(parts@).take(0) =~= Seq::empty());
    }
    while i < parts.len()
        invariant
            0 <= i <= parts@.len(),
            out@ == joined(views(parts@).take(i as int), sep@),
        decreases parts@.len() - i,
    {
        proof {
            assert(views(parts@).take(i + 1).drop_last() =~= views(parts@).take(i as int));
            assert(views(parts@).take(i + 1).last() == parts@[i as int]@);
        }
        if i > 0 {
            out.append(sep);
        }
        out.append(parts[i].as_str());
        i = i + 1;
        proof {
            assert(out@ =~= joined(views(parts@).take(i as int), sep@));
        }
    }
    proof {
        assert(views(parts@).take(i as int) =~= views(parts@));
    }
    out
}

/// The words of `s` with one space between them.
pub open spec fn squeezed(s: Seq<char>) -> Seq<char> {
    joined(words_of(s), " "@)
}

/// The words of a text with one space between them.
pub fn squeeze(text: &str) -> (r: String)
    ensures
        r@ == squeezed(text@),
{
    let words = split_words(text);
    join_all(&words, " ")
}

/// Whether a text holds nothing that its quoted form escapes: only blanks and graphic characters of
/// ASCII, and neither quotation marks nor backslashes.
pub open spec fn plain_text(s: Seq<char>) -> bool {
    forall|i: int|
        0 <= i < s.len() ==> ' ' <= (#[trigger] s[i]) && s[i] <= '~' && s[i] != '"' && s[i] != '\\'
}

/// A text as it is quoted for diagnosis (`str`'s `Debug`).
pub uninterp spec fn debug_text(s: Seq<char>) -> Seq<char>;

/// `format!` with `{:?}`, `str`'s `Debug`: a text between quotation marks, with escapes inside. It
/// depends on the text alone, and a plain text stands there as it is. What is escaped otherwise is
/// left to the standard library.
#[verifier::external_body]
pub(crate) fn debug_form(s: &str) -> (r: String)
    ensures
        r@ == debug_text(s@),
        r@ == seq!['"'] + s@ + seq!['"'] || !plain_text(s@),
{
    format!("{:?}", s)
}

// ---------------------------------------------------------------------------------------------
// What the parts of a text are
// ---------------------------------------------------------------------------------------------

/// Trimming takes the spaces in front and behind and nothing else: what is left neither starts nor
/// ends with one.
pub proof fn trimming_takes_the_outer_spaces(s: Seq<char>)
    ensures
        exists|a: int, b: int|
            #![trigger s.subrange(a, b)]
            {
                &&& 0 <= a <= b <= s.len()
                &&& trimmed(s) == s.subrange(a, b)
                &&& forall|i: int| 0 <= i < a ==> is_space(#[trigger] s[i])
                &&& forall|i: int| b <= i < s.len() ==> is_space(#[trigger] s[i])
                &&& a < b ==> !is_space(s[a]) && !is_space(s[b - 1])
            },
{
    let a = front_spaces(s);
    let t = trim_front(s);
    let b = a + back_end(t);
    assert(s.subrange(a, b) =~= t.subrange(0, b - a));
    assert forall|i: int| b <= i < s.len() implies is_space(#[trigger] s[i]) by {
        assert(t[i - a] == s[i]);
    }
    if a < b {
        assert(t[0] == s[a]);
        assert(t[b - a - 1] == s[b - 1]);
    }
}

proof fn front_spaces(s: Seq<char>) -> (a: int)
    ensures
        0 <= a <= s.len(),
        trim_front(s) == s.subrange(a, s.len() as int),
        forall|i: int| 0 <= i < a ==> is_space(#[trigger] s[i]),
        a < s.len() ==> !is_space(s[a]),
    decreases s.len(),
{
    if s.len() > 0 && is_space(s[0]) {
        let rest = s.subrange(1, s.len() as int);
        let a = front_spaces(rest);
        assert(rest.subrange(a, rest.len() as int) =~= s.subrange(a + 1, s.len() as int));
        assert forall|i: int| 0 <= i < a + 1 implies is_space(#[trigger] s[i]) by {
            if i > 0 {
                assert(rest[i - 1] == s[i]);
            }
        }
        a + 1
    } else {
        assert(s.subrange(0, s.len() as int) =~= s);
        0
    }
}

proof fn back_end(s: Seq<char>) -> (b: int)
    ensures
        0 <= b <= s.len(),
        trim_back(s) == s.subrange(0, b),
        forall|i: int| b <= i < s.len() ==> is_space(#[trigger] s[i]),
        b > 0 ==> !is_space(s[b - 1]),
    decreases s.len(),
{
    if s.len() > 0 && is_space(s[s.len() - 1]) {
        let rest = s.subrange(0, s.len() - 1);
        let b = back_end(rest);
        assert(rest.subrange(0, b) =~= s.subrange(0, b));
        assert forall|i: int| b <= i < s.len() implies is_space(#[trigger] s[i]) by {
            if i < s.len() - 1 {
                assert(rest[i] == s[i]);
            }
        }
        b
    } else {
        assert(s.subrange(0, s.len() as int) =~= s);
        s.len() as int
    }
}

/// A text that neither starts nor ends with a space is what is left of it between any spaces.
pub proof fn trimming_keeps_the_inside(front: Seq<char>, s: Seq<char>, back: Seq<char>)
    requires
        forall|i: int| 0 <= i < front.len() ==> is_space(#[trigger] front[i]),
        forall|i: int| 0 <= i < back.len() ==> is_space(#[trigger] back[i]),
        s.len() > 0 ==> !is_space(s[0]) && !is_space(s.last()),
    ensures
        trimmed(front + s + back) == s,
{
    let all = front + s + back;
    trimming_takes_the_outer_spaces(all);
    let (a, b) = choose|a: int, b: int|
        #![trigger all.subrange(a, b)]
        {
            &&& 0 <= a <= b <= all.len()
            &&& trimmed(all) == all.subrange(a, b)
            &&& forall|i: int| 0 <= i < a ==> is_space(#[trigger] all[i])
            &&& forall|i: int| b <= i < all.len() ==> is_space(#[trigger] all[i])
            &&& a < b ==> !is_space(all[a]) && !is_space(all[b - 1])
        };
    let f = front.len() as int;
    let e = f + s.len();
    if s.len() > 0 {
        assert(all[f] == s[0]);
        assert(all[e - 1] == s.last());
        assert(a <= f);
        assert(b >= e);
        if a < f {
            assert(all[a] == front[a]);
        }
        if b > e {
            assert(all[b - 1] == back[b - 1 - e]);
        }
        assert(all.subrange(a, b) =~= s);
    } else {
        if a < b {
            if a < f {
                assert(all[a] == front[a]);
            } else {
                assert(all[a] == back[a - f]);
            }
        }
        assert(all.subrange(a, b) =~= s);
    }
}

/// Parts are joined with the separator between each two and nowhere else.
pub proof fn joining_puts_one_separator_between(parts: Seq<Seq<char>>, part: Seq<char>, sep: Seq<char>)
    ensures
        joined(Seq::<Seq<char>>::empty(), sep).len() == 0,
        joined(seq![part], sep) == part,
        parts.len() > 0 ==> joined(parts.push(part), sep) == joined(parts, sep) + sep + part,
{
    if parts.len() > 0 {
        assert(parts.push(part).drop_last() =~= parts);
    }
}

/// A line ends at its line feed, which does not belong to it, nor does a return before it.
pub proof fn lines_end_at_line_feeds(line: Seq<char>, rest: Seq<char>)
    requires
        forall|i: int| 0 <= i < line.len() ==> #[trigger] line[i] != '\n',
    ensures
        line.len() == 0 ==> lines_of(line).len() == 0,
        line.len() > 0 ==> lines_of(line) == seq![line],
        lines_of(line.push('\n') + rest) == seq![without_return(line)] + lines_of(rest),
        line.len() > 0 && line.last() != '\r' ==> without_return(line) == line,
        without_return(line.push('\r')) == line,
{
    no_line_feed(line, 0);
    assert(line.push('\r').drop_last() =~= line);
    if line.len() > 0 {
        assert(line.subrange(0, line.len() as int) =~= line);
        assert(lines_from(line, 0) =~= seq![line]);
    }
    let all = line.push('\n') + rest;
    let n = line.len() as int;
    first_is(all, '\n', 0, n);
    assert(all.subrange(0, n) =~= line);
    lines_shift(all, n + 1, 0);
    assert(all.skip(n + 1) =~= rest);
}

proof fn no_line_feed(s: Seq<char>, k: int)
    requires
        0 <= k <= s.len(),
        forall|i: int| 0 <= i < s.len() ==> #[trigger] s[i] != '\n',
    ensures
        first_from(s, '\n', k) == s.len(),
    decreases s.len() - k,
{
    if k < s.len() {
        no_line_feed(s, k + 1);
    }
}

proof fn first_is(s: Seq<char>, c: char, k: int, n: int)
    requires
        0 <= k <= n < s.len(),
        s[n] == c,
        forall|i: int| k <= i < n ==> #[trigger] s[i] != c,
    ensures
        first_from(s, c, k) == n,
    decreases n - k,
{
    if k < n {
        first_is(s, c, k + 1, n);
    }
}

proof fn first_shift(s: Seq<char>, c: char, d: int, k: int)
    requires
        0 <= d <= s.len(),
        0 <= k <= s.len() - d,
    ensures
        first_from(s, c, d + k) == d + first_from(s.skip(d), c, k),
    decreases s.len() - d - k,
{
    if k < s.len() - d {
        assert(s.skip(d)[k] == s[d + k]);
        first_shift(s, c, d, k + 1);
    }
}

proof fn lines_shift(s: Seq<char>, d: int, k: int)
    requires
        0 <= d <= s.len(),
        0 <= k,
    ensures
        lines_from(s, d + k) == lines_from(s.skip(d), k),
    decreases s.len() - d - k,
{
    if k < s.len() - d {
        let t = s.skip(d);
        first_shift(s, '\n', d, k);
        first_from_bounds(t, '\n', k);
        let end = first_from(t, '\n', k);
        if end >= t.len() {
            assert(t.subrange(k, t.len() as int) =~= s.subrange(d + k, s.len() as int));
        } else {
            assert(t.subrange(k, end) =~= s.subrange(d + k, d + end));
            lines_shift(s, d, end + 1);
        }
    }
}

/// What is stripped off is stripped as often as it stands there, and nothing else is.
pub proof fn stripping_takes_all_of_them(s: Seq<char>, p: Seq<char>)
    requires
        p.len() > 0,
    ensures
        strip_front(p + s, p) == strip_front(s, p),
        strip_back(s + p, p) == strip_back(s, p),
        !(s.len() >= p.len() && s.take(p.len() as int) == p) ==> strip_front(s, p) == s,
        !(s.len() >= p.len() && s.skip(s.len() - p.len()) == p) ==> strip_back(s, p) == s,
{
    let n = p.len() as int;
    assert((p + s).subrange(0, n) =~= p);
    assert((p + s).subrange(n, (p + s).len() as int) =~= s);
    assert((s + p).subrange(s.len() as int, s.len() + n) =~= p);
    assert((s + p).subrange(0, s.len() as int) =~= s);
    if s.len() >= n {
        assert(s.subrange(0, n) =~= s.take(n));
        assert(s.subrange(s.len() - n, s.len() as int) =~= s.skip(s.len() - n));
    }
}

/// Letters of ASCII become small ones, and nothing else changes.
pub proof fn lowering_changes_capitals_alone(s: Seq<char>, i: int)
    requires
        0 <= i < s.len(),
    ensures
        lowered(s).len() == s.len(),
        !('A' <= s[i] && s[i] <= 'Z') ==> lowered(s)[i] == s[i],
        'A' <= s[i] && s[i] <= 'Z' ==> lowered(s)[i] as int == s[i] as int + 32,
{
}

/// A text occurs in another where it stands between two others, and starts it where nothing stands
/// before it.
pub proof fn parts_occur(a: Seq<char>, p: Seq<char>, b: Seq<char>)
    ensures
        occurs_in(a + p + b, p),
        starts(p + b, p),
        occurs_in(b, p) ==> b.len() >= p.len(),
        starts(b, p) ==> b.len() >= p.len() && b.take(p.len() as int) == p,
{
    assert((a + p + b).subrange(a.len() as int, a.len() as int + p.len()) =~= p);
    assert(occurs_at(a + p + b, p, a.len() as int));
    assert((p + b).subrange(0, p.len() as int) =~= p);
    if starts(b, p) {
        assert(b.subrange(0, p.len() as int) =~= b.take(p.len() as int));
    }
}

/// The words of a text are what stands between its spaces, in their order.
pub proof fn words_stand_between_spaces(w: Seq<char>, gap: char, rest: Seq<char>)
    requires
        w.len() > 0,
        forall|i: int| 0 <= i < w.len() ==> !is_space(#[trigger] w[i]),
        is_space(gap),
    ensures
        words_of(w) == seq![w],
        words_of(w.push(gap) + rest) == seq![w] + words_of(rest),
        words_of(seq![gap] + rest) == words_of(rest),
        words_of(Seq::<char>::empty()).len() == 0,
{
    word_ends(w, 0);
    let n = w.len() as int;
    assert(skip_spaces(w, 0) == 0);
    assert(w.subrange(0, n) =~= w);
    assert(words_from(w, n).len() == 0);
    assert(words_from(w, 0) =~= seq![w]);
    let all = w.push(gap) + rest;
    assert(all[0] == w[0]);
    assert(skip_spaces(all, 0) == 0);
    word_ends_at(all, 0, n);
    assert(all.subrange(0, n) =~= w);
    words_after_space(all, n);
    words_shift(all, n + 1, 0);
    assert(all.skip(n + 1) =~= rest);
    assert(words_from(all, 0) == seq![w] + words_from(all, n));
    let spaced = seq![gap] + rest;
    words_after_space(spaced, 0);
    words_shift(spaced, 1, 0);
    assert(spaced.skip(1) =~= rest);
}

proof fn word_ends(s: Seq<char>, k: int)
    requires
        0 <= k <= s.len(),
        forall|i: int| 0 <= i < s.len() ==> !is_space(#[trigger] s[i]),
    ensures
        word_end(s, k) == s.len(),
    decreases s.len() - k,
{
    if k < s.len() {
        word_ends(s, k + 1);
    }
}

proof fn word_ends_at(s: Seq<char>, k: int, n: int)
    requires
        0 <= k <= n < s.len(),
        is_space(s[n]),
        forall|i: int| k <= i < n ==> !is_space(#[trigger] s[i]),
    ensures
        word_end(s, k) == n,
    decreases n - k,
{
    if k < n {
        word_ends_at(s, k + 1, n);
    }
}

proof fn words_after_space(s: Seq<char>, k: int)
    requires
        0 <= k < s.len(),
        is_space(s[k]),
    ensures
        words_from(s, k) == words_from(s, k + 1),
{
    assert(skip_spaces(s, k) == skip_spaces(s, k + 1));
    skip_spaces_bounds(s, k + 1);
}

proof fn spaces_shift(s: Seq<char>, d: int, k: int)
    requires
        0 <= d <= s.len(),
        0 <= k <= s.len() - d,
    ensures
        skip_spaces(s, d + k) == d + skip_spaces(s.skip(d), k),
        word_end(s, d + k) == d + word_end(s.skip(d), k),
    decreases s.len() - d - k,
{
    if k < s.len() - d {
        assert(s.skip(d)[k] == s[d + k]);
        spaces_shift(s, d, k + 1);
    }
}

proof fn words_shift(s: Seq<char>, d: int, k: int)
    requires
        0 <= d <= s.len(),
        0 <= k,
    ensures
        words_from(s, d + k) == words_from(s.skip(d), k),
    decreases s.len() - d - k,
{
    if k < s.len() - d {
        let t = s.skip(d);
        spaces_shift(s, d, k);
        skip_spaces_bounds(t, k);
        let a = skip_spaces(t, k);
        if a < t.len() {
            spaces_shift(s, d, a);
            word_end_bounds(t, a);
            let e = word_end(t, a);
            assert(t.subrange(a, e) =~= s.subrange(d + a, d + e));
            words_shift(s, d, e);
        }
    }
}

/// A number is written with its digits from the highest to the lowest, without zeros in front.
pub proof fn numbers_are_written_digit_by_digit(n: nat)
    ensures
        n < 10 ==> decimal_of(n).len() == 1 && decimal_of(n)[0] as int == 48 + n,
        n >= 10 ==> decimal_of(n) == decimal_of(n / 10) + decimal_of(n % 10),
        n > 0 ==> decimal_of(n)[0] != '0',
        signed_decimal_of(n as int) == decimal_of(n),
        n > 0 ==> signed_decimal_of(-(n as int)) == seq!['-'] + decimal_of(n),
    decreases n,
{
    if n >= 10 {
        numbers_are_written_digit_by_digit(n / 10);
        assert(decimal_of(n % 10) =~= seq![digit(n % 10)]);
        assert(decimal_of(n) =~= decimal_of(n / 10) + decimal_of(n % 10));
        assert(decimal_of(n)[0] == decimal_of(n / 10)[0]);
    }
}

} // verus!
