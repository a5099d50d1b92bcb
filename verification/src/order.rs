//! Selecting rows of a table in an order: by keys, and among equal keys by place.
use vstd::prelude::*;

use crate::text::{chars_of, opt_view};

verus! {

/// What a row is ordered by, the first number counting most.
pub type Key = (i64, i64, i64);

/// Whether a key is smaller than another.
pub open spec fn key_less(a: Key, b: Key) -> bool {
    a.0 < b.0 || (a.0 == b.0 && (a.1 < b.1 || (a.1 == b.1 && a.2 < b.2)))
}

/// Whether a key is smaller than another.
pub fn is_key_less(a: Key, b: Key) -> (r: bool)
    ensures
        r == key_less(a, b),
{
    a.0 < b.0 || (a.0 == b.0 && (a.1 < b.1 || (a.1 == b.1 && a.2 < b.2)))
}

fn is_before(a: Key, b: Option<Key>) -> (r: bool)
    ensures
        r == (b matches Some(x) && key_less(a, x)),
{
    match b {
        Some(x) => is_key_less(a, x),
        None => false,
    }
}

/// Whether the row at `i` comes before the one at `j`: its key is smaller, or equal and its place
/// is.
pub open spec fn comes_before(keys: Seq<Option<Key>>, i: int, j: int) -> bool {
    match (keys[i], keys[j]) {
        (Some(a), Some(b)) => key_less(a, b) || (a == b && i < j),
        _ => false,
    }
}

/// Whether `order` lists the places that have a key, each once, in the order of the keys.
pub open spec fn arranged(keys: Seq<Option<Key>>, order: Seq<int>) -> bool {
    &&& forall|i: int|
        0 <= i < order.len() ==> 0 <= (#[trigger] order[i]) < keys.len() && keys[order[i]] is Some
    &&& forall|k: int|
        0 <= k < keys.len() && (#[trigger] keys[k]) is Some ==> order.contains(k)
    &&& forall|i: int, j: int|
        0 <= i < j < order.len() ==> comes_before(keys, #[trigger] order[i], #[trigger] order[j])
}

/// The places as numbers without bound.
pub open spec fn places(v: Seq<usize>) -> Seq<int> {
    v.map_values(|k: usize| k as int)
}

/// Lists the places that have a key, in the order of the keys.
pub fn arrange(keys: &Vec<Option<Key>>) -> (r: Vec<usize>)
    ensures
        arranged(keys@, places(r@)),
        forall|i: int| 0 <= i < r@.len() ==> (#[trigger] r@[i]) < keys@.len(),
{
    let mut out: Vec<usize> = Vec::new();
    let mut n: usize = 0;
    while n < keys.len()
        invariant
            0 <= n <= keys@.len(),
            forall|i: int|
                0 <= i < out@.len() ==> (#[trigger] out@[i]) < n && keys@[out@[i] as int] is Some,
            forall|k: int|
                0 <= k < n && (#[trigger] keys@[k]) is Some ==> exists|i: int|
                    0 <= i < out@.len() && (#[trigger] out@[i]) == k,
            forall|i: int, j: int|
                0 <= i < j < out@.len() ==> comes_before(
                    keys@,
                    (#[trigger] out@[i]) as int,
                    (#[trigger] out@[j]) as int,
                ),
        decreases keys@.len() - n,
    {
        match keys[n] {
            None => {},
            Some(key) => {
                let mut at: usize = out.len();
                while at > 0 && is_before(key, keys[out[at - 1]])
                    invariant
                        n < keys@.len(),
                        keys@[n as int] == Some(key),
                        0 <= at <= out@.len(),
                        forall|i: int|
                            0 <= i < out@.len() ==> (#[trigger] out@[i]) < n && keys@[out@[i] as int]
                                is Some,
                        forall|i: int|
                            at <= i < out@.len() ==> comes_before(
                                keys@,
                                n as int,
                                (#[trigger] out@[i]) as int,
                            ),
                    decreases at,
                {
                    at = at - 1;
                }
                let ghost before = out@;
                proof {
                    assert forall|i: int| 0 <= i < at implies comes_before(
                        keys@,
                        (#[trigger] before[i]) as int,
                        n as int,
                    ) by {
                        let last = before[at - 1] as int;
                        assert(comes_before(keys@, last, n as int));
                        if i < at - 1 {
                            assert(comes_before(keys@, before[i] as int, last));
                        }
                    }
                }
                out.insert(at, n);
                proof {
                    assert forall|i: int, j: int| 0 <= i < j < out@.len() implies comes_before(
                        keys@,
                        (#[trigger] out@[i]) as int,
                        (#[trigger] out@[j]) as int,
                    ) by {
                        let a = if i < at { i } else { i - 1 };
                        let b = if j < at { j } else { j - 1 };
                        if i != at {
                            assert(out@[i] == before[a]);
                        }
                        if j != at {
                            assert(out@[j] == before[b]);
                        }
                    }
                    assert forall|i: int| 0 <= i < out@.len() implies (#[trigger] out@[i]) < n + 1
                        && keys@[out@[i] as int] is Some by {
                        if i < at {
                            assert(out@[i] == before[i]);
                        } else if i > at {
                            assert(out@[i] == before[i - 1]);
                        }
                    }
                    assert forall|k: int| 0 <= k < n + 1 && (#[trigger] keys@[k]) is Some implies exists|
                        i: int,
                    |
                        0 <= i < out@.len() && (#[trigger] out@[i]) == k by {
                        if k == n {
                            assert(out@[at as int] == n);
                        } else {
                            let i = choose|i: int| 0 <= i < before.len() && (#[trigger] before[i]) == k;
                            if i < at {
                                assert(out@[i] == before[i]);
                            } else {
                                assert(out@[i + 1] == before[i]);
                            }
                        }
                    }
                }
            },
        }
        n = n + 1;
    }
    proof {
        let p = places(out@);
        assert forall|i: int| 0 <= i < p.len() implies 0 <= (#[trigger] p[i]) < keys@.len()
            && keys@[p[i]] is Some by {
            assert(out@[i] < keys@.len());
        }
        assert forall|k: int| 0 <= k < keys@.len() && (#[trigger] keys@[k]) is Some implies p.contains(
            k,
        ) by {
            let i = choose|i: int| 0 <= i < out@.len() && (#[trigger] out@[i]) == k;
            assert(p[i] == k);
        }
        assert forall|i: int, j: int| 0 <= i < j < p.len() implies comes_before(
            keys@,
            #[trigger] p[i],
            #[trigger] p[j],
        ) by {
            assert(comes_before(keys@, out@[i] as int, out@[j] as int));
        }
    }
    out
}

/// There is only one such list.
pub proof fn arrangement_is_unique(keys: Seq<Option<Key>>, a: Seq<int>, b: Seq<int>)
    requires
        arranged(keys, a),
        arranged(keys, b),
    ensures
        a == b,
    decreases a.len() + b.len(),
{
    if a.len() > 0 && b.len() > 0 {
        assert(a[0] == b[0]) by {
            assert(b.contains(a[0])) by {
                assert(keys[a[0]] is Some);
            }
            assert(a.contains(b[0])) by {
                assert(keys[b[0]] is Some);
            }
            let i = choose|i: int| 0 <= i < b.len() && b[i] == a[0];
            let j = choose|j: int| 0 <= j < a.len() && a[j] == b[0];
            if i > 0 && j > 0 {
                assert(comes_before(keys, b[0], b[i]));
                assert(comes_before(keys, a[0], a[j]));
            }
        }
        arrangement_positions(keys, a, b, 0);
    } else if a.len() > 0 {
        assert(keys[a[0]] is Some);
        assert(b.contains(a[0]));
    } else if b.len() > 0 {
        assert(keys[b[0]] is Some);
        assert(a.contains(b[0]));
    } else {
        assert(a =~= b);
    }
}

proof fn arrangement_positions(keys: Seq<Option<Key>>, a: Seq<int>, b: Seq<int>, n: int)
    requires
        arranged(keys, a),
        arranged(keys, b),
        0 <= n <= a.len(),
        n <= b.len(),
        forall|i: int| 0 <= i < n ==> a[i] == b[i],
    ensures
        a == b,
    decreases a.len() - n,
{
    if n < a.len() {
        assert(keys[a[n]] is Some);
        assert(b.contains(a[n]));
        let i = choose|i: int| 0 <= i < b.len() && b[i] == a[n];
        if i < n {
            assert(a[i] == b[i]);
            assert(comes_before(keys, a[i], a[n]));
        }
        assert(n < b.len());
        assert(keys[b[n]] is Some);
        assert(a.contains(b[n]));
        let j = choose|j: int| 0 <= j < a.len() && a[j] == b[n];
        if j < n {
            assert(a[j] == b[j]);
            assert(comes_before(keys, b[j], b[n]));
        }
        if i > n && j > n {
            assert(comes_before(keys, b[n], b[i]));
            assert(comes_before(keys, a[n], a[j]));
        }
        assert(a[n] == b[n]);
        arrangement_positions(keys, a, b, n + 1);
    } else if n < b.len() {
        assert(keys[b[n]] is Some);
        assert(a.contains(b[n]));
        let j = choose|j: int| 0 <= j < a.len() && a[j] == b[n];
        assert(a[j] == b[j]);
        assert(comes_before(keys, b[j], b[n]));
    } else {
        assert(a =~= b);
    }
}

/// Whether the row at `k` comes before all others that have a key.
pub open spec fn is_least(keys: Seq<Option<Key>>, k: int) -> bool {
    &&& 0 <= k < keys.len()
    &&& keys[k] is Some
    &&& forall|j: int|
        0 <= j < keys.len() && j != k && (#[trigger] keys[j]) is Some ==> comes_before(keys, k, j)
}

/// The place that comes before all others.
pub open spec fn picked(keys: Seq<Option<Key>>) -> Option<int> {
    if exists|k: int| is_least(keys, k) {
        Some(choose|k: int| is_least(keys, k))
    } else {
        None
    }
}

/// A least place is the one that `picked` names.
pub proof fn picked_is(keys: Seq<Option<Key>>, k: int)
    requires
        is_least(keys, k),
    ensures
        picked(keys) == Some(k),
{
    let c = choose|c: int| is_least(keys, c);
    assert(is_least(keys, c));
    if c != k {
        assert(keys[c] is Some && keys[k] is Some);
        assert(comes_before(keys, k, c) && comes_before(keys, c, k));
    }
}

/// What a picked place means: it comes before all others, or none has a key.
pub proof fn picked_means(keys: Seq<Option<Key>>)
    ensures
        picked(keys) matches Some(k) ==> is_least(keys, k),
        picked(keys) is None ==> forall|k: int| 0 <= k < keys.len() ==> (#[trigger] keys[k]) is None,
{
    least_up_to(keys, keys.len() as int);
    assert(keys.take(keys.len() as int) =~= keys);
}

proof fn least_up_to(keys: Seq<Option<Key>>, n: int)
    requires
        0 <= n <= keys.len(),
    ensures
        (forall|k: int| 0 <= k < n ==> (#[trigger] keys[k]) is None) || (exists|k: int|
            #[trigger] is_least(keys.take(n), k)),
    decreases n,
{
    if n > 0 {
        least_up_to(keys, n - 1);
        let now = keys.take(n);
        let before = keys.take(n - 1);
        if keys[n - 1] is Some {
            if forall|k: int| 0 <= k < n - 1 ==> (#[trigger] keys[k]) is None {
                assert(is_least(now, n - 1));
            } else {
                let k = choose|k: int| is_least(before, k);
                if key_less(keys[n - 1]->0, keys[k]->0) {
                    assert forall|j: int|
                        0 <= j < now.len() && j != n - 1 && (#[trigger] now[j]) is Some implies comes_before(
                        now,
                        n - 1,
                        j,
                    ) by {
                        assert(before[j] is Some);
                        if j != k {
                            assert(comes_before(before, k, j));
                        }
                    }
                    assert(is_least(now, n - 1));
                } else {
                    assert forall|j: int|
                        0 <= j < now.len() && j != k && (#[trigger] now[j]) is Some implies comes_before(
                        now,
                        k,
                        j,
                    ) by {
                        if j < n - 1 {
                            assert(before[j] is Some);
                        }
                    }
                    assert(is_least(now, k));
                }
            }
        } else if exists|k: int| 0 <= k < n - 1 && (#[trigger] keys[k]) is Some {
            let k = choose|k: int| is_least(before, k);
            assert forall|j: int|
                0 <= j < now.len() && j != k && (#[trigger] now[j]) is Some implies comes_before(
                now,
                k,
                j,
            ) by {
                assert(before[j] is Some);
            }
            assert(is_least(now, k));
        }
    }
}

/// The place that comes before all others that have a key.
pub fn pick(keys: &Vec<Option<Key>>) -> (r: Option<usize>)
    ensures
        match r {
            Some(k) => k < keys@.len() && picked(keys@) == Some(k as int),
            None => picked(keys@) is None,
        },
{
    let order = arrange(keys);
    if order.len() == 0 {
        proof {
            assert forall|k: int| 0 <= k < keys@.len() implies (#[trigger] keys@[k]) is None by {
                if keys@[k] is Some {
                    assert(places(order@).contains(k));
                }
            }
        }
        None
    } else {
        proof {
            let k = order@[0] as int;
            let p = places(order@);
            assert(p[0] == k);
            assert forall|j: int|
                0 <= j < keys@.len() && j != k && (#[trigger] keys@[j]) is Some implies comes_before(
                keys@,
                k,
                j,
            ) by {
                assert(p.contains(j));
                let i = choose|i: int| 0 <= i < p.len() && p[i] == j;
                assert(comes_before(keys@, p[0], p[i]));
            }
            assert(is_least(keys@, k));
            picked_is(keys@, k);
        }
        Some(order[0])
    }
}

/// Whether a text comes before another by its characters.
pub open spec fn text_less(a: Seq<char>, b: Seq<char>) -> bool
    decreases a.len(),
{
    if b.len() == 0 {
        false
    } else if a.len() == 0 {
        true
    } else if a[0] != b[0] {
        a[0] < b[0]
    } else {
        text_less(a.skip(1), b.skip(1))
    }
}

/// Whether a text comes before another by its characters.
pub fn is_text_less(a: &str, b: &str) -> (r: bool)
    ensures
        r == text_less(a@, b@),
{
    let x = chars_of(a);
    let y = chars_of(b);
    let mut i: usize = 0;
    proof {
        assert(x@.skip(0) =~= a@ && y@.skip(0) =~= b@);
    }
    while i < x.len() && i < y.len() && x[i] == y[i]
        invariant
            0 <= i <= x@.len(),
            i <= y@.len(),
            text_less(x@.skip(i as int), y@.skip(i as int)) == text_less(a@, b@),
        decreases x@.len() - i,
    {
        proof {
            assert(x@.skip(i as int).skip(1) =~= x@.skip(i + 1));
            assert(y@.skip(i as int).skip(1) =~= y@.skip(i + 1));
        }
        i = i + 1;
    }
    if i >= y.len() {
        false
    } else if i >= x.len() {
        true
    } else {
        x[i] < y[i]
    }
}

/// One of two different texts comes before the other.
pub proof fn text_order_is_total(a: Seq<char>, b: Seq<char>)
    ensures
        a == b || text_less(a, b) || text_less(b, a),
        !(text_less(a, b) && text_less(b, a)),
        !text_less(a, a),
    decreases a.len(),
{
    if a.len() > 0 && b.len() > 0 {
        text_order_is_total(a.skip(1), b.skip(1));
        if a[0] == b[0] && a.skip(1) == b.skip(1) {
            assert(a =~= seq![a[0]] + a.skip(1));
            assert(b =~= seq![b[0]] + b.skip(1));
        }
    } else if a.len() == 0 && b.len() == 0 {
        assert(a =~= b);
    }
    if a.len() > 0 {
        text_order_is_total(a.skip(1), a.skip(1));
    }
}

/// A text before one that comes before a third comes before that.
pub proof fn text_order_is_transitive(a: Seq<char>, b: Seq<char>, c: Seq<char>)
    requires
        text_less(a, b),
        text_less(b, c),
    ensures
        text_less(a, c),
    decreases a.len(),
{
    if a.len() > 0 && a[0] == b[0] && b[0] == c[0] {
        text_order_is_transitive(a.skip(1), b.skip(1), c.skip(1));
    }
}

fn is_text_before(a: &String, b: &Option<String>) -> (r: bool)
    ensures
        r == (opt_view(*b) matches Some(x) && text_less(a@, x)),
{
    match b {
        Some(x) => is_text_less(a.as_str(), x.as_str()),
        None => false,
    }
}

/// Whether the row at `i` comes before the one at `j`: its text does, or is equal and its place is
/// before.
pub open spec fn text_before(keys: Seq<Option<Seq<char>>>, i: int, j: int) -> bool {
    match (keys[i], keys[j]) {
        (Some(a), Some(b)) => text_less(a, b) || (a == b && i < j),
        _ => false,
    }
}

/// Whether `order` lists the places that have a text, each once, in the order of the texts.
pub open spec fn text_arranged(keys: Seq<Option<Seq<char>>>, order: Seq<int>) -> bool {
    &&& forall|i: int|
        0 <= i < order.len() ==> 0 <= (#[trigger] order[i]) < keys.len() && keys[order[i]] is Some
    &&& forall|k: int|
        0 <= k < keys.len() && (#[trigger] keys[k]) is Some ==> order.contains(k)
    &&& forall|i: int, j: int|
        0 <= i < j < order.len() ==> text_before(keys, #[trigger] order[i], #[trigger] order[j])
}

/// The characters of optional texts.
pub open spec fn optional_views(v: Seq<Option<String>>) -> Seq<Option<Seq<char>>> {
    v.map_values(|t: Option<String>| opt_view(t))
}

/// Lists the places that have a text, in the order of the texts.
pub fn arrange_texts(texts: &Vec<Option<String>>) -> (r: Vec<usize>)
    ensures
        text_arranged(optional_views(texts@), places(r@)),
        forall|i: int| 0 <= i < r@.len() ==> (#[trigger] r@[i]) < texts@.len(),
{
    let ghost keys = optional_views(texts@);
    let mut out: Vec<usize> = Vec::new();
    let mut n: usize = 0;
    while n < texts.len()
        invariant
            keys == optional_views(texts@),
            0 <= n <= keys.len(),
            forall|i: int|
                0 <= i < out@.len() ==> (#[trigger] out@[i]) < n && keys[out@[i] as int] is Some,
            forall|k: int|
                0 <= k < n && (#[trigger] keys[k]) is Some ==> exists|i: int|
                    0 <= i < out@.len() && (#[trigger] out@[i]) == k,
            forall|i: int, j: int|
                0 <= i < j < out@.len() ==> text_before(
                    keys,
                    (#[trigger] out@[i]) as int,
                    (#[trigger] out@[j]) as int,
                ),
        decreases keys.len() - n,
    {
        match &texts[n] {
            None => {},
            Some(key) => {
                let mut at: usize = out.len();
                while at > 0 && is_text_before(key, &texts[out[at - 1]])
                    invariant
                        keys == optional_views(texts@),
                        n < keys.len(),
                        keys[n as int] == Some(key@),
                        0 <= at <= out@.len(),
                        forall|i: int|
                            0 <= i < out@.len() ==> (#[trigger] out@[i]) < n && keys[out@[i] as int]
                                is Some,
                        forall|i: int|
                            at <= i < out@.len() ==> text_before(
                                keys,
                                n as int,
                                (#[trigger] out@[i]) as int,
                            ),
                    decreases at,
                {
                    proof {
                        let last = out@[at - 1] as int;
                        assert(keys[last] == opt_view(texts@[last]));
                    }
                    at = at - 1;
                }
                let ghost before = out@;
                proof {
                    if at > 0 {
                        let last = before[at - 1] as int;
                        assert(keys[last] == opt_view(texts@[last]));
                        text_order_is_total(keys[last]->0, key@);
                    }
                    assert forall|i: int| 0 <= i < at implies text_before(
                        keys,
                        (#[trigger] before[i]) as int,
                        n as int,
                    ) by {
                        let last = before[at - 1] as int;
                        assert(text_before(keys, last, n as int));
                        if i < at - 1 {
                            assert(text_before(keys, before[i] as int, last));
                            if keys[before[i] as int]->0 != keys[last]->0 && keys[last]->0 != key@ {
                                text_order_is_transitive(
                                    keys[before[i] as int]->0,
                                    keys[last]->0,
                                    key@,
                                );
                            }
                        }
                    }
                }
                out.insert(at, n);
                proof {
                    assert forall|i: int, j: int| 0 <= i < j < out@.len() implies text_before(
                        keys,
                        (#[trigger] out@[i]) as int,
                        (#[trigger] out@[j]) as int,
                    ) by {
                        let a = if i < at { i } else { i - 1 };
                        let b = if j < at { j } else { j - 1 };
                        if i != at {
                            assert(out@[i] == before[a]);
                        }
                        if j != at {
                            assert(out@[j] == before[b]);
                        }
                    }
                    assert forall|i: int| 0 <= i < out@.len() implies (#[trigger] out@[i]) < n + 1
                        && keys[out@[i] as int] is Some by {
                        if i < at {
                            assert(out@[i] == before[i]);
                        } else if i > at {
                            assert(out@[i] == before[i - 1]);
                        }
                    }
                    assert forall|k: int| 0 <= k < n + 1 && (#[trigger] keys[k]) is Some implies exists|
                        i: int,
                    |
                        0 <= i < out@.len() && (#[trigger] out@[i]) == k by {
                        if k == n {
                            assert(out@[at as int] == n);
                        } else {
                            let i = choose|i: int| 0 <= i < before.len() && (#[trigger] before[i]) == k;
                            if i < at {
                                assert(out@[i] == before[i]);
                            } else {
                                assert(out@[i + 1] == before[i]);
                            }
                        }
                    }
                }
            },
        }
        n = n + 1;
    }
    proof {
        let p = places(out@);
        assert forall|i: int| 0 <= i < p.len() implies 0 <= (#[trigger] p[i]) < keys.len()
            && keys[p[i]] is Some by {
            assert(out@[i] < keys.len());
        }
        assert forall|k: int| 0 <= k < keys.len() && (#[trigger] keys[k]) is Some implies p.contains(
            k,
        ) by {
            let i = choose|i: int| 0 <= i < out@.len() && (#[trigger] out@[i]) == k;
            assert(p[i] == k);
        }
        assert forall|i: int, j: int| 0 <= i < j < p.len() implies text_before(
            keys,
            #[trigger] p[i],
            #[trigger] p[j],
        ) by {
            assert(text_before(keys, out@[i] as int, out@[j] as int));
        }
    }
    out
}

/// There is only one such list.
pub proof fn text_arrangement_is_unique(keys: Seq<Option<Seq<char>>>, a: Seq<int>, b: Seq<int>)
    requires
        text_arranged(keys, a),
        text_arranged(keys, b),
    ensures
        a == b,
    decreases a.len() + b.len(),
{
    if a.len() > 0 && b.len() > 0 {
        assert(a[0] == b[0]) by {
            assert(b.contains(a[0])) by {
                assert(keys[a[0]] is Some);
            }
            assert(a.contains(b[0])) by {
                assert(keys[b[0]] is Some);
            }
            let i = choose|i: int| 0 <= i < b.len() && b[i] == a[0];
            let j = choose|j: int| 0 <= j < a.len() && a[j] == b[0];
            if i > 0 && j > 0 {
                assert(text_before(keys, b[0], b[i]));
                assert(text_before(keys, a[0], a[j]));
                text_order_is_total(keys[a[0]]->0, keys[b[0]]->0);
            }
        }
        text_arrangement_positions(keys, a, b, 0);
    } else if a.len() > 0 {
        assert(keys[a[0]] is Some);
        assert(b.contains(a[0]));
    } else if b.len() > 0 {
        assert(keys[b[0]] is Some);
        assert(a.contains(b[0]));
    } else {
        assert(a =~= b);
    }
}

proof fn text_arrangement_positions(keys: Seq<Option<Seq<char>>>, a: Seq<int>, b: Seq<int>, n: int)
    requires
        text_arranged(keys, a),
        text_arranged(keys, b),
        0 <= n <= a.len(),
        n <= b.len(),
        forall|i: int| 0 <= i < n ==> a[i] == b[i],
    ensures
        a == b,
    decreases a.len() - n,
{
    if n < a.len() {
        assert(keys[a[n]] is Some);
        assert(b.contains(a[n]));
        let i = choose|i: int| 0 <= i < b.len() && b[i] == a[n];
        if i < n {
            assert(a[i] == b[i]);
            assert(text_before(keys, a[i], a[n]));
            text_order_is_total(keys[a[n]]->0, keys[a[n]]->0);
        }
        assert(n < b.len());
        assert(keys[b[n]] is Some);
        assert(a.contains(b[n]));
        let j = choose|j: int| 0 <= j < a.len() && a[j] == b[n];
        if j < n {
            assert(a[j] == b[j]);
            assert(text_before(keys, b[j], b[n]));
            text_order_is_total(keys[b[n]]->0, keys[b[n]]->0);
        }
        if i > n && j > n {
            assert(text_before(keys, b[n], b[i]));
            assert(text_before(keys, a[n], a[j]));
            text_order_is_total(keys[a[n]]->0, keys[b[n]]->0);
        }
        assert(a[n] == b[n]);
        text_arrangement_positions(keys, a, b, n + 1);
    } else if n < b.len() {
        assert(keys[b[n]] is Some);
        assert(a.contains(b[n]));
        let j = choose|j: int| 0 <= j < a.len() && a[j] == b[n];
        assert(a[j] == b[j]);
        assert(text_before(keys, b[j], b[n]));
        text_order_is_total(keys[b[n]]->0, keys[b[n]]->0);
    } else {
        assert(a =~= b);
    }
}

/// Keys go by their first part, then by their second, then by their third.
pub proof fn keys_go_part_by_part(a: Key, b: Key)
    ensures
        a.0 < b.0 ==> key_less(a, b) && !key_less(b, a),
        a.0 == b.0 && a.1 < b.1 ==> key_less(a, b) && !key_less(b, a),
        a.0 == b.0 && a.1 == b.1 ==> (key_less(a, b) <==> a.2 < b.2),
        a == b ==> !key_less(a, b),
{
}

/// An arrangement holds each place with a key once, no other, and goes by the keys; alike ones stay
/// as they were.
pub proof fn arrangements_go_by_the_keys(keys: Seq<Option<Key>>, order: Seq<int>, i: int, j: int)
    requires
        arranged(keys, order),
        0 <= i < j < order.len(),
    ensures
        order[i] != order[j],
        0 <= order[i] < keys.len(),
        keys[order[i]] is Some,
        keys[order[i]]->Some_0.0 <= keys[order[j]]->Some_0.0,
        keys[order[i]]->Some_0 == keys[order[j]]->Some_0 ==> order[i] < order[j],
        forall|k: int| 0 <= k < keys.len() && (#[trigger] keys[k]) is Some ==> order.contains(k),
{
    assert(comes_before(keys, order[i], order[j]));
}

/// Texts go by their first character that differs, and a text goes before one that it begins.
pub proof fn texts_go_by_the_first_difference(a: Seq<char>, b: Seq<char>, n: int)
    requires
        0 <= n <= a.len(),
        n <= b.len(),
        forall|i: int| 0 <= i < n ==> #[trigger] a[i] == b[i],
    ensures
        n < a.len() && n < b.len() && a[n] != b[n] ==> (text_less(a, b) <==> a[n] < b[n]),
        n == a.len() && n < b.len() ==> text_less(a, b),
        n == b.len() ==> !text_less(a, b),
    decreases n,
{
    if n > 0 {
        assert(a[0] == b[0]);
        assert forall|i: int| 0 <= i < n - 1 implies #[trigger] a.skip(1)[i] == b.skip(1)[i] by {
            assert(a[i + 1] == b[i + 1]);
        }
        texts_go_by_the_first_difference(a.skip(1), b.skip(1), n - 1);
    }
}

} // verus!
