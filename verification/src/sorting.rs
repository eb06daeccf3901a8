//! The order of strings by their characters, and the stable sorting of a
//! list by string keys.

use crate::text::chars_of;
use vstd::prelude::*;

verus! {

/// Whether `a` comes before `b`, or is `b`, in the order of strings: at the
/// first place where they differ the smaller character decides, and a
/// string comes before every longer one that begins with it.
pub open spec fn text_le(a: Seq<char>, b: Seq<char>) -> bool
    decreases a.len(),
{
    if a.len() == 0 {
        true
    } else if b.len() == 0 {
        false
    } else if a[0] != b[0] {
        (a[0] as int) < (b[0] as int)
    } else {
        text_le(a.drop_first(), b.drop_first())
    }
}

/// The positions `sorted` with `x` put behind the last position whose key
/// does not come after the key of `x`.
pub open spec fn insert_ordered(sorted: Seq<int>, keys: Seq<Seq<char>>, x: int) -> Seq<int>
    decreases sorted.len(),
{
    if sorted.len() == 0 {
        seq![x]
    } else if text_le(keys[sorted.last()], keys[x]) {
        sorted.push(x)
    } else {
        insert_ordered(sorted.drop_last(), keys, x).push(sorted.last())
    }
}

/// The first `n` positions of `keys`, sorted by their keys; positions with
/// equal keys stay in their order.
pub open spec fn stable_order(keys: Seq<Seq<char>>, n: int) -> Seq<int>
    decreases n,
{
    if n <= 0 {
        Seq::empty()
    } else {
        insert_ordered(stable_order(keys, n - 1), keys, n - 1)
    }
}

/// The positions of `v` as integers.
pub open spec fn positions(v: Seq<usize>) -> Seq<int> {
    Seq::new(v.len(), |i: int| v[i] as int)
}

/// Putting `x` into a list is putting it at the place `at`, where every
/// position from `at` on has a key that comes after the key of `x` and the
/// position before `at`, if there is one, has not.
proof fn lemma_insert_at(sorted: Seq<int>, keys: Seq<Seq<char>>, x: int, at: int)
    requires
        0 <= at <= sorted.len(),
        forall|j: int| at <= j < sorted.len() ==> !text_le(keys[#[trigger] sorted[j]], keys[x]),
        at > 0 ==> text_le(keys[sorted[at - 1]], keys[x]),
    ensures
        insert_ordered(sorted, keys, x) == sorted.insert(at, x),
    decreases sorted.len() - at,
{
    if at == sorted.len() {
        assert(sorted.insert(at, x) =~= sorted.push(x));
        if sorted.len() == 0 {
            assert(sorted.push(x) =~= seq![x]);
        }
    } else {
        let rest = sorted.drop_last();
        assert(!text_le(keys[sorted[sorted.len() - 1]], keys[x]));
        lemma_insert_at(rest, keys, x, at);
        assert(rest.insert(at, x).push(sorted.last()) =~= sorted.insert(at, x));
    }
}

/// Every string comes before or is itself.
pub proof fn lemma_text_le_reflexive(a: Seq<char>)
    ensures
        text_le(a, a),
    decreases a.len(),
{
    if a.len() > 0 {
        lemma_text_le_reflexive(a.drop_first());
    }
}

/// Of two strings one comes before the other, or they are the same.
pub proof fn lemma_text_le_total(a: Seq<char>, b: Seq<char>)
    ensures
        text_le(a, b) || text_le(b, a),
    decreases a.len(),
{
    if a.len() > 0 && b.len() > 0 {
        if a[0] == b[0] {
            lemma_text_le_total(a.drop_first(), b.drop_first());
        }
    }
}

/// What comes before a string comes before everything behind that string.
pub proof fn lemma_text_le_transitive(a: Seq<char>, b: Seq<char>, c: Seq<char>)
    requires
        text_le(a, b),
        text_le(b, c),
    ensures
        text_le(a, c),
    decreases a.len(),
{
    if a.len() > 0 && b.len() > 0 && c.len() > 0 && a[0] == b[0] && b[0] == c[0] {
        lemma_text_le_transitive(a.drop_first(), b.drop_first(), c.drop_first());
    }
}

/// Whether positions stand in the order of their keys, and positions with
/// the same key in their own order.
pub open spec fn is_stably_sorted(order: Seq<int>, keys: Seq<Seq<char>>) -> bool {
    forall|i: int, j: int|
        0 <= i < j < order.len() ==> text_le(keys[#[trigger] order[i]], keys[#[trigger] order[j]])
            && (order[i] < order[j] || !text_le(keys[order[j]], keys[order[i]]))
}

proof fn lemma_insert_place(sorted: Seq<int>, keys: Seq<Seq<char>>, x: int) -> (at: int)
    requires
        is_stably_sorted(sorted, keys),
    ensures
        0 <= at <= sorted.len(),
        insert_ordered(sorted, keys, x) == sorted.insert(at, x),
        forall|j: int| at <= j < sorted.len() ==> !text_le(keys[#[trigger] sorted[j]], keys[x]),
        forall|j: int| 0 <= j < at ==> text_le(keys[#[trigger] sorted[j]], keys[x]),
    decreases sorted.len(),
{
    if sorted.len() == 0 {
        assert(sorted.insert(0, x) =~= seq![x]);
        0
    } else if text_le(keys[sorted.last()], keys[x]) {
        let n = sorted.len() as int;
        assert(sorted.insert(n, x) =~= sorted.push(x));
        assert forall|j: int| 0 <= j < n implies text_le(keys[#[trigger] sorted[j]], keys[x]) by {
            if j < n - 1 {
                assert(text_le(keys[sorted[j]], keys[sorted[n - 1]]));
                lemma_text_le_transitive(keys[sorted[j]], keys[sorted[n - 1]], keys[x]);
            }
        }
        n
    } else {
        let rest = sorted.drop_last();
        assert(is_stably_sorted(rest, keys)) by {
            assert forall|i: int, j: int| 0 <= i < j < rest.len() implies text_le(
                keys[#[trigger] rest[i]],
                keys[#[trigger] rest[j]],
            ) && (rest[i] < rest[j] || !text_le(keys[rest[j]], keys[rest[i]])) by {
                assert(rest[i] == sorted[i] && rest[j] == sorted[j]);
            }
        }
        let at = lemma_insert_place(rest, keys, x);
        assert(rest.insert(at, x).push(sorted.last()) =~= sorted.insert(at, x));
        assert forall|j: int| at <= j < sorted.len() implies !text_le(
            keys[#[trigger] sorted[j]],
            keys[x],
        ) by {
            if j < rest.len() {
                assert(rest[j] == sorted[j]);
            }
        }
        assert forall|j: int| 0 <= j < at implies text_le(keys[#[trigger] sorted[j]], keys[x]) by {
            assert(rest[j] == sorted[j]);
        }
        at
    }
}

proof fn lemma_stable_order_sorted(keys: Seq<Seq<char>>, n: int)
    requires
        0 <= n <= keys.len(),
    ensures
        stable_order(keys, n).len() == n,
        forall|i: int| 0 <= i < n ==> 0 <= #[trigger] stable_order(keys, n)[i] < n,
        forall|v: int| 0 <= v < n ==> stable_order(keys, n).contains(v),
        is_stably_sorted(stable_order(keys, n), keys),
    decreases n,
{
    if n > 0 {
        let before = stable_order(keys, n - 1);
        let x = n - 1;
        lemma_stable_order_sorted(keys, n - 1);
        let at = lemma_insert_place(before, keys, x);
        let after = stable_order(keys, n);
        assert(after == before.insert(at, x));
        assert forall|v: int| 0 <= v < n implies after.contains(v) by {
            if v == x {
                assert(after[at] == v);
            } else {
                assert(before.contains(v));
                let k = choose|k: int| 0 <= k < before.len() && before[k] == v;
                if k < at {
                    assert(after[k] == v);
                } else {
                    assert(after[k + 1] == v);
                }
            }
        }
        assert forall|i: int, j: int| 0 <= i < j < after.len() implies text_le(
            keys[#[trigger] after[i]],
            keys[#[trigger] after[j]],
        ) && (after[i] < after[j] || !text_le(keys[after[j]], keys[after[i]])) by {
            let bi = if i < at { i } else { i - 1 };
            let bj = if j < at { j } else { j - 1 };
            if i == at {
                assert(after[j] == before[bj]);
                lemma_text_le_total(keys[before[bj]], keys[x]);
            } else if j == at {
                assert(after[i] == before[bi]);
            } else {
                assert(after[i] == before[bi]);
                assert(after[j] == before[bj]);
            }
        }
    }
}

/// The sorted positions of a list are the positions of the list, each once,
/// in the order of their keys; positions whose keys are the same stand in
/// their own order.
pub proof fn lemma_stable_order(keys: Seq<Seq<char>>)
    ensures
        stable_order(keys, keys.len() as int).len() == keys.len(),
        forall|i: int|
            0 <= i < keys.len() ==> 0 <= #[trigger] stable_order(keys, keys.len() as int)[i]
                < keys.len(),
        forall|v: int| 0 <= v < keys.len() ==> stable_order(keys, keys.len() as int).contains(v),
        stable_order(keys, keys.len() as int).no_duplicates(),
        is_stably_sorted(stable_order(keys, keys.len() as int), keys),
{
    let order = stable_order(keys, keys.len() as int);
    lemma_stable_order_sorted(keys, keys.len() as int);
    assert forall|i: int, j: int| 0 <= i < order.len() && 0 <= j < order.len() && i != j implies order[i]
        != order[j] by {
        lemma_text_le_reflexive(keys[order[i]]);
        if i < j {
            assert(order[i] < order[j] || !text_le(keys[order[j]], keys[order[i]]));
        } else {
            assert(order[j] < order[i] || !text_le(keys[order[i]], keys[order[j]]));
        }
    }
}

/// Whether the character `a` comes before the character `b`.
fn char_before(a: char, b: char) -> (r: bool)
    ensures
        r == ((a as int) < (b as int)),
{
    (a as u32) < (b as u32)
}

/// Whether `a` comes before `b`, or is `b`, in the order of strings.
pub fn text_le_chars(a: &Vec<char>, b: &Vec<char>) -> (r: bool)
    ensures
        r == text_le(a@, b@),
{
    let n: usize = a.len();
    let m: usize = b.len();
    let mut i: usize = 0;
    proof {
        assert(a@.skip(0) =~= a@);
        assert(b@.skip(0) =~= b@);
    }
    while i < n
        invariant
            n == a@.len(),
            m == b@.len(),
            i <= n,
            i <= m,
            text_le(a@, b@) == text_le(a@.skip(i as int), b@.skip(i as int)),
        decreases n - i,
    {
        proof {
            assert(a@.skip(i as int).len() > 0);
            assert(a@.skip(i as int)[0] == a@[i as int]);
            assert(a@.skip(i as int).drop_first() =~= a@.skip(i + 1));
            if i < m {
                assert(b@.skip(i as int)[0] == b@[i as int]);
                assert(b@.skip(i as int).drop_first() =~= b@.skip(i + 1));
            }
        }
        if i >= m {
            return false;
        }
        if a[i] != b[i] {
            return char_before(a[i], b[i]);
        }
        i = i + 1;
    }
    true
}

/// The positions of `keys`, sorted by their keys; positions with equal keys
/// stay in their order.
pub fn stable_order_of(keys: &Vec<String>) -> (r: Vec<usize>)
    ensures
        positions(r@) == stable_order(keys.deep_view(), keys@.len() as int),
        r@.len() == keys@.len(),
        forall|i: int| 0 <= i < r@.len() ==> #[trigger] r@[i] < keys@.len(),
{
    let n: usize = keys.len();
    let mut chars: Vec<Vec<char>> = Vec::new();
    let mut i: usize = 0;
    while i < n
        invariant
            n == keys@.len(),
            i <= n,
            chars@.len() == i,
            forall|j: int| 0 <= j < i ==> (#[trigger] chars@[j])@ == keys@[j]@,
        decreases n - i,
    {
        chars.push(chars_of(keys[i].as_str()));
        i = i + 1;
    }
    let mut out: Vec<usize> = Vec::new();
    let mut x: usize = 0;
    let ghost all = keys.deep_view();
    proof {
        assert(positions(out@) =~= stable_order(all, 0));
    }
    while x < n
        invariant
            n == keys@.len(),
            x <= n,
            all == keys.deep_view(),
            chars@.len() == n,
            forall|j: int| 0 <= j < n ==> (#[trigger] chars@[j])@ == keys@[j]@,
            out@.len() == x,
            forall|j: int| 0 <= j < out@.len() ==> #[trigger] out@[j] < x,
            positions(out@) == stable_order(all, x as int),
        decreases n - x,
    {
        let mut at: usize = out.len();
        while at > 0 && !text_le_chars(&chars[out[at - 1]], &chars[x])
            invariant
                at <= out@.len(),
                x < n,
                n == keys@.len(),
                chars@.len() == n,
                all == keys.deep_view(),
                forall|j: int| 0 <= j < n ==> (#[trigger] chars@[j])@ == keys@[j]@,
                forall|j: int| 0 <= j < out@.len() ==> #[trigger] out@[j] < x,
                forall|j: int|
                    at <= j < out@.len() ==> !text_le(
                        all[#[trigger] positions(out@)[j]],
                        all[x as int],
                    ),
            decreases at,
        {
            proof {
                assert(positions(out@)[at - 1] == out@[at - 1]);
            }
            at = at - 1;
        }
        proof {
            if at > 0 {
                assert(positions(out@)[at - 1] == out@[at - 1]);
            }
            lemma_insert_at(positions(out@), all, x as int, at as int);
        }
        let ghost before = out@;
        out.insert(at, x);
        proof {
            assert(positions(out@) =~= positions(before).insert(at as int, x as int));
            assert forall|j: int| 0 <= j < out@.len() implies #[trigger] out@[j] < x + 1 by {
                if j < at {
                    assert(out@[j] == before[j]);
                } else if j > at {
                    assert(out@[j] == before[j - 1]);
                }
            }
        }
        x = x + 1;
    }
    out
}

} // verus!
