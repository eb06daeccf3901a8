//! A map keyed by strings that keeps its entries in the order in which their
//! keys first came. It stands where insertion order must not depend on a
//! hasher; a key occurs at most once.

use crate::text::same;
use vstd::prelude::*;

verus! {

/// Whether some entry of `m` has the key `key`.
pub open spec fn has_key<T>(m: Seq<(Seq<char>, T)>, key: Seq<char>) -> bool {
    exists|i: int| 0 <= i < m.len() && (#[trigger] m[i]).0 == key
}

/// The position of an entry of `m` with the key `key`.
pub open spec fn key_index<T>(m: Seq<(Seq<char>, T)>, key: Seq<char>) -> int {
    choose|i: int| 0 <= i < m.len() && (#[trigger] m[i]).0 == key
}

/// The value that `m` holds under `key`.
pub open spec fn value_of<T>(m: Seq<(Seq<char>, T)>, key: Seq<char>) -> Option<T> {
    if has_key(m, key) {
        Some(m[key_index(m, key)].1)
    } else {
        None
    }
}

/// `m` with `value` under `key`: in the place of the entry that had the key,
/// or at the end where none had it.
pub open spec fn put<T>(m: Seq<(Seq<char>, T)>, key: Seq<char>, value: T) -> Seq<
    (Seq<char>, T),
> {
    if has_key(m, key) {
        m.update(key_index(m, key), (key, value))
    } else {
        m.push((key, value))
    }
}

/// Whether no key occurs twice in `m`.
pub open spec fn unique_keys<T>(m: Seq<(Seq<char>, T)>) -> bool {
    forall|i: int, j: int| 0 <= i < j < m.len() ==> (#[trigger] m[i]).0 != (#[trigger] m[j]).0
}

/// `put` keeps keys unique, puts the value under the key and leaves the
/// other keys as they were.
pub proof fn lemma_put<T>(m: Seq<(Seq<char>, T)>, key: Seq<char>, value: T)
    requires
        unique_keys(m),
    ensures
        unique_keys(put(m, key, value)),
        value_of(put(m, key, value), key) == Some(value),
        forall|other: Seq<char>| other != key ==> value_of(put(m, key, value), other) == value_of(m, other),
        put(m, key, value).len() == if has_key(m, key) { m.len() } else { m.len() + 1 },
        forall|i: int|
            0 <= i < put(m, key, value).len() ==> #[trigger] put(m, key, value)[i] == (key, value)
                || (i < m.len() && put(m, key, value)[i] == m[i]),
{
    let after = put(m, key, value);
    let at = if has_key(m, key) { key_index(m, key) } else { m.len() as int };
    assert(after[at] == (key, value));
    assert forall|i: int| 0 <= i < after.len() && i != at implies #[trigger] after[i] == m[i] by {}
    assert forall|i: int| 0 <= i < after.len() && i != at implies (#[trigger] after[i]).0 != key by {
        if has_key(m, key) {
            if i < at {
                assert(m[i].0 != m[at].0);
            } else {
                assert(m[at].0 != m[i].0);
            }
        }
    }
    assert(unique_keys(after)) by {
        assert forall|i: int, j: int| 0 <= i < j < after.len() implies (#[trigger] after[i]).0 != (
        #[trigger] after[j]).0 by {
            if i != at && j != at {
                assert(m[i].0 != m[j].0);
            }
        }
    }
    lemma_unique_index(after, at);
    assert forall|other: Seq<char>| other != key implies value_of(after, other) == value_of(
        m,
        other,
    ) by {
        if has_key(m, other) {
            let k = key_index(m, other);
            assert(after[k] == m[k]);
            lemma_unique_index(after, k);
            lemma_unique_index(m, k);
        } else {
            if has_key(after, other) {
                let k = key_index(after, other);
                assert(k != at);
                assert(m[k].0 == other);
            }
        }
    }
}

/// With unique keys, the entry at `i` is the one found under its key.
pub proof fn lemma_unique_index<T>(m: Seq<(Seq<char>, T)>, i: int)
    requires
        unique_keys(m),
        0 <= i < m.len(),
    ensures
        has_key(m, m[i].0),
        key_index(m, m[i].0) == i,
        value_of(m, m[i].0) == Some(m[i].1),
{
    let k = key_index(m, m[i].0);
    if k < i {
        assert(m[k].0 != m[i].0);
    } else if i < k {
        assert(m[i].0 != m[k].0);
    }
}

/// A map from strings to values, in the order in which the keys first came.
#[derive(Debug, PartialEq, Eq)]
pub struct TextMap<V: DeepView> {
    entries: Vec<(String, V)>,
}

impl<V: DeepView> View for TextMap<V> {
    type V = Seq<(Seq<char>, V::V)>;

    closed spec fn view(&self) -> Seq<(Seq<char>, V::V)> {
        self.entries.deep_view()
    }
}

impl<V: DeepView> DeepView for TextMap<V> {
    type V = Seq<(Seq<char>, V::V)>;

    open spec fn deep_view(&self) -> Seq<(Seq<char>, V::V)> {
        self@
    }
}

impl<V: DeepView> TextMap<V> {
    #[verifier::type_invariant]
    spec fn keys_are_unique(&self) -> bool {
        unique_keys(self.entries.deep_view())
    }

    /// The map without entries.
    pub fn new() -> (r: Self)
        ensures
            r@ == Seq::<(Seq<char>, V::V)>::empty(),
    {
        let entries: Vec<(String, V)> = Vec::new();
        proof {
            assert(entries.deep_view() =~= Seq::<(Seq<char>, V::V)>::empty());
        }
        TextMap { entries }
    }

    /// The number of entries.
    pub fn len(&self) -> (r: usize)
        ensures
            r == self@.len(),
            unique_keys(self@),
    {
        proof {
            use_type_invariant(self);
        }
        self.entries.len()
    }

    /// Whether the map has no entries.
    pub fn is_empty(&self) -> (r: bool)
        ensures
            r == (self@.len() == 0),
    {
        self.entries.len() == 0
    }

    /// The key of the entry at position `i`.
    pub fn key_at(&self, i: usize) -> (r: &str)
        requires
            i < self@.len(),
        ensures
            r@ == self@[i as int].0,
    {
        self.entries[i].0.as_str()
    }

    /// The value of the entry at position `i`.
    pub fn value_at(&self, i: usize) -> (r: &V)
        requires
            i < self@.len(),
        ensures
            r.deep_view() == self@[i as int].1,
    {
        &self.entries[i].1
    }

    /// The position of the entry under `key`, where there is one.
    pub fn position(&self, key: &str) -> (r: Option<usize>)
        ensures
            unique_keys(self@),
            match r {
                Some(i) => i < self@.len() && self@[i as int].0 == key@ && has_key(self@, key@)
                    && key_index(self@, key@) == i,
                None => !has_key(self@, key@),
            },
    {
        proof {
            use_type_invariant(self);
        }
        let n: usize = self.entries.len();
        let mut i: usize = 0;
        while i < n
            invariant
                n == self.entries@.len(),
                i <= n,
                unique_keys(self@),
                forall|j: int| 0 <= j < i ==> (#[trigger] self.entries.deep_view()[j]).0 != key@,
            decreases n - i,
        {
            if same(self.entries[i].0.as_str(), key) {
                proof {
                    assert(self.entries.deep_view()[i as int].0 == key@);
                    lemma_unique_index(self@, i as int);
                }
                return Some(i);
            }
            i = i + 1;
        }
        None
    }

    /// Whether the map has an entry under `key`.
    pub fn contains_key(&self, key: &str) -> (r: bool)
        ensures
            r == has_key(self@, key@),
    {
        self.position(key).is_some()
    }

    /// The value under `key`, where there is one.
    pub fn get(&self, key: &str) -> (r: Option<&V>)
        ensures
            r.deep_view() == value_of(self@, key@),
    {
        match self.position(key) {
            Some(i) => Some(&self.entries[i].1),
            None => None,
        }
    }

    /// Puts `value` under `key`, in the place of the value that was there or,
    /// where the key is new, behind the other entries.
    pub fn insert(&mut self, key: String, value: V)
        ensures
            final(self)@ == put(old(self)@, key@, value.deep_view()),
            unique_keys(final(self)@),
    {
        proof {
            use_type_invariant(&*self);
            lemma_put(self@, key@, value.deep_view());
        }
        let ghost before = self@;
        let ghost k = key@;
        let ghost v = value.deep_view();
        let found = self.position(key.as_str());
        let mut entries: Vec<(String, V)> = Vec::new();
        proof {
            assert(entries.deep_view() =~= Seq::<(Seq<char>, V::V)>::empty());
        }
        core::mem::swap(&mut entries, &mut self.entries);
        match found {
            Some(i) => {
                entries.set(i, (key, value));
                proof {
                    assert(entries.deep_view() =~= before.update(i as int, (k, v)));
                }
            },
            None => {
                entries.push((key, value));
                proof {
                    assert(entries.deep_view() =~= before.push((k, v)));
                }
            },
        }
        self.entries = entries;
    }
}

} // verus!
