//! Tables: values under text keys, each key once, in the order of the keys.
use crate::text::{chars_of, same};
use vstd::prelude::*;

verus! {

/// `a` comes before `b`: at the first difference its character is lower, or it ends there.
pub open spec fn before(a: Seq<char>, b: Seq<char>) -> bool
    decreases a.len(),
{
    if b.len() == 0 {
        false
    } else if a.len() == 0 {
        true
    } else if a[0] != b[0] {
        a[0] < b[0]
    } else {
        before(a.skip(1), b.skip(1))
    }
}

pub proof fn lemma_before_irreflexive(a: Seq<char>)
    ensures
        !before(a, a),
    decreases a.len(),
{
    if a.len() > 0 {
        lemma_before_irreflexive(a.skip(1));
    }
}

pub proof fn lemma_before_transitive(a: Seq<char>, b: Seq<char>, c: Seq<char>)
    requires
        before(a, b),
        before(b, c),
    ensures
        before(a, c),
    decreases a.len(),
{
    if a.len() > 0 && b.len() > 0 && c.len() > 0 && a[0] == b[0] && b[0] == c[0] {
        lemma_before_transitive(a.skip(1), b.skip(1), c.skip(1));
    }
}

/// Of two different keys, one comes before the other.
pub proof fn lemma_before_total(a: Seq<char>, b: Seq<char>)
    ensures
        a == b || before(a, b) || before(b, a),
    decreases a.len(),
{
    if a.len() > 0 && b.len() > 0 && a[0] == b[0] {
        lemma_before_total(a.skip(1), b.skip(1));
        if a.skip(1) == b.skip(1) {
            assert(a.skip(1).len() == b.skip(1).len());
            assert forall|i: int| 0 <= i < a.len() implies a[i] == b[i] by {
                if i > 0 {
                    assert(a[i] == a.skip(1)[i - 1]);
                    assert(b[i] == b.skip(1)[i - 1]);
                }
            }
            assert(a =~= b);
        }
    } else if a.len() == 0 && b.len() == 0 {
        assert(a =~= b);
    }
}

pub fn comes_before(a: &str, b: &str) -> (r: bool)
    ensures
        r == before(a@, b@),
{
    let x = chars_of(a);
    let y = chars_of(b);
    let mut i: usize = 0;
    assert(x@.skip(0) == x@ && y@.skip(0) == y@);
    while i < x.len() && i < y.len() && x[i] == y[i]
        invariant
            i <= x.len(),
            i <= y.len(),
            before(x@, y@) == before(x@.skip(i as int), y@.skip(i as int)),
        decreases x.len() - i,
    {
        assert(x@.skip(i as int).skip(1) == x@.skip(i + 1));
        assert(y@.skip(i as int).skip(1) == y@.skip(i + 1));
        i += 1;
    }
    if i >= y.len() {
        false
    } else if i >= x.len() {
        true
    } else {
        x[i] < y[i]
    }
}

// ---------------------------------------------------------------------------
// Entries
// ---------------------------------------------------------------------------

/// How many entries at the front come before the key.
pub open spec fn slot<M>(t: Seq<(Seq<char>, M)>, key: Seq<char>) -> nat
    decreases t.len(),
{
    if t.len() == 0 || !before(t[0].0, key) {
        0
    } else {
        1 + slot(t.skip(1), key)
    }
}

/// The entries with a value put under a key, in place of the one that stood there.
pub open spec fn inserted<M>(t: Seq<(Seq<char>, M)>, key: Seq<char>, value: M) -> Seq<
    (Seq<char>, M),
> {
    let k = slot(t, key) as int;
    if k < t.len() && t[k].0 == key {
        t.update(k, (key, value))
    } else {
        t.insert(k, (key, value))
    }
}

/// The value under a key.
pub open spec fn found<M>(t: Seq<(Seq<char>, M)>, key: Seq<char>) -> Option<M>
    decreases t.len(),
{
    if t.len() == 0 {
        None
    } else if t[0].0 == key {
        Some(t[0].1)
    } else {
        found(t.skip(1), key)
    }
}

/// The keys stand in order, each of them once.
pub open spec fn ordered<M>(t: Seq<(Seq<char>, M)>) -> bool {
    forall|i: int, j: int| 0 <= i < j < t.len() ==> before((#[trigger] t[i]).0, (#[trigger] t[j]).0)
}

proof fn lemma_slot<M>(t: Seq<(Seq<char>, M)>, key: Seq<char>, k: int)
    requires
        0 <= k <= t.len(),
        forall|i: int| 0 <= i < k ==> before((#[trigger] t[i]).0, key),
        k < t.len() ==> !before(t[k].0, key),
    ensures
        slot(t, key) == k,
    decreases t.len(),
{
    if k > 0 {
        assert(before(t[0].0, key));
        let s = t.skip(1);
        assert forall|i: int| 0 <= i < k - 1 implies before((#[trigger] s[i]).0, key) by {
            assert(s[i] == t[i + 1]);
        }
        lemma_slot(s, key, k - 1);
    }
}

pub proof fn lemma_slot_range<M>(t: Seq<(Seq<char>, M)>, key: Seq<char>)
    ensures
        slot(t, key) <= t.len(),
        forall|i: int| 0 <= i < slot(t, key) ==> before((#[trigger] t[i]).0, key),
        slot(t, key) < t.len() ==> !before(t[slot(t, key) as int].0, key),
    decreases t.len(),
{
    if t.len() > 0 && before(t[0].0, key) {
        let s = t.skip(1);
        lemma_slot_range(s, key);
        assert forall|i: int| 0 <= i < slot(t, key) implies before((#[trigger] t[i]).0, key) by {
            if i > 0 {
                assert(t[i] == s[i - 1]);
            }
        }
        assert(slot(t, key) < t.len() ==> t[slot(t, key) as int] == s[slot(s, key) as int]);
    }
}

/// What is found stands in the table; where nothing is found no entry has the key.
pub proof fn lemma_found<M>(t: Seq<(Seq<char>, M)>, key: Seq<char>)
    ensures
        match found(t, key) {
            Some(v) => exists|i: int| 0 <= i < t.len() && #[trigger] t[i] == (key, v),
            None => forall|i: int| 0 <= i < t.len() ==> (#[trigger] t[i]).0 != key,
        },
    decreases t.len(),
{
    if t.len() > 0 {
        if t[0].0 == key {
            assert(t[0] == (key, t[0].1));
        } else {
            let s = t.skip(1);
            lemma_found(s, key);
            match found(s, key) {
                Some(v) => {
                    let i = choose|i: int| 0 <= i < s.len() && #[trigger] s[i] == (key, v);
                    assert(t[i + 1] == (key, v));
                },
                None => {
                    assert forall|i: int| 0 <= i < t.len() implies (#[trigger] t[i]).0 != key by {
                        if i > 0 {
                            assert(t[i] == s[i - 1]);
                        }
                    }
                },
            }
        }
    }
}

/// An entry of an ordered table is what is found under its key.
pub proof fn lemma_found_is<M>(t: Seq<(Seq<char>, M)>, i: int)
    requires
        ordered(t),
        0 <= i < t.len(),
    ensures
        found(t, t[i].0) == Some(t[i].1),
{
    lemma_found(t, t[i].0);
    match found(t, t[i].0) {
        Some(v) => {
            let j = choose|j: int| 0 <= j < t.len() && #[trigger] t[j] == (t[i].0, v);
            lemma_before_irreflexive(t[i].0);
            if i < j {
                assert(before(t[i].0, t[j].0));
            } else if j < i {
                assert(before(t[j].0, t[i].0));
            }
        },
        None => {},
    }
}

/// A table stays in order; what was put under a key is found there, and what stood under the
/// other keys still is.
pub proof fn law_insert<M>(t: Seq<(Seq<char>, M)>, key: Seq<char>, value: M, other: Seq<char>)
    requires
        ordered(t),
    ensures
        ordered(inserted(t, key, value)),
        found(inserted(t, key, value), key) == Some(value),
        other != key ==> found(inserted(t, key, value), other) == found(t, other),
{
    let k = slot(t, key) as int;
    let n = inserted(t, key, value);
    lemma_slot_range(t, key);
    lemma_before_irreflexive(key);
    assert forall|i: int, j: int| 0 <= i < j < n.len() implies before(
        (#[trigger] n[i]).0,
        (#[trigger] n[j]).0,
    ) by {
        if k < t.len() && t[k].0 == key {
            assert(before(t[i].0, t[j].0));
        } else {
            if k < t.len() {
                lemma_before_total(t[k].0, key);
            }
            let i0 = if i < k {
                i
            } else {
                i - 1
            };
            let j0 = if j < k {
                j
            } else {
                j - 1
            };
            if i != k && j != k {
                assert(before(t[i0].0, t[j0].0));
            } else if i == k {
                if j0 > k {
                    assert(before(t[k].0, t[j0].0));
                    lemma_before_transitive(key, t[k].0, t[j0].0);
                }
            }
        }
    }
    assert(n[k] == (key, value));
    lemma_found_is(n, k);
    if other != key {
        lemma_found(t, other);
        lemma_found(n, other);
        match found(t, other) {
            Some(v) => {
                let i = choose|i: int| 0 <= i < t.len() && #[trigger] t[i] == (other, v);
                let j = if k < t.len() && t[k].0 == key {
                    i
                } else if i < k {
                    i
                } else {
                    i + 1
                };
                assert(n[j] == (other, v));
                lemma_found_is(n, j);
            },
            None => {
                match found(n, other) {
                    Some(v) => {
                        let j = choose|j: int| 0 <= j < n.len() && #[trigger] n[j] == (other, v);
                        let i = if k < t.len() && t[k].0 == key {
                            j
                        } else if j < k {
                            j
                        } else {
                            j - 1
                        };
                        assert(t[i] == (other, v));
                    },
                    None => {},
                }
            },
        }
    }
}

/// The entries by their models.
pub open spec fn entries<V: DeepView>(t: Seq<(String, V)>) -> Seq<(Seq<char>, V::V)> {
    Seq::new(t.len(), |i: int| (t[i].0@, t[i].1.deep_view()))
}

/// Puts a value under a key.
pub fn insert_entry<V: DeepView>(t: &mut Vec<(String, V)>, key: String, value: V)
    ensures
        entries(final(t)@) == inserted(entries(old(t)@), key@, value.deep_view()),
{
    let ghost m = entries(t@);
    let mut k: usize = 0;
    while k < t.len() && comes_before(t[k].0.as_str(), key.as_str())
        invariant
            k <= t.len(),
            m == entries(t@),
            t@ == old(t)@,
            forall|i: int| 0 <= i < k ==> before((#[trigger] m[i]).0, key@),
        decreases t.len() - k,
    {
        assert(m[k as int].0 == t@[k as int].0@);
        k += 1;
    }
    proof {
        if k < t.len() {
            assert(m[k as int].0 == t@[k as int].0@);
        }
        lemma_slot(m, key@, k as int);
    }
    let ghost kv = (key@, value.deep_view());
    if k < t.len() && same(t[k].0.as_str(), key.as_str()) {
        t.set(k, (key, value));
        assert(entries(t@) =~= m.update(k as int, kv));
    } else {
        t.insert(k, (key, value));
        assert(entries(t@) =~= m.insert(k as int, kv));
    }
}

/// The value under a key.
pub fn find_entry<'a, V: DeepView>(t: &'a Vec<(String, V)>, key: &str) -> (r: Option<&'a V>)
    ensures
        r.deep_view() == found(entries(t@), key@),
{
    let ghost m = entries(t@);
    let mut i: usize = 0;
    assert(m.skip(0) == m);
    while i < t.len()
        invariant
            i <= t.len(),
            m == entries(t@),
            found(m, key@) == found(m.skip(i as int), key@),
        decreases t.len() - i,
    {
        assert(m[i as int].0 == t@[i as int].0@);
        assert(m.skip(i as int)[0] == m[i as int]);
        if same(t[i].0.as_str(), key) {
            return Some(&t[i].1);
        }
        assert(m.skip(i as int).skip(1) == m.skip(i + 1));
        i += 1;
    }
    None
}

/// Values under text keys.
#[derive(Debug)]
pub struct Table<V> {
    entries: Vec<(String, V)>,
}

impl<V: DeepView> DeepView for Table<V> {
    type V = Seq<(Seq<char>, V::V)>;

    closed spec fn deep_view(&self) -> Seq<(Seq<char>, V::V)> {
        entries(self.entries@)
    }
}

impl<V: DeepView> Table<V> {
    pub fn new() -> (t: Table<V>)
        ensures
            t.deep_view() == Seq::<(Seq<char>, V::V)>::empty(),
            ordered(t.deep_view()),
    {
        let t = Table { entries: Vec::new() };
        assert(t.deep_view() =~= Seq::<(Seq<char>, V::V)>::empty());
        t
    }

    pub fn insert(&mut self, key: String, value: V)
        ensures
            final(self).deep_view() == inserted(old(self).deep_view(), key@, value.deep_view()),
            ordered(old(self).deep_view()) ==> ordered(final(self).deep_view()),
    {
        let ghost before = self.deep_view();
        let ghost k = key@;
        let ghost v = value.deep_view();
        insert_entry(&mut self.entries, key, value);
        proof {
            if ordered(before) {
                law_insert(before, k, v, k);
            }
        }
    }

    pub fn get(&self, key: &str) -> (r: Option<&V>)
        ensures
            r.deep_view() == found(self.deep_view(), key@),
    {
        find_entry(&self.entries, key)
    }

    pub fn contains_key(&self, key: &str) -> (r: bool)
        ensures
            r == (found(self.deep_view(), key@) is Some),
    {
        self.get(key).is_some()
    }

    pub fn len(&self) -> (n: usize)
        ensures
            n == self.deep_view().len(),
    {
        self.entries.len()
    }

    /// The key of the entry at `i`.
    pub fn key(&self, i: usize) -> (key: &str)
        requires
            i < self.deep_view().len(),
        ensures
            key@ == self.deep_view()[i as int].0,
    {
        self.entries[i].0.as_str()
    }

    /// The value of the entry at `i`.
    pub fn value(&self, i: usize) -> (value: &V)
        requires
            i < self.deep_view().len(),
        ensures
            value.deep_view() == self.deep_view()[i as int].1,
    {
        &self.entries[i].1
    }

    /// Takes the entry with the lowest key out.
    pub fn pop_first(&mut self) -> (r: Option<(String, V)>)
        ensures
            match r {
                Some((key, value)) => old(self).deep_view().len() > 0 && old(self).deep_view()[0]
                    == (key@, value.deep_view()) && final(self).deep_view() == old(
                    self,
                ).deep_view().skip(1),
                None => old(self).deep_view().len() == 0 && final(self).deep_view() == old(
                    self,
                ).deep_view(),
            },
    {
        let ghost before = self.deep_view();
        if self.entries.len() == 0 {
            return None;
        }
        let first = self.entries.remove(0);
        assert(self.deep_view() =~= before.skip(1));
        Some(first)
    }
}

} // verus!
