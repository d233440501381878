//! An insertion-ordered, name-keyed mapping. The source model keeps
//! its `types`, `components` and `events` in such maps: keys are
//! unique, iteration follows insertion order (so resolution is
//! deterministic), and inserting an existing key overwrites its entry
//! in place — the explicit overwrite-on-insert rule behind
//! "later declaration wins" fragment merging.

use crate::strings::str_eq;
use vstd::prelude::*;

verus! {

/// Whether some entry carries key `k`.
pub open spec fn map_contains_key<K, V>(m: Seq<(K, V)>, k: K) -> bool {
    exists|i: int| 0 <= i < m.len() && (#[trigger] m[i]).0 == k
}

/// The position of the first entry with key `k`.
pub open spec fn first_key_index<K, V>(m: Seq<(K, V)>, k: K) -> int
    decreases m.len(),
{
    if m.len() == 0 {
        0
    } else if m[0].0 == k {
        0
    } else {
        1 + first_key_index(m.drop_first(), k)
    }
}

/// The value at the first entry with key `k`, if any.
pub open spec fn map_lookup<K, V>(m: Seq<(K, V)>, k: K) -> Option<V>
    decreases m.len(),
{
    if m.len() == 0 {
        None
    } else if m[0].0 == k {
        Some(m[0].1)
    } else {
        map_lookup(m.drop_first(), k)
    }
}

/// Inserting with overwrite: an existing key keeps its position and
/// takes the new value, a fresh key is appended.
pub open spec fn map_insert<K, V>(m: Seq<(K, V)>, k: K, v: V) -> Seq<(K, V)>
    decreases m.len(),
{
    if m.len() == 0 {
        seq![(k, v)]
    } else if m[0].0 == k {
        seq![(k, v)] + m.drop_first()
    } else {
        seq![m[0]] + map_insert(m.drop_first(), k, v)
    }
}

/// The right-biased union: every entry of `b` is inserted into `a` in
/// order, so on a key collision the entry of `b` wins.
pub open spec fn map_merge<K, V>(a: Seq<(K, V)>, b: Seq<(K, V)>) -> Seq<(K, V)>
    decreases b.len(),
{
    if b.len() == 0 {
        a
    } else {
        map_insert(map_merge(a, b.drop_last()), b.last().0, b.last().1)
    }
}

/// Well-formedness: keys are pairwise distinct.
pub open spec fn map_wf<K, V>(m: Seq<(K, V)>) -> bool {
    forall|i: int, j: int| 0 <= i < j < m.len() ==> (#[trigger] m[i]).0 != (#[trigger] m[j]).0
}

/// Inserting a fresh key appends.
pub proof fn lemma_map_insert_absent<K, V>(m: Seq<(K, V)>, k: K, v: V)
    requires
        !map_contains_key(m, k),
    ensures
        map_insert(m, k, v) == m.push((k, v)),
    decreases m.len(),
{
    if m.len() == 0 {
        assert(map_insert(m, k, v) =~= m.push((k, v)));
    } else {
        assert(m[0].0 != k);
        assert(!map_contains_key(m.drop_first(), k)) by {
            if map_contains_key(m.drop_first(), k) {
                let i = choose|i: int|
                    0 <= i < m.drop_first().len() && (#[trigger] m.drop_first()[i]).0 == k;
                assert(m[i + 1].0 == k);
            }
        }
        lemma_map_insert_absent(m.drop_first(), k, v);
        assert(seq![m[0]] + m.drop_first().push((k, v)) =~= m.push((k, v)));
    }
}

/// Inserting an existing key updates its first entry in place.
pub proof fn lemma_map_insert_present<K, V>(m: Seq<(K, V)>, k: K, v: V)
    requires
        map_contains_key(m, k),
    ensures
        0 <= first_key_index(m, k) < m.len(),
        m[first_key_index(m, k)].0 == k,
        forall|j: int| 0 <= j < first_key_index(m, k) ==> (#[trigger] m[j]).0 != k,
        map_insert(m, k, v) == m.update(first_key_index(m, k), (k, v)),
    decreases m.len(),
{
    if m[0].0 == k {
        assert(map_insert(m, k, v) =~= m.update(0, (k, v)));
    } else {
        assert(map_contains_key(m.drop_first(), k)) by {
            let i = choose|i: int| 0 <= i < m.len() && (#[trigger] m[i]).0 == k;
            assert(m.drop_first()[i - 1].0 == k);
        }
        lemma_map_insert_present(m.drop_first(), k, v);
        let fi = first_key_index(m, k);
        assert(fi == 1 + first_key_index(m.drop_first(), k));
        assert(forall|j: int| 0 <= j < fi ==> (#[trigger] m[j]).0 != k) by {
            assert(forall|j: int|
                1 <= j < fi ==> (#[trigger] m[j]).0 == m.drop_first()[j - 1].0);
        }
        assert(seq![m[0]] + m.drop_first().update(fi - 1, (k, v)) =~= m.update(fi, (k, v)));
    }
}

/// What a lookup finds after an insert.
pub proof fn lemma_map_insert_lookup<K, V>(m: Seq<(K, V)>, k: K, v: V, k2: K)
    ensures
        map_lookup(map_insert(m, k, v), k2) == if k2 == k {
            Some(v)
        } else {
            map_lookup(m, k2)
        },
    decreases m.len(),
{
    if m.len() == 0 {
        let r = map_insert(m, k, v);
        assert(r[0] == (k, v));
        assert(r.drop_first() =~= Seq::<(K, V)>::empty());
        if k2 == k {
            assert(map_lookup(r, k2) == Some(v));
        } else {
            assert(map_lookup(r, k2) == map_lookup(Seq::<(K, V)>::empty(), k2));
            assert(map_lookup(Seq::<(K, V)>::empty(), k2) == None::<V>);
        }
    } else if m[0].0 == k {
        let r = map_insert(m, k, v);
        assert(r[0] == (k, v));
        assert(r.drop_first() =~= m.drop_first());
        if k2 == k {
            assert(map_lookup(r, k2) == Some(v));
        } else {
            assert(map_lookup(r, k2) == map_lookup(m.drop_first(), k2));
            assert(map_lookup(m, k2) == map_lookup(m.drop_first(), k2));
        }
    } else {
        lemma_map_insert_lookup(m.drop_first(), k, v, k2);
        let r = map_insert(m, k, v);
        assert(r[0] == m[0]);
        assert(r.len() > 0);
        assert(r.drop_first() =~= map_insert(m.drop_first(), k, v));
        if k2 == m[0].0 {
            assert(map_lookup(r, k2) == Some(m[0].1));
            assert(map_lookup(m, k2) == Some(m[0].1));
        } else {
            assert(map_lookup(r, k2) == map_lookup(map_insert(m.drop_first(), k, v), k2));
            assert(map_lookup(m, k2) == map_lookup(m.drop_first(), k2));
        }
    }
}

/// Inserting keeps keys pairwise distinct.
pub proof fn lemma_map_insert_wf<K, V>(m: Seq<(K, V)>, k: K, v: V)
    requires
        map_wf(m),
    ensures
        map_wf(map_insert(m, k, v)),
{
    if map_contains_key(m, k) {
        lemma_map_insert_present(m, k, v);
        let fi = first_key_index(m, k);
        let r = m.update(fi, (k, v));
        assert forall|i: int, j: int| 0 <= i < j < r.len() implies (#[trigger] r[i]).0 != (
        #[trigger] r[j]).0 by {
            if i == fi {
                assert(m[j].0 != k);
            } else if j == fi {
                assert(m[i].0 != k) by {
                    if m[i].0 == k {
                        assert(m[i].0 != m[j].0);
                    }
                }
            }
        }
    } else {
        lemma_map_insert_absent(m, k, v);
        let r = m.push((k, v));
        assert forall|i: int, j: int| 0 <= i < j < r.len() implies (#[trigger] r[i]).0 != (
        #[trigger] r[j]).0 by {
            if j == m.len() {
                assert(r[j].0 == k);
                if m[i].0 == k {
                    assert(map_contains_key(m, k));
                }
            }
        }
    }
}

/// Dropping the last entry does not change what earlier keys find.
proof fn lemma_map_lookup_drop_last<K, V>(m: Seq<(K, V)>, k: K)
    requires
        m.len() >= 1,
        m.last().0 != k,
    ensures
        map_lookup(m, k) == map_lookup(m.drop_last(), k),
        map_contains_key(m, k) == map_contains_key(m.drop_last(), k),
    decreases m.len(),
{
    if map_contains_key(m.drop_last(), k) {
        let i = choose|i: int|
            0 <= i < m.drop_last().len() && (#[trigger] m.drop_last()[i]).0 == k;
        assert(m[i].0 == k);
    }
    if map_contains_key(m, k) {
        let i = choose|i: int| 0 <= i < m.len() && (#[trigger] m[i]).0 == k;
        assert(i < m.len() - 1);
        assert(m.drop_last()[i].0 == k);
    }
    if m.len() == 1 {
        assert(m.drop_last() =~= Seq::<(K, V)>::empty());
    } else if m[0].0 == k {
        assert(m.drop_last()[0] == m[0]);
    } else {
        assert(m.drop_last()[0] == m[0]);
        assert(m.drop_first().last() == m.last());
        lemma_map_lookup_drop_last(m.drop_first(), k);
        assert(m.drop_first().drop_last() =~= m.drop_last().drop_first());
    }
}

/// The merge bias law: in a right-biased union the later operand
/// wins. A key of `b` (with `b` well formed) finds `b`'s entry in the
/// merge; any other key finds whatever `a` held for it.
pub proof fn lemma_map_merge_lookup<K, V>(a: Seq<(K, V)>, b: Seq<(K, V)>, k: K)
    requires
        map_wf(b),
    ensures
        map_lookup(map_merge(a, b), k) == if map_contains_key(b, k) {
            map_lookup(b, k)
        } else {
            map_lookup(a, k)
        },
    decreases b.len(),
{
    if b.len() == 0 {
        if map_contains_key(b, k) {
            let i = choose|i: int| 0 <= i < b.len() && (#[trigger] b[i]).0 == k;
        }
    } else {
        let prev = map_merge(a, b.drop_last());
        lemma_map_insert_lookup(prev, b.last().0, b.last().1, k);
        assert(map_wf(b.drop_last()));
        lemma_map_merge_lookup(a, b.drop_last(), k);
        if k == b.last().0 {
            assert(map_contains_key(b, k)) by {
                assert(b[b.len() - 1].0 == k);
            }
            // `b` is well formed, so its first entry for `k` is its
            // last element.
            assert(map_lookup(b, k) == Some(b.last().1)) by {
                lemma_map_lookup_first::<K, V>(b, k);
                let fi = first_key_index(b, k);
                if fi < b.len() - 1 {
                    assert(b[fi].0 == b[b.len() - 1].0);
                }
            }
        } else {
            lemma_map_lookup_drop_last(b, k);
        }
    }
}

/// A lookup finds the first entry with the key.
pub proof fn lemma_map_lookup_first<K, V>(m: Seq<(K, V)>, k: K)
    requires
        map_contains_key(m, k),
    ensures
        0 <= first_key_index(m, k) < m.len(),
        m[first_key_index(m, k)].0 == k,
        forall|j: int| 0 <= j < first_key_index(m, k) ==> (#[trigger] m[j]).0 != k,
        map_lookup(m, k) == Some(m[first_key_index(m, k)].1),
    decreases m.len(),
{
    if m[0].0 == k {
    } else {
        assert(map_contains_key(m.drop_first(), k)) by {
            let i = choose|i: int| 0 <= i < m.len() && (#[trigger] m[i]).0 == k;
            assert(m.drop_first()[i - 1].0 == k);
        }
        lemma_map_lookup_first(m.drop_first(), k);
        let fi = first_key_index(m, k);
        assert(fi == 1 + first_key_index(m.drop_first(), k));
        assert(forall|j: int| 1 <= j < fi ==> (#[trigger] m[j]).0 == m.drop_first()[j - 1].0);
    }
}

/// Merging keeps keys pairwise distinct.
pub proof fn lemma_map_merge_wf<K, V>(a: Seq<(K, V)>, b: Seq<(K, V)>)
    requires
        map_wf(a),
    ensures
        map_wf(map_merge(a, b)),
    decreases b.len(),
{
    if b.len() == 0 {
    } else {
        lemma_map_merge_wf(a, b.drop_last());
        lemma_map_insert_wf(map_merge(a, b.drop_last()), b.last().0, b.last().1);
    }
}

/// A name-keyed mapping with unique keys and stable insertion order.
#[derive(Debug, PartialEq, Eq)]
pub struct StringMap<V> {
    pub entries: Vec<(String, V)>,
}

impl<V> View for StringMap<V> {
    type V = Seq<(Seq<char>, V)>;

    open spec fn view(&self) -> Seq<(Seq<char>, V)> {
        Seq::new(self.entries@.len(), |i: int| (self.entries@[i].0@, self.entries@[i].1))
    }
}

impl<V> StringMap<V> {
    pub fn new() -> (r: Self)
        ensures
            r@ == Seq::<(Seq<char>, V)>::empty(),
    {
        let r = StringMap { entries: Vec::new() };
        proof {
            assert(r@ =~= Seq::<(Seq<char>, V)>::empty());
        }
        r
    }

    pub fn len(&self) -> (n: usize)
        ensures
            n == self@.len(),
    {
        self.entries.len()
    }

    pub fn key_at(&self, i: usize) -> (k: &String)
        requires
            i < self@.len(),
        ensures
            k@ == self@[i as int].0,
    {
        &self.entries[i].0
    }

    pub fn value_at(&self, i: usize) -> (v: &V)
        requires
            i < self@.len(),
        ensures
            *v == self@[i as int].1,
    {
        &self.entries[i].1
    }

    /// The position of the first entry with the given key.
    fn find_key(&self, key: &str) -> (r: Option<usize>)
        ensures
            match r {
                Some(i) => {
                    &&& i < self@.len()
                    &&& self@[i as int].0 == key@
                    &&& forall|j: int| 0 <= j < i ==> (#[trigger] self@[j]).0 != key@
                },
                None => !map_contains_key(self@, key@),
            },
    {
        let mut i: usize = 0;
        while i < self.entries.len()
            invariant
                i <= self@.len(),
                self@.len() == self.entries@.len(),
                forall|j: int| 0 <= j < i ==> (#[trigger] self@[j]).0 != key@,
            decreases self.entries@.len() - i,
        {
            if str_eq(self.entries[i].0.as_str(), key) {
                return Some(i);
            }
            i += 1;
        }
        proof {
            if map_contains_key(self@, key@) {
                let j = choose|j: int| 0 <= j < self@.len() && (#[trigger] self@[j]).0 == key@;
            }
        }
        None
    }

    /// Looks the key up; [`map_lookup`] says what is found.
    pub fn get(&self, key: &str) -> (r: Option<&V>)
        ensures
            match r {
                Some(v) => map_lookup(self@, key@) == Some(*v),
                None => map_lookup(self@, key@) is None,
            },
    {
        match self.find_key(key) {
            Some(i) => {
                proof {
                    lemma_map_lookup_first(self@, key@);
                    let fi = first_key_index(self@, key@);
                    if fi < i {
                        assert(self@[fi].0 != key@);
                    } else if i < fi {
                        assert(self@[i as int].0 != key@);
                    }
                }
                Some(&self.entries[i].1)
            },
            None => {
                proof {
                    if map_lookup(self@, key@) is Some {
                        lemma_map_lookup_some_contains(self@, key@);
                    }
                }
                None
            },
        }
    }

    /// Inserts with overwrite, as [`map_insert`] says: an existing
    /// key keeps its position and takes the new value, a fresh key is
    /// appended.
    pub fn insert(&mut self, key: String, value: V)
        ensures
            final(self)@ == map_insert(old(self)@, key@, value),
    {
        match self.find_key(key.as_str()) {
            Some(i) => {
                let ghost before = self@;
                self.entries.remove(i);
                self.entries.insert(i, (key, value));
                proof {
                    lemma_map_insert_present(before, key@, value);
                    let fi = first_key_index(before, key@);
                    if fi < i {
                        assert(before[fi].0 != key@);
                    } else if i < fi {
                        assert(before[i as int].0 != key@);
                    }
                    assert(self@ =~= before.update(i as int, (key@, value)));
                }
            },
            None => {
                let ghost before = self@;
                self.entries.push((key, value));
                proof {
                    lemma_map_insert_absent(before, key@, value);
                    assert(self@ =~= before.push((key@, value)));
                }
            },
        }
    }

    /// Drains `other` into `self` in order; on key collisions the
    /// entries of `other` win, as [`map_merge`] says.
    pub fn merge_from(&mut self, other: StringMap<V>)
        ensures
            final(self)@ == map_merge(old(self)@, other@),
    {
        let ghost all = other@;
        let mut rest = other;
        let ghost mut j: int = 0;
        proof {
            assert(all.take(0) =~= Seq::<(Seq<char>, V)>::empty());
        }
        while rest.entries.len() > 0
            invariant
                0 <= j <= all.len(),
                rest@.len() == all.len() - j,
                rest@ =~= all.skip(j),
                self@ == map_merge(old(self)@, all.take(j)),
            decreases rest.entries@.len(),
        {
            let ghost before_rest = rest@;
            let (key, value) = rest.entries.remove(0);
            proof {
                assert(before_rest[0] == (key@, value));
                assert(rest@ =~= before_rest.drop_first());
            }
            self.insert(key, value);
            proof {
                assert(all[j] == (key@, value));
                assert(all.take(j + 1).drop_last() =~= all.take(j));
                assert(all.take(j + 1).last() == all[j]);
                assert(rest@ =~= all.skip(j + 1));
                j = j + 1;
            }
        }
        proof {
            assert(all.take(all.len() as int) =~= all);
        }
    }
}

/// A successful lookup means the key is present.
pub proof fn lemma_map_lookup_some_contains<K, V>(m: Seq<(K, V)>, k: K)
    requires
        map_lookup(m, k) is Some,
    ensures
        map_contains_key(m, k),
    decreases m.len(),
{
    if m.len() == 0 {
    } else if m[0].0 == k {
        assert(m[0].0 == k);
    } else {
        lemma_map_lookup_some_contains(m.drop_first(), k);
        let i = choose|i: int|
            0 <= i < m.drop_first().len() && (#[trigger] m.drop_first()[i]).0 == k;
        assert(m[i + 1].0 == k);
    }
}

} // verus!
