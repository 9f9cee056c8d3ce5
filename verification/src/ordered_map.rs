//! Insertion-ordered maps keyed by occurrence index.
//!
//! Every repeated TMATS group (`R-1`, `R-2`, ...) and every indexed
//! sub-entry (`R-1\TK1-3`) is kept in an `OrderedMap`: the keys keep the
//! order in which they were first seen, and re-inserting a key replaces its
//! value in place.  The key index is an `indexmap::IndexMap`, the values sit
//! in a parallel vector at the key's position.
use vstd::prelude::*;
use indexmap::IndexMap;

verus! {

#[verifier::external_type_specification]
#[verifier::external_body]
#[verifier::reject_recursive_types(K)]
#[verifier::reject_recursive_types(V)]
#[verifier::reject_recursive_types(S)]
pub struct ExIndexMap<K, V, S>(IndexMap<K, V, S>);

/// The keys of an index map, in the map's order.
pub uninterp spec fn index_keys(m: IndexMap<u32, ()>) -> Seq<u32>;

/// `IndexMap::new`: the new map holds no key.
#[verifier::external_body]
fn index_new() -> (m: IndexMap<u32, ()>)
    ensures
        index_keys(m) == Seq::<u32>::empty(),
{
    IndexMap::new()
}

/// `IndexMap::get_index_of`: the position of `k` in the map's order, if it is there.
#[verifier::external_body]
fn index_position(m: &IndexMap<u32, ()>, k: u32) -> (r: Option<usize>)
    ensures
        match r {
            Some(i) => i < index_keys(*m).len() && index_keys(*m)[i as int] == k,
            None => !index_keys(*m).contains(k),
        },
{
    m.get_index_of(&k)
}

/// `IndexMap::insert_full`: a key already there keeps its place and its
/// position is returned with `Some`; a new key goes last and its position is
/// returned with `None`.
#[verifier::external_body]
fn index_insert(m: &mut IndexMap<u32, ()>, k: u32) -> (r: (usize, Option<()>))
    ensures
        index_keys(*old(m)).contains(k) ==> {
            &&& index_keys(*final(m)) == index_keys(*old(m))
            &&& r.1 is Some
            &&& r.0 < index_keys(*old(m)).len()
            &&& index_keys(*old(m))[r.0 as int] == k
        },
        !index_keys(*old(m)).contains(k) ==> {
            &&& index_keys(*final(m)) == index_keys(*old(m)).push(k)
            &&& r.1 is None
            &&& r.0 == index_keys(*old(m)).len()
        },
{
    m.insert_full(k, ())
}

/// `IndexMap::get_index`: the key at a position.
#[verifier::external_body]
fn index_key_at(m: &IndexMap<u32, ()>, i: usize) -> (r: Option<u32>)
    ensures
        i < index_keys(*m).len() ==> r == Some(index_keys(*m)[i as int]),
        i >= index_keys(*m).len() ==> r is None,
{
    m.get_index(i).map(|(k, _)| *k)
}

/// `Clone` of an index map: the same keys in the same order.
#[verifier::external_body]
fn index_clone(m: &IndexMap<u32, ()>) -> (r: IndexMap<u32, ()>)
    ensures
        index_keys(r) == index_keys(*m),
{
    m.clone()
}

/// The value given to a key that is inserted without one.
pub trait DefaultModel: View + Sized {
    spec fn default_model() -> Self::V;

    fn default_value() -> (r: Self)
        ensures
            r@ == Self::default_model(),
    ;
}

/// Position of the first entry whose key is `k`.
pub open spec fn assoc_find<W>(m: Seq<(u32, W)>, k: u32) -> int
    decreases m.len(),
{
    if m.len() == 0 {
        -1
    } else if m[0].0 == k {
        0
    } else {
        let r = assoc_find(m.drop_first(), k);
        if r < 0 {
            -1
        } else {
            r + 1
        }
    }
}

/// The value of key `k`, if `k` is a key.
pub open spec fn assoc_get<W>(m: Seq<(u32, W)>, k: u32) -> Option<W> {
    let i = assoc_find(m, k);
    if i >= 0 {
        Some(m[i].1)
    } else {
        None
    }
}

/// Maps `k` to `v`: in place when `k` is a key, else appended last.
pub open spec fn assoc_put<W>(m: Seq<(u32, W)>, k: u32, v: W) -> Seq<(u32, W)> {
    let i = assoc_find(m, k);
    if i >= 0 {
        m.update(i, (k, v))
    } else {
        m.push((k, v))
    }
}

/// The keys of an association sequence.
pub open spec fn assoc_keys<W>(m: Seq<(u32, W)>) -> Seq<u32> {
    m.map_values(|e: (u32, W)| e.0)
}

pub proof fn lemma_assoc_find<W>(m: Seq<(u32, W)>, k: u32)
    ensures
        -1 <= assoc_find(m, k) < m.len(),
        assoc_find(m, k) >= 0 ==> m[assoc_find(m, k)].0 == k,
        assoc_find(m, k) >= 0 ==> forall|j: int| 0 <= j < assoc_find(m, k) ==> m[j].0 != k,
        assoc_find(m, k) == -1 ==> forall|j: int| 0 <= j < m.len() ==> m[j].0 != k,
    decreases m.len(),
{
    if m.len() > 0 && m[0].0 != k {
        let t = m.drop_first();
        lemma_assoc_find(t, k);
        assert forall|j: int| 1 <= j < m.len() implies m[j] == t[j - 1] by {}
    }
}

/// In a sequence whose keys are distinct, the entry at `i` is the one found for its key.
pub proof fn lemma_assoc_find_unique<W>(m: Seq<(u32, W)>, i: int)
    requires
        0 <= i < m.len(),
        assoc_keys(m).no_duplicates(),
    ensures
        assoc_find(m, m[i].0) == i,
{
    lemma_assoc_find(m, m[i].0);
    let f = assoc_find(m, m[i].0);
    if f != i {
        assert(assoc_keys(m)[f] == assoc_keys(m)[i]);
    }
}

/// The value of key `k`, or `d` when `k` is not a key.
pub open spec fn or_default<W>(m: Seq<(u32, W)>, k: u32, d: W) -> W {
    match assoc_get(m, k) {
        Some(v) => v,
        None => d,
    }
}

/// Putting `d` for `k` and then overwriting the entry of `k` with `v` is
/// the same as putting `v` for `k`.
pub proof fn lemma_put_over<W>(m: Seq<(u32, W)>, k: u32, d: W, v: W)
    ensures
        assoc_find(assoc_put(m, k, d), k) >= 0,
        assoc_put(m, k, d)[assoc_find(assoc_put(m, k, d), k)].0 == k,
        assoc_put(m, k, d)[assoc_find(assoc_put(m, k, d), k)].1 == d,
        assoc_put(m, k, d).update(assoc_find(assoc_put(m, k, d), k), (k, v)) == assoc_put(m, k, v),
{
    lemma_assoc_find(m, k);
    let i = assoc_find(m, k);
    let m1 = assoc_put(m, k, d);
    lemma_assoc_find(m1, k);
    if i >= 0 {
        assert forall|j: int| 0 <= j < i implies m1[j].0 != k by {}
        lemma_assoc_find_prefix(m1, k, i);
        assert(m1.update(i, (k, v)) =~= assoc_put(m, k, v));
    } else {
        lemma_assoc_find_prefix(m1, k, m.len() as int);
        assert(m1.update(m.len() as int, (k, v)) =~= assoc_put(m, k, v));
    }
}

/// Reading key `k2` after putting `v` for `k`: `v` for `k` itself, else what was there.
pub proof fn lemma_get_put<W>(m: Seq<(u32, W)>, k: u32, v: W, k2: u32)
    ensures
        assoc_get(assoc_put(m, k, v), k2) == (if k2 == k {
            Some(v)
        } else {
            assoc_get(m, k2)
        }),
{
    lemma_assoc_find(m, k);
    lemma_assoc_find(m, k2);
    let m1 = assoc_put(m, k, v);
    lemma_assoc_find(m1, k2);
    let i = assoc_find(m, k);
    let i2 = assoc_find(m, k2);
    let f = assoc_find(m1, k2);
    if k2 == k {
        if i >= 0 {
            lemma_assoc_find_prefix(m1, k, i);
        } else {
            lemma_assoc_find_prefix(m1, k, m.len() as int);
        }
    } else {
        if i2 >= 0 {
            assert forall|j: int| 0 <= j < i2 implies m1[j].0 != k2 by {
                if i >= 0 && j == i {
                } else {
                    assert(m1[j] == m[j]);
                }
            }
            assert(m1[i2] == m[i2]);
            lemma_assoc_find_prefix(m1, k2, i2);
        } else {
            if f >= 0 {
                if i >= 0 && f == i {
                } else if i < 0 && f == m.len() {
                } else {
                    assert(m1[f] == m[f]);
                }
            }
        }
    }
}

/// A key is present when reading it finds a value.
pub open spec fn has_key<W>(m: Seq<(u32, W)>, k: u32) -> bool {
    assoc_get(m, k) is Some
}

/// Putting a value keeps the keys distinct and adds its key.
pub proof fn lemma_put_keys<W>(m: Seq<(u32, W)>, k: u32, v: W)
    ensures
        forall|x: u32| #[trigger] has_key(assoc_put(m, k, v), x) == (x == k || has_key(m, x)),
        assoc_keys(m).no_duplicates() ==> assoc_keys(assoc_put(m, k, v)).no_duplicates(),
{
    assert forall|x: u32| #[trigger] has_key(assoc_put(m, k, v), x) == (x == k || has_key(m, x)) by {
        lemma_get_put(m, k, v, x);
    }
    lemma_assoc_find(m, k);
    let m1 = assoc_put(m, k, v);
    if assoc_keys(m).no_duplicates() {
        let i = assoc_find(m, k);
        assert forall|a: int, b: int| 0 <= a < assoc_keys(m1).len() && 0 <= b < assoc_keys(m1).len() && a != b
            implies assoc_keys(m1)[a] != assoc_keys(m1)[b] by {
            if i >= 0 {
                assert(assoc_keys(m)[a] != assoc_keys(m)[b]);
            } else {
                if a < m.len() && b < m.len() {
                    assert(assoc_keys(m)[a] != assoc_keys(m)[b]);
                } else if a < m.len() {
                    assert(m[a].0 != k);
                } else {
                    assert(m[b].0 != k);
                }
            }
        }
    }
}

/// Two maps with distinct keys and the same keys have as many entries.
pub proof fn lemma_same_keys_len<W, X>(m1: Seq<(u32, W)>, m2: Seq<(u32, X)>)
    requires
        assoc_keys(m1).no_duplicates(),
        assoc_keys(m2).no_duplicates(),
        forall|x: u32| has_key(m1, x) == has_key(m2, x),
    ensures
        m1.len() == m2.len(),
{
    let k1 = assoc_keys(m1);
    let k2 = assoc_keys(m2);
    assert forall|x: u32| k1.contains(x) == has_key(m1, x) by {
        lemma_assoc_find(m1, x);
        if k1.contains(x) {
            let j = choose|j: int| 0 <= j < k1.len() && k1[j] == x;
            assert(m1[j].0 == x);
        }
        if has_key(m1, x) {
            assert(k1[assoc_find(m1, x)] == x);
        }
    }
    assert forall|x: u32| k2.contains(x) == has_key(m2, x) by {
        lemma_assoc_find(m2, x);
        if k2.contains(x) {
            let j = choose|j: int| 0 <= j < k2.len() && k2[j] == x;
            assert(m2[j].0 == x);
        }
        if has_key(m2, x) {
            assert(k2[assoc_find(m2, x)] == x);
        }
    }
    assert(k1.to_set() =~= k2.to_set());
    k1.unique_seq_to_set();
    k2.unique_seq_to_set();
}

/// If no entry before `i` has key `k` and the entry at `i` does, `i` is the position found.
pub proof fn lemma_assoc_find_prefix<W>(m: Seq<(u32, W)>, k: u32, i: int)
    requires
        0 <= i < m.len(),
        m[i].0 == k,
        forall|j: int| 0 <= j < i ==> m[j].0 != k,
    ensures
        assoc_find(m, k) == i,
{
    lemma_assoc_find(m, k);
}

/// An insertion-ordered map from occurrence indices to values.
#[derive(Debug)]
pub struct OrderedMap<V> {
    index: IndexMap<u32, ()>,
    vals: Vec<V>,
}

impl<V: View> View for OrderedMap<V> {
    type V = Seq<(u32, V::V)>;

    closed spec fn view(&self) -> Seq<(u32, V::V)> {
        Seq::new(self.vals@.len(), |i: int| (index_keys(self.index)[i], self.vals@[i]@))
    }
}

impl<V> OrderedMap<V> {
    #[verifier::type_invariant]
    closed spec fn inv(self) -> bool {
        &&& index_keys(self.index).len() == self.vals@.len()
        &&& index_keys(self.index).no_duplicates()
    }
}

impl<V: View> OrderedMap<V> {

    proof fn lemma_view(&self)
        requires
            self.inv(),
        ensures
            assoc_keys(self@) == index_keys(self.index),
            assoc_keys(self@).no_duplicates(),
            self@.len() == self.vals@.len(),
    {
        assert(assoc_keys(self@) =~= index_keys(self.index));
    }

    /// An empty map.
    pub fn new() -> (m: Self)
        ensures
            m@ == Seq::<(u32, V::V)>::empty(),
    {
        let m = OrderedMap { index: index_new(), vals: Vec::new() };
        assert(m@ =~= Seq::<(u32, V::V)>::empty());
        m
    }

    /// Number of entries.
    pub fn len(&self) -> (r: usize)
        ensures
            r == self@.len(),
    {
        proof {
            use_type_invariant(self);
        }
        self.vals.len()
    }

    /// Whether the map has no entry.
    pub fn is_empty(&self) -> (r: bool)
        ensures
            r == (self@.len() == 0),
    {
        proof {
            use_type_invariant(self);
        }
        self.vals.len() == 0
    }

    /// The distinctness of the keys.
    pub fn keys_distinct(&self)
        ensures
            assoc_keys(self@).no_duplicates(),
    {
        proof {
            use_type_invariant(self);
            self.lemma_view();
        }
    }

    /// Position of key `k`, if present.
    pub fn position(&self, k: u32) -> (r: Option<usize>)
        ensures
            r matches Some(i) ==> i == assoc_find(self@, k),
            r is None ==> assoc_find(self@, k) == -1,
            r matches Some(i) ==> i < self@.len(),
    {
        proof {
            use_type_invariant(self);
            self.lemma_view();
            lemma_assoc_find(self@, k);
        }
        let r = index_position(&self.index, k);
        proof {
            if let Some(i) = r {
                lemma_assoc_find_unique(self@, i as int);
            } else {
                assert forall|j: int| 0 <= j < self@.len() implies self@[j].0 != k by {
                    assert(index_keys(self.index)[j] == self@[j].0);
                }
            }
        }
        r
    }

    /// Whether `k` is a key.
    pub fn contains_key(&self, k: u32) -> (r: bool)
        ensures
            r == (assoc_find(self@, k) >= 0),
    {
        self.position(k).is_some()
    }

    /// The value of key `k`.
    pub fn get(&self, k: &u32) -> (r: Option<&V>)
        ensures
            match r {
                Some(v) => assoc_get(self@, *k) == Some(v@),
                None => assoc_get(self@, *k) is None,
            },
    {
        proof {
            use_type_invariant(self);
        }
        match self.position(*k) {
            Some(i) => Some(&self.vals[i]),
            None => None,
        }
    }

    /// Key and value at position `i`.
    pub fn key_at(&self, i: usize) -> (r: u32)
        requires
            i < self@.len(),
        ensures
            r == self@[i as int].0,
    {
        proof {
            use_type_invariant(self);
        }
        match index_key_at(&self.index, i) {
            Some(k) => k,
            None => 0,
        }
    }

    /// Value at position `i`.
    pub fn value_at(&self, i: usize) -> (r: &V)
        requires
            i < self@.len(),
        ensures
            r@ == self@[i as int].1,
    {
        &self.vals[i]
    }

    /// Key and value at position `i`, if `i` is a position.
    pub fn get_index(&self, i: usize) -> (r: Option<(u32, &V)>)
        ensures
            i < self@.len() ==> (r matches Some(p) && p.0 == self@[i as int].0 && p.1@ == self@[i as int].1),
            i >= self@.len() ==> r is None,
    {
        if i < self.len() {
            Some((self.key_at(i), &self.vals[i]))
        } else {
            None
        }
    }

    /// The keys in order.
    pub fn keys(&self) -> (r: Vec<u32>)
        ensures
            r@ == assoc_keys(self@),
    {
        let n = self.len();
        let mut out: Vec<u32> = Vec::new();
        for i in 0..n
            invariant
                n == self@.len(),
                out@ == assoc_keys(self@).take(i as int),
        {
            let k = self.key_at(i);
            out.push(k);
            assert(out@ =~= assoc_keys(self@).take(i + 1));
        }
        assert(out@ =~= assoc_keys(self@));
        out
    }

    /// Splits the map into its key index and its values.
    fn into_parts(self) -> (r: (IndexMap<u32, ()>, Vec<V>))
        ensures
            index_keys(r.0).len() == r.1@.len(),
            index_keys(r.0).no_duplicates(),
            self@ == Seq::new(r.1@.len(), |i: int| (index_keys(r.0)[i], r.1@[i]@)),
    {
        proof {
            use_type_invariant(&self);
        }
        let OrderedMap { index, vals } = self;
        (index, vals)
    }

    /// Joins a key index and values of the same length.
    fn from_parts(index: IndexMap<u32, ()>, vals: Vec<V>) -> (r: Self)
        requires
            index_keys(index).len() == vals@.len(),
            index_keys(index).no_duplicates(),
        ensures
            r@ == Seq::new(vals@.len(), |i: int| (index_keys(index)[i], vals@[i]@)),
    {
        OrderedMap { index, vals }
    }

    /// Takes the whole map out of `self`, leaving an empty map.
    fn take_all(&mut self) -> (r: Self)
        ensures
            r@ == old(self)@,
    {
        let mut tmp = OrderedMap::new();
        core::mem::swap(self, &mut tmp);
        tmp
    }

    /// Maps `k` to `v`, in place when `k` is already a key, else last.
    pub fn insert(&mut self, k: u32, v: V)
        ensures
            final(self)@ == assoc_put(old(self)@, k, v@),
    {
        let ghost old_view = self@;
        let ghost vv = v@;
        let whole = self.take_all();
        proof {
            use_type_invariant(&whole);
            whole.lemma_view();
            lemma_assoc_find(old_view, k);
        }
        let (mut index, mut vals) = whole.into_parts();
        let ghost old_keys = index_keys(index);
        let (pos, existed) = index_insert(&mut index, k);
        if existed.is_some() {
            proof {
                lemma_assoc_find_unique(old_view, pos as int);
            }
            vals.set(pos, v);
            let m = Self::from_parts(index, vals);
            assert(m@ =~= old_view.update(pos as int, (k, vv)));
            *self = m;
        } else {
            vals.push(v);
            proof {
                assert forall|a: int, b: int| 0 <= a < b < index_keys(index).len()
                    implies index_keys(index)[a] != index_keys(index)[b] by {
                    if b == index_keys(index).len() - 1 {
                        assert(old_keys[a] == index_keys(index)[a]);
                    }
                }
                assert forall|j: int| 0 <= j < old_view.len() implies old_view[j].0 != k by {
                    assert(old_keys[j] == old_view[j].0);
                }
            }
            let m = Self::from_parts(index, vals);
            assert(m@ =~= old_view.push((k, vv)));
            *self = m;
        }
    }

}

impl<V: Clone + View> Clone for OrderedMap<V> {
    /// A map with the same keys in the same order, each value cloned.
    fn clone(&self) -> (r: Self)
        ensures
            r@.len() == self@.len(),
            assoc_keys(r@) == assoc_keys(self@),
    {
        proof {
            use_type_invariant(self);
        }
        let r = OrderedMap { index: index_clone(&self.index), vals: self.vals.clone() };
        assert(assoc_keys(r@) =~= assoc_keys(self@));
        r
    }
}

impl<V: View + DefaultModel> OrderedMap<V> {
    /// Position of key `k`, inserting `k` with the default value when absent.
    pub fn slot(&mut self, k: u32) -> (pos: usize)
        ensures
            final(self)@ == assoc_put(old(self)@, k, match assoc_get(old(self)@, k) {
                Some(v) => v,
                None => V::default_model(),
            }),
            pos == assoc_find(final(self)@, k),
            pos < final(self)@.len(),
            final(self)@[pos as int].0 == k,
    {
        match self.position(k) {
            Some(i) => {
                proof {
                    lemma_assoc_find(self@, k);
                    assert(assoc_put(self@, k, self@[i as int].1) =~= self@);
                }
                i
            },
            None => {
                let d = V::default_value();
                self.insert(k, d);
                let n = self.len();
                self.keys_distinct();
                proof {
                    lemma_assoc_find(old(self)@, k);
                    lemma_assoc_find_unique(self@, (n - 1) as int);
                }
                n - 1
            },
        }
    }

    /// Takes the value of key `k` out (the default value when `k` is not a
    /// key), leaving the default value in its entry.
    pub fn take_entry(&mut self, k: u32) -> (r: (usize, V))
        ensures
            r.1@ == or_default(old(self)@, k, V::default_model()),
            final(self)@ == assoc_put(old(self)@, k, V::default_model()),
            r.0 == assoc_find(final(self)@, k),
            r.0 < final(self)@.len(),
            final(self)@[r.0 as int].0 == k,
    {
        let ghost m = self@;
        let pos = self.slot(k);
        let ghost m1 = self@;
        let v = self.take_at(pos);
        proof {
            let cur = or_default(m, k, V::default_model());
            lemma_put_over(m, k, cur, V::default_model());
            assert(v@ == m1[pos as int].1);
            lemma_assoc_find(m1, k);
            assert forall|j: int| 0 <= j < pos implies self@[j].0 != k by {
                assert(self@[j].0 == m1[j].0);
            }
            lemma_assoc_find_prefix(self@, k, pos as int);
        }
        (pos, v)
    }

    /// Takes the value at `pos` out, leaving the default value there.
    pub fn take_at(&mut self, pos: usize) -> (r: V)
        requires
            pos < old(self)@.len(),
        ensures
            r@ == old(self)@[pos as int].1,
            final(self)@ == old(self)@.update(pos as int, (old(self)@[pos as int].0, V::default_model())),
    {
        let ghost old_view = self@;
        let whole = self.take_all();
        let (index, mut vals) = whole.into_parts();
        let mut d = V::default_value();
        vals.set_and_swap(pos, &mut d);
        let m = Self::from_parts(index, vals);
        assert(m@ =~= old_view.update(pos as int, (old_view[pos as int].0, V::default_model())));
        *self = m;
        d
    }

    /// Puts `v` at position `pos`, keeping its key.
    pub fn put_at(&mut self, pos: usize, v: V)
        requires
            pos < old(self)@.len(),
        ensures
            final(self)@ == old(self)@.update(pos as int, (old(self)@[pos as int].0, v@)),
    {
        let ghost old_view = self@;
        let ghost vv = v@;
        let whole = self.take_all();
        let (index, mut vals) = whole.into_parts();
        vals.set(pos, v);
        let m = Self::from_parts(index, vals);
        assert(m@ =~= old_view.update(pos as int, (old_view[pos as int].0, vv)));
        *self = m;
    }
}

} // verus!
