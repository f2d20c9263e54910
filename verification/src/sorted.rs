//! A map that keeps its entries in the order of their keys.

use crate::text::{lemma_position_is, lemma_position_of, position_of};
use vstd::prelude::*;

verus! {

/// How one key stands to another.
#[derive(Debug, Clone, Copy, PartialEq, Eq, Structural)]
pub enum Rank {
    Before,
    Same,
    Behind,
}

/// The lexicographic order.
pub open spec fn before(a: Seq<int>, b: Seq<int>) -> bool
    decreases a.len(),
{
    if b.len() == 0 {
        false
    } else if a.len() == 0 {
        true
    } else if a[0] != b[0] {
        a[0] < b[0]
    } else {
        before(a.skip(1), b.skip(1))
    }
}

/// A key: what it is ordered by, and the comparison by that.
pub trait Key: Sized {
    /// The numbers that a key is ordered by, the most significant first.
    spec fn rank(&self) -> Seq<int>;

    /// Compares two keys.
    fn against(&self, other: &Self) -> (r: Rank)
        ensures
            r == Rank::Before <==> before(self.rank(), other.rank()),
            r == Rank::Same <==> self.rank() == other.rank(),
    ;
}

/// No key stands before itself.
pub proof fn law_before_irreflexive(a: Seq<int>)
    ensures
        !before(a, a),
    decreases a.len(),
{
    if a.len() > 0 {
        law_before_irreflexive(a.skip(1));
    }
}

/// The order is transitive.
pub proof fn law_before_transitive(a: Seq<int>, b: Seq<int>, c: Seq<int>)
    requires
        before(a, b),
        before(b, c),
    ensures
        before(a, c),
    decreases a.len(),
{
    if a.len() > 0 && a[0] == b[0] && b[0] == c[0] {
        law_before_transitive(a.skip(1), b.skip(1), c.skip(1));
    }
}

/// Of two different keys one stands before the other.
pub proof fn law_before_total(a: Seq<int>, b: Seq<int>)
    ensures
        before(a, b) || before(b, a) || a == b,
    decreases a.len(),
{
    if a.len() == 0 && b.len() == 0 {
        assert(a =~= b);
    } else if a.len() > 0 && b.len() > 0 && a[0] == b[0] {
        law_before_total(a.skip(1), b.skip(1));
        if a.skip(1) == b.skip(1) {
            assert forall|i: int| 0 <= i < a.len() implies a[i] == b[i] by {
                if i > 0 {
                    assert(a[i] == a.skip(1)[i - 1]);
                    assert(b[i] == b.skip(1)[i - 1]);
                }
            }
            assert(a.len() == a.skip(1).len() + 1);
            assert(b.len() == b.skip(1).len() + 1);
            assert(a =~= b);
        }
    }
}

/// Keys of one number are ordered by it.
pub proof fn lemma_before_one(a: int, b: int)
    ensures
        before(seq![a], seq![b]) == (a < b),
        seq![a] == seq![b] <==> a == b,
{
    assert(seq![a].skip(1) =~= Seq::<int>::empty());
    assert(seq![b].skip(1) =~= Seq::<int>::empty());
    assert(seq![a][0] == a && seq![b][0] == b);
    assert(!before(seq![a].skip(1), seq![b].skip(1)));
}

/// Keys of two numbers are ordered by the first, then by the second.
pub proof fn lemma_before_two(a: int, b: int, c: int, d: int)
    ensures
        before(seq![a, b], seq![c, d]) == (a < c || (a == c && b < d)),
        seq![a, b] == seq![c, d] <==> a == c && b == d,
{
    assert(seq![a, b].skip(1) =~= seq![b]);
    assert(seq![c, d].skip(1) =~= seq![d]);
    assert(seq![a, b][0] == a && seq![a, b][1] == b);
    assert(seq![c, d][0] == c && seq![c, d][1] == d);
    lemma_before_one(b, d);
}

/// A map whose entries stand in the order of their keys, each key once.
#[derive(Debug)]
#[verifier::reject_recursive_types(K)]
#[verifier::reject_recursive_types(V)]
pub struct SortedMap<K, V> {
    pub entries: Vec<(K, V)>,
}

/// The entries stand in the order of their keys.
pub open spec fn sorted<K: Key, V>(entries: Seq<(K, V)>) -> bool {
    forall|i: int, j: int|
        0 <= i < j < entries.len() ==> before(
            #[trigger] entries[i].0.rank(),
            #[trigger] entries[j].0.rank(),
        )
}

/// The ranks of the keys, in the order of the entries.
pub open spec fn ranks<K: Key, V>(entries: Seq<(K, V)>) -> Seq<Seq<int>> {
    Seq::new(entries.len(), |i: int| entries[i].0.rank())
}

/// The value that the entries hold for a key.
pub open spec fn value_at<K: Key, V>(entries: Seq<(K, V)>, key: Seq<int>) -> Option<V> {
    if position_of(ranks(entries), key) < entries.len() {
        Some(entries[position_of(ranks(entries), key)].1)
    } else {
        None
    }
}

/// Where a key belongs: behind the keys before it.
pub open spec fn slot<K: Key, V>(entries: Seq<(K, V)>, key: Seq<int>) -> int
    decreases entries.len(),
{
    if entries.len() == 0 || !before(entries[0].0.rank(), key) {
        0
    } else {
        1 + slot(entries.skip(1), key)
    }
}

/// The entries with a value at a key: in the place of the one that was there, or
/// where the key belongs.
pub open spec fn with_entry<K: Key, V>(entries: Seq<(K, V)>, key: K, value: V) -> Seq<(K, V)> {
    let i = position_of(ranks(entries), key.rank());
    if i < entries.len() {
        entries.update(i, (entries[i].0, value))
    } else {
        entries.insert(slot(entries, key.rank()), (key, value))
    }
}

impl<K: Key, V> SortedMap<K, V> {
    /// The entries stand in order.
    pub open spec fn wf(&self) -> bool {
        sorted(self.entries@)
    }

    /// The index of a key, or the number of entries where it is absent.
    pub open spec fn index_of(&self, key: Seq<int>) -> int {
        position_of(ranks(self.entries@), key)
    }

    pub open spec fn has(&self, key: Seq<int>) -> bool {
        self.index_of(key) < self.entries@.len()
    }

    /// The value at a key.
    pub open spec fn at(&self, key: Seq<int>) -> Option<V> {
        value_at(self.entries@, key)
    }

    /// The empty map.
    pub fn new() -> (r: Self)
        ensures
            r.wf(),
            r.entries@ == Seq::<(K, V)>::empty(),
            forall|key: Seq<int>| #[trigger] r.at(key) is None,
    {
        SortedMap { entries: Vec::new() }
    }

    pub fn len(&self) -> (n: usize)
        ensures
            n == self.entries@.len(),
    {
        self.entries.len()
    }

    pub fn is_empty(&self) -> (r: bool)
        ensures
            r == (self.entries@.len() == 0),
    {
        self.entries.len() == 0
    }

    /// The index of a key.
    pub fn find(&self, key: &K) -> (r: Option<usize>)
        ensures
            match r {
                Some(i) => i < self.entries@.len() && i == self.index_of(key.rank())
                    && self.entries@[i as int].0.rank() == key.rank(),
                None => !self.has(key.rank()),
            },
    {
        let mut i: usize = 0;
        let ghost rs = ranks(self.entries@);
        while i < self.entries.len()
            invariant
                i <= self.entries@.len(),
                rs == ranks(self.entries@),
                forall|k: int| 0 <= k < i ==> #[trigger] rs[k] != key.rank(),
            decreases self.entries@.len() - i,
        {
            match self.entries[i].0.against(key) {
                Rank::Same => {
                    proof {
                        lemma_position_is(rs, key.rank(), i as int);
                    }
                    return Some(i);
                },
                _ => {},
            }
            i += 1;
        }
        proof {
            lemma_position_is(rs, key.rank(), i as int);
        }
        None
    }

    /// Whether a key is present.
    pub fn contains_key(&self, key: &K) -> (r: bool)
        ensures
            r == self.has(key.rank()),
    {
        match self.find(key) {
            Some(_) => true,
            None => false,
        }
    }

    /// The value at a key.
    pub fn get(&self, key: &K) -> (r: Option<&V>)
        ensures
            match r {
                Some(v) => self.at(key.rank()) == Some(*v),
                None => self.at(key.rank()) is None,
            },
    {
        match self.find(key) {
            Some(i) => Some(&self.entries[i].1),
            None => None,
        }
    }

    /// The value at a key, to be changed in place.
    pub fn get_mut(&mut self, key: &K) -> (r: Option<&mut V>)
        ensures
            match r {
                Some(v) => {
                    &&& old(self).has(key.rank())
                    &&& old(self).at(key.rank()) == Some(*v)
                    &&& final(self).entries@ == with_entry(old(self).entries@, *key, *final(v))
                },
                None => !old(self).has(key.rank()) && *final(self) == *old(self),
            },
    {
        match self.find(key) {
            Some(i) => {
                proof {
                    lemma_position_of(ranks(self.entries@), key.rank());
                }
                Some(&mut self.entries[i].1)
            },
            None => None,
        }
    }

    /// The place of a key, and whether it is taken.
    fn place(&self, key: &K) -> (r: (usize, bool))
        requires
            self.wf(),
        ensures
            r.0 <= self.entries@.len(),
            r.1 ==> r.0 < self.entries@.len() && r.0 == self.index_of(key.rank())
                && self.entries@[r.0 as int].0.rank() == key.rank(),
            !r.1 ==> r.0 == slot(self.entries@, key.rank()) && !self.has(key.rank()),
    {
        let ghost r = key.rank();
        let mut i: usize = 0;
        while i < self.entries.len()
            invariant
                i <= self.entries@.len(),
                self.wf(),
                r == key.rank(),
                forall|k: int|
                    0 <= k < i ==> before(#[trigger] self.entries@[k].0.rank(), r),
            decreases self.entries@.len() - i,
        {
            match self.entries[i].0.against(key) {
                Rank::Before => {},
                Rank::Same => {
                    proof {
                        lemma_key_once(self.entries@, i as int, r);
                    }
                    return (i, true);
                },
                Rank::Behind => {
                    proof {
                        law_before_total(self.entries@[i as int].0.rank(), r);
                        lemma_slot(self.entries@, i as int, r);
                    }
                    return (i, false);
                },
            }
            i += 1;
        }
        proof {
            lemma_slot(self.entries@, i as int, r);
        }
        (i, false)
    }

    /// Puts a value at a key, in the place of one that was there.
    pub fn insert(&mut self, key: K, value: V)
        requires
            old(self).wf(),
        ensures
            final(self).wf(),
            final(self).entries@ == with_entry(old(self).entries@, key, value),
            final(self).at(key.rank()) == Some(value),
            forall|other: Seq<int>|
                other != key.rank() ==> #[trigger] final(self).at(other) == old(self).at(other),
    {
        proof {
            law_with_entry(self.entries@, key, value);
        }
        let (i, taken) = self.place(&key);
        if taken {
            self.entries[i].1 = value;
            assert(self.entries@ =~= with_entry(old(self).entries@, key, value));
        } else {
            self.entries.insert(i, (key, value));
        }
    }

    /// The value at a key, to be changed in place, and put there first where the key
    /// is absent.
    pub fn get_mut_or_insert(&mut self, key: K, value: V) -> (r: &mut V)
        requires
            old(self).wf(),
        ensures
            *r == match old(self).at(key.rank()) {
                Some(v) => v,
                None => value,
            },
            final(self).entries@ == with_entry(old(self).entries@, key, *final(r)),
            final(self).wf(),
    {
        let (i, taken) = self.place(&key);
        let ghost before_entries = self.entries@;
        proof {
            assert forall|v: V| #[trigger] sorted(with_entry(before_entries, key, v)) by {
                law_with_entry(before_entries, key, v);
            }
            lemma_position_of(ranks(before_entries), key.rank());
        }
        if !taken {
            self.entries.insert(i, (key, value));
            assert forall|v: V| self.entries@.update(i as int, (key, v))
                == #[trigger] before_entries.insert(i as int, (key, v)) by {
                assert(self.entries@.update(i as int, (key, v)) =~= before_entries.insert(
                    i as int,
                    (key, v),
                ));
            }
        }
        &mut self.entries[i].1
    }
}

/// Two entries with one key are one entry.
pub proof fn lemma_key_once<K: Key, V>(entries: Seq<(K, V)>, i: int, r: Seq<int>)
    requires
        sorted(entries),
        0 <= i < entries.len(),
        entries[i].0.rank() == r,
    ensures
        position_of(ranks(entries), r) == i,
{
    let rs = ranks(entries);
    assert forall|k: int| 0 <= k < i implies #[trigger] rs[k] != r by {
        assert(rs[k] == entries[k].0.rank());
        assert(before(entries[k].0.rank(), entries[i].0.rank()));
        law_before_irreflexive(r);
    }
    lemma_position_is(rs, r, i);
}

/// Changing the value at a key in place keeps the order, and the values at all
/// other keys.
pub proof fn lemma_replaced<K: Key, V>(entries: Seq<(K, V)>, i: int, r: Seq<int>, value: V)
    requires
        sorted(entries),
        0 <= i < entries.len(),
        entries[i].0.rank() == r,
    ensures
        position_of(ranks(entries), r) == i,
        sorted(entries.update(i, (entries[i].0, value))),
        value_at(entries.update(i, (entries[i].0, value)), r) == Some(value),
        forall|other: Seq<int>|
            other != r ==> #[trigger] value_at(entries.update(i, (entries[i].0, value)), other)
                == value_at(entries, other),
{
    let after = entries.update(i, (entries[i].0, value));
    lemma_key_once(entries, i, r);
    assert(ranks(after) =~= ranks(entries));
    assert forall|other: Seq<int>| other != r implies #[trigger] value_at(after, other)
        == value_at(entries, other) by {
        lemma_position_of(ranks(entries), other);
    }
}

proof fn lemma_slot_is<K: Key, V>(entries: Seq<(K, V)>, i: int, r: Seq<int>)
    requires
        0 <= i <= entries.len(),
        forall|k: int| 0 <= k < i ==> before(#[trigger] entries[k].0.rank(), r),
        i < entries.len() ==> !before(entries[i].0.rank(), r),
    ensures
        slot(entries, r) == i,
    decreases i,
{
    if i > 0 {
        let rest = entries.skip(1);
        assert(before(entries[0].0.rank(), r));
        assert forall|k: int| 0 <= k < i - 1 implies before(#[trigger] rest[k].0.rank(), r) by {
            assert(rest[k] == entries[k + 1]);
        }
        lemma_slot_is(rest, i - 1, r);
    }
}

/// A key that belongs between the keys before it and the others is absent.
proof fn lemma_slot<K: Key, V>(entries: Seq<(K, V)>, i: int, r: Seq<int>)
    requires
        sorted(entries),
        0 <= i <= entries.len(),
        forall|k: int| 0 <= k < i ==> before(#[trigger] entries[k].0.rank(), r),
        i < entries.len() ==> before(r, entries[i].0.rank()),
    ensures
        slot(entries, r) == i,
        position_of(ranks(entries), r) == entries.len(),
        forall|k: int| i <= k < entries.len() ==> before(r, #[trigger] entries[k].0.rank()),
{
    assert forall|k: int| i <= k < entries.len() implies before(
        r,
        #[trigger] entries[k].0.rank(),
    ) by {
        if k > i {
            law_before_transitive(r, entries[i].0.rank(), entries[k].0.rank());
        }
    }
    law_before_irreflexive(r);
    assert forall|k: int| 0 <= k < entries.len() implies #[trigger] ranks(entries)[k] != r by {
        assert(ranks(entries)[k] == entries[k].0.rank());
    }
    lemma_position_is(ranks(entries), r, entries.len() as int);
    if i < entries.len() && before(entries[i].0.rank(), r) {
        law_before_transitive(r, entries[i].0.rank(), r);
    }
    lemma_slot_is(entries, i, r);
}

/// The keys before the place of a key stand before it, and the one at the place does
/// not.
pub proof fn lemma_slot_bounds<K: Key, V>(entries: Seq<(K, V)>, r: Seq<int>)
    ensures
        0 <= slot(entries, r) <= entries.len(),
        forall|k: int| 0 <= k < slot(entries, r) ==> before(#[trigger] entries[k].0.rank(), r),
        slot(entries, r) < entries.len() ==> !before(entries[slot(entries, r)].0.rank(), r),
    decreases entries.len(),
{
    if entries.len() > 0 && before(entries[0].0.rank(), r) {
        let rest = entries.skip(1);
        lemma_slot_bounds(rest, r);
        assert forall|k: int| 0 <= k < slot(entries, r) implies before(
            #[trigger] entries[k].0.rank(),
            r,
        ) by {
            if k > 0 {
                assert(rest[k - 1] == entries[k]);
            }
        }
        if slot(entries, r) < entries.len() {
            assert(rest[slot(rest, r)] == entries[slot(entries, r)]);
        }
    }
}

/// Putting a value at a key keeps the order, makes it the value at that key, and
/// keeps the values at all other keys.
pub proof fn law_with_entry<K: Key, V>(entries: Seq<(K, V)>, key: K, value: V)
    requires
        sorted(entries),
    ensures
        sorted(with_entry(entries, key, value)),
        value_at(with_entry(entries, key, value), key.rank()) == Some(value),
        forall|other: Seq<int>|
            other != key.rank() ==> #[trigger] value_at(with_entry(entries, key, value), other)
                == value_at(entries, other),
{
    let r = key.rank();
    let at = position_of(ranks(entries), r);
    lemma_position_of(ranks(entries), r);
    if at < entries.len() {
        assert(ranks(entries)[at] == entries[at].0.rank());
        lemma_replaced(entries, at, r, value);
    } else {
        lemma_slot_bounds(entries, r);
        let i = slot(entries, r);
        if i < entries.len() {
            law_before_total(entries[i].0.rank(), r);
            assert(ranks(entries)[i] != r);
        }
        lemma_slot(entries, i, r);
        lemma_inserted(entries, i, key, value);
    }
}

/// A key goes behind the keys before it and before the others.
proof fn lemma_inserted<K: Key, V>(entries: Seq<(K, V)>, i: int, key: K, value: V)
    requires
        sorted(entries),
        0 <= i <= entries.len(),
        forall|k: int| 0 <= k < i ==> before(#[trigger] entries[k].0.rank(), key.rank()),
        forall|k: int|
            i <= k < entries.len() ==> before(key.rank(), #[trigger] entries[k].0.rank()),
    ensures
        sorted(entries.insert(i, (key, value))),
        value_at(entries.insert(i, (key, value)), key.rank()) == Some(value),
        forall|other: Seq<int>|
            other != key.rank() ==> #[trigger] value_at(entries.insert(i, (key, value)), other)
                == value_at(entries, other),
{
    let r = key.rank();
    let after = entries.insert(i, (key, value));
    assert forall|a: int, b: int| 0 <= a < b < after.len() implies before(
        #[trigger] after[a].0.rank(),
        #[trigger] after[b].0.rank(),
    ) by {
        let a0 = if a < i {
            a
        } else {
            a - 1
        };
        let b0 = if b < i {
            b
        } else {
            b - 1
        };
        if a != i {
            assert(after[a] == entries[a0]);
        }
        if b != i {
            assert(after[b] == entries[b0]);
        }
    }
    assert(after[i] == (key, value));
    lemma_key_once(after, i, r);
    assert forall|other: Seq<int>| other != r implies #[trigger] value_at(after, other)
        == value_at(entries, other) by {
        lemma_position_of(ranks(entries), other);
        let p = position_of(ranks(entries), other);
        if p < entries.len() {
            assert(ranks(entries)[p] == entries[p].0.rank());
            let q = if p < i {
                p
            } else {
                p + 1
            };
            assert(after[q] == entries[p]);
            lemma_key_once(after, q, other);
        } else {
            assert forall|k: int| 0 <= k < after.len() implies #[trigger] ranks(after)[k]
                != other by {
                if k < i {
                    assert(after[k] == entries[k]);
                    assert(ranks(entries)[k] != other);
                } else if k > i {
                    assert(after[k] == entries[k - 1]);
                    assert(ranks(entries)[k - 1] != other);
                }
            }
            lemma_position_is(ranks(after), other, after.len() as int);
        }
    }
}

} // verus!
