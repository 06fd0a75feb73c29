//! An insertion-ordered map keyed by byte strings.
//!
//! Peer identities and content identifiers are byte strings of no fixed
//! length. The tables of the node that are keyed by them keep their entries
//! in a vector, in the order in which the keys first came, and hold each key
//! once.

use vstd::prelude::*;

use crate::ident::bytes_equal;

verus! {

/// The byte strings that a sequence of vectors holds.
pub open spec fn key_views(keys: Seq<Vec<u8>>) -> Seq<Seq<u8>> {
    Seq::new(keys.len(), |i: int| keys[i]@)
}

/// The map that pairs `keys[i]` with `vals[i]`.
pub open spec fn paired<V>(keys: Seq<Seq<u8>>, vals: Seq<V>) -> Map<Seq<u8>, V> {
    Map::new(|k: Seq<u8>| keys.contains(k), |k: Seq<u8>| vals[keys.index_of(k)])
}

/// In a sequence without duplicates, a value is found where it stands.
pub proof fn lemma_index_of_unique(keys: Seq<Seq<u8>>, i: int)
    requires
        keys.no_duplicates(),
        0 <= i < keys.len(),
    ensures
        keys.contains(keys[i]),
        keys.index_of(keys[i]) == i,
{
    assert(keys.contains(keys[i]));
    let j = keys.index_of(keys[i]);
    assert(0 <= j < keys.len() && keys[j] == keys[i]);
}

/// A new key at the end adds one pair to the map.
pub proof fn lemma_paired_push<V>(keys: Seq<Seq<u8>>, vals: Seq<V>, k: Seq<u8>, v: V)
    requires
        keys.no_duplicates(),
        keys.len() == vals.len(),
        !keys.contains(k),
    ensures
        keys.push(k).no_duplicates(),
        paired(keys.push(k), vals.push(v)) == paired(keys, vals).insert(k, v),
{
    let keys2 = keys.push(k);
    let vals2 = vals.push(v);
    assert forall|i: int, j: int|
        0 <= i < keys2.len() && 0 <= j < keys2.len() && i != j implies keys2[i] != keys2[j] by {
        if i < keys.len() {
            assert(keys.contains(keys[i]));
        }
        if j < keys.len() {
            assert(keys.contains(keys[j]));
        }
    }
    assert forall|x: Seq<u8>| keys2.contains(x) <==> (keys.contains(x) || x == k) by {
        if keys2.contains(x) {
            let i = choose|i: int| 0 <= i < keys2.len() && keys2[i] == x;
            if i < keys.len() {
                assert(keys[i] == x);
            }
        }
        if keys.contains(x) {
            let i = choose|i: int| 0 <= i < keys.len() && keys[i] == x;
            assert(keys2[i] == x);
        }
        if x == k {
            assert(keys2[keys.len() as int] == x);
        }
    }
    assert forall|x: Seq<u8>| keys2.contains(x) implies vals2[keys2.index_of(x)] == paired(
        keys,
        vals,
    ).insert(k, v)[x] by {
        let i = keys2.index_of(x);
        assert(0 <= i < keys2.len() && keys2[i] == x);
        if x == k {
            lemma_index_of_unique(keys2, keys.len() as int);
        } else {
            let n = keys.index_of(x);
            assert(0 <= n < keys.len() && keys[n] == x);
            lemma_index_of_unique(keys2, n);
        }
    }
    assert(paired(keys2, vals2) =~= paired(keys, vals).insert(k, v));
}

/// A new value at the place of a key changes that pair of the map.
pub proof fn lemma_paired_update<V>(keys: Seq<Seq<u8>>, vals: Seq<V>, i: int, v: V)
    requires
        keys.no_duplicates(),
        keys.len() == vals.len(),
        0 <= i < keys.len(),
    ensures
        paired(keys, vals.update(i, v)) == paired(keys, vals).insert(keys[i], v),
{
    lemma_index_of_unique(keys, i);
    assert forall|x: Seq<u8>| keys.contains(x) implies vals.update(i, v)[keys.index_of(x)]
        == paired(keys, vals).insert(keys[i], v)[x] by {
        let n = keys.index_of(x);
        assert(0 <= n < keys.len() && keys[n] == x);
    }
    assert(paired(keys, vals.update(i, v)) =~= paired(keys, vals).insert(keys[i], v));
}

/// Taking out a place takes its pair out of the map.
pub proof fn lemma_paired_remove<V>(keys: Seq<Seq<u8>>, vals: Seq<V>, i: int)
    requires
        keys.no_duplicates(),
        keys.len() == vals.len(),
        0 <= i < keys.len(),
    ensures
        keys.remove(i).no_duplicates(),
        !keys.remove(i).contains(keys[i]),
        forall|x: Seq<u8>| keys.remove(i).contains(x) <==> (keys.contains(x) && x != keys[i]),
        paired(keys.remove(i), vals.remove(i)) == paired(keys, vals).remove(keys[i]),
{
    let keys2 = keys.remove(i);
    let vals2 = vals.remove(i);
    assert forall|a: int, b: int|
        0 <= a < keys2.len() && 0 <= b < keys2.len() && a != b implies keys2[a] != keys2[b] by {
        let a0 = if a < i { a } else { a + 1 };
        let b0 = if b < i { b } else { b + 1 };
        assert(keys2[a] == keys[a0]);
        assert(keys2[b] == keys[b0]);
    }
    assert forall|x: Seq<u8>| keys2.contains(x) <==> (keys.contains(x) && x != keys[i]) by {
        if keys2.contains(x) {
            let a = choose|a: int| 0 <= a < keys2.len() && keys2[a] == x;
            let a0 = if a < i { a } else { a + 1 };
            assert(keys[a0] == x);
        }
        if keys.contains(x) && x != keys[i] {
            let n = choose|n: int| 0 <= n < keys.len() && keys[n] == x;
            let n2 = if n < i { n } else { n - 1 };
            assert(keys2[n2] == x);
        }
    }
    assert forall|x: Seq<u8>| keys2.contains(x) implies vals2[keys2.index_of(x)] == paired(
        keys,
        vals,
    )[x] by {
        let a = keys2.index_of(x);
        assert(0 <= a < keys2.len() && keys2[a] == x);
        let a0 = if a < i { a } else { a + 1 };
        assert(keys[a0] == x);
        lemma_index_of_unique(keys, a0);
    }
    assert(paired(keys2, vals2) =~= paired(keys, vals).remove(keys[i]));
}

/// A map from byte strings to values that remembers the order of arrival.
#[derive(Debug)]
pub struct ByteMap<V> {
    keys: Vec<Vec<u8>>,
    vals: Vec<V>,
}

impl<V> ByteMap<V> {
    /// The keys, in the order in which they first came.
    pub closed spec fn keys(&self) -> Seq<Seq<u8>> {
        key_views(self.keys@)
    }

    /// The values, each at the place of its key.
    pub closed spec fn values(&self) -> Seq<V> {
        self.vals@
    }

    /// Each key stands once, and each has its value.
    pub closed spec fn wf(&self) -> bool {
        &&& self.keys@.len() == self.vals@.len()
        &&& self.keys().no_duplicates()
    }

    /// The map that the table stands for.
    pub open spec fn view(&self) -> Map<Seq<u8>, V> {
        paired(self.keys(), self.values())
    }

    pub proof fn lemma_shape(&self)
        requires
            self.wf(),
        ensures
            self.keys().len() == self.values().len(),
            self.keys().no_duplicates(),
            self@.dom().finite(),
            forall|k: Seq<u8>| self@.contains_key(k) <==> self.keys().contains(k),
    {
        let keys = self.keys();
        assert(self@.dom() =~= keys.to_set());
        vstd::seq_lib::seq_to_set_is_finite(keys);
    }

    pub fn new() -> (table: ByteMap<V>)
        ensures
            table.wf(),
            table.keys() == Seq::<Seq<u8>>::empty(),
            table.values() == Seq::<V>::empty(),
            table@ == Map::<Seq<u8>, V>::empty(),
    {
        let table = ByteMap { keys: Vec::new(), vals: Vec::new() };
        proof {
            assert(table.keys() =~= Seq::<Seq<u8>>::empty());
            assert(table@ =~= Map::<Seq<u8>, V>::empty());
        }
        table
    }

    pub fn len(&self) -> (n: usize)
        requires
            self.wf(),
        ensures
            n == self.keys().len(),
            n == self.values().len(),
    {
        self.keys.len()
    }

    /// The place of `key`, if the table holds it.
    pub fn find(&self, key: &[u8]) -> (place: Option<usize>)
        requires
            self.wf(),
        ensures
            place is Some <==> self.keys().contains(key@),
            place matches Some(i) ==> i < self.keys().len() && self.keys()[i as int] == key@
                && self.keys().index_of(key@) == i,
    {
        let mut i: usize = 0;
        while i < self.keys.len()
            invariant
                i <= self.keys@.len(),
                self.wf(),
                forall|n: int| 0 <= n < i ==> self.keys()[n] != key@,
            decreases self.keys@.len() - i,
        {
            if bytes_equal(self.keys[i].as_slice(), key) {
                proof {
                    assert(self.keys()[i as int] == key@);
                    lemma_index_of_unique(self.keys(), i as int);
                }
                return Some(i);
            }
            i += 1;
        }
        proof {
            if self.keys().contains(key@) {
                let n = choose|n: int| 0 <= n < self.keys().len() && self.keys()[n] == key@;
                assert(self.keys()[n] != key@);
            }
        }
        None
    }

    pub fn contains_key(&self, key: &[u8]) -> (held: bool)
        requires
            self.wf(),
        ensures
            held == self.keys().contains(key@),
            held == self@.contains_key(key@),
    {
        self.find(key).is_some()
    }

    /// The key at a place.
    pub fn key_at(&self, i: usize) -> (key: &[u8])
        requires
            self.wf(),
            i < self.keys().len(),
        ensures
            key@ == self.keys()[i as int],
    {
        self.keys[i].as_slice()
    }

    /// The value at a place.
    pub fn value_at(&self, i: usize) -> (val: &V)
        requires
            self.wf(),
            i < self.values().len(),
        ensures
            *val == self.values()[i as int],
    {
        &self.vals[i]
    }

    /// The value of `key`, if the table holds the key.
    pub fn get(&self, key: &[u8]) -> (val: Option<&V>)
        requires
            self.wf(),
        ensures
            val is Some <==> self@.contains_key(key@),
            val matches Some(v) ==> *v == self@[key@],
    {
        match self.find(key) {
            Some(i) => Some(&self.vals[i]),
            None => None,
        }
    }

    /// Sets the value of `key`. A new key goes to the end; a known key keeps
    /// its place. Returns the value that the key had.
    pub fn insert(&mut self, key: Vec<u8>, val: V) -> (prior: Option<V>)
        requires
            old(self).wf(),
        ensures
            final(self).wf(),
            final(self)@ == old(self)@.insert(key@, val),
            prior is Some <==> old(self)@.contains_key(key@),
            prior matches Some(v) ==> v == old(self)@[key@],
            old(self).keys().contains(key@) ==> final(self).keys() == old(self).keys(),
            !old(self).keys().contains(key@) ==> final(self).keys() == old(self).keys().push(
                key@,
            ),
    {
        match self.find(key.as_slice()) {
            Some(i) => {
                let ghost keys0 = self.keys();
                let ghost vals0 = self.values();
                self.vals.push(val);
                let prior = self.vals.swap_remove(i);
                proof {
                    assert(self.values() =~= vals0.update(i as int, val));
                    lemma_paired_update(keys0, vals0, i as int, val);
                }
                Some(prior)
            },
            None => {
                let ghost keys0 = self.keys();
                let ghost vals0 = self.values();
                self.keys.push(key);
                self.vals.push(val);
                proof {
                    assert(self.keys() =~= keys0.push(key@));
                    lemma_paired_push(keys0, vals0, key@, val);
                }
                None
            },
        }
    }

    /// Takes `key` out, with its value. The other keys keep their order.
    pub fn remove(&mut self, key: &[u8]) -> (taken: Option<V>)
        requires
            old(self).wf(),
        ensures
            final(self).wf(),
            final(self)@ == old(self)@.remove(key@),
            taken is Some <==> old(self)@.contains_key(key@),
            taken matches Some(v) ==> v == old(self)@[key@],
            !old(self).keys().contains(key@) ==> final(self).keys() == old(self).keys(),
            old(self).keys().contains(key@) ==> final(self).keys() == old(self).keys().remove(
                old(self).keys().index_of(key@),
            ),
            forall|x: Seq<u8>|
                final(self).keys().contains(x) <==> (old(self).keys().contains(x) && x != key@),
    {
        match self.find(key) {
            Some(i) => {
                let ghost keys0 = self.keys();
                let ghost vals0 = self.values();
                self.keys.remove(i);
                let taken = self.vals.remove(i);
                proof {
                    assert(self.keys() =~= keys0.remove(i as int));
                    lemma_paired_remove(keys0, vals0, i as int);
                }
                Some(taken)
            },
            None => {
                proof {
                    assert(self@ =~= self@.remove(key@));
                }
                None
            },
        }
    }
}

} // verus!
