//! Contract storage that maps every key to a value.

use crate::word::U256;
use vstd::prelude::*;

verus! {

/// A key of a [`Mapping`].
pub trait Key: Copy {
    /// Whether two keys are the same.
    fn same(&self, other: &Self) -> (r: bool)
        ensures
            r == (*self == *other),
    ;
}

impl Key for U256 {
    fn same(&self, other: &Self) -> (r: bool) {
        *self == *other
    }
}

/// A total map: keys that were never set hold the initial value.
#[verifier::reject_recursive_types(K)]
#[derive(Debug)]
pub struct Mapping<K, V> {
    entries: Vec<(K, V)>,
    initial: V,
}

/// The value of `key`: that of the last entry that has it.
spec fn lookup<K, V>(entries: Seq<(K, V)>, initial: V, key: K) -> V
    decreases entries.len(),
{
    if entries.len() == 0 {
        initial
    } else if entries.last().0 == key {
        entries.last().1
    } else {
        lookup(entries.drop_last(), initial, key)
    }
}

proof fn lemma_lookup_absent<K, V>(entries: Seq<(K, V)>, initial: V, key: K)
    requires
        forall|i: int| 0 <= i < entries.len() ==> (#[trigger] entries[i]).0 != key,
    ensures
        lookup(entries, initial, key) == initial,
    decreases entries.len(),
{
    if entries.len() > 0 {
        lemma_lookup_absent(entries.drop_last(), initial, key);
    }
}

proof fn lemma_lookup_present<K, V>(entries: Seq<(K, V)>, initial: V, key: K, at: int)
    requires
        0 <= at < entries.len(),
        entries[at].0 == key,
        forall|i: int| at < i < entries.len() ==> (#[trigger] entries[i]).0 != key,
    ensures
        lookup(entries, initial, key) == entries[at].1,
    decreases entries.len(),
{
    if at < entries.len() - 1 {
        lemma_lookup_present(entries.drop_last(), initial, key, at);
    }
}

/// Replacing the value of an entry leaves every other key alone.
proof fn lemma_lookup_other<K, V>(
    entries: Seq<(K, V)>,
    initial: V,
    at: int,
    value: V,
    other: K,
)
    requires
        0 <= at < entries.len(),
        entries[at].0 != other,
    ensures
        lookup(entries.update(at, (entries[at].0, value)), initial, other) == lookup(
            entries,
            initial,
            other,
        ),
    decreases entries.len(),
{
    let updated = entries.update(at, (entries[at].0, value));
    if at == entries.len() - 1 {
        assert(updated.drop_last() =~= entries.drop_last());
    } else {
        assert(updated.drop_last() =~= entries.drop_last().update(at, (entries[at].0, value)));
        lemma_lookup_other(entries.drop_last(), initial, at, value, other);
    }
}

impl<K, V> View for Mapping<K, V> {
    type V = Map<K, V>;

    closed spec fn view(&self) -> Map<K, V> {
        Map::new(|k: K| true, |k: K| lookup(self.entries@, self.initial, k))
    }
}

/// Every key has a value.
pub broadcast proof fn lemma_every_key_is_mapped<K, V>(mapping: Mapping<K, V>, key: K)
    ensures
        #[trigger] mapping@.dom().contains(key),
{
}

impl<K: Key, V: Copy> Mapping<K, V> {
    /// A mapping in which every key holds `initial`.
    pub fn new(initial: V) -> (r: Self)
        ensures
            r@ == Map::<K, V>::new(|k: K| true, |k: K| initial),
    {
        Mapping { entries: Vec::new(), initial }
    }

    /// The value of `key`.
    pub fn get(&self, key: K) -> (r: V)
        ensures
            r == self@[key],
    {
        match self.position(key) {
            Some(at) => {
                proof {
                    lemma_lookup_present(self.entries@, self.initial, key, at as int);
                }
                self.entries[at].1
            },
            None => {
                proof {
                    lemma_lookup_absent(self.entries@, self.initial, key);
                }
                self.initial
            },
        }
    }

    /// Gives `key` the value `value`.
    pub fn set(&mut self, key: K, value: V)
        ensures
            final(self)@ == old(self)@.insert(key, value),
    {
        let ghost before = self.entries@;
        match self.position(key) {
            Some(at) => {
                self.entries.set(at, (key, value));
                proof {
                    lemma_lookup_present(self.entries@, self.initial, key, at as int);
                    assert forall|k: K| k != key implies lookup(self.entries@, self.initial, k)
                        == lookup(before, self.initial, k) by {
                        lemma_lookup_other(before, self.initial, at as int, value, k);
                    }
                }
            },
            None => {
                self.entries.push((key, value));
                proof {
                    assert(self.entries@.drop_last() =~= before);
                }
            },
        }
        assert(self@ =~= old(self)@.insert(key, value));
    }

    /// Where the value of `key` stands.
    fn position(&self, key: K) -> (r: Option<usize>)
        ensures
            match r {
                Some(at) => at < self.entries@.len() && self.entries@[at as int].0 == key
                    && forall|i: int|
                    at < i < self.entries@.len() ==> (#[trigger] self.entries@[i]).0 != key,
                None => forall|i: int|
                    0 <= i < self.entries@.len() ==> (#[trigger] self.entries@[i]).0 != key,
            },
    {
        let mut n: usize = self.entries.len();
        while n > 0
            invariant
                n <= self.entries@.len(),
                forall|i: int| n <= i < self.entries@.len() ==> (#[trigger] self.entries@[i]).0
                    != key,
            decreases n,
        {
            if self.entries[n - 1].0.same(&key) {
                return Some(n - 1);
            }
            n -= 1;
        }
        None
    }
}

} // verus!
