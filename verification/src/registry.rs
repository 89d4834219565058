//! The indexed registry that the contracts keep of other contracts.
//!
//! Entries are numbered in the order they were added and keep their number for
//! good.  Removing one only marks it inactive.

use crate::address::Address;
use crate::word::{group_word, lemma_word_injective, limbs_value, modulus, word, U256};
use vstd::prelude::*;

verus! {

broadcast use group_word;

/// A registered contract.
#[derive(Clone, Copy, Debug)]
pub struct Entry {
    /// Where it is.
    pub address: Address,
    /// Which interface it speaks.
    pub kind: U256,
    /// Whether it is still in use.
    pub active: bool,
}

/// What is read where nothing was ever registered.
pub open spec fn blank_entry() -> Entry {
    Entry { address: Address::spec_zero(), kind: word(0), active: false }
}

/// What is read at `index`.
pub open spec fn entry_at(entries: Seq<Entry>, index: U256) -> Entry {
    if index@ < entries.len() {
        entries[index@ as int]
    } else {
        blank_entry()
    }
}

/// The entries after `index` was removed.
pub open spec fn without(entries: Seq<Entry>, index: U256) -> Seq<Entry> {
    entries.update(index@ as int, Entry { active: false, ..entries[index@ as int] })
}

/// Whether no entry has the zero address.
pub open spec fn addresses_nonzero(entries: Seq<Entry>) -> bool {
    forall|i: int|
        0 <= i < entries.len() ==> (#[trigger] entries[i]).address != Address::spec_zero()
}

/// Whether `later` can follow `entries`: every entry keeps its number, its address
/// and its type, and none comes back into use.
pub open spec fn keeps_entries(entries: Seq<Entry>, later: Seq<Entry>) -> bool {
    &&& entries.len() <= later.len()
    &&& forall|i: int|
        #![trigger later[i]]
        0 <= i < entries.len() ==> {
            &&& later[i].address == entries[i].address
            &&& later[i].kind == entries[i].kind
            &&& later[i].active ==> entries[i].active
        }
}

/// The interface number of an entry: the lowest limb of what was stored.
pub open spec fn kind_number(entry: Entry) -> u64 {
    entry.kind.limbs@[0]
}

/// What holds between one moment and the next holds over any stretch of time:
/// numbers are permanent, the count never goes down, and a removed entry stays
/// readable and stays removed.
pub proof fn law_entries_are_kept_for_good(a: Seq<Entry>, b: Seq<Entry>, c: Seq<Entry>, index: U256)
    requires
        keeps_entries(a, b),
        keeps_entries(b, c),
    ensures
        keeps_entries(a, c),
        a.len() <= c.len(),
        index@ < a.len() ==> {
            &&& entry_at(c, index).address == entry_at(a, index).address
            &&& entry_at(c, index).kind == entry_at(a, index).kind
            &&& !entry_at(a, index).active ==> !entry_at(c, index).active
        },
{
    assert forall|i: int| #![trigger c[i]] 0 <= i < a.len() implies c[i].address == a[i].address
        && c[i].kind == a[i].kind && (c[i].active ==> a[i].active) by {
        assert(b[i].address == a[i].address);
    }
}

/// A contract that is registered again gets a number of its own; what stands under
/// its old number does not change.
pub proof fn law_registering_again_takes_a_new_number(
    entries: Seq<Entry>,
    index: U256,
    again: Entry,
)
    requires
        index@ < entries.len() < modulus(),
        again.active,
    ensures
        ({
            let later = without(entries, index).push(again);
            let number = word(without(entries, index).len());
            &&& number@ == entries.len()
            &&& number != index
            &&& entry_at(later, number) == again
            &&& entry_at(later, index) == (Entry { active: false, ..entries[index@ as int] })
            &&& later.len() == entries.len() + 1
            &&& keeps_entries(entries, later)
        }),
{
}

/// What was registered is read back under its number, and no other entry changes.
pub proof fn law_registered_entry_reads_back(entries: Seq<Entry>, entry: Entry, other: U256)
    requires
        entries.len() < modulus(),
    ensures
        entry_at(entries.push(entry), word(entries.len())) == entry,
        other != word(entries.len()) ==> entry_at(entries.push(entry), other) == entry_at(
            entries,
            other,
        ),
        keeps_entries(entries, entries.push(entry)),
{
    if other@ == entries.len() {
        lemma_word_injective(other, word(entries.len()));
    }
}

/// Removing an entry touches no other one.
pub proof fn law_removing_touches_one_entry(entries: Seq<Entry>, index: U256, other: U256)
    requires
        index@ < entries.len(),
        other != index,
    ensures
        without(entries, index).len() == entries.len(),
        entry_at(without(entries, index), other) == entry_at(entries, other),
        keeps_entries(entries, without(entries, index)),
{
    if other@ == index@ {
        lemma_word_injective(other, index);
    }
}

/// The entries, in the order they were added.
#[derive(Debug)]
pub struct Registry {
    pub entries: Vec<Entry>,
}

impl View for Registry {
    type V = Seq<Entry>;

    open spec fn view(&self) -> Seq<Entry> {
        self.entries@
    }
}

impl Registry {
    /// A registry in which nothing was registered.
    pub fn new() -> (r: Self)
        ensures
            r@ == Seq::<Entry>::empty(),
    {
        Registry { entries: Vec::new() }
    }

    /// How many entries were ever added.
    pub fn count(&self) -> (r: U256)
        ensures
            r@ == self@.len(),
            r == word(self@.len()),
    {
        U256::from(self.entries.len() as u64)
    }

    /// Registers a contract and returns its number.
    pub fn add(&mut self, address: Address, kind: u64) -> (index: U256)
        ensures
            index@ == old(self)@.len(),
            index == word(old(self)@.len()),
            final(self)@ == old(self)@.push(
                Entry { address, kind: word(kind as nat), active: true },
            ),
    {
        let index = self.count();
        self.entries.push(Entry { address, kind: U256::from(kind), active: true });
        index
    }

    /// What stands at `index`.
    pub fn get(&self, index: U256) -> (r: Entry)
        ensures
            r == entry_at(self@, index),
    {
        match self.position(index) {
            Some(i) => self.entries[i],
            None => Entry { address: Address::zero(), kind: U256::zero(), active: false },
        }
    }

    /// Marks the entry at `index` inactive.
    pub fn deactivate(&mut self, index: U256)
        requires
            index@ < old(self)@.len(),
        ensures
            final(self)@ == without(old(self)@, index),
    {
        match self.position(index) {
            Some(i) => {
                let entry = self.entries[i];
                self.entries.set(
                    i,
                    Entry { address: entry.address, kind: entry.kind, active: false },
                );
            },
            None => {},
        }
    }

    /// The position that `index` stands for, if it was ever assigned.
    fn position(&self, index: U256) -> (r: Option<usize>)
        ensures
            match r {
                Some(i) => i == index@ && index@ < self@.len(),
                None => index@ >= self@.len(),
            },
    {
        let count: usize = self.entries.len();
        if index.less_than(U256::from(count as u64)) {
            proof {
                reveal(limbs_value);
                assert(index.limbs@[1] == 0 && index.limbs@[2] == 0 && index.limbs@[3] == 0);
            }
            Some(index.limbs[0] as usize)
        } else {
            None
        }
    }
}

} // verus!
