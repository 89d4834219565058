//! Lists of addresses in which the order does not matter.

use crate::address::Address;
use vstd::prelude::*;

verus! {

/// Whether `i` is the first place that holds `address`.
pub open spec fn is_first_place(list: Seq<Address>, address: Address, i: int) -> bool {
    &&& 0 <= i < list.len()
    &&& list[i] == address
    &&& forall|j: int| 0 <= j < i ==> list[j] != address
}

/// The list after its last address moved into place `i`.
pub open spec fn swap_removed(list: Seq<Address>, i: int) -> Seq<Address> {
    list.update(i, list.last()).drop_last()
}

/// The first place that holds `address`, if one does.
pub fn first_place(list: &Vec<Address>, address: Address) -> (r: Option<usize>)
    ensures
        match r {
            Some(i) => is_first_place(list@, address, i as int) && list@.contains(address),
            None => !list@.contains(address),
        },
{
    let mut i: usize = 0;
    while i < list.len()
        invariant
            i <= list@.len(),
            forall|j: int| 0 <= j < i ==> list@[j] != address,
        decreases list@.len() - i,
    {
        if list[i] == address {
            return Some(i);
        }
        i += 1;
    }
    None
}

/// Takes out the address in place `i`; the last one moves there.
pub fn remove_place(list: &mut Vec<Address>, i: usize)
    requires
        i < old(list)@.len(),
    ensures
        final(list)@ == swap_removed(old(list)@, i as int),
{
    let last = list[list.len() - 1];
    list.set(i, last);
    list.pop();
}

/// Taking out the first place of an address takes out one occurrence of it and
/// keeps every other address as often as it was there.
pub proof fn law_swap_removed_takes_one_out(list: Seq<Address>, address: Address, i: int)
    requires
        is_first_place(list, address, i),
    ensures
        swap_removed(list, i).len() == list.len() - 1,
        swap_removed(list, i).to_multiset() == list.to_multiset().remove(address),
{
    broadcast use vstd::seq_lib::group_to_multiset_ensures;

    let last = list.last();
    let front = list.drop_last();
    assert(list =~= front.push(last));
    if i < list.len() - 1 {
        assert(list.update(i, last).drop_last() =~= front.update(i, last));
        assert(front.update(i, last).to_multiset() =~= front.to_multiset().remove(address).insert(
            last,
        ));
    } else {
        assert(list.update(i, last).drop_last() =~= front);
    }
    assert(list.to_multiset() =~= front.to_multiset().insert(last));
    assert(swap_removed(list, i).to_multiset() =~= list.to_multiset().remove(address));
}

/// Adding an address that is not in the list and then taking it out leaves the list
/// as it was.
pub proof fn law_removal_undoes_addition(list: Seq<Address>, address: Address, i: int)
    requires
        !list.contains(address),
        is_first_place(list.push(address), address, i),
    ensures
        swap_removed(list.push(address), i) == list,
{
    if i < list.len() {
        assert(list[i] == address);
    }
    assert(swap_removed(list.push(address), i) =~= list);
}

} // verus!
