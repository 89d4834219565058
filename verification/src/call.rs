//! What a contract sees of the call that reached it, and how it refuses one.

use crate::address::Address;
use crate::word::U256;
use vstd::prelude::*;
use vstd::string::StringSliceAdditionalSpecFns;

verus! {

/// The call that a contract is answering.
#[derive(Clone, Copy, Debug)]
pub struct Message {
    /// Who calls.
    pub sender: Address,
    /// The ether that came with the call, in wei.
    pub value: U256,
    /// The address of the contract itself.
    pub contract_address: Address,
    /// The time of the block that holds the call, in seconds.
    pub timestamp: u64,
}

/// Whether a call was refused with `reason` as its revert data.
pub open spec fn refused<T>(r: Result<T, Vec<u8>>, reason: &str) -> bool {
    r matches Err(data) && data@ == reason.spec_bytes()
}

/// The revert data that carries `reason`.
pub fn revert_data(reason: &str) -> (data: Vec<u8>)
    ensures
        data@ == reason.spec_bytes(),
{
    reason.as_bytes_vec()
}

} // verus!
