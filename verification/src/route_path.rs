//! The byte encoding of two-hop paths.

use crate::address::Address;
use vstd::prelude::*;

verus! {

/// The last three bytes of a fee, highest first.
pub open spec fn fee_bytes(fee: u32) -> Seq<u8> {
    seq![(fee / 65536 % 256) as u8, (fee / 256 % 256) as u8, (fee % 256) as u8]
}

/// A two-hop path: token, fee, token, fee, token.
pub open spec fn two_hop_path(
    token_a: Address,
    fee1: u32,
    token_b: Address,
    fee2: u32,
    token_c: Address,
) -> Seq<u8> {
    token_a@ + fee_bytes(fee1) + token_b@ + fee_bytes(fee2) + token_c@
}

/// Appends the bytes of an address.
fn push_address(path: &mut Vec<u8>, token: Address)
    ensures
        final(path)@ == old(path)@ + token@,
{
    let ghost before = path@;
    let mut i: usize = 0;
    while i < 20
        invariant
            i <= 20,
            path@ == before + token@.take(i as int),
        decreases 20 - i,
    {
        path.push(token.bytes[i]);
        i += 1;
        assert(token@.take(i as int) =~= token@.take(i - 1).push(token@[i - 1]));
    }
    assert(token@.take(20) =~= token@);
}

/// Appends the last three bytes of a fee.
fn push_fee(path: &mut Vec<u8>, fee: u32)
    ensures
        final(path)@ == old(path)@ + fee_bytes(fee),
{
    path.push((fee / 65536 % 256) as u8);
    path.push((fee / 256 % 256) as u8);
    path.push((fee % 256) as u8);
    assert(path@ =~= old(path)@ + fee_bytes(fee));
}

/// Encodes a Uniswap V3 two-hop path:
/// tokenA (20 bytes) + fee1 (3 bytes) + tokenB (20 bytes) + fee2 (3 bytes) + tokenC (20 bytes)
pub fn encode_path_two_hop(
    token_a: Address,
    fee1: u32,
    token_b: Address,
    fee2: u32,
    token_c: Address,
) -> (path: Vec<u8>)
    ensures
        path@ == two_hop_path(token_a, fee1, token_b, fee2, token_c),
{
    let mut path: Vec<u8> = Vec::with_capacity(66);
    push_address(&mut path, token_a);
    push_fee(&mut path, fee1);
    push_address(&mut path, token_b);
    push_fee(&mut path, fee2);
    push_address(&mut path, token_c);
    assert(path@ =~= two_hop_path(token_a, fee1, token_b, fee2, token_c));
    path
}

/// A path is 66 bytes long, and with fees below `2^24` it determines what it was
/// made of.
pub proof fn law_two_hop_path_is_invertible(
    a: Address,
    fee1: u32,
    b: Address,
    fee2: u32,
    c: Address,
    x: Address,
    fee3: u32,
    y: Address,
    fee4: u32,
    z: Address,
)
    requires
        fee1 < 0x100_0000,
        fee2 < 0x100_0000,
        fee3 < 0x100_0000,
        fee4 < 0x100_0000,
        two_hop_path(a, fee1, b, fee2, c) == two_hop_path(x, fee3, y, fee4, z),
    ensures
        two_hop_path(a, fee1, b, fee2, c).len() == 66,
        a == x && fee1 == fee3 && b == y && fee2 == fee4 && c == z,
{
    let p = two_hop_path(a, fee1, b, fee2, c);
    let q = two_hop_path(x, fee3, y, fee4, z);
    assert(p.subrange(0, 20) =~= a@);
    assert(q.subrange(0, 20) =~= x@);
    assert(p.subrange(20, 23) =~= fee_bytes(fee1));
    assert(q.subrange(20, 23) =~= fee_bytes(fee3));
    assert(p.subrange(23, 43) =~= b@);
    assert(q.subrange(23, 43) =~= y@);
    assert(p.subrange(43, 46) =~= fee_bytes(fee2));
    assert(q.subrange(43, 46) =~= fee_bytes(fee4));
    assert(p.subrange(46, 66) =~= c@);
    assert(q.subrange(46, 66) =~= z@);
    assert(a.bytes =~= x.bytes);
    assert(b.bytes =~= y.bytes);
    assert(c.bytes =~= z.bytes);
    assert(fee_bytes(fee1)[0] == fee_bytes(fee3)[0] && fee_bytes(fee1)[1] == fee_bytes(fee3)[1]
        && fee_bytes(fee1)[2] == fee_bytes(fee3)[2]);
    assert(fee_bytes(fee2)[0] == fee_bytes(fee4)[0] && fee_bytes(fee2)[1] == fee_bytes(fee4)[1]
        && fee_bytes(fee2)[2] == fee_bytes(fee4)[2]);
}

} // verus!
