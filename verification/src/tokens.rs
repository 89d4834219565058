//! The tokens that every route optimizer starts with.

use crate::address::{address_byte, hex_digits, hex_value, reads_as_address, Address};
use vstd::prelude::*;

verus! {

/// Wrapped ether on Arbitrum One.
pub open spec fn weth() -> Address {
    Address {
        bytes: [
            0x82, 0xaf, 0x49, 0x44, 0x7d, 0x8a, 0x07, 0xe3, 0xbd, 0x95,
            0xbd, 0x0d, 0x56, 0xf3, 0x52, 0x41, 0x52, 0x3f, 0xba, 0xb1,
        ],
    }
}

/// USD Coin on Arbitrum One.
pub open spec fn usdc() -> Address {
    Address {
        bytes: [
            0xaf, 0x88, 0xd0, 0x65, 0xe7, 0x7c, 0x8c, 0xc2, 0x23, 0x93,
            0x27, 0xc5, 0xed, 0xb3, 0xa4, 0x32, 0x26, 0x8e, 0x58, 0x31,
        ],
    }
}

/// Whether the two digits for byte `i` in the literal `s` spell that byte of `a`.
spec fn spelled_at(s: Seq<char>, a: Address, i: int) -> bool {
    &&& hex_value(hex_digits(s)[2 * i]) is Some
    &&& hex_value(hex_digits(s)[2 * i + 1]) is Some
    &&& a@[i] == address_byte(s, i)
}

/// Whether the literal `s` spells `a`.
spec fn spelled(s: Seq<char>, a: Address) -> bool {
    &&& hex_digits(s).len() == 40
    &&& spelled_at(s, a, 0)
    &&& spelled_at(s, a, 1)
    &&& spelled_at(s, a, 2)
    &&& spelled_at(s, a, 3)
    &&& spelled_at(s, a, 4)
    &&& spelled_at(s, a, 5)
    &&& spelled_at(s, a, 6)
    &&& spelled_at(s, a, 7)
    &&& spelled_at(s, a, 8)
    &&& spelled_at(s, a, 9)
    &&& spelled_at(s, a, 10)
    &&& spelled_at(s, a, 11)
    &&& spelled_at(s, a, 12)
    &&& spelled_at(s, a, 13)
    &&& spelled_at(s, a, 14)
    &&& spelled_at(s, a, 15)
    &&& spelled_at(s, a, 16)
    &&& spelled_at(s, a, 17)
    &&& spelled_at(s, a, 18)
    &&& spelled_at(s, a, 19)
}

/// A literal that spells an address reads as an address, and as none but that one.
proof fn lemma_spelled(s: Seq<char>, a: Address, r: Address)
    requires
        spelled(s, a),
    ensures
        reads_as_address(s),
        (forall|i: int| 0 <= i < 20 ==> #[trigger] r@[i] == address_byte(s, i)) ==> r == a,
{
    assert forall|i: int| 0 <= i < 20 implies spelled_at(s, a, i) by {}
    assert forall|k: int| 0 <= k < 40 implies hex_value(#[trigger] hex_digits(s)[k]) is Some by {
        assert(spelled_at(s, a, k / 2));
    }
    if forall|i: int| 0 <= i < 20 ==> #[trigger] r@[i] == address_byte(s, i) {
        assert forall|i: int| 0 <= i < 20 implies r.bytes@[i] == a.bytes@[i] by {
            assert(spelled_at(s, a, i) && r@[i] == address_byte(s, i));
        }
        assert(r.bytes =~= a.bytes);
    }
}

/// Wrapped ether on Arbitrum One.
pub fn weth_token() -> (r: Address)
    ensures
        r == weth(),
{
    proof {
        reveal_strlit("0x82aF49447D8a07e3bd95BD0d56f35241523fBab1");
        lemma_spelled("0x82aF49447D8a07e3bd95BD0d56f35241523fBab1"@, weth(), weth());
    }
    let r = Address::parse("0x82aF49447D8a07e3bd95BD0d56f35241523fBab1").unwrap();
    proof {
        lemma_spelled("0x82aF49447D8a07e3bd95BD0d56f35241523fBab1"@, weth(), r);
    }
    r
}

/// USD Coin on Arbitrum One.
pub fn usdc_token() -> (r: Address)
    ensures
        r == usdc(),
{
    proof {
        reveal_strlit("0xaf88d065e77c8cc2239327c5edb3a432268e5831");
        lemma_spelled("0xaf88d065e77c8cc2239327c5edb3a432268e5831"@, usdc(), usdc());
    }
    let r = Address::parse("0xaf88d065e77c8cc2239327c5edb3a432268e5831").unwrap();
    proof {
        lemma_spelled("0xaf88d065e77c8cc2239327c5edb3a432268e5831"@, usdc(), r);
    }
    r
}

} // verus!
