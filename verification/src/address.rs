//! Account addresses.

use vstd::prelude::*;

verus! {

/// The address of an account: twenty bytes.
#[derive(Clone, Copy, Debug)]
pub struct Address {
    pub bytes: [u8; 20],
}

impl View for Address {
    type V = Seq<u8>;

    open spec fn view(&self) -> Seq<u8> {
        self.bytes@
    }
}

/// The value of a hexadecimal digit in either case; `None` for any other character.
pub open spec fn hex_value(c: char) -> Option<nat> {
    if '0' <= c <= '9' {
        Some((c as nat - '0' as nat) as nat)
    } else if 'a' <= c <= 'f' {
        Some((c as nat - 'a' as nat + 10) as nat)
    } else if 'A' <= c <= 'F' {
        Some((c as nat - 'A' as nat + 10) as nat)
    } else {
        None
    }
}

/// What is left of a hexadecimal literal without its `0x` or `0X`, if it has one.
pub open spec fn hex_digits(s: Seq<char>) -> Seq<char> {
    if s.len() >= 2 && s[0] == '0' && (s[1] == 'x' || s[1] == 'X') {
        s.skip(2)
    } else {
        s
    }
}

/// Whether a text reads as an address: forty hexadecimal digits, with or
/// without `0x` or `0X` in front.
pub open spec fn reads_as_address(s: Seq<char>) -> bool {
    &&& hex_digits(s).len() == 40
    &&& forall|i: int| 0 <= i < 40 ==> hex_value(#[trigger] hex_digits(s)[i]) is Some
}

/// Byte `i` of the address that a text reads as: its digits `2 * i` and `2 * i + 1`.
pub open spec fn address_byte(s: Seq<char>, i: int) -> nat {
    16 * hex_value(hex_digits(s)[2 * i])->0 + hex_value(hex_digits(s)[2 * i + 1])->0
}

/// Reads an address, as `str::parse::<alloy_primitives::Address>` does: an
/// optional `0x` or `0X`, then exactly forty hexadecimal digits in any mix of cases, two
/// to a byte.  Anything else is an error there and `None` here.
#[verifier::external_body]
fn alloy_parse_address(s: &str) -> (r: Option<[u8; 20]>)
    ensures
        r is Some <==> reads_as_address(s@),
        r matches Some(bytes) ==> forall|i: int|
            0 <= i < 20 ==> #[trigger] bytes@[i] == address_byte(s@, i),
{
    match s.parse::<alloy_primitives::Address>() {
        Ok(address) => Some(address.into_array()),
        Err(_) => None,
    }
}

impl PartialEq for Address {
    fn eq(&self, other: &Self) -> (r: bool) {
        let mut i: usize = 0;
        while i < 20
            invariant
                0 <= i <= 20,
                forall|j: int| 0 <= j < i ==> self.bytes@[j] == other.bytes@[j],
            decreases 20 - i,
        {
            if self.bytes[i] != other.bytes[i] {
                return false;
            }
            i += 1;
        }
        assert(self.bytes =~= other.bytes);
        true
    }
}

impl vstd::std_specs::cmp::PartialEqSpecImpl for Address {
    open spec fn obeys_eq_spec() -> bool {
        true
    }

    open spec fn eq_spec(&self, other: &Self) -> bool {
        *self == *other
    }
}

impl Eq for Address {

}

impl Address {
    /// The address whose bytes are all zero, which nobody holds.
    pub open spec fn spec_zero() -> Address {
        Address { bytes: [0, 0, 0, 0, 0, 0, 0, 0, 0, 0, 0, 0, 0, 0, 0, 0, 0, 0, 0, 0] }
    }

    /// Reads an address from its hexadecimal digits.
    pub fn parse(s: &str) -> (r: Option<Address>)
        ensures
            r is Some <==> reads_as_address(s@),
            r matches Some(a) ==> forall|i: int|
                0 <= i < 20 ==> #[trigger] a@[i] == address_byte(s@, i),
    {
        match alloy_parse_address(s) {
            Some(bytes) => Some(Address { bytes }),
            None => None,
        }
    }

    /// The address whose bytes are all zero, which nobody holds.
    pub fn zero() -> (r: Address)
        ensures
            r == Address::spec_zero(),
    {
        Address { bytes: [0, 0, 0, 0, 0, 0, 0, 0, 0, 0, 0, 0, 0, 0, 0, 0, 0, 0, 0, 0] }
    }
}

} // verus!
