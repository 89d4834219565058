//! The 256-bit machine word.

use vstd::prelude::*;

verus! {

/// An unsigned integer of 256 bits, as four 64-bit limbs, lowest first.
#[derive(Clone, Copy, Debug)]
pub struct U256 {
    pub limbs: [u64; 4],
}

/// The number of values a word can take: two to the power of 256.
pub open spec fn modulus() -> nat {
    0x1_0000_0000_0000_0000_0000_0000_0000_0000_0000_0000_0000_0000_0000_0000_0000_0000nat
}

/// The number that four limbs stand for.
#[verifier::opaque]
pub open spec fn limbs_value(limbs: Seq<u64>) -> nat {
    (limbs[0] + limbs[1] * 0x1_0000_0000_0000_0000 + limbs[2]
        * 0x1_0000_0000_0000_0000_0000_0000_0000_0000 + limbs[3]
        * 0x1_0000_0000_0000_0000_0000_0000_0000_0000_0000_0000_0000_0000) as nat
}

impl View for U256 {
    type V = nat;

    open spec fn view(&self) -> nat {
        limbs_value(self.limbs@)
    }
}

/// The word that stands for `n`, for `n` below [`modulus`].
pub open spec fn word(n: nat) -> U256 {
    choose|w: U256| w@ == n
}

/// Two words that stand for the same number are the same word.
pub proof fn lemma_word_injective(a: U256, b: U256)
    requires
        a@ == b@,
    ensures
        a == b,
{
    reveal(limbs_value);
    assert(a.limbs[0] == b.limbs[0] && a.limbs[1] == b.limbs[1] && a.limbs[2] == b.limbs[2]
        && a.limbs[3] == b.limbs[3]);
    assert(a.limbs =~= b.limbs);
}

/// A word is the word of its own number.
pub broadcast proof fn lemma_word_of_view(w: U256)
    ensures
        #[trigger] word(w@) == w,
        w@ < modulus(),
{
    reveal(limbs_value);
    lemma_word_injective(word(w@), w);
}

/// The word of a number that fits stands for that number.
pub broadcast proof fn lemma_view_of_word(n: nat)
    requires
        n < modulus(),
    ensures
        #[trigger] word(n)@ == n,
{
    reveal(limbs_value);
    let base: nat = 0x1_0000_0000_0000_0000;
    let l0: nat = n % base;
    let n1: nat = n / base;
    let l1: nat = n1 % base;
    let n2: nat = n1 / base;
    let l2: nat = n2 % base;
    let l3: nat = n2 / base;
    let w = U256 { limbs: [l0 as u64, l1 as u64, l2 as u64, l3 as u64] };
    assert(l3 < base);
    assert(w@ == n);
}

pub broadcast group group_word {
    lemma_word_of_view,
    lemma_view_of_word,
}

impl PartialEq for U256 {
    fn eq(&self, other: &Self) -> (r: bool) {
        let r = self.limbs[0] == other.limbs[0] && self.limbs[1] == other.limbs[1]
            && self.limbs[2] == other.limbs[2] && self.limbs[3] == other.limbs[3];
        proof {
            if r {
                assert(self.limbs =~= other.limbs);
            }
        }
        r
    }
}

impl vstd::std_specs::cmp::PartialEqSpecImpl for U256 {
    open spec fn obeys_eq_spec() -> bool {
        true
    }

    open spec fn eq_spec(&self, other: &Self) -> bool {
        *self == *other
    }
}

impl Eq for U256 {

}

impl From<u64> for U256 {
    fn from(n: u64) -> (r: U256) {
        let r = U256 { limbs: [n, 0, 0, 0] };
        proof {
            reveal(limbs_value);
            lemma_word_of_view(r);
        }
        r
    }
}

impl vstd::std_specs::convert::FromSpecImpl<u64> for U256 {
    open spec fn obeys_from_spec() -> bool {
        true
    }

    open spec fn from_spec(n: u64) -> U256 {
        word(n as nat)
    }
}

/// The sum of two words, as alloy's `U256` adds them: `ruint`'s `+` wraps around
/// at the boundary of the type.
#[verifier::external_body]
fn ruint_add(a: [u64; 4], b: [u64; 4]) -> (r: [u64; 4])
    ensures
        limbs_value(r@) == (limbs_value(a@) + limbs_value(b@)) % modulus(),
{
    (alloy_primitives::U256::from_limbs(a) + alloy_primitives::U256::from_limbs(b)).into_limbs()
}

/// Whether one word is below another, as alloy's `U256` orders them: `ruint`'s
/// `<` compares the numbers that the limbs stand for.
#[verifier::external_body]
fn ruint_lt(a: [u64; 4], b: [u64; 4]) -> (r: bool)
    ensures
        r == (limbs_value(a@) < limbs_value(b@)),
{
    alloy_primitives::U256::from_limbs(a) < alloy_primitives::U256::from_limbs(b)
}

/// The bitwise conjunction of two words, as alloy's `U256` forms it: `ruint`'s
/// `&` works limb by limb.
#[verifier::external_body]
fn ruint_bitand(a: [u64; 4], b: [u64; 4]) -> (r: [u64; 4])
    ensures
        forall|i: int| 0 <= i < 4 ==> #[trigger] r@[i] == a@[i] & b@[i],
{
    (alloy_primitives::U256::from_limbs(a) & alloy_primitives::U256::from_limbs(b)).into_limbs()
}

impl U256 {
    /// The word 0.
    pub fn zero() -> (r: U256)
        ensures
            r@ == 0,
            r == word(0),
    {
        broadcast use group_word;

        U256::from(0)
    }

    /// The largest word.
    pub fn max() -> (r: U256)
        ensures
            r@ == modulus() - 1,
    {
        proof {
            reveal(limbs_value);
        }
        U256 { limbs: [u64::MAX, u64::MAX, u64::MAX, u64::MAX] }
    }

    /// The sum, unless it does not fit into a word.
    pub fn checked_add(self, other: U256) -> (r: Option<U256>)
        ensures
            r is Some <==> self@ + other@ < modulus(),
            r matches Some(sum) ==> sum@ == self@ + other@ && sum == word(self@ + other@),
    {
        let sum = U256 { limbs: ruint_add(self.limbs, other.limbs) };
        proof {
            lemma_word_of_view(self);
            lemma_word_of_view(other);
            lemma_word_of_view(sum);
        }
        // A sum that wrapped around is below both of its parts.
        if sum.less_than(self) {
            None
        } else {
            Some(sum)
        }
    }

    /// Whether this word is below `other`.
    pub fn less_than(self, other: U256) -> (r: bool)
        ensures
            r == (self@ < other@),
    {
        ruint_lt(self.limbs, other.limbs)
    }

    /// The bits that both words have.
    pub fn bitand(self, other: U256) -> (r: U256)
        ensures
            forall|i: int|
                0 <= i < 4 ==> #[trigger] r.limbs@[i] == self.limbs@[i] & other.limbs@[i],
    {
        U256 { limbs: ruint_bitand(self.limbs, other.limbs) }
    }
}

} // verus!
