//! The byte formats of the contract interface: words, arguments, answers, logs.

use crate::address::Address;
use crate::word::{lemma_word_of_view, limbs_value, U256};
use alloy_sol_types::{sol_data, SolType};
use stylus_sdk::stylus_core::calls::errors::Error;
use vstd::prelude::*;
use vstd::string::StringSliceAdditionalSpecFns;

verus! {

/// The last `len` bytes of a number, highest first.
pub open spec fn be_bytes(n: nat, len: nat) -> Seq<u8>
    decreases len,
{
    if len == 0 {
        seq![]
    } else {
        be_bytes(n / 256, (len - 1) as nat).push((n % 256) as u8)
    }
}

/// The number that bytes stand for, highest first.
pub open spec fn be_value(bytes: Seq<u8>) -> nat
    decreases bytes.len(),
{
    if bytes.len() == 0 {
        0
    } else {
        be_value(bytes.drop_last()) * 256 + bytes.last() as nat
    }
}

/// The word of a number.
pub open spec fn uint_word(n: nat) -> Seq<u8> {
    be_bytes(n, 32)
}

/// Zero bytes.
pub open spec fn zeros(len: nat) -> Seq<u8> {
    Seq::new(len, |i: int| 0u8)
}

/// The word of an address.
pub open spec fn address_word(address: Address) -> Seq<u8> {
    zeros(12) + address@
}

/// The words of some addresses, one after the other.
pub open spec fn address_words(addresses: Seq<Address>) -> Seq<u8>
    decreases addresses.len(),
{
    if addresses.len() == 0 {
        seq![]
    } else {
        address_words(addresses.drop_last()) + address_word(addresses.last())
    }
}

/// Words, one after the other.
pub open spec fn joined(words: Seq<[u8; 32]>) -> Seq<u8>
    decreases words.len(),
{
    if words.len() == 0 {
        seq![]
    } else {
        joined(words.drop_last()) + words.last()@
    }
}

/// Word number `i` of some data, as a number.
pub open spec fn word_value(data: Seq<u8>, i: int) -> nat {
    be_value(data.subrange(32 * i, 32 * i + 32))
}

/// The numbers in data that holds an array of them: the first word says where the
/// array starts; there stands how many there are, and then they follow.  An array
/// of more than a gibibyte is not read.
pub open spec fn array_values(data: Seq<u8>) -> Option<Seq<nat>> {
    let at = word_value(data, 0) as int;
    let n = be_value(data.subrange(at, at + 32));
    if data.len() < 32 || at + 32 > data.len() || at + 32 + 32 * n > data.len() || 32 * n
        > 0x4000_0000 {
        None
    } else {
        Some(
            Seq::new(
                n,
                |i: int| be_value(data.subrange(at + 32 + 32 * i, at + 64 + 32 * i)),
            ),
        )
    }
}

/// The Keccak-256 hash of some bytes.
pub uninterp spec fn keccak256(bytes: Seq<u8>) -> Seq<u8>;

/// The four bytes that stand for a function in calldata.
pub open spec fn selector(signature: &str) -> Seq<u8> {
    keccak256(signature.spec_bytes()).take(4)
}

/// What a call fails with when its answer could not be read.
pub open spec fn unreadable() -> Seq<u8> {
    seq![0x4eu8, 0x48u8, 0x7bu8, 0x71u8] + uint_word(0)
}

/// Keccak-256, as `alloy_primitives::keccak256` computes it: the hash depends on
/// the bytes alone.
#[verifier::external_body]
fn alloy_keccak256(bytes: &Vec<u8>) -> (r: [u8; 32])
    ensures
        r@ == keccak256(bytes@),
{
    alloy_primitives::keccak256(bytes).0
}

/// The bytes of a word, highest first, as `ruint`'s `to_be_bytes` writes them.
#[verifier::external_body]
fn ruint_to_be_bytes(limbs: [u64; 4]) -> (r: [u8; 32])
    ensures
        r@ == uint_word(limbs_value(limbs@)),
{
    alloy_primitives::U256::from_limbs(limbs).to_be_bytes::<32>()
}

/// The arguments `(address)`, as alloy's `SolType::abi_encode_params` writes them:
/// the word of the address.
#[verifier::external_body]
pub(crate) fn alloy_encode_address(a: Address) -> (r: Vec<u8>)
    ensures
        r@ == address_word(a),
{
    <(sol_data::Address,) as SolType>::abi_encode_params(
        &(alloy_primitives::Address::from(a.bytes),),
    )
}

/// The arguments `(address, uint256)`, as alloy's `SolType::abi_encode_params`
/// writes them: a word for each.
#[verifier::external_body]
pub(crate) fn alloy_encode_address_uint(a: Address, n: U256) -> (r: Vec<u8>)
    ensures
        r@ == address_word(a) + uint_word(n@),
{
    <(sol_data::Address, sol_data::Uint<256>) as SolType>::abi_encode_params(
        &(
            alloy_primitives::Address::from(a.bytes),
            alloy_primitives::U256::from_limbs(n.limbs),
        ),
    )
}

/// The arguments `(address, address, uint256)`, as alloy's
/// `SolType::abi_encode_params` writes them: a word for each.
#[verifier::external_body]
pub(crate) fn alloy_encode_addresses_uint(a: Address, b: Address, n: U256) -> (r: Vec<u8>)
    ensures
        r@ == address_word(a) + address_word(b) + uint_word(n@),
{
    <(sol_data::Address, sol_data::Address, sol_data::Uint<256>) as SolType>::abi_encode_params(
        &(
            alloy_primitives::Address::from(a.bytes),
            alloy_primitives::Address::from(b.bytes),
            alloy_primitives::U256::from_limbs(n.limbs),
        ),
    )
}

/// The arguments `(address, address, uint24, uint256, uint160)`, as alloy's
/// `SolType::abi_encode_params` writes them: a word for each.  The conversion to 24
/// bits panics on a fee that does not fit.
#[verifier::external_body]
pub(crate) fn alloy_encode_single_quote(
    a: Address,
    b: Address,
    fee: u32,
    n: U256,
    limit: u64,
) -> (r: Vec<u8>)
    requires
        fee < 0x100_0000,
    ensures
        r@ == address_word(a) + address_word(b) + uint_word(fee as nat) + uint_word(n@)
            + uint_word(limit as nat),
{
    let a = alloy_primitives::Address::from(a.bytes);
    let b = alloy_primitives::Address::from(b.bytes);
    let fee = alloy_primitives::Uint::<24, 1>::from(fee);
    let n = alloy_primitives::U256::from_limbs(n.limbs);
    let limit = alloy_primitives::Uint::<160, 3>::from(limit);
    <(
        sol_data::Address,
        sol_data::Address,
        sol_data::Uint<24>,
        sol_data::Uint<256>,
        sol_data::Uint<160>,
    ) as SolType>::abi_encode_params(&(a, b, fee, n, limit))
}

/// The arguments `(bytes, uint256)`, as alloy's `SolType::abi_encode_params` writes
/// them: where the bytes start, the number, then how many bytes there are and the
/// bytes, filled up with zeros to whole words.
#[verifier::external_body]
pub(crate) fn alloy_encode_bytes_uint(bytes: &Vec<u8>, n: U256) -> (r: Vec<u8>)
    ensures
        r@ == uint_word(0x40) + uint_word(n@) + uint_word(bytes@.len()) + bytes@ + zeros(
            ((32 - bytes@.len() % 32) % 32) as nat,
        ),
{
    <(sol_data::Bytes, sol_data::Uint<256>) as SolType>::abi_encode_params(
        &(bytes.as_slice(), alloy_primitives::U256::from_limbs(n.limbs)),
    )
}

/// The arguments `(uint256, address[])`, as alloy's `SolType::abi_encode_params`
/// writes them: the number, where the list starts, then how many addresses there
/// are and a word for each.
#[verifier::external_body]
pub(crate) fn alloy_encode_uint_addresses(n: U256, list: &Vec<Address>) -> (r: Vec<u8>)
    ensures
        r@ == uint_word(n@) + uint_word(0x40) + uint_word(list@.len()) + address_words(list@),
{
    let list: Vec<alloy_primitives::Address> = list.iter().map(
        |a| alloy_primitives::Address::from(a.bytes),
    ).collect();
    <(sol_data::Uint<256>, sol_data::Array<sol_data::Address>) as SolType>::abi_encode_params(
        &(alloy_primitives::U256::from_limbs(n.limbs), list),
    )
}

/// The answer `(uint256)`, as alloy's `SolType::abi_decode_params_validate` reads
/// it: the first word; what follows is not looked at.
#[verifier::external_body]
pub(crate) fn alloy_decode_uint(data: &Vec<u8>) -> (r: Option<U256>)
    ensures
        match r {
            Some(n) => data@.len() >= 32 && n@ == word_value(data@, 0),
            None => data@.len() < 32,
        },
{
    <(sol_data::Uint<256>,) as SolType>::abi_decode_params_validate(data).ok().map(
        |(n,)| U256 { limbs: n.into_limbs() },
    )
}

/// The answer `(bool)`, as alloy's `SolType::abi_decode_params_validate` reads it:
/// the first word, which has to be 0 or 1; what follows is not looked at.
#[verifier::external_body]
pub(crate) fn alloy_decode_bool(data: &Vec<u8>) -> (r: Option<bool>)
    ensures
        match r {
            Some(b) => data@.len() >= 32 && word_value(data@, 0) == if b {
                1nat
            } else {
                0nat
            },
            None => data@.len() < 32 || word_value(data@, 0) > 1,
        },
{
    <(sol_data::Bool,) as SolType>::abi_decode_params_validate(data).ok().map(|(b,)| b)
}

/// The answer of six `uint256`, as alloy's `SolType::abi_decode_params_validate`
/// reads it: the first six words; what follows is not looked at.
#[verifier::external_body]
pub(crate) fn alloy_decode_six_uints(data: &Vec<u8>) -> (r: Option<[U256; 6]>)
    ensures
        match r {
            Some(ns) => data@.len() >= 192 && forall|i: int|
                0 <= i < 6 ==> (#[trigger] ns@[i])@ == word_value(data@, i),
            None => data@.len() < 192,
        },
{
    <(
        sol_data::Uint<256>,
        sol_data::Uint<256>,
        sol_data::Uint<256>,
        sol_data::Uint<256>,
        sol_data::Uint<256>,
        sol_data::Uint<256>,
    ) as SolType>::abi_decode_params_validate(data).ok().map(
        |(a, b, c, d, e, f)| [a, b, c, d, e, f].map(|n| U256 { limbs: n.into_limbs() }),
    )
}

/// The answer `(uint256[])`, as alloy's `SolType::abi_decode_params_validate` reads
/// it where memory does not run out.
#[verifier::external_body]
pub(crate) fn alloy_decode_uints(data: &Vec<u8>) -> (r: Option<Vec<U256>>)
    ensures
        match (r, array_values(data@)) {
            (Some(ns), Some(values)) => ns@.len() == values.len() && forall|i: int|
                0 <= i < values.len() ==> (#[trigger] ns@[i])@ == values[i],
            (None, None) => true,
            _ => false,
        },
{
    <(sol_data::Array<sol_data::Uint<256>>,) as SolType>::abi_decode_params_validate(data).ok().map(
        |(ns,)| ns.into_iter().map(|n| U256 { limbs: n.into_limbs() }).collect(),
    )
}

/// What a call fails with when its answer could not be read, as stylus turns its
/// `Error::AbiDecodingFailed` into bytes: the encoding of `Panic(0)`, whatever it was
/// that could not be read.
#[verifier::external_body]
pub(crate) fn stylus_decoding_failed() -> (r: Vec<u8>)
    ensures
        r@ == unreadable(),
{
    Vec::from(Error::AbiDecodingFailed(alloy_sol_types::Error::Overrun))
}

/// The word of a number.
pub fn encode_uint(n: U256) -> (r: [u8; 32])
    ensures
        r@ == uint_word(n@),
{
    ruint_to_be_bytes(n.limbs)
}

/// The word of an address.
pub fn encode_address(address: Address) -> (r: [u8; 32])
    ensures
        r@ == address_word(address),
{
    let mut r: [u8; 32] = [0; 32];
    let mut i: usize = 0;
    while i < 20
        invariant
            i <= 20,
            forall|j: int| 0 <= j < 12 ==> r@[j] == 0,
            forall|j: int| 12 <= j < 12 + i ==> #[trigger] r@[j] == address@[j - 12],
        decreases 20 - i,
    {
        r[12 + i] = address.bytes[i];
        i += 1;
    }
    assert(r@ =~= address_word(address));
    r
}

/// The calldata of a function with its encoded arguments.
pub fn calldata(signature: &str, arguments: Vec<u8>) -> (r: Vec<u8>)
    ensures
        r@ == selector(signature) + arguments@,
{
    let hash = alloy_keccak256(&signature.as_bytes_vec());
    let mut arguments = arguments;
    let mut r: Vec<u8> = vec![hash[0], hash[1], hash[2], hash[3]];
    assert(r@ =~= selector(signature));
    r.append(&mut arguments);
    r
}

/// A log entry, as the host takes it.
#[derive(Debug)]
pub struct EventLog {
    pub topics: Vec<[u8; 32]>,
    pub data: Vec<u8>,
}

/// What a log entry holds.
pub struct LogView {
    pub topics: Seq<Seq<u8>>,
    pub data: Seq<u8>,
}

/// The bytes of some words.
pub open spec fn words_view(words: Seq<[u8; 32]>) -> Seq<Seq<u8>> {
    words.map_values(|w: [u8; 32]| w@)
}

impl View for EventLog {
    type V = LogView;

    open spec fn view(&self) -> LogView {
        LogView { topics: words_view(self.topics@), data: self.data@ }
    }
}

/// The log entry of an event: the hash of its signature and the words of its
/// indexed fields as topics, the words of the other fields as data.
pub open spec fn log_view(signature: &str, indexed: Seq<Seq<u8>>, data: Seq<u8>) -> LogView {
    LogView { topics: seq![keccak256(signature.spec_bytes())] + indexed, data }
}

/// The log entry of an event.
pub fn event_log(signature: &str, indexed: Vec<[u8; 32]>, words: Vec<[u8; 32]>) -> (r: EventLog)
    ensures
        r@ == log_view(signature, words_view(indexed@), joined(words@)),
{
    let ghost fields = words_view(indexed@);
    let mut indexed = indexed;
    let mut topics: Vec<[u8; 32]> = vec![alloy_keccak256(&signature.as_bytes_vec())];
    topics.append(&mut indexed);
    let mut data: Vec<u8> = Vec::new();
    let mut i: usize = 0;
    assert(words@.take(0) =~= seq![]);
    while i < words.len()
        invariant
            i <= words@.len(),
            data@ =~= joined(words@.take(i as int)),
        decreases words@.len() - i,
    {
        let mut j: usize = 0;
        let ghost before = data@;
        let ghost word = words@[i as int]@;
        while j < 32
            invariant
                i < words@.len(),
                j <= 32,
                word == words@[i as int]@,
                data@ =~= before + word.take(j as int),
            decreases 32 - j,
        {
            data.push(words[i][j]);
            j += 1;
        }
        assert(word.take(32) =~= word);
        assert(words@.take(i + 1).drop_last() =~= words@.take(i as int));
        i += 1;
    }
    assert(words@.take(i as int) =~= words@);
    let r = EventLog { topics, data };
    assert(r@.topics =~= seq![keccak256(signature.spec_bytes())] + fields);
    r
}

/// How many numbers `len` bytes can hold.
pub open spec fn byte_range(len: nat) -> nat
    decreases len,
{
    if len == 0 {
        1
    } else {
        256 * byte_range((len - 1) as nat)
    }
}

/// A number that fits reads back from its bytes.
proof fn lemma_bytes_read_back(n: nat, len: nat)
    requires
        n < byte_range(len),
    ensures
        be_bytes(n, len).len() == len,
        be_value(be_bytes(n, len)) == n,
    decreases len,
{
    if len > 0 {
        lemma_bytes_read_back(n / 256, (len - 1) as nat);
        assert(be_bytes(n, len).drop_last() =~= be_bytes(n / 256, (len - 1) as nat));
    }
}

/// The word of a number has 32 bytes, and the number reads back from it.
pub proof fn law_word_reads_back(n: U256)
    ensures
        uint_word(n@).len() == 32,
        be_value(uint_word(n@)) == n@,
{
    lemma_word_of_view(n);
    reveal_with_fuel(byte_range, 33);
    lemma_bytes_read_back(n@, 32);
}

} // verus!
