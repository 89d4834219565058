//! What the byte formats say, told byte by byte and word by word.

use crate::abi::{
    address_word, address_words, array_values, be_bytes, be_value, joined, law_word_reads_back,
    log_view, selector, uint_word, unreadable, word_value, words_view, zeros, EventLog,
};
use crate::address::{address_byte, hex_digits, hex_value, reads_as_address, Address};
use crate::address_list::{is_first_place, swap_removed};
use crate::registry::{blank_entry, entry_at, kind_number, without, Entry, Registry};
use crate::route_path::{fee_bytes, two_hop_path};
use crate::routes::{
    candidates_view, quote_calldata, quotes, Candidate, QuoteCall, QuoteCallView, QuoteReply,
};
use crate::tokens::{usdc, weth};
use crate::word::{group_word, limbs_value, modulus, word, U256};
use vstd::prelude::*;
use vstd::string::StringSliceAdditionalSpecFns;

verus! {

broadcast use group_word;

/// A word stands for the number that its limbs make up in base `2^64`, which is below
/// `2^256`; every such number has a word, and only one.
pub proof fn law_word_is_its_limbs(w: U256, other: U256, n: nat)
    ensures
        w@ == w.limbs@[0] + w.limbs@[1] * 0x1_0000_0000_0000_0000 + w.limbs@[2]
            * 0x1_0000_0000_0000_0000_0000_0000_0000_0000 + w.limbs@[3]
            * 0x1_0000_0000_0000_0000_0000_0000_0000_0000_0000_0000_0000_0000,
        modulus()
            == 0x1_0000_0000_0000_0000_0000_0000_0000_0000_0000_0000_0000_0000_0000_0000_0000_0000,
        w@ < 0x1_0000_0000_0000_0000_0000_0000_0000_0000_0000_0000_0000_0000_0000_0000_0000_0000,
        w@ == other@ ==> w == other,
        word(w@) == w,
        n < 0x1_0000_0000_0000_0000_0000_0000_0000_0000_0000_0000_0000_0000_0000_0000_0000_0000
            ==> word(n)@ == n,
{
    reveal(limbs_value);
    if w@ == other@ {
        crate::word::lemma_word_injective(w, other);
    }
}

/// The digits of an address read back as that address, in either case and with or
/// without `0x` in front.
pub proof fn law_address_reads_back(a: Address, s: Seq<char>, i: int)
    requires
        s.len() == 40,
        0 <= i < 20,
        forall|k: int|
            0 <= k < 40 ==> ({
                let nibble = if k % 2 == 0 {
                    a@[k / 2] as int / 16
                } else {
                    a@[k / 2] as int % 16
                };
                ||| #[trigger] s[k] == seq![
                    '0', '1', '2', '3', '4', '5', '6', '7', '8', '9', 'a', 'b', 'c', 'd', 'e', 'f',
                ][nibble]
                ||| s[k] == seq![
                    '0', '1', '2', '3', '4', '5', '6', '7', '8', '9', 'A', 'B', 'C', 'D', 'E', 'F',
                ][nibble]
            }),
    ensures
        reads_as_address(s),
        address_byte(s, i) == a@[i],
        reads_as_address(seq!['0', 'x'] + s),
        address_byte(seq!['0', 'x'] + s, i) == a@[i],
        reads_as_address(seq!['0', 'X'] + s),
        address_byte(seq!['0', 'X'] + s, i) == a@[i],
{
    assert(a@.len() == 20);
    assert forall|k: int| 0 <= k < 40 implies hex_value(#[trigger] s[k]) == Some(
        (if k % 2 == 0 {
            a@[k / 2] as int / 16
        } else {
            a@[k / 2] as int % 16
        }) as nat,
    ) by {
        let nibble = if k % 2 == 0 {
            a@[k / 2] as int / 16
        } else {
            a@[k / 2] as int % 16
        };
        assert(0 <= nibble < 16);
    }
    assert(hex_value(s[1]) is Some);
    assert(hex_digits(s) == s);
    assert((seq!['0', 'x'] + s).skip(2) =~= s);
    assert((seq!['0', 'X'] + s).skip(2) =~= s);
    assert(hex_value(s[2 * i]) == Some((a@[i] as int / 16) as nat));
    assert(hex_value(s[2 * i + 1]) == Some((a@[i] as int % 16) as nat));
}

/// Nothing else reads as an address: there are forty digits, and before them nothing
/// or `0x` or `0X`.
pub proof fn law_only_forty_digits_read_as_an_address(s: Seq<char>, k: int)
    requires
        reads_as_address(s),
    ensures
        s.len() == 40 || s.len() == 42 && s[0] == '0' && (s[1] == 'x' || s[1] == 'X'),
        s.len() - 40 <= k < s.len() ==> '0' <= s[k] <= '9' || 'a' <= s[k] <= 'f' || 'A' <= s[k]
            <= 'F',
{
    if s.len() - 40 <= k < s.len() {
        let d = hex_digits(s);
        let j = k - (s.len() - 40);
        assert(d[j] == s[k]);
        assert(hex_value(d[j]) is Some);
    }
}

/// The tokens that every optimizer starts with are those of Arbitrum One.
pub proof fn law_default_tokens()
    ensures
        weth()@ == seq![
            0x82u8, 0xaf, 0x49, 0x44, 0x7d, 0x8a, 0x07, 0xe3, 0xbd, 0x95, 0xbd, 0x0d, 0x56, 0xf3,
            0x52, 0x41, 0x52, 0x3f, 0xba, 0xb1,
        ],
        usdc()@ == seq![
            0xafu8, 0x88, 0xd0, 0x65, 0xe7, 0x7c, 0x8c, 0xc2, 0x23, 0x93, 0x27, 0xc5, 0xed, 0xb3,
            0xa4, 0x32, 0x26, 0x8e, 0x58, 0x31,
        ],
{
}

/// The zero address is twenty zero bytes, and an address is its bytes.
pub proof fn law_address_is_its_bytes(a: Address, b: Address)
    ensures
        a@.len() == 20,
        a@ == b@ ==> a == b,
        Address::spec_zero()@ == Seq::new(20, |i: int| 0u8),
{
    if a@ == b@ {
        assert(a.bytes =~= b.bytes);
    }
    assert(Address::spec_zero()@ =~= Seq::new(20, |i: int| 0u8));
}

/// Bytes stand for numbers with the highest byte first: one more byte at the end makes
/// the number 256 times as large and adds itself.
pub proof fn law_bytes_are_highest_first(bytes: Seq<u8>, b: u8)
    ensures
        be_value(seq![]) == 0,
        be_value(bytes.push(b)) == 256 * be_value(bytes) + b,
{
    assert(bytes.push(b).drop_last() =~= bytes);
}

/// The word of an address is twelve zero bytes and the bytes of the address.
pub proof fn law_address_word(a: Address, i: int)
    ensures
        address_word(a).len() == 32,
        0 <= i < 12 ==> address_word(a)[i] == 0,
        12 <= i < 32 ==> address_word(a)[i] == a@[i - 12],
{
}

/// Zero bytes are zero, as many as there are to be.
pub proof fn law_zeros(len: nat, i: int)
    ensures
        zeros(len).len() == len,
        0 <= i < len ==> zeros(len)[i] == 0,
{
}

/// The words of some addresses stand one after the other.
pub proof fn law_address_words_stand_in_order(list: Seq<Address>, i: int)
    ensures
        address_words(list).len() == 32 * list.len(),
        0 <= i < list.len() ==> address_words(list).subrange(32 * i, 32 * i + 12) == Seq::new(
            12,
            |k: int| 0u8,
        ) && address_words(list).subrange(32 * i + 12, 32 * i + 32) == list[i]@,
    decreases list.len(),
{
    if list.len() > 0 {
        let front = list.drop_last();
        law_address_words_stand_in_order(front, i);
        let all = address_words(list);
        if 0 <= i < front.len() {
            law_address_words_stand_in_order(front, i);
            assert(all.subrange(32 * i, 32 * i + 12) =~= address_words(front).subrange(
                32 * i,
                32 * i + 12,
            ));
            assert(all.subrange(32 * i + 12, 32 * i + 32) =~= address_words(front).subrange(
                32 * i + 12,
                32 * i + 32,
            ));
        } else if i == front.len() {
            assert(all.subrange(32 * i, 32 * i + 12) =~= Seq::new(12, |k: int| 0u8));
            assert(all.subrange(32 * i + 12, 32 * i + 32) =~= list[i]@);
        }
    }
}

/// Words that are joined stand one after the other.
pub proof fn law_joined_words_stand_in_order(words: Seq<[u8; 32]>, i: int)
    ensures
        joined(words).len() == 32 * words.len(),
        0 <= i < words.len() ==> joined(words).subrange(32 * i, 32 * i + 32) == words[i]@,
    decreases words.len(),
{
    if words.len() > 0 {
        let front = words.drop_last();
        law_joined_words_stand_in_order(front, i);
        if 0 <= i < front.len() {
            assert(joined(words).subrange(32 * i, 32 * i + 32) =~= joined(front).subrange(
                32 * i,
                32 * i + 32,
            ));
        } else if i == front.len() {
            assert(joined(words).subrange(32 * i, 32 * i + 32) =~= words[i]@);
        }
    }
}

/// A number that is written as a word reads back from its place, whatever stands
/// before and behind it.
pub proof fn law_word_reads_back_in_place(before: Seq<u8>, n: U256, behind: Seq<u8>, i: int)
    requires
        0 <= i,
        before.len() == 32 * i,
    ensures
        word_value(before + uint_word(n@) + behind, i) == n@,
        uint_word(n@).len() == 32,
{
    law_word_reads_back(n);
    assert((before + uint_word(n@) + behind).subrange(32 * i, 32 * i + 32) =~= uint_word(n@));
}

/// An array is read from where the first word points to: there stands how many numbers
/// there are, and they follow, a word each.  Data that is too short for what it says,
/// or an array of more than a gibibyte, is not read.
pub proof fn law_array_is_read(data: Seq<u8>, i: int)
    ensures
        data.len() < 32 ==> array_values(data) is None,
        data.len() >= 32 ==> ({
            let at = be_value(data.subrange(0, 32)) as int;
            &&& at + 32 > data.len() ==> array_values(data) is None
            &&& at + 32 <= data.len() ==> ({
                let n = be_value(data.subrange(at, at + 32)) as int;
                &&& array_values(data) is Some <==> at + 32 + 32 * n <= data.len() && 32 * n
                    <= 0x4000_0000
                &&& array_values(data) matches Some(values) ==> values.len() == n && (0 <= i < n
                    ==> values[i] == be_value(
                    data.subrange(at + 32 + 32 * i, at + 64 + 32 * i),
                ))
            })
        }),
{
}

/// What a call fails with when its answer could not be read: the four bytes of
/// `Panic` and a zero word.
pub proof fn law_unreadable(i: int)
    ensures
        unreadable().len() == 36,
        unreadable().take(4) == seq![0x4eu8, 0x48u8, 0x7bu8, 0x71u8],
        4 <= i < 36 ==> unreadable()[i] == 0,
{
    lemma_zero_word(32, i - 4);
    assert(unreadable().take(4) =~= seq![0x4eu8, 0x48u8, 0x7bu8, 0x71u8]);
}

proof fn lemma_zero_word(len: nat, i: int)
    ensures
        be_bytes(0, len).len() == len,
        0 <= i < len ==> be_bytes(0, len)[i] == 0,
    decreases len,
{
    if len > 0 {
        lemma_zero_word((len - 1) as nat, i);
    }
}

/// A path is the bytes of its tokens with the fees between them, three bytes each,
/// highest first.
pub proof fn law_path_is_tokens_and_fees(
    a: Address,
    fee1: u32,
    b: Address,
    fee2: u32,
    c: Address,
)
    ensures
        ({
            let p = two_hop_path(a, fee1, b, fee2, c);
            &&& p.len() == 66
            &&& p.subrange(0, 20) == a@
            &&& p[20] * 0x1_0000 + p[21] * 0x100 + p[22] == fee1 % 0x100_0000
            &&& p.subrange(23, 43) == b@
            &&& p[43] * 0x1_0000 + p[44] * 0x100 + p[45] == fee2 % 0x100_0000
            &&& p.subrange(46, 66) == c@
        }),
{
    let p = two_hop_path(a, fee1, b, fee2, c);
    lemma_fee_bytes(fee1);
    lemma_fee_bytes(fee2);
    assert(p.subrange(0, 20) =~= a@);
    assert(p.subrange(20, 23) =~= fee_bytes(fee1));
    assert(p.subrange(23, 43) =~= b@);
    assert(p.subrange(43, 46) =~= fee_bytes(fee2));
    assert(p.subrange(46, 66) =~= c@);
    assert(p[20] == p.subrange(20, 23)[0] && p[21] == p.subrange(20, 23)[1] && p[22]
        == p.subrange(20, 23)[2]);
    assert(p[43] == p.subrange(43, 46)[0] && p[44] == p.subrange(43, 46)[1] && p[45]
        == p.subrange(43, 46)[2]);
}

/// The three bytes of a fee make up its lowest 24 bits, highest first.
proof fn lemma_fee_bytes(fee: u32)
    ensures
        fee_bytes(fee).len() == 3,
        fee_bytes(fee)[0] * 0x1_0000 + fee_bytes(fee)[1] * 0x100 + fee_bytes(fee)[2] == fee
            % 0x100_0000,
{
    assert((fee / 65536 % 256) * 0x1_0000 + (fee / 256 % 256) * 0x100 + fee % 256 == fee
        % 0x100_0000) by (bit_vector);
    assert(fee_bytes(fee)[0] == fee / 65536 % 256);
    assert(fee_bytes(fee)[1] == fee / 256 % 256);
    assert(fee_bytes(fee)[2] == fee % 256);
}

/// What is read under a number: the entry that was added as that number, and a blank
/// one where none was.
pub proof fn law_entry_is_read_by_number(entries: Seq<Entry>, index: U256)
    ensures
        index@ < entries.len() ==> entry_at(entries, index) == entries[index@ as int],
        index@ >= entries.len() ==> {
            let e = entry_at(entries, index);
            &&& e.address@ == Seq::new(20, |i: int| 0u8)
            &&& e.kind@ == 0
            &&& !e.active
        },
        blank_entry().address@ == Seq::new(20, |i: int| 0u8),
{
    law_address_is_its_bytes(Address::spec_zero(), Address::spec_zero());
}

/// Removing an entry switches it off and leaves everything else as it was.
pub proof fn law_removed_entry_is_switched_off(entries: Seq<Entry>, index: U256, i: int)
    requires
        index@ < entries.len(),
        0 <= i < entries.len(),
    ensures
        without(entries, index).len() == entries.len(),
        i != index@ ==> without(entries, index)[i] == entries[i],
        i == index@ ==> {
            let e = without(entries, index)[i];
            &&& !e.active
            &&& e.address == entries[i].address
            &&& e.kind == entries[i].kind
        },
{
}

/// A registry is the list of its entries, and a type that was registered is the type
/// that is read.
pub proof fn law_type_reads_back(registry: Registry, address: Address, kind: u64, active: bool)
    ensures
        registry@ == registry.entries@,
        kind_number(Entry { address, kind: word(kind as nat), active }) == kind,
{
    reveal(limbs_value);
    assert(word(kind as nat)@ == kind);
}

/// The first place of an address in a list is one that holds it and that no earlier
/// place does; when it is taken out, the last address takes that place and every other
/// one stays where it is.
pub proof fn law_last_takes_the_place(list: Seq<Address>, address: Address, i: int, j: int)
    ensures
        is_first_place(list, address, i) <==> 0 <= i < list.len() && list[i] == address
            && !list.take(i).contains(address),
        0 <= i < list.len() ==> {
            let t = swap_removed(list, i);
            &&& t.len() == list.len() - 1
            &&& 0 <= j < t.len() && j != i ==> t[j] == list[j]
            &&& j == i && i < t.len() ==> t[j] == list[list.len() - 1]
        },
{
    if 0 <= i < list.len() {
        let front = list.take(i);
        if is_first_place(list, address, i) {
            assert forall|k: int| 0 <= k < front.len() implies front[k] != address by {
                assert(front[k] == list[k]);
            }
        }
        if !front.contains(address) {
            assert forall|k: int| 0 <= k < i implies list[k] != address by {
                assert(front[k] == list[k]);
            }
        }
    }
}

/// What a candidate and its question stand for are their own fields.
pub proof fn law_candidate_is_its_fields(candidates: Seq<Candidate>, k: int)
    requires
        0 <= k < candidates.len(),
    ensures
        candidates_view(candidates).len() == candidates.len(),
        candidates_view(candidates)[k].tokens == candidates[k].tokens@,
        candidates_view(candidates)[k].fees == candidates[k].fees@,
        match candidates[k].call {
            QuoteCall::ExactInputSingle { quoter, token_in, token_out, fee, amount_in } =>
                candidates_view(candidates)[k].call == (QuoteCallView::ExactInputSingle {
                quoter,
                token_in,
                token_out,
                fee,
                amount_in,
            }),
            QuoteCall::ExactInput { quoter, path_bytes, amount_in } => candidates_view(
                candidates,
            )[k].call == (QuoteCallView::ExactInput { quoter, path_bytes: path_bytes@, amount_in }),
            QuoteCall::AmountsOut { router, amount_in, path } => candidates_view(candidates)[k].call
                == (QuoteCallView::AmountsOut { router, amount_in, path: path@ }),
        },
{
}

/// The calldata of a question: the first four bytes of the hash of the function's
/// signature, then the arguments, from which what is asked can be read back.
pub proof fn law_question_reads_back(call: QuoteCallView)
    ensures
        ({
            let d = quote_calldata(call);
            match call {
                QuoteCallView::ExactInputSingle { quoter, token_in, token_out, fee, amount_in } => {
                    let head = selector(
                        "quoteExactInputSingle(address,address,uint24,uint256,uint160)",
                    );
                    let args = d.skip(head.len() as int);
                    &&& d.take(head.len() as int) == head
                    &&& args.len() == 160
                    &&& args.subrange(0, 12) == zeros(12)
                    &&& args.subrange(12, 32) == token_in@
                    &&& args.subrange(32, 44) == zeros(12)
                    &&& args.subrange(44, 64) == token_out@
                    &&& word_value(args, 2) == fee
                    &&& word_value(args, 3) == amount_in@
                    &&& word_value(args, 4) == 0
                },
                QuoteCallView::ExactInput { quoter, path_bytes, amount_in } => {
                    let head = selector("quoteExactInput(bytes,uint256)");
                    let args = d.skip(head.len() as int);
                    let n = path_bytes.len() as int;
                    &&& d.take(head.len() as int) == head
                    &&& word_value(args, 0) == 64
                    &&& word_value(args, 1) == amount_in@
                    &&& n < modulus() ==> word_value(args, 2) == n
                    &&& args.subrange(96, 96 + n) == path_bytes
                    &&& args.len() >= 96 + n
                    &&& args.len() % 32 == 0
                    &&& args.len() < 128 + n
                    &&& forall|i: int| 96 + n <= i < args.len() ==> args[i] == 0
                },
                QuoteCallView::AmountsOut { router, amount_in, path } => {
                    let head = selector("getAmountsOut(uint256,address[])");
                    let args = d.skip(head.len() as int);
                    &&& d.take(head.len() as int) == head
                    &&& word_value(args, 0) == amount_in@
                    &&& word_value(args, 1) == 64
                    &&& path.len() < modulus() ==> word_value(args, 2) == path.len()
                    &&& args.skip(96) == address_words(path)
                },
            }
        }),
{
    let d = quote_calldata(call);
    lemma_word_len(0);
    lemma_word_len(64);
    match call {
        QuoteCallView::ExactInputSingle { quoter, token_in, token_out, fee, amount_in } => {
            let head = selector("quoteExactInputSingle(address,address,uint24,uint256,uint160)");
            let args = address_word(token_in) + address_word(token_out) + uint_word(fee as nat)
                + uint_word(amount_in@) + uint_word(0);
            lemma_word_len(fee as nat);
            crate::word::lemma_word_of_view(amount_in);
            lemma_word_len(amount_in@);
            assert(d.take(head.len() as int) =~= head);
            assert(d.skip(head.len() as int) =~= args);
            assert(args.subrange(0, 12) =~= zeros(12));
            assert(args.subrange(12, 32) =~= token_in@);
            assert(args.subrange(32, 44) =~= zeros(12));
            assert(args.subrange(44, 64) =~= token_out@);
            assert(args.subrange(64, 96) =~= uint_word(fee as nat));
            assert(args.subrange(96, 128) =~= uint_word(amount_in@));
            assert(args.subrange(128, 160) =~= uint_word(0));
        },
        QuoteCallView::ExactInput { quoter, path_bytes, amount_in } => {
            let head = selector("quoteExactInput(bytes,uint256)");
            let n = path_bytes.len();
            let fill = ((32 - n % 32) % 32) as nat;
            let args = uint_word(64) + uint_word(amount_in@) + uint_word(n) + path_bytes + zeros(
                fill,
            );
            crate::word::lemma_word_of_view(amount_in);
            lemma_word_len(amount_in@);
            lemma_word_len(n);
            assert(d.take(head.len() as int) =~= head);
            assert(d.skip(head.len() as int) =~= args);
            assert(args.subrange(0, 32) =~= uint_word(64));
            assert(args.subrange(32, 64) =~= uint_word(amount_in@));
            assert(args.subrange(64, 96) =~= uint_word(n));
            assert(args.subrange(96, 96 + n as int) =~= path_bytes);
            assert(args.len() == 96 + n + fill);
        },
        QuoteCallView::AmountsOut { router, amount_in, path } => {
            let head = selector("getAmountsOut(uint256,address[])");
            let args = uint_word(amount_in@) + uint_word(64) + uint_word(path.len())
                + address_words(path);
            crate::word::lemma_word_of_view(amount_in);
            lemma_word_len(amount_in@);
            lemma_word_len(path.len());
            assert(d.take(head.len() as int) =~= head);
            assert(d.skip(head.len() as int) =~= args);
            assert(args.subrange(0, 32) =~= uint_word(amount_in@));
            assert(args.subrange(32, 64) =~= uint_word(64));
            assert(args.subrange(64, 96) =~= uint_word(path.len()));
            assert(args.skip(96) =~= address_words(path));
        },
    }
}

/// A word has 32 bytes, and a number that fits reads back from it.
proof fn lemma_word_len(n: nat)
    ensures
        uint_word(n).len() == 32,
        n < modulus() ==> be_value(uint_word(n)) == n,
{
    lemma_bytes_len(n, 32);
    if n < modulus() {
        law_word_reads_back(word(n));
    }
}

proof fn lemma_bytes_len(n: nat, len: nat)
    ensures
        be_bytes(n, len).len() == len,
    decreases len,
{
    if len > 0 {
        lemma_bytes_len(n / 256, (len - 1) as nat);
    }
}

/// The selector of a function is the first four bytes of the hash of its signature.
pub proof fn law_selector_is_the_start_of_the_hash(signature: &str, i: int)
    requires
        crate::abi::keccak256(signature.spec_bytes()).len() == 32,
    ensures
        selector(signature).len() == 4,
        0 <= i < 4 ==> selector(signature)[i] == crate::abi::keccak256(signature.spec_bytes())[i],
{
}

/// How the answer to a question is read: one word from a quoter, an array of words from
/// a router; a failed call and an answer that cannot be read offer nothing.
pub proof fn law_quotes_are_read_by_words(
    call: QuoteCallView,
    returned: Result<Vec<u8>, Vec<u8>>,
    reply: QuoteReply,
    i: int,
)
    requires
        quotes(call, returned, reply),
    ensures
        match returned {
            Err(_) => reply is Failed,
            Ok(data) => match call {
                QuoteCallView::AmountsOut { .. } => {
                    &&& reply is Amounts <==> array_values(data@) is Some
                    &&& reply is Failed <==> array_values(data@) is None
                    &&& reply matches QuoteReply::Amounts(amounts) ==> {
                        &&& amounts@.len() == array_values(data@)->0.len()
                        &&& 0 <= i < amounts@.len() ==> amounts@[i]@ == array_values(data@)->0[i]
                    }
                },
                _ => {
                    &&& reply is Amount <==> data@.len() >= 32
                    &&& reply is Failed <==> data@.len() < 32
                    &&& reply matches QuoteReply::Amount(amount) ==> amount@ == be_value(
                        data@.subrange(0, 32),
                    )
                },
            },
        },
{
}

/// A log entry is its topics and its data; the first topic is the hash of the event's
/// signature, and the indexed fields follow.
pub proof fn law_log_entry(
    entry: EventLog,
    signature: &str,
    indexed: Seq<Seq<u8>>,
    data: Seq<u8>,
    i: int,
)
    ensures
        entry@.data == entry.data@,
        entry@.topics.len() == entry.topics@.len(),
        0 <= i < entry.topics@.len() ==> entry@.topics[i] == entry.topics@[i]@,
        log_view(signature, indexed, data).data == data,
        log_view(signature, indexed, data).topics.len() == 1 + indexed.len(),
        log_view(signature, indexed, data).topics[0] == crate::abi::keccak256(
            signature.spec_bytes(),
        ),
        0 <= i < indexed.len() ==> log_view(signature, indexed, data).topics[i + 1] == indexed[i],
        0 <= i < entry.topics@.len() ==> words_view(entry.topics@)[i] == entry.topics@[i]@,
{
}

} // verus!
