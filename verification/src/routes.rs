//! Swap routes: what a quoter is asked for each, what it answered, which is best.

use crate::abi::{
    address_word, address_words, alloy_decode_uint, alloy_decode_uints, alloy_encode_bytes_uint,
    alloy_encode_single_quote, alloy_encode_uint_addresses, array_values, calldata, selector,
    uint_word, word_value, zeros,
};
use crate::address::Address;
use crate::route_path::{encode_path_two_hop, two_hop_path};
use crate::word::{group_word, U256};
use vstd::prelude::*;

verus! {

broadcast use group_word;

/// A question to an exchange.
#[derive(Debug)]
pub enum QuoteCall {
    /// `quoteExactInputSingle` of a Uniswap V3 quoter, with no price limit.
    ExactInputSingle {
        quoter: Address,
        token_in: Address,
        token_out: Address,
        fee: u32,
        amount_in: U256,
    },
    /// `quoteExactInput` of a Uniswap V3 quoter.
    ExactInput { quoter: Address, path_bytes: Vec<u8>, amount_in: U256 },
    /// `getAmountsOut` of a V2 router.
    AmountsOut { router: Address, amount_in: U256, path: Vec<Address> },
}

/// What a [`QuoteCall`] asks.
pub enum QuoteCallView {
    ExactInputSingle {
        quoter: Address,
        token_in: Address,
        token_out: Address,
        fee: u32,
        amount_in: U256,
    },
    ExactInput { quoter: Address, path_bytes: Seq<u8>, amount_in: U256 },
    AmountsOut { router: Address, amount_in: U256, path: Seq<Address> },
}

impl View for QuoteCall {
    type V = QuoteCallView;

    open spec fn view(&self) -> QuoteCallView {
        match *self {
            QuoteCall::ExactInputSingle { quoter, token_in, token_out, fee, amount_in } =>
                QuoteCallView::ExactInputSingle { quoter, token_in, token_out, fee, amount_in },
            QuoteCall::ExactInput { quoter, path_bytes, amount_in } => QuoteCallView::ExactInput {
                quoter,
                path_bytes: path_bytes@,
                amount_in,
            },
            QuoteCall::AmountsOut { router, amount_in, path } => QuoteCallView::AmountsOut {
                router,
                amount_in,
                path: path@,
            },
        }
    }
}

impl QuoteCall {
    /// Whom the question goes to.
    pub fn target(&self) -> (r: Address)
        ensures
            match self@ {
                QuoteCallView::ExactInputSingle { quoter, .. } => r == quoter,
                QuoteCallView::ExactInput { quoter, .. } => r == quoter,
                QuoteCallView::AmountsOut { router, .. } => r == router,
            },
    {
        match self {
            QuoteCall::ExactInputSingle { quoter, .. } => *quoter,
            QuoteCall::ExactInput { quoter, .. } => *quoter,
            QuoteCall::AmountsOut { router, .. } => *router,
        }
    }

    /// Whether the question is put as a call that cannot change anything.
    pub fn is_view(&self) -> (r: bool)
        ensures
            r == (self@ is AmountsOut),
    {
        match self {
            QuoteCall::AmountsOut { .. } => true,
            _ => false,
        }
    }

    /// The question as calldata.
    pub fn calldata(&self) -> (r: Vec<u8>)
        requires
            self@ matches QuoteCallView::ExactInputSingle { fee, .. } ==> fee < 0x100_0000,
        ensures
            r@ == quote_calldata(self@),
    {
        match self {
            QuoteCall::ExactInputSingle { quoter: _, token_in, token_out, fee, amount_in } => {
                let arguments = alloy_encode_single_quote(
                    *token_in,
                    *token_out,
                    *fee,
                    *amount_in,
                    0,
                );
                calldata(
                    "quoteExactInputSingle(address,address,uint24,uint256,uint160)",
                    arguments,
                )
            },
            QuoteCall::ExactInput { quoter: _, path_bytes, amount_in } => calldata(
                "quoteExactInput(bytes,uint256)",
                alloy_encode_bytes_uint(path_bytes, *amount_in),
            ),
            QuoteCall::AmountsOut { router: _, amount_in, path } => calldata(
                "getAmountsOut(uint256,address[])",
                alloy_encode_uint_addresses(*amount_in, path),
            ),
        }
    }

    /// What came back, read as an answer to this question.
    pub fn read(&self, returned: Result<Vec<u8>, Vec<u8>>) -> (r: QuoteReply)
        ensures
            quotes(self@, returned, r),
    {
        let data = match returned {
            Err(_) => {
                return QuoteReply::Failed;
            },
            Ok(data) => data,
        };
        match self {
            QuoteCall::AmountsOut { .. } => match alloy_decode_uints(&data) {
                Some(amounts) => QuoteReply::Amounts(amounts),
                None => QuoteReply::Failed,
            },
            _ => match alloy_decode_uint(&data) {
                Some(amount) => QuoteReply::Amount(amount),
                None => QuoteReply::Failed,
            },
        }
    }
}

/// The calldata of a question.
pub open spec fn quote_calldata(call: QuoteCallView) -> Seq<u8> {
    match call {
        QuoteCallView::ExactInputSingle { quoter, token_in, token_out, fee, amount_in } => selector(
            "quoteExactInputSingle(address,address,uint24,uint256,uint160)",
        ) + (address_word(token_in) + address_word(token_out) + uint_word(fee as nat) + uint_word(
            amount_in@,
        ) + uint_word(0)),
        QuoteCallView::ExactInput { quoter, path_bytes, amount_in } => selector(
            "quoteExactInput(bytes,uint256)",
        ) + (uint_word(0x40) + uint_word(amount_in@) + uint_word(path_bytes.len()) + path_bytes
            + zeros(((32 - path_bytes.len() % 32) % 32) as nat)),
        QuoteCallView::AmountsOut { router, amount_in, path } => selector(
            "getAmountsOut(uint256,address[])",
        ) + (uint_word(amount_in@) + uint_word(0x40) + uint_word(path.len()) + address_words(path)),
    }
}

/// Whether `reply` is what `returned` says in answer to a question.  A call that
/// failed and an answer that cannot be read count as failed alike.
pub open spec fn quotes(
    call: QuoteCallView,
    returned: Result<Vec<u8>, Vec<u8>>,
    reply: QuoteReply,
) -> bool {
    match (call, returned) {
        (_, Err(_)) => reply is Failed,
        (QuoteCallView::AmountsOut { .. }, Ok(data)) => match array_values(data@) {
            Some(values) => {
                &&& reply matches QuoteReply::Amounts(amounts)
                &&& amounts@.len() == values.len()
                &&& forall|i: int| 0 <= i < values.len() ==> (#[trigger] amounts@[i])@ == values[i]
            },
            None => reply is Failed,
        },
        (_, Ok(data)) => if data@.len() < 32 {
            reply is Failed
        } else {
            reply matches QuoteReply::Amount(amount) && amount@ == word_value(data@, 0)
        },
    }
}

/// A route that may be taken, with the question that prices it.
#[derive(Debug)]
pub struct Candidate {
    pub call: QuoteCall,
    /// The tokens along the route, from first to last.
    pub tokens: Vec<Address>,
    /// The fee tier of each hop; none for a V2 router.
    pub fees: Vec<u32>,
}

/// What a [`Candidate`] stands for.
pub struct CandidateView {
    pub call: QuoteCallView,
    pub tokens: Seq<Address>,
    pub fees: Seq<u32>,
}

impl View for Candidate {
    type V = CandidateView;

    open spec fn view(&self) -> CandidateView {
        CandidateView { call: self.call@, tokens: self.tokens@, fees: self.fees@ }
    }
}

/// The candidates that a list holds.
pub open spec fn candidates_view(candidates: Seq<Candidate>) -> Seq<CandidateView> {
    candidates.map_values(|c: Candidate| c@)
}

/// What an exchange answered.
#[derive(Debug)]
pub enum QuoteReply {
    /// The call failed, or what came back could not be read.
    Failed,
    /// The amount out.
    Amount(U256),
    /// The amount at each token along the path.
    Amounts(Vec<U256>),
}

/// The amount that a reply offers for a candidate; 0 where it offers none.  A V2
/// router must have answered at least one amount for each token of the path,
/// and the last one counts.
pub open spec fn offered(candidate: CandidateView, reply: QuoteReply) -> nat {
    match (candidate.call, reply) {
        (QuoteCallView::ExactInputSingle { .. }, QuoteReply::Amount(amount)) => amount@,
        (QuoteCallView::ExactInput { .. }, QuoteReply::Amount(amount)) => amount@,
        (QuoteCallView::AmountsOut { path, .. }, QuoteReply::Amounts(amounts)) => {
            if amounts@.len() >= path.len() && path.len() > 0 {
                amounts@.last()@
            } else {
                0
            }
        },
        _ => 0,
    }
}

/// The reply to question number `k`; a question without a reply counts as failed.
pub open spec fn reply_at(replies: Seq<QuoteReply>, k: int) -> QuoteReply {
    if 0 <= k < replies.len() {
        replies[k]
    } else {
        QuoteReply::Failed
    }
}

/// The amounts offered for each of the candidates.
pub open spec fn offers(candidates: Seq<CandidateView>, replies: Seq<QuoteReply>) -> Seq<nat> {
    Seq::new(candidates.len(), |k: int| offered(candidates[k], reply_at(replies, k)))
}

/// Whether `k` is the first of the largest amounts, and that is not 0.
pub open spec fn is_first_largest(amounts: Seq<nat>, k: int) -> bool {
    &&& 0 <= k < amounts.len()
    &&& amounts[k] > 0
    &&& forall|j: int| 0 <= j < amounts.len() ==> amounts[j] <= amounts[k]
    &&& forall|j: int| 0 <= j < k ==> amounts[j] < amounts[k]
}

/// Whether nothing was offered at all.
pub open spec fn nothing_offered(amounts: Seq<nat>) -> bool {
    forall|j: int| 0 <= j < amounts.len() ==> amounts[j] == 0
}

/// The largest of the amounts; 0 where there are none.
pub open spec fn largest(amounts: Seq<nat>) -> nat
    decreases amounts.len(),
{
    if amounts.len() == 0 {
        0
    } else if amounts.last() > largest(amounts.drop_last()) {
        amounts.last()
    } else {
        largest(amounts.drop_last())
    }
}

/// A route and what it gives.
pub struct RouteView {
    pub amount_out: nat,
    pub tokens: Seq<Address>,
    pub fees: Seq<u32>,
}

/// The best route known after the candidates were compared with the best one
/// known before: one replaces it only by offering more.
pub open spec fn improved(
    best: RouteView,
    candidates: Seq<CandidateView>,
    amounts: Seq<nat>,
) -> RouteView
    decreases candidates.len(),
{
    if candidates.len() == 0 {
        best
    } else {
        let before = improved(best, candidates.drop_last(), amounts.drop_last());
        if amounts.last() > before.amount_out {
            RouteView {
                amount_out: amounts.last(),
                tokens: candidates.last().tokens,
                fees: candidates.last().fees,
            }
        } else {
            before
        }
    }
}

/// No route at all.
pub open spec fn no_route() -> RouteView {
    RouteView { amount_out: 0, tokens: seq![], fees: seq![] }
}

/// Whether `best` is the first of the best candidates, or no route where nothing
/// was offered.
pub open spec fn is_best_route(
    best: RouteView,
    candidates: Seq<CandidateView>,
    amounts: Seq<nat>,
) -> bool {
    if nothing_offered(amounts) {
        best == no_route()
    } else {
        exists|k: int| #[trigger]
            is_first_largest(amounts, k) && best == (RouteView {
                amount_out: amounts[k],
                tokens: candidates[k].tokens,
                fees: candidates[k].fees,
            })
    }
}

/// Comparing one after the other from no route on finds the first best candidate.
pub proof fn lemma_improved_is_best(candidates: Seq<CandidateView>, amounts: Seq<nat>)
    requires
        candidates.len() == amounts.len(),
    ensures
        is_best_route(improved(no_route(), candidates, amounts), candidates, amounts),
    decreases candidates.len(),
{
    let best = improved(no_route(), candidates, amounts);
    if candidates.len() > 0 {
        let n = candidates.len() - 1;
        let cs = candidates.drop_last();
        let ams = amounts.drop_last();
        lemma_improved_is_best(cs, ams);
        let before = improved(no_route(), cs, ams);
        assert forall|j: int| 0 <= j < n implies ams[j] == amounts[j] by {}
        if nothing_offered(ams) {
            if amounts[n] > 0 {
                assert(is_first_largest(amounts, n));
                assert(!nothing_offered(amounts));
            } else {
                assert(nothing_offered(amounts)) by {
                    assert forall|j: int| 0 <= j < amounts.len() implies amounts[j] == 0 by {
                        if j < n {
                            assert(ams[j] == amounts[j]);
                        }
                    }
                }
            }
        } else {
            let k = choose|k: int| #[trigger]
                is_first_largest(ams, k) && before == (RouteView {
                    amount_out: ams[k],
                    tokens: cs[k].tokens,
                    fees: cs[k].fees,
                });
            assert(ams[k] == amounts[k]);
            assert(!nothing_offered(amounts));
            if amounts[n] > before.amount_out {
                assert(is_first_largest(amounts, n));
            } else {
                assert(is_first_largest(amounts, k));
            }
        }
    }
}

/// What one more amount does to the first largest of the amounts before it.
pub proof fn lemma_first_largest_push(amounts: Seq<nat>, amount: nat, k: int)
    ensures
        nothing_offered(amounts) && amount == 0 ==> nothing_offered(amounts.push(amount)),
        nothing_offered(amounts) && amount > 0 ==> is_first_largest(
            amounts.push(amount),
            amounts.len() as int,
        ),
        is_first_largest(amounts, k) && amount <= amounts[k] ==> is_first_largest(
            amounts.push(amount),
            k,
        ),
        is_first_largest(amounts, k) && amount > amounts[k] ==> is_first_largest(
            amounts.push(amount),
            amounts.len() as int,
        ),
{
}

/// Comparing two lists one after the other is comparing their concatenation.
pub proof fn lemma_improved_concat(
    best: RouteView,
    c1: Seq<CandidateView>,
    a1: Seq<nat>,
    c2: Seq<CandidateView>,
    a2: Seq<nat>,
)
    requires
        c1.len() == a1.len(),
        c2.len() == a2.len(),
    ensures
        improved(best, c1 + c2, a1 + a2) == improved(improved(best, c1, a1), c2, a2),
    decreases c2.len(),
{
    if c2.len() == 0 {
        assert(c1 + c2 =~= c1);
        assert(a1 + a2 =~= a1);
    } else {
        assert((c1 + c2).drop_last() =~= c1 + c2.drop_last());
        assert((a1 + a2).drop_last() =~= a1 + a2.drop_last());
        lemma_improved_concat(best, c1, a1, c2.drop_last(), a2.drop_last());
    }
}

/// The largest of some amounts is among them, unless it is 0, and none is larger.
pub proof fn lemma_largest(amounts: Seq<nat>)
    ensures
        forall|j: int| 0 <= j < amounts.len() ==> amounts[j] <= largest(amounts),
        largest(amounts) > 0 ==> exists|j: int|
            0 <= j < amounts.len() && amounts[j] == largest(amounts),
    decreases amounts.len(),
{
    if amounts.len() > 0 {
        let front = amounts.drop_last();
        lemma_largest(front);
        assert forall|j: int| 0 <= j < amounts.len() implies amounts[j] <= largest(amounts) by {
            if j < front.len() {
                assert(front[j] == amounts[j]);
            }
        }
        if largest(amounts) > 0 {
            if amounts.last() > largest(front) {
                assert(amounts[amounts.len() - 1] == largest(amounts));
            } else {
                let j = choose|j: int| 0 <= j < front.len() && front[j] == largest(front);
                assert(amounts[j] == largest(amounts));
            }
        }
    }
}

/// The fee tiers of Uniswap V3 pools, in hundredths of a basis point.
pub open spec fn fee_tiers() -> Seq<u32> {
    seq![100u32, 500u32, 3000u32, 10000u32]
}

/// The fee tiers of Uniswap V3 pools, in hundredths of a basis point.
fn fee_tier(i: usize) -> (fee: u32)
    requires
        i < 4,
    ensures
        fee == fee_tiers()[i as int],
{
    if i == 0 {
        100
    } else if i == 1 {
        500
    } else if i == 2 {
        3000
    } else {
        10000
    }
}

/// A swap that someone wants to make.
#[derive(Clone, Copy, Debug)]
pub struct Swap {
    pub token_in: Address,
    pub token_out: Address,
    pub amount_in: U256,
}

impl Swap {
    /// Whether a routing token can lie between the two tokens of the swap.
    pub open spec fn passes_through(self, token: Address) -> bool {
        token != self.token_in && token != self.token_out
    }
}

/// A direct route through the pool of one fee tier.
pub open spec fn univ3_single(quoter: Address, swap: Swap, fee: u32) -> CandidateView {
    CandidateView {
        call: QuoteCallView::ExactInputSingle {
            quoter,
            token_in: swap.token_in,
            token_out: swap.token_out,
            fee,
            amount_in: swap.amount_in,
        },
        tokens: seq![swap.token_in, swap.token_out],
        fees: seq![fee],
    }
}

/// A route through the pools of two fee tiers, by way of `mid`.
pub open spec fn univ3_double(
    quoter: Address,
    swap: Swap,
    fee1: u32,
    mid: Address,
    fee2: u32,
) -> CandidateView {
    CandidateView {
        call: QuoteCallView::ExactInput {
            quoter,
            path_bytes: two_hop_path(swap.token_in, fee1, mid, fee2, swap.token_out),
            amount_in: swap.amount_in,
        },
        tokens: seq![swap.token_in, mid, swap.token_out],
        fees: seq![fee1, fee2],
    }
}

/// The direct routes of a quoter: one for each fee tier.
pub open spec fn univ3_direct(quoter: Address, swap: Swap) -> Seq<CandidateView> {
    Seq::new(4, |i: int| univ3_single(quoter, swap, fee_tiers()[i]))
}

/// The routes of a quoter by way of `mid`: one for each pair of fee tiers.
pub open spec fn univ3_via(quoter: Address, swap: Swap, mid: Address) -> Seq<CandidateView> {
    Seq::new(
        16,
        |i: int| univ3_double(quoter, swap, fee_tiers()[i / 4], mid, fee_tiers()[i % 4]),
    )
}

/// The routes of a quoter by way of any routing token but those of the swap.
pub open spec fn univ3_two_hops(quoter: Address, swap: Swap, tokens: Seq<Address>) -> Seq<
    CandidateView,
>
    decreases tokens.len(),
{
    if tokens.len() == 0 {
        seq![]
    } else {
        univ3_two_hops(quoter, swap, tokens.drop_last()) + if swap.passes_through(tokens.last()) {
            univ3_via(quoter, swap, tokens.last())
        } else {
            seq![]
        }
    }
}

/// Every route that a Uniswap V3 quoter is asked about.
pub open spec fn univ3_routes(quoter: Address, swap: Swap, tokens: Seq<Address>) -> Seq<
    CandidateView,
> {
    univ3_direct(quoter, swap) + univ3_two_hops(quoter, swap, tokens)
}

/// A route along `path` through a V2 router.
pub open spec fn amm_route(router: Address, swap: Swap, path: Seq<Address>) -> CandidateView {
    CandidateView {
        call: QuoteCallView::AmountsOut { router, amount_in: swap.amount_in, path },
        tokens: path,
        fees: seq![],
    }
}

/// The direct route of a V2 router.
pub open spec fn amm_direct(router: Address, swap: Swap) -> Seq<CandidateView> {
    seq![amm_route(router, swap, seq![swap.token_in, swap.token_out])]
}

/// The routes of a V2 router by way of any routing token but those of the swap.
pub open spec fn amm_two_hops(router: Address, swap: Swap, tokens: Seq<Address>) -> Seq<
    CandidateView,
>
    decreases tokens.len(),
{
    if tokens.len() == 0 {
        seq![]
    } else {
        amm_two_hops(router, swap, tokens.drop_last()) + if swap.passes_through(tokens.last()) {
            seq![amm_route(router, swap, seq![swap.token_in, tokens.last(), swap.token_out])]
        } else {
            seq![]
        }
    }
}

/// Every route that a V2 router is asked about.
pub open spec fn amm_routes(router: Address, swap: Swap, tokens: Seq<Address>) -> Seq<
    CandidateView,
> {
    amm_direct(router, swap) + amm_two_hops(router, swap, tokens)
}

/// The direct routes of a quoter, in the order of the fee tiers.
pub fn univ3_direct_candidates(quoter: Address, swap: Swap) -> (r: Vec<Candidate>)
    ensures
        candidates_view(r@) == univ3_direct(quoter, swap),
{
    let mut r: Vec<Candidate> = Vec::new();
    let mut i: usize = 0;
    while i < 4
        invariant
            i <= 4,
            candidates_view(r@) == univ3_direct(quoter, swap).take(i as int),
        decreases 4 - i,
    {
        let fee = fee_tier(i);
        let candidate = Candidate {
            call: QuoteCall::ExactInputSingle {
                quoter,
                token_in: swap.token_in,
                token_out: swap.token_out,
                fee,
                amount_in: swap.amount_in,
            },
            tokens: vec![swap.token_in, swap.token_out],
            fees: vec![fee],
        };
        let ghost before = r@;
        r.push(candidate);
        i += 1;
        proof {
            assert(candidate.tokens@ =~= seq![swap.token_in, swap.token_out]);
            assert(candidate.fees@ =~= seq![fee]);
            assert(candidates_view(r@) =~= candidates_view(before).push(candidate@));
            assert(univ3_direct(quoter, swap).take(i as int) =~= univ3_direct(quoter, swap).take(
                i - 1,
            ).push(univ3_single(quoter, swap, fee)));
        }
    }
    assert(univ3_direct(quoter, swap).take(4) =~= univ3_direct(quoter, swap));
    r
}

/// Appends the routes of a quoter by way of `mid`, for each pair of fee tiers.
fn push_univ3_via(quoter: Address, swap: Swap, mid: Address, r: &mut Vec<Candidate>)
    ensures
        candidates_view(final(r)@) == candidates_view(old(r)@) + univ3_via(quoter, swap, mid),
{
    let ghost start = candidates_view(r@);
    let ghost all = univ3_via(quoter, swap, mid);
    let mut i: usize = 0;
    while i < 16
        invariant
            i <= 16,
            all == univ3_via(quoter, swap, mid),
            candidates_view(r@) == start + all.take(i as int),
        decreases 16 - i,
    {
        let fee1 = fee_tier(i / 4);
        let fee2 = fee_tier(i % 4);
        let candidate = Candidate {
            call: QuoteCall::ExactInput {
                quoter,
                path_bytes: encode_path_two_hop(swap.token_in, fee1, mid, fee2, swap.token_out),
                amount_in: swap.amount_in,
            },
            tokens: vec![swap.token_in, mid, swap.token_out],
            fees: vec![fee1, fee2],
        };
        let ghost before = r@;
        r.push(candidate);
        i += 1;
        proof {
            assert(candidate.tokens@ =~= seq![swap.token_in, mid, swap.token_out]);
            assert(candidate.fees@ =~= seq![fee1, fee2]);
            assert(candidate@ == all[i - 1]);
            assert(candidates_view(r@) =~= candidates_view(before).push(candidate@));
            assert(all.take(i as int) =~= all.take(i - 1).push(all[i - 1]));
        }
    }
    assert(all.take(16) =~= all);
}

/// Every route that a Uniswap V3 quoter is asked about, in the order it is asked:
/// first the direct ones, then those by way of each routing token.
pub fn univ3_candidates(quoter: Address, swap: Swap, tokens: &Vec<Address>) -> (r: Vec<Candidate>)
    ensures
        candidates_view(r@) == univ3_routes(quoter, swap, tokens@),
{
    let mut r = univ3_direct_candidates(quoter, swap);
    assert(tokens@.take(0) =~= Seq::<Address>::empty());
    assert(candidates_view(r@) =~= univ3_routes(quoter, swap, tokens@.take(0)));
    let mut i: usize = 0;
    while i < tokens.len()
        invariant
            i <= tokens@.len(),
            candidates_view(r@) == univ3_routes(quoter, swap, tokens@.take(i as int)),
        decreases tokens@.len() - i,
    {
        let mid = tokens[i];
        if mid != swap.token_in && mid != swap.token_out {
            push_univ3_via(quoter, swap, mid, &mut r);
        }
        i += 1;
        proof {
            assert(tokens@.take(i as int).drop_last() =~= tokens@.take(i - 1));
            assert(candidates_view(r@) =~= univ3_routes(quoter, swap, tokens@.take(i as int)));
        }
    }
    assert(tokens@.take(i as int) =~= tokens@);
    r
}

/// A route along `path` through a V2 router.
fn amm_candidate(router: Address, swap: Swap, path: Vec<Address>, tokens: Vec<Address>) -> (r:
    Candidate)
    requires
        path@ == tokens@,
    ensures
        r@ == amm_route(router, swap, path@),
{
    let r = Candidate {
        call: QuoteCall::AmountsOut { router, amount_in: swap.amount_in, path },
        tokens,
        fees: Vec::new(),
    };
    assert(r.fees@ =~= Seq::<u32>::empty());
    r
}

/// The direct route of a V2 router.
pub fn amm_direct_candidates(router: Address, swap: Swap) -> (r: Vec<Candidate>)
    ensures
        candidates_view(r@) == amm_direct(router, swap),
{
    let path = vec![swap.token_in, swap.token_out];
    let tokens = vec![swap.token_in, swap.token_out];
    assert(path@ =~= seq![swap.token_in, swap.token_out]);
    assert(tokens@ =~= path@);
    let mut r: Vec<Candidate> = Vec::new();
    r.push(amm_candidate(router, swap, path, tokens));
    assert(candidates_view(r@) =~= amm_direct(router, swap));
    r
}

/// Every route that a V2 router is asked about, in the order it is asked: first
/// the direct one, then those by way of each routing token.
pub fn amm_candidates(router: Address, swap: Swap, tokens: &Vec<Address>) -> (r: Vec<Candidate>)
    ensures
        candidates_view(r@) == amm_routes(router, swap, tokens@),
{
    let mut r = amm_direct_candidates(router, swap);
    assert(tokens@.take(0) =~= Seq::<Address>::empty());
    assert(candidates_view(r@) =~= amm_routes(router, swap, tokens@.take(0)));
    let mut i: usize = 0;
    while i < tokens.len()
        invariant
            i <= tokens@.len(),
            candidates_view(r@) == amm_routes(router, swap, tokens@.take(i as int)),
        decreases tokens@.len() - i,
    {
        let mid = tokens[i];
        let ghost before = r@;
        if mid != swap.token_in && mid != swap.token_out {
            let path = vec![swap.token_in, mid, swap.token_out];
            let along = vec![swap.token_in, mid, swap.token_out];
            assert(path@ =~= seq![swap.token_in, mid, swap.token_out]);
            assert(along@ =~= path@);
            let candidate = amm_candidate(router, swap, path, along);
            r.push(candidate);
            assert(candidates_view(r@) =~= candidates_view(before).push(candidate@));
        }
        i += 1;
        proof {
            assert(tokens@.take(i as int).drop_last() =~= tokens@.take(i - 1));
            assert(candidates_view(r@) =~= amm_routes(router, swap, tokens@.take(i as int)));
        }
    }
    assert(tokens@.take(i as int) =~= tokens@);
    r
}

/// The amount that was offered for candidate number `k`; 0 where none was.
pub fn offer(candidates: &Vec<Candidate>, replies: &Vec<QuoteReply>, k: usize) -> (r: U256)
    requires
        k < candidates@.len(),
    ensures
        r@ == offers(candidates_view(candidates@), replies@)[k as int],
{
    if k >= replies.len() {
        return U256::zero();
    }
    match (&candidates[k].call, &replies[k]) {
        (QuoteCall::ExactInputSingle { .. }, QuoteReply::Amount(amount)) => *amount,
        (QuoteCall::ExactInput { .. }, QuoteReply::Amount(amount)) => *amount,
        (QuoteCall::AmountsOut { path, .. }, QuoteReply::Amounts(amounts)) => {
            if amounts.len() >= path.len() && path.len() > 0 {
                amounts[amounts.len() - 1]
            } else {
                U256::zero()
            }
        },
        _ => U256::zero(),
    }
}

/// Compares the candidates with the best route known so far, one after the other.
pub fn take_better(
    candidates: &Vec<Candidate>,
    replies: &Vec<QuoteReply>,
    best_out: &mut U256,
    best_tokens: &mut Vec<Address>,
    best_fees: &mut Vec<u32>,
)
    ensures
        (RouteView {
            amount_out: final(best_out)@,
            tokens: final(best_tokens)@,
            fees: final(best_fees)@,
        }) == improved(
            RouteView {
                amount_out: old(best_out)@,
                tokens: old(best_tokens)@,
                fees: old(best_fees)@,
            },
            candidates_view(candidates@),
            offers(candidates_view(candidates@), replies@),
        ),
{
    let ghost all = candidates_view(candidates@);
    let ghost amounts = offers(all, replies@);
    let ghost start = RouteView {
        amount_out: best_out@,
        tokens: best_tokens@,
        fees: best_fees@,
    };
    let mut k: usize = 0;
    while k < candidates.len()
        invariant
            k <= candidates@.len(),
            all == candidates_view(candidates@),
            amounts == offers(all, replies@),
            (RouteView { amount_out: best_out@, tokens: best_tokens@, fees: best_fees@ })
                == improved(start, all.take(k as int), amounts.take(k as int)),
        decreases candidates@.len() - k,
    {
        let amount = offer(candidates, replies, k);
        proof {
            assert(all.take(k + 1).drop_last() =~= all.take(k as int));
            assert(amounts.take(k + 1).drop_last() =~= amounts.take(k as int));
        }
        if best_out.less_than(amount) {
            *best_out = amount;
            *best_tokens = candidates[k].tokens.clone();
            *best_fees = candidates[k].fees.clone();
            assert(best_tokens@ =~= candidates@[k as int].tokens@);
            assert(best_fees@ =~= candidates@[k as int].fees@);
        }
        k += 1;
    }
    assert(all.take(k as int) =~= all);
    assert(amounts.take(k as int) =~= amounts);
}

/// The largest amount that was offered for any of the candidates.
pub fn largest_offer(candidates: &Vec<Candidate>, replies: &Vec<QuoteReply>) -> (best: U256)
    ensures
        best@ == largest(offers(candidates_view(candidates@), replies@)),
{
    let ghost amounts = offers(candidates_view(candidates@), replies@);
    let mut best = U256::zero();
    let mut k: usize = 0;
    while k < candidates.len()
        invariant
            k <= candidates@.len(),
            amounts == offers(candidates_view(candidates@), replies@),
            best@ == largest(amounts.take(k as int)),
        decreases candidates@.len() - k,
    {
        let amount = offer(candidates, replies, k);
        proof {
            assert(amounts.take(k + 1).drop_last() =~= amounts.take(k as int));
        }
        if best.less_than(amount) {
            best = amount;
        }
        k += 1;
    }
    assert(amounts.take(k as int) =~= amounts);
    best
}

/// Whether a candidate leads from the one token of the swap to the other, directly
/// or by way of one routing token that is neither, with a known fee tier for each
/// hop or with none, and asks for the whole amount.
pub open spec fn connects(candidate: CandidateView, swap: Swap, tokens: Seq<Address>) -> bool {
    &&& 2 <= candidate.tokens.len() <= 3
    &&& candidate.tokens.first() == swap.token_in
    &&& candidate.tokens.last() == swap.token_out
    &&& candidate.tokens.len() == 3 ==> tokens.contains(candidate.tokens[1])
        && swap.passes_through(candidate.tokens[1])
    &&& candidate.fees.len() == 0 || candidate.fees.len() == candidate.tokens.len() - 1
    &&& forall|i: int|
        0 <= i < candidate.fees.len() ==> fee_tiers().contains(#[trigger] candidate.fees[i])
    &&& match candidate.call {
        QuoteCallView::ExactInputSingle { token_in, token_out, fee, amount_in, .. } => {
            &&& candidate.tokens =~= seq![token_in, token_out]
            &&& candidate.fees =~= seq![fee]
            &&& fee < 0x100_0000
            &&& amount_in == swap.amount_in
        },
        QuoteCallView::ExactInput { path_bytes, amount_in, .. } => {
            &&& candidate.tokens.len() == 3
            &&& candidate.fees.len() == 2
            &&& path_bytes == two_hop_path(
                candidate.tokens[0],
                candidate.fees[0],
                candidate.tokens[1],
                candidate.fees[1],
                candidate.tokens[2],
            )
            &&& amount_in == swap.amount_in
        },
        QuoteCallView::AmountsOut { amount_in, path, .. } => {
            &&& candidate.tokens == path
            &&& candidate.fees.len() == 0
            &&& amount_in == swap.amount_in
        },
    }
}

/// Every route of a Uniswap V3 quoter leads from the one token to the other.
pub proof fn lemma_univ3_routes_connect(
    quoter: Address,
    swap: Swap,
    tokens: Seq<Address>,
    k: int,
)
    requires
        0 <= k < univ3_routes(quoter, swap, tokens).len(),
    ensures
        connects(univ3_routes(quoter, swap, tokens)[k], swap, tokens),
{
    lemma_fee_tiers();
    let direct = univ3_direct(quoter, swap);
    if k >= direct.len() {
        lemma_univ3_two_hops_connect(quoter, swap, tokens, k - direct.len());
    }
}

/// Every route of a V2 router leads from the one token to the other.
pub proof fn lemma_amm_routes_connect(router: Address, swap: Swap, tokens: Seq<Address>, k: int)
    requires
        0 <= k < amm_routes(router, swap, tokens).len(),
    ensures
        connects(amm_routes(router, swap, tokens)[k], swap, tokens),
{
    if k >= 1 {
        lemma_amm_two_hops_connect(router, swap, tokens, k - 1);
    }
}

proof fn lemma_fee_tiers()
    ensures
        forall|i: int| 0 <= i < 4 ==> fee_tiers().contains(#[trigger] fee_tiers()[i]),
        forall|i: int| 0 <= i < 4 ==> #[trigger] fee_tiers()[i] < 0x100_0000,
{
}

proof fn lemma_univ3_two_hops_connect(
    quoter: Address,
    swap: Swap,
    tokens: Seq<Address>,
    k: int,
)
    requires
        0 <= k < univ3_two_hops(quoter, swap, tokens).len(),
    ensures
        connects(univ3_two_hops(quoter, swap, tokens)[k], swap, tokens),
        univ3_two_hops(quoter, swap, tokens)[k].tokens.len() == 3,
    decreases tokens.len(),
{
    lemma_fee_tiers();
    let front = tokens.drop_last();
    let before = univ3_two_hops(quoter, swap, front);
    assert(tokens[tokens.len() - 1] == tokens.last());
    if k < before.len() {
        lemma_univ3_two_hops_connect(quoter, swap, front, k);
        let mid = before[k].tokens[1];
        let i = choose|i: int| 0 <= i < front.len() && front[i] == mid;
        assert(tokens[i] == mid);
    } else {
        let i = k - before.len();
        assert(univ3_two_hops(quoter, swap, tokens)[k] == univ3_via(
            quoter,
            swap,
            tokens.last(),
        )[i]);
        assert(0 <= i / 4 < 4 && 0 <= i % 4 < 4);
    }
}

proof fn lemma_amm_two_hops_connect(router: Address, swap: Swap, tokens: Seq<Address>, k: int)
    requires
        0 <= k < amm_two_hops(router, swap, tokens).len(),
    ensures
        connects(amm_two_hops(router, swap, tokens)[k], swap, tokens),
        amm_two_hops(router, swap, tokens)[k].tokens.len() == 3,
    decreases tokens.len(),
{
    let front = tokens.drop_last();
    let before = amm_two_hops(router, swap, front);
    assert(tokens[tokens.len() - 1] == tokens.last());
    if k < before.len() {
        lemma_amm_two_hops_connect(router, swap, front, k);
        let mid = before[k].tokens[1];
        let i = choose|i: int| 0 <= i < front.len() && front[i] == mid;
        assert(tokens[i] == mid);
    }
}

} // verus!
