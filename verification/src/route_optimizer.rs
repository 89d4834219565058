//! The route optimizer: which registered exchange gives the most for a swap.

use crate::address::Address;
use crate::address_list::{first_place, is_first_place, remove_place, swap_removed};
use crate::call::{refused, revert_data, Message};
use crate::registry::{
    addresses_nonzero, entry_at, keeps_entries, kind_number, law_entries_are_kept_for_good, without,
    Entry, Registry,
};
use crate::routes::{
    amm_candidates, amm_direct, amm_direct_candidates, amm_routes, candidates_view, connects,
    improved, is_first_largest, largest, largest_offer, lemma_amm_routes_connect,
    lemma_first_largest_push, lemma_improved_concat, lemma_improved_is_best, lemma_largest,
    lemma_univ3_routes_connect, no_route, nothing_offered, offers, reply_at, take_better,
    univ3_candidates, univ3_direct, univ3_direct_candidates, univ3_routes, Candidate, CandidateView,
    QuoteReply, RouteView, Swap,
};
use crate::tokens::{usdc, usdc_token, weth, weth_token};
use crate::word::{group_word, word, U256};
use vstd::prelude::*;

verus! {

broadcast use group_word;

/// An exchange that speaks the Uniswap V3 quoter interface.
pub const DEX_TYPE_UNIV3: u64 = 0;

/// An exchange that speaks the V2 router interface.
pub const DEX_TYPE_AMM_V2: u64 = 1;

/// How many exchanges can be registered.
pub const MAX_DEXES: u64 = 20;

/// How many routing tokens can be kept.
pub const MAX_ROUTING_TOKENS: usize = 50;

/// What the route optimizer reports.
#[derive(Clone, Copy, Debug, PartialEq, Eq)]
pub enum RouteEvent {
    DexAdded { index: U256, dex_address: Address, dex_type: u64 },
    DexRemoved { index: U256, dex_address: Address },
}

/// The route optimizer.
#[derive(Debug)]
pub struct RouteOptimizer {
    /// Who may change the registry; nobody before `initialize`.
    pub owner: Address,
    /// The exchanges.
    pub dexes: Registry,
    /// The tokens that a two-hop route may pass through.
    pub routing_tokens: Vec<Address>,
}

/// What a [`RouteOptimizer`] holds.
pub struct RouteOptimizerState {
    pub owner: Address,
    pub dexes: Seq<Entry>,
    pub routing_tokens: Seq<Address>,
}

/// The routes that the exchange `dex` is asked about.
pub open spec fn dex_routes(dex: Entry, swap: Swap, tokens: Seq<Address>) -> Seq<CandidateView> {
    if !dex.active {
        seq![]
    } else if kind_number(dex) == DEX_TYPE_UNIV3 {
        univ3_routes(dex.address, swap, tokens)
    } else if kind_number(dex) == DEX_TYPE_AMM_V2 {
        amm_routes(dex.address, swap, tokens)
    } else {
        seq![]
    }
}

/// The routes that the exchange `dex` is asked about when only direct ones count.
pub open spec fn dex_direct_routes(dex: Entry, swap: Swap) -> Seq<CandidateView> {
    if !dex.active {
        seq![]
    } else if kind_number(dex) == DEX_TYPE_UNIV3 {
        univ3_direct(dex.address, swap)
    } else if kind_number(dex) == DEX_TYPE_AMM_V2 {
        amm_direct(dex.address, swap)
    } else {
        seq![]
    }
}

/// What exchange number `i` answered, question by question.
pub open spec fn dex_replies(replies: Seq<Vec<QuoteReply>>, i: int) -> Seq<QuoteReply> {
    if 0 <= i < replies.len() {
        replies[i]@
    } else {
        seq![]
    }
}

/// The routes that the exchanges are asked about, one exchange after the other.
pub open spec fn all_routes(dexes: Seq<Entry>, swap: Swap, tokens: Seq<Address>) -> Seq<
    CandidateView,
>
    decreases dexes.len(),
{
    if dexes.len() == 0 {
        seq![]
    } else {
        all_routes(dexes.drop_last(), swap, tokens) + dex_routes(dexes.last(), swap, tokens)
    }
}

/// The amounts that the exchanges offered for [`all_routes`].
pub open spec fn all_offers(
    dexes: Seq<Entry>,
    swap: Swap,
    tokens: Seq<Address>,
    replies: Seq<Vec<QuoteReply>>,
) -> Seq<nat>
    decreases dexes.len(),
{
    if dexes.len() == 0 {
        seq![]
    } else {
        all_offers(dexes.drop_last(), swap, tokens, replies) + offers(
            dex_routes(dexes.last(), swap, tokens),
            dex_replies(replies, dexes.len() - 1),
        )
    }
}

/// The best direct offer of each exchange.
pub open spec fn direct_offers(
    dexes: Seq<Entry>,
    swap: Swap,
    replies: Seq<Vec<QuoteReply>>,
) -> Seq<nat> {
    Seq::new(
        dexes.len(),
        |i: int| largest(offers(dex_direct_routes(dexes[i], swap), dex_replies(replies, i))),
    )
}

impl RouteOptimizerState {
    /// The routes that exchange number `index` is asked about.
    pub open spec fn routes_of(self, index: int, swap: Swap) -> Seq<CandidateView> {
        if 0 <= index < self.dexes.len() {
            dex_routes(self.dexes[index], swap, self.routing_tokens)
        } else {
            seq![]
        }
    }

    /// The routes that exchange number `index` is asked about when only direct ones
    /// count.
    pub open spec fn direct_routes_of(self, index: int, swap: Swap) -> Seq<CandidateView> {
        if 0 <= index < self.dexes.len() {
            dex_direct_routes(self.dexes[index], swap)
        } else {
            seq![]
        }
    }

    /// What holds of every optimizer that only ever answered calls from nonzero
    /// addresses: nothing is registered before it has an owner, the limits are
    /// kept, and no routing token is zero or occurs twice.
    pub open spec fn inv(self) -> bool {
        &&& self.owner == Address::spec_zero() ==> self.dexes.len() == 0
            && self.routing_tokens.len() == 0
        &&& self.dexes.len() <= MAX_DEXES
        &&& addresses_nonzero(self.dexes)
        &&& self.routing_tokens.len() <= MAX_ROUTING_TOKENS
        &&& self.routing_tokens.no_duplicates()
        &&& !self.routing_tokens.contains(Address::spec_zero())
    }

    /// What every call keeps: the owner, once there is one, and the numbers of the
    /// registered exchanges.
    pub open spec fn precedes(self, later: Self) -> bool {
        &&& self.owner != Address::spec_zero() ==> later.owner == self.owner
        &&& keeps_entries(self.dexes, later.dexes)
    }

    /// Why a call that only the owner may make is refused.
    pub open spec fn owner_refusal(self, msg: Message) -> Option<&'static str> {
        if msg.sender != self.owner {
            Some("not owner")
        } else {
            None
        }
    }

    /// Why `initialize` is refused.
    pub open spec fn initialize_refusal(self) -> Option<&'static str> {
        if self.owner != Address::spec_zero() {
            Some("already initialized")
        } else {
            None
        }
    }

    /// Why `add_dex` is refused.
    pub open spec fn add_dex_refusal(self, msg: Message, dex_address: Address) -> Option<
        &'static str,
    > {
        if msg.sender != self.owner {
            Some("not owner")
        } else if dex_address == Address::spec_zero() {
            Some("zero address")
        } else if self.dexes.len() >= MAX_DEXES {
            Some("max dexes reached")
        } else {
            None
        }
    }

    /// Why `remove_dex` is refused.
    pub open spec fn remove_dex_refusal(self, msg: Message, index: U256) -> Option<&'static str> {
        if msg.sender != self.owner {
            Some("not owner")
        } else if index@ >= self.dexes.len() {
            Some("index out of bounds")
        } else if !self.dexes[index@ as int].active {
            Some("dex already removed")
        } else {
            None
        }
    }

    /// Why `add_routing_token` is refused.
    pub open spec fn add_routing_token_refusal(self, msg: Message, token: Address) -> Option<
        &'static str,
    > {
        if msg.sender != self.owner {
            Some("not owner")
        } else if token == Address::spec_zero() {
            Some("zero address")
        } else if self.routing_tokens.len() >= MAX_ROUTING_TOKENS {
            Some("max routing tokens reached")
        } else if self.routing_tokens.contains(token) {
            Some("token already exists")
        } else {
            None
        }
    }

    /// Why `remove_routing_token` is refused.
    pub open spec fn remove_routing_token_refusal(self, msg: Message, token: Address) -> Option<
        &'static str,
    > {
        if msg.sender != self.owner {
            Some("not owner")
        } else if !self.routing_tokens.contains(token) {
            Some("token not found")
        } else {
            None
        }
    }
}

impl View for RouteOptimizer {
    type V = RouteOptimizerState;

    open spec fn view(&self) -> RouteOptimizerState {
        RouteOptimizerState {
            owner: self.owner,
            dexes: self.dexes@,
            routing_tokens: self.routing_tokens@,
        }
    }
}

impl RouteOptimizer {
    /// An optimizer that was just deployed.
    pub fn new() -> (r: Self)
        ensures
            r@ == (RouteOptimizerState {
                owner: Address::spec_zero(),
                dexes: seq![],
                routing_tokens: seq![],
            }),
            r@.inv(),
    {
        RouteOptimizer {
            owner: Address::zero(),
            dexes: Registry::new(),
            routing_tokens: Vec::new(),
        }
    }

    /// Makes the caller the owner and registers the default routing tokens.
    pub fn initialize(&mut self, msg: &Message) -> (r: Result<(), Vec<u8>>)
        ensures
            match old(self)@.initialize_refusal() {
                Some(reason) => refused(r, reason) && final(self)@ == old(self)@,
                None => r is Ok && final(self)@ == (RouteOptimizerState {
                    owner: msg.sender,
                    routing_tokens: old(self)@.routing_tokens.push(weth()).push(usdc()),
                    ..old(self)@
                }),
            },
            old(self)@.inv() && msg.sender != Address::spec_zero() ==> final(self)@.inv(),
            old(self)@.precedes(final(self)@),
    {
        if self.owner != Address::zero() {
            return Err(revert_data("already initialized"));
        }
        self.owner = msg.sender;
        self.routing_tokens.push(weth_token());
        self.routing_tokens.push(usdc_token());
        proof {
            if old(self)@.inv() {
                assert(weth()@[0] == 0x82 && usdc()@[0] == 0xaf);
                assert(Address::spec_zero()@[0] == 0);
                assert(self@.routing_tokens =~= seq![weth(), usdc()]);
            }
        }
        Ok(())
    }

    /// Refuses a caller who is not the owner.
    fn only_owner(&self, msg: &Message) -> (r: Result<(), Vec<u8>>)
        ensures
            match self@.owner_refusal(*msg) {
                Some(reason) => refused(r, reason),
                None => r is Ok,
            },
    {
        if msg.sender != self.owner {
            return Err(revert_data("not owner"));
        }
        Ok(())
    }

    /// Registers an exchange and returns its number.
    pub fn add_dex(
        &mut self,
        msg: &Message,
        log: &mut Vec<RouteEvent>,
        dex_address: Address,
        dex_type: u64,
    ) -> (r: Result<U256, Vec<u8>>)
        ensures
            match old(self)@.add_dex_refusal(*msg, dex_address) {
                Some(reason) => refused(r, reason) && final(self)@ == old(self)@ && final(log)@
                    == old(log)@,
                None => {
                    &&& r == Ok::<U256, Vec<u8>>(word(old(self)@.dexes.len()))
                    &&& final(self)@ == (RouteOptimizerState {
                        dexes: old(self)@.dexes.push(
                            Entry {
                                address: dex_address,
                                kind: word(dex_type as nat),
                                active: true,
                            },
                        ),
                        ..old(self)@
                    })
                    &&& final(log)@ == old(log)@.push(
                        RouteEvent::DexAdded {
                            index: word(old(self)@.dexes.len()),
                            dex_address,
                            dex_type,
                        },
                    )
                },
            },
            old(self)@.inv() && msg.sender != Address::spec_zero() ==> final(self)@.inv(),
            old(self)@.precedes(final(self)@),
    {
        if let Err(e) = self.only_owner(msg) {
            return Err(e);
        }
        if dex_address == Address::zero() {
            return Err(revert_data("zero address"));
        }
        if !self.dexes.count().less_than(U256::from(MAX_DEXES)) {
            return Err(revert_data("max dexes reached"));
        }
        let index = self.dexes.add(dex_address, dex_type);
        log.push(RouteEvent::DexAdded { index, dex_address, dex_type });
        Ok(index)
    }

    /// Takes an exchange out of use; its number stays taken.
    pub fn remove_dex(&mut self, msg: &Message, log: &mut Vec<RouteEvent>, index: U256) -> (r:
        Result<(), Vec<u8>>)
        ensures
            match old(self)@.remove_dex_refusal(*msg, index) {
                Some(reason) => refused(r, reason) && final(self)@ == old(self)@ && final(log)@
                    == old(log)@,
                None => {
                    &&& r is Ok
                    &&& final(self)@ == (RouteOptimizerState {
                        dexes: without(old(self)@.dexes, index),
                        ..old(self)@
                    })
                    &&& final(log)@ == old(log)@.push(
                        RouteEvent::DexRemoved {
                            index,
                            dex_address: old(self)@.dexes[index@ as int].address,
                        },
                    )
                },
            },
            old(self)@.inv() && msg.sender != Address::spec_zero() ==> final(self)@.inv(),
            old(self)@.precedes(final(self)@),
    {
        if let Err(e) = self.only_owner(msg) {
            return Err(e);
        }
        if !index.less_than(self.dexes.count()) {
            return Err(revert_data("index out of bounds"));
        }
        let dex = self.dexes.get(index);
        if !dex.active {
            return Err(revert_data("dex already removed"));
        }
        self.dexes.deactivate(index);
        log.push(RouteEvent::DexRemoved { index, dex_address: dex.address });
        Ok(())
    }

    /// How many exchanges were ever registered.
    pub fn dex_count(&self) -> (r: U256)
        ensures
            r == word(self@.dexes.len()),
            r@ == self@.dexes.len(),
    {
        self.dexes.count()
    }

    /// The address, the type and whether it is in use, of the exchange at `index`.
    pub fn get_dex(&self, index: U256) -> (r: (Address, U256, bool))
        ensures
            r == (
                entry_at(self@.dexes, index).address,
                entry_at(self@.dexes, index).kind,
                entry_at(self@.dexes, index).active,
            ),
    {
        let dex = self.dexes.get(index);
        (dex.address, dex.kind, dex.active)
    }

    /// Adds a token that routes may pass through.
    pub fn add_routing_token(&mut self, msg: &Message, token: Address) -> (r: Result<(), Vec<u8>>)
        ensures
            match old(self)@.add_routing_token_refusal(*msg, token) {
                Some(reason) => refused(r, reason) && final(self)@ == old(self)@,
                None => r is Ok && final(self)@ == (RouteOptimizerState {
                    routing_tokens: old(self)@.routing_tokens.push(token),
                    ..old(self)@
                }),
            },
            old(self)@.inv() && msg.sender != Address::spec_zero() ==> final(self)@.inv(),
            old(self)@.precedes(final(self)@),
    {
        if let Err(e) = self.only_owner(msg) {
            return Err(e);
        }
        if token == Address::zero() {
            return Err(revert_data("zero address"));
        }
        if self.routing_tokens.len() >= MAX_ROUTING_TOKENS {
            return Err(revert_data("max routing tokens reached"));
        }
        if let Some(_i) = first_place(&self.routing_tokens, token) {
            return Err(revert_data("token already exists"));
        }
        self.routing_tokens.push(token);
        proof {
            if old(self)@.inv() {
                assert forall|x: Address| self@.routing_tokens.contains(x) implies x == token
                    || old(self)@.routing_tokens.contains(x) by {}
            }
        }
        Ok(())
    }

    /// Takes a routing token out; the last one moves into its place.
    pub fn remove_routing_token(&mut self, msg: &Message, token: Address) -> (r: Result<
        (),
        Vec<u8>,
    >)
        ensures
            match old(self)@.remove_routing_token_refusal(*msg, token) {
                Some(reason) => refused(r, reason) && final(self)@ == old(self)@,
                None => r is Ok && exists|i: int| #[trigger]
                    is_first_place(old(self)@.routing_tokens, token, i) && final(self)@ == (
                    RouteOptimizerState {
                        routing_tokens: swap_removed(old(self)@.routing_tokens, i),
                        ..old(self)@
                    }),
            },
            old(self)@.inv() && msg.sender != Address::spec_zero() ==> final(self)@.inv(),
            old(self)@.precedes(final(self)@),
    {
        if let Err(e) = self.only_owner(msg) {
            return Err(e);
        }
        match first_place(&self.routing_tokens, token) {
            Some(i) => {
                remove_place(&mut self.routing_tokens, i);
                assert(is_first_place(old(self)@.routing_tokens, token, i as int));
                Ok(())
            },
            None => Err(revert_data("token not found")),
        }
    }

    /// How many routing tokens there are.
    pub fn routing_token_count(&self) -> (r: U256)
        ensures
            r == word(self@.routing_tokens.len()),
            r@ == self@.routing_tokens.len(),
    {
        U256::from(self.routing_tokens.len() as u64)
    }

    /// What exchange number `index` has to be asked before [`Self::find_best_route`]
    /// can answer, in the order it is asked.
    pub fn route_candidates(
        &self,
        index: usize,
        token_in: Address,
        token_out: Address,
        amount_in: U256,
    ) -> (r: Vec<Candidate>)
        ensures
            candidates_view(r@) == self@.routes_of(
                index as int,
                Swap { token_in, token_out, amount_in },
            ),
    {
        let swap = Swap { token_in, token_out, amount_in };
        if index < self.dexes.entries.len() {
            let dex = self.dexes.entries[index];
            if dex.active {
                let dex_type = dex.kind.limbs[0];
                if dex_type == DEX_TYPE_UNIV3 {
                    return univ3_candidates(dex.address, swap, &self.routing_tokens);
                } else if dex_type == DEX_TYPE_AMM_V2 {
                    return amm_candidates(dex.address, swap, &self.routing_tokens);
                }
            }
        }
        let r: Vec<Candidate> = Vec::new();
        assert(candidates_view(r@) =~= seq![]);
        r
    }

    /// What exchange number `index` has to be asked before [`Self::compare_routes`]
    /// can answer, in the order it is asked.
    pub fn direct_candidates(
        &self,
        index: usize,
        token_in: Address,
        token_out: Address,
        amount_in: U256,
    ) -> (r: Vec<Candidate>)
        ensures
            candidates_view(r@) == self@.direct_routes_of(
                index as int,
                Swap { token_in, token_out, amount_in },
            ),
    {
        let swap = Swap { token_in, token_out, amount_in };
        if index < self.dexes.entries.len() {
            let dex = self.dexes.entries[index];
            if dex.active {
                let dex_type = dex.kind.limbs[0];
                if dex_type == DEX_TYPE_UNIV3 {
                    return univ3_direct_candidates(dex.address, swap);
                } else if dex_type == DEX_TYPE_AMM_V2 {
                    return amm_direct_candidates(dex.address, swap);
                }
            }
        }
        let r: Vec<Candidate> = Vec::new();
        assert(candidates_view(r@) =~= seq![]);
        r
    }

    /// The route that gives the most for `amount_in`: the amount, the tokens along it
    /// and the fee tiers.  Of equal routes the first asked about wins.
    ///
    /// `replies` holds, for each exchange, what it answered to the questions of
    /// [`Self::route_candidates`].
    pub fn find_best_route(
        &self,
        token_in: Address,
        token_out: Address,
        amount_in: U256,
        replies: &Vec<Vec<QuoteReply>>,
    ) -> (r: Result<(U256, Vec<Address>, Vec<u32>), Vec<u8>>)
        ensures
            ({
                let swap = Swap { token_in, token_out, amount_in };
                let routes = all_routes(self@.dexes, swap, self@.routing_tokens);
                let amounts = all_offers(self@.dexes, swap, self@.routing_tokens, replies@);
                if nothing_offered(amounts) {
                    refused(r, "no route found")
                } else {
                    r matches Ok((best_out, best_tokens, best_fees)) && exists|k: int| #[trigger]
                        is_first_largest(amounts, k) && best_out@ == amounts[k] && best_tokens@
                            == routes[k].tokens && best_fees@ == routes[k].fees
                }
            }),
    {
        let ghost swap = Swap { token_in, token_out, amount_in };
        let ghost dexes = self@.dexes;
        let ghost tokens = self@.routing_tokens;
        let mut best_out = U256::zero();
        let mut best_tokens: Vec<Address> = Vec::new();
        let mut best_fees: Vec<u32> = Vec::new();
        proof {
            assert(dexes.take(0) =~= seq![]);
            assert(best_tokens@ =~= seq![]);
            assert(best_fees@ =~= seq![]);
        }
        let mut idx: usize = 0;
        while idx < self.dexes.entries.len()
            invariant
                idx <= self.dexes.entries@.len(),
                swap == (Swap { token_in, token_out, amount_in }),
                dexes == self@.dexes,
                tokens == self@.routing_tokens,
                (RouteView { amount_out: best_out@, tokens: best_tokens@, fees: best_fees@ })
                    == improved(
                    no_route(),
                    all_routes(dexes.take(idx as int), swap, tokens),
                    all_offers(dexes.take(idx as int), swap, tokens, replies@),
                ),
            decreases self.dexes.entries@.len() - idx,
        {
            let ghost dex = dexes[idx as int];
            let none: Vec<QuoteReply> = Vec::new();
            let answered: &Vec<QuoteReply> = if idx < replies.len() {
                &replies[idx]
            } else {
                &none
            };
            proof {
                assert(none@ =~= seq![]);
                assert(dexes.take(idx + 1).drop_last() =~= dexes.take(idx as int));
                lemma_lengths(dexes.take(idx as int), swap, tokens, replies@);
                lemma_improved_concat(
                    no_route(),
                    all_routes(dexes.take(idx as int), swap, tokens),
                    all_offers(dexes.take(idx as int), swap, tokens, replies@),
                    dex_routes(dex, swap, tokens),
                    offers(dex_routes(dex, swap, tokens), answered@),
                );
            }
            self.quote_dex(
                idx,
                token_in,
                token_out,
                amount_in,
                answered,
                &mut best_out,
                &mut best_tokens,
                &mut best_fees,
            );
            idx += 1;
        }
        proof {
            assert(dexes.take(idx as int) =~= dexes);
            lemma_lengths(dexes, swap, tokens, replies@);
            lemma_improved_is_best(
                all_routes(dexes, swap, tokens),
                all_offers(dexes, swap, tokens, replies@),
            );
        }
        Self::best_route(best_out, best_tokens, best_fees)
    }

    /// Compares every route of exchange number `index` with the best one so far.
    ///
    /// `replies` holds what the exchange answered to the questions of
    /// [`Self::route_candidates`].
    pub fn quote_dex(
        &self,
        index: usize,
        token_in: Address,
        token_out: Address,
        amount_in: U256,
        replies: &Vec<QuoteReply>,
        best_out: &mut U256,
        best_tokens: &mut Vec<Address>,
        best_fees: &mut Vec<u32>,
    )
        ensures
            ({
                let routes = self@.routes_of(
                    index as int,
                    Swap { token_in, token_out, amount_in },
                );
                (RouteView {
                    amount_out: final(best_out)@,
                    tokens: final(best_tokens)@,
                    fees: final(best_fees)@,
                }) == improved(
                    RouteView {
                        amount_out: old(best_out)@,
                        tokens: old(best_tokens)@,
                        fees: old(best_fees)@,
                    },
                    routes,
                    offers(routes, replies@),
                )
            }),
    {
        if index < self.dexes.entries.len() {
            let dex = self.dexes.entries[index];
            if dex.active {
                let dex_type = dex.kind.limbs[0];
                if dex_type == DEX_TYPE_UNIV3 {
                    self.quote_univ3(
                        dex.address,
                        token_in,
                        token_out,
                        amount_in,
                        replies,
                        best_out,
                        best_tokens,
                        best_fees,
                    );
                } else if dex_type == DEX_TYPE_AMM_V2 {
                    self.quote_amm_v2(
                        dex.address,
                        token_in,
                        token_out,
                        amount_in,
                        replies,
                        best_out,
                        best_tokens,
                        best_fees,
                    );
                }
            }
        }
    }

    /// The best route, once every exchange was compared: there is none where nothing
    /// was offered.
    pub fn best_route(best_out: U256, best_tokens: Vec<Address>, best_fees: Vec<u32>) -> (r: Result<
        (U256, Vec<Address>, Vec<u32>),
        Vec<u8>,
    >)
        ensures
            if best_out@ == 0 {
                refused(r, "no route found")
            } else {
                r == Ok::<(U256, Vec<Address>, Vec<u32>), Vec<u8>>(
                    (best_out, best_tokens, best_fees),
                )
            },
    {
        if best_out == U256::zero() {
            return Err(revert_data("no route found"));
        }
        Ok((best_out, best_tokens, best_fees))
    }

    /// The exchange whose direct routes give the most, and how much that is; of
    /// equal ones the first registered.  Both are 0 where nothing was offered.
    ///
    /// `replies` holds, for each exchange, what it answered to the questions of
    /// [`Self::direct_candidates`].
    pub fn compare_routes(
        &self,
        token_in: Address,
        token_out: Address,
        amount_in: U256,
        replies: &Vec<Vec<QuoteReply>>,
    ) -> (r: Result<(U256, U256), Vec<u8>>)
        ensures
            ({
                let swap = Swap { token_in, token_out, amount_in };
                let amounts = direct_offers(self@.dexes, swap, replies@);
                r matches Ok((best_index, best_out)) && if nothing_offered(amounts) {
                    best_index@ == 0 && best_out@ == 0
                } else {
                    is_first_largest(amounts, best_index@ as int) && best_out@
                        == amounts[best_index@ as int]
                }
            }),
    {
        let ghost swap = Swap { token_in, token_out, amount_in };
        let ghost amounts = direct_offers(self@.dexes, swap, replies@);
        let mut best_index = U256::zero();
        let mut best_out = U256::zero();
        let mut idx: usize = 0;
        while idx < self.dexes.entries.len()
            invariant
                idx <= self.dexes.entries@.len(),
                swap == (Swap { token_in, token_out, amount_in }),
                amounts == direct_offers(self@.dexes, swap, replies@),
                best_out@ == 0 ==> best_index@ == 0 && nothing_offered(amounts.take(idx as int)),
                best_out@ > 0 ==> is_first_largest(amounts.take(idx as int), best_index@ as int)
                    && best_out@ == amounts[best_index@ as int],
            decreases self.dexes.entries@.len() - idx,
        {
            let none: Vec<QuoteReply> = Vec::new();
            let answered: &Vec<QuoteReply> = if idx < replies.len() {
                &replies[idx]
            } else {
                &none
            };
            let ghost seen = amounts.take(idx as int);
            let ghost next = amounts.take(idx + 1);
            proof {
                assert(answered@ =~= dex_replies(replies@, idx as int));
                assert(next =~= seen.push(amounts[idx as int]));
                if best_out@ > 0 {
                    assert(seen[best_index@ as int] == amounts[best_index@ as int]);
                }
                lemma_first_largest_push(seen, amounts[idx as int], best_index@ as int);
            }
            self.compare_dex(
                idx,
                token_in,
                token_out,
                amount_in,
                answered,
                &mut best_index,
                &mut best_out,
            );
            idx += 1;
        }
        assert(amounts.take(idx as int) =~= amounts);
        Ok((best_index, best_out))
    }

    /// Compares the direct routes of exchange number `index` with the best one so far.
    ///
    /// `replies` holds what the exchange answered to the questions of
    /// [`Self::direct_candidates`].
    pub fn compare_dex(
        &self,
        index: usize,
        token_in: Address,
        token_out: Address,
        amount_in: U256,
        replies: &Vec<QuoteReply>,
        best_index: &mut U256,
        best_out: &mut U256,
    )
        ensures
            ({
                let routes = self@.direct_routes_of(
                    index as int,
                    Swap { token_in, token_out, amount_in },
                );
                let offer = largest(offers(routes, replies@));
                if offer > old(best_out)@ {
                    final(best_index)@ == index && final(best_out)@ == offer
                } else {
                    *final(best_index) == *old(best_index) && *final(best_out) == *old(best_out)
                }
            }),
    {
        let quote = self.direct_quote(index, token_in, token_out, amount_in, replies);
        if best_out.less_than(quote) {
            *best_out = quote;
            *best_index = U256::from(index as u64);
        }
    }

    /// The most that exchange number `index` offers for a direct route; 0 where it
    /// offers nothing.
    fn direct_quote(
        &self,
        index: usize,
        token_in: Address,
        token_out: Address,
        amount_in: U256,
        replies: &Vec<QuoteReply>,
    ) -> (r: U256)
        ensures
            r@ == largest(
                offers(
                    self@.direct_routes_of(index as int, Swap { token_in, token_out, amount_in }),
                    replies@,
                ),
            ),
    {
        if index < self.dexes.entries.len() {
            let dex = self.dexes.entries[index];
            if dex.active {
                let dex_type = dex.kind.limbs[0];
                if dex_type == DEX_TYPE_UNIV3 {
                    return self.best_univ3_direct(
                        dex.address,
                        token_in,
                        token_out,
                        amount_in,
                        replies,
                    );
                } else if dex_type == DEX_TYPE_AMM_V2 {
                    return self.amm_direct_quote(
                        dex.address,
                        token_in,
                        token_out,
                        amount_in,
                        replies,
                    );
                }
            }
        }
        U256::zero()
    }

    /// Compares every route of a Uniswap V3 quoter with the best one so far.
    fn quote_univ3(
        &self,
        quoter_addr: Address,
        token_in: Address,
        token_out: Address,
        amount_in: U256,
        replies: &Vec<QuoteReply>,
        best_out: &mut U256,
        best_tokens: &mut Vec<Address>,
        best_fees: &mut Vec<u32>,
    )
        ensures
            ({
                let routes = univ3_routes(
                    quoter_addr,
                    Swap { token_in, token_out, amount_in },
                    self@.routing_tokens,
                );
                (RouteView {
                    amount_out: final(best_out)@,
                    tokens: final(best_tokens)@,
                    fees: final(best_fees)@,
                }) == improved(
                    RouteView {
                        amount_out: old(best_out)@,
                        tokens: old(best_tokens)@,
                        fees: old(best_fees)@,
                    },
                    routes,
                    offers(routes, replies@),
                )
            }),
    {
        let swap = Swap { token_in, token_out, amount_in };
        let candidates = univ3_candidates(quoter_addr, swap, &self.routing_tokens);
        take_better(&candidates, replies, best_out, best_tokens, best_fees);
    }

    /// Compares every route of a V2 router with the best one so far.
    fn quote_amm_v2(
        &self,
        router_addr: Address,
        token_in: Address,
        token_out: Address,
        amount_in: U256,
        replies: &Vec<QuoteReply>,
        best_out: &mut U256,
        best_tokens: &mut Vec<Address>,
        best_fees: &mut Vec<u32>,
    )
        ensures
            ({
                let routes = amm_routes(
                    router_addr,
                    Swap { token_in, token_out, amount_in },
                    self@.routing_tokens,
                );
                (RouteView {
                    amount_out: final(best_out)@,
                    tokens: final(best_tokens)@,
                    fees: final(best_fees)@,
                }) == improved(
                    RouteView {
                        amount_out: old(best_out)@,
                        tokens: old(best_tokens)@,
                        fees: old(best_fees)@,
                    },
                    routes,
                    offers(routes, replies@),
                )
            }),
    {
        let swap = Swap { token_in, token_out, amount_in };
        let candidates = amm_candidates(router_addr, swap, &self.routing_tokens);
        take_better(&candidates, replies, best_out, best_tokens, best_fees);
    }

    /// The most that a Uniswap V3 quoter offers for a direct route; 0 where it
    /// offers nothing.
    fn best_univ3_direct(
        &self,
        quoter_addr: Address,
        token_in: Address,
        token_out: Address,
        amount_in: U256,
        replies: &Vec<QuoteReply>,
    ) -> (r: U256)
        ensures
            r@ == largest(
                offers(
                    univ3_direct(quoter_addr, Swap { token_in, token_out, amount_in }),
                    replies@,
                ),
            ),
    {
        let swap = Swap { token_in, token_out, amount_in };
        let candidates = univ3_direct_candidates(quoter_addr, swap);
        largest_offer(&candidates, replies)
    }

    /// What a V2 router offers for the direct route; 0 where it offers nothing.
    fn amm_direct_quote(
        &self,
        router_addr: Address,
        token_in: Address,
        token_out: Address,
        amount_in: U256,
        replies: &Vec<QuoteReply>,
    ) -> (r: U256)
        ensures
            r@ == largest(
                offers(
                    amm_direct(router_addr, Swap { token_in, token_out, amount_in }),
                    replies@,
                ),
            ),
    {
        let swap = Swap { token_in, token_out, amount_in };
        let candidates = amm_direct_candidates(router_addr, swap);
        largest_offer(&candidates, replies)
    }
}

/// There is one offer for each route.
proof fn lemma_lengths(
    dexes: Seq<Entry>,
    swap: Swap,
    tokens: Seq<Address>,
    replies: Seq<Vec<QuoteReply>>,
)
    ensures
        all_routes(dexes, swap, tokens).len() == all_offers(dexes, swap, tokens, replies).len(),
    decreases dexes.len(),
{
    if dexes.len() > 0 {
        lemma_lengths(dexes.drop_last(), swap, tokens, replies);
    }
}

/// What every call keeps is kept over any stretch of calls: an optimizer that was
/// initialized can never be initialized again, and exchanges keep their numbers.
pub proof fn law_initialized_once(
    a: RouteOptimizerState,
    b: RouteOptimizerState,
    c: RouteOptimizerState,
)
    requires
        a.precedes(b),
        b.precedes(c),
    ensures
        a.precedes(c),
        a.owner != Address::spec_zero() ==> c.owner == a.owner && c.initialize_refusal() == Some(
            "already initialized",
        ),
{
    law_entries_are_kept_for_good(a.dexes, b.dexes, c.dexes, word(0));
}

/// A removed exchange is asked nothing, and every other exchange is asked what it
/// was asked before.
pub proof fn law_removed_exchange_is_not_asked(
    dexes: Seq<Entry>,
    index: U256,
    other: int,
    swap: Swap,
    tokens: Seq<Address>,
)
    requires
        index@ < dexes.len(),
        0 <= other < dexes.len(),
    ensures
        ({
            let later = without(dexes, index);
            &&& dex_routes(later[index@ as int], swap, tokens).len() == 0
            &&& dex_direct_routes(later[index@ as int], swap).len() == 0
            &&& other != index@ ==> dex_routes(later[other], swap, tokens) == dex_routes(
                dexes[other],
                swap,
                tokens,
            ) && dex_direct_routes(later[other], swap) == dex_direct_routes(dexes[other], swap)
        }),
{
}

/// Where the exchanges give the same answers about direct routes, the best route
/// gives at least as much as the best direct route of any exchange.
pub proof fn law_best_route_beats_direct_routes(
    dexes: Seq<Entry>,
    swap: Swap,
    tokens: Seq<Address>,
    replies: Seq<Vec<QuoteReply>>,
    direct_replies: Seq<Vec<QuoteReply>>,
    i: int,
    best: int,
)
    requires
        0 <= i < dexes.len(),
        forall|k: int|
            0 <= k < dex_direct_routes(dexes[i], swap).len() ==> #[trigger] reply_at(
                dex_replies(direct_replies, i),
                k,
            ) == reply_at(dex_replies(replies, i), k),
    ensures
        nothing_offered(all_offers(dexes, swap, tokens, replies)) ==> direct_offers(
            dexes,
            swap,
            direct_replies,
        )[i] == 0,
        is_first_largest(all_offers(dexes, swap, tokens, replies), best) ==> direct_offers(
            dexes,
            swap,
            direct_replies,
        )[i] <= all_offers(dexes, swap, tokens, replies)[best],
{
    let direct = dex_direct_routes(dexes[i], swap);
    let routes = dex_routes(dexes[i], swap, tokens);
    let few = offers(direct, dex_replies(direct_replies, i));
    let many = offers(routes, dex_replies(replies, i));
    lemma_largest(few);
    if largest(few) > 0 {
        let j = choose|j: int| 0 <= j < few.len() && few[j] == largest(few);
        assert(routes[j] == direct[j]);
        assert(many[j] == few[j]);
        let k = lemma_offer_is_listed(dexes, swap, tokens, replies, i, j);
        assert(all_offers(dexes, swap, tokens, replies)[k] == many[j]);
    }
}

/// What an exchange offered is among all the offers.
proof fn lemma_offer_is_listed(
    dexes: Seq<Entry>,
    swap: Swap,
    tokens: Seq<Address>,
    replies: Seq<Vec<QuoteReply>>,
    i: int,
    j: int,
) -> (k: int)
    requires
        0 <= i < dexes.len(),
        0 <= j < dex_routes(dexes[i], swap, tokens).len(),
    ensures
        0 <= k < all_offers(dexes, swap, tokens, replies).len(),
        all_offers(dexes, swap, tokens, replies)[k] == offers(
            dex_routes(dexes[i], swap, tokens),
            dex_replies(replies, i),
        )[j],
    decreases dexes.len(),
{
    let front = dexes.drop_last();
    if i == dexes.len() - 1 {
        all_offers(front, swap, tokens, replies).len() + j
    } else {
        lemma_offer_is_listed(front, swap, tokens, replies, i, j)
    }
}

/// Every route that is asked about, and so the best one, leads from the one token
/// of the swap to the other, directly or by way of one routing token.
pub proof fn law_routes_connect(dexes: Seq<Entry>, swap: Swap, tokens: Seq<Address>, k: int)
    requires
        0 <= k < all_routes(dexes, swap, tokens).len(),
    ensures
        connects(all_routes(dexes, swap, tokens)[k], swap, tokens),
    decreases dexes.len(),
{
    let front = dexes.drop_last();
    let before = all_routes(front, swap, tokens);
    if k < before.len() {
        law_routes_connect(front, swap, tokens, k);
    } else {
        let dex = dexes.last();
        if kind_number(dex) == DEX_TYPE_UNIV3 {
            lemma_univ3_routes_connect(dex.address, swap, tokens, k - before.len());
        } else {
            lemma_amm_routes_connect(dex.address, swap, tokens, k - before.len());
        }
    }
}

} // verus!
