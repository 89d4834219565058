//! What the routes that are asked about, and the answers, come to: every route is
//! asked about, in a fixed order, and the best answer wins.

use crate::address::Address;
use crate::registry::Entry;
use crate::route_optimizer::{
    all_offers, all_routes, dex_routes, direct_offers, RouteOptimizerState,
};
use crate::route_path::two_hop_path;
use crate::routes::{
    amm_direct, amm_routes, amm_two_hops, improved, is_first_largest, largest, lemma_largest,
    nothing_offered, offers, univ3_direct, univ3_routes, univ3_two_hops, CandidateView,
    QuoteCallView, QuoteReply, RouteView, Swap,
};
use vstd::prelude::*;

verus! {

/// What a reply offers.  A quoter offers the amount it answered; a V2 router that
/// answered at least one amount for each token of the path offers the last of them,
/// whatever the others are; anything else, and no reply, offers nothing.
pub proof fn law_offer_is_the_last_amount(
    candidates: Seq<CandidateView>,
    replies: Seq<QuoteReply>,
    k: int,
)
    requires
        0 <= k < candidates.len(),
    ensures
        offers(candidates, replies).len() == candidates.len(),
        k >= replies.len() ==> offers(candidates, replies)[k] == 0,
        k < replies.len() ==> match (candidates[k].call, replies[k]) {
            (QuoteCallView::AmountsOut { path, .. }, QuoteReply::Amounts(amounts)) => {
                let n = amounts@.len() as int;
                if 0 < path.len() <= n {
                    offers(candidates, replies)[k] == amounts@[n - 1]@
                } else {
                    offers(candidates, replies)[k] == 0
                }
            },
            (QuoteCallView::AmountsOut { .. }, _) => offers(candidates, replies)[k] == 0,
            (_, QuoteReply::Amount(amount)) => offers(candidates, replies)[k] == amount@,
            (_, _) => offers(candidates, replies)[k] == 0,
        },
{
}

/// A Uniswap V3 quoter is asked first about the direct route through each fee tier,
/// from the lowest to the highest, and then, for each routing token that is neither
/// token of the swap, in their order, about the route by way of it through each pair
/// of fee tiers.  Nothing else is asked.
pub proof fn law_every_univ3_route_is_asked(
    quoter: Address,
    swap: Swap,
    tokens: Seq<Address>,
    t: int,
    a: int,
    b: int,
)
    requires
        0 <= a < 4,
        0 <= b < 4,
    ensures
        ({
            let fees = seq![100u32, 500u32, 3000u32, 10000u32];
            let between = |m: Address| m != swap.token_in && m != swap.token_out;
            let routes = univ3_routes(quoter, swap, tokens);
            &&& routes.len() == 4 + 16 * tokens.filter(between).len()
            &&& routes[a].tokens == seq![swap.token_in, swap.token_out]
            &&& routes[a].fees == seq![fees[a]]
            &&& routes[a].call == (QuoteCallView::ExactInputSingle {
                quoter,
                token_in: swap.token_in,
                token_out: swap.token_out,
                fee: fees[a],
                amount_in: swap.amount_in,
            })
            &&& 0 <= t < tokens.len() && tokens[t] != swap.token_in && tokens[t] != swap.token_out
                ==> {
                let k = 4 + 16 * tokens.take(t).filter(between).len() + 4 * a + b;
                &&& k < routes.len()
                &&& routes[k].tokens == seq![swap.token_in, tokens[t], swap.token_out]
                &&& routes[k].fees == seq![fees[a], fees[b]]
                &&& routes[k].call == (QuoteCallView::ExactInput {
                    quoter,
                    path_bytes: two_hop_path(
                        swap.token_in,
                        fees[a],
                        tokens[t],
                        fees[b],
                        swap.token_out,
                    ),
                    amount_in: swap.amount_in,
                })
            }
        }),
{
    let between = |m: Address| m != swap.token_in && m != swap.token_out;
    let direct = univ3_direct(quoter, swap);
    let hops = univ3_two_hops(quoter, swap, tokens);
    assert(direct.len() == 4);
    lemma_univ3_hops(quoter, swap, tokens, between, t, a, b);
    if 0 <= t < tokens.len() && between(tokens[t]) {
        let j = 16 * tokens.take(t).filter(between).len() + 4 * a + b;
        assert((direct + hops)[4 + j] == hops[j]);
    }
}

proof fn lemma_univ3_hops(
    quoter: Address,
    swap: Swap,
    tokens: Seq<Address>,
    between: spec_fn(Address) -> bool,
    t: int,
    a: int,
    b: int,
)
    requires
        0 <= a < 4,
        0 <= b < 4,
        forall|m: Address| #[trigger] between(m) <==> m != swap.token_in && m != swap.token_out,
    ensures
        ({
            let fees = seq![100u32, 500u32, 3000u32, 10000u32];
            let hops = univ3_two_hops(quoter, swap, tokens);
            &&& hops.len() == 16 * tokens.filter(between).len()
            &&& 0 <= t < tokens.len() && between(tokens[t]) ==> {
                let j = 16 * tokens.take(t).filter(between).len() + 4 * a + b;
                &&& j < hops.len()
                &&& hops[j].tokens == seq![swap.token_in, tokens[t], swap.token_out]
                &&& hops[j].fees == seq![fees[a], fees[b]]
                &&& hops[j].call == (QuoteCallView::ExactInput {
                    quoter,
                    path_bytes: two_hop_path(
                        swap.token_in,
                        fees[a],
                        tokens[t],
                        fees[b],
                        swap.token_out,
                    ),
                    amount_in: swap.amount_in,
                })
            }
        }),
    decreases tokens.len(),
{
    reveal(Seq::filter);
    if tokens.len() > 0 {
        let front = tokens.drop_last();
        lemma_univ3_hops(quoter, swap, front, between, t, a, b);
        assert(between(tokens.last()) <==> swap.passes_through(tokens.last()));
        if 0 <= t < front.len() {
            assert(front.take(t) =~= tokens.take(t));
        } else if t == front.len() {
            assert(tokens.take(t) =~= front);
            assert((4 * a + b) / 4 == a && (4 * a + b) % 4 == b);
        }
    }
}

/// A V2 router is asked first about the direct route and then, for each routing token
/// that is neither token of the swap, in their order, about the route by way of it.
/// Nothing else is asked.
pub proof fn law_every_amm_route_is_asked(
    router: Address,
    swap: Swap,
    tokens: Seq<Address>,
    t: int,
)
    ensures
        ({
            let between = |m: Address| m != swap.token_in && m != swap.token_out;
            let routes = amm_routes(router, swap, tokens);
            let straight = seq![swap.token_in, swap.token_out];
            &&& routes.len() == 1 + tokens.filter(between).len()
            &&& routes[0].tokens == straight
            &&& routes[0].fees.len() == 0
            &&& routes[0].call == (QuoteCallView::AmountsOut {
                router,
                amount_in: swap.amount_in,
                path: straight,
            })
            &&& 0 <= t < tokens.len() && tokens[t] != swap.token_in && tokens[t] != swap.token_out
                ==> {
                let k = 1 + tokens.take(t).filter(between).len() as int;
                let path = seq![swap.token_in, tokens[t], swap.token_out];
                &&& k < routes.len()
                &&& routes[k].tokens == path
                &&& routes[k].fees.len() == 0
                &&& routes[k].call == (QuoteCallView::AmountsOut {
                    router,
                    amount_in: swap.amount_in,
                    path,
                })
            }
        }),
{
    let between = |m: Address| m != swap.token_in && m != swap.token_out;
    let direct = amm_direct(router, swap);
    let hops = amm_two_hops(router, swap, tokens);
    assert(direct.len() == 1);
    lemma_amm_hops(router, swap, tokens, between, t);
    if 0 <= t < tokens.len() && between(tokens[t]) {
        let j = tokens.take(t).filter(between).len() as int;
        assert((direct + hops)[1 + j] == hops[j]);
    }
}

proof fn lemma_amm_hops(
    router: Address,
    swap: Swap,
    tokens: Seq<Address>,
    between: spec_fn(Address) -> bool,
    t: int,
)
    requires
        forall|m: Address| #[trigger] between(m) <==> m != swap.token_in && m != swap.token_out,
    ensures
        ({
            let hops = amm_two_hops(router, swap, tokens);
            &&& hops.len() == tokens.filter(between).len()
            &&& 0 <= t < tokens.len() && between(tokens[t]) ==> {
                let j = tokens.take(t).filter(between).len() as int;
                let path = seq![swap.token_in, tokens[t], swap.token_out];
                &&& j < hops.len()
                &&& hops[j].tokens == path
                &&& hops[j].fees.len() == 0
                &&& hops[j].call == (QuoteCallView::AmountsOut {
                    router,
                    amount_in: swap.amount_in,
                    path,
                })
            }
        }),
    decreases tokens.len(),
{
    reveal(Seq::filter);
    if tokens.len() > 0 {
        let front = tokens.drop_last();
        lemma_amm_hops(router, swap, front, between, t);
        assert(between(tokens.last()) <==> swap.passes_through(tokens.last()));
        if 0 <= t < front.len() {
            assert(front.take(t) =~= tokens.take(t));
        } else if t == front.len() {
            assert(tokens.take(t) =~= front);
        }
    }
}

/// An active exchange of type 0 is asked as a Uniswap V3 quoter and one of type 1 as
/// a V2 router, at its own address; one that is removed, of another type or not
/// registered is asked nothing.  When only direct routes count, it is asked about
/// the first four routes or the first one.
pub proof fn law_exchange_is_asked_by_its_type(
    s: RouteOptimizerState,
    index: int,
    swap: Swap,
)
    ensures
        ({
            let routes = s.routes_of(index, swap);
            let direct = s.direct_routes_of(index, swap);
            if 0 <= index < s.dexes.len() && s.dexes[index].active
                && s.dexes[index].kind.limbs@[0] == 0 {
                &&& routes == univ3_routes(s.dexes[index].address, swap, s.routing_tokens)
                &&& direct == routes.take(4)
                &&& direct.len() == 4
            } else if 0 <= index < s.dexes.len() && s.dexes[index].active
                && s.dexes[index].kind.limbs@[0] == 1 {
                &&& routes == amm_routes(s.dexes[index].address, swap, s.routing_tokens)
                &&& direct == routes.take(1)
                &&& direct.len() == 1
            } else {
                routes.len() == 0 && direct.len() == 0
            }
        }),
{
    let routes = s.routes_of(index, swap);
    let direct = s.direct_routes_of(index, swap);
    if direct.len() == 4 {
        assert(direct =~= routes.take(4));
    } else if direct.len() == 1 {
        assert(direct =~= routes.take(1));
    }
}

/// The routes of all the exchanges stand one exchange after the other, in the order
/// in which they were registered, and each is priced by what its own exchange
/// answered to the very question.
pub proof fn law_exchanges_are_compared_in_order(
    s: RouteOptimizerState,
    swap: Swap,
    replies: Seq<Vec<QuoteReply>>,
    i: int,
    j: int,
)
    ensures
        ({
            let routes = all_routes(s.dexes, swap, s.routing_tokens);
            let amounts = all_offers(s.dexes, swap, s.routing_tokens, replies);
            let own = s.routes_of(i, swap);
            let answered = if i < replies.len() {
                replies[i]@
            } else {
                seq![]
            };
            let start = all_routes(s.dexes.take(i), swap, s.routing_tokens).len();
            &&& amounts.len() == routes.len()
            &&& s.dexes.len() == 0 ==> routes.len() == 0
            &&& i == 0 ==> start == 0
            &&& i == s.dexes.len() ==> start == routes.len()
            &&& 0 <= i < s.dexes.len() ==> all_routes(
                s.dexes.take(i + 1),
                swap,
                s.routing_tokens,
            ).len() == start + own.len()
            &&& 0 <= i < s.dexes.len() && 0 <= j < own.len() ==> {
                &&& start + j < routes.len()
                &&& routes[start + j] == own[j]
                &&& amounts[start + j] == offers(own, answered)[j]
            }
        }),
{
    lemma_in_order(s.dexes, swap, s.routing_tokens, replies, i, j);
    if i == 0 {
        assert(s.dexes.take(0).len() == 0);
    }
    if i == s.dexes.len() {
        assert(s.dexes.take(i) =~= s.dexes);
    }
}

proof fn lemma_in_order(
    dexes: Seq<Entry>,
    swap: Swap,
    tokens: Seq<Address>,
    replies: Seq<Vec<QuoteReply>>,
    i: int,
    j: int,
)
    ensures
        ({
            let routes = all_routes(dexes, swap, tokens);
            let amounts = all_offers(dexes, swap, tokens, replies);
            let answered = if i < replies.len() {
                replies[i]@
            } else {
                seq![]
            };
            &&& amounts.len() == routes.len()
            &&& 0 <= i < dexes.len() ==> {
                let own = dex_routes(dexes[i], swap, tokens);
                let start = all_routes(dexes.take(i), swap, tokens).len();
                &&& all_routes(dexes.take(i + 1), swap, tokens).len() == start + own.len()
                &&& start + own.len() <= routes.len()
                &&& 0 <= j < own.len() ==> {
                    &&& routes[start + j] == own[j]
                    &&& amounts[start + j] == offers(own, answered)[j]
                }
            }
        }),
    decreases dexes.len(),
{
    if dexes.len() > 0 {
        let front = dexes.drop_last();
        lemma_in_order(front, swap, tokens, replies, i, j);
        if 0 <= i < front.len() {
            assert(front.take(i) =~= dexes.take(i));
            assert(front.take(i + 1) =~= dexes.take(i + 1));
        } else if i == front.len() {
            assert(dexes.take(i) =~= front);
            assert(dexes.take(i + 1) =~= dexes);
        }
    }
}

/// The best route is one that some exchange was asked about, at what that exchange
/// answered; no answer of any exchange is larger, and every earlier one is smaller.
pub proof fn law_best_route_is_the_best_answer(
    s: RouteOptimizerState,
    swap: Swap,
    replies: Seq<Vec<QuoteReply>>,
    k: int,
) -> (winner: (int, int))
    requires
        is_first_largest(all_offers(s.dexes, swap, s.routing_tokens, replies), k),
    ensures
        ({
            let (i, j) = winner;
            let best = all_offers(s.dexes, swap, s.routing_tokens, replies)[k];
            let own = s.routes_of(i, swap);
            &&& 0 <= i < s.dexes.len()
            &&& i < replies.len()
            &&& 0 <= j < own.len()
            &&& best > 0
            &&& all_routes(s.dexes, swap, s.routing_tokens)[k] == own[j]
            &&& best == offers(own, replies[i]@)[j]
            &&& forall|x: int, y: int|
                #![trigger s.routes_of(x, swap)[y]]
                0 <= x < s.dexes.len() && x < replies.len() && 0 <= y < s.routes_of(x, swap).len()
                    ==> {
                    &&& offers(s.routes_of(x, swap), replies[x]@)[y] <= best
                    &&& x < i || (x == i && y < j) ==> offers(
                        s.routes_of(x, swap),
                        replies[x]@,
                    )[y] < best
                }
        }),
{
    let routes = all_routes(s.dexes, swap, s.routing_tokens);
    let amounts = all_offers(s.dexes, swap, s.routing_tokens, replies);
    lemma_in_order(s.dexes, swap, s.routing_tokens, replies, 0, 0);
    let (i, j) = lemma_place(s.dexes, swap, s.routing_tokens, k);
    lemma_in_order(s.dexes, swap, s.routing_tokens, replies, i, j);
    let own = s.routes_of(i, swap);
    if i >= replies.len() {
        law_offer_is_the_last_amount(own, seq![], j);
    }
    let best = amounts[k];
    assert forall|x: int, y: int|
        #![trigger s.routes_of(x, swap)[y]]
        0 <= x < s.dexes.len() && x < replies.len() && 0 <= y < s.routes_of(x, swap).len() implies {
        &&& offers(s.routes_of(x, swap), replies[x]@)[y] <= best
        &&& x < i || (x == i && y < j) ==> offers(s.routes_of(x, swap), replies[x]@)[y] < best
    } by {
        lemma_in_order(s.dexes, swap, s.routing_tokens, replies, x, y);
        let place = all_routes(s.dexes.take(x), swap, s.routing_tokens).len() + y;
        assert(amounts[place] <= best);
        if x < i {
            lemma_starts_grow(s.dexes, swap, s.routing_tokens, x + 1, i);
            assert(place < k);
        }
        if place < k {
            assert(amounts[place] < best);
        }
    }
    (i, j)
}

/// The routes before an exchange are no more than those before a later one.
proof fn lemma_starts_grow(dexes: Seq<Entry>, swap: Swap, tokens: Seq<Address>, a: int, b: int)
    requires
        0 <= a <= b <= dexes.len(),
    ensures
        all_routes(dexes.take(a), swap, tokens).len() <= all_routes(
            dexes.take(b),
            swap,
            tokens,
        ).len(),
    decreases b - a,
{
    if a < b {
        lemma_starts_grow(dexes, swap, tokens, a, b - 1);
        assert(dexes.take(b).drop_last() =~= dexes.take(b - 1));
    }
}

/// Every route stands in the part of some exchange.
proof fn lemma_place(dexes: Seq<Entry>, swap: Swap, tokens: Seq<Address>, k: int) -> (place: (
    int,
    int,
))
    requires
        0 <= k < all_routes(dexes, swap, tokens).len(),
    ensures
        0 <= place.0 < dexes.len(),
        0 <= place.1 < dex_routes(dexes[place.0], swap, tokens).len(),
        k == all_routes(dexes.take(place.0), swap, tokens).len() + place.1,
    decreases dexes.len(),
{
    let front = dexes.drop_last();
    let before = all_routes(front, swap, tokens).len() as int;
    if k < before {
        let place = lemma_place(front, swap, tokens, k);
        assert(front.take(place.0) =~= dexes.take(place.0));
        place
    } else {
        assert(dexes.take(front.len() as int) =~= front);
        (front.len() as int, k - before)
    }
}

/// There is no route if and only if no exchange answered any amount but 0.
pub proof fn law_no_route_without_an_answer(
    s: RouteOptimizerState,
    swap: Swap,
    replies: Seq<Vec<QuoteReply>>,
)
    ensures
        nothing_offered(all_offers(s.dexes, swap, s.routing_tokens, replies)) <==> forall|
            x: int,
            y: int,
        |
            #![trigger s.routes_of(x, swap)[y]]
            0 <= x < s.dexes.len() && x < replies.len() && 0 <= y < s.routes_of(x, swap).len()
                ==> offers(s.routes_of(x, swap), replies[x]@)[y] == 0,
{
    let amounts = all_offers(s.dexes, swap, s.routing_tokens, replies);
    lemma_in_order(s.dexes, swap, s.routing_tokens, replies, 0, 0);
    if nothing_offered(amounts) {
        assert forall|x: int, y: int|
            #![trigger s.routes_of(x, swap)[y]]
            0 <= x < s.dexes.len() && x < replies.len() && 0 <= y < s.routes_of(
                x,
                swap,
            ).len() implies offers(s.routes_of(x, swap), replies[x]@)[y] == 0 by {
            lemma_in_order(s.dexes, swap, s.routing_tokens, replies, x, y);
            let place = all_routes(s.dexes.take(x), swap, s.routing_tokens).len() + y;
            assert(amounts[place] == 0);
        }
    }
    if forall|x: int, y: int|
        #![trigger s.routes_of(x, swap)[y]]
        0 <= x < s.dexes.len() && x < replies.len() && 0 <= y < s.routes_of(x, swap).len()
            ==> offers(s.routes_of(x, swap), replies[x]@)[y] == 0 {
        assert forall|k: int| 0 <= k < amounts.len() implies amounts[k] == 0 by {
            let (x, y) = lemma_place(s.dexes, swap, s.routing_tokens, k);
            lemma_in_order(s.dexes, swap, s.routing_tokens, replies, x, y);
            let own = s.routes_of(x, swap);
            assert(own[y] == own[y]);
            if x >= replies.len() {
                law_offer_is_the_last_amount(own, seq![], y);
            }
        }
    }
}

/// What an exchange counts for when only direct routes do: the largest amount that it
/// answered about one of them, and 0 where it answered none.
pub proof fn law_direct_offer_is_the_largest_answer(
    s: RouteOptimizerState,
    swap: Swap,
    replies: Seq<Vec<QuoteReply>>,
    i: int,
)
    requires
        0 <= i < s.dexes.len(),
    ensures
        ({
            let offer = direct_offers(s.dexes, swap, replies)[i];
            let own = s.direct_routes_of(i, swap);
            &&& direct_offers(s.dexes, swap, replies).len() == s.dexes.len()
            &&& i >= replies.len() ==> offer == 0
            &&& i < replies.len() ==> {
                &&& forall|y: int|
                    0 <= y < own.len() ==> #[trigger] offers(own, replies[i]@)[y] <= offer
                &&& offer > 0 ==> exists|y: int|
                    0 <= y < own.len() && #[trigger] offers(own, replies[i]@)[y] == offer
                &&& offer == largest(offers(own, replies[i]@))
            }
        }),
{
    let own = s.direct_routes_of(i, swap);
    if i < replies.len() {
        lemma_largest(offers(own, replies[i]@));
    } else {
        let amounts = offers(own, seq![]);
        lemma_largest(amounts);
        if largest(amounts) > 0 {
            let y = choose|y: int| 0 <= y < amounts.len() && amounts[y] == largest(amounts);
            law_offer_is_the_last_amount(own, seq![], y);
        }
    }
}

/// The first of the largest amounts is one that is not 0, that no other exceeds and
/// that every earlier one stays below; there is one unless all are 0.
pub proof fn law_first_of_the_largest(amounts: Seq<nat>, k: int)
    ensures
        is_first_largest(amounts, k) <==> {
            &&& 0 <= k < amounts.len()
            &&& amounts[k] != 0
            &&& forall|j: int| 0 <= j < k ==> amounts[j] < amounts[k]
            &&& forall|j: int| k < j < amounts.len() ==> amounts[j] <= amounts[k]
        },
        nothing_offered(amounts) <==> forall|j: int| 0 <= j < amounts.len() ==> amounts[j] == 0,
        (exists|j: int| is_first_largest(amounts, j)) <==> !nothing_offered(amounts),
    decreases amounts.len(),
{
    if is_first_largest(amounts, k) {
        assert(amounts[k] != 0);
    } else if 0 <= k < amounts.len() && amounts[k] != 0 && (forall|j: int|
        0 <= j < k ==> amounts[j] < amounts[k]) && (forall|j: int|
        k < j < amounts.len() ==> amounts[j] <= amounts[k]) {
        assert forall|j: int| 0 <= j < amounts.len() implies amounts[j] <= amounts[k] by {}
        assert(false);
    }
    if !nothing_offered(amounts) {
        let front = amounts.drop_last();
        let last = amounts.last();
        law_first_of_the_largest(front, k);
        assert(amounts =~= front.push(last));
        let n = front.len() as int;
        if nothing_offered(front) {
            assert forall|j: int| 0 <= j < n implies amounts[j] == 0 by {
                assert(front[j] == amounts[j]);
            }
            assert(is_first_largest(amounts, n));
        } else {
            let f = choose|j: int| is_first_largest(front, j);
            assert forall|j: int| 0 <= j < n implies amounts[j] <= front[f] by {
                assert(front[j] == amounts[j]);
            }
            assert(front[f] == amounts[f]);
            if last > front[f] {
                assert(is_first_largest(amounts, n));
            } else {
                assert(is_first_largest(amounts, f));
            }
        }
    } else if exists|j: int| is_first_largest(amounts, j) {
        let j = choose|j: int| is_first_largest(amounts, j);
        assert(amounts[j] == 0);
    }
}

/// Comparing candidates with the best route so far: it stays unless one offers more,
/// and then the first of those that offer most takes its place.
pub proof fn law_only_more_replaces_the_best(
    best: RouteView,
    candidates: Seq<CandidateView>,
    amounts: Seq<nat>,
    k: int,
)
    requires
        candidates.len() == amounts.len(),
    ensures
        (forall|j: int| 0 <= j < amounts.len() ==> amounts[j] <= best.amount_out) ==> improved(
            best,
            candidates,
            amounts,
        ) == best,
        0 <= k < amounts.len() && amounts[k] > best.amount_out && (forall|j: int|
            0 <= j < k ==> amounts[j] < amounts[k]) && (forall|j: int|
            k < j < amounts.len() ==> amounts[j] <= amounts[k]) ==> improved(
            best,
            candidates,
            amounts,
        ) == (RouteView {
            amount_out: amounts[k],
            tokens: candidates[k].tokens,
            fees: candidates[k].fees,
        }),
    decreases candidates.len(),
{
    if candidates.len() > 0 {
        let cs = candidates.drop_last();
        let ams = amounts.drop_last();
        let n = cs.len() as int;
        law_only_more_replaces_the_best(best, cs, ams, k);
        lemma_improved_bounds(best, cs, ams);
        assert(forall|j: int| 0 <= j < n ==> ams[j] == amounts[j]);
        assert(amounts.last() == amounts[n]);
        let before = improved(best, cs, ams);
        if k == n && before.amount_out != best.amount_out {
            let j = choose|j: int| 0 <= j < n && ams[j] == before.amount_out;
            assert(amounts[j] == before.amount_out);
        }
    }
}

/// The best amount is the one from before or one of those offered.
proof fn lemma_improved_bounds(
    best: RouteView,
    candidates: Seq<CandidateView>,
    amounts: Seq<nat>,
)
    requires
        candidates.len() == amounts.len(),
    ensures
        ({
            let out = improved(best, candidates, amounts).amount_out;
            out == best.amount_out || exists|j: int| 0 <= j < amounts.len() && amounts[j] == out
        }),
    decreases candidates.len(),
{
    if candidates.len() > 0 {
        let ams = amounts.drop_last();
        lemma_improved_bounds(best, candidates.drop_last(), ams);
        let before = improved(best, candidates.drop_last(), ams).amount_out;
        if before != best.amount_out {
            let j = choose|j: int| 0 <= j < ams.len() && ams[j] == before;
            assert(amounts[j] == before);
        }
        assert(amounts[amounts.len() - 1] == amounts.last());
    }
}

} // verus!
