//! What the log of the express lane vault adds up to.

use crate::timeboost_vault::{RoundBuyer, VaultEvent};
use vstd::prelude::*;

verus! {

/// What the rounds in a log cost.
pub open spec fn logged_costs(log: Seq<VaultEvent>) -> nat
    decreases log.len(),
{
    if log.len() == 0 {
        0
    } else {
        logged_costs(log.drop_last()) + match log.last() {
            VaultEvent::RoundWon { bid_cost, .. } => bid_cost@,
            _ => 0,
        }
    }
}

/// What the purchases in a log earned.
pub open spec fn logged_earnings(log: Seq<VaultEvent>) -> nat
    decreases log.len(),
{
    if log.len() == 0 {
        0
    } else {
        logged_earnings(log.drop_last()) + match log.last() {
            VaultEvent::ResalePurchased { price_paid, .. } => price_paid@,
            _ => 0,
        }
    }
}

/// Whether a log holds a purchase by this buyer for this round.
pub open spec fn logged_purchase(log: Seq<VaultEvent>, slot: RoundBuyer) -> bool {
    exists|i: int| 0 <= i < log.len() && is_purchase(#[trigger] log[i], slot)
}

/// Whether an event is a purchase by this buyer for this round.
pub open spec fn is_purchase(event: VaultEvent, slot: RoundBuyer) -> bool {
    event matches VaultEvent::ResalePurchased { buyer, round, .. } && buyer == slot.buyer
        && round == slot.round
}

/// Whether the authorized buyers are those whose purchases a log holds.
pub open spec fn buyers_match(buyers: Map<RoundBuyer, bool>, log: Seq<VaultEvent>) -> bool {
    forall|slot: RoundBuyer| #[trigger] buyers[slot] <==> logged_purchase(log, slot)
}

/// What one more event adds to the costs.
pub broadcast proof fn lemma_costs_push(log: Seq<VaultEvent>, event: VaultEvent)
    ensures
        #[trigger] logged_costs(log.push(event)) == logged_costs(log) + match event {
            VaultEvent::RoundWon { bid_cost, .. } => bid_cost@,
            _ => 0,
        },
{
    assert(log.push(event).drop_last() =~= log);
}

/// What one more event adds to the earnings.
pub broadcast proof fn lemma_earnings_push(log: Seq<VaultEvent>, event: VaultEvent)
    ensures
        #[trigger] logged_earnings(log.push(event)) == logged_earnings(log) + match event {
            VaultEvent::ResalePurchased { price_paid, .. } => price_paid@,
            _ => 0,
        },
{
    assert(log.push(event).drop_last() =~= log);
}

/// Which purchases a log holds after one more event.
pub broadcast proof fn lemma_purchase_push(
    log: Seq<VaultEvent>,
    event: VaultEvent,
    slot: RoundBuyer,
)
    ensures
        #[trigger] logged_purchase(log.push(event), slot) <==> logged_purchase(log, slot)
            || is_purchase(event, slot),
{
    let longer = log.push(event);
    assert(longer[log.len() as int] == event);
    if logged_purchase(log, slot) {
        let i = choose|i: int| 0 <= i < log.len() && is_purchase(#[trigger] log[i], slot);
        assert(longer[i] == log[i]);
    }
    if logged_purchase(longer, slot) && !is_purchase(event, slot) {
        let i = choose|i: int| 0 <= i < longer.len() && is_purchase(#[trigger] longer[i], slot);
        assert(longer[i] == log[i]);
    }
}

} // verus!
