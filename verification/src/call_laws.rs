//! Which calls are accepted, which are refused and why, and what a call leaves as it was.

use crate::address::Address;
use crate::agent_registry::{
    blank_agent, includes_flag, law_registered_capabilities, Agent, AgentRegistry,
    AgentRegistryState,
};
use crate::call::{refused, Message};
use crate::liquidation_monitor::{LiquidationMonitor, LiquidationMonitorState};
use crate::registry::Entry;
use crate::route_optimizer::{RouteOptimizer, RouteOptimizerState};
use crate::timeboost_vault::{
    Purchase, RoundBuyer, TimeBoostVault, TimeBoostVaultState, VaultEvent,
};
use crate::vault_totals::{
    buyers_match, is_purchase, lemma_costs_push, lemma_earnings_push, logged_costs,
    logged_earnings, logged_purchase,
};
use crate::word::{group_word, word, U256};
use vstd::prelude::*;
use vstd::string::StringSliceAdditionalSpecFns;

verus! {

broadcast use group_word;

/// Two to the power of 256.
pub open spec fn two_to_256() -> int {
    0x1_0000_0000_0000_0000_0000_0000_0000_0000_0000_0000_0000_0000_0000_0000_0000_0000int
}

/// Whether every byte of an address is zero.
pub open spec fn all_zero(a: Address) -> bool {
    forall|i: int| 0 <= i < 20 ==> a@[i] == 0
}

/// A refused call returns the bytes of the reason as an error.
pub proof fn law_refusal_carries_the_reason<T>(r: Result<T, Vec<u8>>, reason: &str)
    ensures
        r is Ok ==> !refused(r, reason),
        r matches Err(data) ==> (refused(r, reason) <==> data@ == reason.spec_bytes()),
{
}

/// When the calls that register and change agents are accepted, and why else they are
/// refused.
pub proof fn law_agent_calls(
    s: AgentRegistryState,
    msg: Message,
    id: U256,
    capabilities: u64,
    revenue_share_bps: u16,
    other: Address,
)
    ensures
        s.paused ==> s.register_refusal(capabilities, revenue_share_bps) == Some("paused"),
        !s.paused && capabilities > 0x7F
            ==> s.register_refusal(capabilities, revenue_share_bps) == Some(
            "invalid capability bits",
        ),
        !s.paused && capabilities <= 0x7F && revenue_share_bps > 10_000
            ==> s.register_refusal(capabilities, revenue_share_bps) == Some(
            "revenue_share_bps exceeds 10000",
        ),
        !s.paused && capabilities <= 0x7F && revenue_share_bps <= 10_000
            && s.next_id@ + 1 >= two_to_256()
            ==> s.register_refusal(capabilities, revenue_share_bps) == Some("arithmetic overflow"),
        !s.paused && capabilities <= 0x7F && revenue_share_bps <= 10_000
            && s.next_id@ + 1 < two_to_256()
            ==> s.register_refusal(capabilities, revenue_share_bps) is None,
        s.paused ==> s.update_refusal(msg, id, capabilities, revenue_share_bps) == Some("paused"),
        !s.paused && capabilities > 0x7F
            ==> s.update_refusal(msg, id, capabilities, revenue_share_bps) == Some(
            "invalid capability bits",
        ),
        !s.paused && capabilities <= 0x7F && revenue_share_bps > 10_000
            ==> s.update_refusal(msg, id, capabilities, revenue_share_bps) == Some(
            "revenue_share_bps exceeds 10000",
        ),
        !s.paused && capabilities <= 0x7F && revenue_share_bps <= 10_000
            && s.agents[id].owner != msg.sender
            ==> s.update_refusal(msg, id, capabilities, revenue_share_bps) == Some("not owner"),
        !s.paused && capabilities <= 0x7F && revenue_share_bps <= 10_000
            && s.agents[id].owner == msg.sender
            ==> s.update_refusal(msg, id, capabilities, revenue_share_bps) is None,
        s.paused ==> s.deactivate_refusal(msg, id) == Some("paused"),
        !s.paused && (msg.sender != s.agents[id].owner && msg.sender != s.governance)
            ==> s.deactivate_refusal(msg, id) == Some("not authorized"),
        !s.paused && (msg.sender == s.agents[id].owner || msg.sender == s.governance)
            ==> s.deactivate_refusal(msg, id) is None,
        s.paused ==> s.reactivate_refusal(msg, id) == Some("paused"),
        !s.paused && all_zero(s.agents[id].owner)
            ==> s.reactivate_refusal(msg, id) == Some("agent does not exist"),
        !s.paused && !all_zero(s.agents[id].owner) && s.agents[id].owner != msg.sender
            ==> s.reactivate_refusal(msg, id) == Some("not owner"),
        !s.paused && !all_zero(s.agents[id].owner) && s.agents[id].owner == msg.sender
            ==> s.reactivate_refusal(msg, id) is None,
        all_zero(s.agents[id].owner)
            ==> s.transfer_agent_ownership_refusal(msg, id, other) == Some("agent does not exist"),
        !all_zero(s.agents[id].owner) && s.agents[id].owner != msg.sender
            ==> s.transfer_agent_ownership_refusal(msg, id, other) == Some("not owner"),
        !all_zero(s.agents[id].owner) && s.agents[id].owner == msg.sender && all_zero(other)
            ==> s.transfer_agent_ownership_refusal(msg, id, other) == Some("zero address"),
        !all_zero(s.agents[id].owner) && s.agents[id].owner == msg.sender && !all_zero(other)
            ==> s.transfer_agent_ownership_refusal(msg, id, other) is None,
{
    lemma_zero_address(s.agents[id].owner);
    lemma_zero_address(other);
}

/// When the calls about governance are accepted, and why else they are refused.
pub proof fn law_governance_calls(s: AgentRegistryState, msg: Message, other: Address)
    ensures
        !all_zero(s.governance) ==> s.initialize_refusal(other) == Some("already initialized"),
        all_zero(s.governance) && all_zero(other)
            ==> s.initialize_refusal(other) == Some("zero address"),
        all_zero(s.governance) && !all_zero(other) ==> s.initialize_refusal(other) is None,
        msg.sender != s.governance ==> s.governance_refusal(msg) == Some("not governance"),
        msg.sender == s.governance ==> s.governance_refusal(msg) is None,
        s.paused ==> s.pause_refusal() == Some("paused"),
        !s.paused ==> s.pause_refusal() is None,
        msg.sender != s.governance
            ==> s.new_governance_refusal(msg, other) == Some("not governance"),
        msg.sender == s.governance && all_zero(other)
            ==> s.new_governance_refusal(msg, other) == Some("zero address"),
        msg.sender == s.governance && !all_zero(other)
            ==> s.new_governance_refusal(msg, other) is None,
        msg.sender != s.pending_governance
            ==> s.accept_governance_refusal(msg) == Some("not pending governance"),
        msg.sender == s.pending_governance ==> s.accept_governance_refusal(msg) is None,
        msg.sender != s.governance ==> s.pausing_refusal(msg) == Some("not governance"),
        msg.sender == s.governance && s.paused ==> s.pausing_refusal(msg) == Some("already paused"),
        msg.sender == s.governance && !s.paused ==> s.pausing_refusal(msg) is None,
        msg.sender != s.governance ==> s.unpausing_refusal(msg) == Some("not governance"),
        msg.sender == s.governance && !s.paused ==> s.unpausing_refusal(msg) == Some("not paused"),
        msg.sender == s.governance && s.paused ==> s.unpausing_refusal(msg) is None,
{
    lemma_zero_address(s.governance);
    lemma_zero_address(other);
}

/// An address is the zero address if and only if all its bytes are zero.
proof fn lemma_zero_address(a: Address)
    ensures
        all_zero(a) <==> a == Address::spec_zero(),
{
    let zero = Address::spec_zero();
    if all_zero(a) {
        assert forall|i: int| 0 <= i < 20 implies a.bytes@[i] == zero.bytes@[i] by {
            assert(a@[i] == 0);
        }
        assert(a.bytes =~= zero.bytes);
    }
}

/// What the calls on the agent registry leave as it was.
pub proof fn law_agent_registry_steps(
    s: AgentRegistryState,
    id: U256,
    agent: Agent,
    other: U256,
    governance: Address,
    paused: bool,
)
    ensures
        ({
            let t = s.with_agent(id, agent);
            &&& t.agents[id] == agent
            &&& other != id ==> t.agents[other] == s.agents[other]
            &&& t.next_id == s.next_id
            &&& t.governance == s.governance
            &&& t.pending_governance == s.pending_governance
            &&& t.paused == s.paused
        }),
        ({
            let t = s.governance_proposed(governance);
            &&& t.pending_governance == governance
            &&& t.governance == s.governance
            &&& t.agents == s.agents
            &&& t.next_id == s.next_id
            &&& t.paused == s.paused
        }),
        ({
            let t = s.governance_accepted();
            &&& t.governance == s.pending_governance
            &&& all_zero(t.pending_governance)
            &&& t.agents == s.agents
            &&& t.next_id == s.next_id
            &&& t.paused == s.paused
        }),
        ({
            let t = s.with_pause(paused);
            &&& t.paused == paused
            &&& t.governance == s.governance
            &&& t.pending_governance == s.pending_governance
            &&& t.agents == s.agents
            &&& t.next_id == s.next_id
        }),
        ({
            let blank = blank_agent();
            &&& all_zero(blank.owner)
            &&& blank.capabilities@ == 0
            &&& blank.revenue_share_bps@ == 0
            &&& blank.reputation@ == 0
            &&& !blank.active
        }),
{
    lemma_zero_address(Address::spec_zero());
}

/// The state of a registry is what its fields hold.
pub proof fn law_agent_registry_state(c: AgentRegistry)
    ensures
        c@.next_id == c.next_id,
        c@.governance == c.governance,
        c@.pending_governance == c.pending_governance,
        c@.paused == c.paused,
        c@.agents == c.agents@,
{
}

/// When the calls that move money are accepted, and why else they are refused.
pub proof fn law_vault_calls(
    s: TimeBoostVaultState,
    msg: Message,
    amount: U256,
)
    ensures
        s.paused ==> s.pause_refusal() == Some("paused"),
        !s.paused ==> s.pause_refusal() is None,
        s.locked ==> s.lock_refusal() == Some("reentrancy"),
        !s.locked ==> s.lock_refusal() is None,
        s.paused ==> s.deposit_usdc_refusal() == Some("paused"),
        !s.paused && s.locked ==> s.deposit_usdc_refusal() == Some("reentrancy"),
        !s.paused && !s.locked ==> s.deposit_usdc_refusal() is None,
        s.paused ==> s.purchase_refusal() == Some("paused"),
        !s.paused && !s.is_express_lane_controller
            ==> s.purchase_refusal() == Some("not controlling express lane"),
        !s.paused && s.is_express_lane_controller && s.locked
            ==> s.purchase_refusal() == Some("reentrancy"),
        !s.paused && s.is_express_lane_controller && !s.locked
            && s.total_resale_earnings@ + s.resale_price_usdc@ >= two_to_256()
            ==> s.purchase_refusal() == Some("arithmetic overflow"),
        !s.paused && s.is_express_lane_controller && !s.locked
            && s.total_resale_earnings@ + s.resale_price_usdc@ < two_to_256()
            ==> s.purchase_refusal() is None,
        (msg.sender != s.owner && msg.sender != s.bid_agent)
            ==> s.round_win_refusal(msg, amount) == Some("not authorized"),
        (msg.sender == s.owner || msg.sender == s.bid_agent)
            && s.total_bid_cost@ + amount@ >= two_to_256()
            ==> s.round_win_refusal(msg, amount) == Some("arithmetic overflow"),
        (msg.sender == s.owner || msg.sender == s.bid_agent)
            && s.total_bid_cost@ + amount@ < two_to_256()
            ==> s.round_win_refusal(msg, amount) is None,
        (msg.sender != s.owner && msg.sender != s.bid_agent)
            ==> s.agent_refusal(msg) == Some("not authorized"),
        (msg.sender == s.owner || msg.sender == s.bid_agent) ==> s.agent_refusal(msg) is None,
        msg.sender != s.owner ==> s.set_resale_price_refusal(msg, amount) == Some("not owner"),
        msg.sender == s.owner && amount@ == 0
            ==> s.set_resale_price_refusal(msg, amount) == Some("price cannot be zero"),
        msg.sender == s.owner && amount@ > 0 ==> s.set_resale_price_refusal(msg, amount) is None,
        msg.sender != s.owner ==> s.withdraw_usdc_refusal(msg) == Some("not owner"),
        msg.sender == s.owner && s.locked ==> s.withdraw_usdc_refusal(msg) == Some("reentrancy"),
        msg.sender == s.owner && !s.locked ==> s.withdraw_usdc_refusal(msg) is None,
{
}

/// When the calls about the ownership of the vault are accepted, and why else they are
/// refused.
pub proof fn law_vault_owner_calls(s: TimeBoostVaultState, msg: Message, other: Address)
    ensures
        msg.sender != s.owner ==> s.owner_refusal(msg) == Some("not owner"),
        msg.sender == s.owner ==> s.owner_refusal(msg) is None,
        !all_zero(s.owner) ==> s.initialize_refusal() == Some("already initialized"),
        all_zero(s.owner) ==> s.initialize_refusal() is None,
        msg.sender != s.owner ==> s.transfer_ownership_refusal(msg, other) == Some("not owner"),
        msg.sender == s.owner && all_zero(other)
            ==> s.transfer_ownership_refusal(msg, other) == Some("zero address"),
        msg.sender == s.owner && !all_zero(other)
            ==> s.transfer_ownership_refusal(msg, other) is None,
        msg.sender != s.pending_owner
            ==> s.accept_ownership_refusal(msg) == Some("not pending owner"),
        msg.sender == s.pending_owner ==> s.accept_ownership_refusal(msg) is None,
        msg.sender != s.owner ==> s.pausing_refusal(msg) == Some("not owner"),
        msg.sender == s.owner && s.paused ==> s.pausing_refusal(msg) == Some("already paused"),
        msg.sender == s.owner && !s.paused ==> s.pausing_refusal(msg) is None,
        msg.sender != s.owner ==> s.unpausing_refusal(msg) == Some("not owner"),
        msg.sender == s.owner && !s.paused ==> s.unpausing_refusal(msg) == Some("not paused"),
        msg.sender == s.owner && s.paused ==> s.unpausing_refusal(msg) is None,
{
    lemma_zero_address(s.owner);
    lemma_zero_address(other);
}

/// A vault that is neither paused nor locked and holds the express lane sells access
/// as long as the earnings fit into 256 bits: the sale authorizes the buyer for the
/// current round, raises the earnings by the price and changes nothing else.
pub proof fn law_sale_goes_through(
    s: TimeBoostVaultState,
    msg: Message,
    round: U256,
    buyer: Address,
)
    requires
        !s.paused,
        !s.locked,
        s.is_express_lane_controller,
        s.total_resale_earnings@ + s.resale_price_usdc@ < two_to_256(),
    ensures
        s.purchase_refusal() is None,
        ({
            let t = s.booked(s.purchase(msg));
            &&& t.round_authorized_buyers[RoundBuyer {
                round: s.current_round,
                buyer: msg.sender,
            }]
            &&& round != s.current_round || buyer != msg.sender
                ==> t.round_authorized_buyers[RoundBuyer { round, buyer }]
                == s.round_authorized_buyers[RoundBuyer { round, buyer }]
            &&& t.total_resale_earnings@ == s.total_resale_earnings@ + s.resale_price_usdc@
            &&& t.owner == s.owner
            &&& t.pending_owner == s.pending_owner
            &&& t.usdc == s.usdc
            &&& t.bid_agent == s.bid_agent
            &&& t.resale_price_usdc == s.resale_price_usdc
            &&& t.is_express_lane_controller
            &&& t.current_round == s.current_round
            &&& t.total_bid_cost == s.total_bid_cost
            &&& !t.locked
            &&& !t.paused
        }),
{
}

/// What a purchase remembers, and what taking it back restores.
pub proof fn law_purchase_remembers(
    s: TimeBoostVaultState,
    msg: Message,
    purchase: Purchase,
    other: RoundBuyer,
)
    ensures
        s.purchase(msg).slot.round == s.current_round,
        s.purchase(msg).slot.buyer == msg.sender,
        s.purchase(msg).price == s.resale_price_usdc,
        s.purchase(msg).prev_earnings == s.total_resale_earnings,
        s.purchase(msg).prev_authorized == s.round_authorized_buyers[RoundBuyer {
            round: s.current_round,
            buyer: msg.sender,
        }],
        s.slot(msg.sender).round == s.current_round,
        s.slot(msg.sender).buyer == msg.sender,
        ({
            let t = s.unbooked(purchase);
            &&& t.round_authorized_buyers[purchase.slot] == purchase.prev_authorized
            &&& other != purchase.slot ==> t.round_authorized_buyers[other]
                == s.round_authorized_buyers[other]
            &&& t.total_resale_earnings == purchase.prev_earnings
            &&& t.owner == s.owner
            &&& t.pending_owner == s.pending_owner
            &&& t.usdc == s.usdc
            &&& t.bid_agent == s.bid_agent
            &&& t.resale_price_usdc == s.resale_price_usdc
            &&& t.is_express_lane_controller == s.is_express_lane_controller
            &&& t.current_round == s.current_round
            &&& t.total_bid_cost == s.total_bid_cost
            &&& t.locked == s.locked
            &&& t.paused == s.paused
        }),
{
}

/// What the other steps of the vault leave as it was.
pub proof fn law_vault_steps(
    s: TimeBoostVaultState,
    on: bool,
    new_owner: Address,
)
    ensures
        ({
            let t = s.with_lock(on);
            &&& t.locked == on
            &&& t.paused == s.paused
            &&& t.owner == s.owner
            &&& t.pending_owner == s.pending_owner
            &&& vault_books_kept(s, t)
        }),
        ({
            let t = s.with_pause(on);
            &&& t.paused == on
            &&& t.locked == s.locked
            &&& t.owner == s.owner
            &&& t.pending_owner == s.pending_owner
            &&& vault_books_kept(s, t)
        }),
        ({
            let t = s.ownership_proposed(new_owner);
            &&& t.pending_owner == new_owner
            &&& t.owner == s.owner
            &&& t.paused == s.paused
            &&& t.locked == s.locked
            &&& vault_books_kept(s, t)
        }),
        ({
            let t = s.ownership_accepted();
            &&& t.owner == s.pending_owner
            &&& all_zero(t.pending_owner)
            &&& t.paused == s.paused
            &&& t.locked == s.locked
            &&& vault_books_kept(s, t)
        }),
{
    lemma_zero_address(Address::spec_zero());
}

/// Whether two states of the vault have the same token, agent, price, round and books.
pub open spec fn vault_books_kept(s: TimeBoostVaultState, t: TimeBoostVaultState) -> bool {
    &&& t.usdc == s.usdc
    &&& t.bid_agent == s.bid_agent
    &&& t.resale_price_usdc == s.resale_price_usdc
    &&& t.is_express_lane_controller == s.is_express_lane_controller
    &&& t.current_round == s.current_round
    &&& t.total_resale_earnings == s.total_resale_earnings
    &&& t.total_bid_cost == s.total_bid_cost
    &&& t.round_authorized_buyers == s.round_authorized_buyers
}

/// The state of a vault is what its fields hold.
pub proof fn law_vault_state(c: TimeBoostVault)
    ensures
        c@.owner == c.owner,
        c@.pending_owner == c.pending_owner,
        c@.usdc == c.usdc,
        c@.bid_agent == c.bid_agent,
        c@.resale_price_usdc == c.resale_price_usdc,
        c@.is_express_lane_controller == c.is_express_lane_controller,
        c@.current_round == c.current_round,
        c@.total_resale_earnings == c.total_resale_earnings,
        c@.total_bid_cost == c.total_bid_cost,
        c@.round_authorized_buyers == c.round_authorized_buyers@,
        c@.locked == c.locked,
        c@.paused == c.paused,
{
}

/// What a log adds up to: the costs of the rounds that were won and the prices of the
/// purchases, and nothing for any other event, one stretch of events after the other.
pub proof fn law_log_adds_up(a: Seq<VaultEvent>, b: Seq<VaultEvent>, event: VaultEvent)
    ensures
        logged_costs(a + b) == logged_costs(a) + logged_costs(b),
        logged_earnings(a + b) == logged_earnings(a) + logged_earnings(b),
        logged_costs(seq![event]) == match event {
            VaultEvent::RoundWon { bid_cost, .. } => bid_cost@,
            _ => 0,
        },
        logged_earnings(seq![event]) == match event {
            VaultEvent::ResalePurchased { price_paid, .. } => price_paid@,
            _ => 0,
        },
        a.len() == 0 ==> logged_costs(a) == 0 && logged_earnings(a) == 0,
    decreases b.len(),
{
    if b.len() == 0 {
        assert(a + b =~= a);
    } else {
        law_log_adds_up(a, b.drop_last(), event);
        assert((a + b).drop_last() =~= a + b.drop_last());
    }
    let none = Seq::<VaultEvent>::empty();
    lemma_costs_push(none, event);
    lemma_earnings_push(none, event);
    assert(none.push(event) =~= seq![event]);
    assert(logged_costs(none) == 0 && logged_earnings(none) == 0);
}

/// What it means that the books match the log: the totals are what the log adds up to,
/// and a buyer has access for a round if and only if the log holds a purchase by that
/// buyer for that round.
pub proof fn law_books_and_log(
    s: TimeBoostVaultState,
    log: Seq<VaultEvent>,
    round: U256,
    buyer: Address,
)
    requires
        s.books_match(log),
    ensures
        s.total_bid_cost@ == logged_costs(log),
        s.total_resale_earnings@ == logged_earnings(log),
        s.round_authorized_buyers[RoundBuyer { round, buyer }] <==> exists|i: int|
            0 <= i < log.len() && match #[trigger] log[i] {
                VaultEvent::ResalePurchased { buyer: b, round: r, .. } => b == buyer && r == round,
                _ => false,
            },
{
    let slot = RoundBuyer { round, buyer };
    assert(buyers_match(s.round_authorized_buyers, log));
    assert(s.round_authorized_buyers[slot] <==> logged_purchase(log, slot));
    if logged_purchase(log, slot) {
        let i = choose|i: int| 0 <= i < log.len() && is_purchase(#[trigger] log[i], slot);
        assert(log[i] == log[i]);
    }
    if exists|i: int|
        0 <= i < log.len() && match #[trigger] log[i] {
            VaultEvent::ResalePurchased { buyer: b, round: r, .. } => b == buyer && r == round,
            _ => false,
        } {
        let i = choose|i: int|
            0 <= i < log.len() && match #[trigger] log[i] {
                VaultEvent::ResalePurchased { buyer: b, round: r, .. } => b == buyer && r == round,
                _ => false,
            };
        assert(is_purchase(log[i], slot));
    }
}

/// When the calls on the liquidation monitor are accepted, and why else they are
/// refused.
pub proof fn law_monitor_calls(
    s: LiquidationMonitorState,
    msg: Message,
    entries: Seq<Entry>,
    index: U256,
    other: Address,
)
    ensures
        s.paused ==> s.pause_refusal() == Some("contract is paused"),
        !s.paused ==> s.pause_refusal() is None,
        msg.sender != s.owner ==> s.add_protocol_refusal(msg, other) == Some("not owner"),
        msg.sender == s.owner && all_zero(other)
            ==> s.add_protocol_refusal(msg, other) == Some("zero address"),
        msg.sender == s.owner && !all_zero(other) ==> s.add_protocol_refusal(msg, other) is None,
        msg.sender != s.owner
            ==> s.remove_protocol_refusal(msg, entries, index) == Some("not owner"),
        msg.sender == s.owner && (index@ >= entries.len())
            ==> s.remove_protocol_refusal(msg, entries, index) == Some("index out of bounds"),
        msg.sender == s.owner && index@ < entries.len() && !entries[index@ as int].active
            ==> s.remove_protocol_refusal(msg, entries, index) == Some("protocol already removed"),
        msg.sender == s.owner && index@ < entries.len() && entries[index@ as int].active
            ==> s.remove_protocol_refusal(msg, entries, index) is None,
        msg.sender != s.owner ==> s.add_account_refusal(msg) == Some("not owner"),
        msg.sender == s.owner && s.paused
            ==> s.add_account_refusal(msg) == Some("contract is paused"),
        msg.sender == s.owner && !s.paused && (s.tracked_accounts.len() >= 500)
            ==> s.add_account_refusal(msg) == Some("max tracked accounts reached"),
        msg.sender == s.owner && !s.paused && s.tracked_accounts.len() < 500
            ==> s.add_account_refusal(msg) is None,
        msg.sender != s.owner ==> s.remove_account_refusal(msg, other) == Some("not owner"),
        msg.sender == s.owner
            && (forall|i: int| 0 <= i < s.tracked_accounts.len() ==> s.tracked_accounts[i] != other)
            ==> s.remove_account_refusal(msg, other) == Some("account not found"),
        msg.sender == s.owner
            && !(forall|i: int|
            0 <= i < s.tracked_accounts.len() ==> s.tracked_accounts[i] != other)
            ==> s.remove_account_refusal(msg, other) is None,
{
    lemma_zero_address(other);
}

/// When the calls about the ownership of the monitor are accepted, and why else they
/// are refused.
pub proof fn law_monitor_owner_calls(s: LiquidationMonitorState, msg: Message, other: Address)
    ensures
        msg.sender != s.owner ==> s.owner_refusal(msg) == Some("not owner"),
        msg.sender == s.owner ==> s.owner_refusal(msg) is None,
        !all_zero(s.owner) ==> s.initialize_refusal() == Some("already initialized"),
        all_zero(s.owner) ==> s.initialize_refusal() is None,
        msg.sender != s.owner ==> s.transfer_ownership_refusal(msg, other) == Some("not owner"),
        msg.sender == s.owner && all_zero(other)
            ==> s.transfer_ownership_refusal(msg, other) == Some("zero address"),
        msg.sender == s.owner && !all_zero(other)
            ==> s.transfer_ownership_refusal(msg, other) is None,
        msg.sender != s.pending_owner
            ==> s.accept_ownership_refusal(msg) == Some("not pending owner"),
        msg.sender == s.pending_owner ==> s.accept_ownership_refusal(msg) is None,
        msg.sender != s.owner ==> s.pausing_refusal(msg) == Some("not owner"),
        msg.sender == s.owner && s.paused ==> s.pausing_refusal(msg) == Some("already paused"),
        msg.sender == s.owner && !s.paused ==> s.pausing_refusal(msg) is None,
        msg.sender != s.owner ==> s.unpausing_refusal(msg) == Some("not owner"),
        msg.sender == s.owner && !s.paused ==> s.unpausing_refusal(msg) == Some("not paused"),
        msg.sender == s.owner && s.paused ==> s.unpausing_refusal(msg) is None,
{
    lemma_zero_address(s.owner);
    lemma_zero_address(other);
}

/// What the steps of the monitor leave as it was.
pub proof fn law_monitor_steps(s: LiquidationMonitorState, on: bool, new_owner: Address)
    ensures
        ({
            let t = s.with_pause(on);
            &&& t.paused == on
            &&& t.owner == s.owner
            &&& t.pending_owner == s.pending_owner
            &&& monitored_kept(s, t)
        }),
        ({
            let t = s.ownership_proposed(new_owner);
            &&& t.pending_owner == new_owner
            &&& t.owner == s.owner
            &&& t.paused == s.paused
            &&& monitored_kept(s, t)
        }),
        ({
            let t = s.ownership_accepted();
            &&& t.owner == s.pending_owner
            &&& all_zero(t.pending_owner)
            &&& t.paused == s.paused
            &&& monitored_kept(s, t)
        }),
{
    lemma_zero_address(Address::spec_zero());
}

/// Whether two states of the monitor watch the same accounts with the same threshold and
/// the same protocols.
pub open spec fn monitored_kept(s: LiquidationMonitorState, t: LiquidationMonitorState) -> bool {
    &&& t.tracked_accounts == s.tracked_accounts
    &&& t.risk_threshold == s.risk_threshold
    &&& t.lending == s.lending
    &&& t.perps == s.perps
}

/// The state of a monitor is what its fields hold.
pub proof fn law_monitor_state(c: LiquidationMonitor)
    ensures
        c@.owner == c.owner,
        c@.pending_owner == c.pending_owner,
        c@.paused == c.paused,
        c@.tracked_accounts == c.tracked_accounts@,
        c@.risk_threshold == c.risk_threshold,
        c@.lending == c.lending.entries@,
        c@.perps == c.perps.entries@,
{
}

/// When the calls on the route optimizer are accepted, and why else they are refused.
pub proof fn law_optimizer_calls(
    s: RouteOptimizerState,
    msg: Message,
    index: U256,
    other: Address,
)
    ensures
        msg.sender != s.owner ==> s.owner_refusal(msg) == Some("not owner"),
        msg.sender == s.owner ==> s.owner_refusal(msg) is None,
        !all_zero(s.owner) ==> s.initialize_refusal() == Some("already initialized"),
        all_zero(s.owner) ==> s.initialize_refusal() is None,
        msg.sender != s.owner ==> s.add_dex_refusal(msg, other) == Some("not owner"),
        msg.sender == s.owner && all_zero(other)
            ==> s.add_dex_refusal(msg, other) == Some("zero address"),
        msg.sender == s.owner && !all_zero(other) && (s.dexes.len() >= 20)
            ==> s.add_dex_refusal(msg, other) == Some("max dexes reached"),
        msg.sender == s.owner && !all_zero(other) && s.dexes.len() < 20
            ==> s.add_dex_refusal(msg, other) is None,
        msg.sender != s.owner ==> s.remove_dex_refusal(msg, index) == Some("not owner"),
        msg.sender == s.owner && (index@ >= s.dexes.len())
            ==> s.remove_dex_refusal(msg, index) == Some("index out of bounds"),
        msg.sender == s.owner && index@ < s.dexes.len() && !s.dexes[index@ as int].active
            ==> s.remove_dex_refusal(msg, index) == Some("dex already removed"),
        msg.sender == s.owner && index@ < s.dexes.len() && s.dexes[index@ as int].active
            ==> s.remove_dex_refusal(msg, index) is None,
        msg.sender != s.owner ==> s.add_routing_token_refusal(msg, other) == Some("not owner"),
        msg.sender == s.owner && all_zero(other)
            ==> s.add_routing_token_refusal(msg, other) == Some("zero address"),
        msg.sender == s.owner && !all_zero(other) && (s.routing_tokens.len() >= 50)
            ==> s.add_routing_token_refusal(msg, other) == Some("max routing tokens reached"),
        msg.sender == s.owner && !all_zero(other) && s.routing_tokens.len() < 50
            && (exists|i: int| 0 <= i < s.routing_tokens.len() && s.routing_tokens[i] == other)
            ==> s.add_routing_token_refusal(msg, other) == Some("token already exists"),
        msg.sender == s.owner && !all_zero(other) && s.routing_tokens.len() < 50
            && !(exists|i: int| 0 <= i < s.routing_tokens.len() && s.routing_tokens[i] == other)
            ==> s.add_routing_token_refusal(msg, other) is None,
        msg.sender != s.owner ==> s.remove_routing_token_refusal(msg, other) == Some("not owner"),
        msg.sender == s.owner
            && (forall|i: int| 0 <= i < s.routing_tokens.len() ==> s.routing_tokens[i] != other)
            ==> s.remove_routing_token_refusal(msg, other) == Some("token not found"),
        msg.sender == s.owner
            && !(forall|i: int| 0 <= i < s.routing_tokens.len() ==> s.routing_tokens[i] != other)
            ==> s.remove_routing_token_refusal(msg, other) is None,
{
    lemma_zero_address(s.owner);
    lemma_zero_address(other);
}

/// The state of an optimizer is what its fields hold.
pub proof fn law_optimizer_state(c: RouteOptimizer)
    ensures
        c@.owner == c.owner,
        c@.dexes == c.dexes.entries@,
        c@.routing_tokens == c.routing_tokens@,
{
}

/// An agent has a flag if and only if every bit of the flag is among its capabilities,
/// and each of the known flags is one bit: the number's binary digit in that place.
pub proof fn law_capability_is_a_bit(c: U256, flag: u64, capabilities: u64)
    ensures
        includes_flag(c, flag) <==> c.limbs@[0] & flag == flag,
        capabilities <= 0x7F ==> {
            let w = word(capabilities as nat);
            &&& includes_flag(w, 0x01) <==> capabilities % 2 == 1
            &&& includes_flag(w, 0x02) <==> capabilities / 2 % 2 == 1
            &&& includes_flag(w, 0x04) <==> capabilities / 4 % 2 == 1
            &&& includes_flag(w, 0x08) <==> capabilities / 8 % 2 == 1
            &&& includes_flag(w, 0x10) <==> capabilities / 16 % 2 == 1
            &&& includes_flag(w, 0x20) <==> capabilities / 32 % 2 == 1
            &&& includes_flag(w, 0x40) <==> capabilities / 64 == 1
        },
{
    if capabilities <= 0x7F {
        law_registered_capabilities(capabilities, 0x01);
        law_registered_capabilities(capabilities, 0x02);
        law_registered_capabilities(capabilities, 0x04);
        law_registered_capabilities(capabilities, 0x08);
        law_registered_capabilities(capabilities, 0x10);
        law_registered_capabilities(capabilities, 0x20);
        law_registered_capabilities(capabilities, 0x40);
        assert({
            &&& capabilities & 0x01 == 0x01 <==> capabilities % 2 == 1
            &&& capabilities & 0x02 == 0x02 <==> capabilities / 2 % 2 == 1
            &&& capabilities & 0x04 == 0x04 <==> capabilities / 4 % 2 == 1
            &&& capabilities & 0x08 == 0x08 <==> capabilities / 8 % 2 == 1
            &&& capabilities & 0x10 == 0x10 <==> capabilities / 16 % 2 == 1
            &&& capabilities & 0x20 == 0x20 <==> capabilities / 32 % 2 == 1
            &&& capabilities & 0x40 == 0x40 <==> capabilities / 64 == 1
        }) by (bit_vector)
            requires
                capabilities <= 0x7F,
        ;
    }
}

} // verus!
