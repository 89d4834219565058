//! The log entries of the contracts' events.

use crate::abi::{
    address_word, encode_address, encode_uint, event_log, joined, log_view, uint_word, words_view,
    EventLog, LogView,
};
use crate::agent_registry::RegistryEvent;
use crate::liquidation_monitor::MonitorEvent;
use crate::route_optimizer::RouteEvent;
use crate::timeboost_vault::VaultEvent;
use crate::word::{group_word, U256};
use vstd::prelude::*;

verus! {

broadcast use group_word;

/// The word of a truth value.
pub open spec fn bool_word(b: bool) -> Seq<u8> {
    if b {
        uint_word(1)
    } else {
        uint_word(0)
    }
}

/// The word of a truth value.
fn encode_bool(b: bool) -> (r: [u8; 32])
    ensures
        r@ == bool_word(b),
{
    if b {
        encode_uint(U256::from(1))
    } else {
        encode_uint(U256::from(0))
    }
}

/// The log entry of an event with few fields.
fn short_log(signature: &str, indexed: Vec<[u8; 32]>, words: Vec<[u8; 32]>) -> (r: EventLog)
    requires
        indexed@.len() <= 2,
        words@.len() <= 2,
    ensures
        r@.data == if words@.len() == 0 {
            seq![]
        } else if words@.len() == 1 {
            words@[0]@
        } else {
            words@[0]@ + words@[1]@
        },
        r@ == log_view(
            signature,
            if indexed@.len() == 0 {
                seq![]
            } else if indexed@.len() == 1 {
                seq![indexed@[0]@]
            } else {
                seq![indexed@[0]@, indexed@[1]@]
            },
            r@.data,
        ),
{
    let ghost fields = indexed@;
    let ghost ws = words@;
    let r = event_log(signature, indexed, words);
    proof {
        reveal_with_fuel(joined, 3);
        if fields.len() == 0 {
            assert(words_view(fields) =~= seq![]);
        } else if fields.len() == 1 {
            assert(words_view(fields) =~= seq![fields[0]@]);
        } else {
            assert(words_view(fields) =~= seq![fields[0]@, fields[1]@]);
        }
        if ws.len() == 1 {
            assert(joined(ws) =~= ws[0]@);
        } else if ws.len() == 2 {
            assert(joined(ws) =~= ws[0]@ + ws[1]@);
        }
    }
    r
}

/// The log entry of an event of the route optimizer.
pub open spec fn route_optimizer_log(event: RouteEvent) -> LogView {
    match event {
        RouteEvent::DexAdded { index, dex_address, dex_type } => log_view(
            "DexAdded(uint256,address,uint64)",
            seq![uint_word(index@)],
            address_word(dex_address) + uint_word(dex_type as nat),
        ),
        RouteEvent::DexRemoved { index, dex_address } => log_view(
            "DexRemoved(uint256,address)",
            seq![uint_word(index@)],
            address_word(dex_address),
        ),
    }
}

impl RouteEvent {
    /// The log entry of the event.
    pub fn encode(&self) -> (r: EventLog)
        ensures
            r@ == route_optimizer_log(*self),
    {
        match *self {
            RouteEvent::DexAdded { index, dex_address, dex_type } => short_log(
                "DexAdded(uint256,address,uint64)",
                vec![encode_uint(index)],
                vec![encode_address(dex_address), encode_uint(U256::from(dex_type))],
            ),
            RouteEvent::DexRemoved { index, dex_address } => short_log(
                "DexRemoved(uint256,address)",
                vec![encode_uint(index)],
                vec![encode_address(dex_address)],
            ),
        }
    }
}

/// The log entry of an event of the liquidation monitor.
pub open spec fn liquidation_monitor_log(event: MonitorEvent) -> LogView {
    match event {
        MonitorEvent::AccountAtRisk { account, health_factor, timestamp } => log_view(
            "AccountAtRisk(address,uint256,uint256)",
            seq![address_word(account)],
            uint_word(health_factor@) + uint_word(timestamp@),
        ),
        MonitorEvent::AccountAdded { account } => log_view(
            "AccountAdded(address)",
            seq![address_word(account)],
            seq![],
        ),
        MonitorEvent::AccountRemoved { account } => log_view(
            "AccountRemoved(address)",
            seq![address_word(account)],
            seq![],
        ),
        MonitorEvent::ThresholdUpdated { old_threshold, new_threshold } => log_view(
            "ThresholdUpdated(uint256,uint256)",
            seq![],
            uint_word(old_threshold@) + uint_word(new_threshold@),
        ),
        MonitorEvent::LendingProtocolAdded { index, pool_address, protocol_type } => log_view(
            "LendingProtocolAdded(uint256,address,uint64)",
            seq![uint_word(index@)],
            address_word(pool_address) + uint_word(protocol_type as nat),
        ),
        MonitorEvent::LendingProtocolRemoved { index, pool_address } => log_view(
            "LendingProtocolRemoved(uint256,address)",
            seq![uint_word(index@)],
            address_word(pool_address),
        ),
        MonitorEvent::PerpProtocolAdded { index, reader_address, protocol_type } => log_view(
            "PerpProtocolAdded(uint256,address,uint64)",
            seq![uint_word(index@)],
            address_word(reader_address) + uint_word(protocol_type as nat),
        ),
        MonitorEvent::PerpProtocolRemoved { index, reader_address } => log_view(
            "PerpProtocolRemoved(uint256,address)",
            seq![uint_word(index@)],
            address_word(reader_address),
        ),
        MonitorEvent::OwnershipTransferStarted { current_owner, pending_owner } => log_view(
            "OwnershipTransferStarted(address,address)",
            seq![address_word(current_owner), address_word(pending_owner)],
            seq![],
        ),
        MonitorEvent::OwnershipTransferred { previous_owner, new_owner } => log_view(
            "OwnershipTransferred(address,address)",
            seq![address_word(previous_owner), address_word(new_owner)],
            seq![],
        ),
        MonitorEvent::Paused { by } => log_view(
            "Paused(address)",
            seq![address_word(by)],
            seq![],
        ),
        MonitorEvent::Unpaused { by } => log_view(
            "Unpaused(address)",
            seq![address_word(by)],
            seq![],
        ),
    }
}

impl MonitorEvent {
    /// The log entry of the event.
    pub fn encode(&self) -> (r: EventLog)
        ensures
            r@ == liquidation_monitor_log(*self),
    {
        match *self {
            MonitorEvent::AccountAtRisk { account, health_factor, timestamp } => short_log(
                "AccountAtRisk(address,uint256,uint256)",
                vec![encode_address(account)],
                vec![encode_uint(health_factor), encode_uint(timestamp)],
            ),
            MonitorEvent::AccountAdded { account } => short_log(
                "AccountAdded(address)",
                vec![encode_address(account)],
                Vec::new(),
            ),
            MonitorEvent::AccountRemoved { account } => short_log(
                "AccountRemoved(address)",
                vec![encode_address(account)],
                Vec::new(),
            ),
            MonitorEvent::ThresholdUpdated { old_threshold, new_threshold } => short_log(
                "ThresholdUpdated(uint256,uint256)",
                Vec::new(),
                vec![encode_uint(old_threshold), encode_uint(new_threshold)],
            ),
            MonitorEvent::LendingProtocolAdded { index, pool_address, protocol_type } => short_log(
                "LendingProtocolAdded(uint256,address,uint64)",
                vec![encode_uint(index)],
                vec![encode_address(pool_address), encode_uint(U256::from(protocol_type))],
            ),
            MonitorEvent::LendingProtocolRemoved { index, pool_address } => short_log(
                "LendingProtocolRemoved(uint256,address)",
                vec![encode_uint(index)],
                vec![encode_address(pool_address)],
            ),
            MonitorEvent::PerpProtocolAdded { index, reader_address, protocol_type } => short_log(
                "PerpProtocolAdded(uint256,address,uint64)",
                vec![encode_uint(index)],
                vec![encode_address(reader_address), encode_uint(U256::from(protocol_type))],
            ),
            MonitorEvent::PerpProtocolRemoved { index, reader_address } => short_log(
                "PerpProtocolRemoved(uint256,address)",
                vec![encode_uint(index)],
                vec![encode_address(reader_address)],
            ),
            MonitorEvent::OwnershipTransferStarted { current_owner, pending_owner } => short_log(
                "OwnershipTransferStarted(address,address)",
                vec![encode_address(current_owner), encode_address(pending_owner)],
                Vec::new(),
            ),
            MonitorEvent::OwnershipTransferred { previous_owner, new_owner } => short_log(
                "OwnershipTransferred(address,address)",
                vec![encode_address(previous_owner), encode_address(new_owner)],
                Vec::new(),
            ),
            MonitorEvent::Paused { by } => short_log(
                "Paused(address)",
                vec![encode_address(by)],
                Vec::new(),
            ),
            MonitorEvent::Unpaused { by } => short_log(
                "Unpaused(address)",
                vec![encode_address(by)],
                Vec::new(),
            ),
        }
    }
}

/// The log entry of an event of the agent registry.
pub open spec fn agent_registry_log(event: RegistryEvent) -> LogView {
    match event {
        RegistryEvent::AgentRegistered { owner, agent_id, capabilities } => log_view(
            "AgentRegistered(address,uint256,uint64)",
            seq![address_word(owner), uint_word(agent_id@)],
            uint_word(capabilities as nat),
        ),
        RegistryEvent::AgentUpdated { agent_id, capabilities, revenue_share_bps } => log_view(
            "AgentUpdated(uint256,uint64,uint16)",
            seq![uint_word(agent_id@)],
            uint_word(capabilities as nat) + uint_word(revenue_share_bps as nat),
        ),
        RegistryEvent::AgentDeactivated { agent_id } => log_view(
            "AgentDeactivated(uint256)",
            seq![uint_word(agent_id@)],
            seq![],
        ),
        RegistryEvent::AgentReactivated { agent_id } => log_view(
            "AgentReactivated(uint256)",
            seq![uint_word(agent_id@)],
            seq![],
        ),
        RegistryEvent::ReputationUpdated { agent_id, new_score } => log_view(
            "ReputationUpdated(uint256,uint256)",
            seq![uint_word(agent_id@)],
            uint_word(new_score@),
        ),
        RegistryEvent::GovernanceTransferStarted { current, pending } => log_view(
            "GovernanceTransferStarted(address,address)",
            seq![address_word(current), address_word(pending)],
            seq![],
        ),
        RegistryEvent::GovernanceTransferred { previous, current } => log_view(
            "GovernanceTransferred(address,address)",
            seq![address_word(previous), address_word(current)],
            seq![],
        ),
        RegistryEvent::Paused { by } => log_view(
            "Paused(address)",
            seq![address_word(by)],
            seq![],
        ),
        RegistryEvent::Unpaused { by } => log_view(
            "Unpaused(address)",
            seq![address_word(by)],
            seq![],
        ),
    }
}

impl RegistryEvent {
    /// The log entry of the event.
    pub fn encode(&self) -> (r: EventLog)
        ensures
            r@ == agent_registry_log(*self),
    {
        match *self {
            RegistryEvent::AgentRegistered { owner, agent_id, capabilities } => short_log(
                "AgentRegistered(address,uint256,uint64)",
                vec![encode_address(owner), encode_uint(agent_id)],
                vec![encode_uint(U256::from(capabilities))],
            ),
            RegistryEvent::AgentUpdated { agent_id, capabilities, revenue_share_bps } => short_log(
                "AgentUpdated(uint256,uint64,uint16)",
                vec![encode_uint(agent_id)],
                vec![
                    encode_uint(U256::from(capabilities)),
                    encode_uint(U256::from(revenue_share_bps as u64)),
                ],
            ),
            RegistryEvent::AgentDeactivated { agent_id } => short_log(
                "AgentDeactivated(uint256)",
                vec![encode_uint(agent_id)],
                Vec::new(),
            ),
            RegistryEvent::AgentReactivated { agent_id } => short_log(
                "AgentReactivated(uint256)",
                vec![encode_uint(agent_id)],
                Vec::new(),
            ),
            RegistryEvent::ReputationUpdated { agent_id, new_score } => short_log(
                "ReputationUpdated(uint256,uint256)",
                vec![encode_uint(agent_id)],
                vec![encode_uint(new_score)],
            ),
            RegistryEvent::GovernanceTransferStarted { current, pending } => short_log(
                "GovernanceTransferStarted(address,address)",
                vec![encode_address(current), encode_address(pending)],
                Vec::new(),
            ),
            RegistryEvent::GovernanceTransferred { previous, current } => short_log(
                "GovernanceTransferred(address,address)",
                vec![encode_address(previous), encode_address(current)],
                Vec::new(),
            ),
            RegistryEvent::Paused { by } => short_log(
                "Paused(address)",
                vec![encode_address(by)],
                Vec::new(),
            ),
            RegistryEvent::Unpaused { by } => short_log(
                "Unpaused(address)",
                vec![encode_address(by)],
                Vec::new(),
            ),
        }
    }
}

/// The log entry of an event of the vault.
pub open spec fn timeboost_vault_log(event: VaultEvent) -> LogView {
    match event {
        VaultEvent::Deposited { from, amount, is_eth } => log_view(
            "Deposited(address,uint256,bool)",
            seq![address_word(from)],
            uint_word(amount@) + bool_word(is_eth),
        ),
        VaultEvent::Withdrawn { to, amount, is_eth } => log_view(
            "Withdrawn(address,uint256,bool)",
            seq![address_word(to)],
            uint_word(amount@) + bool_word(is_eth),
        ),
        VaultEvent::RoundWon { round, bid_cost } => log_view(
            "RoundWon(uint256,uint256)",
            seq![uint_word(round@)],
            uint_word(bid_cost@),
        ),
        VaultEvent::ResalePurchased { buyer, price_paid, round } => log_view(
            "ResalePurchased(address,uint256,uint256)",
            seq![address_word(buyer)],
            uint_word(price_paid@) + uint_word(round@),
        ),
        VaultEvent::ResalePriceUpdated { old_price, new_price } => log_view(
            "ResalePriceUpdated(uint256,uint256)",
            seq![],
            uint_word(old_price@) + uint_word(new_price@),
        ),
        VaultEvent::OwnershipTransferStarted { current_owner, pending_owner } => log_view(
            "OwnershipTransferStarted(address,address)",
            seq![address_word(current_owner), address_word(pending_owner)],
            seq![],
        ),
        VaultEvent::OwnershipTransferred { previous_owner, new_owner } => log_view(
            "OwnershipTransferred(address,address)",
            seq![address_word(previous_owner), address_word(new_owner)],
            seq![],
        ),
        VaultEvent::Paused { by } => log_view(
            "Paused(address)",
            seq![address_word(by)],
            seq![],
        ),
        VaultEvent::Unpaused { by } => log_view(
            "Unpaused(address)",
            seq![address_word(by)],
            seq![],
        ),
    }
}

impl VaultEvent {
    /// The log entry of the event.
    pub fn encode(&self) -> (r: EventLog)
        ensures
            r@ == timeboost_vault_log(*self),
    {
        match *self {
            VaultEvent::Deposited { from, amount, is_eth } => short_log(
                "Deposited(address,uint256,bool)",
                vec![encode_address(from)],
                vec![encode_uint(amount), encode_bool(is_eth)],
            ),
            VaultEvent::Withdrawn { to, amount, is_eth } => short_log(
                "Withdrawn(address,uint256,bool)",
                vec![encode_address(to)],
                vec![encode_uint(amount), encode_bool(is_eth)],
            ),
            VaultEvent::RoundWon { round, bid_cost } => short_log(
                "RoundWon(uint256,uint256)",
                vec![encode_uint(round)],
                vec![encode_uint(bid_cost)],
            ),
            VaultEvent::ResalePurchased { buyer, price_paid, round } => short_log(
                "ResalePurchased(address,uint256,uint256)",
                vec![encode_address(buyer)],
                vec![encode_uint(price_paid), encode_uint(round)],
            ),
            VaultEvent::ResalePriceUpdated { old_price, new_price } => short_log(
                "ResalePriceUpdated(uint256,uint256)",
                Vec::new(),
                vec![encode_uint(old_price), encode_uint(new_price)],
            ),
            VaultEvent::OwnershipTransferStarted { current_owner, pending_owner } => short_log(
                "OwnershipTransferStarted(address,address)",
                vec![encode_address(current_owner), encode_address(pending_owner)],
                Vec::new(),
            ),
            VaultEvent::OwnershipTransferred { previous_owner, new_owner } => short_log(
                "OwnershipTransferred(address,address)",
                vec![encode_address(previous_owner), encode_address(new_owner)],
                Vec::new(),
            ),
            VaultEvent::Paused { by } => short_log(
                "Paused(address)",
                vec![encode_address(by)],
                Vec::new(),
            ),
            VaultEvent::Unpaused { by } => short_log(
                "Unpaused(address)",
                vec![encode_address(by)],
                Vec::new(),
            ),
        }
    }
}

} // verus!
