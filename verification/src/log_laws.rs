//! What the log entries of the events say, told topic by topic and word by word.

use crate::abi::{address_word, be_value, keccak256, law_word_reads_back, uint_word, zeros};
use crate::address::Address;
use crate::agent_registry::RegistryEvent;
use crate::liquidation_monitor::MonitorEvent;
use crate::logs::{
    agent_registry_log, bool_word, liquidation_monitor_log, route_optimizer_log,
    timeboost_vault_log,
};
use crate::route_optimizer::RouteEvent;
use crate::timeboost_vault::VaultEvent;
use crate::word::{group_word, lemma_word_of_view, modulus, word};
use vstd::prelude::*;
use vstd::string::StringSliceAdditionalSpecFns;

verus! {

broadcast use group_word;

/// Whether the word of `bytes` that starts at `at` is the number `n`.
pub open spec fn holds_number(bytes: Seq<u8>, at: int, n: nat) -> bool {
    at + 32 <= bytes.len() && be_value(bytes.subrange(at, at + 32)) == n
}

/// Whether the word of `bytes` that starts at `at` is the address `a`.
pub open spec fn holds_address(bytes: Seq<u8>, at: int, a: Address) -> bool {
    &&& at + 32 <= bytes.len()
    &&& bytes.subrange(at, at + 12) == zeros(12)
    &&& bytes.subrange(at + 12, at + 32) == a@
}

/// Whether the word of `bytes` that starts at `at` is 1 for a flag that is set and 0 for
/// one that is not.
pub open spec fn holds_flag(bytes: Seq<u8>, at: int, flag: bool) -> bool {
    holds_number(
        bytes,
        at,
        if flag {
            1
        } else {
            0
        },
    )
}

/// The word of a number holds it.
proof fn lemma_number_held(n: nat)
    requires
        n < modulus(),
    ensures
        holds_number(uint_word(n), 0, n),
        uint_word(n).len() == 32,
{
    law_word_reads_back(word(n));
    assert(uint_word(n).subrange(0, 32) =~= uint_word(n));
}

/// The word of an address holds it.
proof fn lemma_address_held(a: Address)
    ensures
        holds_address(address_word(a), 0, a),
        address_word(a).len() == 32,
{
    assert(address_word(a).subrange(0, 12) =~= zeros(12));
    assert(address_word(a).subrange(12, 32) =~= a@);
}

/// Of two words, the first is held in the first place and the second in the second.
proof fn lemma_two_words(first: Seq<u8>, second: Seq<u8>)
    requires
        first.len() == 32,
        second.len() == 32,
    ensures
        forall|n: nat| holds_number(first, 0, n) ==> #[trigger] holds_number(first + second, 0, n),
        forall|n: nat|
            holds_number(second, 0, n) ==> #[trigger] holds_number(first + second, 32, n),
        forall|a: Address|
            holds_address(first, 0, a) ==> #[trigger] holds_address(first + second, 0, a),
{
    let both = first + second;
    assert(both.subrange(0, 32) =~= first.subrange(0, 32));
    assert(both.subrange(32, 64) =~= second.subrange(0, 32));
    assert(both.subrange(0, 12) =~= first.subrange(0, 12));
    assert(both.subrange(12, 32) =~= first.subrange(12, 32));
}

/// The log entries of the route optimizer: the hash of the event's signature and the indexed
/// fields as topics, the other fields as data, each in its place.
pub proof fn law_route_events_read_back(event: RouteEvent)
    ensures
        ({
            let l = route_optimizer_log(event);
            match event {
                RouteEvent::DexAdded { index, dex_address, dex_type } => {
                    &&& l.topics.len() == 2
                    &&& l.topics[0] == keccak256("DexAdded(uint256,address,uint64)".spec_bytes())
                    &&& holds_number(l.topics[1], 0, index@)
                    &&& l.topics[1].len() == 32
                    &&& l.data.len() == 64
                    &&& holds_address(l.data, 0, dex_address)
                    &&& holds_number(l.data, 32, dex_type as nat)
                },
                RouteEvent::DexRemoved { index, dex_address } => {
                    &&& l.topics.len() == 2
                    &&& l.topics[0] == keccak256("DexRemoved(uint256,address)".spec_bytes())
                    &&& holds_number(l.topics[1], 0, index@)
                    &&& l.topics[1].len() == 32
                    &&& l.data.len() == 32
                    &&& holds_address(l.data, 0, dex_address)
                },
            }
        }),
{
    match event {
        RouteEvent::DexAdded { index, dex_address, dex_type } => {
            lemma_word_of_view(index);
            lemma_number_held(index@);
            lemma_address_held(dex_address);
            lemma_number_held(dex_type as nat);
            lemma_two_words(address_word(dex_address), uint_word(dex_type as nat));
        },
        RouteEvent::DexRemoved { index, dex_address } => {
            lemma_word_of_view(index);
            lemma_number_held(index@);
            lemma_address_held(dex_address);
        },
    }
}

/// The log entries of the liquidation monitor: the hash of the event's signature and the indexed
/// fields as topics, the other fields as data, each in its place.
pub proof fn law_monitor_events_read_back(event: MonitorEvent)
    ensures
        ({
            let l = liquidation_monitor_log(event);
            match event {
                MonitorEvent::AccountAtRisk { account, health_factor, timestamp } => {
                    &&& l.topics.len() == 2
                    &&& l.topics[0] == keccak256(
                        "AccountAtRisk(address,uint256,uint256)".spec_bytes(),
                    )
                    &&& holds_address(l.topics[1], 0, account)
                    &&& l.topics[1].len() == 32
                    &&& l.data.len() == 64
                    &&& holds_number(l.data, 0, health_factor@)
                    &&& holds_number(l.data, 32, timestamp@)
                },
                MonitorEvent::AccountAdded { account } => {
                    &&& l.topics.len() == 2
                    &&& l.topics[0] == keccak256("AccountAdded(address)".spec_bytes())
                    &&& holds_address(l.topics[1], 0, account)
                    &&& l.topics[1].len() == 32
                    &&& l.data.len() == 0
                },
                MonitorEvent::AccountRemoved { account } => {
                    &&& l.topics.len() == 2
                    &&& l.topics[0] == keccak256("AccountRemoved(address)".spec_bytes())
                    &&& holds_address(l.topics[1], 0, account)
                    &&& l.topics[1].len() == 32
                    &&& l.data.len() == 0
                },
                MonitorEvent::ThresholdUpdated { old_threshold, new_threshold } => {
                    &&& l.topics.len() == 1
                    &&& l.topics[0] == keccak256("ThresholdUpdated(uint256,uint256)".spec_bytes())
                    &&& l.data.len() == 64
                    &&& holds_number(l.data, 0, old_threshold@)
                    &&& holds_number(l.data, 32, new_threshold@)
                },
                MonitorEvent::LendingProtocolAdded { index, pool_address, protocol_type } => {
                    &&& l.topics.len() == 2
                    &&& l.topics[0] == keccak256(
                        "LendingProtocolAdded(uint256,address,uint64)".spec_bytes(),
                    )
                    &&& holds_number(l.topics[1], 0, index@)
                    &&& l.topics[1].len() == 32
                    &&& l.data.len() == 64
                    &&& holds_address(l.data, 0, pool_address)
                    &&& holds_number(l.data, 32, protocol_type as nat)
                },
                MonitorEvent::LendingProtocolRemoved { index, pool_address } => {
                    &&& l.topics.len() == 2
                    &&& l.topics[0] == keccak256(
                        "LendingProtocolRemoved(uint256,address)".spec_bytes(),
                    )
                    &&& holds_number(l.topics[1], 0, index@)
                    &&& l.topics[1].len() == 32
                    &&& l.data.len() == 32
                    &&& holds_address(l.data, 0, pool_address)
                },
                MonitorEvent::PerpProtocolAdded { index, reader_address, protocol_type } => {
                    &&& l.topics.len() == 2
                    &&& l.topics[0] == keccak256(
                        "PerpProtocolAdded(uint256,address,uint64)".spec_bytes(),
                    )
                    &&& holds_number(l.topics[1], 0, index@)
                    &&& l.topics[1].len() == 32
                    &&& l.data.len() == 64
                    &&& holds_address(l.data, 0, reader_address)
                    &&& holds_number(l.data, 32, protocol_type as nat)
                },
                MonitorEvent::PerpProtocolRemoved { index, reader_address } => {
                    &&& l.topics.len() == 2
                    &&& l.topics[0] == keccak256(
                        "PerpProtocolRemoved(uint256,address)".spec_bytes(),
                    )
                    &&& holds_number(l.topics[1], 0, index@)
                    &&& l.topics[1].len() == 32
                    &&& l.data.len() == 32
                    &&& holds_address(l.data, 0, reader_address)
                },
                MonitorEvent::OwnershipTransferStarted { current_owner, pending_owner } => {
                    &&& l.topics.len() == 3
                    &&& l.topics[0] == keccak256(
                        "OwnershipTransferStarted(address,address)".spec_bytes(),
                    )
                    &&& holds_address(l.topics[1], 0, current_owner)
                    &&& l.topics[1].len() == 32
                    &&& holds_address(l.topics[2], 0, pending_owner)
                    &&& l.topics[2].len() == 32
                    &&& l.data.len() == 0
                },
                MonitorEvent::OwnershipTransferred { previous_owner, new_owner } => {
                    &&& l.topics.len() == 3
                    &&& l.topics[0] == keccak256(
                        "OwnershipTransferred(address,address)".spec_bytes(),
                    )
                    &&& holds_address(l.topics[1], 0, previous_owner)
                    &&& l.topics[1].len() == 32
                    &&& holds_address(l.topics[2], 0, new_owner)
                    &&& l.topics[2].len() == 32
                    &&& l.data.len() == 0
                },
                MonitorEvent::Paused { by } => {
                    &&& l.topics.len() == 2
                    &&& l.topics[0] == keccak256("Paused(address)".spec_bytes())
                    &&& holds_address(l.topics[1], 0, by)
                    &&& l.topics[1].len() == 32
                    &&& l.data.len() == 0
                },
                MonitorEvent::Unpaused { by } => {
                    &&& l.topics.len() == 2
                    &&& l.topics[0] == keccak256("Unpaused(address)".spec_bytes())
                    &&& holds_address(l.topics[1], 0, by)
                    &&& l.topics[1].len() == 32
                    &&& l.data.len() == 0
                },
            }
        }),
{
    match event {
        MonitorEvent::AccountAtRisk { account, health_factor, timestamp } => {
            lemma_address_held(account);
            lemma_word_of_view(health_factor);
            lemma_number_held(health_factor@);
            lemma_word_of_view(timestamp);
            lemma_number_held(timestamp@);
            lemma_two_words(uint_word(health_factor@), uint_word(timestamp@));
        },
        MonitorEvent::AccountAdded { account } => {
            lemma_address_held(account);
        },
        MonitorEvent::AccountRemoved { account } => {
            lemma_address_held(account);
        },
        MonitorEvent::ThresholdUpdated { old_threshold, new_threshold } => {
            lemma_word_of_view(old_threshold);
            lemma_number_held(old_threshold@);
            lemma_word_of_view(new_threshold);
            lemma_number_held(new_threshold@);
            lemma_two_words(uint_word(old_threshold@), uint_word(new_threshold@));
        },
        MonitorEvent::LendingProtocolAdded { index, pool_address, protocol_type } => {
            lemma_word_of_view(index);
            lemma_number_held(index@);
            lemma_address_held(pool_address);
            lemma_number_held(protocol_type as nat);
            lemma_two_words(address_word(pool_address), uint_word(protocol_type as nat));
        },
        MonitorEvent::LendingProtocolRemoved { index, pool_address } => {
            lemma_word_of_view(index);
            lemma_number_held(index@);
            lemma_address_held(pool_address);
        },
        MonitorEvent::PerpProtocolAdded { index, reader_address, protocol_type } => {
            lemma_word_of_view(index);
            lemma_number_held(index@);
            lemma_address_held(reader_address);
            lemma_number_held(protocol_type as nat);
            lemma_two_words(address_word(reader_address), uint_word(protocol_type as nat));
        },
        MonitorEvent::PerpProtocolRemoved { index, reader_address } => {
            lemma_word_of_view(index);
            lemma_number_held(index@);
            lemma_address_held(reader_address);
        },
        MonitorEvent::OwnershipTransferStarted { current_owner, pending_owner } => {
            lemma_address_held(current_owner);
            lemma_address_held(pending_owner);
        },
        MonitorEvent::OwnershipTransferred { previous_owner, new_owner } => {
            lemma_address_held(previous_owner);
            lemma_address_held(new_owner);
        },
        MonitorEvent::Paused { by } => {
            lemma_address_held(by);
        },
        MonitorEvent::Unpaused { by } => {
            lemma_address_held(by);
        },
    }
}

/// The log entries of the agent registry: the hash of the event's signature and the indexed
/// fields as topics, the other fields as data, each in its place.
pub proof fn law_registry_events_read_back(event: RegistryEvent)
    ensures
        ({
            let l = agent_registry_log(event);
            match event {
                RegistryEvent::AgentRegistered { owner, agent_id, capabilities } => {
                    &&& l.topics.len() == 3
                    &&& l.topics[0] == keccak256(
                        "AgentRegistered(address,uint256,uint64)".spec_bytes(),
                    )
                    &&& holds_address(l.topics[1], 0, owner)
                    &&& l.topics[1].len() == 32
                    &&& holds_number(l.topics[2], 0, agent_id@)
                    &&& l.topics[2].len() == 32
                    &&& l.data.len() == 32
                    &&& holds_number(l.data, 0, capabilities as nat)
                },
                RegistryEvent::AgentUpdated { agent_id, capabilities, revenue_share_bps } => {
                    &&& l.topics.len() == 2
                    &&& l.topics[0] == keccak256("AgentUpdated(uint256,uint64,uint16)".spec_bytes())
                    &&& holds_number(l.topics[1], 0, agent_id@)
                    &&& l.topics[1].len() == 32
                    &&& l.data.len() == 64
                    &&& holds_number(l.data, 0, capabilities as nat)
                    &&& holds_number(l.data, 32, revenue_share_bps as nat)
                },
                RegistryEvent::AgentDeactivated { agent_id } => {
                    &&& l.topics.len() == 2
                    &&& l.topics[0] == keccak256("AgentDeactivated(uint256)".spec_bytes())
                    &&& holds_number(l.topics[1], 0, agent_id@)
                    &&& l.topics[1].len() == 32
                    &&& l.data.len() == 0
                },
                RegistryEvent::AgentReactivated { agent_id } => {
                    &&& l.topics.len() == 2
                    &&& l.topics[0] == keccak256("AgentReactivated(uint256)".spec_bytes())
                    &&& holds_number(l.topics[1], 0, agent_id@)
                    &&& l.topics[1].len() == 32
                    &&& l.data.len() == 0
                },
                RegistryEvent::ReputationUpdated { agent_id, new_score } => {
                    &&& l.topics.len() == 2
                    &&& l.topics[0] == keccak256("ReputationUpdated(uint256,uint256)".spec_bytes())
                    &&& holds_number(l.topics[1], 0, agent_id@)
                    &&& l.topics[1].len() == 32
                    &&& l.data.len() == 32
                    &&& holds_number(l.data, 0, new_score@)
                },
                RegistryEvent::GovernanceTransferStarted { current, pending } => {
                    &&& l.topics.len() == 3
                    &&& l.topics[0] == keccak256(
                        "GovernanceTransferStarted(address,address)".spec_bytes(),
                    )
                    &&& holds_address(l.topics[1], 0, current)
                    &&& l.topics[1].len() == 32
                    &&& holds_address(l.topics[2], 0, pending)
                    &&& l.topics[2].len() == 32
                    &&& l.data.len() == 0
                },
                RegistryEvent::GovernanceTransferred { previous, current } => {
                    &&& l.topics.len() == 3
                    &&& l.topics[0] == keccak256(
                        "GovernanceTransferred(address,address)".spec_bytes(),
                    )
                    &&& holds_address(l.topics[1], 0, previous)
                    &&& l.topics[1].len() == 32
                    &&& holds_address(l.topics[2], 0, current)
                    &&& l.topics[2].len() == 32
                    &&& l.data.len() == 0
                },
                RegistryEvent::Paused { by } => {
                    &&& l.topics.len() == 2
                    &&& l.topics[0] == keccak256("Paused(address)".spec_bytes())
                    &&& holds_address(l.topics[1], 0, by)
                    &&& l.topics[1].len() == 32
                    &&& l.data.len() == 0
                },
                RegistryEvent::Unpaused { by } => {
                    &&& l.topics.len() == 2
                    &&& l.topics[0] == keccak256("Unpaused(address)".spec_bytes())
                    &&& holds_address(l.topics[1], 0, by)
                    &&& l.topics[1].len() == 32
                    &&& l.data.len() == 0
                },
            }
        }),
{
    match event {
        RegistryEvent::AgentRegistered { owner, agent_id, capabilities } => {
            lemma_address_held(owner);
            lemma_word_of_view(agent_id);
            lemma_number_held(agent_id@);
            lemma_number_held(capabilities as nat);
        },
        RegistryEvent::AgentUpdated { agent_id, capabilities, revenue_share_bps } => {
            lemma_word_of_view(agent_id);
            lemma_number_held(agent_id@);
            lemma_number_held(capabilities as nat);
            lemma_number_held(revenue_share_bps as nat);
            lemma_two_words(uint_word(capabilities as nat), uint_word(revenue_share_bps as nat));
        },
        RegistryEvent::AgentDeactivated { agent_id } => {
            lemma_word_of_view(agent_id);
            lemma_number_held(agent_id@);
        },
        RegistryEvent::AgentReactivated { agent_id } => {
            lemma_word_of_view(agent_id);
            lemma_number_held(agent_id@);
        },
        RegistryEvent::ReputationUpdated { agent_id, new_score } => {
            lemma_word_of_view(agent_id);
            lemma_number_held(agent_id@);
            lemma_word_of_view(new_score);
            lemma_number_held(new_score@);
        },
        RegistryEvent::GovernanceTransferStarted { current, pending } => {
            lemma_address_held(current);
            lemma_address_held(pending);
        },
        RegistryEvent::GovernanceTransferred { previous, current } => {
            lemma_address_held(previous);
            lemma_address_held(current);
        },
        RegistryEvent::Paused { by } => {
            lemma_address_held(by);
        },
        RegistryEvent::Unpaused { by } => {
            lemma_address_held(by);
        },
    }
}

/// The log entries of the vault: the hash of the event's signature and the indexed
/// fields as topics, the other fields as data, each in its place.
pub proof fn law_vault_events_read_back(event: VaultEvent)
    ensures
        ({
            let l = timeboost_vault_log(event);
            match event {
                VaultEvent::Deposited { from, amount, is_eth } => {
                    &&& l.topics.len() == 2
                    &&& l.topics[0] == keccak256("Deposited(address,uint256,bool)".spec_bytes())
                    &&& holds_address(l.topics[1], 0, from)
                    &&& l.topics[1].len() == 32
                    &&& l.data.len() == 64
                    &&& holds_number(l.data, 0, amount@)
                    &&& holds_flag(l.data, 32, is_eth)
                },
                VaultEvent::Withdrawn { to, amount, is_eth } => {
                    &&& l.topics.len() == 2
                    &&& l.topics[0] == keccak256("Withdrawn(address,uint256,bool)".spec_bytes())
                    &&& holds_address(l.topics[1], 0, to)
                    &&& l.topics[1].len() == 32
                    &&& l.data.len() == 64
                    &&& holds_number(l.data, 0, amount@)
                    &&& holds_flag(l.data, 32, is_eth)
                },
                VaultEvent::RoundWon { round, bid_cost } => {
                    &&& l.topics.len() == 2
                    &&& l.topics[0] == keccak256("RoundWon(uint256,uint256)".spec_bytes())
                    &&& holds_number(l.topics[1], 0, round@)
                    &&& l.topics[1].len() == 32
                    &&& l.data.len() == 32
                    &&& holds_number(l.data, 0, bid_cost@)
                },
                VaultEvent::ResalePurchased { buyer, price_paid, round } => {
                    &&& l.topics.len() == 2
                    &&& l.topics[0] == keccak256(
                        "ResalePurchased(address,uint256,uint256)".spec_bytes(),
                    )
                    &&& holds_address(l.topics[1], 0, buyer)
                    &&& l.topics[1].len() == 32
                    &&& l.data.len() == 64
                    &&& holds_number(l.data, 0, price_paid@)
                    &&& holds_number(l.data, 32, round@)
                },
                VaultEvent::ResalePriceUpdated { old_price, new_price } => {
                    &&& l.topics.len() == 1
                    &&& l.topics[0] == keccak256("ResalePriceUpdated(uint256,uint256)".spec_bytes())
                    &&& l.data.len() == 64
                    &&& holds_number(l.data, 0, old_price@)
                    &&& holds_number(l.data, 32, new_price@)
                },
                VaultEvent::OwnershipTransferStarted { current_owner, pending_owner } => {
                    &&& l.topics.len() == 3
                    &&& l.topics[0] == keccak256(
                        "OwnershipTransferStarted(address,address)".spec_bytes(),
                    )
                    &&& holds_address(l.topics[1], 0, current_owner)
                    &&& l.topics[1].len() == 32
                    &&& holds_address(l.topics[2], 0, pending_owner)
                    &&& l.topics[2].len() == 32
                    &&& l.data.len() == 0
                },
                VaultEvent::OwnershipTransferred { previous_owner, new_owner } => {
                    &&& l.topics.len() == 3
                    &&& l.topics[0] == keccak256(
                        "OwnershipTransferred(address,address)".spec_bytes(),
                    )
                    &&& holds_address(l.topics[1], 0, previous_owner)
                    &&& l.topics[1].len() == 32
                    &&& holds_address(l.topics[2], 0, new_owner)
                    &&& l.topics[2].len() == 32
                    &&& l.data.len() == 0
                },
                VaultEvent::Paused { by } => {
                    &&& l.topics.len() == 2
                    &&& l.topics[0] == keccak256("Paused(address)".spec_bytes())
                    &&& holds_address(l.topics[1], 0, by)
                    &&& l.topics[1].len() == 32
                    &&& l.data.len() == 0
                },
                VaultEvent::Unpaused { by } => {
                    &&& l.topics.len() == 2
                    &&& l.topics[0] == keccak256("Unpaused(address)".spec_bytes())
                    &&& holds_address(l.topics[1], 0, by)
                    &&& l.topics[1].len() == 32
                    &&& l.data.len() == 0
                },
            }
        }),
{
    match event {
        VaultEvent::Deposited { from, amount, is_eth } => {
            lemma_address_held(from);
            lemma_word_of_view(amount);
            lemma_number_held(amount@);
            lemma_number_held(0);
            lemma_number_held(1);
            lemma_two_words(uint_word(amount@), bool_word(is_eth));
        },
        VaultEvent::Withdrawn { to, amount, is_eth } => {
            lemma_address_held(to);
            lemma_word_of_view(amount);
            lemma_number_held(amount@);
            lemma_number_held(0);
            lemma_number_held(1);
            lemma_two_words(uint_word(amount@), bool_word(is_eth));
        },
        VaultEvent::RoundWon { round, bid_cost } => {
            lemma_word_of_view(round);
            lemma_number_held(round@);
            lemma_word_of_view(bid_cost);
            lemma_number_held(bid_cost@);
        },
        VaultEvent::ResalePurchased { buyer, price_paid, round } => {
            lemma_address_held(buyer);
            lemma_word_of_view(price_paid);
            lemma_number_held(price_paid@);
            lemma_word_of_view(round);
            lemma_number_held(round@);
            lemma_two_words(uint_word(price_paid@), uint_word(round@));
        },
        VaultEvent::ResalePriceUpdated { old_price, new_price } => {
            lemma_word_of_view(old_price);
            lemma_number_held(old_price@);
            lemma_word_of_view(new_price);
            lemma_number_held(new_price@);
            lemma_two_words(uint_word(old_price@), uint_word(new_price@));
        },
        VaultEvent::OwnershipTransferStarted { current_owner, pending_owner } => {
            lemma_address_held(current_owner);
            lemma_address_held(pending_owner);
        },
        VaultEvent::OwnershipTransferred { previous_owner, new_owner } => {
            lemma_address_held(previous_owner);
            lemma_address_held(new_owner);
        },
        VaultEvent::Paused { by } => {
            lemma_address_held(by);
        },
        VaultEvent::Unpaused { by } => {
            lemma_address_held(by);
        },
    }
}

} // verus!
