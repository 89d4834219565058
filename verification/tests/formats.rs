//! Addresses and log entries in their byte formats.

use alloy_primitives::keccak256;
use ouro_contracts::abi::{encode_address, encode_uint, EventLog};
use ouro_contracts::address::Address;
use ouro_contracts::agent_registry::RegistryEvent;
use ouro_contracts::liquidation_monitor::MonitorEvent;
use ouro_contracts::route_optimizer::RouteEvent;
use ouro_contracts::timeboost_vault::{VaultCall, VaultEvent};
use ouro_contracts::tokens::{usdc_token, weth_token};
use ouro_contracts::word::U256;

const A: Address = Address { bytes: [0xaa; 20] };
const B: Address = Address { bytes: [0xbb; 20] };

/// A word that ends in the given bytes.
fn word(tail: &[u8]) -> [u8; 32] {
    let mut w = [0u8; 32];
    w[32 - tail.len()..].copy_from_slice(tail);
    w
}

fn check(log: EventLog, signature: &str, indexed: &[[u8; 32]], fields: &[[u8; 32]]) {
    let mut topics = vec![keccak256(signature).0];
    topics.extend_from_slice(indexed);
    assert_eq!(log.topics, topics);
    assert_eq!(log.data, fields.concat());
}

#[test]
fn address_is_read_from_forty_digits() {
    let digits = "82aF49447D8a07e3bd95BD0d56f35241523fBab1";
    let parsed = Address::parse(digits).unwrap();
    assert_eq!(parsed.bytes[..4], [0x82, 0xaf, 0x49, 0x44]);
    assert_eq!(parsed.bytes[19], 0xb1);
    assert_eq!(Address::parse(&format!("0x{}", digits)), Some(parsed));
    assert_eq!(Address::parse(&format!("0X{}", digits)), Some(parsed));
    assert_eq!(Address::parse(&format!("0y{}", digits)), None);
    assert_eq!(Address::parse(&format!("0X{}", &digits[2..])), None);
    assert_eq!(Address::parse(&digits.to_uppercase()), Some(parsed));
    assert_eq!(Address::parse(&digits[1..]), None);
    assert_eq!(Address::parse(&format!("{}0", digits)), None);
    assert_eq!(Address::parse("82aF49447D8a07e3bd95BD0d56f35241523fBabg"), None);
    assert_eq!(Address::parse(""), None);
}

#[test]
fn default_tokens_are_those_of_arbitrum_one() {
    let weth = Address::parse("82aF49447D8a07e3bd95BD0d56f35241523fBab1").unwrap();
    let usdc = Address::parse("af88d065e77c8cC2239327C5EDb3A432268e5831").unwrap();
    assert_eq!(weth_token(), weth);
    assert_eq!(usdc_token(), usdc);
}

#[test]
fn words_are_big_endian() {
    assert_eq!(encode_uint(U256::from(0x0102u64)), word(&[1, 2]));
    assert_eq!(encode_uint(U256::max()), [0xff; 32]);
    let mut top = [0u8; 32];
    top[0] = 0x80;
    assert_eq!(encode_uint(U256 { limbs: [0, 0, 0, 1 << 63] }), top);
    assert_eq!(encode_address(A), word(&[0xaa; 20]));
}

#[test]
fn token_calls_carry_the_known_selectors() {
    let amount = U256::from(7u64);
    let call = VaultCall::TransferFrom { token: A, from: A, to: B, amount };
    assert_eq!(call.target(), A);
    assert_eq!(call.value(), U256::zero());
    let mut expected = vec![0x23, 0xb8, 0x72, 0xdd];
    expected.extend([word(&A.bytes), word(&B.bytes), word(&[7])].concat());
    assert_eq!(call.calldata(), expected);
    let call = VaultCall::Transfer { token: B, to: A, amount };
    assert_eq!(call.target(), B);
    let mut expected = vec![0xa9, 0x05, 0x9c, 0xbb];
    expected.extend([word(&A.bytes), word(&[7])].concat());
    assert_eq!(call.calldata(), expected);
    let call = VaultCall::BalanceOf { token: A, account: B };
    let mut expected = vec![0x70, 0xa0, 0x82, 0x31];
    expected.extend(word(&B.bytes));
    assert_eq!(call.calldata(), expected);
    let call = VaultCall::SendEth { to: B, amount };
    assert_eq!((call.target(), call.value(), call.calldata()), (B, amount, Vec::new()));
}

#[test]
fn event_hash_is_that_of_the_signature() {
    let log = VaultEvent::Paused { by: A }.encode();
    let known = [
        0x62, 0xe7, 0x8c, 0xea, 0x01, 0xbe, 0xe3, 0x20, 0xcd, 0x4e, 0x42, 0x02, 0x70, 0xb5, 0xea,
        0x74, 0x00, 0x0d, 0x11, 0xb0, 0xc9, 0xf7, 0x47, 0x54, 0xeb, 0xdb, 0xfc, 0x54, 0x4b, 0x05,
        0xa2, 0x58,
    ];
    assert_eq!(log.topics[0], known);
}

#[test]
fn route_events_are_encoded() {
    let index = U256::from(3u64);
    check(
        RouteEvent::DexAdded { index, dex_address: A, dex_type: 1 }.encode(),
        "DexAdded(uint256,address,uint64)",
        &[word(&[3])],
        &[word(&A.bytes), word(&[1])],
    );
    check(
        RouteEvent::DexRemoved { index, dex_address: A }.encode(),
        "DexRemoved(uint256,address)",
        &[word(&[3])],
        &[word(&A.bytes)],
    );
}

#[test]
fn monitor_events_are_encoded() {
    let index = U256::from(3u64);
    check(
        MonitorEvent::AccountAtRisk {
            account: A,
            health_factor: U256::from(4u64),
            timestamp: U256::from(5u64),
        }
        .encode(),
        "AccountAtRisk(address,uint256,uint256)",
        &[word(&A.bytes)],
        &[word(&[4]), word(&[5])],
    );
    check(
        MonitorEvent::AccountAdded { account: A }.encode(),
        "AccountAdded(address)",
        &[word(&A.bytes)],
        &[],
    );
    check(
        MonitorEvent::AccountRemoved { account: B }.encode(),
        "AccountRemoved(address)",
        &[word(&B.bytes)],
        &[],
    );
    check(
        MonitorEvent::ThresholdUpdated {
            old_threshold: U256::from(1u64),
            new_threshold: U256::from(2u64),
        }
        .encode(),
        "ThresholdUpdated(uint256,uint256)",
        &[],
        &[word(&[1]), word(&[2])],
    );
    check(
        MonitorEvent::LendingProtocolAdded { index, pool_address: A, protocol_type: 9 }.encode(),
        "LendingProtocolAdded(uint256,address,uint64)",
        &[word(&[3])],
        &[word(&A.bytes), word(&[9])],
    );
    check(
        MonitorEvent::LendingProtocolRemoved { index, pool_address: A }.encode(),
        "LendingProtocolRemoved(uint256,address)",
        &[word(&[3])],
        &[word(&A.bytes)],
    );
    check(
        MonitorEvent::PerpProtocolAdded { index, reader_address: A, protocol_type: 9 }.encode(),
        "PerpProtocolAdded(uint256,address,uint64)",
        &[word(&[3])],
        &[word(&A.bytes), word(&[9])],
    );
    check(
        MonitorEvent::PerpProtocolRemoved { index, reader_address: A }.encode(),
        "PerpProtocolRemoved(uint256,address)",
        &[word(&[3])],
        &[word(&A.bytes)],
    );
    check(
        MonitorEvent::OwnershipTransferStarted { current_owner: A, pending_owner: B }.encode(),
        "OwnershipTransferStarted(address,address)",
        &[word(&A.bytes), word(&B.bytes)],
        &[],
    );
    check(
        MonitorEvent::OwnershipTransferred { previous_owner: A, new_owner: B }.encode(),
        "OwnershipTransferred(address,address)",
        &[word(&A.bytes), word(&B.bytes)],
        &[],
    );
    check(MonitorEvent::Paused { by: A }.encode(), "Paused(address)", &[word(&A.bytes)], &[]);
    check(MonitorEvent::Unpaused { by: A }.encode(), "Unpaused(address)", &[word(&A.bytes)], &[]);
}

#[test]
fn registry_events_are_encoded() {
    let agent_id = U256::from(3u64);
    check(
        RegistryEvent::AgentRegistered { owner: A, agent_id, capabilities: 0x41 }.encode(),
        "AgentRegistered(address,uint256,uint64)",
        &[word(&A.bytes), word(&[3])],
        &[word(&[0x41])],
    );
    check(
        RegistryEvent::AgentUpdated { agent_id, capabilities: 0x41, revenue_share_bps: 0x0102 }
            .encode(),
        "AgentUpdated(uint256,uint64,uint16)",
        &[word(&[3])],
        &[word(&[0x41]), word(&[1, 2])],
    );
    check(
        RegistryEvent::AgentDeactivated { agent_id }.encode(),
        "AgentDeactivated(uint256)",
        &[word(&[3])],
        &[],
    );
    check(
        RegistryEvent::AgentReactivated { agent_id }.encode(),
        "AgentReactivated(uint256)",
        &[word(&[3])],
        &[],
    );
    check(
        RegistryEvent::ReputationUpdated { agent_id, new_score: U256::max() }.encode(),
        "ReputationUpdated(uint256,uint256)",
        &[word(&[3])],
        &[[0xff; 32]],
    );
    check(
        RegistryEvent::GovernanceTransferStarted { current: A, pending: B }.encode(),
        "GovernanceTransferStarted(address,address)",
        &[word(&A.bytes), word(&B.bytes)],
        &[],
    );
    check(
        RegistryEvent::GovernanceTransferred { previous: A, current: B }.encode(),
        "GovernanceTransferred(address,address)",
        &[word(&A.bytes), word(&B.bytes)],
        &[],
    );
    check(RegistryEvent::Paused { by: A }.encode(), "Paused(address)", &[word(&A.bytes)], &[]);
    check(RegistryEvent::Unpaused { by: A }.encode(), "Unpaused(address)", &[word(&A.bytes)], &[]);
}

#[test]
fn vault_events_are_encoded() {
    let amount = U256::from(3u64);
    check(
        VaultEvent::Deposited { from: A, amount, is_eth: true }.encode(),
        "Deposited(address,uint256,bool)",
        &[word(&A.bytes)],
        &[word(&[3]), word(&[1])],
    );
    check(
        VaultEvent::Withdrawn { to: A, amount, is_eth: false }.encode(),
        "Withdrawn(address,uint256,bool)",
        &[word(&A.bytes)],
        &[word(&[3]), word(&[0])],
    );
    check(
        VaultEvent::RoundWon { round: amount, bid_cost: U256::from(4u64) }.encode(),
        "RoundWon(uint256,uint256)",
        &[word(&[3])],
        &[word(&[4])],
    );
    check(
        VaultEvent::ResalePurchased { buyer: B, price_paid: amount, round: U256::from(4u64) }
            .encode(),
        "ResalePurchased(address,uint256,uint256)",
        &[word(&B.bytes)],
        &[word(&[3]), word(&[4])],
    );
    check(
        VaultEvent::ResalePriceUpdated { old_price: amount, new_price: U256::from(4u64) }.encode(),
        "ResalePriceUpdated(uint256,uint256)",
        &[],
        &[word(&[3]), word(&[4])],
    );
    check(
        VaultEvent::OwnershipTransferStarted { current_owner: A, pending_owner: B }.encode(),
        "OwnershipTransferStarted(address,address)",
        &[word(&A.bytes), word(&B.bytes)],
        &[],
    );
    check(
        VaultEvent::OwnershipTransferred { previous_owner: A, new_owner: B }.encode(),
        "OwnershipTransferred(address,address)",
        &[word(&A.bytes), word(&B.bytes)],
        &[],
    );
    check(VaultEvent::Unpaused { by: A }.encode(), "Unpaused(address)", &[word(&A.bytes)], &[]);
}
