//! The express lane vault, called as a host would call it.

use alloy_primitives::keccak256;
use alloy_sol_types::{sol_data, SolType};
use ouro_contracts::address::Address;
use ouro_contracts::call::Message;
use ouro_contracts::timeboost_vault::{
    read_agreed, read_balance, RoundBuyer, TimeBoostVault, VaultCall, VaultEvent,
};
use ouro_contracts::word::U256;
use std::cell::RefCell;
use std::rc::Rc;

const OWNER: Address = Address {
    bytes: [0, 0, 0, 0, 0, 0, 0, 0, 0, 0, 0, 0, 0, 0, 0, 0, 0, 0, 0, 0x01],
};
const USDC_ADDR: Address = Address {
    bytes: [0xaf, 0x88, 0xd0, 0x65, 0xe7, 0x7c, 0x8c, 0xc2, 0x23, 0x93, 0x27, 0xc5, 0xed, 0xb3, 0xa4, 0x32, 0x26, 0x8e, 0x58, 0x31],
};
const BID_AGENT: Address = Address {
    bytes: [0, 0, 0, 0, 0, 0, 0, 0, 0, 0, 0, 0, 0, 0, 0, 0, 0, 0, 0, 0x02],
};
const STRANGER: Address = Address {
    bytes: [0, 0, 0, 0, 0, 0, 0, 0, 0, 0, 0, 0, 0, 0, 0, 0, 0, 0, 0x0b, 0xad],
};
const BUYER: Address = Address {
    bytes: [0, 0, 0, 0, 0, 0, 0, 0, 0, 0, 0, 0, 0, 0, 0, 0, 0, 0, 0x0b, 0x01],
};
const CONTRACT_ADDR: Address = Address {
    bytes: [0, 0, 0, 0, 0, 0, 0, 0, 0, 0, 0, 0, 0, 0, 0, 0, 0, 0xc0, 0xff, 0xee],
};
const NEW_OWNER: Address = Address {
    bytes: [0, 0, 0, 0, 0, 0, 0, 0, 0, 0, 0, 0, 0, 0, 0, 0, 0, 0, 0, 0x99],
};
const RESALE_PRICE: u64 = 5_000_000;

type Logs = Vec<(Vec<[u8; 32]>, Vec<u8>)>;

type Mock = (Address, Vec<u8>, U256, Result<Vec<u8>, Vec<u8>>);

/// The chain around the contract: who calls, what other contracts answer, what was
/// logged, and the contract's state.
#[derive(Clone)]
struct TestVM {
    state: Rc<RefCell<VmState>>,
}

struct VmState {
    contract: TimeBoostVault,
    msg: Message,
    mocks: Vec<Mock>,
    balances: Vec<(Address, U256)>,
    logs: Logs,
}

impl TestVM {
    fn new() -> Self {
        let msg = Message {
            sender: Address::zero(),
            value: U256::zero(),
            contract_address: Address::zero(),
            timestamp: 0,
        };
        let contract = TimeBoostVault::new();
        let (mocks, balances, logs) = (Vec::new(), Vec::new(), Vec::new());
        let state = VmState { contract, msg, mocks, balances, logs };
        TestVM { state: Rc::new(RefCell::new(state)) }
    }

    fn set_sender(&self, sender: Address) {
        self.state.borrow_mut().msg.sender = sender;
    }

    fn set_value(&self, value: U256) {
        self.state.borrow_mut().msg.value = value;
    }

    fn set_contract_address(&self, contract_address: Address) {
        self.state.borrow_mut().msg.contract_address = contract_address;
    }

    fn set_balance(&self, account: Address, balance: U256) {
        self.state.borrow_mut().balances.insert(0, (account, balance));
    }

    fn mock_call(&self, to: Address, data: Vec<u8>, value: U256, returned: Result<Vec<u8>, Vec<u8>>) {
        self.state.borrow_mut().mocks.insert(0, (to, data, value, returned));
    }

    fn mock_static_call(&self, to: Address, data: Vec<u8>, returned: Result<Vec<u8>, Vec<u8>>) {
        self.mock_call(to, data, U256::zero(), returned);
    }

    fn call(&self, call: VaultCall) -> Result<Vec<u8>, Vec<u8>> {
        let (to, data, value) = (call.target(), call.calldata(), call.value());
        let state = self.state.borrow();
        match state.mocks.iter().find(|m| m.0 == to && m.1 == data && m.2 == value) {
            Some((_, _, _, returned)) => returned.clone(),
            None => Err(Vec::new()),
        }
    }

    fn balance(&self, account: Address) -> U256 {
        let state = self.state.borrow();
        match state.balances.iter().find(|(a, _)| *a == account) {
            Some((_, balance)) => *balance,
            None => U256::zero(),
        }
    }

    fn get_emitted_logs(&self) -> Logs {
        self.state.borrow().logs.clone()
    }

    /// Runs a part of a call and keeps what it logged.
    fn run<T>(&self, f: impl FnOnce(&mut TimeBoostVault, &Message, &mut Vec<VaultEvent>) -> T) -> T {
        let mut log = Vec::new();
        let state = &mut *self.state.borrow_mut();
        let msg = state.msg;
        let result = f(&mut state.contract, &msg, &mut log);
        for event in log {
            let entry = event.encode();
            state.logs.push((entry.topics, entry.data));
        }
        result
    }
}

/// The contract, as a caller sees it.
struct Contract {
    vm: TestVM,
}

impl Contract {
    fn from(vm: &TestVM) -> Self {
        Contract { vm: vm.clone() }
    }

    fn read<T>(&self, f: impl FnOnce(&TimeBoostVault) -> T) -> T {
        f(&self.vm.state.borrow().contract)
    }

    fn initialize(&mut self, usdc: Address, agent: Address, price: U256) -> Result<(), Vec<u8>> {
        self.vm.run(|c, msg, _| c.initialize(msg, usdc, agent, price))
    }

    fn deposit_eth(&mut self) -> Result<(), Vec<u8>> {
        self.vm.run(|c, msg, log| c.deposit_eth(msg, log))
    }

    fn deposit_usdc(&mut self, amount: U256) -> Result<(), Vec<u8>> {
        let call = self.vm.run(|c, msg, _| c.begin_deposit_usdc(msg, amount))?;
        let reply = read_agreed(self.vm.call(call));
        self.vm.run(|c, msg, log| c.finish_deposit_usdc(msg, log, amount, reply))
    }

    fn record_round_win(&mut self, round: U256, cost: U256) -> Result<(), Vec<u8>> {
        self.vm.run(|c, msg, log| c.record_round_win(msg, log, round, cost))
    }

    fn end_round(&mut self) -> Result<(), Vec<u8>> {
        self.vm.run(|c, msg, _| c.end_round(msg))
    }

    fn purchase_express_lane_access(&mut self) -> Result<(), Vec<u8>> {
        let (purchase, call) = self.vm.run(|c, msg, _| c.begin_purchase(msg))?;
        let reply = read_agreed(self.vm.call(call));
        self.vm.run(|c, _, log| c.finish_purchase(log, purchase, reply))
    }

    fn is_authorized_buyer(&self, buyer: Address) -> bool {
        self.read(|c| c.is_authorized_buyer(buyer))
    }

    fn get_stats(&self) -> Result<(U256, U256, U256, U256, bool), Vec<u8>> {
        let query = self.vm.run(|c, msg, _| c.balance_query(msg));
        let usdc_balance = read_balance(self.vm.call(query));
        let contract_address = self.vm.state.borrow().msg.contract_address;
        let eth_balance = self.vm.balance(contract_address);
        self.read(|c| c.get_stats(eth_balance, usdc_balance))
    }

    fn set_resale_price(&mut self, price: U256) -> Result<(), Vec<u8>> {
        self.vm.run(|c, msg, log| c.set_resale_price(msg, log, price))
    }

    fn withdraw_eth(&mut self, amount: U256) -> Result<(), Vec<u8>> {
        let call = self.vm.run(|c, msg, _| c.begin_withdraw_eth(msg, amount))?;
        let reply = self.vm.call(call).map(|_| ());
        self.vm.run(|c, msg, log| c.finish_withdraw_eth(msg, log, amount, reply))
    }

    fn withdraw_usdc(&mut self, amount: U256) -> Result<(), Vec<u8>> {
        let call = self.vm.run(|c, msg, _| c.begin_withdraw_usdc(msg, amount))?;
        let reply = read_agreed(self.vm.call(call));
        self.vm.run(|c, msg, log| c.finish_withdraw_usdc(msg, log, amount, reply))
    }

    fn transfer_ownership(&mut self, new_owner: Address) -> Result<(), Vec<u8>> {
        self.vm.run(|c, msg, log| c.transfer_ownership(msg, log, new_owner))
    }

    fn accept_ownership(&mut self) -> Result<(), Vec<u8>> {
        self.vm.run(|c, msg, log| c.accept_ownership(msg, log))
    }

    fn pause(&mut self) -> Result<(), Vec<u8>> {
        self.vm.run(|c, msg, log| c.pause(msg, log))
    }

    fn unpause(&mut self) -> Result<(), Vec<u8>> {
        self.vm.run(|c, msg, log| c.unpause(msg, log))
    }
}

fn address(digits: &str) -> Address {
    Address::parse(digits).unwrap()
}

/// A number as alloy holds it.
fn alloy(n: U256) -> alloy_primitives::U256 {
    alloy_primitives::U256::from_limbs(n.limbs)
}

/// An address as alloy holds it.
fn alloy_address(a: Address) -> alloy_primitives::Address {
    alloy_primitives::Address::from(a.bytes)
}

/// The number in 32 bytes.
fn number(bytes: &[u8]) -> U256 {
    U256 { limbs: alloy_primitives::U256::from_be_slice(bytes).into_limbs() }
}

/// The 32 bytes of a number.
fn number_bytes(n: U256) -> Vec<u8> {
    alloy(n).to_be_bytes_vec()
}

/// The topic of an address.
fn address_topic(a: Address) -> [u8; 32] {
    alloy_address(a).into_word().0
}

fn setup() -> (TestVM, Contract) {
    let vm = TestVM::new();
    vm.set_sender(OWNER);
    vm.set_contract_address(CONTRACT_ADDR);
    let mut contract = Contract::from(&vm);
    contract.initialize(USDC_ADDR, BID_AGENT, U256::from(RESALE_PRICE)).unwrap();
    (vm, contract)
}

fn encode_bool_true() -> Vec<u8> {
    number_bytes(U256::from(1u64))
}

fn transfer_from_calldata(from: Address, to: Address, amount: U256) -> Vec<u8> {
    type Arguments = (sol_data::Address, sol_data::Address, sol_data::Uint<256>);
    let arguments = (alloy_address(from), alloy_address(to), alloy(amount));
    let mut data = keccak256("transferFrom(address,address,uint256)")[..4].to_vec();
    data.extend(<Arguments as SolType>::abi_encode_params(&arguments));
    data
}

fn transfer_calldata(to: Address, amount: U256) -> Vec<u8> {
    type Arguments = (sol_data::Address, sol_data::Uint<256>);
    let mut data = keccak256("transfer(address,uint256)")[..4].to_vec();
    data.extend(<Arguments as SolType>::abi_encode_params(&(alloy_address(to), alloy(amount))));
    data
}

fn balance_of_calldata(account: Address) -> Vec<u8> {
    let mut data = keccak256("balanceOf(address)")[..4].to_vec();
    data.extend(<(sol_data::Address,) as SolType>::abi_encode_params(&(alloy_address(account),)));
    data
}

fn win_round(vm: &TestVM, contract: &mut Contract, round: u64) {
    vm.set_sender(BID_AGENT);
    contract.record_round_win(U256::from(round), U256::from(100u64)).unwrap();
}

fn mock_purchase(vm: &TestVM, buyer: Address, price: U256) {
    let calldata = transfer_from_calldata(buyer, CONTRACT_ADDR, price);
    vm.mock_call(USDC_ADDR, calldata, U256::zero(), Ok(encode_bool_true()));
}

#[test]
fn test_initialize_sets_state() {
    let (_vm, contract) = setup();
    assert_eq!(contract.read(|c| c.owner), OWNER);
    assert_eq!(contract.read(|c| c.usdc), USDC_ADDR);
    assert_eq!(contract.read(|c| c.bid_agent), BID_AGENT);
    assert_eq!(contract.read(|c| c.resale_price_usdc), U256::from(RESALE_PRICE));
}

#[test]
fn lib_test_initialize_twice_fails() {
    let (_vm, mut contract) = setup();
    let err = contract
        .initialize(USDC_ADDR, BID_AGENT, U256::from(RESALE_PRICE))
        .unwrap_err();
    assert_eq!(err, b"already initialized".to_vec());
}

#[test]
fn test_only_owner_passes_for_owner() {
    let (vm, mut contract) = setup();
    vm.set_sender(OWNER);
    contract.set_resale_price(U256::from(10u64)).unwrap();
}

#[test]
fn test_only_owner_fails_for_stranger() {
    let (vm, mut contract) = setup();
    vm.set_sender(STRANGER);
    let err = contract.set_resale_price(U256::from(10u64)).unwrap_err();
    assert_eq!(err, b"not owner".to_vec());
}

#[test]
fn test_only_agent_passes_for_owner() {
    let (vm, mut contract) = setup();
    vm.set_sender(OWNER);
    contract
        .record_round_win(U256::from(1u64), U256::from(100u64))
        .unwrap();
}

#[test]
fn test_only_agent_passes_for_bid_agent() {
    let (vm, mut contract) = setup();
    vm.set_sender(BID_AGENT);
    contract
        .record_round_win(U256::from(1u64), U256::from(100u64))
        .unwrap();
}

#[test]
fn test_only_agent_fails_for_stranger() {
    let (vm, mut contract) = setup();
    vm.set_sender(STRANGER);
    let err = contract
        .record_round_win(U256::from(1u64), U256::from(100u64))
        .unwrap_err();
    assert_eq!(err, b"not authorized".to_vec());
}

#[test]
fn test_deposit_eth_emits_event() {
    let (vm, mut contract) = setup();
    let deposit_amount = U256::from(1_000_000_000_000_000_000u64);
    vm.set_sender(OWNER);
    vm.set_value(deposit_amount);
    contract.deposit_eth().unwrap();

    let logs = vm.get_emitted_logs();
    assert!(!logs.is_empty(), "expected at least one log");
    let (topics, data) = &logs[logs.len() - 1];
    assert_eq!(topics.len(), 2);
    let from_topic = address_topic(OWNER);
    assert_eq!(topics[1], from_topic);
    assert_eq!(data.len(), 64);
    let amount_decoded = number(&data[0..32]);
    let is_eth = number(&data[32..64]);
    assert_eq!(amount_decoded, deposit_amount);
    assert_eq!(is_eth, U256::from(1u64));
}

#[test]
fn test_deposit_usdc_emits_event() {
    let (vm, mut contract) = setup();
    let amount = U256::from(50_000_000u64);
    vm.set_sender(OWNER);

    let calldata = transfer_from_calldata(OWNER, CONTRACT_ADDR, amount);
    vm.mock_call(USDC_ADDR, calldata, U256::zero(), Ok(encode_bool_true()));

    contract.deposit_usdc(amount).unwrap();

    let logs = vm.get_emitted_logs();
    assert!(!logs.is_empty());
    let (topics, data) = &logs[logs.len() - 1];
    assert_eq!(topics.len(), 2);
    let from_topic = address_topic(OWNER);
    assert_eq!(topics[1], from_topic);
    let is_eth = number(&data[32..64]);
    assert_eq!(is_eth, U256::zero());
}

#[test]
fn test_record_round_win_sets_state_and_emits() {
    let (vm, mut contract) = setup();
    vm.set_sender(BID_AGENT);

    let round = U256::from(42u64);
    let bid_cost = U256::from(500_000u64);
    contract.record_round_win(round, bid_cost).unwrap();

    assert!(contract.read(|c| c.is_express_lane_controller));
    assert_eq!(contract.read(|c| c.current_round), round);
    assert_eq!(contract.read(|c| c.total_bid_cost), bid_cost);

    let logs = vm.get_emitted_logs();
    assert!(!logs.is_empty());
    let (topics, data) = &logs[logs.len() - 1];
    assert_eq!(topics.len(), 2);
    let round_topic = number_bytes(round);
    assert_eq!(topics[1][..], round_topic[..]);
    let bid_cost_decoded = number(&data[0..32]);
    assert_eq!(bid_cost_decoded, bid_cost);
}

#[test]
fn test_record_round_win_accumulates_bid_cost() {
    let (vm, mut contract) = setup();
    vm.set_sender(BID_AGENT);

    contract
        .record_round_win(U256::from(1u64), U256::from(100u64))
        .unwrap();
    contract
        .record_round_win(U256::from(2u64), U256::from(250u64))
        .unwrap();
    assert_eq!(contract.read(|c| c.total_bid_cost), U256::from(350u64));
}

#[test]
fn test_record_round_win_only_agent() {
    let (vm, mut contract) = setup();
    vm.set_sender(STRANGER);
    let err = contract
        .record_round_win(U256::from(1u64), U256::from(100u64))
        .unwrap_err();
    assert_eq!(err, b"not authorized".to_vec());
}

#[test]
fn test_end_round_resets_controller() {
    let (vm, mut contract) = setup();
    vm.set_sender(BID_AGENT);
    contract
        .record_round_win(U256::from(1u64), U256::from(100u64))
        .unwrap();
    assert!(contract.read(|c| c.is_express_lane_controller));

    contract.end_round().unwrap();
    assert!(!contract.read(|c| c.is_express_lane_controller));
}

#[test]
fn test_end_round_only_agent() {
    let (vm, mut contract) = setup();
    vm.set_sender(STRANGER);
    let err = contract.end_round().unwrap_err();
    assert_eq!(err, b"not authorized".to_vec());
}

#[test]
fn test_purchase_express_lane_fails_when_not_controller() {
    let (vm, mut contract) = setup();
    vm.set_sender(BUYER);
    let err = contract.purchase_express_lane_access().unwrap_err();
    assert_eq!(err, b"not controlling express lane".to_vec());
}

#[test]
fn test_purchase_express_lane_success() {
    let (vm, mut contract) = setup();

    let round = U256::from(10u64);
    win_round(&vm, &mut contract, 10);

    vm.set_sender(BUYER);
    let price = U256::from(RESALE_PRICE);
    mock_purchase(&vm, BUYER, price);

    contract.purchase_express_lane_access().unwrap();

    assert!(contract.read(|c| c.round_authorized_buyers.get(RoundBuyer { round: round, buyer: BUYER })));
    assert!(contract.is_authorized_buyer(BUYER));

    assert_eq!(contract.read(|c| c.total_resale_earnings), price);

    let logs = vm.get_emitted_logs();
    let (topics, data) = &logs[logs.len() - 1];
    assert_eq!(topics.len(), 2);
    let buyer_topic = address_topic(BUYER);
    assert_eq!(topics[1], buyer_topic);
    let price_decoded = number(&data[0..32]);
    let round_decoded = number(&data[32..64]);
    assert_eq!(price_decoded, price);
    assert_eq!(round_decoded, round);
}

#[test]
fn test_is_authorized_buyer_false_before_purchase() {
    let (_vm, contract) = setup();
    assert!(!contract.is_authorized_buyer(BUYER));
}

#[test]
fn test_is_authorized_buyer_true_after_purchase() {
    let (vm, mut contract) = setup();
    win_round(&vm, &mut contract, 1);

    vm.set_sender(BUYER);
    let price = U256::from(RESALE_PRICE);
    mock_purchase(&vm, BUYER, price);
    contract.purchase_express_lane_access().unwrap();

    assert!(contract.is_authorized_buyer(BUYER));
}

#[test]
fn test_purchase_accumulates_earnings() {
    let (vm, mut contract) = setup();
    win_round(&vm, &mut contract, 1);

    let price = U256::from(RESALE_PRICE);

    vm.set_sender(BUYER);
    mock_purchase(&vm, BUYER, price);
    contract.purchase_express_lane_access().unwrap();

    let buyer2 = address("0000000000000000000000000000000000000b02");
    vm.set_sender(buyer2);
    mock_purchase(&vm, buyer2, price);
    contract.purchase_express_lane_access().unwrap();

    assert_eq!(
        contract.read(|c| c.total_resale_earnings),
        U256::from(RESALE_PRICE * 2)
    );
}

#[test]
fn test_set_resale_price_owner_only() {
    let (vm, mut contract) = setup();
    vm.set_sender(OWNER);
    let new_price = U256::from(10_000_000u64);
    contract.set_resale_price(new_price).unwrap();
    assert_eq!(contract.read(|c| c.resale_price_usdc), new_price);

    let logs = vm.get_emitted_logs();
    let (topics, data) = &logs[logs.len() - 1];
    assert_eq!(topics.len(), 1);
    let old_decoded = number(&data[0..32]);
    let new_decoded = number(&data[32..64]);
    assert_eq!(old_decoded, U256::from(RESALE_PRICE));
    assert_eq!(new_decoded, new_price);
}

#[test]
fn test_set_resale_price_non_owner_rejected() {
    let (vm, mut contract) = setup();
    vm.set_sender(STRANGER);
    let err = contract
        .set_resale_price(U256::from(10_000_000u64))
        .unwrap_err();
    assert_eq!(err, b"not owner".to_vec());
}

#[test]
fn test_withdraw_eth_owner_only() {
    let (vm, mut contract) = setup();
    let amount = U256::from(500_000_000_000_000_000u64);
    vm.set_sender(OWNER);

    vm.mock_call(OWNER, vec![], amount, Ok(vec![]));

    contract.withdraw_eth(amount).unwrap();

    let logs = vm.get_emitted_logs();
    let (topics, data) = &logs[logs.len() - 1];
    assert_eq!(topics.len(), 2);
    let to_topic = address_topic(OWNER);
    assert_eq!(topics[1], to_topic);
    let is_eth = number(&data[32..64]);
    assert_eq!(is_eth, U256::from(1u64));
}

#[test]
fn test_withdraw_eth_non_owner_rejected() {
    let (vm, mut contract) = setup();
    vm.set_sender(STRANGER);
    let err = contract
        .withdraw_eth(U256::from(100u64))
        .unwrap_err();
    assert_eq!(err, b"not owner".to_vec());
}

#[test]
fn test_withdraw_usdc_owner_only() {
    let (vm, mut contract) = setup();
    let amount = U256::from(25_000_000u64);
    vm.set_sender(OWNER);

    let calldata = transfer_calldata(OWNER, amount);
    vm.mock_call(USDC_ADDR, calldata, U256::zero(), Ok(encode_bool_true()));

    contract.withdraw_usdc(amount).unwrap();

    let logs = vm.get_emitted_logs();
    let (topics, data) = &logs[logs.len() - 1];
    assert_eq!(topics.len(), 2);
    let to_topic = address_topic(OWNER);
    assert_eq!(topics[1], to_topic);
    let is_eth = number(&data[32..64]);
    assert_eq!(is_eth, U256::zero());
}

#[test]
fn test_withdraw_usdc_non_owner_rejected() {
    let (vm, mut contract) = setup();
    vm.set_sender(STRANGER);
    let err = contract
        .withdraw_usdc(U256::from(100u64))
        .unwrap_err();
    assert_eq!(err, b"not owner".to_vec());
}

#[test]
fn test_get_stats_returns_correct_values() {
    let (vm, mut contract) = setup();

    vm.set_sender(BID_AGENT);
    contract
        .record_round_win(U256::from(5u64), U256::from(1000u64))
        .unwrap();

    vm.set_sender(BUYER);
    let price = U256::from(RESALE_PRICE);
    mock_purchase(&vm, BUYER, price);
    contract.purchase_express_lane_access().unwrap();

    let eth_balance = U256::from(2_000_000_000_000_000_000u64);
    vm.set_balance(CONTRACT_ADDR, eth_balance);

    let usdc_balance = U256::from(75_000_000u64);
    let bal_calldata = balance_of_calldata(CONTRACT_ADDR);
    vm.mock_static_call(USDC_ADDR, bal_calldata, Ok(number_bytes(usdc_balance)));

    let (eth, usdc, earnings, bid_cost, is_controller) = contract.get_stats().unwrap();
    assert_eq!(eth, eth_balance);
    assert_eq!(usdc, usdc_balance);
    assert_eq!(earnings, price);
    assert_eq!(bid_cost, U256::from(1000u64));
    assert!(is_controller);
}

#[test]
fn test_get_stats_default_values() {
    let (vm, contract) = setup();

    let eth_balance = U256::zero();
    vm.set_balance(CONTRACT_ADDR, eth_balance);

    let usdc_balance = U256::zero();
    let bal_calldata = balance_of_calldata(CONTRACT_ADDR);
    vm.mock_static_call(USDC_ADDR, bal_calldata, Ok(number_bytes(usdc_balance)));

    let (eth, usdc, earnings, bid_cost, is_controller) = contract.get_stats().unwrap();
    assert_eq!(eth, U256::zero());
    assert_eq!(usdc, U256::zero());
    assert_eq!(earnings, U256::zero());
    assert_eq!(bid_cost, U256::zero());
    assert!(!is_controller);
}

#[test]
fn test_purchase_cei_ordering() {
    let (vm, mut contract) = setup();
    win_round(&vm, &mut contract, 5);

    vm.set_sender(BUYER);
    let price = U256::from(RESALE_PRICE);
    mock_purchase(&vm, BUYER, price);

    contract.purchase_express_lane_access().unwrap();

    assert!(contract.is_authorized_buyer(BUYER));
    assert_eq!(contract.read(|c| c.total_resale_earnings), price);
}

#[test]
fn test_reentrancy_guard_blocks() {
    let (vm, mut contract) = setup();
    win_round(&vm, &mut contract, 1);

    vm.state.borrow_mut().contract.locked = true;

    vm.set_sender(BUYER);
    let err = contract.purchase_express_lane_access().unwrap_err();
    assert_eq!(err, b"reentrancy".to_vec());

    vm.set_sender(OWNER);
    let err = contract.deposit_usdc(U256::from(100u64)).unwrap_err();
    assert_eq!(err, b"reentrancy".to_vec());

    let err = contract.withdraw_usdc(U256::from(100u64)).unwrap_err();
    assert_eq!(err, b"reentrancy".to_vec());
}

#[test]
fn test_authorized_buyer_round_scoped() {
    let (vm, mut contract) = setup();

    win_round(&vm, &mut contract, 1);
    vm.set_sender(BUYER);
    let price = U256::from(RESALE_PRICE);
    mock_purchase(&vm, BUYER, price);
    contract.purchase_express_lane_access().unwrap();
    assert!(contract.is_authorized_buyer(BUYER));

    vm.set_sender(BID_AGENT);
    contract.end_round().unwrap();
    win_round(&vm, &mut contract, 2);

    assert!(!contract.is_authorized_buyer(BUYER));
}

#[test]
fn test_authorized_buyer_current_round() {
    let (vm, mut contract) = setup();
    win_round(&vm, &mut contract, 7);

    vm.set_sender(BUYER);
    let price = U256::from(RESALE_PRICE);
    mock_purchase(&vm, BUYER, price);
    contract.purchase_express_lane_access().unwrap();

    assert!(contract.is_authorized_buyer(BUYER));
    assert!(!contract.is_authorized_buyer(STRANGER));
}

#[test]
fn test_end_round_no_stale_buyers() {
    let (vm, mut contract) = setup();

    win_round(&vm, &mut contract, 1);

    vm.set_sender(BUYER);
    mock_purchase(&vm, BUYER, U256::from(RESALE_PRICE));
    contract.purchase_express_lane_access().unwrap();

    let buyer2 = address("0000000000000000000000000000000000000b02");
    vm.set_sender(buyer2);
    mock_purchase(&vm, buyer2, U256::from(RESALE_PRICE));
    contract.purchase_express_lane_access().unwrap();

    assert!(contract.is_authorized_buyer(BUYER));
    assert!(contract.is_authorized_buyer(buyer2));

    vm.set_sender(BID_AGENT);
    contract.end_round().unwrap();
    win_round(&vm, &mut contract, 3);

    assert!(!contract.is_authorized_buyer(BUYER));
    assert!(!contract.is_authorized_buyer(buyer2));
}

#[test]
fn test_set_resale_price_zero_rejected() {
    let (vm, mut contract) = setup();
    vm.set_sender(OWNER);
    let err = contract.set_resale_price(U256::zero()).unwrap_err();
    assert_eq!(err, b"price cannot be zero".to_vec());
}

#[test]
fn lib_test_transfer_ownership_propose_accept() {
    let (vm, mut contract) = setup();

    vm.set_sender(OWNER);
    contract.transfer_ownership(NEW_OWNER).unwrap();
    assert_eq!(contract.read(|c| c.pending_owner), NEW_OWNER);

    let logs = vm.get_emitted_logs();
    let (topics, _data) = &logs[logs.len() - 1];
    assert_eq!(topics.len(), 3);
    let owner_topic = address_topic(OWNER);
    let new_owner_topic = address_topic(NEW_OWNER);
    assert_eq!(topics[1], owner_topic);
    assert_eq!(topics[2], new_owner_topic);

    vm.set_sender(NEW_OWNER);
    contract.accept_ownership().unwrap();
    assert_eq!(contract.read(|c| c.owner), NEW_OWNER);
    assert_eq!(contract.read(|c| c.pending_owner), Address::zero());

    let logs = vm.get_emitted_logs();
    let (topics, _data) = &logs[logs.len() - 1];
    assert_eq!(topics.len(), 3);
    assert_eq!(topics[1], owner_topic);
    assert_eq!(topics[2], new_owner_topic);
}

#[test]
fn test_transfer_ownership_wrong_acceptor_rejected() {
    let (vm, mut contract) = setup();

    vm.set_sender(OWNER);
    contract.transfer_ownership(NEW_OWNER).unwrap();

    vm.set_sender(STRANGER);
    let err = contract.accept_ownership().unwrap_err();
    assert_eq!(err, b"not pending owner".to_vec());

    assert_eq!(contract.read(|c| c.owner), OWNER);
}

#[test]
fn lib_test_transfer_ownership_non_owner_rejected() {
    let (vm, mut contract) = setup();
    vm.set_sender(STRANGER);
    let err = contract.transfer_ownership(NEW_OWNER).unwrap_err();
    assert_eq!(err, b"not owner".to_vec());
}

#[test]
fn test_pause_blocks_deposits() {
    let (vm, mut contract) = setup();
    vm.set_sender(OWNER);
    contract.pause().unwrap();
    assert!(contract.read(|c| c.paused));

    vm.set_value(U256::from(1_000u64));
    let err = contract.deposit_eth().unwrap_err();
    assert_eq!(err, b"paused".to_vec());

    let err = contract.deposit_usdc(U256::from(100u64)).unwrap_err();
    assert_eq!(err, b"paused".to_vec());

    vm.state.borrow_mut().contract.is_express_lane_controller = true;
    vm.set_sender(BUYER);
    let err = contract.purchase_express_lane_access().unwrap_err();
    assert_eq!(err, b"paused".to_vec());
}

#[test]
fn test_unpause_allows_deposits() {
    let (vm, mut contract) = setup();
    vm.set_sender(OWNER);
    contract.pause().unwrap();
    contract.unpause().unwrap();
    assert!(!contract.read(|c| c.paused));

    vm.set_value(U256::from(1_000u64));
    contract.deposit_eth().unwrap();
}

#[test]
fn lib_test_pause_non_owner_rejected() {
    let (vm, mut contract) = setup();
    vm.set_sender(STRANGER);
    let err = contract.pause().unwrap_err();
    assert_eq!(err, b"not owner".to_vec());

    vm.set_sender(OWNER);
    contract.pause().unwrap();
    vm.set_sender(STRANGER);
    let err = contract.unpause().unwrap_err();
    assert_eq!(err, b"not owner".to_vec());
}

#[test]
fn test_purchase_transfer_failure_rollback() {
    let (vm, mut contract) = setup();
    win_round(&vm, &mut contract, 1);

    let price = U256::from(RESALE_PRICE);
    let calldata = transfer_from_calldata(BUYER, CONTRACT_ADDR, price);
    vm.mock_call(USDC_ADDR, calldata, U256::zero(), Err(b"insufficient allowance".to_vec()));

    vm.set_sender(BUYER);
    let err = contract.purchase_express_lane_access().unwrap_err();
    assert_eq!(err, b"usdc transfer failed".to_vec());

    assert!(!contract.read(|c| c.round_authorized_buyers.get(RoundBuyer { round: U256::from(1u64), buyer: BUYER })));
    assert_eq!(contract.read(|c| c.total_resale_earnings), U256::zero());
    assert!(!contract.read(|c| c.locked));
}

#[test]
fn test_full_lifecycle() {
    let (vm, mut contract) = setup();

    vm.set_sender(OWNER);
    vm.set_value(U256::from(1_000_000u64));
    contract.deposit_eth().unwrap();

    win_round(&vm, &mut contract, 1);
    assert!(contract.read(|c| c.is_express_lane_controller));
    assert_eq!(contract.read(|c| c.current_round), U256::from(1u64));

    let price = U256::from(RESALE_PRICE);
    mock_purchase(&vm, BUYER, price);
    vm.set_sender(BUYER);
    contract.purchase_express_lane_access().unwrap();
    assert!(contract.is_authorized_buyer(BUYER));
    assert_eq!(contract.read(|c| c.total_resale_earnings), price);

    vm.set_sender(BID_AGENT);
    contract.end_round().unwrap();
    assert!(!contract.read(|c| c.is_express_lane_controller));

    win_round(&vm, &mut contract, 2);
    assert!(!contract.read(|c| c.round_authorized_buyers.get(RoundBuyer { round: U256::from(2u64), buyer: BUYER })));

    let withdraw_calldata = transfer_calldata(OWNER, price);
    vm.mock_call(USDC_ADDR, withdraw_calldata, U256::zero(), Ok(encode_bool_true()));
    vm.set_sender(OWNER);
    contract.withdraw_usdc(price).unwrap();
}

#[test]
fn failed_token_transfer_hands_its_data_on_and_keeps_the_lock() {
    let (vm, mut contract) = setup();
    let amount = U256::from(5u64);
    let calldata = transfer_from_calldata(OWNER, CONTRACT_ADDR, amount);
    vm.mock_call(USDC_ADDR, calldata, U256::zero(), Err(b"no allowance".to_vec()));
    assert_eq!(contract.deposit_usdc(amount).unwrap_err(), b"no allowance".to_vec());
    assert!(contract.read(|c| c.locked));
    assert!(vm.get_emitted_logs().is_empty());
    vm.state.borrow_mut().contract.locked = false;
    let calldata = transfer_calldata(OWNER, amount);
    vm.mock_call(USDC_ADDR, calldata, U256::zero(), Err(b"empty".to_vec()));
    assert_eq!(contract.withdraw_usdc(amount).unwrap_err(), b"empty".to_vec());
    assert!(contract.read(|c| c.locked));
}

#[test]
fn whole_calls_do_what_their_halves_do() {
    let (vm, contract) = setup();
    let amount = U256::from(5u64);
    let mut log: Vec<VaultEvent> = Vec::new();
    let state = &mut *vm.state.borrow_mut();
    let (c, msg) = (&mut state.contract, state.msg);
    c.deposit_usdc(&msg, &mut log, amount, Ok(true)).unwrap();
    c.withdraw_usdc(&msg, &mut log, amount, Ok(false)).unwrap();
    c.withdraw_eth(&msg, &mut log, amount, Ok(())).unwrap();
    c.record_round_win(&msg, &mut log, amount, amount).unwrap();
    c.purchase_express_lane_access(&msg, &mut log, Ok(true)).unwrap();
    assert!(!c.locked);
    assert_eq!(
        log,
        vec![
            VaultEvent::Deposited { from: OWNER, amount, is_eth: false },
            VaultEvent::Withdrawn { to: OWNER, amount, is_eth: false },
            VaultEvent::Withdrawn { to: OWNER, amount, is_eth: true },
            VaultEvent::RoundWon { round: amount, bid_cost: amount },
            VaultEvent::ResalePurchased {
                buyer: OWNER,
                price_paid: U256::from(RESALE_PRICE),
                round: amount
            },
        ]
    );
    let err = c.withdraw_eth(&msg, &mut log, amount, Err(b"stuck".to_vec())).unwrap_err();
    assert_eq!(err, b"stuck".to_vec());
    let err = c.deposit_usdc(&msg, &mut log, amount, Err(b"no".to_vec())).unwrap_err();
    assert_eq!(err, b"no".to_vec());
    assert_eq!(log.len(), 5);
    drop(contract);
}

#[test]
fn token_answer_has_to_be_a_truth_value() {
    let panic = [vec![0x4e, 0x48, 0x7b, 0x71], vec![0; 32]].concat();
    assert_eq!(read_agreed(Ok(number_bytes(U256::from(1u64)))), Ok(true));
    assert_eq!(read_agreed(Ok(number_bytes(U256::zero()))), Ok(false));
    assert_eq!(read_agreed(Ok(number_bytes(U256::from(2u64)))), Err(panic.clone()));
    assert_eq!(read_agreed(Ok(number_bytes(U256::max()))), Err(panic.clone()));
    assert_eq!(read_agreed(Ok(vec![0; 31])), Err(panic.clone()));
    assert_eq!(read_agreed(Ok(Vec::new())), Err(panic.clone()));
    assert_eq!(read_agreed(Err(b"x".to_vec())), Err(b"x".to_vec()));
    assert_eq!(read_balance(Ok(number_bytes(U256::max()))), Ok(U256::max()));
    assert_eq!(read_balance(Ok(vec![1; 31])), Err(panic));
    assert_eq!(read_balance(Err(b"y".to_vec())), Err(b"y".to_vec()));
}

#[test]
fn unreadable_payment_takes_the_purchase_back() {
    let (vm, mut contract) = setup();
    win_round(&vm, &mut contract, 1);
    let calldata = transfer_from_calldata(BUYER, CONTRACT_ADDR, U256::from(RESALE_PRICE));
    vm.mock_call(USDC_ADDR, calldata, U256::zero(), Ok(vec![7; 32]));
    vm.set_sender(BUYER);
    let err = contract.purchase_express_lane_access().unwrap_err();
    assert_eq!(err, b"usdc transfer failed".to_vec());
    assert!(!contract.is_authorized_buyer(BUYER));
    assert!(!contract.read(|c| c.locked));
}

#[test]
fn failed_second_purchase_keeps_the_first_authorization() {
    let (vm, mut contract) = setup();
    win_round(&vm, &mut contract, 1);
    let price = U256::from(RESALE_PRICE);
    mock_purchase(&vm, BUYER, price);
    vm.set_sender(BUYER);
    contract.purchase_express_lane_access().unwrap();
    let calldata = transfer_from_calldata(BUYER, CONTRACT_ADDR, price);
    vm.mock_call(USDC_ADDR, calldata, U256::zero(), Err(Vec::new()));
    let err = contract.purchase_express_lane_access().unwrap_err();
    assert_eq!(err, b"usdc transfer failed".to_vec());
    assert!(contract.is_authorized_buyer(BUYER));
    assert_eq!(contract.read(|c| c.total_resale_earnings), price);
    assert!(!contract.read(|c| c.locked));
}

#[test]
fn failed_purchase_in_one_go_leaves_the_vault_as_it_was() {
    let (vm, mut contract) = setup();
    win_round(&vm, &mut contract, 1);
    vm.set_sender(BUYER);
    let err = vm
        .run(|c, msg, log| c.purchase_express_lane_access(msg, log, Err(Vec::new())))
        .unwrap_err();
    assert_eq!(err, b"usdc transfer failed".to_vec());
    assert!(!contract.is_authorized_buyer(BUYER));
    vm.run(|c, msg, log| c.purchase_express_lane_access(msg, log, Ok(true))).unwrap();
    vm.run(|c, msg, log| c.purchase_express_lane_access(msg, log, Err(Vec::new()))).unwrap_err();
    assert!(contract.is_authorized_buyer(BUYER));
    assert!(!contract.is_authorized_buyer(STRANGER));
    assert_eq!(contract.read(|c| c.total_resale_earnings), U256::from(RESALE_PRICE));
}

#[test]
fn purchase_is_booked_and_locked_while_the_payment_is_under_way() {
    let (vm, mut contract) = setup();
    win_round(&vm, &mut contract, 1);
    vm.set_sender(BUYER);
    let (purchase, call) = vm.run(|c, msg, _| c.begin_purchase(msg)).unwrap();
    assert!(contract.is_authorized_buyer(BUYER));
    assert_eq!(contract.read(|c| c.total_resale_earnings), U256::from(RESALE_PRICE));
    let price = U256::from(RESALE_PRICE);
    assert_eq!(
        call,
        VaultCall::TransferFrom {
            token: USDC_ADDR,
            from: BUYER,
            to: CONTRACT_ADDR,
            amount: price
        }
    );
    assert_eq!(contract.purchase_express_lane_access().unwrap_err(), b"reentrancy".to_vec());
    assert_eq!(contract.deposit_usdc(price).unwrap_err(), b"reentrancy".to_vec());
    vm.run(|c, _, log| c.finish_purchase(log, purchase, Ok(true))).unwrap();
    assert!(!contract.read(|c| c.locked));
}

#[test]
fn buying_twice_pays_twice() {
    let (vm, mut contract) = setup();
    win_round(&vm, &mut contract, 1);
    mock_purchase(&vm, BUYER, U256::from(RESALE_PRICE));
    vm.set_sender(BUYER);
    contract.purchase_express_lane_access().unwrap();
    contract.purchase_express_lane_access().unwrap();
    assert_eq!(contract.read(|c| c.total_resale_earnings), U256::from(2 * RESALE_PRICE));
}

#[test]
fn authorization_comes_back_with_its_round() {
    let (vm, mut contract) = setup();
    win_round(&vm, &mut contract, 1);
    mock_purchase(&vm, BUYER, U256::from(RESALE_PRICE));
    vm.set_sender(BUYER);
    contract.purchase_express_lane_access().unwrap();
    win_round(&vm, &mut contract, 2);
    assert!(!contract.is_authorized_buyer(BUYER));
    win_round(&vm, &mut contract, 1);
    assert!(contract.is_authorized_buyer(BUYER));
}

#[test]
fn bid_costs_that_do_not_add_up_are_refused() {
    let (vm, mut contract) = setup();
    vm.set_sender(BID_AGENT);
    contract.record_round_win(U256::from(1u64), U256::from(1u64)).unwrap();
    let err = contract.record_round_win(U256::from(2u64), U256::max()).unwrap_err();
    assert_eq!(err, b"arithmetic overflow".to_vec());
    assert_eq!(contract.read(|c| c.total_bid_cost), U256::from(1u64));
    assert_eq!(contract.read(|c| c.current_round), U256::from(1u64));
    assert_eq!(vm.get_emitted_logs().len(), 1);
    vm.set_sender(STRANGER);
    let err = contract.record_round_win(U256::from(2u64), U256::max()).unwrap_err();
    assert_eq!(err, b"not authorized".to_vec());
}

#[test]
fn bid_costs_may_fill_the_word() {
    let (vm, mut contract) = setup();
    vm.set_sender(BID_AGENT);
    contract.record_round_win(U256::from(1u64), U256::max()).unwrap();
    contract.record_round_win(U256::from(2u64), U256::zero()).unwrap();
    assert_eq!(contract.read(|c| c.total_bid_cost), U256::max());
}

#[test]
fn earnings_that_do_not_add_up_are_refused() {
    let (vm, mut contract) = setup();
    win_round(&vm, &mut contract, 1);
    vm.set_sender(BUYER);
    mock_purchase(&vm, BUYER, U256::from(RESALE_PRICE));
    contract.purchase_express_lane_access().unwrap();
    vm.set_sender(OWNER);
    contract.set_resale_price(U256::max()).unwrap();
    vm.set_sender(STRANGER);
    let err = contract.purchase_express_lane_access().unwrap_err();
    assert_eq!(err, b"arithmetic overflow".to_vec());
    assert!(!contract.is_authorized_buyer(STRANGER));
    assert!(!contract.read(|c| c.locked));
    assert_eq!(contract.read(|c| c.total_resale_earnings), U256::from(RESALE_PRICE));
}

#[test]
fn access_is_had_by_those_whose_purchase_is_logged() {
    let (vm, mut contract) = setup();
    mock_purchase(&vm, BUYER, U256::from(RESALE_PRICE));
    win_round(&vm, &mut contract, 1);
    for buyer in [BUYER, STRANGER] {
        vm.set_sender(buyer);
        let bought = contract.purchase_express_lane_access().is_ok();
        let sold = event_topic("ResalePurchased(address,uint256,uint256)");
        let logged = vm
            .get_emitted_logs()
            .iter()
            .any(|(topics, _)| topics[0] == sold && topics[1] == address_topic(buyer));
        assert_eq!(bought, buyer == BUYER);
        assert_eq!(logged, bought);
        assert_eq!(contract.is_authorized_buyer(buyer), bought);
    }
}

#[test]
fn unreadable_balance_fails_the_stats() {
    let (vm, contract) = setup();
    assert_eq!(contract.get_stats().unwrap_err(), Vec::<u8>::new());
    vm.mock_static_call(USDC_ADDR, balance_of_calldata(CONTRACT_ADDR), Ok(Vec::new()));
    assert_eq!(contract.get_stats().unwrap_err().len(), 36);
}

#[test]
fn owner_checks_of_the_vault_come_before_the_price_and_address_checks() {
    let (vm, mut contract) = setup();
    vm.set_sender(STRANGER);
    assert_eq!(contract.set_resale_price(U256::zero()).unwrap_err(), b"not owner".to_vec());
    assert_eq!(contract.transfer_ownership(Address::zero()).unwrap_err(), b"not owner".to_vec());
    vm.set_sender(OWNER);
    let err = contract.transfer_ownership(Address::zero()).unwrap_err();
    assert_eq!(err, b"zero address".to_vec());
    assert_eq!(contract.unpause().unwrap_err(), b"not paused".to_vec());
    contract.pause().unwrap();
    assert_eq!(contract.pause().unwrap_err(), b"already paused".to_vec());
}

#[test]
fn totals_are_what_the_log_adds_up_to() {
    let (vm, mut contract) = setup();
    mock_purchase(&vm, BUYER, U256::from(RESALE_PRICE));
    let won = event_topic("RoundWon(uint256,uint256)");
    let sold = event_topic("ResalePurchased(address,uint256,uint256)");
    for round in 1..4 {
        win_round(&vm, &mut contract, round);
        vm.set_sender(BUYER);
        contract.purchase_express_lane_access().unwrap();
        contract.deposit_eth().unwrap();
    }
    let sum = |topic: [u8; 32]| {
        vm.get_emitted_logs()
            .iter()
            .filter(|(topics, _)| topics[0] == topic)
            .fold(U256::zero(), |total, (_, data)| total.checked_add(number(&data[0..32])).unwrap())
    };
    assert_eq!(contract.read(|c| c.total_bid_cost), sum(won));
    assert_eq!(contract.read(|c| c.total_resale_earnings), sum(sold));
    assert_eq!(sum(won), U256::from(300u64));
    assert_eq!(sum(sold), U256::from(3 * RESALE_PRICE));
}

/// The topic of an event.
fn event_topic(signature: &str) -> [u8; 32] {
    keccak256(signature).0
}
