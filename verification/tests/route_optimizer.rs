//! The route optimizer, called as a host would call it.

use alloy_primitives::keccak256;
use alloy_sol_types::{sol_data, SolType};
use ouro_contracts::address::Address;
use ouro_contracts::call::Message;
use ouro_contracts::route_optimizer::{
    RouteEvent, RouteOptimizer, DEX_TYPE_AMM_V2, DEX_TYPE_UNIV3, MAX_DEXES, MAX_ROUTING_TOKENS,
};
use ouro_contracts::route_path::encode_path_two_hop;
use ouro_contracts::routes::{Candidate, QuoteCall, QuoteReply};
use ouro_contracts::word::U256;
use std::cell::RefCell;
use std::rc::Rc;

const OWNER: Address = Address {
    bytes: [0, 0, 0, 0, 0, 0, 0, 0, 0, 0, 0, 0, 0, 0, 0, 0, 0, 0, 0, 0x01],
};
const STRANGER: Address = Address {
    bytes: [0, 0, 0, 0, 0, 0, 0, 0, 0, 0, 0, 0, 0, 0, 0, 0, 0, 0, 0x0b, 0xad],
};
const WETH: Address = Address {
    bytes: [0x82, 0xaf, 0x49, 0x44, 0x7d, 0x8a, 0x07, 0xe3, 0xbd, 0x95, 0xbd, 0x0d, 0x56, 0xf3, 0x52, 0x41, 0x52, 0x3f, 0xba, 0xb1],
};
const USDC: Address = Address {
    bytes: [0xaf, 0x88, 0xd0, 0x65, 0xe7, 0x7c, 0x8c, 0xc2, 0x23, 0x93, 0x27, 0xc5, 0xed, 0xb3, 0xa4, 0x32, 0x26, 0x8e, 0x58, 0x31],
};
const ARB: Address = Address {
    bytes: [0x91, 0x2c, 0xe5, 0x91, 0x44, 0x19, 0x1c, 0x12, 0x04, 0xe6, 0x45, 0x59, 0xfe, 0x82, 0x53, 0xa0, 0xe4, 0x9e, 0x65, 0x48],
};
const DAI: Address = Address {
    bytes: [0xda, 0x10, 0, 0x9c, 0xbd, 0x5d, 0x07, 0xdd, 0x0c, 0xec, 0xc6, 0x61, 0x61, 0xfc, 0x93, 0xd7, 0xc9, 0, 0x0d, 0xa1],
};
const QUOTER: Address = Address {
    bytes: [0x11, 0x11, 0x11, 0x11, 0x11, 0x11, 0x11, 0x11, 0x11, 0x11, 0x11, 0x11, 0x11, 0x11, 0x11, 0x11, 0x11, 0x11, 0x11, 0x11],
};
const CAMELOT: Address = Address {
    bytes: [0x22, 0x22, 0x22, 0x22, 0x22, 0x22, 0x22, 0x22, 0x22, 0x22, 0x22, 0x22, 0x22, 0x22, 0x22, 0x22, 0x22, 0x22, 0x22, 0x22],
};
const SUSHI_QUOTER: Address = Address {
    bytes: [0x33, 0x33, 0x33, 0x33, 0x33, 0x33, 0x33, 0x33, 0x33, 0x33, 0x33, 0x33, 0x33, 0x33, 0x33, 0x33, 0x33, 0x33, 0x33, 0x33],
};

type Logs = Vec<(Vec<[u8; 32]>, Vec<u8>)>;

type Mock = (Address, Vec<u8>, Result<Vec<u8>, Vec<u8>>);

/// The chain around the contract: who calls, what other contracts answer, what was
/// logged, and the contract's state.
#[derive(Clone)]
struct TestVM {
    state: Rc<RefCell<VmState>>,
}

struct VmState {
    contract: RouteOptimizer,
    msg: Message,
    calls: Vec<Mock>,
    static_calls: Vec<Mock>,
    logs: Logs,
}

impl TestVM {
    fn new() -> Self {
        let msg = Message {
            sender: Address::zero(),
            value: U256::zero(),
            contract_address: Address::zero(),
            timestamp: 0,
        };
        let contract = RouteOptimizer::new();
        let (calls, static_calls, logs) = (Vec::new(), Vec::new(), Vec::new());
        let state = VmState { contract, msg, calls, static_calls, logs };
        TestVM { state: Rc::new(RefCell::new(state)) }
    }

    fn set_sender(&self, sender: Address) {
        self.state.borrow_mut().msg.sender = sender;
    }

    fn mock_call(&self, to: Address, data: Vec<u8>, value: U256, returned: Result<Vec<u8>, Vec<u8>>) {
        assert_eq!(value, U256::zero());
        self.state.borrow_mut().calls.insert(0, (to, data, returned));
    }

    fn mock_static_call(&self, to: Address, data: Vec<u8>, returned: Result<Vec<u8>, Vec<u8>>) {
        self.state.borrow_mut().static_calls.insert(0, (to, data, returned));
    }

    fn call(&self, call: &QuoteCall) -> Result<Vec<u8>, Vec<u8>> {
        let (to, data) = (call.target(), call.calldata());
        let state = self.state.borrow();
        let mocks = if call.is_view() { &state.static_calls } else { &state.calls };
        match mocks.iter().find(|m| m.0 == to && m.1 == data) {
            Some((_, _, returned)) => returned.clone(),
            None => Err(Vec::new()),
        }
    }

    fn get_emitted_logs(&self) -> Logs {
        self.state.borrow().logs.clone()
    }

    /// Runs one call and keeps what it logged.
    fn run<T>(&self, f: impl FnOnce(&mut RouteOptimizer, &Message, &mut Vec<RouteEvent>) -> T) -> T {
        let mut log = Vec::new();
        let state = &mut *self.state.borrow_mut();
        let msg = state.msg;
        let result = f(&mut state.contract, &msg, &mut log);
        for event in log {
            let entry = event.encode();
            state.logs.push((entry.topics, entry.data));
        }
        result
    }

    /// Asks the exchanges, each about its candidates.
    fn ask(&self, plan: impl Fn(&RouteOptimizer, usize) -> Vec<Candidate>) -> Vec<Vec<QuoteReply>> {
        let count = self.state.borrow().contract.dexes.entries.len();
        (0..count)
            .map(|i| {
                let candidates = plan(&self.state.borrow().contract, i);
                candidates.iter().map(|c| c.call.read(self.call(&c.call))).collect()
            })
            .collect()
    }
}

/// The contract, as a caller sees it.
struct Contract {
    vm: TestVM,
}

impl Contract {
    fn from(vm: &TestVM) -> Self {
        Contract { vm: vm.clone() }
    }

    fn initialize(&mut self) -> Result<(), Vec<u8>> {
        self.vm.run(|c, msg, _| c.initialize(msg))
    }

    fn add_dex(&mut self, dex: Address, kind: u64) -> Result<U256, Vec<u8>> {
        self.vm.run(|c, msg, log| c.add_dex(msg, log, dex, kind))
    }

    fn remove_dex(&mut self, index: U256) -> Result<(), Vec<u8>> {
        self.vm.run(|c, msg, log| c.remove_dex(msg, log, index))
    }

    fn dex_count(&self) -> U256 {
        self.vm.run(|c, _, _| c.dex_count())
    }

    fn get_dex(&self, index: U256) -> (Address, U256, bool) {
        self.vm.run(|c, _, _| c.get_dex(index))
    }

    fn add_routing_token(&mut self, token: Address) -> Result<(), Vec<u8>> {
        self.vm.run(|c, msg, _| c.add_routing_token(msg, token))
    }

    fn remove_routing_token(&mut self, token: Address) -> Result<(), Vec<u8>> {
        self.vm.run(|c, msg, _| c.remove_routing_token(msg, token))
    }

    fn routing_token_count(&self) -> U256 {
        self.vm.run(|c, _, _| c.routing_token_count())
    }

    fn find_best_route(
        &mut self,
        token_in: Address,
        token_out: Address,
        amount_in: U256,
    ) -> Result<(U256, Vec<Address>, Vec<u32>), Vec<u8>> {
        let replies =
            self.vm.ask(|c, i| c.route_candidates(i, token_in, token_out, amount_in));
        self.vm.run(|c, _, _| c.find_best_route(token_in, token_out, amount_in, &replies))
    }

    fn compare_routes(
        &mut self,
        token_in: Address,
        token_out: Address,
        amount_in: U256,
    ) -> Result<(U256, U256), Vec<u8>> {
        let replies =
            self.vm.ask(|c, i| c.direct_candidates(i, token_in, token_out, amount_in));
        self.vm.run(|c, _, _| c.compare_routes(token_in, token_out, amount_in, &replies))
    }
}

fn address(digits: &str) -> Address {
    Address::parse(digits).unwrap()
}

/// A number as alloy holds it.
fn alloy(n: U256) -> alloy_primitives::U256 {
    alloy_primitives::U256::from_limbs(n.limbs)
}

/// An address as alloy holds it.
fn alloy_address(a: Address) -> alloy_primitives::Address {
    alloy_primitives::Address::from(a.bytes)
}

/// The topic of an event.
fn event_topic(signature: &str) -> [u8; 32] {
    keccak256(signature).0
}

/// The entries of one event.
fn entries_of(logs: &Logs, signature: &str) -> Logs {
    let selector = event_topic(signature);
    logs.iter().filter(|(topics, _)| !topics.is_empty() && topics[0] == selector).cloned().collect()
}

fn single_quote_calldata(token_in: Address, token_out: Address, fee: u32, amount: U256) -> Vec<u8> {
    type Arguments = (
        sol_data::Address,
        sol_data::Address,
        sol_data::Uint<24>,
        sol_data::Uint<256>,
        sol_data::Uint<160>,
    );
    let signature = "quoteExactInputSingle(address,address,uint24,uint256,uint160)";
    let mut data = keccak256(signature)[..4].to_vec();
    data.extend(<Arguments as SolType>::abi_encode_params(&(
        alloy_address(token_in),
        alloy_address(token_out),
        alloy_primitives::Uint::<24, 1>::from(fee),
        alloy(amount),
        alloy_primitives::Uint::<160, 3>::ZERO,
    )));
    data
}

fn quote_calldata(path: Vec<u8>, amount_in: U256) -> Vec<u8> {
    type Arguments = (sol_data::Bytes, sol_data::Uint<256>);
    let mut data = keccak256("quoteExactInput(bytes,uint256)")[..4].to_vec();
    let path = alloy_primitives::Bytes::from(path);
    data.extend(<Arguments as SolType>::abi_encode_params(&(path, alloy(amount_in))));
    data
}

fn amounts_calldata(amount_in: U256, path: Vec<Address>) -> Vec<u8> {
    type Arguments = (sol_data::Uint<256>, sol_data::Array<sol_data::Address>);
    let mut data = keccak256("getAmountsOut(uint256,address[])")[..4].to_vec();
    let path: Vec<alloy_primitives::Address> = path.into_iter().map(alloy_address).collect();
    data.extend(<Arguments as SolType>::abi_encode_params(&(alloy(amount_in), path)));
    data
}

fn amounts(values: Vec<U256>) -> Vec<u8> {
    let values: Vec<alloy_primitives::U256> = values.into_iter().map(alloy).collect();
    <sol_data::Array<sol_data::Uint<256>> as SolType>::abi_encode_params(&values)
}

fn setup_contract() -> (TestVM, Contract) {
    let vm = TestVM::new();
    vm.set_sender(OWNER);
    let mut contract = Contract::from(&vm);
    contract.initialize().unwrap();
    contract.add_dex(QUOTER, DEX_TYPE_UNIV3).unwrap();
    (vm, contract)
}

fn mock_single_quote(
    vm: &TestVM,
    quoter: Address,
    token_in: Address,
    token_out: Address,
    fee: u32,
    amount_in: U256,
    amount_out: U256,
) {
    let calldata = single_quote_calldata(token_in, token_out, fee, amount_in);
    vm.mock_call(quoter, calldata, U256::zero(), Ok(alloy(amount_out).to_be_bytes_vec()));
}

fn mock_single_quote_revert(
    vm: &TestVM,
    quoter: Address,
    token_in: Address,
    token_out: Address,
    fee: u32,
    amount_in: U256,
) {
    let calldata = single_quote_calldata(token_in, token_out, fee, amount_in);
    vm.mock_call(quoter, calldata, U256::zero(), Err(b"no liquidity".to_vec()));
}

fn mock_multi_quote(
    vm: &TestVM,
    quoter: Address,
    path: Vec<u8>,
    amount_in: U256,
    amount_out: U256,
) {
    let calldata = quote_calldata(path, amount_in);
    vm.mock_call(quoter, calldata, U256::zero(), Ok(alloy(amount_out).to_be_bytes_vec()));
}

fn mock_amm_direct(
    vm: &TestVM,
    router: Address,
    token_in: Address,
    token_out: Address,
    amount_in: U256,
    amount_out: U256,
) {
    let calldata = amounts_calldata(amount_in, vec![token_in, token_out]);
    vm.mock_static_call(router, calldata, Ok(amounts(vec![amount_in, amount_out])));
}

fn mock_amm_two_hop(
    vm: &TestVM,
    router: Address,
    token_in: Address,
    intermediate: Address,
    token_out: Address,
    amount_in: U256,
    amount_out: U256,
) {
    let calldata = amounts_calldata(amount_in, vec![token_in, intermediate, token_out]);
    let mid = (alloy(amount_in) + alloy(amount_out)) / alloy_primitives::U256::from(2);
    let mid = U256 { limbs: mid.into_limbs() };
    vm.mock_static_call(router, calldata, Ok(amounts(vec![amount_in, mid, amount_out])));
}

fn mock_amm_direct_revert(
    vm: &TestVM,
    router: Address,
    token_in: Address,
    token_out: Address,
    amount_in: U256,
) {
    let calldata = amounts_calldata(amount_in, vec![token_in, token_out]);
    vm.mock_static_call(router, calldata, Err(b"no liq".to_vec()));
}

#[test]
fn encode_path_two_hop_total_length() {
    let path = encode_path_two_hop(WETH, 3000, USDC, 500, ARB);
    assert_eq!(path.len(), 66);
}

#[test]
fn encode_path_two_hop_fee_3000_encoding() {
    let path = encode_path_two_hop(WETH, 3000, USDC, 100, ARB);
    assert_eq!(&path[20..23], &[0x00, 0x0B, 0xB8]);
}

#[test]
fn encode_path_two_hop_fee_100_encoding() {
    let path = encode_path_two_hop(WETH, 100, USDC, 3000, ARB);
    assert_eq!(&path[20..23], &[0x00, 0x00, 0x64]);
}

#[test]
fn encode_path_two_hop_fee_10000_encoding() {
    let path = encode_path_two_hop(WETH, 10000, USDC, 500, ARB);
    assert_eq!(&path[20..23], &[0x00, 0x27, 0x10]);
}

#[test]
fn encode_path_two_hop_fee_500_at_second_position() {
    let path = encode_path_two_hop(WETH, 3000, USDC, 500, ARB);
    assert_eq!(&path[43..46], &[0x00, 0x01, 0xF4]);
}

#[test]
fn encode_path_two_hop_address_offsets() {
    let path = encode_path_two_hop(WETH, 3000, USDC, 500, ARB);
    assert_eq!(&path[0..20], &WETH.bytes[..]);
    assert_eq!(&path[23..43], &USDC.bytes[..]);
    assert_eq!(&path[46..66], &ARB.bytes[..]);
}

#[test]
fn encode_path_two_hop_roundtrip_identical_fees() {
    let path = encode_path_two_hop(ARB, 3000, WETH, 3000, USDC);
    assert_eq!(&path[20..23], &path[43..46]);
}

#[test]
fn initialize_sets_owner_and_defaults() {
    let (_, contract) = setup_contract();
    assert_eq!(contract.routing_token_count(), U256::from(2u64));
    assert_eq!(contract.dex_count(), U256::from(1u64));
}

#[test]
fn initialize_reinit_guard() {
    let (vm, mut contract) = setup_contract();
    vm.set_sender(OWNER);
    let err = contract.initialize().unwrap_err();
    assert_eq!(err, b"already initialized".to_vec());
}

#[test]
fn add_dex_registers_correctly() {
    let (_, contract) = setup_contract();
    let (addr, dtype, active) = contract.get_dex(U256::zero());
    assert_eq!(addr, QUOTER);
    assert_eq!(dtype, U256::zero());
    assert!(active);
}

#[test]
fn add_dex_increments_count() {
    let (vm, mut contract) = setup_contract();
    vm.set_sender(OWNER);
    assert_eq!(contract.dex_count(), U256::from(1u64));
    contract.add_dex(CAMELOT, DEX_TYPE_AMM_V2).unwrap();
    assert_eq!(contract.dex_count(), U256::from(2u64));
}

#[test]
fn add_dex_non_owner_rejected() {
    let (vm, mut contract) = setup_contract();
    vm.set_sender(STRANGER);
    let err = contract.add_dex(CAMELOT, DEX_TYPE_AMM_V2).unwrap_err();
    assert_eq!(err, b"not owner".to_vec());
}

#[test]
fn add_dex_emits_event() {
    let vm = TestVM::new();
    vm.set_sender(OWNER);
    let mut contract = Contract::from(&vm);
    contract.initialize().unwrap();
    contract.add_dex(QUOTER, DEX_TYPE_UNIV3).unwrap();

    let logs = vm.get_emitted_logs();
    let add_logs = entries_of(&logs, "DexAdded(uint256,address,uint64)");
    assert_eq!(add_logs.len(), 1);
}

#[test]
fn remove_dex_soft_deletes() {
    let (vm, mut contract) = setup_contract();
    vm.set_sender(OWNER);
    contract.remove_dex(U256::zero()).unwrap();
    let (_, _, active) = contract.get_dex(U256::zero());
    assert!(!active);
    assert_eq!(contract.dex_count(), U256::from(1u64));
}

#[test]
fn remove_dex_non_owner_rejected() {
    let (vm, mut contract) = setup_contract();
    vm.set_sender(STRANGER);
    let err = contract.remove_dex(U256::zero()).unwrap_err();
    assert_eq!(err, b"not owner".to_vec());
}

#[test]
fn remove_dex_out_of_bounds() {
    let (vm, mut contract) = setup_contract();
    vm.set_sender(OWNER);
    let err = contract.remove_dex(U256::from(99u64)).unwrap_err();
    assert_eq!(err, b"index out of bounds".to_vec());
}

#[test]
fn remove_dex_already_removed() {
    let (vm, mut contract) = setup_contract();
    vm.set_sender(OWNER);
    contract.remove_dex(U256::zero()).unwrap();
    let err = contract.remove_dex(U256::zero()).unwrap_err();
    assert_eq!(err, b"dex already removed".to_vec());
}

#[test]
fn remove_dex_emits_event() {
    let (vm, mut contract) = setup_contract();
    vm.set_sender(OWNER);
    contract.remove_dex(U256::zero()).unwrap();

    let logs = vm.get_emitted_logs();
    let remove_logs = entries_of(&logs, "DexRemoved(uint256,address)");
    assert_eq!(remove_logs.len(), 1);
}

#[test]
fn add_routing_token_adds_to_list() {
    let (vm, mut contract) = setup_contract();
    vm.set_sender(OWNER);
    let token = address("0000000000000000000000000000000000000abc");
    contract.add_routing_token(token).unwrap();
    assert_eq!(contract.routing_token_count(), U256::from(3u64));
}

#[test]
fn add_routing_token_duplicate_rejected() {
    let (vm, mut contract) = setup_contract();
    vm.set_sender(OWNER);
    let err = contract.add_routing_token(WETH).unwrap_err();
    assert_eq!(err, b"token already exists".to_vec());
}

#[test]
fn add_routing_token_non_owner_rejected() {
    let (vm, mut contract) = setup_contract();
    vm.set_sender(STRANGER);
    let token = address("0000000000000000000000000000000000000abc");
    let err = contract.add_routing_token(token).unwrap_err();
    assert_eq!(err, b"not owner".to_vec());
}

#[test]
fn remove_routing_token_removes() {
    let (vm, mut contract) = setup_contract();
    vm.set_sender(OWNER);
    contract.remove_routing_token(WETH).unwrap();
    assert_eq!(contract.routing_token_count(), U256::from(1u64));
}

#[test]
fn remove_routing_token_not_found() {
    let (vm, mut contract) = setup_contract();
    vm.set_sender(OWNER);
    let token = address("0000000000000000000000000000000000000abc");
    let err = contract.remove_routing_token(token).unwrap_err();
    assert_eq!(err, b"token not found".to_vec());
}

#[test]
fn remove_routing_token_non_owner_rejected() {
    let (vm, mut contract) = setup_contract();
    vm.set_sender(STRANGER);
    let err = contract.remove_routing_token(WETH).unwrap_err();
    assert_eq!(err, b"not owner".to_vec());
}

#[test]
fn find_best_route_single_hop_picks_best_fee_tier() {
    let (vm, mut contract) = setup_contract();
    let amount_in = U256::from(1_000_000_000_000_000_000u64);

    mock_single_quote_revert(&vm, QUOTER, ARB, DAI, 100, amount_in);
    mock_single_quote_revert(&vm, QUOTER, ARB, DAI, 3000, amount_in);
    mock_single_quote_revert(&vm, QUOTER, ARB, DAI, 10000, amount_in);

    let fee_tiers = [100u32, 500, 3000, 10000];
    for &f1 in &fee_tiers {
        for &f2 in &fee_tiers {
            let path_weth = encode_path_two_hop(ARB, f1, WETH, f2, DAI);
            let cd = quote_calldata(path_weth, amount_in);
            vm.mock_call(QUOTER, cd, U256::zero(), Err(b"no liq".to_vec()));

            let path_usdc = encode_path_two_hop(ARB, f1, USDC, f2, DAI);
            let cd2 = quote_calldata(path_usdc, amount_in);
            vm.mock_call(QUOTER, cd2, U256::zero(), Err(b"no liq".to_vec()));
        }
    }

    mock_single_quote(&vm, QUOTER, ARB, DAI, 500, amount_in, U256::from(1_000_000u64));

    let (best_out, best_tokens, best_fees) =
        contract.find_best_route(ARB, DAI, amount_in).unwrap();
    assert_eq!(best_out, U256::from(1_000_000u64));
    assert_eq!(best_tokens, vec![ARB, DAI]);
    assert_eq!(best_fees, vec![500]);
}

#[test]
fn find_best_route_two_hop_via_weth_wins() {
    let (vm, mut contract) = setup_contract();
    let amount_in = U256::from(1_000_000u64);

    for &fee in &[100u32, 500, 3000, 10000] {
        mock_single_quote_revert(&vm, QUOTER, ARB, DAI, fee, amount_in);
    }

    let fee_tiers = [100u32, 500, 3000, 10000];
    for &f1 in &fee_tiers {
        for &f2 in &fee_tiers {
            if f1 == 3000 && f2 == 500 {
                continue;
            }
            let path_weth = encode_path_two_hop(ARB, f1, WETH, f2, DAI);
            let cd = quote_calldata(path_weth, amount_in);
            vm.mock_call(QUOTER, cd, U256::zero(), Err(b"no liq".to_vec()));

            let path_usdc = encode_path_two_hop(ARB, f1, USDC, f2, DAI);
            let cd2 = quote_calldata(path_usdc, amount_in);
            vm.mock_call(QUOTER, cd2, U256::zero(), Err(b"no liq".to_vec()));
        }
    }

    let path_usdc_winner = encode_path_two_hop(ARB, 3000, USDC, 500, DAI);
    let cd_usdc = quote_calldata(path_usdc_winner, amount_in);
    vm.mock_call(QUOTER, cd_usdc, U256::zero(), Err(b"no liq".to_vec()));

    let path_weth_winner = encode_path_two_hop(ARB, 3000, WETH, 500, DAI);
    mock_multi_quote(&vm, QUOTER, path_weth_winner, amount_in, U256::from(1200u64));

    let (best_out, best_tokens, best_fees) =
        contract.find_best_route(ARB, DAI, amount_in).unwrap();
    assert_eq!(best_out, U256::from(1200u64));
    assert_eq!(best_tokens, vec![ARB, WETH, DAI]);
    assert_eq!(best_fees, vec![3000, 500]);
}

#[test]
fn find_best_route_no_liquidity_returns_error() {
    let (vm, mut contract) = setup_contract();
    let amount_in = U256::from(1_000_000u64);

    for &fee in &[100u32, 500, 3000, 10000] {
        mock_single_quote_revert(&vm, QUOTER, ARB, DAI, fee, amount_in);
    }

    let fee_tiers = [100u32, 500, 3000, 10000];
    for &f1 in &fee_tiers {
        for &f2 in &fee_tiers {
            let path_weth = encode_path_two_hop(ARB, f1, WETH, f2, DAI);
            let cd = quote_calldata(path_weth, amount_in);
            vm.mock_call(QUOTER, cd, U256::zero(), Err(b"no liq".to_vec()));

            let path_usdc = encode_path_two_hop(ARB, f1, USDC, f2, DAI);
            let cd2 = quote_calldata(path_usdc, amount_in);
            vm.mock_call(QUOTER, cd2, U256::zero(), Err(b"no liq".to_vec()));
        }
    }

    let err = contract.find_best_route(ARB, DAI, amount_in).unwrap_err();
    assert_eq!(err, b"no route found".to_vec());
}

#[test]
fn find_best_route_skips_intermediate_equal_to_token_in() {
    let (vm, mut contract) = setup_contract();
    let amount_in = U256::from(500_000u64);
    let uni_out = U256::from(499_000u64);

    let fee_tiers = [100u32, 500, 3000, 10000];
    for &f1 in &fee_tiers {
        for &f2 in &fee_tiers {
            let path_usdc = encode_path_two_hop(WETH, f1, USDC, f2, DAI);
            let cd = quote_calldata(path_usdc, amount_in);
            vm.mock_call(QUOTER, cd, U256::zero(), Err(b"no liq".to_vec()));
        }
    }

    mock_single_quote_revert(&vm, QUOTER, WETH, DAI, 100, amount_in);
    mock_single_quote_revert(&vm, QUOTER, WETH, DAI, 3000, amount_in);
    mock_single_quote_revert(&vm, QUOTER, WETH, DAI, 10000, amount_in);
    mock_single_quote(&vm, QUOTER, WETH, DAI, 500, amount_in, uni_out);

    let (best_out, best_tokens, best_fees) =
        contract.find_best_route(WETH, DAI, amount_in).unwrap();
    assert_eq!(best_out, uni_out);
    assert_eq!(best_tokens, vec![WETH, DAI]);
    assert_eq!(best_fees, vec![500]);
}

#[test]
fn find_best_route_skips_intermediate_equal_to_token_out() {
    let (vm, mut contract) = setup_contract();
    let amount_in = U256::from(500_000u64);
    let uni_out = U256::from(499_500u64);

    let fee_tiers = [100u32, 500, 3000, 10000];
    for &f1 in &fee_tiers {
        for &f2 in &fee_tiers {
            let path_usdc = encode_path_two_hop(ARB, f1, USDC, f2, WETH);
            let cd = quote_calldata(path_usdc, amount_in);
            vm.mock_call(QUOTER, cd, U256::zero(), Err(b"no liq".to_vec()));
        }
    }

    mock_single_quote_revert(&vm, QUOTER, ARB, WETH, 100, amount_in);
    mock_single_quote_revert(&vm, QUOTER, ARB, WETH, 3000, amount_in);
    mock_single_quote_revert(&vm, QUOTER, ARB, WETH, 10000, amount_in);
    mock_single_quote(&vm, QUOTER, ARB, WETH, 500, amount_in, uni_out);

    let (best_out, best_tokens, _) = contract.find_best_route(ARB, WETH, amount_in).unwrap();
    assert_eq!(best_out, uni_out);
    assert_eq!(best_tokens, vec![ARB, WETH]);
}

#[test]
fn find_best_route_skips_inactive_dex() {
    let (vm, mut contract) = setup_contract();
    vm.set_sender(OWNER);
    contract.remove_dex(U256::zero()).unwrap();

    let amount_in = U256::from(1_000u64);
    let err = contract.find_best_route(ARB, DAI, amount_in).unwrap_err();
    assert_eq!(err, b"no route found".to_vec());
}

#[test]
fn find_best_route_amm_v2_direct() {
    let vm = TestVM::new();
    vm.set_sender(OWNER);
    let mut contract = Contract::from(&vm);
    contract.initialize().unwrap();
    contract.add_dex(CAMELOT, DEX_TYPE_AMM_V2).unwrap();

    let amount_in = U256::from(1_000_000u64);
    let amount_out = U256::from(997_000u64);

    mock_amm_direct_revert(&vm, CAMELOT, ARB, WETH, amount_in);
    let calldata_weth = amounts_calldata(amount_in, vec![ARB, WETH, DAI]);
    vm.mock_static_call(CAMELOT, calldata_weth, Err(b"no liq".to_vec()));

    let calldata_usdc = amounts_calldata(amount_in, vec![ARB, USDC, DAI]);
    vm.mock_static_call(CAMELOT, calldata_usdc, Err(b"no liq".to_vec()));

    mock_amm_direct(&vm, CAMELOT, ARB, DAI, amount_in, amount_out);

    let (best_out, best_tokens, best_fees) =
        contract.find_best_route(ARB, DAI, amount_in).unwrap();
    assert_eq!(best_out, amount_out);
    assert_eq!(best_tokens, vec![ARB, DAI]);
    assert!(best_fees.is_empty());
}

#[test]
fn find_best_route_amm_v2_two_hop() {
    let vm = TestVM::new();
    vm.set_sender(OWNER);
    let mut contract = Contract::from(&vm);
    contract.initialize().unwrap();
    contract.add_dex(CAMELOT, DEX_TYPE_AMM_V2).unwrap();

    let amount_in = U256::from(1_000_000u64);
    let two_hop_out = U256::from(998_000u64);

    mock_amm_direct_revert(&vm, CAMELOT, ARB, DAI, amount_in);

    let calldata_usdc = amounts_calldata(amount_in, vec![ARB, USDC, DAI]);
    vm.mock_static_call(CAMELOT, calldata_usdc, Err(b"no liq".to_vec()));

    mock_amm_two_hop(&vm, CAMELOT, ARB, WETH, DAI, amount_in, two_hop_out);

    let (best_out, best_tokens, best_fees) =
        contract.find_best_route(ARB, DAI, amount_in).unwrap();
    assert_eq!(best_out, two_hop_out);
    assert_eq!(best_tokens, vec![ARB, WETH, DAI]);
    assert!(best_fees.is_empty());
}

#[test]
fn find_best_route_multi_dex_picks_best() {
    let (vm, mut contract) = setup_contract();
    vm.set_sender(OWNER);
    contract.add_dex(CAMELOT, DEX_TYPE_AMM_V2).unwrap();

    let amount_in = U256::from(1_000_000u64);
    let uni_out = U256::from(990_000u64);
    let amm_out = U256::from(997_000u64);

    for &fee in &[100u32, 3000, 10000] {
        mock_single_quote_revert(&vm, QUOTER, ARB, DAI, fee, amount_in);
    }
    let fee_tiers = [100u32, 500, 3000, 10000];
    for &f1 in &fee_tiers {
        for &f2 in &fee_tiers {
            let path_weth = encode_path_two_hop(ARB, f1, WETH, f2, DAI);
            let cd = quote_calldata(path_weth, amount_in);
            vm.mock_call(QUOTER, cd, U256::zero(), Err(b"no liq".to_vec()));

            let path_usdc = encode_path_two_hop(ARB, f1, USDC, f2, DAI);
            let cd2 = quote_calldata(path_usdc, amount_in);
            vm.mock_call(QUOTER, cd2, U256::zero(), Err(b"no liq".to_vec()));
        }
    }
    mock_single_quote(&vm, QUOTER, ARB, DAI, 500, amount_in, uni_out);

    let calldata_weth = amounts_calldata(amount_in, vec![ARB, WETH, DAI]);
    vm.mock_static_call(CAMELOT, calldata_weth, Err(b"no liq".to_vec()));
    let calldata_usdc = amounts_calldata(amount_in, vec![ARB, USDC, DAI]);
    vm.mock_static_call(CAMELOT, calldata_usdc, Err(b"no liq".to_vec()));
    mock_amm_direct(&vm, CAMELOT, ARB, DAI, amount_in, amm_out);

    let (best_out, best_tokens, best_fees) =
        contract.find_best_route(ARB, DAI, amount_in).unwrap();
    assert_eq!(best_out, amm_out);
    assert_eq!(best_tokens, vec![ARB, DAI]);
    assert!(best_fees.is_empty());
}

#[test]
fn compare_routes_univ3_wins() {
    let (vm, mut contract) = setup_contract();
    vm.set_sender(OWNER);
    contract.add_dex(CAMELOT, DEX_TYPE_AMM_V2).unwrap();

    let amount_in = U256::from(1_000_000_000u64);
    let uni_out = U256::from(998_000_000u64);
    let amm_out = U256::from(997_000_000u64);

    mock_amm_direct(&vm, CAMELOT, ARB, DAI, amount_in, amm_out);

    mock_single_quote_revert(&vm, QUOTER, ARB, DAI, 100, amount_in);
    mock_single_quote_revert(&vm, QUOTER, ARB, DAI, 3000, amount_in);
    mock_single_quote_revert(&vm, QUOTER, ARB, DAI, 10000, amount_in);
    mock_single_quote(&vm, QUOTER, ARB, DAI, 500, amount_in, uni_out);

    let (dex_index, best_amount) = contract.compare_routes(ARB, DAI, amount_in).unwrap();
    assert_eq!(dex_index, U256::zero());
    assert_eq!(best_amount, uni_out);
}

#[test]
fn compare_routes_amm_wins() {
    let (vm, mut contract) = setup_contract();
    vm.set_sender(OWNER);
    contract.add_dex(CAMELOT, DEX_TYPE_AMM_V2).unwrap();

    let amount_in = U256::from(10_000u64);

    for &fee in &[100u32, 500, 3000, 10000] {
        mock_single_quote_revert(&vm, QUOTER, ARB, DAI, fee, amount_in);
    }

    let amm_out = U256::from(9_970u64);
    mock_amm_direct(&vm, CAMELOT, ARB, DAI, amount_in, amm_out);

    let (dex_index, best_amount) = contract.compare_routes(ARB, DAI, amount_in).unwrap();
    assert_eq!(dex_index, U256::from(1u64));
    assert_eq!(best_amount, amm_out);
}

#[test]
fn compare_routes_returns_dex_index() {
    let vm = TestVM::new();
    vm.set_sender(OWNER);
    let mut contract = Contract::from(&vm);
    contract.initialize().unwrap();
    contract.add_dex(QUOTER, DEX_TYPE_UNIV3).unwrap();
    contract.add_dex(CAMELOT, DEX_TYPE_AMM_V2).unwrap();
    contract.add_dex(SUSHI_QUOTER, DEX_TYPE_UNIV3).unwrap();

    let amount_in = U256::from(1_000u64);
    let sushi_out = U256::from(999u64);

    for &fee in &[100u32, 500, 3000, 10000] {
        mock_single_quote_revert(&vm, QUOTER, ARB, DAI, fee, amount_in);
    }
    mock_amm_direct_revert(&vm, CAMELOT, ARB, DAI, amount_in);

    mock_single_quote_revert(&vm, SUSHI_QUOTER, ARB, DAI, 100, amount_in);
    mock_single_quote_revert(&vm, SUSHI_QUOTER, ARB, DAI, 3000, amount_in);
    mock_single_quote_revert(&vm, SUSHI_QUOTER, ARB, DAI, 10000, amount_in);
    mock_single_quote(&vm, SUSHI_QUOTER, ARB, DAI, 500, amount_in, sushi_out);

    let (dex_index, best_amount) = contract.compare_routes(ARB, DAI, amount_in).unwrap();
    assert_eq!(dex_index, U256::from(2u64));
    assert_eq!(best_amount, sushi_out);
}

#[test]
fn compare_routes_tie_goes_to_first() {
    let (vm, mut contract) = setup_contract();
    vm.set_sender(OWNER);
    contract.add_dex(CAMELOT, DEX_TYPE_AMM_V2).unwrap();

    let amount_in = U256::from(10_000u64);
    let tied_out = U256::from(9_970u64);

    mock_amm_direct(&vm, CAMELOT, ARB, DAI, amount_in, tied_out);

    mock_single_quote_revert(&vm, QUOTER, ARB, DAI, 100, amount_in);
    mock_single_quote_revert(&vm, QUOTER, ARB, DAI, 500, amount_in);
    mock_single_quote_revert(&vm, QUOTER, ARB, DAI, 10000, amount_in);
    mock_single_quote(&vm, QUOTER, ARB, DAI, 3000, amount_in, tied_out);

    let (dex_index, best_amount) = contract.compare_routes(ARB, DAI, amount_in).unwrap();
    assert_eq!(dex_index, U256::zero());
    assert_eq!(best_amount, tied_out);
}

#[test]
fn compare_routes_no_dex_returns_zero() {
    let vm = TestVM::new();
    vm.set_sender(OWNER);
    let mut contract = Contract::from(&vm);
    contract.initialize().unwrap();

    let (dex_index, best_amount) =
        contract.compare_routes(ARB, DAI, U256::from(1000u64)).unwrap();
    assert_eq!(dex_index, U256::zero());
    assert_eq!(best_amount, U256::zero());
}

#[test]
fn add_dex_max_cap_enforced() {
    let vm = TestVM::new();
    vm.set_sender(OWNER);
    let mut contract = Contract::from(&vm);
    contract.initialize().unwrap();

    for i in 0..MAX_DEXES {
        let addr_bytes = format!("000000000000000000000000000000000000{:04x}", i + 0x10);
        let addr = address(&addr_bytes);
        contract.add_dex(addr, DEX_TYPE_UNIV3).unwrap();
    }

    assert_eq!(contract.dex_count(), U256::from(MAX_DEXES));

    let overflow_addr = address("0000000000000000000000000000000000009999");
    let err = contract.add_dex(overflow_addr, DEX_TYPE_UNIV3).unwrap_err();
    assert_eq!(err, b"max dexes reached".to_vec());
}

#[test]
fn default_routing_tokens_are_weth_and_usdc() {
    let (vm, _contract) = setup_contract();
    assert_eq!(vm.state.borrow().contract.routing_tokens, vec![WETH, USDC]);
}

#[test]
fn routing_tokens_are_checked_in_order() {
    let (vm, mut contract) = setup_contract();
    vm.set_sender(OWNER);
    let err = contract.add_routing_token(Address::zero()).unwrap_err();
    assert_eq!(err, b"zero address".to_vec());
    for i in 2..MAX_ROUTING_TOKENS {
        let token = address(&format!("00000000000000000000000000000000000{:05x}", i));
        contract.add_routing_token(token).unwrap();
    }
    let err = contract.add_routing_token(WETH).unwrap_err();
    assert_eq!(err, b"max routing tokens reached".to_vec());
    contract.remove_routing_token(WETH).unwrap();
    contract.add_routing_token(WETH).unwrap();
    assert_eq!(contract.routing_token_count(), U256::from(50u64));
}

#[test]
fn last_routing_token_moves_into_the_gap() {
    let (vm, mut contract) = setup_contract();
    contract.add_routing_token(ARB).unwrap();
    contract.remove_routing_token(WETH).unwrap();
    assert_eq!(vm.state.borrow().contract.routing_tokens, vec![ARB, USDC]);
}

#[test]
fn exchange_with_the_zero_address_is_refused() {
    let (_vm, mut contract) = setup_contract();
    let err = contract.add_dex(Address::zero(), DEX_TYPE_UNIV3).unwrap_err();
    assert_eq!(err, b"zero address".to_vec());
}

#[test]
fn exchange_that_is_added_again_gets_a_new_number() {
    let (_vm, mut contract) = setup_contract();
    contract.remove_dex(U256::zero()).unwrap();
    assert_eq!(contract.add_dex(QUOTER, DEX_TYPE_UNIV3).unwrap(), U256::from(1u64));
    assert_eq!(contract.get_dex(U256::zero()), (QUOTER, U256::zero(), false));
    assert_eq!(contract.get_dex(U256::from(1u64)), (QUOTER, U256::zero(), true));
    assert_eq!(contract.get_dex(U256::max()), (Address::zero(), U256::zero(), false));
}

#[test]
fn exchange_of_an_unknown_type_is_not_asked() {
    let (vm, mut contract) = setup_contract();
    contract.add_dex(CAMELOT, 7).unwrap();
    let state = vm.state.borrow();
    assert!(state.contract.route_candidates(1, ARB, DAI, U256::from(1u64)).is_empty());
    assert!(state.contract.direct_candidates(1, ARB, DAI, U256::from(1u64)).is_empty());
    assert!(state.contract.route_candidates(2, ARB, DAI, U256::from(1u64)).is_empty());
}

#[test]
fn every_route_of_a_quoter_is_asked_about() {
    let (vm, _contract) = setup_contract();
    let state = vm.state.borrow();
    let amount = U256::from(1u64);
    assert_eq!(state.contract.route_candidates(0, ARB, DAI, amount).len(), 4 + 2 * 16);
    assert_eq!(state.contract.route_candidates(0, WETH, USDC, amount).len(), 4);
    assert_eq!(state.contract.direct_candidates(0, ARB, DAI, amount).len(), 4);
    let first = &state.contract.route_candidates(0, ARB, DAI, amount)[4];
    assert_eq!(first.tokens, vec![ARB, WETH, DAI]);
    assert_eq!(first.fees, vec![100, 100]);
}

#[test]
fn first_of_equal_routes_wins() {
    let (vm, mut contract) = setup_contract();
    contract.add_dex(CAMELOT, DEX_TYPE_AMM_V2).unwrap();
    let (amount_in, out) = (U256::from(100u64), U256::from(90u64));
    mock_single_quote(&vm, QUOTER, ARB, DAI, 500, amount_in, out);
    mock_single_quote(&vm, QUOTER, ARB, DAI, 3000, amount_in, out);
    mock_amm_direct(&vm, CAMELOT, ARB, DAI, amount_in, out);
    let (best, tokens, fees) = contract.find_best_route(ARB, DAI, amount_in).unwrap();
    assert_eq!((best, tokens, fees), (out, vec![ARB, DAI], vec![500]));
}

#[test]
fn best_route_is_no_worse_than_the_best_direct_one() {
    let (vm, mut contract) = setup_contract();
    let amount_in = U256::from(100u64);
    mock_single_quote(&vm, QUOTER, ARB, DAI, 500, amount_in, U256::from(90u64));
    let path = encode_path_two_hop(ARB, 100, USDC, 10000, DAI);
    mock_multi_quote(&vm, QUOTER, path, amount_in, U256::from(91u64));
    let (_, direct) = contract.compare_routes(ARB, DAI, amount_in).unwrap();
    let (best, tokens, fees) = contract.find_best_route(ARB, DAI, amount_in).unwrap();
    assert_eq!(direct, U256::from(90u64));
    assert_eq!((best, tokens, fees), (U256::from(91u64), vec![ARB, USDC, DAI], vec![100, 10000]));
}

#[test]
fn router_has_to_answer_an_amount_for_each_token() {
    let vm = TestVM::new();
    vm.set_sender(OWNER);
    let mut contract = Contract::from(&vm);
    contract.initialize().unwrap();
    contract.add_dex(CAMELOT, DEX_TYPE_AMM_V2).unwrap();
    let amount_in = U256::from(100u64);
    let direct = amounts_calldata(amount_in, vec![ARB, DAI]);
    let two_hops = amounts_calldata(amount_in, vec![ARB, WETH, DAI]);
    vm.mock_static_call(CAMELOT, direct, Ok(amounts(vec![U256::from(95u64)])));
    vm.mock_static_call(CAMELOT, two_hops, Ok(amounts(vec![amount_in, U256::from(95u64)])));
    assert_eq!(
        contract.find_best_route(ARB, DAI, amount_in).unwrap_err(),
        b"no route found".to_vec()
    );
    let (_, direct) = contract.compare_routes(ARB, DAI, amount_in).unwrap();
    assert_eq!(direct, U256::zero());
}

#[test]
fn answers_that_cannot_be_read_count_as_failed() {
    let single = QuoteCall::ExactInputSingle {
        quoter: QUOTER,
        token_in: ARB,
        token_out: DAI,
        fee: 500,
        amount_in: U256::from(1u64),
    };
    assert!(matches!(single.read(Ok(vec![0; 31])), QuoteReply::Failed));
    assert!(matches!(single.read(Err(vec![0; 32])), QuoteReply::Failed));
    let word = alloy(U256::max()).to_be_bytes_vec();
    match single.read(Ok([word, vec![1, 2, 3]].concat())) {
        QuoteReply::Amount(amount) => assert_eq!(amount, U256::max()),
        other => panic!("{:?}", other),
    }
    let router =
        QuoteCall::AmountsOut { router: CAMELOT, amount_in: U256::from(1u64), path: Vec::new() };
    assert!(matches!(router.read(Ok(Vec::new())), QuoteReply::Failed));
    assert!(matches!(router.read(Ok(vec![0xff; 64])), QuoteReply::Failed));
    let mut short = amounts(vec![U256::from(1u64), U256::from(2u64)]);
    short.pop();
    assert!(matches!(router.read(Ok(short)), QuoteReply::Failed));
    match router.read(Ok(amounts(vec![U256::from(7u64), U256::max()]))) {
        QuoteReply::Amounts(values) => assert_eq!(values, vec![U256::from(7u64), U256::max()]),
        other => panic!("{:?}", other),
    }
    match router.read(Ok(amounts(Vec::new()))) {
        QuoteReply::Amounts(values) => assert!(values.is_empty()),
        other => panic!("{:?}", other),
    }
    // An array that starts at its own offset word: the word 0 is its length.
    match router.read(Ok(vec![0; 32])) {
        QuoteReply::Amounts(values) => assert!(values.is_empty()),
        other => panic!("{:?}", other),
    }
}

#[test]
fn calldata_matches_the_known_selectors() {
    let single = QuoteCall::ExactInputSingle {
        quoter: QUOTER,
        token_in: ARB,
        token_out: DAI,
        fee: 3000,
        amount_in: U256::from(1u64),
    };
    assert_eq!(single.calldata()[..4], [0xf7, 0x72, 0x9d, 0x43]);
    assert_eq!(single.calldata().len(), 4 + 5 * 32);
    let multi = QuoteCall::ExactInput {
        quoter: QUOTER,
        path_bytes: encode_path_two_hop(ARB, 100, WETH, 500, DAI),
        amount_in: U256::from(1u64),
    };
    assert_eq!(multi.calldata()[..4], [0xcd, 0xca, 0x17, 0x53]);
    assert_eq!(multi.calldata().len(), 4 + 3 * 32 + 96);
    let router = QuoteCall::AmountsOut {
        router: CAMELOT,
        amount_in: U256::from(1u64),
        path: vec![ARB, DAI],
    };
    assert_eq!(router.calldata()[..4], [0xd0, 0x6c, 0xa6, 0x1f]);
    assert_eq!(router.calldata()[4 + 2 * 32 + 31], 2);
    assert_eq!(&router.calldata()[4 + 3 * 32 + 12..4 + 4 * 32], &ARB.bytes[..]);
}

#[test]
fn exchanges_can_be_compared_one_at_a_time() {
    let (vm, mut contract) = setup_contract();
    contract.add_dex(CAMELOT, DEX_TYPE_AMM_V2).unwrap();
    let amount_in = U256::from(100u64);
    mock_single_quote(&vm, QUOTER, ARB, DAI, 500, amount_in, U256::from(90u64));
    mock_amm_direct(&vm, CAMELOT, ARB, DAI, amount_in, U256::from(95u64));
    let replies = vm.ask(|c, i| c.route_candidates(i, ARB, DAI, amount_in));
    let (mut out, mut tokens, mut fees) = (U256::zero(), Vec::new(), Vec::new());
    let none = Vec::new();
    let step = |i: usize, out: &mut U256, tokens: &mut Vec<Address>, fees: &mut Vec<u32>| {
        let answered = replies.get(i).unwrap_or(&none);
        vm.run(|c, _, _| c.quote_dex(i, ARB, DAI, amount_in, answered, out, tokens, fees));
    };
    step(0, &mut out, &mut tokens, &mut fees);
    assert_eq!((out, &tokens, &fees), (U256::from(90u64), &vec![ARB, DAI], &vec![500]));
    step(1, &mut out, &mut tokens, &mut fees);
    step(2, &mut out, &mut tokens, &mut fees);
    let found = RouteOptimizer::best_route(out, tokens, fees).unwrap();
    assert_eq!(found, (U256::from(95u64), vec![ARB, DAI], Vec::new()));
    assert_eq!(contract.find_best_route(ARB, DAI, amount_in).unwrap(), found);
    let none = RouteOptimizer::best_route(U256::zero(), Vec::new(), Vec::new());
    assert_eq!(none.unwrap_err(), b"no route found".to_vec());
}

#[test]
fn direct_offers_can_be_compared_one_at_a_time() {
    let (vm, mut contract) = setup_contract();
    contract.add_dex(CAMELOT, DEX_TYPE_AMM_V2).unwrap();
    let amount_in = U256::from(100u64);
    mock_single_quote(&vm, QUOTER, ARB, DAI, 500, amount_in, U256::from(90u64));
    mock_amm_direct(&vm, CAMELOT, ARB, DAI, amount_in, U256::from(95u64));
    let replies = vm.ask(|c, i| c.direct_candidates(i, ARB, DAI, amount_in));
    let (mut index, mut out) = (U256::zero(), U256::zero());
    for (i, answered) in replies.iter().enumerate() {
        vm.run(|c, _, _| c.compare_dex(i, ARB, DAI, amount_in, answered, &mut index, &mut out));
    }
    assert_eq!((index, out), (U256::from(1u64), U256::from(95u64)));
    vm.run(|c, _, _| c.compare_dex(2, ARB, DAI, amount_in, &replies[1], &mut index, &mut out));
    assert_eq!((index, out), (U256::from(1u64), U256::from(95u64)));
}
