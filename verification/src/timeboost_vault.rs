//! The express lane vault: bidding capital, won rounds and the resale of access.
//!
//! Some calls send tokens or ether in their middle.  Each of those comes in two
//! halves: `begin_..` checks, changes what has to change first and says what to
//! send; `finish_..` takes how that went.  The call under its plain name is the two
//! halves one after the other.

use crate::abi::{
    address_word, alloy_decode_bool, alloy_decode_uint, alloy_encode_address,
    alloy_encode_address_uint, alloy_encode_addresses_uint, calldata, selector,
    stylus_decoding_failed, uint_word, unreadable, word_value,
};
use crate::address::Address;
use crate::call::{refused, revert_data, Message};
use crate::mapping::{lemma_every_key_is_mapped, Key, Mapping};
use crate::vault_totals::{
    buyers_match, is_purchase, lemma_costs_push, lemma_earnings_push, lemma_purchase_push,
    logged_costs, logged_earnings, logged_purchase,
};
use crate::word::{group_word, modulus, word, U256};
use vstd::prelude::*;

verus! {

broadcast use {
    group_word,
    lemma_every_key_is_mapped,
    lemma_costs_push,
    lemma_earnings_push,
    lemma_purchase_push,
};

/// What the vault reports.
#[derive(Clone, Copy, Debug, PartialEq, Eq)]
pub enum VaultEvent {
    Deposited { from: Address, amount: U256, is_eth: bool },
    Withdrawn { to: Address, amount: U256, is_eth: bool },
    RoundWon { round: U256, bid_cost: U256 },
    ResalePurchased { buyer: Address, price_paid: U256, round: U256 },
    ResalePriceUpdated { old_price: U256, new_price: U256 },
    OwnershipTransferStarted { current_owner: Address, pending_owner: Address },
    OwnershipTransferred { previous_owner: Address, new_owner: Address },
    Paused { by: Address },
    Unpaused { by: Address },
}

/// What the vault asks of other contracts.
#[derive(Clone, Copy, Debug, PartialEq, Eq)]
pub enum VaultCall {
    /// `transferFrom` of a token.
    TransferFrom { token: Address, from: Address, to: Address, amount: U256 },
    /// `transfer` of a token.
    Transfer { token: Address, to: Address, amount: U256 },
    /// `balanceOf` of a token.
    BalanceOf { token: Address, account: Address },
    /// Ether sent along with an empty call.
    SendEth { to: Address, amount: U256 },
}

impl VaultCall {
    /// Whom the call goes to.
    pub fn target(&self) -> (r: Address)
        ensures
            match *self {
                VaultCall::TransferFrom { token, .. } => r == token,
                VaultCall::Transfer { token, .. } => r == token,
                VaultCall::BalanceOf { token, .. } => r == token,
                VaultCall::SendEth { to, .. } => r == to,
            },
    {
        match *self {
            VaultCall::TransferFrom { token, .. } => token,
            VaultCall::Transfer { token, .. } => token,
            VaultCall::BalanceOf { token, .. } => token,
            VaultCall::SendEth { to, .. } => to,
        }
    }

    /// The ether that goes with the call, in wei.
    pub fn value(&self) -> (r: U256)
        ensures
            r == match *self {
                VaultCall::SendEth { amount, .. } => amount,
                _ => word(0),
            },
    {
        match *self {
            VaultCall::SendEth { amount, .. } => amount,
            _ => U256::zero(),
        }
    }

    /// The calldata of the call.
    pub fn calldata(&self) -> (r: Vec<u8>)
        ensures
            r@ == match *self {
                VaultCall::TransferFrom { token, from, to, amount } => selector(
                    "transferFrom(address,address,uint256)",
                ) + (address_word(from) + address_word(to) + uint_word(amount@)),
                VaultCall::Transfer { token, to, amount } => selector("transfer(address,uint256)")
                    + (address_word(to) + uint_word(amount@)),
                VaultCall::BalanceOf { token, account } => selector("balanceOf(address)")
                    + address_word(account),
                VaultCall::SendEth { .. } => seq![],
            },
    {
        match *self {
            VaultCall::TransferFrom { token: _, from, to, amount } => calldata(
                "transferFrom(address,address,uint256)",
                alloy_encode_addresses_uint(from, to, amount),
            ),
            VaultCall::Transfer { token: _, to, amount } => calldata(
                "transfer(address,uint256)",
                alloy_encode_address_uint(to, amount),
            ),
            VaultCall::BalanceOf { token: _, account } => calldata(
                "balanceOf(address)",
                alloy_encode_address(account),
            ),
            VaultCall::SendEth { .. } => Vec::new(),
        }
    }
}

/// What came back from a token transfer, read as whether the token agreed.
pub fn read_agreed(returned: Result<Vec<u8>, Vec<u8>>) -> (r: Result<bool, Vec<u8>>)
    ensures
        match returned {
            Err(data) => r == Err::<bool, Vec<u8>>(data),
            Ok(data) => if data@.len() < 32 || word_value(data@, 0) > 1 {
                r matches Err(d) && d@ == unreadable()
            } else {
                r == Ok::<bool, Vec<u8>>(word_value(data@, 0) == 1)
            },
        },
{
    match returned {
        Err(data) => Err(data),
        Ok(data) => match alloy_decode_bool(&data) {
            Some(agreed) => Ok(agreed),
            None => Err(stylus_decoding_failed()),
        },
    }
}

/// What came back from a balance query, read as the balance.
pub fn read_balance(returned: Result<Vec<u8>, Vec<u8>>) -> (r: Result<U256, Vec<u8>>)
    ensures
        match returned {
            Err(data) => r == Err::<U256, Vec<u8>>(data),
            Ok(data) => if data@.len() < 32 {
                r matches Err(d) && d@ == unreadable()
            } else {
                r matches Ok(balance) && balance@ == word_value(data@, 0)
            },
        },
{
    match returned {
        Err(data) => Err(data),
        Ok(data) => match alloy_decode_uint(&data) {
            Some(balance) => Ok(balance),
            None => Err(stylus_decoding_failed()),
        },
    }
}

/// A buyer in a round.
#[derive(Clone, Copy, Debug)]
pub struct RoundBuyer {
    pub round: U256,
    pub buyer: Address,
}

impl Key for RoundBuyer {
    fn same(&self, other: &Self) -> (r: bool) {
        self.round == other.round && self.buyer == other.buyer
    }
}

/// A purchase whose payment is under way.
#[derive(Clone, Copy, Debug)]
pub struct Purchase {
    /// Who buys, and for which round.
    pub slot: RoundBuyer,
    /// What the buyer pays.
    pub price: U256,
    /// What had been earned before.
    pub prev_earnings: U256,
    /// Whether the buyer had bought access for the round before.
    pub prev_authorized: bool,
}

/// The vault.
#[derive(Debug)]
pub struct TimeBoostVault {
    /// Who may withdraw and configure; nobody before `initialize`.
    pub owner: Address,
    /// Who may take the vault over; the zero address if nobody was proposed.
    pub pending_owner: Address,
    /// The token that access is paid in.
    pub usdc: Address,
    /// Who bids for the vault.
    pub bid_agent: Address,
    /// The price of access for a round.
    pub resale_price_usdc: U256,
    /// Whether the vault holds the express lane now.
    pub is_express_lane_controller: bool,
    /// The round that was won last.
    pub current_round: U256,
    /// What was earned with access so far.
    pub total_resale_earnings: U256,
    /// What was spent on bids so far, in wei.
    pub total_bid_cost: U256,
    /// Who bought access, and for which round.
    pub round_authorized_buyers: Mapping<RoundBuyer, bool>,
    /// Whether a token transfer is under way.
    pub locked: bool,
    /// Whether deposits and sales are suspended.
    pub paused: bool,
}

/// What a [`TimeBoostVault`] holds.
pub struct TimeBoostVaultState {
    pub owner: Address,
    pub pending_owner: Address,
    pub usdc: Address,
    pub bid_agent: Address,
    pub resale_price_usdc: U256,
    pub is_express_lane_controller: bool,
    pub current_round: U256,
    pub total_resale_earnings: U256,
    pub total_bid_cost: U256,
    pub round_authorized_buyers: Map<RoundBuyer, bool>,
    pub locked: bool,
    pub paused: bool,
}

impl TimeBoostVaultState {
    /// What holds of every vault that only ever answered calls from nonzero
    /// addresses: until it has an owner it has no agent, holds no express lane and
    /// can be neither suspended nor handed over.
    pub open spec fn inv(self) -> bool {
        self.owner == Address::spec_zero() ==> {
            &&& self.pending_owner == Address::spec_zero()
            &&& self.bid_agent == Address::spec_zero()
            &&& !self.is_express_lane_controller
            &&& !self.paused
        }
    }

    /// What every call from a nonzero address keeps: what was spent on bids never
    /// falls, and a vault that has an owner stays owned and keeps its token and its
    /// agent.
    pub open spec fn precedes(self, later: Self) -> bool {
        &&& self.total_bid_cost@ <= later.total_bid_cost@
        &&& self.owner != Address::spec_zero() ==> {
            &&& later.owner != Address::spec_zero()
            &&& later.usdc == self.usdc
            &&& later.bid_agent == self.bid_agent
        }
    }

    /// Whether the books are what the log says: the totals are the sums of what was
    /// spent and earned, and those who have access are those who paid for it.
    pub open spec fn books_match(self, log: Seq<VaultEvent>) -> bool {
        &&& self.total_bid_cost@ == logged_costs(log)
        &&& self.total_resale_earnings@ == logged_earnings(log)
        &&& buyers_match(self.round_authorized_buyers, log)
    }

    /// The caller, in the round that was won last.
    pub open spec fn slot(self, buyer: Address) -> RoundBuyer {
        RoundBuyer { round: self.current_round, buyer }
    }

    /// The purchase that `msg` makes.
    pub open spec fn purchase(self, msg: Message) -> Purchase {
        Purchase {
            slot: self.slot(msg.sender),
            price: self.resale_price_usdc,
            prev_earnings: self.total_resale_earnings,
            prev_authorized: self.round_authorized_buyers[self.slot(msg.sender)],
        }
    }

    /// The state in which `purchase` is booked.
    pub open spec fn booked(self, purchase: Purchase) -> Self {
        TimeBoostVaultState {
            round_authorized_buyers: self.round_authorized_buyers.insert(purchase.slot, true),
            total_resale_earnings: word(purchase.prev_earnings@ + purchase.price@),
            ..self
        }
    }

    /// The state in which `purchase` is taken back.
    pub open spec fn unbooked(self, purchase: Purchase) -> Self {
        TimeBoostVaultState {
            round_authorized_buyers: self.round_authorized_buyers.insert(
                purchase.slot,
                purchase.prev_authorized,
            ),
            total_resale_earnings: purchase.prev_earnings,
            ..self
        }
    }

    /// The state while a token transfer is under way, or not.
    pub open spec fn with_lock(self, locked: bool) -> Self {
        TimeBoostVaultState { locked, ..self }
    }

    /// The state in which `new_owner` was proposed.
    pub open spec fn ownership_proposed(self, new_owner: Address) -> Self {
        TimeBoostVaultState { pending_owner: new_owner, ..self }
    }

    /// The state in which the proposed owner took over.
    pub open spec fn ownership_accepted(self) -> Self {
        TimeBoostVaultState {
            owner: self.pending_owner,
            pending_owner: Address::spec_zero(),
            ..self
        }
    }

    /// The state that is suspended, or not.
    pub open spec fn with_pause(self, paused: bool) -> Self {
        TimeBoostVaultState { paused, ..self }
    }

    /// Why a call that only the owner may make is refused.
    pub open spec fn owner_refusal(self, msg: Message) -> Option<&'static str> {
        if msg.sender != self.owner {
            Some("not owner")
        } else {
            None
        }
    }

    /// Why a call that only the owner or the agent may make is refused.
    pub open spec fn agent_refusal(self, msg: Message) -> Option<&'static str> {
        if msg.sender != self.owner && msg.sender != self.bid_agent {
            Some("not authorized")
        } else {
            None
        }
    }

    /// Why `record_round_win` is refused.
    pub open spec fn round_win_refusal(self, msg: Message, bid_cost_wei: U256) -> Option<
        &'static str,
    > {
        if msg.sender != self.owner && msg.sender != self.bid_agent {
            Some("not authorized")
        } else if self.total_bid_cost@ + bid_cost_wei@ >= modulus() {
            Some("arithmetic overflow")
        } else {
            None
        }
    }

    /// Why a call that only works while nothing is suspended is refused.
    pub open spec fn pause_refusal(self) -> Option<&'static str> {
        if self.paused {
            Some("paused")
        } else {
            None
        }
    }

    /// Why a call that transfers tokens is refused.
    pub open spec fn lock_refusal(self) -> Option<&'static str> {
        if self.locked {
            Some("reentrancy")
        } else {
            None
        }
    }

    /// Why `initialize` is refused.
    pub open spec fn initialize_refusal(self) -> Option<&'static str> {
        if self.owner != Address::spec_zero() {
            Some("already initialized")
        } else {
            None
        }
    }

    /// Why `deposit_usdc` is refused.
    pub open spec fn deposit_usdc_refusal(self) -> Option<&'static str> {
        if self.paused {
            Some("paused")
        } else if self.locked {
            Some("reentrancy")
        } else {
            None
        }
    }

    /// Why `purchase_express_lane_access` is refused.
    pub open spec fn purchase_refusal(self) -> Option<&'static str> {
        if self.paused {
            Some("paused")
        } else if !self.is_express_lane_controller {
            Some("not controlling express lane")
        } else if self.locked {
            Some("reentrancy")
        } else if self.total_resale_earnings@ + self.resale_price_usdc@ >= modulus() {
            Some("arithmetic overflow")
        } else {
            None
        }
    }

    /// Why `set_resale_price` is refused.
    pub open spec fn set_resale_price_refusal(self, msg: Message, new_price: U256) -> Option<
        &'static str,
    > {
        if msg.sender != self.owner {
            Some("not owner")
        } else if new_price@ == 0 {
            Some("price cannot be zero")
        } else {
            None
        }
    }

    /// Why `withdraw_usdc` is refused.
    pub open spec fn withdraw_usdc_refusal(self, msg: Message) -> Option<&'static str> {
        if msg.sender != self.owner {
            Some("not owner")
        } else if self.locked {
            Some("reentrancy")
        } else {
            None
        }
    }

    /// Why `transfer_ownership` is refused.
    pub open spec fn transfer_ownership_refusal(self, msg: Message, new_owner: Address) -> Option<
        &'static str,
    > {
        if msg.sender != self.owner {
            Some("not owner")
        } else if new_owner == Address::spec_zero() {
            Some("zero address")
        } else {
            None
        }
    }

    /// Why `accept_ownership` is refused.
    pub open spec fn accept_ownership_refusal(self, msg: Message) -> Option<&'static str> {
        if msg.sender != self.pending_owner {
            Some("not pending owner")
        } else {
            None
        }
    }

    /// Why `pause` is refused.
    pub open spec fn pausing_refusal(self, msg: Message) -> Option<&'static str> {
        if msg.sender != self.owner {
            Some("not owner")
        } else if self.paused {
            Some("already paused")
        } else {
            None
        }
    }

    /// Why `unpause` is refused.
    pub open spec fn unpausing_refusal(self, msg: Message) -> Option<&'static str> {
        if msg.sender != self.owner {
            Some("not owner")
        } else if !self.paused {
            Some("not paused")
        } else {
            None
        }
    }
}

impl View for TimeBoostVault {
    type V = TimeBoostVaultState;

    open spec fn view(&self) -> TimeBoostVaultState {
        TimeBoostVaultState {
            owner: self.owner,
            pending_owner: self.pending_owner,
            usdc: self.usdc,
            bid_agent: self.bid_agent,
            resale_price_usdc: self.resale_price_usdc,
            is_express_lane_controller: self.is_express_lane_controller,
            current_round: self.current_round,
            total_resale_earnings: self.total_resale_earnings,
            total_bid_cost: self.total_bid_cost,
            round_authorized_buyers: self.round_authorized_buyers@,
            locked: self.locked,
            paused: self.paused,
        }
    }
}

impl TimeBoostVault {
    /// A vault that was just deployed.
    pub fn new() -> (r: Self)
        ensures
            r@ == (TimeBoostVaultState {
                owner: Address::spec_zero(),
                pending_owner: Address::spec_zero(),
                usdc: Address::spec_zero(),
                bid_agent: Address::spec_zero(),
                resale_price_usdc: word(0),
                is_express_lane_controller: false,
                current_round: word(0),
                total_resale_earnings: word(0),
                total_bid_cost: word(0),
                round_authorized_buyers: Map::new(|k: RoundBuyer| true, |k: RoundBuyer| false),
                locked: false,
                paused: false,
            }),
            r@.inv(),
            r@.books_match(seq![]),
    {
        assert(logged_costs(seq![]) == 0 && logged_earnings(seq![]) == 0);
        TimeBoostVault {
            owner: Address::zero(),
            pending_owner: Address::zero(),
            usdc: Address::zero(),
            bid_agent: Address::zero(),
            resale_price_usdc: U256::zero(),
            is_express_lane_controller: false,
            current_round: U256::zero(),
            total_resale_earnings: U256::zero(),
            total_bid_cost: U256::zero(),
            round_authorized_buyers: Mapping::new(false),
            locked: false,
            paused: false,
        }
    }

    /// Refuses a caller who is not the owner.
    fn only_owner(&self, msg: &Message) -> (r: Result<(), Vec<u8>>)
        ensures
            match self@.owner_refusal(*msg) {
                Some(reason) => refused(r, reason),
                None => r is Ok,
            },
    {
        if msg.sender != self.owner {
            return Err(revert_data("not owner"));
        }
        Ok(())
    }

    /// Refuses a caller who is neither the owner nor the agent.
    fn only_agent(&self, msg: &Message) -> (r: Result<(), Vec<u8>>)
        ensures
            match self@.agent_refusal(*msg) {
                Some(reason) => refused(r, reason),
                None => r is Ok,
            },
    {
        let sender = msg.sender;
        if sender != self.owner && sender != self.bid_agent {
            return Err(revert_data("not authorized"));
        }
        Ok(())
    }

    /// Refuses every call while the vault is paused.
    fn when_not_paused(&self) -> (r: Result<(), Vec<u8>>)
        ensures
            match self@.pause_refusal() {
                Some(reason) => refused(r, reason),
                None => r is Ok,
            },
    {
        if self.paused {
            return Err(revert_data("paused"));
        }
        Ok(())
    }

    /// Refuses every call while a token transfer is under way.
    fn when_not_locked(&self) -> (r: Result<(), Vec<u8>>)
        ensures
            match self@.lock_refusal() {
                Some(reason) => refused(r, reason),
                None => r is Ok,
            },
    {
        if self.locked {
            return Err(revert_data("reentrancy"));
        }
        Ok(())
    }

    /// Takes the lock, unless it is taken.
    fn reentrancy_lock(&mut self) -> (r: Result<(), Vec<u8>>)
        ensures
            match old(self)@.lock_refusal() {
                Some(reason) => refused(r, reason) && final(self)@ == old(self)@,
                None => r is Ok && final(self)@ == old(self)@.with_lock(true),
            },
    {
        if let Err(e) = self.when_not_locked() {
            return Err(e);
        }
        self.locked = true;
        Ok(())
    }

    /// Gives the lock back.
    fn reentrancy_unlock(&mut self)
        ensures
            final(self)@ == old(self)@.with_lock(false),
    {
        self.locked = false;
    }

    /// Makes the caller the owner and sets the token, the agent and the price.
    pub fn initialize(
        &mut self,
        msg: &Message,
        usdc: Address,
        bid_agent: Address,
        resale_price_usdc: U256,
    ) -> (r: Result<(), Vec<u8>>)
        ensures
            match old(self)@.initialize_refusal() {
                Some(reason) => refused(r, reason) && final(self)@ == old(self)@,
                None => r is Ok && final(self)@ == (TimeBoostVaultState {
                    owner: msg.sender,
                    usdc,
                    bid_agent,
                    resale_price_usdc,
                    ..old(self)@
                }),
            },
            old(self)@.inv() && msg.sender != Address::spec_zero() ==> final(self)@.inv(),
            msg.sender != Address::spec_zero() ==> old(self)@.precedes(final(self)@),
            forall|log: Seq<VaultEvent>|
                old(self)@.books_match(log) ==> #[trigger] final(self)@.books_match(log),
    {
        if self.owner != Address::zero() {
            return Err(revert_data("already initialized"));
        }
        self.owner = msg.sender;
        self.usdc = usdc;
        self.bid_agent = bid_agent;
        self.resale_price_usdc = resale_price_usdc;
        Ok(())
    }

    /// Takes the ether that came with the call as bidding capital.
    pub fn deposit_eth(&mut self, msg: &Message, log: &mut Vec<VaultEvent>) -> (r: Result<
        (),
        Vec<u8>,
    >)
        ensures
            final(self)@ == old(self)@,
            match old(self)@.pause_refusal() {
                Some(reason) => refused(r, reason) && final(log)@ == old(log)@,
                None => r is Ok && final(log)@ == old(log)@.push(
                    VaultEvent::Deposited { from: msg.sender, amount: msg.value, is_eth: true },
                ),
            },
            old(self)@.books_match(old(log)@) ==> final(self)@.books_match(final(log)@),
    {
        if let Err(e) = self.when_not_paused() {
            return Err(e);
        }
        log.push(
            VaultEvent::Deposited { from: msg.sender, amount: msg.value, is_eth: true },
        );
        Ok(())
    }

    /// Begins [`Self::deposit_usdc`]: takes the lock and says what to transfer.
    pub fn begin_deposit_usdc(&mut self, msg: &Message, amount: U256) -> (r: Result<
        VaultCall,
        Vec<u8>,
    >)
        ensures
            match old(self)@.deposit_usdc_refusal() {
                Some(reason) => refused(r, reason) && final(self)@ == old(self)@,
                None => {
                    &&& r == Ok::<VaultCall, Vec<u8>>(
                        VaultCall::TransferFrom {
                            token: old(self)@.usdc,
                            from: msg.sender,
                            to: msg.contract_address,
                            amount,
                        },
                    )
                    &&& final(self)@ == old(self)@.with_lock(true)
                },
            },
            old(self)@.inv() && msg.sender != Address::spec_zero() ==> final(self)@.inv(),
            msg.sender != Address::spec_zero() ==> old(self)@.precedes(final(self)@),
    {
        if let Err(e) = self.when_not_paused() {
            return Err(e);
        }
        if let Err(e) = self.reentrancy_lock() {
            return Err(e);
        }
        Ok(
            VaultCall::TransferFrom {
                token: self.usdc,
                from: msg.sender,
                to: msg.contract_address,
                amount,
            },
        )
    }

    /// Finishes [`Self::deposit_usdc`] once the transfer was tried.
    pub fn finish_deposit_usdc(
        &mut self,
        msg: &Message,
        log: &mut Vec<VaultEvent>,
        amount: U256,
        reply: Result<bool, Vec<u8>>,
    ) -> (r: Result<(), Vec<u8>>)
        ensures
            match reply {
                Err(data) => {
                    &&& r == Err::<(), Vec<u8>>(data)
                    &&& final(self)@ == old(self)@
                    &&& final(log)@ == old(log)@
                },
                Ok(_) => {
                    &&& r is Ok
                    &&& final(self)@ == old(self)@.with_lock(false)
                    &&& final(log)@ == old(log)@.push(
                        VaultEvent::Deposited { from: msg.sender, amount, is_eth: false },
                    )
                },
            },
            old(self)@.inv() && msg.sender != Address::spec_zero() ==> final(self)@.inv(),
            msg.sender != Address::spec_zero() ==> old(self)@.precedes(final(self)@),
    {
        if let Err(data) = reply {
            return Err(data);
        }
        self.reentrancy_unlock();
        log.push(VaultEvent::Deposited { from: msg.sender, amount, is_eth: false });
        Ok(())
    }

    /// Takes tokens of the caller; `reply` is how the transfer went.  When it
    /// failed the lock stays taken: the error makes the host discard the call.
    pub fn deposit_usdc(
        &mut self,
        msg: &Message,
        log: &mut Vec<VaultEvent>,
        amount: U256,
        reply: Result<bool, Vec<u8>>,
    ) -> (r: Result<(), Vec<u8>>)
        ensures
            match old(self)@.deposit_usdc_refusal() {
                Some(reason) => refused(r, reason) && final(self)@ == old(self)@ && final(log)@
                    == old(log)@,
                None => match reply {
                    Err(data) => {
                        &&& r == Err::<(), Vec<u8>>(data)
                        &&& final(self)@ == old(self)@.with_lock(true)
                        &&& final(log)@ == old(log)@
                    },
                    Ok(_) => {
                        &&& r is Ok
                        &&& final(self)@ == old(self)@
                        &&& final(log)@ == old(log)@.push(
                            VaultEvent::Deposited { from: msg.sender, amount, is_eth: false },
                        )
                    },
                },
            },
            old(self)@.inv() && msg.sender != Address::spec_zero() ==> final(self)@.inv(),
            msg.sender != Address::spec_zero() ==> old(self)@.precedes(final(self)@),
            old(self)@.books_match(old(log)@) ==> final(self)@.books_match(final(log)@),
    {
        if let Err(e) = self.begin_deposit_usdc(msg, amount) {
            return Err(e);
        }
        self.finish_deposit_usdc(msg, log, amount, reply)
    }

    /// Records that a round was won: the vault holds the express lane.
    pub fn record_round_win(
        &mut self,
        msg: &Message,
        log: &mut Vec<VaultEvent>,
        round: U256,
        bid_cost_wei: U256,
    ) -> (r: Result<(), Vec<u8>>)
        ensures
            match old(self)@.round_win_refusal(*msg, bid_cost_wei) {
                Some(reason) => refused(r, reason) && final(self)@ == old(self)@ && final(log)@
                    == old(log)@,
                None => {
                    &&& r is Ok
                    &&& final(self)@ == (TimeBoostVaultState {
                        is_express_lane_controller: true,
                        current_round: round,
                        total_bid_cost: word(old(self)@.total_bid_cost@ + bid_cost_wei@),
                        ..old(self)@
                    })
                    &&& final(log)@ == old(log)@.push(
                        VaultEvent::RoundWon { round, bid_cost: bid_cost_wei },
                    )
                },
            },
            old(self)@.inv() && msg.sender != Address::spec_zero() ==> final(self)@.inv(),
            msg.sender != Address::spec_zero() ==> old(self)@.precedes(final(self)@),
            old(self)@.books_match(old(log)@) ==> final(self)@.books_match(final(log)@),
    {
        if let Err(e) = self.only_agent(msg) {
            return Err(e);
        }
        let total_bid_cost = match self.total_bid_cost.checked_add(bid_cost_wei) {
            Some(total) => total,
            None => {
                return Err(revert_data("arithmetic overflow"));
            },
        };
        self.is_express_lane_controller = true;
        self.current_round = round;
        self.total_bid_cost = total_bid_cost;
        log.push(VaultEvent::RoundWon { round, bid_cost: bid_cost_wei });
        Ok(())
    }

    /// Records that the round is over: the vault holds the express lane no more.
    pub fn end_round(&mut self, msg: &Message) -> (r: Result<(), Vec<u8>>)
        ensures
            match old(self)@.agent_refusal(*msg) {
                Some(reason) => refused(r, reason) && final(self)@ == old(self)@,
                None => r is Ok && final(self)@ == (TimeBoostVaultState {
                    is_express_lane_controller: false,
                    ..old(self)@
                }),
            },
            old(self)@.inv() && msg.sender != Address::spec_zero() ==> final(self)@.inv(),
            msg.sender != Address::spec_zero() ==> old(self)@.precedes(final(self)@),
            forall|log: Seq<VaultEvent>|
                old(self)@.books_match(log) ==> #[trigger] final(self)@.books_match(log),
    {
        if let Err(e) = self.only_agent(msg) {
            return Err(e);
        }
        self.is_express_lane_controller = false;
        Ok(())
    }

    /// Begins [`Self::purchase_express_lane_access`]: takes the lock, books the
    /// purchase and says what to transfer.
    pub fn begin_purchase(&mut self, msg: &Message) -> (r: Result<(Purchase, VaultCall), Vec<u8>>)
        ensures
            match old(self)@.purchase_refusal() {
                Some(reason) => refused(r, reason) && final(self)@ == old(self)@,
                None => {
                    &&& r == Ok::<(Purchase, VaultCall), Vec<u8>>(
                        (
                            old(self)@.purchase(*msg),
                            VaultCall::TransferFrom {
                                token: old(self)@.usdc,
                                from: msg.sender,
                                to: msg.contract_address,
                                amount: old(self)@.resale_price_usdc,
                            },
                        ),
                    )
                    &&& final(self)@ == old(self)@.booked(old(self)@.purchase(*msg)).with_lock(true)
                },
            },
            old(self)@.inv() && msg.sender != Address::spec_zero() ==> final(self)@.inv(),
            msg.sender != Address::spec_zero() ==> old(self)@.precedes(final(self)@),
    {
        if let Err(e) = self.when_not_paused() {
            return Err(e);
        }
        if !self.is_express_lane_controller {
            return Err(revert_data("not controlling express lane"));
        }
        if let Err(e) = self.when_not_locked() {
            return Err(e);
        }
        let price = self.resale_price_usdc;
        let prev_earnings = self.total_resale_earnings;
        let earnings = match prev_earnings.checked_add(price) {
            Some(total) => total,
            None => {
                return Err(revert_data("arithmetic overflow"));
            },
        };
        self.locked = true;
        let sender = msg.sender;
        let slot = RoundBuyer { round: self.current_round, buyer: sender };
        let prev_authorized = self.round_authorized_buyers.get(slot);
        self.round_authorized_buyers.set(slot, true);
        self.total_resale_earnings = earnings;
        Ok(
            (
                Purchase { slot, price, prev_earnings, prev_authorized },
                VaultCall::TransferFrom {
                    token: self.usdc,
                    from: sender,
                    to: msg.contract_address,
                    amount: price,
                },
            ),
        )
    }

    /// Finishes [`Self::purchase_express_lane_access`] once the transfer was tried:
    /// where it failed, the purchase is taken back.
    pub fn finish_purchase(
        &mut self,
        log: &mut Vec<VaultEvent>,
        purchase: Purchase,
        reply: Result<bool, Vec<u8>>,
    ) -> (r: Result<(), Vec<u8>>)
        ensures
            match reply {
                Err(_) => {
                    &&& refused(r, "usdc transfer failed")
                    &&& final(self)@ == old(self)@.unbooked(purchase).with_lock(false)
                    &&& final(log)@ == old(log)@
                },
                Ok(_) => {
                    &&& r is Ok
                    &&& final(self)@ == old(self)@.with_lock(false)
                    &&& final(log)@ == old(log)@.push(
                        VaultEvent::ResalePurchased {
                            buyer: purchase.slot.buyer,
                            price_paid: purchase.price,
                            round: purchase.slot.round,
                        },
                    )
                },
            },
            old(self)@.inv() ==> final(self)@.inv(),
            old(self)@.precedes(final(self)@),
    {
        if reply.is_err() {
            self.round_authorized_buyers.set(purchase.slot, purchase.prev_authorized);
            self.total_resale_earnings = purchase.prev_earnings;
            self.reentrancy_unlock();
            return Err(revert_data("usdc transfer failed"));
        }
        self.reentrancy_unlock();
        log.push(
            VaultEvent::ResalePurchased {
                buyer: purchase.slot.buyer,
                price_paid: purchase.price,
                round: purchase.slot.round,
            },
        );
        Ok(())
    }

    /// Sells the caller access to the express lane for the current round; `reply`
    /// is how the payment went.  A buyer may buy more than once in a round; a purchase
    /// whose payment failed leaves the vault as it was.
    pub fn purchase_express_lane_access(
        &mut self,
        msg: &Message,
        log: &mut Vec<VaultEvent>,
        reply: Result<bool, Vec<u8>>,
    ) -> (r: Result<(), Vec<u8>>)
        ensures
            match old(self)@.purchase_refusal() {
                Some(reason) => refused(r, reason) && final(self)@ == old(self)@ && final(log)@
                    == old(log)@,
                None => {
                    let purchase = old(self)@.purchase(*msg);
                    match reply {
                        Err(_) => {
                            &&& refused(r, "usdc transfer failed")
                            &&& final(self)@ == old(self)@
                            &&& final(log)@ == old(log)@
                        },
                        Ok(_) => {
                            &&& r is Ok
                            &&& final(self)@ == old(self)@.booked(purchase)
                            &&& final(log)@ == old(log)@.push(
                                VaultEvent::ResalePurchased {
                                    buyer: msg.sender,
                                    price_paid: old(self)@.resale_price_usdc,
                                    round: old(self)@.current_round,
                                },
                            )
                        },
                    }
                },
            },
            old(self)@.inv() && msg.sender != Address::spec_zero() ==> final(self)@.inv(),
            msg.sender != Address::spec_zero() ==> old(self)@.precedes(final(self)@),
            old(self)@.books_match(old(log)@) ==> final(self)@.books_match(final(log)@),
            old(self)@.total_resale_earnings@ <= final(self)@.total_resale_earnings@,
            r is Ok <==> !old(self).paused && !old(self).locked
                && old(self).is_express_lane_controller && old(self).total_resale_earnings@
                + old(self).resale_price_usdc@ < modulus() && reply is Ok,
            r is Ok ==> {
                &&& final(self).round_authorized_buyers@[RoundBuyer {
                    round: old(self).current_round,
                    buyer: msg.sender,
                }]
                &&& final(self).total_resale_earnings@ == old(self).total_resale_earnings@
                    + old(self).resale_price_usdc@
            },
    {
        let (purchase, _call) = match self.begin_purchase(msg) {
            Ok(begun) => begun,
            Err(e) => {
                return Err(e);
            },
        };
        let r = self.finish_purchase(log, purchase, reply);
        proof {
            let buyers = old(self)@.round_authorized_buyers;
            assert(buyers.insert(purchase.slot, true).insert(purchase.slot, buyers[purchase.slot])
                =~= buyers);
        }
        r
    }

    /// Whether `buyer` bought access for the round that was won last.
    pub fn is_authorized_buyer(&self, buyer: Address) -> (r: bool)
        ensures
            r == self@.round_authorized_buyers[self@.slot(buyer)],
    {
        self.round_authorized_buyers.get(RoundBuyer { round: self.current_round, buyer })
    }

    /// What to ask before [`Self::get_stats`] can answer.
    pub fn balance_query(&self, msg: &Message) -> (r: VaultCall)
        ensures
            r == (VaultCall::BalanceOf { token: self@.usdc, account: msg.contract_address }),
    {
        VaultCall::BalanceOf { token: self.usdc, account: msg.contract_address }
    }

    /// The ether and the tokens that the vault holds, what it earned, what it spent
    /// and whether it holds the express lane.
    pub fn get_stats(&self, eth_balance: U256, usdc_balance: Result<U256, Vec<u8>>) -> (r: Result<
        (U256, U256, U256, U256, bool),
        Vec<u8>,
    >)
        ensures
            match usdc_balance {
                Err(data) => r == Err::<(U256, U256, U256, U256, bool), Vec<u8>>(data),
                Ok(usdc) => r == Ok::<(U256, U256, U256, U256, bool), Vec<u8>>(
                    (
                        eth_balance,
                        usdc,
                        self@.total_resale_earnings,
                        self@.total_bid_cost,
                        self@.is_express_lane_controller,
                    ),
                ),
            },
    {
        match usdc_balance {
            Err(data) => Err(data),
            Ok(usdc) => Ok(
                (
                    eth_balance,
                    usdc,
                    self.total_resale_earnings,
                    self.total_bid_cost,
                    self.is_express_lane_controller,
                ),
            ),
        }
    }

    /// Sets the price of access for a round.
    pub fn set_resale_price(
        &mut self,
        msg: &Message,
        log: &mut Vec<VaultEvent>,
        new_price: U256,
    ) -> (r: Result<(), Vec<u8>>)
        ensures
            match old(self)@.set_resale_price_refusal(*msg, new_price) {
                Some(reason) => refused(r, reason) && final(self)@ == old(self)@ && final(log)@
                    == old(log)@,
                None => {
                    &&& r is Ok
                    &&& final(self)@ == (TimeBoostVaultState {
                        resale_price_usdc: new_price,
                        ..old(self)@
                    })
                    &&& final(log)@ == old(log)@.push(
                        VaultEvent::ResalePriceUpdated {
                            old_price: old(self)@.resale_price_usdc,
                            new_price,
                        },
                    )
                },
            },
            old(self)@.inv() && msg.sender != Address::spec_zero() ==> final(self)@.inv(),
            msg.sender != Address::spec_zero() ==> old(self)@.precedes(final(self)@),
            old(self)@.books_match(old(log)@) ==> final(self)@.books_match(final(log)@),
    {
        if let Err(e) = self.only_owner(msg) {
            return Err(e);
        }
        if new_price == U256::zero() {
            return Err(revert_data("price cannot be zero"));
        }
        let old_price = self.resale_price_usdc;
        self.resale_price_usdc = new_price;
        log.push(VaultEvent::ResalePriceUpdated { old_price, new_price });
        Ok(())
    }

    /// Begins [`Self::withdraw_eth`]: says what to send.
    pub fn begin_withdraw_eth(&self, msg: &Message, amount: U256) -> (r: Result<
        VaultCall,
        Vec<u8>,
    >)
        ensures
            match self@.owner_refusal(*msg) {
                Some(reason) => refused(r, reason),
                None => r == Ok::<VaultCall, Vec<u8>>(
                    VaultCall::SendEth { to: msg.sender, amount },
                ),
            },
    {
        if let Err(e) = self.only_owner(msg) {
            return Err(e);
        }
        Ok(VaultCall::SendEth { to: msg.sender, amount })
    }

    /// Finishes [`Self::withdraw_eth`] once the ether was sent, or not.
    pub fn finish_withdraw_eth(
        &self,
        msg: &Message,
        log: &mut Vec<VaultEvent>,
        amount: U256,
        reply: Result<(), Vec<u8>>,
    ) -> (r: Result<(), Vec<u8>>)
        ensures
            match reply {
                Err(data) => r == Err::<(), Vec<u8>>(data) && final(log)@ == old(log)@,
                Ok(_) => r is Ok && final(log)@ == old(log)@.push(
                    VaultEvent::Withdrawn { to: msg.sender, amount, is_eth: true },
                ),
            },
    {
        if let Err(data) = reply {
            return Err(data);
        }
        log.push(VaultEvent::Withdrawn { to: msg.sender, amount, is_eth: true });
        Ok(())
    }

    /// Sends ether to the owner; `reply` is how that went.
    pub fn withdraw_eth(
        &mut self,
        msg: &Message,
        log: &mut Vec<VaultEvent>,
        amount: U256,
        reply: Result<(), Vec<u8>>,
    ) -> (r: Result<(), Vec<u8>>)
        ensures
            final(self)@ == old(self)@,
            match old(self)@.owner_refusal(*msg) {
                Some(reason) => refused(r, reason) && final(log)@ == old(log)@,
                None => match reply {
                    Err(data) => r == Err::<(), Vec<u8>>(data) && final(log)@ == old(log)@,
                    Ok(_) => r is Ok && final(log)@ == old(log)@.push(
                        VaultEvent::Withdrawn { to: msg.sender, amount, is_eth: true },
                    ),
                },
            },
            old(self)@.books_match(old(log)@) ==> final(self)@.books_match(final(log)@),
    {
        if let Err(e) = self.begin_withdraw_eth(msg, amount) {
            return Err(e);
        }
        self.finish_withdraw_eth(msg, log, amount, reply)
    }

    /// Begins [`Self::withdraw_usdc`]: takes the lock and says what to transfer.
    pub fn begin_withdraw_usdc(&mut self, msg: &Message, amount: U256) -> (r: Result<
        VaultCall,
        Vec<u8>,
    >)
        ensures
            match old(self)@.withdraw_usdc_refusal(*msg) {
                Some(reason) => refused(r, reason) && final(self)@ == old(self)@,
                None => {
                    &&& r == Ok::<VaultCall, Vec<u8>>(
                        VaultCall::Transfer { token: old(self)@.usdc, to: msg.sender, amount },
                    )
                    &&& final(self)@ == old(self)@.with_lock(true)
                },
            },
            old(self)@.inv() && msg.sender != Address::spec_zero() ==> final(self)@.inv(),
            msg.sender != Address::spec_zero() ==> old(self)@.precedes(final(self)@),
    {
        if let Err(e) = self.only_owner(msg) {
            return Err(e);
        }
        if let Err(e) = self.reentrancy_lock() {
            return Err(e);
        }
        Ok(VaultCall::Transfer { token: self.usdc, to: msg.sender, amount })
    }

    /// Finishes [`Self::withdraw_usdc`] once the transfer was tried.
    pub fn finish_withdraw_usdc(
        &mut self,
        msg: &Message,
        log: &mut Vec<VaultEvent>,
        amount: U256,
        reply: Result<bool, Vec<u8>>,
    ) -> (r: Result<(), Vec<u8>>)
        ensures
            match reply {
                Err(data) => {
                    &&& r == Err::<(), Vec<u8>>(data)
                    &&& final(self)@ == old(self)@
                    &&& final(log)@ == old(log)@
                },
                Ok(_) => {
                    &&& r is Ok
                    &&& final(self)@ == old(self)@.with_lock(false)
                    &&& final(log)@ == old(log)@.push(
                        VaultEvent::Withdrawn { to: msg.sender, amount, is_eth: false },
                    )
                },
            },
            old(self)@.inv() && msg.sender != Address::spec_zero() ==> final(self)@.inv(),
            msg.sender != Address::spec_zero() ==> old(self)@.precedes(final(self)@),
    {
        if let Err(data) = reply {
            return Err(data);
        }
        self.reentrancy_unlock();
        log.push(VaultEvent::Withdrawn { to: msg.sender, amount, is_eth: false });
        Ok(())
    }

    /// Sends tokens to the owner; `reply` is how the transfer went.  When it
    /// failed the lock stays taken: the error makes the host discard the call.
    pub fn withdraw_usdc(
        &mut self,
        msg: &Message,
        log: &mut Vec<VaultEvent>,
        amount: U256,
        reply: Result<bool, Vec<u8>>,
    ) -> (r: Result<(), Vec<u8>>)
        ensures
            match old(self)@.withdraw_usdc_refusal(*msg) {
                Some(reason) => refused(r, reason) && final(self)@ == old(self)@ && final(log)@
                    == old(log)@,
                None => match reply {
                    Err(data) => {
                        &&& r == Err::<(), Vec<u8>>(data)
                        &&& final(self)@ == old(self)@.with_lock(true)
                        &&& final(log)@ == old(log)@
                    },
                    Ok(_) => {
                        &&& r is Ok
                        &&& final(self)@ == old(self)@
                        &&& final(log)@ == old(log)@.push(
                            VaultEvent::Withdrawn { to: msg.sender, amount, is_eth: false },
                        )
                    },
                },
            },
            old(self)@.inv() && msg.sender != Address::spec_zero() ==> final(self)@.inv(),
            msg.sender != Address::spec_zero() ==> old(self)@.precedes(final(self)@),
            old(self)@.books_match(old(log)@) ==> final(self)@.books_match(final(log)@),
    {
        if let Err(e) = self.begin_withdraw_usdc(msg, amount) {
            return Err(e);
        }
        self.finish_withdraw_usdc(msg, log, amount, reply)
    }

    /// Proposes a new owner, who has to accept.
    pub fn transfer_ownership(
        &mut self,
        msg: &Message,
        log: &mut Vec<VaultEvent>,
        new_owner: Address,
    ) -> (r: Result<(), Vec<u8>>)
        ensures
            match old(self)@.transfer_ownership_refusal(*msg, new_owner) {
                Some(reason) => refused(r, reason) && final(self)@ == old(self)@ && final(log)@
                    == old(log)@,
                None => {
                    &&& r is Ok
                    &&& final(self)@ == old(self)@.ownership_proposed(new_owner)
                    &&& final(log)@ == old(log)@.push(
                        VaultEvent::OwnershipTransferStarted {
                            current_owner: old(self)@.owner,
                            pending_owner: new_owner,
                        },
                    )
                },
            },
            old(self)@.inv() && msg.sender != Address::spec_zero() ==> final(self)@.inv(),
            msg.sender != Address::spec_zero() ==> old(self)@.precedes(final(self)@),
            old(self)@.books_match(old(log)@) ==> final(self)@.books_match(final(log)@),
    {
        if let Err(e) = self.only_owner(msg) {
            return Err(e);
        }
        if new_owner == Address::zero() {
            return Err(revert_data("zero address"));
        }
        self.pending_owner = new_owner;
        log.push(
            VaultEvent::OwnershipTransferStarted {
                current_owner: self.owner,
                pending_owner: new_owner,
            },
        );
        Ok(())
    }

    /// Makes the proposed owner, who has to be the caller, the owner.
    pub fn accept_ownership(&mut self, msg: &Message, log: &mut Vec<VaultEvent>) -> (r: Result<
        (),
        Vec<u8>,
    >)
        ensures
            match old(self)@.accept_ownership_refusal(*msg) {
                Some(reason) => refused(r, reason) && final(self)@ == old(self)@ && final(log)@
                    == old(log)@,
                None => {
                    &&& r is Ok
                    &&& final(self)@ == old(self)@.ownership_accepted()
                    &&& final(log)@ == old(log)@.push(
                        VaultEvent::OwnershipTransferred {
                            previous_owner: old(self)@.owner,
                            new_owner: msg.sender,
                        },
                    )
                },
            },
            old(self)@.inv() && msg.sender != Address::spec_zero() ==> final(self)@.inv(),
            msg.sender != Address::spec_zero() ==> old(self)@.precedes(final(self)@),
            old(self)@.books_match(old(log)@) ==> final(self)@.books_match(final(log)@),
    {
        let sender = msg.sender;
        if sender != self.pending_owner {
            return Err(revert_data("not pending owner"));
        }
        let previous = self.owner;
        self.owner = sender;
        self.pending_owner = Address::zero();
        log.push(
            VaultEvent::OwnershipTransferred { previous_owner: previous, new_owner: sender },
        );
        Ok(())
    }

    /// Suspends deposits and sales.
    pub fn pause(&mut self, msg: &Message, log: &mut Vec<VaultEvent>) -> (r: Result<(), Vec<u8>>)
        ensures
            match old(self)@.pausing_refusal(*msg) {
                Some(reason) => refused(r, reason) && final(self)@ == old(self)@ && final(log)@
                    == old(log)@,
                None => {
                    &&& r is Ok
                    &&& final(self)@ == old(self)@.with_pause(true)
                    &&& final(log)@ == old(log)@.push(VaultEvent::Paused { by: msg.sender })
                },
            },
            old(self)@.inv() && msg.sender != Address::spec_zero() ==> final(self)@.inv(),
            msg.sender != Address::spec_zero() ==> old(self)@.precedes(final(self)@),
            old(self)@.books_match(old(log)@) ==> final(self)@.books_match(final(log)@),
    {
        if let Err(e) = self.only_owner(msg) {
            return Err(e);
        }
        if self.paused {
            return Err(revert_data("already paused"));
        }
        self.paused = true;
        log.push(VaultEvent::Paused { by: msg.sender });
        Ok(())
    }

    /// Resumes deposits and sales.
    pub fn unpause(&mut self, msg: &Message, log: &mut Vec<VaultEvent>) -> (r: Result<(), Vec<u8>>)
        ensures
            match old(self)@.unpausing_refusal(*msg) {
                Some(reason) => refused(r, reason) && final(self)@ == old(self)@ && final(log)@
                    == old(log)@,
                None => {
                    &&& r is Ok
                    &&& final(self)@ == old(self)@.with_pause(false)
                    &&& final(log)@ == old(log)@.push(VaultEvent::Unpaused { by: msg.sender })
                },
            },
            old(self)@.inv() && msg.sender != Address::spec_zero() ==> final(self)@.inv(),
            msg.sender != Address::spec_zero() ==> old(self)@.precedes(final(self)@),
            old(self)@.books_match(old(log)@) ==> final(self)@.books_match(final(log)@),
    {
        if let Err(e) = self.only_owner(msg) {
            return Err(e);
        }
        if !self.paused {
            return Err(revert_data("not paused"));
        }
        self.paused = false;
        log.push(VaultEvent::Unpaused { by: msg.sender });
        Ok(())
    }
}

/// What every call keeps is kept over any stretch of calls: a vault that was
/// initialized can never be initialized again and keeps its token and its agent, and
/// what was spent on bids never falls.
pub proof fn law_initialized_once(
    a: TimeBoostVaultState,
    b: TimeBoostVaultState,
    c: TimeBoostVaultState,
)
    requires
        a.precedes(b),
        b.precedes(c),
    ensures
        a.precedes(c),
        a.owner != Address::spec_zero() ==> c.initialize_refusal() == Some("already initialized"),
{
}

/// Ownership passes in two steps.  A proposal changes nothing for the owner; only
/// the proposed owner can accept it; then the new owner has every right and the old
/// one has none, and the proposal is used up.
pub proof fn law_ownership_passes_in_two_steps(
    s: TimeBoostVaultState,
    msg: Message,
    new_owner: Address,
    other: Message,
)
    requires
        s.transfer_ownership_refusal(msg, new_owner) is None,
    ensures
        s.ownership_proposed(new_owner).owner_refusal(other) == s.owner_refusal(other),
        s.ownership_proposed(new_owner).accept_ownership_refusal(other) is None <==> other.sender
            == new_owner,
        s.ownership_proposed(new_owner).ownership_accepted().owner_refusal(other) is None
            <==> other.sender == new_owner,
        other.sender != Address::spec_zero() ==> s.ownership_proposed(
            new_owner,
        ).ownership_accepted().accept_ownership_refusal(other) == Some("not pending owner"),
{
}

/// A paused vault takes no deposit and sells no access, but the owner can still
/// withdraw; resuming puts everything back as it was.
pub proof fn law_pause_suspends(s: TimeBoostVaultState, msg: Message)
    requires
        !s.paused,
    ensures
        s.with_pause(true).pause_refusal() == Some("paused"),
        s.with_pause(true).deposit_usdc_refusal() == Some("paused"),
        s.with_pause(true).purchase_refusal() == Some("paused"),
        s.with_pause(true).withdraw_usdc_refusal(msg) == s.withdraw_usdc_refusal(msg),
        s.with_pause(true).owner_refusal(msg) == s.owner_refusal(msg),
        s.with_pause(true).with_pause(false) == s,
{
}

/// While a token transfer is under way, every other call that would transfer tokens
/// is refused; giving the lock back puts everything back as it was.
pub proof fn law_lock_blocks_reentry(s: TimeBoostVaultState, msg: Message)
    requires
        !s.locked,
    ensures
        s.with_lock(true).deposit_usdc_refusal() is Some,
        s.with_lock(true).purchase_refusal() is Some,
        s.with_lock(true).withdraw_usdc_refusal(msg) is Some,
        s.deposit_usdc_refusal() is None ==> s.with_lock(true).deposit_usdc_refusal() == Some(
            "reentrancy",
        ),
        s.purchase_refusal() is None ==> s.with_lock(true).purchase_refusal() == Some(
            "reentrancy",
        ),
        s.withdraw_usdc_refusal(msg) is None ==> s.with_lock(true).withdraw_usdc_refusal(msg)
            == Some("reentrancy"),
        s.with_lock(true).with_lock(false) == s,
{
}

/// A purchase authorizes the buyer for the round it was made in and nobody else,
/// and no other round: once another round is won, it counts for nothing.
pub proof fn law_authorization_is_for_one_round(
    s: TimeBoostVaultState,
    msg: Message,
    round: U256,
    buyer: Address,
)
    ensures
        ({
            let sold = s.booked(s.purchase(msg));
            &&& sold.round_authorized_buyers[s.slot(msg.sender)]
            &&& RoundBuyer { round, buyer } != s.slot(msg.sender)
                ==> sold.round_authorized_buyers[RoundBuyer { round, buyer }]
                == s.round_authorized_buyers[RoundBuyer { round, buyer }]
            &&& round != s.current_round ==> {
                let next = TimeBoostVaultState { current_round: round, ..sold };
                next.round_authorized_buyers[next.slot(msg.sender)]
                    == s.round_authorized_buyers[RoundBuyer { round, buyer: msg.sender }]
            }
        }),
{
}

/// A purchase whose payment failed leaves the vault as it was: no earnings and, for a
/// buyer who had not bought access for the round before, no access either.
pub proof fn law_failed_purchase_leaves_no_trace(s: TimeBoostVaultState, msg: Message)
    requires
        s.round_authorized_buyers.dom().contains(s.slot(msg.sender)),
    ensures
        s.unbooked(s.purchase(msg)) == s,
        s.booked(s.purchase(msg)).unbooked(s.purchase(msg)) == s,
{
    let slot = s.slot(msg.sender);
    let buyers = s.round_authorized_buyers;
    assert(buyers.insert(slot, buyers[slot]) =~= buyers);
    assert(buyers.insert(slot, true).insert(slot, buyers[slot]) =~= buyers);
}

/// Buying twice in a round earns the price twice and changes the authorizations no
/// more than buying once.
pub proof fn law_purchases_add_up(s: TimeBoostVaultState, msg: Message)
    requires
        s.purchase_refusal() is None,
        s.booked(s.purchase(msg)).purchase_refusal() is None,
    ensures
        ({
            let once = s.booked(s.purchase(msg));
            let twice = once.booked(once.purchase(msg));
            &&& twice.total_resale_earnings@ == s.total_resale_earnings@ + 2
                * s.resale_price_usdc@
            &&& twice.round_authorized_buyers == once.round_authorized_buyers
        }),
{
    let once = s.booked(s.purchase(msg));
    let twice = once.booked(once.purchase(msg));
    assert(twice.round_authorized_buyers =~= once.round_authorized_buyers);
}

/// Access is only had against payment: in books that match the log, a buyer has
/// access for a round if and only if the log holds a purchase by that buyer for that
/// round.
pub proof fn law_access_is_paid_for(
    s: TimeBoostVaultState,
    log: Seq<VaultEvent>,
    slot: RoundBuyer,
)
    requires
        s.books_match(log),
    ensures
        s.round_authorized_buyers[slot] <==> exists|i: int|
            0 <= i < log.len() && is_purchase(#[trigger] log[i], slot),
{
    assert(s.round_authorized_buyers[slot] <==> logged_purchase(log, slot));
}

} // verus!
