//! The liquidation monitor: which accounts are close to being liquidated.

use crate::address::Address;
use crate::address_list::{first_place, is_first_place, remove_place, swap_removed};
use crate::call::{refused, revert_data, Message};
use crate::health::{
    health_outcome, health_queries, lowest_health, next_query, push_lending_queries,
    push_perp_queries, query_after, returns_outcome, HealthQuery, HealthReply,
};
use crate::registry::{
    addresses_nonzero, entry_at, keeps_entries, law_entries_are_kept_for_good, without, Entry,
    Registry,
};
use crate::word::{group_word, word, U256};
use vstd::prelude::*;

verus! {

broadcast use group_word;

/// How many accounts can be tracked.
pub const MAX_TRACKED_ACCOUNTS: usize = 500;

/// What the liquidation monitor reports.
#[derive(Clone, Copy, Debug, PartialEq, Eq)]
pub enum MonitorEvent {
    AccountAtRisk { account: Address, health_factor: U256, timestamp: U256 },
    AccountAdded { account: Address },
    AccountRemoved { account: Address },
    ThresholdUpdated { old_threshold: U256, new_threshold: U256 },
    LendingProtocolAdded { index: U256, pool_address: Address, protocol_type: u64 },
    LendingProtocolRemoved { index: U256, pool_address: Address },
    PerpProtocolAdded { index: U256, reader_address: Address, protocol_type: u64 },
    PerpProtocolRemoved { index: U256, reader_address: Address },
    OwnershipTransferStarted { current_owner: Address, pending_owner: Address },
    OwnershipTransferred { previous_owner: Address, new_owner: Address },
    Paused { by: Address },
    Unpaused { by: Address },
}

/// The liquidation monitor.
#[derive(Debug)]
pub struct LiquidationMonitor {
    /// Who runs the monitor; nobody before `initialize`.
    pub owner: Address,
    /// Who may take the monitor over; the zero address if nobody was proposed.
    pub pending_owner: Address,
    /// Whether scanning and tracking are suspended.
    pub paused: bool,
    /// The accounts that are scanned together.
    pub tracked_accounts: Vec<Address>,
    /// An account is at risk below this health factor.
    pub risk_threshold: U256,
    /// The lending protocols.
    pub lending: Registry,
    /// The perpetuals protocols.
    pub perps: Registry,
}

/// What a [`LiquidationMonitor`] holds.
pub struct LiquidationMonitorState {
    pub owner: Address,
    pub pending_owner: Address,
    pub paused: bool,
    pub tracked_accounts: Seq<Address>,
    pub risk_threshold: U256,
    pub lending: Seq<Entry>,
    pub perps: Seq<Entry>,
}

/// What the protocols answered about account number `i`.
pub open spec fn account_replies(replies: Seq<Vec<HealthReply>>, i: int) -> Seq<HealthReply> {
    if 0 <= i < replies.len() {
        replies[i]@
    } else {
        seq![]
    }
}

/// An event for each account at risk, in order.
pub open spec fn risk_events(at_risk: Seq<(Address, U256)>, msg: Message) -> Seq<MonitorEvent> {
    Seq::new(
        at_risk.len(),
        |i: int|
            MonitorEvent::AccountAtRisk {
                account: at_risk[i].0,
                health_factor: at_risk[i].1,
                timestamp: word(msg.timestamp as nat),
            },
    )
}

impl LiquidationMonitorState {
    /// What holds of every monitor that only ever answered calls from nonzero
    /// addresses: it is untouched until it has an owner, it tracks no more accounts
    /// than it may, and no registered protocol has the zero address.
    pub open spec fn inv(self) -> bool {
        &&& self.owner == Address::spec_zero() ==> {
            &&& self.pending_owner == Address::spec_zero()
            &&& !self.paused
            &&& self.tracked_accounts.len() == 0
            &&& self.lending.len() == 0
            &&& self.perps.len() == 0
        }
        &&& self.tracked_accounts.len() <= MAX_TRACKED_ACCOUNTS
        &&& addresses_nonzero(self.lending)
        &&& addresses_nonzero(self.perps)
    }

    /// What every call from a nonzero address keeps: a monitor that has an owner
    /// stays owned, and registered protocols keep their numbers.
    pub open spec fn precedes(self, later: Self) -> bool {
        &&& self.owner != Address::spec_zero() ==> later.owner != Address::spec_zero()
        &&& keeps_entries(self.lending, later.lending)
        &&& keeps_entries(self.perps, later.perps)
    }

    /// What the protocols are asked about `account`.
    pub open spec fn queries(self, account: Address) -> Seq<HealthQuery> {
        health_queries(self.lending, self.perps, account)
    }

    /// The health factor of account number `i`, as the answers give it.
    pub open spec fn account_outcome(
        self,
        accounts: Seq<Address>,
        replies: Seq<Vec<HealthReply>>,
        i: int,
    ) -> Result<U256, Seq<u8>> {
        health_outcome(self.queries(accounts[i]), account_replies(replies, i))
    }

    /// The accounts with a health factor below the threshold, each with its health
    /// factor, in the order of the accounts.
    pub open spec fn at_risk(self, accounts: Seq<Address>, replies: Seq<Vec<HealthReply>>) -> Seq<
        (Address, U256),
    >
        decreases accounts.len(),
    {
        if accounts.len() == 0 {
            seq![]
        } else {
            let before = self.at_risk(accounts.drop_last(), replies);
            match self.account_outcome(accounts, replies, accounts.len() - 1) {
                Ok(hf) => if hf@ < self.risk_threshold@ {
                    before.push((accounts.last(), hf))
                } else {
                    before
                },
                Err(_) => before,
            }
        }
    }

    /// The accounts without a health factor, in the order of the accounts.
    pub open spec fn failed(self, accounts: Seq<Address>, replies: Seq<Vec<HealthReply>>) -> Seq<
        Address,
    >
        decreases accounts.len(),
    {
        if accounts.len() == 0 {
            seq![]
        } else {
            let before = self.failed(accounts.drop_last(), replies);
            match self.account_outcome(accounts, replies, accounts.len() - 1) {
                Ok(_) => before,
                Err(_) => before.push(accounts.last()),
            }
        }
    }

    /// The state in which `new_owner` was proposed.
    pub open spec fn ownership_proposed(self, new_owner: Address) -> Self {
        LiquidationMonitorState { pending_owner: new_owner, ..self }
    }

    /// The state in which the proposed owner took over.
    pub open spec fn ownership_accepted(self) -> Self {
        LiquidationMonitorState {
            owner: self.pending_owner,
            pending_owner: Address::spec_zero(),
            ..self
        }
    }

    /// The state that is suspended, or not.
    pub open spec fn with_pause(self, paused: bool) -> Self {
        LiquidationMonitorState { paused, ..self }
    }

    /// Why a call that only the owner may make is refused.
    pub open spec fn owner_refusal(self, msg: Message) -> Option<&'static str> {
        if msg.sender != self.owner {
            Some("not owner")
        } else {
            None
        }
    }

    /// Why a call that only works while nothing is suspended is refused.
    pub open spec fn pause_refusal(self) -> Option<&'static str> {
        if self.paused {
            Some("contract is paused")
        } else {
            None
        }
    }

    /// Why `initialize` is refused.
    pub open spec fn initialize_refusal(self) -> Option<&'static str> {
        if self.owner != Address::spec_zero() {
            Some("already initialized")
        } else {
            None
        }
    }

    /// Why `transfer_ownership` is refused.
    pub open spec fn transfer_ownership_refusal(self, msg: Message, new_owner: Address) -> Option<
        &'static str,
    > {
        if msg.sender != self.owner {
            Some("not owner")
        } else if new_owner == Address::spec_zero() {
            Some("zero address")
        } else {
            None
        }
    }

    /// Why `accept_ownership` is refused.
    pub open spec fn accept_ownership_refusal(self, msg: Message) -> Option<&'static str> {
        if msg.sender != self.pending_owner {
            Some("not pending owner")
        } else {
            None
        }
    }

    /// Why `pause` is refused.
    pub open spec fn pausing_refusal(self, msg: Message) -> Option<&'static str> {
        if msg.sender != self.owner {
            Some("not owner")
        } else if self.paused {
            Some("already paused")
        } else {
            None
        }
    }

    /// Why `unpause` is refused.
    pub open spec fn unpausing_refusal(self, msg: Message) -> Option<&'static str> {
        if msg.sender != self.owner {
            Some("not owner")
        } else if !self.paused {
            Some("not paused")
        } else {
            None
        }
    }

    /// Why a protocol cannot be registered.
    pub open spec fn add_protocol_refusal(self, msg: Message, address: Address) -> Option<
        &'static str,
    > {
        if msg.sender != self.owner {
            Some("not owner")
        } else if address == Address::spec_zero() {
            Some("zero address")
        } else {
            None
        }
    }

    /// Why a protocol cannot be taken out of `entries`.
    pub open spec fn remove_protocol_refusal(
        self,
        msg: Message,
        entries: Seq<Entry>,
        index: U256,
    ) -> Option<&'static str> {
        if msg.sender != self.owner {
            Some("not owner")
        } else if index@ >= entries.len() {
            Some("index out of bounds")
        } else if !entries[index@ as int].active {
            Some("protocol already removed")
        } else {
            None
        }
    }

    /// Why `add_account` is refused.
    pub open spec fn add_account_refusal(self, msg: Message) -> Option<&'static str> {
        if msg.sender != self.owner {
            Some("not owner")
        } else if self.paused {
            Some("contract is paused")
        } else if self.tracked_accounts.len() >= MAX_TRACKED_ACCOUNTS {
            Some("max tracked accounts reached")
        } else {
            None
        }
    }

    /// Why `remove_account` is refused.
    pub open spec fn remove_account_refusal(self, msg: Message, account: Address) -> Option<
        &'static str,
    > {
        if msg.sender != self.owner {
            Some("not owner")
        } else if !self.tracked_accounts.contains(account) {
            Some("account not found")
        } else {
            None
        }
    }
}

impl View for LiquidationMonitor {
    type V = LiquidationMonitorState;

    open spec fn view(&self) -> LiquidationMonitorState {
        LiquidationMonitorState {
            owner: self.owner,
            pending_owner: self.pending_owner,
            paused: self.paused,
            tracked_accounts: self.tracked_accounts@,
            risk_threshold: self.risk_threshold,
            lending: self.lending@,
            perps: self.perps@,
        }
    }
}

impl LiquidationMonitor {
    /// A monitor that was just deployed.
    pub fn new() -> (r: Self)
        ensures
            r@ == (LiquidationMonitorState {
                owner: Address::spec_zero(),
                pending_owner: Address::spec_zero(),
                paused: false,
                tracked_accounts: seq![],
                risk_threshold: word(0),
                lending: seq![],
                perps: seq![],
            }),
            r@.inv(),
    {
        LiquidationMonitor {
            owner: Address::zero(),
            pending_owner: Address::zero(),
            paused: false,
            tracked_accounts: Vec::new(),
            risk_threshold: U256::zero(),
            lending: Registry::new(),
            perps: Registry::new(),
        }
    }

    /// Refuses a caller who is not the owner.
    fn only_owner(&self, msg: &Message) -> (r: Result<(), Vec<u8>>)
        ensures
            match self@.owner_refusal(*msg) {
                Some(reason) => refused(r, reason),
                None => r is Ok,
            },
    {
        if msg.sender != self.owner {
            return Err(revert_data("not owner"));
        }
        Ok(())
    }

    /// Refuses every call while the monitor is paused.
    fn when_not_paused(&self) -> (r: Result<(), Vec<u8>>)
        ensures
            match self@.pause_refusal() {
                Some(reason) => refused(r, reason),
                None => r is Ok,
            },
    {
        if self.paused {
            return Err(revert_data("contract is paused"));
        }
        Ok(())
    }

    /// Makes the caller the owner and sets the threshold.
    pub fn initialize(&mut self, msg: &Message, risk_threshold: U256) -> (r: Result<(), Vec<u8>>)
        ensures
            match old(self)@.initialize_refusal() {
                Some(reason) => refused(r, reason) && final(self)@ == old(self)@,
                None => r is Ok && final(self)@ == (LiquidationMonitorState {
                    owner: msg.sender,
                    risk_threshold,
                    ..old(self)@
                }),
            },
            old(self)@.inv() && msg.sender != Address::spec_zero() ==> final(self)@.inv(),
            msg.sender != Address::spec_zero() ==> old(self)@.precedes(final(self)@),
    {
        if self.owner != Address::zero() {
            return Err(revert_data("already initialized"));
        }
        self.owner = msg.sender;
        self.risk_threshold = risk_threshold;
        Ok(())
    }

    /// Proposes a new owner, who has to accept.
    pub fn transfer_ownership(
        &mut self,
        msg: &Message,
        log: &mut Vec<MonitorEvent>,
        new_owner: Address,
    ) -> (r: Result<(), Vec<u8>>)
        ensures
            match old(self)@.transfer_ownership_refusal(*msg, new_owner) {
                Some(reason) => refused(r, reason) && final(self)@ == old(self)@ && final(log)@
                    == old(log)@,
                None => {
                    &&& r is Ok
                    &&& final(self)@ == old(self)@.ownership_proposed(new_owner)
                    &&& final(log)@ == old(log)@.push(
                        MonitorEvent::OwnershipTransferStarted {
                            current_owner: old(self)@.owner,
                            pending_owner: new_owner,
                        },
                    )
                },
            },
            old(self)@.inv() && msg.sender != Address::spec_zero() ==> final(self)@.inv(),
            msg.sender != Address::spec_zero() ==> old(self)@.precedes(final(self)@),
    {
        if let Err(e) = self.only_owner(msg) {
            return Err(e);
        }
        if new_owner == Address::zero() {
            return Err(revert_data("zero address"));
        }
        self.pending_owner = new_owner;
        log.push(
            MonitorEvent::OwnershipTransferStarted {
                current_owner: self.owner,
                pending_owner: new_owner,
            },
        );
        Ok(())
    }

    /// Makes the proposed owner, who has to be the caller, the owner.
    pub fn accept_ownership(&mut self, msg: &Message, log: &mut Vec<MonitorEvent>) -> (r: Result<
        (),
        Vec<u8>,
    >)
        ensures
            match old(self)@.accept_ownership_refusal(*msg) {
                Some(reason) => refused(r, reason) && final(self)@ == old(self)@ && final(log)@
                    == old(log)@,
                None => {
                    &&& r is Ok
                    &&& final(self)@ == old(self)@.ownership_accepted()
                    &&& final(log)@ == old(log)@.push(
                        MonitorEvent::OwnershipTransferred {
                            previous_owner: old(self)@.owner,
                            new_owner: old(self)@.pending_owner,
                        },
                    )
                },
            },
            old(self)@.inv() && msg.sender != Address::spec_zero() ==> final(self)@.inv(),
            msg.sender != Address::spec_zero() ==> old(self)@.precedes(final(self)@),
    {
        let pending = self.pending_owner;
        if msg.sender != pending {
            return Err(revert_data("not pending owner"));
        }
        let previous = self.owner;
        self.owner = pending;
        self.pending_owner = Address::zero();
        log.push(
            MonitorEvent::OwnershipTransferred { previous_owner: previous, new_owner: pending },
        );
        Ok(())
    }

    /// Suspends scanning and tracking.
    pub fn pause(&mut self, msg: &Message, log: &mut Vec<MonitorEvent>) -> (r: Result<(), Vec<u8>>)
        ensures
            match old(self)@.pausing_refusal(*msg) {
                Some(reason) => refused(r, reason) && final(self)@ == old(self)@ && final(log)@
                    == old(log)@,
                None => {
                    &&& r is Ok
                    &&& final(self)@ == old(self)@.with_pause(true)
                    &&& final(log)@ == old(log)@.push(MonitorEvent::Paused { by: msg.sender })
                },
            },
            old(self)@.inv() && msg.sender != Address::spec_zero() ==> final(self)@.inv(),
            msg.sender != Address::spec_zero() ==> old(self)@.precedes(final(self)@),
    {
        if let Err(e) = self.only_owner(msg) {
            return Err(e);
        }
        if self.paused {
            return Err(revert_data("already paused"));
        }
        self.paused = true;
        log.push(MonitorEvent::Paused { by: msg.sender });
        Ok(())
    }

    /// Resumes scanning and tracking.
    pub fn unpause(&mut self, msg: &Message, log: &mut Vec<MonitorEvent>) -> (r: Result<
        (),
        Vec<u8>,
    >)
        ensures
            match old(self)@.unpausing_refusal(*msg) {
                Some(reason) => refused(r, reason) && final(self)@ == old(self)@ && final(log)@
                    == old(log)@,
                None => {
                    &&& r is Ok
                    &&& final(self)@ == old(self)@.with_pause(false)
                    &&& final(log)@ == old(log)@.push(MonitorEvent::Unpaused { by: msg.sender })
                },
            },
            old(self)@.inv() && msg.sender != Address::spec_zero() ==> final(self)@.inv(),
            msg.sender != Address::spec_zero() ==> old(self)@.precedes(final(self)@),
    {
        if let Err(e) = self.only_owner(msg) {
            return Err(e);
        }
        if !self.paused {
            return Err(revert_data("not paused"));
        }
        self.paused = false;
        log.push(MonitorEvent::Unpaused { by: msg.sender });
        Ok(())
    }

    /// Whether scanning and tracking are suspended.
    pub fn is_paused(&self) -> (r: bool)
        ensures
            r == self@.paused,
    {
        self.paused
    }

    /// Registers a lending protocol and returns its number.
    pub fn add_lending_protocol(
        &mut self,
        msg: &Message,
        log: &mut Vec<MonitorEvent>,
        pool_address: Address,
        protocol_type: u64,
    ) -> (r: Result<U256, Vec<u8>>)
        ensures
            match old(self)@.add_protocol_refusal(*msg, pool_address) {
                Some(reason) => refused(r, reason) && final(self)@ == old(self)@ && final(log)@
                    == old(log)@,
                None => {
                    &&& r == Ok::<U256, Vec<u8>>(word(old(self)@.lending.len()))
                    &&& final(self)@ == (LiquidationMonitorState {
                        lending: old(self)@.lending.push(
                            Entry {
                                address: pool_address,
                                kind: word(protocol_type as nat),
                                active: true,
                            },
                        ),
                        ..old(self)@
                    })
                    &&& final(log)@ == old(log)@.push(
                        MonitorEvent::LendingProtocolAdded {
                            index: word(old(self)@.lending.len()),
                            pool_address,
                            protocol_type,
                        },
                    )
                },
            },
            old(self)@.inv() && msg.sender != Address::spec_zero() ==> final(self)@.inv(),
            msg.sender != Address::spec_zero() ==> old(self)@.precedes(final(self)@),
    {
        if let Err(e) = self.only_owner(msg) {
            return Err(e);
        }
        if pool_address == Address::zero() {
            return Err(revert_data("zero address"));
        }
        let index = self.lending.add(pool_address, protocol_type);
        log.push(MonitorEvent::LendingProtocolAdded { index, pool_address, protocol_type });
        Ok(index)
    }

    /// Takes a lending protocol out of use; its number stays taken.
    pub fn remove_lending_protocol(
        &mut self,
        msg: &Message,
        log: &mut Vec<MonitorEvent>,
        index: U256,
    ) -> (r: Result<(), Vec<u8>>)
        ensures
            match old(self)@.remove_protocol_refusal(*msg, old(self)@.lending, index) {
                Some(reason) => refused(r, reason) && final(self)@ == old(self)@ && final(log)@
                    == old(log)@,
                None => {
                    &&& r is Ok
                    &&& final(self)@ == (LiquidationMonitorState {
                        lending: without(old(self)@.lending, index),
                        ..old(self)@
                    })
                    &&& final(log)@ == old(log)@.push(
                        MonitorEvent::LendingProtocolRemoved {
                            index,
                            pool_address: old(self)@.lending[index@ as int].address,
                        },
                    )
                },
            },
            old(self)@.inv() && msg.sender != Address::spec_zero() ==> final(self)@.inv(),
            msg.sender != Address::spec_zero() ==> old(self)@.precedes(final(self)@),
    {
        if let Err(e) = self.only_owner(msg) {
            return Err(e);
        }
        if !index.less_than(self.lending.count()) {
            return Err(revert_data("index out of bounds"));
        }
        let protocol = self.lending.get(index);
        if !protocol.active {
            return Err(revert_data("protocol already removed"));
        }
        self.lending.deactivate(index);
        log.push(MonitorEvent::LendingProtocolRemoved { index, pool_address: protocol.address });
        Ok(())
    }

    /// How many lending protocols were ever registered.
    pub fn lending_protocol_count(&self) -> (r: U256)
        ensures
            r == word(self@.lending.len()),
            r@ == self@.lending.len(),
    {
        self.lending.count()
    }

    /// The address, the type and whether it is in use, of the lending protocol at
    /// `index`.
    pub fn get_lending_protocol(&self, index: U256) -> (r: (Address, U256, bool))
        ensures
            r == (
                entry_at(self@.lending, index).address,
                entry_at(self@.lending, index).kind,
                entry_at(self@.lending, index).active,
            ),
    {
        let protocol = self.lending.get(index);
        (protocol.address, protocol.kind, protocol.active)
    }

    /// Registers a perpetuals protocol and returns its number.
    pub fn add_perp_protocol(
        &mut self,
        msg: &Message,
        log: &mut Vec<MonitorEvent>,
        reader_address: Address,
        protocol_type: u64,
    ) -> (r: Result<U256, Vec<u8>>)
        ensures
            match old(self)@.add_protocol_refusal(*msg, reader_address) {
                Some(reason) => refused(r, reason) && final(self)@ == old(self)@ && final(log)@
                    == old(log)@,
                None => {
                    &&& r == Ok::<U256, Vec<u8>>(word(old(self)@.perps.len()))
                    &&& final(self)@ == (LiquidationMonitorState {
                        perps: old(self)@.perps.push(
                            Entry {
                                address: reader_address,
                                kind: word(protocol_type as nat),
                                active: true,
                            },
                        ),
                        ..old(self)@
                    })
                    &&& final(log)@ == old(log)@.push(
                        MonitorEvent::PerpProtocolAdded {
                            index: word(old(self)@.perps.len()),
                            reader_address,
                            protocol_type,
                        },
                    )
                },
            },
            old(self)@.inv() && msg.sender != Address::spec_zero() ==> final(self)@.inv(),
            msg.sender != Address::spec_zero() ==> old(self)@.precedes(final(self)@),
    {
        if let Err(e) = self.only_owner(msg) {
            return Err(e);
        }
        if reader_address == Address::zero() {
            return Err(revert_data("zero address"));
        }
        let index = self.perps.add(reader_address, protocol_type);
        log.push(MonitorEvent::PerpProtocolAdded { index, reader_address, protocol_type });
        Ok(index)
    }

    /// Takes a perpetuals protocol out of use; its number stays taken.
    pub fn remove_perp_protocol(
        &mut self,
        msg: &Message,
        log: &mut Vec<MonitorEvent>,
        index: U256,
    ) -> (r: Result<(), Vec<u8>>)
        ensures
            match old(self)@.remove_protocol_refusal(*msg, old(self)@.perps, index) {
                Some(reason) => refused(r, reason) && final(self)@ == old(self)@ && final(log)@
                    == old(log)@,
                None => {
                    &&& r is Ok
                    &&& final(self)@ == (LiquidationMonitorState {
                        perps: without(old(self)@.perps, index),
                        ..old(self)@
                    })
                    &&& final(log)@ == old(log)@.push(
                        MonitorEvent::PerpProtocolRemoved {
                            index,
                            reader_address: old(self)@.perps[index@ as int].address,
                        },
                    )
                },
            },
            old(self)@.inv() && msg.sender != Address::spec_zero() ==> final(self)@.inv(),
            msg.sender != Address::spec_zero() ==> old(self)@.precedes(final(self)@),
    {
        if let Err(e) = self.only_owner(msg) {
            return Err(e);
        }
        if !index.less_than(self.perps.count()) {
            return Err(revert_data("index out of bounds"));
        }
        let protocol = self.perps.get(index);
        if !protocol.active {
            return Err(revert_data("protocol already removed"));
        }
        self.perps.deactivate(index);
        log.push(MonitorEvent::PerpProtocolRemoved { index, reader_address: protocol.address });
        Ok(())
    }

    /// How many perpetuals protocols were ever registered.
    pub fn perp_protocol_count(&self) -> (r: U256)
        ensures
            r == word(self@.perps.len()),
            r@ == self@.perps.len(),
    {
        self.perps.count()
    }

    /// What the protocols are asked about `account`: every active protocol of a
    /// known type, lending protocols first.
    pub fn health_queries(&self, account: Address) -> (r: Vec<HealthQuery>)
        ensures
            r@ == self@.queries(account),
    {
        let mut queries: Vec<HealthQuery> = Vec::new();
        push_lending_queries(&self.lending.entries, account, &mut queries);
        push_perp_queries(&self.perps.entries, account, &mut queries);
        assert(queries@ =~= self@.queries(account));
        queries
    }

    /// The question about `account` to ask next, given the answers so far.
    pub fn next_health_query(&self, account: Address, replies: &Vec<HealthReply>) -> (r: Option<
        HealthQuery,
    >)
        ensures
            r == next_query(self@.queries(account), replies@),
    {
        query_after(&self.health_queries(account), replies)
    }

    /// The lowest health factor that the protocols reported for `account`.
    pub fn get_health_factor(&self, account: Address, replies: &Vec<HealthReply>) -> (r: Result<
        U256,
        Vec<u8>,
    >)
        ensures
            returns_outcome(r, health_outcome(self@.queries(account), replies@)),
    {
        lowest_health(&self.health_queries(account), replies)
    }

    /// The accounts at risk, each with its health factor, and those whose health
    /// factor could not be had.
    pub fn scan_accounts(&self, accounts: Vec<Address>, replies: &Vec<Vec<HealthReply>>) -> (r:
        Result<(Vec<(Address, U256)>, Vec<Address>), Vec<u8>>)
        ensures
            match self@.pause_refusal() {
                Some(reason) => refused(r, reason),
                None => r matches Ok((at_risk, failed)) && at_risk@ == self@.at_risk(
                    accounts@,
                    replies@,
                ) && failed@ == self@.failed(accounts@, replies@),
            },
    {
        if let Err(e) = self.when_not_paused() {
            return Err(e);
        }
        let mut at_risk: Vec<(Address, U256)> = Vec::new();
        let mut failed: Vec<Address> = Vec::new();
        let none: Vec<HealthReply> = Vec::new();
        let mut i: usize = 0;
        assert(accounts@.take(0) =~= seq![]);
        while i < accounts.len()
            invariant
                i <= accounts@.len(),
                none@ == Seq::<HealthReply>::empty(),
                at_risk@ == self@.at_risk(accounts@.take(i as int), replies@),
                failed@ == self@.failed(accounts@.take(i as int), replies@),
            decreases accounts@.len() - i,
        {
            let account = accounts[i];
            let answers = if i < replies.len() {
                &replies[i]
            } else {
                &none
            };
            assert(answers@ == account_replies(replies@, i as int));
            assert(accounts@.take(i + 1).drop_last() =~= accounts@.take(i as int));
            match self.get_health_factor(account, answers) {
                Ok(hf) => {
                    if hf.less_than(self.risk_threshold) {
                        at_risk.push((account, hf));
                    }
                },
                Err(_) => {
                    failed.push(account);
                },
            }
            i += 1;
        }
        assert(accounts@.take(i as int) =~= accounts@);
        Ok((at_risk, failed))
    }

    /// Scans the tracked accounts and reports those at risk.
    pub fn scan_tracked_accounts(
        &self,
        msg: &Message,
        log: &mut Vec<MonitorEvent>,
        replies: &Vec<Vec<HealthReply>>,
    ) -> (r: Result<(Vec<(Address, U256)>, Vec<Address>), Vec<u8>>)
        ensures
            match self@.pause_refusal() {
                Some(reason) => refused(r, reason) && final(log)@ == old(log)@,
                None => {
                    &&& r matches Ok((at_risk, failed))
                    &&& at_risk@ == self@.at_risk(self@.tracked_accounts, replies@)
                    &&& failed@ == self@.failed(self@.tracked_accounts, replies@)
                    &&& final(log)@ == old(log)@ + risk_events(at_risk@, *msg)
                },
            },
    {
        if let Err(e) = self.when_not_paused() {
            return Err(e);
        }
        let accounts = self.tracked_accounts.clone();
        assert(accounts@ =~= self.tracked_accounts@);
        let (at_risk, failed) = match self.scan_accounts(accounts, replies) {
            Ok(found) => found,
            Err(e) => {
                return Err(e);
            },
        };
        let ghost before = log@;
        let mut i: usize = 0;
        while i < at_risk.len()
            invariant
                i <= at_risk@.len(),
                log@ =~= before + risk_events(at_risk@, *msg).take(i as int),
            decreases at_risk@.len() - i,
        {
            let (account, health_factor) = at_risk[i];
            log.push(
                MonitorEvent::AccountAtRisk {
                    account,
                    health_factor,
                    timestamp: U256::from(msg.timestamp),
                },
            );
            i += 1;
        }
        assert(log@ =~= before + risk_events(at_risk@, *msg));
        Ok((at_risk, failed))
    }

    /// Tracks an account.
    pub fn add_account(
        &mut self,
        msg: &Message,
        log: &mut Vec<MonitorEvent>,
        account: Address,
    ) -> (r: Result<(), Vec<u8>>)
        ensures
            match old(self)@.add_account_refusal(*msg) {
                Some(reason) => refused(r, reason) && final(self)@ == old(self)@ && final(log)@
                    == old(log)@,
                None => {
                    &&& r is Ok
                    &&& final(self)@ == (LiquidationMonitorState {
                        tracked_accounts: old(self)@.tracked_accounts.push(account),
                        ..old(self)@
                    })
                    &&& final(log)@ == old(log)@.push(MonitorEvent::AccountAdded { account })
                },
            },
            old(self)@.inv() && msg.sender != Address::spec_zero() ==> final(self)@.inv(),
            msg.sender != Address::spec_zero() ==> old(self)@.precedes(final(self)@),
    {
        if let Err(e) = self.only_owner(msg) {
            return Err(e);
        }
        if let Err(e) = self.when_not_paused() {
            return Err(e);
        }
        if self.tracked_accounts.len() >= MAX_TRACKED_ACCOUNTS {
            return Err(revert_data("max tracked accounts reached"));
        }
        self.tracked_accounts.push(account);
        log.push(MonitorEvent::AccountAdded { account });
        Ok(())
    }

    /// Stops tracking an account, once; the last tracked account takes its place.
    pub fn remove_account(
        &mut self,
        msg: &Message,
        log: &mut Vec<MonitorEvent>,
        account: Address,
    ) -> (r: Result<(), Vec<u8>>)
        ensures
            match old(self)@.remove_account_refusal(*msg, account) {
                Some(reason) => refused(r, reason) && final(self)@ == old(self)@ && final(log)@
                    == old(log)@,
                None => {
                    &&& r is Ok
                    &&& exists|i: int| #[trigger]
                        is_first_place(old(self)@.tracked_accounts, account, i) && final(self)@
                            == (LiquidationMonitorState {
                            tracked_accounts: swap_removed(old(self)@.tracked_accounts, i),
                            ..old(self)@
                        })
                    &&& final(log)@ == old(log)@.push(MonitorEvent::AccountRemoved { account })
                },
            },
            old(self)@.inv() && msg.sender != Address::spec_zero() ==> final(self)@.inv(),
            msg.sender != Address::spec_zero() ==> old(self)@.precedes(final(self)@),
    {
        if let Err(e) = self.only_owner(msg) {
            return Err(e);
        }
        match first_place(&self.tracked_accounts, account) {
            Some(i) => {
                remove_place(&mut self.tracked_accounts, i);
                assert(is_first_place(old(self)@.tracked_accounts, account, i as int));
                log.push(MonitorEvent::AccountRemoved { account });
                Ok(())
            },
            None => Err(revert_data("account not found")),
        }
    }

    /// Sets the health factor below which an account is at risk.
    pub fn set_threshold(
        &mut self,
        msg: &Message,
        log: &mut Vec<MonitorEvent>,
        new_threshold: U256,
    ) -> (r: Result<(), Vec<u8>>)
        ensures
            match old(self)@.owner_refusal(*msg) {
                Some(reason) => refused(r, reason) && final(self)@ == old(self)@ && final(log)@
                    == old(log)@,
                None => {
                    &&& r is Ok
                    &&& final(self)@ == (LiquidationMonitorState {
                        risk_threshold: new_threshold,
                        ..old(self)@
                    })
                    &&& final(log)@ == old(log)@.push(
                        MonitorEvent::ThresholdUpdated {
                            old_threshold: old(self)@.risk_threshold,
                            new_threshold,
                        },
                    )
                },
            },
            old(self)@.inv() && msg.sender != Address::spec_zero() ==> final(self)@.inv(),
            msg.sender != Address::spec_zero() ==> old(self)@.precedes(final(self)@),
    {
        if let Err(e) = self.only_owner(msg) {
            return Err(e);
        }
        let old_threshold = self.risk_threshold;
        self.risk_threshold = new_threshold;
        log.push(MonitorEvent::ThresholdUpdated { old_threshold, new_threshold });
        Ok(())
    }

    /// How many accounts are tracked.
    pub fn tracked_count(&self) -> (r: U256)
        ensures
            r == word(self@.tracked_accounts.len()),
            r@ == self@.tracked_accounts.len(),
    {
        U256::from(self.tracked_accounts.len() as u64)
    }

    /// The health factor below which an account is at risk.
    pub fn threshold(&self) -> (r: U256)
        ensures
            r == self@.risk_threshold,
    {
        self.risk_threshold
    }
}

/// What every call keeps is kept over any stretch of calls: a monitor that was
/// initialized can never be initialized again, and protocols keep their numbers.
pub proof fn law_initialized_once(
    a: LiquidationMonitorState,
    b: LiquidationMonitorState,
    c: LiquidationMonitorState,
)
    requires
        a.precedes(b),
        b.precedes(c),
    ensures
        a.precedes(c),
        a.owner != Address::spec_zero() ==> c.initialize_refusal() == Some("already initialized"),
{
    law_entries_are_kept_for_good(a.lending, b.lending, c.lending, word(0));
    law_entries_are_kept_for_good(a.perps, b.perps, c.perps, word(0));
}

/// Ownership passes in two steps.  A proposal changes nothing for the owner; only
/// the proposed owner can accept it; then the new owner has every right and the old
/// one has none, and the proposal is used up.
pub proof fn law_ownership_passes_in_two_steps(
    s: LiquidationMonitorState,
    msg: Message,
    new_owner: Address,
    other: Message,
)
    requires
        s.transfer_ownership_refusal(msg, new_owner) is None,
    ensures
        s.ownership_proposed(new_owner).owner_refusal(other) == s.owner_refusal(other),
        s.ownership_proposed(new_owner).accept_ownership_refusal(other) is None <==> other.sender
            == new_owner,
        s.ownership_proposed(new_owner).ownership_accepted().owner_refusal(other) is None
            <==> other.sender == new_owner,
        other.sender != Address::spec_zero() ==> s.ownership_proposed(
            new_owner,
        ).ownership_accepted().accept_ownership_refusal(other) == Some("not pending owner"),
{
}

/// A paused monitor neither scans nor tracks new accounts, whoever asks; resuming
/// puts everything back as it was.
pub proof fn law_pause_suspends(s: LiquidationMonitorState, msg: Message)
    requires
        !s.paused,
    ensures
        s.with_pause(true).pause_refusal() == Some("contract is paused"),
        s.with_pause(true).add_account_refusal(msg) is Some,
        msg.sender == s.owner ==> s.with_pause(true).add_account_refusal(msg) == Some(
            "contract is paused",
        ),
        s.with_pause(true).with_pause(false) == s,
{
}

/// A scan reports every account once: at risk with its health factor where that is
/// below the threshold, failed where there is none, and else not at all.
pub proof fn law_scan_reports_every_account(
    s: LiquidationMonitorState,
    accounts: Seq<Address>,
    replies: Seq<Vec<HealthReply>>,
    i: int,
)
    requires
        0 <= i < accounts.len(),
    ensures
        match s.account_outcome(accounts, replies, i) {
            Ok(hf) => hf@ < s.risk_threshold@ ==> s.at_risk(accounts, replies).contains(
                (accounts[i], hf),
            ),
            Err(_) => s.failed(accounts, replies).contains(accounts[i]),
        },
        s.at_risk(accounts, replies).len() + s.failed(accounts, replies).len() <= accounts.len(),
    decreases accounts.len(),
{
    let front = accounts.drop_last();
    let last = accounts.len() - 1;
    let (at_risk, failed) = (s.at_risk(accounts, replies), s.failed(accounts, replies));
    let (risk_before, failed_before) = (s.at_risk(front, replies), s.failed(front, replies));
    if last > 0 {
        law_scan_reports_every_account(
            s,
            front,
            replies,
            if i < last {
                i
            } else {
                0
            },
        );
    }
    if i == last {
        match s.account_outcome(accounts, replies, i) {
            Ok(hf) => {
                if hf@ < s.risk_threshold@ {
                    assert(at_risk[risk_before.len() as int] == (accounts[i], hf));
                }
            },
            Err(_) => {
                assert(failed[failed_before.len() as int] == accounts[i]);
            },
        }
    } else {
        assert(s.account_outcome(front, replies, i) == s.account_outcome(accounts, replies, i));
        match s.account_outcome(accounts, replies, i) {
            Ok(hf) => {
                if hf@ < s.risk_threshold@ {
                    let k = choose|k: int|
                        0 <= k < risk_before.len() && risk_before[k] == (accounts[i], hf);
                    assert(at_risk[k] == (accounts[i], hf));
                }
            },
            Err(_) => {
                let k = choose|k: int|
                    0 <= k < failed_before.len() && failed_before[k] == accounts[i];
                assert(failed[k] == accounts[i]);
            },
        }
    }
}

/// A scan reports nothing else: an entry at risk is one of the accounts with its
/// health factor, below the threshold, and a failed entry is one of the accounts
/// without a health factor.
pub proof fn law_scan_reports_nothing_else(
    s: LiquidationMonitorState,
    accounts: Seq<Address>,
    replies: Seq<Vec<HealthReply>>,
    k: int,
)
    ensures
        0 <= k < s.at_risk(accounts, replies).len() ==> exists|i: int|
            0 <= i < accounts.len() && s.at_risk(accounts, replies)[k].0 == accounts[i]
                && #[trigger] s.account_outcome(accounts, replies, i) == Ok::<U256, Seq<u8>>(
                s.at_risk(accounts, replies)[k].1,
            ) && s.at_risk(accounts, replies)[k].1@ < s.risk_threshold@,
        0 <= k < s.failed(accounts, replies).len() ==> exists|i: int|
            0 <= i < accounts.len() && s.failed(accounts, replies)[k] == accounts[i]
                && #[trigger] s.account_outcome(accounts, replies, i) is Err,
    decreases accounts.len(),
{
    if accounts.len() > 0 {
        let front = accounts.drop_last();
        let last = accounts.len() - 1;
        law_scan_reports_nothing_else(s, front, replies, k);
        assert forall|i: int| 0 <= i < last implies #[trigger] s.account_outcome(
            front,
            replies,
            i,
        ) == s.account_outcome(accounts, replies, i) by {}
        let outcome = s.account_outcome(accounts, replies, last);
        if 0 <= k < s.at_risk(front, replies).len() {
            let i = choose|i: int|
                0 <= i < front.len() && s.at_risk(front, replies)[k].0 == front[i]
                    && #[trigger] s.account_outcome(front, replies, i) == Ok::<U256, Seq<u8>>(
                    s.at_risk(front, replies)[k].1,
                ) && s.at_risk(front, replies)[k].1@ < s.risk_threshold@;
            assert(s.account_outcome(accounts, replies, i) is Ok);
        }
        if 0 <= k < s.failed(front, replies).len() {
            let i = choose|i: int|
                0 <= i < front.len() && s.failed(front, replies)[k] == front[i]
                    && #[trigger] s.account_outcome(front, replies, i) is Err;
            assert(s.account_outcome(accounts, replies, i) is Err);
        }
    }
}

} // verus!
