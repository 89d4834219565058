//! The agent registry: who owns an agent, what it may do and how it is rated.

use crate::address::Address;
use crate::call::{refused, revert_data, Message};
use crate::mapping::Mapping;
use crate::word::{group_word, lemma_word_injective, limbs_value, modulus, word, U256};
use vstd::prelude::*;

verus! {

broadcast use group_word;

/// The agent may trade.
pub const CAP_TRADE: u64 = 0x01;

/// The agent may use perpetuals.
pub const CAP_PERPS: u64 = 0x02;

/// The agent may lend.
pub const CAP_LEND: u64 = 0x04;

/// The agent may farm yield.
pub const CAP_YIELD: u64 = 0x08;

/// The agent may use options.
pub const CAP_OPTIONS: u64 = 0x10;

/// The agent may use the express lane.
pub const CAP_TIMEBOOST: u64 = 0x20;

/// The agent may hold real-world assets.
pub const CAP_RWA: u64 = 0x40;

/// The capability bits that have a meaning.
pub const VALID_CAPS_MASK: u64 = 0x7F;

/// A whole, in basis points.
pub const MAX_REVENUE_SHARE_BPS: u16 = 10_000;

/// What the agent registry reports.
#[derive(Clone, Copy, Debug, PartialEq, Eq)]
pub enum RegistryEvent {
    AgentRegistered { owner: Address, agent_id: U256, capabilities: u64 },
    AgentUpdated { agent_id: U256, capabilities: u64, revenue_share_bps: u16 },
    AgentDeactivated { agent_id: U256 },
    AgentReactivated { agent_id: U256 },
    ReputationUpdated { agent_id: U256, new_score: U256 },
    GovernanceTransferStarted { current: Address, pending: Address },
    GovernanceTransferred { previous: Address, current: Address },
    Paused { by: Address },
    Unpaused { by: Address },
}

/// What is on record about an agent.
#[derive(Clone, Copy, Debug)]
pub struct Agent {
    /// Who owns it; the zero address if it was never registered.
    pub owner: Address,
    /// What it may do, one bit for each capability.
    pub capabilities: U256,
    /// Its share of the revenue, in basis points.
    pub revenue_share_bps: U256,
    /// How governance rates it.
    pub reputation: U256,
    /// Whether it is in service.
    pub active: bool,
}

/// What is on record under a number that was never assigned.
pub open spec fn blank_agent() -> Agent {
    Agent {
        owner: Address::spec_zero(),
        capabilities: word(0),
        revenue_share_bps: word(0),
        reputation: word(0),
        active: false,
    }
}

/// The agent registry.
#[derive(Debug)]
pub struct AgentRegistry {
    /// The number that the next agent gets.
    pub next_id: U256,
    /// Who rates the agents and may suspend the registry; nobody before
    /// `initialize`.
    pub governance: Address,
    /// Who may take governance over; the zero address if nobody was proposed.
    pub pending_governance: Address,
    /// Whether registering and changing agents is suspended.
    pub paused: bool,
    /// The agents, by number.
    pub agents: Mapping<U256, Agent>,
}

/// What an [`AgentRegistry`] holds.
pub struct AgentRegistryState {
    pub next_id: U256,
    pub governance: Address,
    pub pending_governance: Address,
    pub paused: bool,
    pub agents: Map<U256, Agent>,
}

/// Whether a set of capabilities holds every bit of `flag`.
pub open spec fn includes_flag(capabilities: U256, flag: u64) -> bool {
    capabilities.limbs@[0] & flag == flag
}

/// Whether the agents below `next_id` have owners, the others do not exist, and no
/// agent has an unknown capability or more than the whole revenue.
pub open spec fn agents_in_order(agents: Map<U256, Agent>, next_id: U256) -> bool {
    forall|id: U256|
        {
            let agent = #[trigger] agents[id];
            &&& agent.capabilities@ <= VALID_CAPS_MASK
            &&& agent.revenue_share_bps@ <= MAX_REVENUE_SHARE_BPS
            &&& id@ < next_id@ ==> agent.owner != Address::spec_zero()
            &&& id@ >= next_id@ ==> {
                &&& agent.owner == Address::spec_zero()
                &&& agent.capabilities@ == 0
                &&& agent.revenue_share_bps@ == 0
                &&& !agent.active
            }
        }
}

/// Whether every agent that has an owner in `agents` has one in `later`.
pub open spec fn keeps_owned(agents: Map<U256, Agent>, later: Map<U256, Agent>) -> bool {
    forall|id: U256|
        agents[id].owner != Address::spec_zero() ==> (#[trigger] later[id]).owner
            != Address::spec_zero()
}

impl AgentRegistryState {
    /// What holds of every registry that only ever answered calls from nonzero
    /// addresses: it cannot be suspended or handed over before it has a governance,
    /// the agents below `next_id` have owners and the others do not exist, and no
    /// agent has an unknown capability or more than the whole revenue.
    pub open spec fn inv(self) -> bool {
        &&& self.governance == Address::spec_zero() ==> {
            &&& self.pending_governance == Address::spec_zero()
            &&& !self.paused
        }
        &&& agents_in_order(self.agents, self.next_id)
    }

    /// What every call from a nonzero address keeps: a registry that has a
    /// governance stays governed, the number of agents never falls, and an agent
    /// that has an owner stays owned.
    pub open spec fn precedes(self, later: Self) -> bool {
        &&& self.next_id@ <= later.next_id@
        &&& self.governance != Address::spec_zero() ==> later.governance != Address::spec_zero()
        &&& keeps_owned(self.agents, later.agents)
    }

    /// The state in which agent `id` has the record `agent`.
    pub open spec fn with_agent(self, id: U256, agent: Agent) -> Self {
        AgentRegistryState { agents: self.agents.insert(id, agent), ..self }
    }

    /// The state in which `new_governance` was proposed.
    pub open spec fn governance_proposed(self, new_governance: Address) -> Self {
        AgentRegistryState { pending_governance: new_governance, ..self }
    }

    /// The state in which the proposed governance took over.
    pub open spec fn governance_accepted(self) -> Self {
        AgentRegistryState {
            governance: self.pending_governance,
            pending_governance: Address::spec_zero(),
            ..self
        }
    }

    /// The state that is suspended, or not.
    pub open spec fn with_pause(self, paused: bool) -> Self {
        AgentRegistryState { paused, ..self }
    }

    /// Why a call that only governance may make is refused.
    pub open spec fn governance_refusal(self, msg: Message) -> Option<&'static str> {
        if msg.sender != self.governance {
            Some("not governance")
        } else {
            None
        }
    }

    /// Why a call that only works while nothing is suspended is refused.
    pub open spec fn pause_refusal(self) -> Option<&'static str> {
        if self.paused {
            Some("paused")
        } else {
            None
        }
    }

    /// Why `initialize` is refused.
    pub open spec fn initialize_refusal(self, governance: Address) -> Option<&'static str> {
        if self.governance != Address::spec_zero() {
            Some("already initialized")
        } else if governance == Address::spec_zero() {
            Some("zero address")
        } else {
            None
        }
    }

    /// Why `register` is refused.
    pub open spec fn register_refusal(self, capabilities: u64, revenue_share_bps: u16) -> Option<
        &'static str,
    > {
        if self.paused {
            Some("paused")
        } else if capabilities > VALID_CAPS_MASK {
            Some("invalid capability bits")
        } else if revenue_share_bps > MAX_REVENUE_SHARE_BPS {
            Some("revenue_share_bps exceeds 10000")
        } else if self.next_id@ + 1 >= modulus() {
            Some("arithmetic overflow")
        } else {
            None
        }
    }

    /// Why `update` is refused.
    pub open spec fn update_refusal(
        self,
        msg: Message,
        agent_id: U256,
        capabilities: u64,
        revenue_share_bps: u16,
    ) -> Option<&'static str> {
        if self.paused {
            Some("paused")
        } else if capabilities > VALID_CAPS_MASK {
            Some("invalid capability bits")
        } else if revenue_share_bps > MAX_REVENUE_SHARE_BPS {
            Some("revenue_share_bps exceeds 10000")
        } else if self.agents[agent_id].owner != msg.sender {
            Some("not owner")
        } else {
            None
        }
    }

    /// Why `deactivate` is refused.
    pub open spec fn deactivate_refusal(self, msg: Message, agent_id: U256) -> Option<
        &'static str,
    > {
        if self.paused {
            Some("paused")
        } else if msg.sender != self.agents[agent_id].owner && msg.sender != self.governance {
            Some("not authorized")
        } else {
            None
        }
    }

    /// Why `reactivate` is refused.
    pub open spec fn reactivate_refusal(self, msg: Message, agent_id: U256) -> Option<
        &'static str,
    > {
        if self.paused {
            Some("paused")
        } else if self.agents[agent_id].owner == Address::spec_zero() {
            Some("agent does not exist")
        } else if self.agents[agent_id].owner != msg.sender {
            Some("not owner")
        } else {
            None
        }
    }

    /// Why governance cannot be handed to `new_governance`.
    pub open spec fn new_governance_refusal(self, msg: Message, new_governance: Address) -> Option<
        &'static str,
    > {
        if msg.sender != self.governance {
            Some("not governance")
        } else if new_governance == Address::spec_zero() {
            Some("zero address")
        } else {
            None
        }
    }

    /// Why `accept_governance` is refused.
    pub open spec fn accept_governance_refusal(self, msg: Message) -> Option<&'static str> {
        if msg.sender != self.pending_governance {
            Some("not pending governance")
        } else {
            None
        }
    }

    /// Why `transfer_agent_ownership` is refused.
    pub open spec fn transfer_agent_ownership_refusal(
        self,
        msg: Message,
        agent_id: U256,
        new_owner: Address,
    ) -> Option<&'static str> {
        if self.agents[agent_id].owner == Address::spec_zero() {
            Some("agent does not exist")
        } else if self.agents[agent_id].owner != msg.sender {
            Some("not owner")
        } else if new_owner == Address::spec_zero() {
            Some("zero address")
        } else {
            None
        }
    }

    /// Why `pause` is refused.
    pub open spec fn pausing_refusal(self, msg: Message) -> Option<&'static str> {
        if msg.sender != self.governance {
            Some("not governance")
        } else if self.paused {
            Some("already paused")
        } else {
            None
        }
    }

    /// Why `unpause` is refused.
    pub open spec fn unpausing_refusal(self, msg: Message) -> Option<&'static str> {
        if msg.sender != self.governance {
            Some("not governance")
        } else if !self.paused {
            Some("not paused")
        } else {
            None
        }
    }
}

impl View for AgentRegistry {
    type V = AgentRegistryState;

    open spec fn view(&self) -> AgentRegistryState {
        AgentRegistryState {
            next_id: self.next_id,
            governance: self.governance,
            pending_governance: self.pending_governance,
            paused: self.paused,
            agents: self.agents@,
        }
    }
}

impl AgentRegistry {
    /// A registry that was just deployed.
    pub fn new() -> (r: Self)
        ensures
            r@ == (AgentRegistryState {
                next_id: word(0),
                governance: Address::spec_zero(),
                pending_governance: Address::spec_zero(),
                paused: false,
                agents: Map::new(|id: U256| true, |id: U256| blank_agent()),
            }),
            r@.inv(),
    {
        let blank = Agent {
            owner: Address::zero(),
            capabilities: U256::zero(),
            revenue_share_bps: U256::zero(),
            reputation: U256::zero(),
            active: false,
        };
        let r = AgentRegistry {
            next_id: U256::zero(),
            governance: Address::zero(),
            pending_governance: Address::zero(),
            paused: false,
            agents: Mapping::new(blank),
        };
        assert(r@.agents =~= Map::new(|id: U256| true, |id: U256| blank_agent()));
        r
    }

    /// Refuses a caller who is not the governance.
    fn require_governance(&self, msg: &Message) -> (r: Result<(), Vec<u8>>)
        ensures
            match self@.governance_refusal(*msg) {
                Some(reason) => refused(r, reason),
                None => r is Ok,
            },
    {
        if msg.sender != self.governance {
            return Err(revert_data("not governance"));
        }
        Ok(())
    }

    /// Refuses every call while the registry is paused.
    fn when_not_paused(&self) -> (r: Result<(), Vec<u8>>)
        ensures
            match self@.pause_refusal() {
                Some(reason) => refused(r, reason),
                None => r is Ok,
            },
    {
        if self.paused {
            return Err(revert_data("paused"));
        }
        Ok(())
    }

    /// Refuses capability bits that have no meaning.
    fn validate_capabilities(capabilities: u64) -> (r: Result<(), Vec<u8>>)
        ensures
            if capabilities > VALID_CAPS_MASK {
                refused(r, "invalid capability bits")
            } else {
                r is Ok
            },
    {
        assert(capabilities & !0x7Fu64 != 0 <==> capabilities > 0x7F) by (bit_vector);
        if capabilities & !VALID_CAPS_MASK != 0 {
            return Err(revert_data("invalid capability bits"));
        }
        Ok(())
    }

    /// Names the governance; works once.
    pub fn initialize(&mut self, governance: Address) -> (r: Result<(), Vec<u8>>)
        ensures
            match old(self)@.initialize_refusal(governance) {
                Some(reason) => refused(r, reason) && final(self)@ == old(self)@,
                None => r is Ok && final(self)@ == (AgentRegistryState {
                    governance,
                    ..old(self)@
                }),
            },
            old(self)@.inv() ==> final(self)@.inv(),
            old(self)@.precedes(final(self)@),
    {
        if self.governance != Address::zero() {
            return Err(revert_data("already initialized"));
        }
        if governance == Address::zero() {
            return Err(revert_data("zero address"));
        }
        self.governance = governance;
        Ok(())
    }

    /// Registers an agent of the caller and returns its number.
    pub fn register(
        &mut self,
        msg: &Message,
        log: &mut Vec<RegistryEvent>,
        capabilities: u64,
        revenue_share_bps: u16,
    ) -> (r: Result<U256, Vec<u8>>)
        ensures
            match old(self)@.register_refusal(capabilities, revenue_share_bps) {
                Some(reason) => refused(r, reason) && final(self)@ == old(self)@ && final(log)@
                    == old(log)@,
                None => {
                    let id = old(self)@.next_id;
                    &&& r == Ok::<U256, Vec<u8>>(id)
                    &&& final(self)@ == (AgentRegistryState {
                        next_id: word(id@ + 1),
                        ..old(self)@.with_agent(
                            id,
                            Agent {
                                owner: msg.sender,
                                capabilities: word(capabilities as nat),
                                revenue_share_bps: word(revenue_share_bps as nat),
                                reputation: word(0),
                                active: true,
                            },
                        )
                    })
                    &&& final(log)@ == old(log)@.push(
                        RegistryEvent::AgentRegistered {
                            owner: msg.sender,
                            agent_id: id,
                            capabilities,
                        },
                    )
                },
            },
            old(self)@.inv() && msg.sender != Address::spec_zero() ==> final(self)@.inv(),
            msg.sender != Address::spec_zero() ==> old(self)@.precedes(final(self)@),
    {
        if let Err(e) = self.when_not_paused() {
            return Err(e);
        }
        if let Err(e) = Self::validate_capabilities(capabilities) {
            return Err(e);
        }
        if revenue_share_bps > MAX_REVENUE_SHARE_BPS {
            return Err(revert_data("revenue_share_bps exceeds 10000"));
        }
        let caller = msg.sender;
        let id = self.next_id;
        let next_id = match id.checked_add(U256::from(1)) {
            Some(next_id) => next_id,
            None => {
                return Err(revert_data("arithmetic overflow"));
            },
        };
        self.agents.set(
            id,
            Agent {
                owner: caller,
                capabilities: U256::from(capabilities),
                revenue_share_bps: U256::from(revenue_share_bps as u64),
                reputation: U256::zero(),
                active: true,
            },
        );
        self.next_id = next_id;
        log.push(RegistryEvent::AgentRegistered { owner: caller, agent_id: id, capabilities });
        proof {
            assert forall|other: U256| other@ == id@ implies other == id by {
                lemma_word_injective(other, id);
            }
        }
        Ok(id)
    }

    /// Changes what an agent of the caller may do and its share of the revenue.
    pub fn update(
        &mut self,
        msg: &Message,
        log: &mut Vec<RegistryEvent>,
        agent_id: U256,
        capabilities: u64,
        revenue_share_bps: u16,
    ) -> (r: Result<(), Vec<u8>>)
        ensures
            match old(self)@.update_refusal(*msg, agent_id, capabilities, revenue_share_bps) {
                Some(reason) => refused(r, reason) && final(self)@ == old(self)@ && final(log)@
                    == old(log)@,
                None => {
                    &&& r is Ok
                    &&& final(self)@ == old(self)@.with_agent(
                        agent_id,
                        Agent {
                            capabilities: word(capabilities as nat),
                            revenue_share_bps: word(revenue_share_bps as nat),
                            ..old(self)@.agents[agent_id]
                        },
                    )
                    &&& final(log)@ == old(log)@.push(
                        RegistryEvent::AgentUpdated { agent_id, capabilities, revenue_share_bps },
                    )
                },
            },
            old(self)@.inv() && msg.sender != Address::spec_zero() ==> final(self)@.inv(),
            msg.sender != Address::spec_zero() ==> old(self)@.precedes(final(self)@),
    {
        if let Err(e) = self.when_not_paused() {
            return Err(e);
        }
        if let Err(e) = Self::validate_capabilities(capabilities) {
            return Err(e);
        }
        if revenue_share_bps > MAX_REVENUE_SHARE_BPS {
            return Err(revert_data("revenue_share_bps exceeds 10000"));
        }
        let mut agent = self.agents.get(agent_id);
        if agent.owner != msg.sender {
            return Err(revert_data("not owner"));
        }
        agent.capabilities = U256::from(capabilities);
        agent.revenue_share_bps = U256::from(revenue_share_bps as u64);
        self.agents.set(agent_id, agent);
        log.push(RegistryEvent::AgentUpdated { agent_id, capabilities, revenue_share_bps });
        Ok(())
    }

    /// Takes an agent out of service.
    pub fn deactivate(&mut self, msg: &Message, log: &mut Vec<RegistryEvent>, agent_id: U256) -> (r:
        Result<(), Vec<u8>>)
        ensures
            match old(self)@.deactivate_refusal(*msg, agent_id) {
                Some(reason) => refused(r, reason) && final(self)@ == old(self)@ && final(log)@
                    == old(log)@,
                None => {
                    &&& r is Ok
                    &&& final(self)@ == old(self)@.with_agent(
                        agent_id,
                        Agent { active: false, ..old(self)@.agents[agent_id] },
                    )
                    &&& final(log)@ == old(log)@.push(
                        RegistryEvent::AgentDeactivated { agent_id },
                    )
                },
            },
            old(self)@.inv() && msg.sender != Address::spec_zero() ==> final(self)@.inv(),
            msg.sender != Address::spec_zero() ==> old(self)@.precedes(final(self)@),
    {
        if let Err(e) = self.when_not_paused() {
            return Err(e);
        }
        let mut agent = self.agents.get(agent_id);
        if msg.sender != agent.owner && msg.sender != self.governance {
            return Err(revert_data("not authorized"));
        }
        agent.active = false;
        self.agents.set(agent_id, agent);
        log.push(RegistryEvent::AgentDeactivated { agent_id });
        Ok(())
    }

    /// Puts an agent of the caller back into service.
    pub fn reactivate(&mut self, msg: &Message, log: &mut Vec<RegistryEvent>, agent_id: U256) -> (r:
        Result<(), Vec<u8>>)
        ensures
            match old(self)@.reactivate_refusal(*msg, agent_id) {
                Some(reason) => refused(r, reason) && final(self)@ == old(self)@ && final(log)@
                    == old(log)@,
                None => {
                    &&& r is Ok
                    &&& final(self)@ == old(self)@.with_agent(
                        agent_id,
                        Agent { active: true, ..old(self)@.agents[agent_id] },
                    )
                    &&& final(log)@ == old(log)@.push(
                        RegistryEvent::AgentReactivated { agent_id },
                    )
                },
            },
            old(self)@.inv() && msg.sender != Address::spec_zero() ==> final(self)@.inv(),
            msg.sender != Address::spec_zero() ==> old(self)@.precedes(final(self)@),
    {
        if let Err(e) = self.when_not_paused() {
            return Err(e);
        }
        let mut agent = self.agents.get(agent_id);
        if agent.owner == Address::zero() {
            return Err(revert_data("agent does not exist"));
        }
        if agent.owner != msg.sender {
            return Err(revert_data("not owner"));
        }
        agent.active = true;
        self.agents.set(agent_id, agent);
        log.push(RegistryEvent::AgentReactivated { agent_id });
        Ok(())
    }

    /// Rates an agent.
    pub fn update_reputation(
        &mut self,
        msg: &Message,
        log: &mut Vec<RegistryEvent>,
        agent_id: U256,
        new_score: U256,
    ) -> (r: Result<(), Vec<u8>>)
        ensures
            match old(self)@.governance_refusal(*msg) {
                Some(reason) => refused(r, reason) && final(self)@ == old(self)@ && final(log)@
                    == old(log)@,
                None => {
                    &&& r is Ok
                    &&& final(self)@ == old(self)@.with_agent(
                        agent_id,
                        Agent { reputation: new_score, ..old(self)@.agents[agent_id] },
                    )
                    &&& final(log)@ == old(log)@.push(
                        RegistryEvent::ReputationUpdated { agent_id, new_score },
                    )
                },
            },
            old(self)@.inv() && msg.sender != Address::spec_zero() ==> final(self)@.inv(),
            msg.sender != Address::spec_zero() ==> old(self)@.precedes(final(self)@),
    {
        if let Err(e) = self.require_governance(msg) {
            return Err(e);
        }
        let mut agent = self.agents.get(agent_id);
        agent.reputation = new_score;
        self.agents.set(agent_id, agent);
        log.push(RegistryEvent::ReputationUpdated { agent_id, new_score });
        Ok(())
    }

    /// The owner, the capabilities, the revenue share, the reputation and whether it
    /// is in service, of an agent.
    pub fn get_agent(&self, agent_id: U256) -> (r: (Address, U256, U256, U256, bool))
        ensures
            ({
                let agent = self@.agents[agent_id];
                r == (
                    agent.owner,
                    agent.capabilities,
                    agent.revenue_share_bps,
                    agent.reputation,
                    agent.active,
                )
            }),
    {
        let agent = self.agents.get(agent_id);
        (
            agent.owner,
            agent.capabilities,
            agent.revenue_share_bps,
            agent.reputation,
            agent.active,
        )
    }

    /// How many agents were registered.
    pub fn total_agents(&self) -> (r: U256)
        ensures
            r == self@.next_id,
    {
        self.next_id
    }

    /// Whether an agent has every capability in `cap_flag`.
    pub fn has_capability(&self, agent_id: U256, cap_flag: u64) -> (r: bool)
        ensures
            r == includes_flag(self@.agents[agent_id].capabilities, cap_flag),
    {
        let caps = self.agents.get(agent_id).capabilities;
        let flag = U256::from(cap_flag);
        let common = caps.bitand(flag);
        proof {
            lemma_limbs_of_small(cap_flag);
            let (c1, c2, c3) = (caps.limbs@[1], caps.limbs@[2], caps.limbs@[3]);
            assert(c1 & 0u64 == 0 && c2 & 0u64 == 0 && c3 & 0u64 == 0) by (bit_vector);
            assert(common.limbs@[0] == caps.limbs@[0] & cap_flag);
            assert(common.limbs@[1] == 0 && common.limbs@[2] == 0 && common.limbs@[3] == 0);
            if common.limbs@[0] == cap_flag {
                assert(common.limbs =~= flag.limbs);
            }
        }
        common == flag
    }

    /// Hands governance over at once.
    pub fn set_governance(&mut self, msg: &Message, new_governance: Address) -> (r: Result<
        (),
        Vec<u8>,
    >)
        ensures
            match old(self)@.new_governance_refusal(*msg, new_governance) {
                Some(reason) => refused(r, reason) && final(self)@ == old(self)@,
                None => r is Ok && final(self)@ == (AgentRegistryState {
                    governance: new_governance,
                    ..old(self)@
                }),
            },
            old(self)@.inv() && msg.sender != Address::spec_zero() ==> final(self)@.inv(),
            msg.sender != Address::spec_zero() ==> old(self)@.precedes(final(self)@),
    {
        if let Err(e) = self.require_governance(msg) {
            return Err(e);
        }
        if new_governance == Address::zero() {
            return Err(revert_data("zero address"));
        }
        self.governance = new_governance;
        Ok(())
    }

    /// Proposes a new governance, which has to accept.
    pub fn transfer_governance(
        &mut self,
        msg: &Message,
        log: &mut Vec<RegistryEvent>,
        new_governance: Address,
    ) -> (r: Result<(), Vec<u8>>)
        ensures
            match old(self)@.new_governance_refusal(*msg, new_governance) {
                Some(reason) => refused(r, reason) && final(self)@ == old(self)@ && final(log)@
                    == old(log)@,
                None => {
                    &&& r is Ok
                    &&& final(self)@ == old(self)@.governance_proposed(new_governance)
                    &&& final(log)@ == old(log)@.push(
                        RegistryEvent::GovernanceTransferStarted {
                            current: old(self)@.governance,
                            pending: new_governance,
                        },
                    )
                },
            },
            old(self)@.inv() && msg.sender != Address::spec_zero() ==> final(self)@.inv(),
            msg.sender != Address::spec_zero() ==> old(self)@.precedes(final(self)@),
    {
        if let Err(e) = self.require_governance(msg) {
            return Err(e);
        }
        if new_governance == Address::zero() {
            return Err(revert_data("zero address"));
        }
        let current = self.governance;
        self.pending_governance = new_governance;
        log.push(
            RegistryEvent::GovernanceTransferStarted { current, pending: new_governance },
        );
        Ok(())
    }

    /// Makes the proposed governance, which has to be the caller, the governance.
    pub fn accept_governance(&mut self, msg: &Message, log: &mut Vec<RegistryEvent>) -> (r: Result<
        (),
        Vec<u8>,
    >)
        ensures
            match old(self)@.accept_governance_refusal(*msg) {
                Some(reason) => refused(r, reason) && final(self)@ == old(self)@ && final(log)@
                    == old(log)@,
                None => {
                    &&& r is Ok
                    &&& final(self)@ == old(self)@.governance_accepted()
                    &&& final(log)@ == old(log)@.push(
                        RegistryEvent::GovernanceTransferred {
                            previous: old(self)@.governance,
                            current: msg.sender,
                        },
                    )
                },
            },
            old(self)@.inv() && msg.sender != Address::spec_zero() ==> final(self)@.inv(),
            msg.sender != Address::spec_zero() ==> old(self)@.precedes(final(self)@),
    {
        let caller = msg.sender;
        let pending = self.pending_governance;
        if caller != pending {
            return Err(revert_data("not pending governance"));
        }
        let previous = self.governance;
        self.governance = caller;
        self.pending_governance = Address::zero();
        log.push(RegistryEvent::GovernanceTransferred { previous, current: caller });
        Ok(())
    }

    /// Gives an agent of the caller to someone else.
    pub fn transfer_agent_ownership(
        &mut self,
        msg: &Message,
        agent_id: U256,
        new_owner: Address,
    ) -> (r: Result<(), Vec<u8>>)
        ensures
            match old(self)@.transfer_agent_ownership_refusal(*msg, agent_id, new_owner) {
                Some(reason) => refused(r, reason) && final(self)@ == old(self)@,
                None => r is Ok && final(self)@ == old(self)@.with_agent(
                    agent_id,
                    Agent { owner: new_owner, ..old(self)@.agents[agent_id] },
                ),
            },
            old(self)@.inv() && msg.sender != Address::spec_zero() ==> final(self)@.inv(),
            msg.sender != Address::spec_zero() ==> old(self)@.precedes(final(self)@),
    {
        let mut agent = self.agents.get(agent_id);
        if agent.owner == Address::zero() {
            return Err(revert_data("agent does not exist"));
        }
        if agent.owner != msg.sender {
            return Err(revert_data("not owner"));
        }
        if new_owner == Address::zero() {
            return Err(revert_data("zero address"));
        }
        agent.owner = new_owner;
        self.agents.set(agent_id, agent);
        Ok(())
    }

    /// Suspends registering and changing agents.
    pub fn pause(&mut self, msg: &Message, log: &mut Vec<RegistryEvent>) -> (r: Result<(), Vec<u8>>)
        ensures
            match old(self)@.pausing_refusal(*msg) {
                Some(reason) => refused(r, reason) && final(self)@ == old(self)@ && final(log)@
                    == old(log)@,
                None => {
                    &&& r is Ok
                    &&& final(self)@ == old(self)@.with_pause(true)
                    &&& final(log)@ == old(log)@.push(RegistryEvent::Paused { by: msg.sender })
                },
            },
            old(self)@.inv() && msg.sender != Address::spec_zero() ==> final(self)@.inv(),
            msg.sender != Address::spec_zero() ==> old(self)@.precedes(final(self)@),
    {
        if let Err(e) = self.require_governance(msg) {
            return Err(e);
        }
        if self.paused {
            return Err(revert_data("already paused"));
        }
        self.paused = true;
        log.push(RegistryEvent::Paused { by: msg.sender });
        Ok(())
    }

    /// Resumes registering and changing agents.
    pub fn unpause(&mut self, msg: &Message, log: &mut Vec<RegistryEvent>) -> (r: Result<
        (),
        Vec<u8>,
    >)
        ensures
            match old(self)@.unpausing_refusal(*msg) {
                Some(reason) => refused(r, reason) && final(self)@ == old(self)@ && final(log)@
                    == old(log)@,
                None => {
                    &&& r is Ok
                    &&& final(self)@ == old(self)@.with_pause(false)
                    &&& final(log)@ == old(log)@.push(RegistryEvent::Unpaused { by: msg.sender })
                },
            },
            old(self)@.inv() && msg.sender != Address::spec_zero() ==> final(self)@.inv(),
            msg.sender != Address::spec_zero() ==> old(self)@.precedes(final(self)@),
    {
        if let Err(e) = self.require_governance(msg) {
            return Err(e);
        }
        if !self.paused {
            return Err(revert_data("not paused"));
        }
        self.paused = false;
        log.push(RegistryEvent::Unpaused { by: msg.sender });
        Ok(())
    }

    /// Whether registering and changing agents is suspended.
    pub fn is_paused(&self) -> (r: bool)
        ensures
            r == self@.paused,
    {
        self.paused
    }

    /// Who the governance is.
    pub fn get_governance(&self) -> (r: Address)
        ensures
            r == self@.governance,
    {
        self.governance
    }

    /// Who may take governance over.
    pub fn get_pending_governance(&self) -> (r: Address)
        ensures
            r == self@.pending_governance,
    {
        self.pending_governance
    }
}

/// The limbs of a word that fits into one.
proof fn lemma_limbs_of_small(n: u64)
    ensures
        word(n as nat).limbs@[0] == n,
        word(n as nat).limbs@[1] == 0,
        word(n as nat).limbs@[2] == 0,
        word(n as nat).limbs@[3] == 0,
{
    reveal(limbs_value);
    assert(word(n as nat)@ == n);
}

/// What every call keeps is kept over any stretch of calls: a registry that was
/// initialized can never be initialized again, the number of agents never falls, and
/// an agent never loses its owner.
pub proof fn law_initialized_once(
    a: AgentRegistryState,
    b: AgentRegistryState,
    c: AgentRegistryState,
    governance: Address,
)
    requires
        a.precedes(b),
        b.precedes(c),
    ensures
        a.precedes(c),
        a.governance != Address::spec_zero() ==> c.initialize_refusal(governance) == Some(
            "already initialized",
        ),
{
    assert forall|id: U256|
        a.agents[id].owner != Address::spec_zero() implies (#[trigger] c.agents[id]).owner
        != Address::spec_zero() by {
        assert(b.agents[id].owner != Address::spec_zero());
    }
}

/// Governance passes in two steps.  A proposal changes nothing for the governance;
/// only the proposed one can accept it; then it has every right and the old one has
/// none, and the proposal is used up.
pub proof fn law_governance_passes_in_two_steps(
    s: AgentRegistryState,
    msg: Message,
    new_governance: Address,
    other: Message,
)
    requires
        s.new_governance_refusal(msg, new_governance) is None,
    ensures
        s.governance_proposed(new_governance).governance_refusal(other) == s.governance_refusal(
            other,
        ),
        s.governance_proposed(new_governance).accept_governance_refusal(other) is None
            <==> other.sender == new_governance,
        s.governance_proposed(new_governance).governance_accepted().governance_refusal(other)
            is None <==> other.sender == new_governance,
        other.sender != Address::spec_zero() ==> s.governance_proposed(
            new_governance,
        ).governance_accepted().accept_governance_refusal(other) == Some(
            "not pending governance",
        ),
{
}

/// A paused registry takes no registration, update, deactivation or reactivation,
/// whoever asks; resuming puts everything back as it was.
pub proof fn law_pause_suspends(
    s: AgentRegistryState,
    msg: Message,
    agent_id: U256,
    capabilities: u64,
    revenue_share_bps: u16,
)
    requires
        !s.paused,
    ensures
        s.with_pause(true).register_refusal(capabilities, revenue_share_bps) == Some("paused"),
        s.with_pause(true).update_refusal(msg, agent_id, capabilities, revenue_share_bps) == Some(
            "paused",
        ),
        s.with_pause(true).deactivate_refusal(msg, agent_id) == Some("paused"),
        s.with_pause(true).reactivate_refusal(msg, agent_id) == Some("paused"),
        s.with_pause(true).with_pause(false) == s,
{
}

/// What is written about one agent is read back, and no other agent changes.
pub proof fn law_agent_reads_back(s: AgentRegistryState, id: U256, agent: Agent, other: U256)
    ensures
        s.with_agent(id, agent).agents[id] == agent,
        other != id ==> s.with_agent(id, agent).agents[other] == s.agents[other],
{
}

/// Deactivating an agent and reactivating it leaves its record as it was.
pub proof fn law_reactivation_undoes_deactivation(s: AgentRegistryState, id: U256)
    requires
        s.agents.dom().contains(id),
        s.agents[id].active,
    ensures
        ({
            let off = s.with_agent(id, Agent { active: false, ..s.agents[id] });
            off.with_agent(id, Agent { active: true, ..off.agents[id] }) == s
        }),
{
    let off = s.with_agent(id, Agent { active: false, ..s.agents[id] });
    let on = off.with_agent(id, Agent { active: true, ..off.agents[id] });
    assert(on.agents =~= s.agents);
}

/// An agent that is registered with some capabilities has a flag if and only if all
/// its bits are among them.
pub proof fn law_registered_capabilities(capabilities: u64, flag: u64)
    ensures
        includes_flag(word(capabilities as nat), flag) <==> capabilities & flag == flag,
{
    lemma_limbs_of_small(capabilities);
}

/// Two flags are held together if and only if each is held.
pub proof fn law_flags_combine(capabilities: U256, a: u64, b: u64)
    ensures
        includes_flag(capabilities, a | b) <==> includes_flag(capabilities, a) && includes_flag(
            capabilities,
            b,
        ),
        includes_flag(capabilities, 0),
{
    let c = capabilities.limbs@[0];
    assert(c & (a | b) == a | b <==> c & a == a && c & b == b) by (bit_vector);
    assert(c & 0u64 == 0) by (bit_vector);
}

/// A registration that is accepted takes the next number, which nothing was
/// registered under, and the next registration takes another.
pub proof fn law_numbers_are_not_reused(
    s: AgentRegistryState,
    capabilities: u64,
    revenue_share_bps: u16,
)
    requires
        s.inv(),
        s.register_refusal(capabilities, revenue_share_bps) is None,
    ensures
        s.agents[s.next_id].owner == Address::spec_zero(),
        word(s.next_id@ + 1) != s.next_id,
        word(s.next_id@ + 1)@ == s.next_id@ + 1,
{
}

/// What is on record under a number: an agent has an owner if and only if its number
/// was assigned, its capabilities are known ones and its share is at most the whole;
/// under any other number nothing is registered.
pub proof fn law_records_are_in_order(s: AgentRegistryState, id: U256)
    requires
        s.inv(),
    ensures
        s.agents[id].owner != Address::spec_zero() <==> id@ < s.next_id@,
        s.agents[id].capabilities@ <= VALID_CAPS_MASK,
        s.agents[id].revenue_share_bps@ <= MAX_REVENUE_SHARE_BPS,
        id@ >= s.next_id@ ==> s.agents[id].capabilities@ == 0
            && s.agents[id].revenue_share_bps@ == 0 && !s.agents[id].active,
{
}

/// A deactivated agent keeps the rest of its record and still counts.
pub proof fn law_deactivated_agents_still_count(s: AgentRegistryState, id: U256)
    ensures
        ({
            let off = s.with_agent(id, Agent { active: false, ..s.agents[id] });
            &&& off.next_id == s.next_id
            &&& off.agents[id].owner == s.agents[id].owner
            &&& off.agents[id].capabilities == s.agents[id].capabilities
            &&& off.agents[id].revenue_share_bps == s.agents[id].revenue_share_bps
            &&& off.agents[id].reputation == s.agents[id].reputation
            &&& !off.agents[id].active
        }),
{
}

} // verus!
