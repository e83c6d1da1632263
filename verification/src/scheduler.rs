//! The scheduler: a state machine that visits the contracts in turn, asks
//! for what each one looks like now, and has it ticked when that differs
//! from what was stored.
//!
//! The machine does no I/O. `Scheduler::step` takes the event that ended
//! the last piece of outside work and answers with the next piece to do;
//! whoever drives it performs that and comes back with the event.

use crate::coin::{coins_view, Coin, CoinView};
use crate::config::{
    prefix_known, serves, validated, Chain, ChainView, Config, ConfigError, ConfigView,
};
use crate::contract::{ContractWithData, ContractWithDataView};
use vstd::prelude::*;

verus! {

/// The pauses of the scheduler, in seconds.
#[derive(Clone, Copy, Debug, PartialEq, Eq, Structural)]
pub struct Policy {
    /// The pause after every cycle that ran to its end.
    pub poll_interval: u64,
    /// The pause after a query failed.
    pub error_cooldown: u64,
}

impl Default for Policy {
    fn default() -> (r: Policy)
        ensures
            r == (Policy { poll_interval: 5, error_cooldown: 60 }),
    {
        Policy { poll_interval: 5, error_cooldown: 60 }
    }
}

/// How a cycle ended.
#[derive(Clone, Copy, Debug, PartialEq, Eq, Structural)]
pub enum Outcome {
    /// A query failed; nothing was compared.
    QueryFailed,
    /// Nothing had changed.
    Skipped,
    /// The contract was ticked and the observation stored.
    Ticked,
    /// The tick failed. `escalate` says whether the failure deserves an
    /// alert: it does not while nothing is stored for the contract.
    TickFailed { escalate: bool },
}

/// The outside work that the scheduler asks for next.
#[derive(Clone, Copy, Debug, PartialEq, Eq, Structural)]
pub enum Action {
    /// Query the state of the contract at this position.
    QueryState { subject: usize },
    /// Query the balances of the contract at this position.
    QueryBalances { subject: usize },
    /// Tick the contract at this position.
    Tick { subject: usize },
    /// The cycle for `subject` is over: pause, then wake the scheduler.
    Sleep { seconds: u64, subject: usize, outcome: Outcome },
}

/// An event that the scheduler was not waiting for.
#[derive(Clone, Copy, Debug, PartialEq, Eq, Structural)]
pub enum StepError {
    Unexpected,
}

/// What happened outside since the last step.
pub enum Event {
    /// The pause is over, or the scheduler was just started.
    Wake,
    /// The state query was answered with these bytes.
    State(Vec<u8>),
    /// The balance query was answered with these coins.
    Balances(Vec<Coin>),
    /// The query that was asked for failed.
    QueryFailed,
    /// The tick was delivered.
    Ticked,
    /// The tick could not be delivered.
    TickFailed,
}

pub enum EventView {
    Wake,
    State(Seq<u8>),
    Balances(Seq<CoinView>),
    QueryFailed,
    Ticked,
    TickFailed,
}

impl View for Event {
    type V = EventView;

    open spec fn view(&self) -> EventView {
        match self {
            Event::Wake => EventView::Wake,
            Event::State(bytes) => EventView::State(bytes@),
            Event::Balances(coins) => EventView::Balances(coins_view(coins@)),
            Event::QueryFailed => EventView::QueryFailed,
            Event::Ticked => EventView::Ticked,
            Event::TickFailed => EventView::TickFailed,
        }
    }
}

/// Where the scheduler is in its cycle.
pub enum Phase {
    /// Between two cycles.
    Idle,
    /// Waiting for the state of `subject`.
    QueryingState { subject: usize },
    /// Waiting for the balances of `subject`, its state in hand.
    QueryingBalances { subject: usize, state: Vec<u8> },
    /// Waiting for the tick of `subject`, the observation in hand.
    Ticking { subject: usize, state: Vec<u8>, balances: Vec<Coin> },
}

pub enum PhaseView {
    Idle,
    QueryingState { subject: nat },
    QueryingBalances { subject: nat, state: Seq<u8> },
    Ticking { subject: nat, state: Seq<u8>, balances: Seq<CoinView> },
}

impl View for Phase {
    type V = PhaseView;

    open spec fn view(&self) -> PhaseView {
        match self {
            Phase::Idle => PhaseView::Idle,
            Phase::QueryingState { subject } => PhaseView::QueryingState { subject: *subject as nat },
            Phase::QueryingBalances { subject, state } => PhaseView::QueryingBalances {
                subject: *subject as nat,
                state: state@,
            },
            Phase::Ticking { subject, state, balances } => PhaseView::Ticking {
                subject: *subject as nat,
                state: state@,
                balances: coins_view(balances@),
            },
        }
    }
}

/// The scheduler as a mathematical value.
pub struct SchedulerView {
    /// The registry, in the order in which the contracts are visited.
    pub contracts: Seq<ContractWithDataView>,
    pub chains: Seq<ChainView>,
    /// The position of the contract that the next cycle visits.
    pub cursor: nat,
    pub phase: PhaseView,
    pub policy: Policy,
}

impl SchedulerView {
    /// The state that a configuration starts in.
    pub open spec fn initial(config: ConfigView, policy: Policy) -> SchedulerView {
        SchedulerView {
            contracts: config.contract.map_values(|c| ContractWithDataView::fresh(c)),
            chains: config.chain,
            cursor: 0,
            phase: PhaseView::Idle,
            policy,
        }
    }

    /// The position after `cursor` on the ring of contracts.
    pub open spec fn successor(self) -> nat {
        if self.cursor + 1 < self.contracts.len() {
            self.cursor + 1
        } else {
            0
        }
    }

    /// The contract of a cycle is in the registry; the state in hand is
    /// empty where the contract's kind has no state to ask for.
    pub open spec fn in_hand(self, subject: nat, state: Seq<u8>) -> bool {
        &&& subject < self.contracts.len()
        &&& !self.contracts[subject as int].ctype.has_state() ==> state.len() == 0
    }

    /// What holds of every scheduler.
    pub open spec fn wf(self) -> bool {
        &&& 0 < self.contracts.len() <= usize::MAX
        &&& self.cursor < self.contracts.len()
        &&& forall|i: int|
            0 <= i < self.contracts.len() ==> prefix_known(
                self.chains,
                (#[trigger] self.contracts[i]).chain_prefix,
            )
        &&& forall|i: int|
            0 <= i < self.contracts.len() && !(#[trigger] self.contracts[i]).ctype.has_state()
                ==> self.contracts[i].state.len() == 0
        &&& match self.phase {
            PhaseView::Idle => true,
            PhaseView::QueryingState { subject } => {
                &&& subject < self.contracts.len()
                &&& self.contracts[subject as int].ctype.has_state()
            },
            PhaseView::QueryingBalances { subject, state } => self.in_hand(subject, state),
            PhaseView::Ticking { subject, state, balances } => {
                &&& self.in_hand(subject, state)
                &&& self.contracts[subject as int].changed(state, balances)
            },
        }
    }

    /// The transition of the machine: the state after `event`, and the
    /// answer to it. An event that the current phase does not wait for
    /// changes nothing and is answered with an error.
    pub open spec fn step(self, event: EventView) -> (SchedulerView, Result<Action, StepError>) {
        match (self.phase, event) {
            (PhaseView::Idle, EventView::Wake) => {
                let subject = self.cursor;
                let turned = SchedulerView { cursor: self.successor(), ..self };
                if self.contracts[subject as int].ctype.has_state() {
                    (
                        SchedulerView { phase: PhaseView::QueryingState { subject }, ..turned },
                        Ok(Action::QueryState { subject: subject as usize }),
                    )
                } else {
                    (
                        SchedulerView {
                            phase: PhaseView::QueryingBalances { subject, state: Seq::empty() },
                            ..turned
                        },
                        Ok(Action::QueryBalances { subject: subject as usize }),
                    )
                }
            },
            (PhaseView::QueryingState { subject }, EventView::State(state)) => (
                SchedulerView { phase: PhaseView::QueryingBalances { subject, state }, ..self },
                Ok(Action::QueryBalances { subject: subject as usize }),
            ),
            (PhaseView::QueryingState { subject }, EventView::QueryFailed) => self.give_up(subject),
            (PhaseView::QueryingBalances { subject, state }, EventView::QueryFailed) => self.give_up(
                subject,
            ),
            (PhaseView::QueryingBalances { subject, state }, EventView::Balances(balances)) => {
                if self.contracts[subject as int].changed(state, balances) {
                    (
                        SchedulerView {
                            phase: PhaseView::Ticking { subject, state, balances },
                            ..self
                        },
                        Ok(Action::Tick { subject: subject as usize }),
                    )
                } else {
                    self.rest(subject, Outcome::Skipped)
                }
            },
            (PhaseView::Ticking { subject, state, balances }, EventView::Ticked) => {
                let stored = self.contracts[subject as int].recorded(state, balances);
                SchedulerView {
                    contracts: self.contracts.update(subject as int, stored),
                    ..self
                }.rest(subject, Outcome::Ticked)
            },
            (PhaseView::Ticking { subject, state, balances }, EventView::TickFailed) => self.rest(
                subject,
                Outcome::TickFailed { escalate: self.contracts[subject as int].has_snapshot() },
            ),
            _ => (self, Err(StepError::Unexpected)),
        }
    }

    /// The end of a cycle whose query failed: back to idle after the long
    /// pause, with nothing else touched.
    pub open spec fn give_up(self, subject: nat) -> (SchedulerView, Result<Action, StepError>) {
        (
            SchedulerView { phase: PhaseView::Idle, ..self },
            Ok(
                Action::Sleep {
                    seconds: self.policy.error_cooldown,
                    subject: subject as usize,
                    outcome: Outcome::QueryFailed,
                },
            ),
        )
    }

    /// The end of a cycle that ran through: back to idle after the short
    /// pause.
    pub open spec fn rest(self, subject: nat, outcome: Outcome) -> (
        SchedulerView,
        Result<Action, StepError>,
    ) {
        (
            SchedulerView { phase: PhaseView::Idle, ..self },
            Ok(
                Action::Sleep {
                    seconds: self.policy.poll_interval,
                    subject: subject as usize,
                    outcome,
                },
            ),
        )
    }
}

/// The scheduler: the registry of contracts, the chains they live on, and
/// the place in the cycle.
pub struct Scheduler {
    contracts: Vec<ContractWithData>,
    chains: Vec<Chain>,
    cursor: usize,
    phase: Phase,
    policy: Policy,
}

impl View for Scheduler {
    type V = SchedulerView;

    closed spec fn view(&self) -> SchedulerView {
        SchedulerView {
            contracts: self.contracts@.map_values(|c: ContractWithData| c@),
            chains: self.chains@.map_values(|c: Chain| c@),
            cursor: self.cursor as nat,
            phase: self.phase@,
            policy: self.policy,
        }
    }
}

impl Scheduler {
    #[verifier::type_invariant]
    spec fn inv(self) -> bool {
        self@.wf()
    }

    /// A scheduler for `config` with the default pauses.
    pub fn load(config: Config) -> (r: Result<Scheduler, ConfigError>)
        ensures
            match r {
                Ok(s) => validated(config@) is Ok && s@.wf() && s@ == SchedulerView::initial(
                    config@,
                    Policy { poll_interval: 5, error_cooldown: 60 },
                ),
                Err(e) => validated(config@) == Err::<(), ConfigError>(e),
            },
    {
        Scheduler::with_policy(config, Policy::default())
    }

    /// A scheduler for `config`: every contract with nothing stored, the
    /// first contract next in turn. A configuration without contracts, or
    /// with a contract on a chain that is not configured, is refused.
    pub fn with_policy(config: Config, policy: Policy) -> (r: Result<Scheduler, ConfigError>)
        ensures
            match r {
                Ok(s) => validated(config@) is Ok && s@.wf() && s@ == SchedulerView::initial(
                    config@,
                    policy,
                ),
                Err(e) => validated(config@) == Err::<(), ConfigError>(e),
            },
    {
        match config.validate() {
            Err(e) => {
                return Err(e);
            },
            Ok(_) => {},
        }
        let ghost start = SchedulerView::initial(config@, policy);
        let mut contracts: Vec<ContractWithData> = Vec::new();
        let mut i: usize = 0;
        while i < config.contract.len()
            invariant
                i <= config.contract.len(),
                contracts@.len() == i,
                start == SchedulerView::initial(config@, policy),
                forall|k: int| 0 <= k < i ==> (#[trigger] contracts@[k])@ == start.contracts[k],
            decreases config.contract.len() - i,
        {
            let c = &config.contract[i];
            let fresh = ContractWithData {
                ctype: c.ctype,
                chain_prefix: c.chain_prefix.clone(),
                address: c.address.clone(),
                state: Vec::new(),
                balances: Vec::new(),
            };
            assert(fresh@.state =~= Seq::<u8>::empty());
            assert(fresh@.balances =~= Seq::<CoinView>::empty());
            contracts.push(fresh);
            i = i + 1;
        }
        let s = Scheduler { contracts, chains: config.chain, cursor: 0, phase: Phase::Idle, policy };
        assert(s@.contracts =~= start.contracts);
        assert(s@.chains =~= start.chains);
        Ok(s)
    }

    /// How many contracts are watched. There is always at least one.
    pub fn len(&self) -> (r: usize)
        ensures
            r == self@.contracts.len(),
            self@.wf(),
    {
        proof {
            use_type_invariant(self);
        }
        self.contracts.len()
    }

    /// The position of the contract that the next cycle visits.
    pub fn cursor(&self) -> (r: usize)
        ensures
            r == self@.cursor,
            r < self@.contracts.len(),
    {
        proof {
            use_type_invariant(self);
        }
        self.cursor
    }

    /// The pauses in use.
    pub fn policy(&self) -> (r: Policy)
        ensures
            r == self@.policy,
    {
        self.policy
    }

    /// Where the scheduler is in its cycle.
    pub fn phase(&self) -> (r: &Phase)
        ensures
            r@ == self@.phase,
    {
        &self.phase
    }

    /// The contract at a position of the registry.
    pub fn contract(&self, position: usize) -> (r: Option<&ContractWithData>)
        ensures
            match r {
                Some(c) => position < self@.contracts.len() && c@ == self@.contracts[position as int],
                None => position >= self@.contracts.len(),
            },
    {
        if position < self.contracts.len() {
            Some(&self.contracts[position])
        } else {
            None
        }
    }

    /// The chain entry that serves the contract at a position: the one
    /// whose client and wallet act for it. Every contract has one.
    pub fn chain_of(&self, position: usize) -> (r: Option<&Chain>)
        ensures
            match r {
                Some(chain) => position < self@.contracts.len() && exists|j: int|
                    serves(self@.chains, self@.contracts[position as int].chain_prefix, j)
                        && chain@ == self@.chains[j],
                None => position >= self@.contracts.len(),
            },
    {
        proof {
            use_type_invariant(self);
        }
        if position >= self.contracts.len() {
            return None;
        }
        let ghost prefix = self@.contracts[position as int].chain_prefix;
        let mut i: usize = self.chains.len();
        while i > 0
            invariant
                i <= self.chains.len(),
                position < self.contracts.len(),
                prefix == self.contracts@[position as int].chain_prefix@,
                prefix_known(self@.chains, prefix),
                forall|k: int|
                    i <= k < self.chains.len() ==> (#[trigger] self@.chains[k]).chain_prefix
                        != prefix,
            decreases i,
        {
            i = i - 1;
            if self.chains[i].chain_prefix == self.contracts[position].chain_prefix {
                assert(serves(self@.chains, prefix, i as int));
                return Some(&self.chains[i]);
            }
        }
        // Not reached: the contract's chain is among the chains.
        assert(false);
        None
    }

    /// Takes one event and answers with the scheduler after it and the
    /// next piece of outside work. An event that the scheduler was not
    /// waiting for leaves it as it was.
    pub fn step(self, event: Event) -> (r: (Scheduler, Result<Action, StepError>))
        ensures
            r.0@ == self@.step(event@).0,
            r.1 == self@.step(event@).1,
            r.0@.wf(),
    {
        proof {
            use_type_invariant(&self);
        }
        let ghost before = self@;
        let Scheduler { contracts, chains, cursor, phase, policy } = self;
        let mut contracts = contracts;
        match (phase, event) {
            (Phase::Idle, Event::Wake) => {
                let subject = cursor;
                let next = if subject + 1 < contracts.len() {
                    subject + 1
                } else {
                    0
                };
                if contracts[subject].ctype.has_state() {
                    let phase = Phase::QueryingState { subject };
                    (
                        Scheduler { contracts, chains, cursor: next, phase, policy },
                        Ok(Action::QueryState { subject }),
                    )
                } else {
                    let phase = Phase::QueryingBalances { subject, state: Vec::new() };
                    assert(phase@ == (PhaseView::QueryingBalances {
                        subject: subject as nat,
                        state: Seq::empty(),
                    }));
                    (
                        Scheduler { contracts, chains, cursor: next, phase, policy },
                        Ok(Action::QueryBalances { subject }),
                    )
                }
            },
            (Phase::QueryingState { subject }, Event::State(state)) => {
                let phase = Phase::QueryingBalances { subject, state };
                (
                    Scheduler { contracts, chains, cursor, phase, policy },
                    Ok(Action::QueryBalances { subject }),
                )
            },
            (Phase::QueryingState { subject }, Event::QueryFailed) => (
                Scheduler { contracts, chains, cursor, phase: Phase::Idle, policy },
                Ok(
                    Action::Sleep {
                        seconds: policy.error_cooldown,
                        subject,
                        outcome: Outcome::QueryFailed,
                    },
                ),
            ),
            (Phase::QueryingBalances { subject, state }, Event::QueryFailed) => (
                Scheduler { contracts, chains, cursor, phase: Phase::Idle, policy },
                Ok(
                    Action::Sleep {
                        seconds: policy.error_cooldown,
                        subject,
                        outcome: Outcome::QueryFailed,
                    },
                ),
            ),
            (Phase::QueryingBalances { subject, state }, Event::Balances(balances)) => {
                if contracts[subject].has_changed(&state, &balances) {
                    let phase = Phase::Ticking { subject, state, balances };
                    (
                        Scheduler { contracts, chains, cursor, phase, policy },
                        Ok(Action::Tick { subject }),
                    )
                } else {
                    (
                        Scheduler { contracts, chains, cursor, phase: Phase::Idle, policy },
                        Ok(
                            Action::Sleep {
                                seconds: policy.poll_interval,
                                subject,
                                outcome: Outcome::Skipped,
                            },
                        ),
                    )
                }
            },
            (Phase::Ticking { subject, state, balances }, Event::Ticked) => {
                let ghost stored = before.contracts[subject as int].recorded(
                    state@,
                    coins_view(balances@),
                );
                contracts[subject].record(state, balances);
                proof {
                    let now = contracts@.map_values(|c: ContractWithData| c@);
                    assert(now =~= before.contracts.update(subject as int, stored));
                    assert forall|i: int| 0 <= i < now.len() implies prefix_known(
                        before.chains,
                        (#[trigger] now[i]).chain_prefix,
                    ) by {
                        assert(now[i].chain_prefix == before.contracts[i].chain_prefix);
                    }
                    assert forall|i: int|
                        0 <= i < now.len() && !(#[trigger] now[i]).ctype.has_state() implies now[i].state.len()
                        == 0 by {
                        assert(now[i].ctype == before.contracts[i].ctype);
                    }
                }
                let after = Scheduler { contracts, chains, cursor, phase: Phase::Idle, policy };
                (
                    after,
                    Ok(
                        Action::Sleep {
                            seconds: policy.poll_interval,
                            subject,
                            outcome: Outcome::Ticked,
                        },
                    ),
                )
            },
            (Phase::Ticking { subject, state, balances }, Event::TickFailed) => {
                let escalate = contracts[subject].has_snapshot();
                (
                    Scheduler { contracts, chains, cursor, phase: Phase::Idle, policy },
                    Ok(
                        Action::Sleep {
                            seconds: policy.poll_interval,
                            subject,
                            outcome: Outcome::TickFailed { escalate },
                        },
                    ),
                )
            },
            (phase, _) => (
                Scheduler { contracts, chains, cursor, phase, policy },
                Err(StepError::Unexpected),
            ),
        }
    }
}

} // verus!
