use ticker_bot::coin::Coin;
use ticker_bot::config::{Chain, Config, ConfigError, Contract, ContractType};
use ticker_bot::scheduler::{Action, Event, Outcome, Phase, Policy, Scheduler, StepError};

fn contract(ctype: ContractType, address: &str) -> Contract {
    Contract { ctype, chain_prefix: "neutron".to_string(), address: address.to_string() }
}

fn neutron() -> Chain {
    Chain {
        chain_prefix: "neutron".to_string(),
        base_denom: "untrn".to_string(),
        endpoint: "http://localhost:9090".to_string(),
    }
}

fn config(contracts: Vec<Contract>) -> Config {
    Config { contract: contracts, chain: vec![neutron()] }
}

fn coin(denom: &str, amount: &str) -> Coin {
    Coin { denom: denom.to_string(), amount: amount.to_string() }
}

fn sleep(seconds: u64, subject: usize, outcome: Outcome) -> Result<Action, StepError> {
    Ok(Action::Sleep { seconds, subject, outcome })
}

#[test]
fn forwarder_is_ticked_on_first_sight_then_only_on_change() {
    let s = Scheduler::load(config(vec![contract(ContractType::IbcForwarder, "a")])).unwrap();
    assert!(s.contract(0).unwrap().state.is_empty());
    assert!(s.contract(0).unwrap().balances.is_empty());

    let (s, a) = s.step(Event::Wake);
    assert_eq!(a, Ok(Action::QueryState { subject: 0 }));
    let (s, a) = s.step(Event::State(vec![0x01]));
    assert_eq!(a, Ok(Action::QueryBalances { subject: 0 }));
    let (s, a) = s.step(Event::Balances(vec![coin("uatom", "100")]));
    assert_eq!(a, Ok(Action::Tick { subject: 0 }));
    let (s, a) = s.step(Event::Ticked);
    assert_eq!(a, sleep(5, 0, Outcome::Ticked));
    assert_eq!(s.contract(0).unwrap().state, vec![0x01]);
    assert_eq!(s.contract(0).unwrap().balances, vec![coin("uatom", "100")]);

    let (s, _) = s.step(Event::Wake);
    let (s, _) = s.step(Event::State(vec![0x01]));
    let (s, a) = s.step(Event::Balances(vec![coin("uatom", "100")]));
    assert_eq!(a, sleep(5, 0, Outcome::Skipped));

    let (s, _) = s.step(Event::Wake);
    let (s, _) = s.step(Event::State(vec![0x01]));
    let (s, a) = s.step(Event::Balances(vec![coin("uatom", "150")]));
    assert_eq!(a, Ok(Action::Tick { subject: 0 }));
    assert_eq!(s.contract(0).unwrap().balances, vec![coin("uatom", "100")]);
}

#[test]
fn native_router_is_never_asked_for_state() {
    let s = Scheduler::load(config(vec![contract(ContractType::NativeRouter, "r")])).unwrap();
    let (s, a) = s.step(Event::Wake);
    assert_eq!(a, Ok(Action::QueryBalances { subject: 0 }));
    let (s, a) = s.step(Event::Balances(vec![]));
    assert_eq!(a, sleep(5, 0, Outcome::Skipped));

    let (s, a) = s.step(Event::Wake);
    assert_eq!(a, Ok(Action::QueryBalances { subject: 0 }));
    let (s, a) = s.step(Event::Balances(vec![coin("untrn", "7")]));
    assert_eq!(a, Ok(Action::Tick { subject: 0 }));
    let (s, _) = s.step(Event::Ticked);
    assert!(s.contract(0).unwrap().state.is_empty());
    assert_eq!(s.contract(0).unwrap().balances, vec![coin("untrn", "7")]);
}

#[test]
fn splitter_and_interchain_router_are_never_asked_for_state() {
    let s = Scheduler::load(config(vec![
        contract(ContractType::NativeSplitter, "s"),
        contract(ContractType::InterchainRouter, "i"),
    ]))
    .unwrap();
    let (s, a) = s.step(Event::Wake);
    assert_eq!(a, Ok(Action::QueryBalances { subject: 0 }));
    let (s, _) = s.step(Event::Balances(vec![]));
    let (_, a) = s.step(Event::Wake);
    assert_eq!(a, Ok(Action::QueryBalances { subject: 1 }));
}

#[test]
fn a_state_answer_is_out_of_turn_for_a_router() {
    let s = Scheduler::load(config(vec![contract(ContractType::NativeRouter, "r")])).unwrap();
    let (s, _) = s.step(Event::Wake);
    let (s, a) = s.step(Event::State(vec![1, 2, 3]));
    assert_eq!(a, Err(StepError::Unexpected));
    let (_, a) = s.step(Event::Balances(vec![]));
    assert_eq!(a, sleep(5, 0, Outcome::Skipped));
}

/// Runs one cycle in which nothing is seen, and gives the contract visited.
fn quiet_cycle(s: Scheduler) -> (Scheduler, usize) {
    let (s, a) = s.step(Event::Wake);
    let subject = match a {
        Ok(Action::QueryState { subject }) => subject,
        Ok(Action::QueryBalances { subject }) => subject,
        other => panic!("a cycle opens with a query, not {:?}", other),
    };
    let s = if matches!(a, Ok(Action::QueryState { .. })) {
        s.step(Event::State(vec![])).0
    } else {
        s
    };
    let (s, a) = s.step(Event::Balances(vec![]));
    assert_eq!(a, sleep(5, subject, Outcome::Skipped));
    (s, subject)
}

#[test]
fn every_contract_is_visited_equally_often_in_the_order_of_the_registry() {
    let kinds = vec![
        ContractType::StrideLiquidStaker,
        ContractType::NativeRouter,
        ContractType::IbcForwarder,
    ];
    let contracts = kinds.iter().map(|k| contract(*k, "x")).collect();
    let mut s = Scheduler::load(config(contracts)).unwrap();
    let mut seen = vec![];
    for _ in 0..12 {
        let (next, subject) = quiet_cycle(s);
        s = next;
        seen.push(subject);
    }
    assert_eq!(seen, vec![0, 1, 2, 0, 1, 2, 0, 1, 2, 0, 1, 2]);
    for actor in 0..3 {
        assert_eq!(seen.iter().filter(|v| **v == actor).count(), 4);
    }
    assert_eq!(s.cursor(), 0);
}

#[test]
fn a_failed_query_costs_the_long_pause_and_nothing_else() {
    let s = Scheduler::load(config(vec![
        contract(ContractType::IbcForwarder, "a"),
        contract(ContractType::SwapHolder, "b"),
    ]))
    .unwrap();
    let (s, _) = s.step(Event::Wake);
    let (s, a) = s.step(Event::QueryFailed);
    assert_eq!(a, sleep(60, 0, Outcome::QueryFailed));
    assert!(s.contract(0).unwrap().state.is_empty());
    assert!(s.contract(0).unwrap().balances.is_empty());
    assert_eq!(s.cursor(), 1);
    assert!(matches!(s.phase(), Phase::Idle));

    let (s, a) = s.step(Event::Wake);
    assert_eq!(a, Ok(Action::QueryState { subject: 1 }));
    let (s, _) = s.step(Event::State(vec![9]));
    let (s, a) = s.step(Event::QueryFailed);
    assert_eq!(a, sleep(60, 1, Outcome::QueryFailed));
    assert!(s.contract(1).unwrap().state.is_empty());
    let (_, a) = s.step(Event::Wake);
    assert_eq!(a, Ok(Action::QueryState { subject: 0 }));
}

#[test]
fn a_failed_tick_is_tried_again_at_the_next_turn() {
    let s = Scheduler::load(config(vec![contract(ContractType::SwapHolder, "a")])).unwrap();
    let (s, _) = s.step(Event::Wake);
    let (s, _) = s.step(Event::State(vec![1]));
    let (s, a) = s.step(Event::Balances(vec![coin("untrn", "1")]));
    assert_eq!(a, Ok(Action::Tick { subject: 0 }));
    let (s, a) = s.step(Event::TickFailed);
    assert_eq!(a, sleep(5, 0, Outcome::TickFailed { escalate: false }));
    assert!(s.contract(0).unwrap().state.is_empty());
    assert!(s.contract(0).unwrap().balances.is_empty());

    let (s, _) = s.step(Event::Wake);
    let (s, _) = s.step(Event::State(vec![1]));
    let (s, a) = s.step(Event::Balances(vec![coin("untrn", "1")]));
    assert_eq!(a, Ok(Action::Tick { subject: 0 }));
    let (s, a) = s.step(Event::Ticked);
    assert_eq!(a, sleep(5, 0, Outcome::Ticked));

    let (s, _) = s.step(Event::Wake);
    let (s, _) = s.step(Event::State(vec![2]));
    let (s, a) = s.step(Event::Balances(vec![coin("untrn", "1")]));
    assert_eq!(a, Ok(Action::Tick { subject: 0 }));
    let (s, a) = s.step(Event::TickFailed);
    assert_eq!(a, sleep(5, 0, Outcome::TickFailed { escalate: true }));
    assert_eq!(s.contract(0).unwrap().state, vec![1]);
}

#[test]
fn a_failed_tick_of_a_router_with_balances_stored_is_escalated() {
    let s = Scheduler::load(config(vec![contract(ContractType::NativeRouter, "r")])).unwrap();
    let (s, _) = s.step(Event::Wake);
    let (s, _) = s.step(Event::Balances(vec![coin("untrn", "1")]));
    let (s, _) = s.step(Event::Ticked);
    let (s, _) = s.step(Event::Wake);
    let (s, _) = s.step(Event::Balances(vec![coin("untrn", "2")]));
    let (_, a) = s.step(Event::TickFailed);
    assert_eq!(a, sleep(5, 0, Outcome::TickFailed { escalate: true }));
}

#[test]
fn the_order_of_the_coins_is_no_change() {
    let s = Scheduler::load(config(vec![contract(ContractType::NativeRouter, "r")])).unwrap();
    let (s, _) = s.step(Event::Wake);
    let (s, _) = s.step(Event::Balances(vec![coin("uatom", "1"), coin("untrn", "2")]));
    let (s, _) = s.step(Event::Ticked);
    let (s, _) = s.step(Event::Wake);
    let (_, a) = s.step(Event::Balances(vec![coin("untrn", "2"), coin("uatom", "1")]));
    assert_eq!(a, sleep(5, 0, Outcome::Skipped));
}

#[test]
fn events_out_of_turn_change_nothing() {
    let s = Scheduler::load(config(vec![contract(ContractType::SwapHolder, "a")])).unwrap();
    let (s, a) = s.step(Event::Ticked);
    assert_eq!(a, Err(StepError::Unexpected));
    let (s, a) = s.step(Event::QueryFailed);
    assert_eq!(a, Err(StepError::Unexpected));
    assert_eq!(s.cursor(), 0);
    let (s, _) = s.step(Event::Wake);
    let (s, a) = s.step(Event::Wake);
    assert_eq!(a, Err(StepError::Unexpected));
    assert!(matches!(s.phase(), Phase::QueryingState { subject: 0 }));
    let (s, a) = s.step(Event::Balances(vec![]));
    assert_eq!(a, Err(StepError::Unexpected));
    let (_, a) = s.step(Event::State(vec![]));
    assert_eq!(a, Ok(Action::QueryBalances { subject: 0 }));
}

#[test]
fn the_pauses_can_be_set() {
    assert_eq!(Policy::default(), Policy { poll_interval: 5, error_cooldown: 60 });
    let policy = Policy { poll_interval: 2, error_cooldown: 30 };
    let s = Scheduler::with_policy(config(vec![contract(ContractType::NativeRouter, "r")]), policy)
        .unwrap();
    assert_eq!(s.policy(), policy);
    let (s, _) = s.step(Event::Wake);
    let (s, a) = s.step(Event::QueryFailed);
    assert_eq!(a, sleep(30, 0, Outcome::QueryFailed));
    let (s, _) = s.step(Event::Wake);
    let (_, a) = s.step(Event::Balances(vec![]));
    assert_eq!(a, sleep(2, 0, Outcome::Skipped));
}

#[test]
fn a_configuration_without_contracts_is_refused() {
    assert_eq!(Scheduler::load(config(vec![])).err(), Some(ConfigError::NoContracts));
}

#[test]
fn a_contract_on_an_unknown_chain_is_refused() {
    let mut stray = contract(ContractType::SwapHolder, "b");
    stray.chain_prefix = "osmo".to_string();
    let refused = Scheduler::load(config(vec![contract(ContractType::SwapHolder, "a"), stray]));
    assert_eq!(refused.err(), Some(ConfigError::UnknownChain { contract: 1 }));
}

#[test]
fn the_later_chain_entry_serves_a_prefix() {
    let mut c = config(vec![contract(ContractType::SwapHolder, "a")]);
    let mut second = neutron();
    second.endpoint = "http://localhost:9191".to_string();
    c.chain.push(second);
    assert_eq!(c.chain_index("neutron"), Some(1));
    assert_eq!(c.chain_index("osmo"), None);
    let s = Scheduler::load(c).unwrap();
    assert_eq!(s.len(), 1);
    assert_eq!(s.chain_of(0).unwrap().endpoint, "http://localhost:9191");
    assert!(s.chain_of(1).is_none());
    assert!(s.contract(1).is_none());
}
