//! A monitored contract together with what was last seen of it, and the
//! requests that are sent to its chain.

use crate::coin::{coins_view, same_balances, same_coins, Coin, CoinView};
use crate::config::{Contract, ContractType, ContractView};
use vstd::prelude::*;

verus! {

/// The messages a watched contract is sent.
#[derive(Clone, Copy, Debug, PartialEq, Eq, Structural)]
pub enum Messages {
    /// Asks the contract for its state.
    ContractState {  },
    /// Tells the contract to advance its state machine.
    Tick {  },
}

/// When a broadcast counts as delivered.
#[derive(Clone, Copy, Debug, PartialEq, Eq, Structural)]
pub enum Delivery {
    /// When the transaction is in a block.
    Block,
    /// When the node has checked and admitted it.
    Sync,
    /// At once.
    Async,
}

/// A smart query for the state of a contract.
pub struct StateQuery {
    pub address: String,
    pub message: Messages,
}

/// A query for all the balances that an address holds.
pub struct BalanceQuery {
    pub address: String,
}

/// The transaction that ticks a contract: one execute message and nothing
/// else.
pub struct TickOrder {
    pub contract: String,
    pub message: Messages,
    pub funds: Vec<Coin>,
    pub delivery: Delivery,
}

/// A monitored contract, with the state and the balances that the bot
/// last acted upon. Both are empty until the contract was first ticked.
#[derive(Clone, Debug, PartialEq)]
pub struct ContractWithData {
    pub ctype: ContractType,
    pub chain_prefix: String,
    pub address: String,
    pub state: Vec<u8>,
    pub balances: Vec<Coin>,
}

pub struct ContractWithDataView {
    pub ctype: ContractType,
    pub chain_prefix: Seq<char>,
    pub address: Seq<char>,
    pub state: Seq<u8>,
    pub balances: Seq<CoinView>,
}

impl View for ContractWithData {
    type V = ContractWithDataView;

    open spec fn view(&self) -> ContractWithDataView {
        ContractWithDataView {
            ctype: self.ctype,
            chain_prefix: self.chain_prefix@,
            address: self.address@,
            state: self.state@,
            balances: coins_view(self.balances@),
        }
    }
}

/// The name of a contract kind, as the configuration file spells it.
pub open spec fn kind_name(kind: ContractType) -> Seq<char> {
    match kind {
        ContractType::StrideLiquidStaker => "stride_liquid_staker"@,
        ContractType::OsmoLiquidPooler => "osmo_liquid_pooler"@,
        ContractType::NativeSplitter => "native_splitter"@,
        ContractType::IbcForwarder => "ibc_forwarder"@,
        ContractType::AstroportLiquidPooler => "astroport_liquid_pooler"@,
        ContractType::InterchainRouter => "interchain_router"@,
        ContractType::SwapHolder => "swap_holder"@,
        ContractType::TwoPartyPolHolder => "two_party_pol_holder"@,
        ContractType::RemoteChainSplitter => "remote_chain_splitter"@,
        ContractType::NativeRouter => "native_router"@,
    }
}

impl ContractWithDataView {
    /// The contract as it is when the bot starts: nothing seen yet.
    pub open spec fn fresh(contract: ContractView) -> ContractWithDataView {
        ContractWithDataView {
            ctype: contract.ctype,
            chain_prefix: contract.chain_prefix,
            address: contract.address,
            state: Seq::empty(),
            balances: Seq::empty(),
        }
    }

    /// An observation differs from what is stored: the state bytes are not
    /// the same, or the balances are not the same coins.
    pub open spec fn changed(self, state: Seq<u8>, balances: Seq<CoinView>) -> bool {
        state != self.state || !same_balances(balances, self.balances)
    }

    /// Something is stored: the contract was ticked before.
    pub open spec fn has_snapshot(self) -> bool {
        self.state.len() > 0 || self.balances.len() > 0
    }

    /// The contract after an observation was stored.
    pub open spec fn recorded(self, state: Seq<u8>, balances: Seq<CoinView>) -> ContractWithDataView {
        ContractWithDataView { state, balances, ..self }
    }
}

impl ContractWithData {
    /// A contract of the configuration, with nothing seen of it yet.
    pub fn new(contract: Contract) -> (r: ContractWithData)
        ensures
            r@ == ContractWithDataView::fresh(contract@),
    {
        let r = ContractWithData {
            ctype: contract.ctype,
            chain_prefix: contract.chain_prefix,
            address: contract.address,
            state: Vec::new(),
            balances: Vec::new(),
        };
        assert(r@.state =~= Seq::<u8>::empty());
        assert(r@.balances =~= Seq::<CoinView>::empty());
        r
    }

    /// The name of the contract's kind.
    pub fn as_str(&self) -> (r: &'static str)
        ensures
            r@ == kind_name(self.ctype),
    {
        match self.ctype {
            ContractType::StrideLiquidStaker => "stride_liquid_staker",
            ContractType::OsmoLiquidPooler => "osmo_liquid_pooler",
            ContractType::NativeSplitter => "native_splitter",
            ContractType::IbcForwarder => "ibc_forwarder",
            ContractType::AstroportLiquidPooler => "astroport_liquid_pooler",
            ContractType::InterchainRouter => "interchain_router",
            ContractType::SwapHolder => "swap_holder",
            ContractType::TwoPartyPolHolder => "two_party_pol_holder",
            ContractType::RemoteChainSplitter => "remote_chain_splitter",
            ContractType::NativeRouter => "native_router",
        }
    }

    /// The state query to send for this contract. There is none for the
    /// kinds whose state is not watched: their state counts as empty.
    pub fn query_state(&self) -> (r: Option<StateQuery>)
        ensures
            r is Some == self.ctype.has_state(),
            r matches Some(q) ==> q.address@ == self.address@ && q.message == (Messages::ContractState {  }),
    {
        if self.ctype.has_state() {
            Some(StateQuery { address: self.address.clone(), message: Messages::ContractState {  } })
        } else {
            None
        }
    }

    /// The balance query to send for this contract.
    pub fn query_balances(&self) -> (r: BalanceQuery)
        ensures
            r.address@ == self.address@,
    {
        BalanceQuery { address: self.address.clone() }
    }

    /// The transaction that ticks this contract: the bare tick message, no
    /// funds attached, delivered once the node has admitted it.
    pub fn tick(&self) -> (r: TickOrder)
        ensures
            r.contract@ == self.address@,
            r.message == (Messages::Tick {  }),
            r.funds@.len() == 0,
            r.delivery == Delivery::Sync,
    {
        TickOrder {
            contract: self.address.clone(),
            message: Messages::Tick {  },
            funds: Vec::new(),
            delivery: Delivery::Sync,
        }
    }

    /// Whether an observation differs from what is stored.
    pub fn has_changed(&self, state: &Vec<u8>, balances: &Vec<Coin>) -> (r: bool)
        ensures
            r == self@.changed(state@, coins_view(balances@)),
    {
        !same_bytes(state, &self.state) || !same_coins(balances, &self.balances)
    }

    /// Whether anything is stored yet.
    pub fn has_snapshot(&self) -> (r: bool)
        ensures
            r == self@.has_snapshot(),
    {
        self.state.len() > 0 || self.balances.len() > 0
    }

    /// Stores an observation in place of the previous one.
    pub fn record(&mut self, state: Vec<u8>, balances: Vec<Coin>)
        ensures
            final(self)@ == old(self)@.recorded(state@, coins_view(balances@)),
    {
        self.state = state;
        self.balances = balances;
    }
}

/// Whether two byte strings are equal byte for byte.
pub fn same_bytes(a: &Vec<u8>, b: &Vec<u8>) -> (r: bool)
    ensures
        r == (a@ == b@),
{
    if a.len() != b.len() {
        return false;
    }
    let mut i: usize = 0;
    while i < a.len()
        invariant
            i <= a.len(),
            a.len() == b.len(),
            forall|k: int| 0 <= k < i ==> a@[k] == b@[k],
        decreases a.len() - i,
    {
        if a[i] != b[i] {
            return false;
        }
        i = i + 1;
    }
    assert(a@ =~= b@);
    true
}

} // verus!
