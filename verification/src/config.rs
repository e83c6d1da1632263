//! The configuration of the bot: which contracts it watches and on which
//! chains they live.

use vstd::prelude::*;

verus! {

/// The kind of a monitored contract.
#[derive(Clone, Copy, Debug, PartialEq, Eq, Structural)]
pub enum ContractType {
    StrideLiquidStaker,
    OsmoLiquidPooler,
    NativeSplitter,
    IbcForwarder,
    AstroportLiquidPooler,
    InterchainRouter,
    SwapHolder,
    TwoPartyPolHolder,
    RemoteChainSplitter,
    NativeRouter,
}

impl ContractType {
    /// Whether contracts of this kind answer a state query that is worth
    /// comparing. Routers and splitters do not: only their balances are
    /// watched.
    pub open spec fn spec_has_state(self) -> bool {
        !(self is NativeSplitter || self is InterchainRouter || self is NativeRouter)
    }

    #[verifier::when_used_as_spec(spec_has_state)]
    pub fn has_state(self) -> (r: bool)
        ensures
            r == self.spec_has_state(),
    {
        match self {
            ContractType::NativeSplitter
            | ContractType::InterchainRouter
            | ContractType::NativeRouter => false,
            _ => true,
        }
    }
}

/// One monitored contract as the configuration names it.
#[derive(Clone)]
pub struct Contract {
    pub ctype: ContractType,
    pub chain_prefix: String,
    pub address: String,
}

pub struct ContractView {
    pub ctype: ContractType,
    pub chain_prefix: Seq<char>,
    pub address: Seq<char>,
}

impl View for Contract {
    type V = ContractView;

    open spec fn view(&self) -> ContractView {
        ContractView {
            ctype: self.ctype,
            chain_prefix: self.chain_prefix@,
            address: self.address@,
        }
    }
}

/// How to reach one chain, and the denom its fees are paid in.
pub struct Chain {
    pub chain_prefix: String,
    pub base_denom: String,
    pub endpoint: String,
}

pub struct ChainView {
    pub chain_prefix: Seq<char>,
    pub base_denom: Seq<char>,
    pub endpoint: Seq<char>,
}

impl View for Chain {
    type V = ChainView;

    open spec fn view(&self) -> ChainView {
        ChainView {
            chain_prefix: self.chain_prefix@,
            base_denom: self.base_denom@,
            endpoint: self.endpoint@,
        }
    }
}

pub struct Config {
    pub contract: Vec<Contract>,
    pub chain: Vec<Chain>,
}

pub struct ConfigView {
    pub contract: Seq<ContractView>,
    pub chain: Seq<ChainView>,
}

impl View for Config {
    type V = ConfigView;

    open spec fn view(&self) -> ConfigView {
        ConfigView {
            contract: self.contract@.map_values(|c: Contract| c@),
            chain: self.chain@.map_values(|c: Chain| c@),
        }
    }
}

/// Why a configuration cannot be run.
#[derive(Clone, Copy, Debug, PartialEq, Eq, Structural)]
pub enum ConfigError {
    /// There is no contract to watch.
    NoContracts,
    /// The contract at this position names a chain prefix that no chain
    /// entry has.
    UnknownChain { contract: usize },
}

/// Some chain entry carries this prefix.
pub open spec fn prefix_known(chains: Seq<ChainView>, prefix: Seq<char>) -> bool {
    exists|j: int| 0 <= j < chains.len() && (#[trigger] chains[j]).chain_prefix == prefix
}

/// `j` is the entry that serves `prefix`: the last one that carries it, as
/// a later entry replaces an earlier one with the same prefix.
pub open spec fn serves(chains: Seq<ChainView>, prefix: Seq<char>, j: int) -> bool {
    &&& 0 <= j < chains.len()
    &&& chains[j].chain_prefix == prefix
    &&& forall|k: int| j < k < chains.len() ==> (#[trigger] chains[k]).chain_prefix != prefix
}

/// Every contract before position `n` names a known chain.
pub open spec fn chains_known(c: ConfigView, n: int) -> bool {
    forall|i: int| 0 <= i < n ==> prefix_known(c.chain, (#[trigger] c.contract[i]).chain_prefix)
}

/// What `validate` answers.
pub open spec fn validated(c: ConfigView) -> Result<(), ConfigError> {
    if c.contract.len() == 0 {
        Err(ConfigError::NoContracts)
    } else if chains_known(c, c.contract.len() as int) {
        Ok(())
    } else {
        Err(ConfigError::UnknownChain { contract: first_unknown(c) as usize })
    }
}

/// The position of the first contract whose chain prefix is unknown.
pub open spec fn first_unknown(c: ConfigView) -> int {
    choose|i: int|
        0 <= i < c.contract.len() && chains_known(c, i) && !prefix_known(
            c.chain,
            (#[trigger] c.contract[i]).chain_prefix,
        )
}

impl Config {
    /// The position of the chain entry that serves `prefix`, if any does.
    pub fn chain_index(&self, prefix: &str) -> (r: Option<usize>)
        ensures
            match r {
                Some(j) => serves(self@.chain, prefix@, j as int),
                None => !prefix_known(self@.chain, prefix@),
            },
    {
        let wanted = prefix.to_owned();
        let mut i: usize = self.chain.len();
        while i > 0
            invariant
                i <= self.chain.len(),
                wanted@ == prefix@,
                forall|k: int|
                    i <= k < self.chain.len() ==> (#[trigger] self@.chain[k]).chain_prefix
                        != prefix@,
            decreases i,
        {
            i = i - 1;
            if self.chain[i].chain_prefix == wanted {
                return Some(i);
            }
        }
        None
    }

    /// Checks that the configuration can be run: it names at least one
    /// contract, and every contract lives on a configured chain.
    pub fn validate(&self) -> (r: Result<(), ConfigError>)
        ensures
            r == validated(self@),
            r matches Err(ConfigError::UnknownChain { contract }) ==> {
                &&& contract < self.contract.len()
                &&& chains_known(self@, contract as int)
                &&& !prefix_known(self@.chain, self@.contract[contract as int].chain_prefix)
            },
    {
        if self.contract.len() == 0 {
            return Err(ConfigError::NoContracts);
        }
        let mut i: usize = 0;
        while i < self.contract.len()
            invariant
                i <= self.contract.len(),
                chains_known(self@, i as int),
            decreases self.contract.len() - i,
        {
            match self.chain_index(self.contract[i].chain_prefix.as_str()) {
                Some(_) => {},
                None => {
                    proof {
                        lemma_first_unknown(self@, i as int);
                    }
                    return Err(ConfigError::UnknownChain { contract: i });
                },
            }
            i = i + 1;
        }
        Ok(())
    }
}

/// The first contract with an unknown chain is unique.
proof fn lemma_first_unknown(c: ConfigView, i: int)
    requires
        0 <= i < c.contract.len(),
        chains_known(c, i),
        !prefix_known(c.chain, c.contract[i].chain_prefix),
    ensures
        first_unknown(c) == i,
        !chains_known(c, c.contract.len() as int),
{
    let j = first_unknown(c);
    assert(0 <= j < c.contract.len() && chains_known(c, j) && !prefix_known(
        c.chain,
        c.contract[j].chain_prefix,
    ));
    if j < i {
        assert(prefix_known(c.chain, c.contract[j].chain_prefix));
    }
    if i < j {
        assert(prefix_known(c.chain, c.contract[i].chain_prefix));
    }
}

} // verus!
