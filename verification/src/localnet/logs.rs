//! The report of a started network: where each chain can be reached.

use vstd::prelude::*;

verus! {

/// The report as a whole.
pub struct Logs {
    pub start_time: u64,
    pub chains: Vec<ChainLog>,
    pub ibc_channels: Option<Vec<IbcChannelLog>>,
}

/// The addresses of one chain.
pub struct ChainLog {
    pub chain_id: String,
    pub chain_name: String,
    pub rpc_address: String,
    pub rest_address: String,
    pub grpc_address: String,
    pub p2p_address: String,
    pub ibc_paths: Option<Vec<String>>,
}

/// An IBC channel and the chain it starts on.
pub struct IbcChannelLog {
    pub chain_id: String,
    pub channel: ChannelLog,
}

/// One end of an IBC channel.
pub struct ChannelLog {
    pub channel_id: String,
    pub connection_hops: Vec<String>,
    pub counterparty: CounterpartyLog,
    pub ordering: String,
    pub port_id: String,
    pub state: String,
    pub version: String,
}

/// The other end of an IBC channel.
pub struct CounterpartyLog {
    pub channel_id: String,
    pub port_id: String,
}

/// `at` is the first chain of the report with this id.
pub open spec fn first_with_id(chains: Seq<ChainLog>, chain_id: Seq<char>, at: int) -> bool {
    &&& 0 <= at < chains.len()
    &&& chains[at].chain_id@ == chain_id
    &&& forall|k: int| 0 <= k < at ==> (#[trigger] chains[k]).chain_id@ != chain_id
}

/// No chain of the report has this id.
pub open spec fn no_such_chain(chains: Seq<ChainLog>, chain_id: Seq<char>) -> bool {
    forall|k: int| 0 <= k < chains.len() ==> (#[trigger] chains[k]).chain_id@ != chain_id
}

impl Logs {
    /// The first chain of the report with this id.
    pub fn chain(&self, chain_id: &str) -> (r: Option<&ChainLog>)
        ensures
            match r {
                Some(chain) => exists|at: int|
                    first_with_id(self.chains@, chain_id@, at) && *chain == self.chains@[at],
                None => no_such_chain(self.chains@, chain_id@),
            },
    {
        let wanted = chain_id.to_owned();
        let mut i: usize = 0;
        while i < self.chains.len()
            invariant
                i <= self.chains.len(),
                wanted@ == chain_id@,
                forall|k: int| 0 <= k < i ==> (#[trigger] self.chains@[k]).chain_id@ != chain_id@,
            decreases self.chains.len() - i,
        {
            if self.chains[i].chain_id == wanted {
                assert(first_with_id(self.chains@, chain_id@, i as int));
                return Some(&self.chains[i]);
            }
            i = i + 1;
        }
        None
    }

    /// The address at which a chain's node answers for its latest block:
    /// the chain's RPC address, then `/block`.
    pub fn block_url(&self, chain_id: &str) -> (r: Option<String>)
        ensures
            match r {
                Some(url) => exists|at: int|
                    first_with_id(self.chains@, chain_id@, at) && url@ == self.chains@[at].rpc_address@
                        + "/block"@,
                None => no_such_chain(self.chains@, chain_id@),
            },
    {
        match self.chain(chain_id) {
            Some(chain) => {
                let mut url = chain.rpc_address.clone();
                url.append("/block");
                Some(url)
            },
            None => None,
        }
    }

    /// The endpoint at which a chain answers gRPC: `https://`, then the
    /// chain's gRPC address, or then nothing if the report has no such
    /// chain.
    pub fn grpc_endpoint(&self, chain_id: &str) -> (r: String)
        ensures
            match self.chain_position(chain_id@) {
                Some(at) => r@ == "https://"@ + self.chains@[at].grpc_address@,
                None => r@ == "https://"@,
            },
    {
        let mut endpoint = "https://".to_owned();
        match self.chain(chain_id) {
            Some(chain) => {
                endpoint.append(chain.grpc_address.as_str());
            },
            None => {
                assert(endpoint@ + Seq::<char>::empty() =~= endpoint@);
            },
        }
        endpoint
    }

    /// The position of the first chain of the report with this id.
    pub open spec fn chain_position(&self, chain_id: Seq<char>) -> Option<int> {
        if no_such_chain(self.chains@, chain_id) {
            None
        } else {
            Some(choose|at: int| first_with_id(self.chains@, chain_id, at))
        }
    }
}

} // verus!
