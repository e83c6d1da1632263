//! Parts of the description from which a local chain is started.

use vstd::prelude::*;

verus! {

/// The container image of a chain's node.
pub struct DockerImage {
    pub version: String,
    pub repository: Option<String>,
}

/// An account that exists from the first block on.
pub struct GenesisAccount {
    pub name: String,
    pub amount: String,
    pub address: String,
    pub mnemonic: String,
}

/// Settings to overwrite in one of a node's configuration files.
pub struct ConfigFileOverrides {
    pub file: String,
    pub paths: String,
}

/// One end of an IBC channel.
#[derive(Debug)]
pub struct Channel {
    pub channel_id: String,
    pub connection_hops: Vec<String>,
    pub counterparty: Counterparty,
    pub ordering: String,
    pub port_id: String,
    pub state: String,
    pub version: String,
}

/// The other end of an IBC channel.
#[derive(Debug)]
pub struct Counterparty {
    pub channel_id: String,
    pub port_id: String,
}

} // verus!
