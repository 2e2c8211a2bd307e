//! What the surrounding node presents of this core: its version identity,
//! the chain-spec extension record, and the handles the service layer
//! builds around a client.

use vstd::prelude::*;

verus! {

/// Chain-spec extensions: where the chain sits in the wider network.
#[derive(Clone, PartialEq, Eq, Debug)]
pub struct Extensions {
    /// The relay chain this chain attaches to.
    pub relay_chain: String,
    /// This chain's own network id.
    pub para_id: u32,
}

/// The version identity the node reports for this core.
#[derive(Clone, Copy, PartialEq, Eq, Debug)]
pub struct VersionInfo {
    /// Human-readable node name.
    pub name: &'static str,
    /// Executable name.
    pub executable_name: &'static str,
    /// The state machine this core implements.
    pub spec_name: &'static str,
    /// Implementation name.
    pub implementation_name: &'static str,
    /// Version of the state machine's rules.
    pub spec_version: u32,
    /// Version of this implementation.
    pub impl_version: u32,
    /// Version of the authoring interface.
    pub authoring_version: u32,
    /// Version of the call encoding.
    pub transaction_version: u32,
    /// Version of the state layout.
    pub state_version: u32,
}

/// The version identity of this core.
pub fn version() -> (r: VersionInfo)
    ensures
        r.spec_name@ == "ikubchain"@,
        r.executable_name@ == "ikubchain"@,
        r.spec_version == 1,
        r.impl_version == 1,
        r.authoring_version == 1,
        r.transaction_version == 1,
        r.state_version == 1,
{
    VersionInfo {
        name: "IkubChain Node",
        executable_name: "ikubchain",
        spec_name: "ikubchain",
        implementation_name: "ikubchain-node",
        spec_version: 1,
        impl_version: 1,
        authoring_version: 1,
        transaction_version: 1,
        state_version: 1,
    }
}

/// Which chain a node of this core should run.
#[derive(Clone, Copy, PartialEq, Eq, Structural, Debug)]
pub enum ChainSpec {
    /// A single-authority development chain.
    Development,
    /// A small local test network.
    LocalTestnet,
    /// The main network.
    IkubChain,
}

impl core::str::FromStr for ChainSpec {
    type Err = String;

    /// The selector names accepted on the command line: `dev`, `local`
    /// and `ikub`.
    fn from_str(s: &str) -> Result<ChainSpec, String> {
        if s == "dev" {
            Ok(ChainSpec::Development)
        } else if s == "local" {
            Ok(ChainSpec::LocalTestnet)
        } else if s == "ikub" {
            Ok(ChainSpec::IkubChain)
        } else {
            Err("Invalid chain spec".to_string())
        }
    }
}

/// The query facade the node offers over a client handle.
pub struct IkubChain<C> {
    /// The wrapped client.
    pub client: C,
}

impl<C> IkubChain<C> {
    /// Wrap a client handle.
    pub fn new(client: C) -> (r: IkubChain<C>)
        ensures
            r.client == client,
    {
        IkubChain { client }
    }
}

/// Marker for the executor that applies calls of this core natively.
pub struct Executor;

} // verus!
