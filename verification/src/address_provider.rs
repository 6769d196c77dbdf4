//! The address registry's interface: the protocol roles it resolves and
//! the queries it answers. The registry itself is an external collaborator;
//! the host queries it and hands the resolved addresses to the operations
//! that need them.

use vstd::prelude::*;

verus! {

/// A protocol role the registry resolves to a live address.
#[derive(Clone, Copy, Debug, PartialEq, Eq, Structural)]
pub enum MarsContract {
    Council,
    Incentives,
    InsuranceFund,
    MarsToken,
    Oracle,
    ProtocolAdmin,
    ProtocolRewardsCollector,
    RedBank,
    Staking,
    Treasury,
    XMarsToken,
}

/// A query to the registry.
#[derive(Clone, Debug, PartialEq, Eq)]
pub enum QueryMsg {
    /// The registry's configuration.
    Config,
    /// One role's address.
    Address { contract: MarsContract },
    /// Several roles' addresses, in the order asked.
    Addresses { contracts: Vec<MarsContract> },
}

/// A migration request; the registry takes no arguments for one.
#[derive(Clone, Copy, Debug, PartialEq, Eq, Structural)]
pub struct MigrateMsg {}

} // verus!
