//! A small decentralized-organization core: a fungible-token ledger, a
//! weighted-voting governance engine and a registry that catalogs
//! (ledger, governance) pairs. Each operation is a function of the
//! component's state, the caller, the current time and its arguments.
use vstd::prelude::*;

mod table;
pub mod token;
pub mod governance;
pub mod registry;

verus! {

/// An account or component identifier, as supplied by the host.
pub type Address = u64;

} // verus!
