//! Indexing rules for Dash inscriptions: script parsing, DAR-20 token
//! arithmetic and ledger decisions, DashMap and DashDomain claims.

pub mod amount;
pub mod api;
pub mod json;
pub mod ledger;
pub mod models;
pub mod parser;
pub mod rpc;
pub mod script;
pub mod store;
pub mod sync;
pub mod text;

use vstd::prelude::*;

verus! {

} // verus!
