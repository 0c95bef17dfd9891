//! Personal investment-portfolio tracker: the ledger model and the
//! performance engine, with money held as integer cents.
use vstd::prelude::*;

pub mod date;
pub mod error;
pub mod performance;
pub mod portfolio;
pub mod data;
pub mod finance;

verus! {

} // verus!
