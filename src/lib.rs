//! Dynamic-DNS updater: change detection, provider requests and credential
//! bookkeeping, with every decision stated as a contract.
use vstd::prelude::*;

pub mod assoc;
pub mod config;
pub mod daemon;
pub mod dns;
pub mod ip;
pub mod secrets;

verus! {

} // verus!
