//! A custodial vault and a two-asset constant-product market maker over
//! arbitrary-precision unsigned amounts. Every operation that settles
//! against an external token ledger is split into a request step, run
//! before the asynchronous transfer, and a commit step, run after its
//! outcome is known; both steps carry contracts, and the service invariant
//! — the LP-share supply equals the sum of all LP-share entries — is
//! maintained across every commit.

pub mod account;
pub mod bignat;
pub mod laws;
pub mod ledger;
pub mod math;
pub mod service;
