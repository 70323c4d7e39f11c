//! A stake-weighted governance ledger.
//!
//! The crate models a DAO core: a configuration registry with a monotonic
//! proposal counter, a per-participant stake ledger, one-per-(participant,
//! proposal) vote records, a lazily evaluated proposal lifecycle state
//! machine, an integer-exact treasury split engine, a multisig roster, and
//! an authority-delegation gate that reconstructs derived signing
//! capabilities on demand.  All state lives in plain values; the surrounding
//! runtime performs value transfers and sub-action invocations that the
//! verified core decides on.

pub mod addr;
pub mod errors;
pub mod domains;
pub mod sums;
pub mod treasury;
pub mod config;
pub mod stake;
pub mod vote_state;
pub mod proposal;
pub mod multisig;
pub mod authority;
pub mod dao;
