//! A credit protocol without collateral of the borrower's own: vouchers stake
//! behind borrowers, and lose a share of their stakes when a loan defaults.
//!
//! The entry points of the contract are the functions of
//! [`contract::QuorumCreditContract`]. Each takes an [`env::Env`], which holds
//! as plain values what the contract reads of its host and what it asks the
//! host to do. What an entry point does is stated over the view of that value.
//!
//! An invocation fails in one of two ways. An error is returned. A trap aborts
//! the invocation: an entry point requires that there is none, and has a
//! function beside it, whose name ends in `_trap`, that tells whether there is.

pub mod arith;
pub mod contract;
pub mod env;
pub mod errors;
pub mod helpers;
pub mod host;
pub mod laws;
pub mod pool;
pub mod settlement;
pub mod types;
