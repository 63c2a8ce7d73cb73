//! Encoding of auction rounds for external solvers, and validation of the
//! solutions they propose.
pub mod bytes;
pub mod decimal;
pub mod hex;
pub mod u256;
pub mod domain;
pub mod auction;
pub mod competition;
pub mod solution;
pub mod laws;
