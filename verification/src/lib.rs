//! Wrapping a proof of a recursive proof system into a pairing-based one, as
//! far as it can be decided without running either proof system.
//!
//! The proof systems, the disk and the foreign prover are somebody else's.
//! This library holds the rules between them:
//!
//! - [`marshal`]: how a text becomes a terminated buffer and back;
//! - [`bridge`]: what is handed to the foreign prover and verifier, and what
//!   their replies are taken for;
//! - [`verdict`]: what the foreign verifier's answer means;
//! - [`wrapper`]: the course of one wrap, as a machine from events to actions;
//! - [`runs`]: what holds of every course that the machine can take;
//! - [`ledger`]: which returned buffers are the caller's to release;
//! - [`parameters`]: the parameter set of the outer circuit;
//! - [`error`]: what can go wrong.

pub mod bridge;
pub mod error;
pub mod ledger;
pub mod marshal;
pub mod parameters;
pub mod runs;
pub mod verdict;
pub mod wrapper;
