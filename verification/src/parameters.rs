//! The parameter set of the outer circuit.

use vstd::prelude::*;

verus! {

/// Degree of the field extension that both circuits work over.
pub const D: usize = 2;

/// Names the parameter set that the outer circuit is built with: the
/// Goldilocks field, its extension of degree `D`, and a hash over the scalar
/// field of the pairing curve, so that the pairing-based prover can check the
/// outer proof cheaply.
#[derive(Debug, Clone, Copy, PartialEq, Eq, Structural)]
pub struct Groth16WrapperParameters;

} // verus!
