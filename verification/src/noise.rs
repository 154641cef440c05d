//! The query interfaces of the noise pipeline. Every noise source is a pure
//! function of the seed and the query point: its executable query is pinned
//! to a spec-level mirror, so determinism holds by construction.

use vstd::prelude::*;

verus! {

use crate::seed::ProcSeed;

/// The input-contract violations a checked noise query reports.
#[derive(Clone, Copy, PartialEq, Eq, Structural, Debug)]
pub enum NoiseError {
    /// The point's dimension does not match the field's.
    InvalidInput,
}

/// A scalar noise field over fixed-point points of a configured dimension.
pub trait Noise {
    /// The source is fully constructed and internally consistent.
    spec fn wf(&self) -> bool;

    /// The dimension of the points this source accepts.
    spec fn dim(&self) -> int;

    /// The mathematical value of the field at `point` under `seed`.
    spec fn spec_noise(&self, seed: ProcSeed, point: Seq<i64>) -> i64;

    /// Evaluates the field. Total and deterministic: the result is exactly
    /// the spec-level value of the field at this seed and point.
    fn get_noise(&self, seed: &ProcSeed, point: &Vec<i64>) -> (r: i64)
        requires
            self.wf(),
            point@.len() == self.dim(),
        ensures
            r == self.spec_noise(*seed, point@),
    ;

    /// Checked evaluation: a point of the wrong dimension is reported as a
    /// defined error instead of being left to the caller's guard.
    fn try_get_noise(&self, seed: &ProcSeed, point: &Vec<i64>) -> (r: Result<i64, NoiseError>)
        requires
            self.wf(),
        ensures
            point@.len() == self.dim() ==> r == Ok::<i64, NoiseError>(
                self.spec_noise(*seed, point@),
            ),
            point@.len() != self.dim() ==> r == Err::<i64, NoiseError>(NoiseError::InvalidInput),
    ;
}

/// A noise field with an analytic gradient.
pub trait NoiseDerivative {
    /// The source is fully constructed and internally consistent.
    spec fn der_wf(&self) -> bool;

    /// The dimension of the points this source accepts.
    spec fn der_dim(&self) -> int;

    /// The mathematical gradient of the field at `point` under `seed`.
    spec fn spec_noise_derivative(&self, seed: ProcSeed, point: Seq<i64>) -> Seq<i64>;

    /// Evaluates the gradient, one fixed-point partial derivative per axis.
    fn get_noise_derivative(&self, seed: &ProcSeed, point: &Vec<i64>) -> (r: Vec<i64>)
        requires
            self.der_wf(),
            point@.len() == self.der_dim(),
        ensures
            r@ == self.spec_noise_derivative(*seed, point@),
    ;
}

/// Determinism: a noise source's value is a function of the seed and the
/// point alone, so any two results that meet `get_noise`'s contract for the
/// same source, seed and point are bit-identical.
pub proof fn lemma_noise_deterministic<N: Noise>(
    source: &N,
    seed: ProcSeed,
    point: Seq<i64>,
    r1: i64,
    r2: i64,
)
    requires
        r1 == source.spec_noise(seed, point),
        r2 == source.spec_noise(seed, point),
    ensures
        r1 == r2,
{
}

} // verus!
