//! Fractal noise: a stack of independently seeded simplex octaves at
//! geometrically scaled frequencies and amplitudes, normalized by the sum of
//! the weights so the output range does not depend on the octave count.

use vstd::prelude::*;

verus! {

use crate::fp::{
    FP_ONE, spec_sat_add, spec_fp_mul, spec_fp_div, sat_add, fp_mul, fp_div, lemma_fp_mul_one,
    lemma_fp_div_one,
};
use crate::seed::{ProcSeed, spec_derive_hash, spec_hash_u64};
use crate::simplex::{SimplexNoise, MAX_DIM};
use crate::noise::{Noise, NoiseError};

/// The `n`-th fixed-point power of the octave factor.
pub open spec fn spec_fp_pow(f: i64, n: int) -> i64
    decreases n,
{
    if n <= 0 {
        FP_ONE
    } else {
        spec_fp_mul(spec_fp_pow(f, n - 1) as int, f as int)
    }
}

/// The sum of the first `n` octave weights.
pub open spec fn spec_weight_sum(f: i64, n: int) -> i64
    decreases n,
{
    if n <= 0 {
        0
    } else {
        spec_sat_add(spec_weight_sum(f, n - 1) as int, spec_fp_pow(f, n - 1) as int)
    }
}

/// The query point scaled up for one octave: each coordinate divided by the
/// octave weight (by one micro-unit, the smallest positive weight, where the
/// weight has rounded to zero).
pub open spec fn spec_scaled_point(point: Seq<i64>, mul: i64) -> Seq<i64> {
    Seq::new(
        point.len(),
        |j: int|
            spec_fp_div(
                point[j] as int,
                if mul >= 1 {
                    mul as int
                } else {
                    1
                },
            ),
    )
}

/// Powers of a nonnegative factor stay nonnegative.
pub proof fn lemma_fp_pow_nonneg(f: i64, n: int)
    requires
        f >= 0,
    ensures
        spec_fp_pow(f, n) >= 0,
    decreases n,
{
    if n > 0 {
        lemma_fp_pow_nonneg(f, n - 1);
        let p = spec_fp_pow(f, n - 1);
        assert(p as int * f as int >= 0) by (nonlinear_arith)
            requires
                p >= 0,
                f >= 0,
        ;
        vstd::arithmetic::div_mod::lemma_div_pos_is_pos(p as int * f as int, FP_ONE as int);
    }
}

/// With at least one octave, the weight sum is at least one whole unit.
pub proof fn lemma_weight_sum_min(f: i64, n: int)
    requires
        f >= 0,
        n >= 1,
    ensures
        spec_weight_sum(f, n) >= FP_ONE,
    decreases n,
{
    if n == 1 {
        assert(spec_weight_sum(f, 0) == 0);
        assert(spec_fp_pow(f, 0) == FP_ONE);
        assert(spec_weight_sum(f, 1) == spec_sat_add(0, spec_fp_pow(f, 0) as int));
    } else {
        lemma_weight_sum_min(f, n - 1);
        lemma_fp_pow_nonneg(f, n - 1);
    }
}

/// An ordered stack of independently constructed simplex octaves sharing
/// one dimension, plus the per-octave frequency/amplitude decay factor.
pub struct OctavedSimplexNoise {
    pub dim: usize,
    pub octaves: Vec<SimplexNoise>,
    pub octave_factor: i64,
}

impl OctavedSimplexNoise {
    /// Every octave is a well-formed field of the stack's dimension, and
    /// the decay factor is positive.
    pub open spec fn stack_wf(&self) -> bool {
        &&& 1 <= self.dim <= MAX_DIM
        &&& self.octaves@.len() >= 1
        &&& self.octave_factor > 0
        &&& forall|i: int|
            0 <= i < self.octaves@.len() ==> (#[trigger] self.octaves@[i]).wf()
        &&& forall|i: int|
            0 <= i < self.octaves@.len() ==> (#[trigger] self.octaves@[i]).dim == self.dim
    }

    /// Builds `num_octaves` fresh simplex fields of dimension `dim`.
    pub fn new(dim: usize, num_octaves: usize, octave_factor: i64) -> (stack: OctavedSimplexNoise)
        requires
            1 <= dim <= MAX_DIM,
            num_octaves >= 1,
            octave_factor > 0,
        ensures
            stack.stack_wf(),
            stack.dim == dim,
            stack.octaves@.len() == num_octaves,
            stack.octave_factor == octave_factor,
    {
        let mut octaves: Vec<SimplexNoise> = Vec::new();
        let mut i: usize = 0;
        while i < num_octaves
            invariant
                1 <= dim <= MAX_DIM,
                i <= num_octaves,
                octaves@.len() == i,
                forall|k: int| 0 <= k < i ==> (#[trigger] octaves@[k]).wf(),
                forall|k: int| 0 <= k < i ==> (#[trigger] octaves@[k]).dim == dim,
            decreases num_octaves - i,
        {
            octaves.push(SimplexNoise::new(dim));
            i = i + 1;
        }
        OctavedSimplexNoise { dim, octaves, octave_factor }
    }

    /// The weighted noise sum over the first `n` octaves: octave `i` is
    /// sampled at the point scaled by its weight, under the seed derived by
    /// the octave index, and contributes its value times its weight.
    pub open spec fn spec_noise_sum(&self, seed: ProcSeed, point: Seq<i64>, n: int) -> i64
        decreases n,
    {
        if n <= 0 {
            0
        } else {
            let mul = spec_fp_pow(self.octave_factor, n - 1);
            let child_hash = spec_derive_hash(seed.hash, spec_hash_u64((n - 1) as u64));
            let oct = self.octaves@[n - 1].spec_eval(
                child_hash,
                spec_scaled_point(point, mul),
            ).0;
            spec_sat_add(
                self.spec_noise_sum(seed, point, n - 1) as int,
                spec_fp_mul(oct as int, mul as int) as int,
            )
        }
    }

    /// The normalized fractal value: the weighted sum divided by the sum of
    /// the weights.
    #[verifier::opaque]
    pub open spec fn spec_octave_noise(&self, seed: ProcSeed, point: Seq<i64>) -> i64 {
        let n = self.octaves@.len() as int;
        spec_fp_div(
            self.spec_noise_sum(seed, point, n) as int,
            spec_weight_sum(self.octave_factor, n) as int,
        )
    }
}

fn scale_point(point: &Vec<i64>, divisor: i64) -> (r: Vec<i64>)
    requires
        divisor >= 1,
    ensures
        r@.len() == point@.len(),
        forall|j: int|
            0 <= j < point@.len() ==> #[trigger] r@[j] == spec_fp_div(
                point@[j] as int,
                divisor as int,
            ),
{
    let mut r: Vec<i64> = Vec::new();
    let mut j: usize = 0;
    while j < point.len()
        invariant
            divisor >= 1,
            j <= point@.len(),
            r@.len() == j,
            forall|q: int|
                0 <= q < j ==> #[trigger] r@[q] == spec_fp_div(point@[q] as int, divisor as int),
        decreases point@.len() - j,
    {
        r.push(fp_div(point[j], divisor));
        j = j + 1;
    }
    r
}

impl Noise for OctavedSimplexNoise {
    open spec fn wf(&self) -> bool {
        self.stack_wf()
    }

    open spec fn dim(&self) -> int {
        self.dim as int
    }

    open spec fn spec_noise(&self, seed: ProcSeed, point: Seq<i64>) -> i64 {
        self.spec_octave_noise(seed, point)
    }

    fn get_noise(&self, seed: &ProcSeed, point: &Vec<i64>) -> (r: i64) {
        let n = self.octaves.len();
        let mut total: i64 = 0;
        let mut wsum: i64 = 0;
        let mut mul: i64 = FP_ONE;
        let mut i: usize = 0;
        while i < n
            invariant
                self.stack_wf(),
                n == self.octaves@.len(),
                point@.len() == self.dim,
                i <= n,
                total == self.spec_noise_sum(*seed, point@, i as int),
                wsum == spec_weight_sum(self.octave_factor, i as int),
                mul == spec_fp_pow(self.octave_factor, i as int),
                mul >= 0,
            decreases n - i,
        {
            let divisor = if mul >= 1 {
                mul
            } else {
                1
            };
            let scaled = scale_point(point, divisor);
            proof {
                assert(scaled@ =~= spec_scaled_point(point@, mul));
            }
            let child = seed.derive(i as u64);
            let oct = &self.octaves[i];
            let nd = oct.get(&child, &scaled);
            total = sat_add(total, fp_mul(nd.0, mul));
            wsum = sat_add(wsum, mul);
            proof {
                lemma_fp_pow_nonneg(self.octave_factor, i as int + 1);
            }
            mul = fp_mul(mul, self.octave_factor);
            i = i + 1;
        }
        proof {
            reveal(OctavedSimplexNoise::spec_octave_noise);
            lemma_weight_sum_min(self.octave_factor, n as int);
        }
        fp_div(total, wsum)
    }

    fn try_get_noise(&self, seed: &ProcSeed, point: &Vec<i64>) -> (r: Result<i64, NoiseError>) {
        if point.len() == self.dim {
            Ok(self.get_noise(seed, point))
        } else {
            Err(NoiseError::InvalidInput)
        }
    }
}

/// With a single octave, normalization is exact: the stack returns the
/// underlying simplex field's value at the unscaled point, under the seed
/// derived by index zero.
pub proof fn lemma_single_octave(stack: &OctavedSimplexNoise, seed: ProcSeed, point: Seq<i64>)
    requires
        stack.stack_wf(),
        stack.octaves@.len() == 1,
    ensures
        stack.spec_octave_noise(seed, point) == stack.octaves@[0].spec_eval(
            spec_derive_hash(seed.hash, spec_hash_u64(0)),
            point,
        ).0,
{
    reveal(OctavedSimplexNoise::spec_octave_noise);
    let f = stack.octave_factor;
    assert(spec_fp_pow(f, 0) == FP_ONE);
    let scaled = spec_scaled_point(point, FP_ONE);
    assert forall|j: int| 0 <= j < point.len() implies #[trigger] scaled[j] == point[j] by {
        lemma_fp_div_one(point[j]);
    }
    assert(scaled =~= point);
    let oct = stack.octaves@[0].spec_eval(
        spec_derive_hash(seed.hash, spec_hash_u64(0)),
        point,
    ).0;
    lemma_fp_mul_one(oct);
    assert(stack.spec_noise_sum(seed, point, 0) == 0);
    assert(stack.spec_noise_sum(seed, point, 1) == spec_sat_add(
        0,
        spec_fp_mul(oct as int, FP_ONE as int) as int,
    ));
    assert(stack.spec_noise_sum(seed, point, 1) == oct);
    assert(spec_weight_sum(f, 0) == 0);
    assert(spec_weight_sum(f, 1) == spec_sat_add(0, FP_ONE as int));
    lemma_fp_div_one(oct);
}

} // verus!
