//! Seamless tiling: each spatial coordinate is embedded as a point on a
//! circle (sine and cosine of its fraction of the tile distance) before the
//! wrapped octave stack is sampled, so the field is exactly periodic over
//! the tile distance. The skewed variant appends the seed's continuous skew
//! parameter as one extra, unwrapped coordinate.

use vstd::prelude::*;

verus! {

use crate::fp::{
    FP_ONE, spec_fp_mul, spec_fp_div, spec_sin_turns, spec_cos_turns, fp_mul, fp_div, euclid_mod,
    sin_turns, cos_turns,
};
use crate::seed::ProcSeed;
use crate::octave::OctavedSimplexNoise;
use crate::noise::{Noise, NoiseError};

/// The fraction of a turn a coordinate stands at inside its tile:
/// `(p mod t) / t`, in `[0, 1)` turns.
pub open spec fn spec_angle_frac(p: i64, t: i64) -> i64 {
    spec_fp_div((p as int) % (t as int), t as int)
}

/// The circle embedding of a `dim`-dimensional point into `2 * dim`
/// coordinates: even slots carry `scale * sin`, odd slots `scale * cos` of
/// the source coordinate's angle.
pub open spec fn spec_embed_circle(point: Seq<i64>, dim: int, t: i64, scale: i64) -> Seq<i64> {
    Seq::new(
        (2 * dim) as nat,
        |i: int|
            {
                let frac = spec_angle_frac(point[i / 2], t);
                if i % 2 == 0 {
                    spec_fp_mul(scale as int, spec_sin_turns(frac as int) as int)
                } else {
                    spec_fp_mul(scale as int, spec_cos_turns(frac as int) as int)
                }
            },
    )
}

fn embed_circle(point: &Vec<i64>, dim: usize, t: i64, scale: i64) -> (r: Vec<i64>)
    requires
        point@.len() == dim,
        dim >= 1,
        dim <= 100,
        t > 0,
    ensures
        r@ == spec_embed_circle(point@, dim as int, t, scale),
        r@.len() == 2 * dim,
{
    let mut r: Vec<i64> = Vec::new();
    let mut i: usize = 0;
    while i < 2 * dim
        invariant
            point@.len() == dim,
            dim <= 100,
            t > 0,
            i <= 2 * dim,
            r@.len() == i,
            forall|q: int|
                0 <= q < i ==> #[trigger] r@[q] == spec_embed_circle(
                    point@,
                    dim as int,
                    t,
                    scale,
                )[q],
        decreases 2 * dim - i,
    {
        let m = euclid_mod(point[i / 2], t);
        let frac = fp_div(m, t);
        proof {
            assert((m as int) * (FP_ONE as int) < (t as int) * (FP_ONE as int)) by (nonlinear_arith)
                requires
                    0 <= m < t,
                    FP_ONE == 1_000_000i64,
            ;
            vstd::arithmetic::div_mod::lemma_multiply_divide_lt(
                (m as int) * (FP_ONE as int),
                t as int,
                FP_ONE as int,
            );
            vstd::arithmetic::div_mod::lemma_div_pos_is_pos(
                (m as int) * (FP_ONE as int),
                t as int,
            );
            assert(0 <= frac < FP_ONE);
        }
        let e = if i % 2 == 0 {
            fp_mul(scale, sin_turns(frac))
        } else {
            fp_mul(scale, cos_turns(frac))
        };
        r.push(e);
        i = i + 1;
    }
    proof {
        assert(r@ =~= spec_embed_circle(point@, dim as int, t, scale));
    }
    r
}

/// A periodic fractal field: wraps an octave stack of dimension `2 * D`
/// and feeds it the circle embedding of each query point.
pub struct TiledOctavedSimplexNoise {
    pub dim: usize,
    pub tile_distance: i64,
    pub scale: i64,
    pub source: OctavedSimplexNoise,
}

impl TiledOctavedSimplexNoise {
    /// The wrapped stack has twice this field's dimension, and the tile
    /// distance is a positive period.
    pub open spec fn tiled_wf(&self) -> bool {
        &&& 1 <= self.dim <= 5
        &&& self.tile_distance > 0
        &&& self.scale > 0
        &&& self.source.stack_wf()
        &&& self.source.dim == 2 * self.dim
    }

    /// Builds the wrapped stack of dimension `2 * dim`.
    pub fn new(
        dim: usize,
        num_octaves: usize,
        octave_factor: i64,
        tile_distance: i64,
        scale: i64,
    ) -> (field: TiledOctavedSimplexNoise)
        requires
            1 <= dim <= 5,
            num_octaves >= 1,
            octave_factor > 0,
            tile_distance > 0,
            scale > 0,
        ensures
            field.tiled_wf(),
            field.dim == dim,
            field.tile_distance == tile_distance,
            field.scale == scale,
            field.source.octaves@.len() == num_octaves,
            field.source.octave_factor == octave_factor,
    {
        TiledOctavedSimplexNoise {
            dim,
            tile_distance,
            scale,
            source: OctavedSimplexNoise::new(dim * 2, num_octaves, octave_factor),
        }
    }

    /// The value of the wrapped stack at the circle embedding of `point`.
    #[verifier::opaque]
    pub open spec fn spec_tiled_noise(&self, seed: ProcSeed, point: Seq<i64>) -> i64 {
        self.source.spec_octave_noise(
            seed,
            spec_embed_circle(point, self.dim as int, self.tile_distance, self.scale),
        )
    }
}

impl Noise for TiledOctavedSimplexNoise {
    open spec fn wf(&self) -> bool {
        self.tiled_wf()
    }

    open spec fn dim(&self) -> int {
        self.dim as int
    }

    open spec fn spec_noise(&self, seed: ProcSeed, point: Seq<i64>) -> i64 {
        self.spec_tiled_noise(seed, point)
    }

    fn get_noise(&self, seed: &ProcSeed, point: &Vec<i64>) -> (r: i64) {
        proof {
            reveal(TiledOctavedSimplexNoise::spec_tiled_noise);
        }
        let embedded = embed_circle(point, self.dim, self.tile_distance, self.scale);
        self.source.get_noise(seed, &embedded)
    }

    fn try_get_noise(&self, seed: &ProcSeed, point: &Vec<i64>) -> (r: Result<i64, NoiseError>) {
        if point.len() == self.dim {
            Ok(self.get_noise(seed, point))
        } else {
            Err(NoiseError::InvalidInput)
        }
    }
}

/// A periodic fractal field that also drifts smoothly over the seed's
/// continuous skew parameter: the wrapped stack has dimension `2 * D + 1`,
/// the last coordinate carrying the skew unwrapped.
pub struct SkewedTiledOctavedSimplexNoise {
    pub dim: usize,
    pub tile_distance: i64,
    pub scale: i64,
    pub source: OctavedSimplexNoise,
}

impl SkewedTiledOctavedSimplexNoise {
    /// The wrapped stack has `2 * D + 1` dimensions, and the tile distance
    /// is a positive period.
    pub open spec fn tiled_wf(&self) -> bool {
        &&& 1 <= self.dim <= 4
        &&& self.tile_distance > 0
        &&& self.scale > 0
        &&& self.source.stack_wf()
        &&& self.source.dim == 2 * self.dim + 1
    }

    /// Builds the wrapped stack of dimension `2 * dim + 1`.
    pub fn new(
        dim: usize,
        num_octaves: usize,
        octave_factor: i64,
        tile_distance: i64,
        scale: i64,
    ) -> (field: SkewedTiledOctavedSimplexNoise)
        requires
            1 <= dim <= 4,
            num_octaves >= 1,
            octave_factor > 0,
            tile_distance > 0,
            scale > 0,
        ensures
            field.tiled_wf(),
            field.dim == dim,
            field.tile_distance == tile_distance,
            field.scale == scale,
            field.source.octaves@.len() == num_octaves,
            field.source.octave_factor == octave_factor,
    {
        SkewedTiledOctavedSimplexNoise {
            dim,
            tile_distance,
            scale,
            source: OctavedSimplexNoise::new(dim * 2 + 1, num_octaves, octave_factor),
        }
    }

    /// The value of the wrapped stack at the circle embedding of `point`
    /// with the seed's skew appended.
    #[verifier::opaque]
    pub open spec fn spec_tiled_noise(&self, seed: ProcSeed, point: Seq<i64>) -> i64 {
        self.source.spec_octave_noise(
            seed,
            spec_embed_circle(point, self.dim as int, self.tile_distance, self.scale).push(
                seed.skew,
            ),
        )
    }
}

impl Noise for SkewedTiledOctavedSimplexNoise {
    open spec fn wf(&self) -> bool {
        self.tiled_wf()
    }

    open spec fn dim(&self) -> int {
        self.dim as int
    }

    open spec fn spec_noise(&self, seed: ProcSeed, point: Seq<i64>) -> i64 {
        self.spec_tiled_noise(seed, point)
    }

    fn get_noise(&self, seed: &ProcSeed, point: &Vec<i64>) -> (r: i64) {
        proof {
            reveal(SkewedTiledOctavedSimplexNoise::spec_tiled_noise);
        }
        let mut embedded = embed_circle(point, self.dim, self.tile_distance, self.scale);
        embedded.push(seed.get_skew());
        self.source.get_noise(seed, &embedded)
    }

    fn try_get_noise(&self, seed: &ProcSeed, point: &Vec<i64>) -> (r: Result<i64, NoiseError>) {
        if point.len() == self.dim {
            Ok(self.get_noise(seed, point))
        } else {
            Err(NoiseError::InvalidInput)
        }
    }
}

/// Shifting one coordinate by a whole number of tile distances leaves the
/// circle embedding unchanged.
proof fn lemma_embed_periodic(
    p1: Seq<i64>,
    p2: Seq<i64>,
    dim: int,
    t: i64,
    scale: i64,
    axis: int,
    k: int,
)
    requires
        t > 0,
        p1.len() == dim,
        p2.len() == dim,
        0 <= axis < dim,
        p2[axis] == p1[axis] + k * (t as int),
        forall|j: int| 0 <= j < dim && j != axis ==> p1[j] == p2[j],
    ensures
        spec_embed_circle(p1, dim, t, scale) == spec_embed_circle(p2, dim, t, scale),
{
    vstd::arithmetic::div_mod::lemma_mod_multiples_vanish(k, p1[axis] as int, t as int);
    assert((p2[axis] as int) % (t as int) == (p1[axis] as int) % (t as int));
    assert forall|i: int| 0 <= i < 2 * dim implies spec_embed_circle(p1, dim, t, scale)[i]
        == spec_embed_circle(p2, dim, t, scale)[i] by {
        if i / 2 != axis {
            assert(p1[i / 2] == p2[i / 2]);
        }
    }
    assert(spec_embed_circle(p1, dim, t, scale) =~= spec_embed_circle(p2, dim, t, scale));
}

/// Periodicity: the tiled field takes the same value at any two points that
/// differ by a whole number of tile distances along one axis.
pub proof fn lemma_tiled_periodic(
    field: &TiledOctavedSimplexNoise,
    seed: ProcSeed,
    p1: Seq<i64>,
    p2: Seq<i64>,
    axis: int,
    k: int,
)
    requires
        field.tiled_wf(),
        p1.len() == field.dim,
        p2.len() == field.dim,
        0 <= axis < field.dim,
        p2[axis] == p1[axis] + k * (field.tile_distance as int),
        forall|j: int| 0 <= j < field.dim && j != axis ==> p1[j] == p2[j],
    ensures
        field.spec_tiled_noise(seed, p1) == field.spec_tiled_noise(seed, p2),
{
    reveal(TiledOctavedSimplexNoise::spec_tiled_noise);
    lemma_embed_periodic(
        p1,
        p2,
        field.dim as int,
        field.tile_distance,
        field.scale,
        axis,
        k,
    );
}

/// Periodicity of the skewed variant: the appended skew coordinate does not
/// depend on the spatial point, so the same shift-invariance holds.
pub proof fn lemma_skewed_tiled_periodic(
    field: &SkewedTiledOctavedSimplexNoise,
    seed: ProcSeed,
    p1: Seq<i64>,
    p2: Seq<i64>,
    axis: int,
    k: int,
)
    requires
        field.tiled_wf(),
        p1.len() == field.dim,
        p2.len() == field.dim,
        0 <= axis < field.dim,
        p2[axis] == p1[axis] + k * (field.tile_distance as int),
        forall|j: int| 0 <= j < field.dim && j != axis ==> p1[j] == p2[j],
    ensures
        field.spec_tiled_noise(seed, p1) == field.spec_tiled_noise(seed, p2),
{
    reveal(SkewedTiledOctavedSimplexNoise::spec_tiled_noise);
    lemma_embed_periodic(
        p1,
        p2,
        field.dim as int,
        field.tile_distance,
        field.scale,
        axis,
        k,
    );
}

} // verus!
