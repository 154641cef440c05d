//! One octave of N-dimensional simplex noise with its analytic gradient.
//! The skewed hypercube lattice, the simplex walk and the per-vertex
//! attenuation kernel all run in saturating fixed-point arithmetic and are
//! mirrored exactly by spec functions, so evaluation is a proven function of
//! the seed hash and the query point.

use vstd::prelude::*;

verus! {

use crate::fp::{
    FP_ONE, spec_sat, spec_sat_add, spec_sat_sub, spec_sat_mul, spec_fp_mul, spec_fp_div,
    spec_fp_floor, spec_fp_sqrt, tdiv, is_sqrt, sqrt_of, lemma_sqrt_is, lemma_fp_div_one,
    sat_add, sat_sub, sat_mul, fp_mul, fp_div, fp_floor, fp_sqrt,
};
use crate::seed::{ProcSeed, spec_derive_hash, spec_hash_coords};
use crate::noise::{Noise, NoiseDerivative, NoiseError};

/// The largest supported dimension. The gradient table holds
/// `dim * 2^(dim - 1)` vectors, so some cap is needed; ten is comfortably
/// above the nine dimensions the skew-drifting tiled terrain needs.
pub const MAX_DIM: usize = 10;

/// Two to the power `n`.
pub open spec fn two_pow(n: int) -> int
    decreases n,
{
    if n <= 0 {
        1
    } else {
        2 * two_pow(n - 1)
    }
}

proof fn lemma_two_pow_bounds(n: int)
    requires
        0 <= n <= 9,
    ensures
        1 <= two_pow(n) <= 512,
{
    assert(two_pow(0) == 1);
    assert(two_pow(1) == 2);
    assert(two_pow(2) == 4);
    assert(two_pow(3) == 8);
    assert(two_pow(4) == 16);
    assert(two_pow(5) == 32);
    assert(two_pow(6) == 64);
    assert(two_pow(7) == 128);
    assert(two_pow(8) == 256);
    assert(two_pow(9) == 512);
}

fn pow2_exec(n: usize) -> (r: usize)
    requires
        n <= 9,
    ensures
        r as int == two_pow(n as int),
        1 <= r <= 512,
{
    let mut r: usize = 1;
    let mut i: usize = 0;
    while i < n
        invariant
            i <= n <= 9,
            r as int == two_pow(i as int),
            1 <= r <= 512,
        decreases n - i,
    {
        proof {
            lemma_two_pow_bounds(i + 1);
        }
        r = r * 2;
        i = i + 1;
    }
    r
}

/// The skew factor `(sqrt(D + 1) - 1) / D` for `D > 1`, zero for `D = 1`.
pub open spec fn spec_skew_factor(d: int) -> i64 {
    if d > 1 {
        spec_sat(tdiv(spec_fp_sqrt((d + 1) * FP_ONE) - FP_ONE, d))
    } else {
        0
    }
}

/// The common denominator `D * skew + 1`.
pub open spec fn spec_denom(d: int) -> int {
    d * spec_skew_factor(d) + FP_ONE
}

/// The unskew factor `skew / (D * skew + 1)` for `D > 1`, one for `D = 1`.
pub open spec fn spec_unskew_factor(d: int) -> i64 {
    if d > 1 {
        spec_fp_div(spec_skew_factor(d) as int, spec_denom(d))
    } else {
        FP_ONE
    }
}

/// The simplex side length `sqrt(D) / (D * skew + 1)`.
pub open spec fn spec_side_len(d: int) -> i64 {
    spec_fp_div(spec_fp_sqrt(d * FP_ONE), spec_denom(d))
}

/// The apothem-like height used for the corner-to-face radius.
pub open spec fn spec_height_a(d: int) -> i64 {
    let side = spec_side_len(d);
    let half = side / 2;
    spec_sat(sqrt_of(
        spec_sat_sub(spec_fp_mul(side as int, side as int) as int, spec_fp_mul(half, half) as int)
            as int * FP_ONE,
    ))
}

/// The corner-to-face radius: the side itself for `D = 1`, the height for
/// `D = 2`, and the generalized right-triangle form for `D >= 3`.
pub open spec fn spec_corner_to_face(d: int) -> i64 {
    if d == 1 {
        spec_side_len(d)
    } else if d == 2 {
        spec_height_a(d)
    } else {
        let a = spec_height_a(d);
        let ha = a / 2;
        spec_sat(sqrt_of(
            spec_sat_add(spec_fp_mul(a as int, a as int) as int, spec_fp_mul(ha, ha) as int) as int
                * FP_ONE,
        ))
    }
}

/// The cached squared corner-to-face radius.
pub open spec fn spec_corner_to_face_sq(d: int) -> i64 {
    spec_fp_mul(spec_corner_to_face(d) as int, spec_corner_to_face(d) as int)
}

/// The empirical normalization scalar keeping output magnitude near one.
pub open spec fn spec_value_scalar(d: int) -> i64 {
    if d > 1 {
        let sd = spec_fp_sqrt((d - 1) * FP_ONE);
        let inv = spec_fp_div(FP_ONE as int, sd);
        let cubed = (d - 1) * (d - 1) * (d - 1);
        let big = spec_fp_mul(cubed * FP_ONE, sd);
        let term = spec_sat_add(spec_fp_div(100 * FP_ONE, big as int) as int, 13 * FP_ONE);
        spec_fp_mul(inv as int, term as int)
    } else {
        FP_ONE
    }
}

/// How many gradient vectors the table holds: two for `D = 1`, otherwise
/// every sign combination with one inserted zero, `D * 2^(D - 1)`.
pub open spec fn spec_grad_count(d: int) -> int {
    if d <= 1 {
        2
    } else {
        d * two_pow(d - 1)
    }
}

/// Entry `j` of gradient vector `i`: the sign combination indexed by
/// `i % 2^(D-1)` with a zero inserted at position `i / 2^(D-1)`.
pub open spec fn spec_grad_entry(d: int, i: int, j: int) -> i64 {
    if d <= 1 {
        if i == 0 {
            (-1_000_000i64)
        } else {
            FP_ONE
        }
    } else {
        let l = two_pow(d - 1);
        let c = i % l;
        let z = i / l;
        if j == z {
            0
        } else {
            let b = if j < z {
                j
            } else {
                j - 1
            };
            if (c / two_pow(b)) % 2 == 1 {
                FP_ONE
            } else {
                (-1_000_000i64)
            }
        }
    }
}

/// One octave of simplex noise: immutable derived constants and the
/// gradient table, all built once at construction.
pub struct SimplexNoise {
    pub dim: usize,
    pub skew: i64,
    pub unskew: i64,
    pub side_len: i64,
    pub corner_to_face_sq: i64,
    pub grads: Vec<Vec<i64>>,
    pub value_scalar: i64,
}

impl SimplexNoise {
    /// The gradient table matches the combinatorial description exactly.
    pub open spec fn grads_wf(&self) -> bool {
        &&& self.grads@.len() == spec_grad_count(self.dim as int)
        &&& forall|i: int|
            0 <= i < self.grads@.len() ==> (#[trigger] self.grads@[i])@.len() == self.dim
        &&& forall|i: int, j: int|
            0 <= i < self.grads@.len() && 0 <= j < self.dim ==> (#[trigger] self.grads@[i]@[j])
                == spec_grad_entry(self.dim as int, i, j)
    }

    /// Every stored constant equals its closed-form value for this
    /// dimension, with the ranges the evaluator relies on.
    pub open spec fn wf(&self) -> bool {
        &&& 1 <= self.dim <= MAX_DIM
        &&& self.skew == spec_skew_factor(self.dim as int)
        &&& 0 <= self.skew <= FP_ONE
        &&& self.unskew == spec_unskew_factor(self.dim as int)
        &&& 0 <= self.unskew <= FP_ONE
        &&& self.side_len == spec_side_len(self.dim as int)
        &&& self.corner_to_face_sq == spec_corner_to_face_sq(self.dim as int)
        &&& self.value_scalar == spec_value_scalar(self.dim as int)
        &&& self.grads@.len() >= 2
        &&& self.grads_wf()
    }

    /// The slimmer facts the evaluator's inner loops rely on; implied by
    /// `wf`, but free of the closed-form constant definitions.
    pub open spec fn eval_wf(&self) -> bool {
        &&& 1 <= self.dim <= MAX_DIM
        &&& 0 <= self.unskew <= FP_ONE
        &&& 2 <= self.grads@.len() <= 6000
        &&& forall|i: int|
            0 <= i < self.grads@.len() ==> (#[trigger] self.grads@[i])@.len() == self.dim
    }

    /// A well-formed field satisfies the evaluator's slim invariant.
    pub proof fn lemma_wf_implies_eval_wf(&self)
        requires
            self.wf(),
        ensures
            self.eval_wf(),
    {
        if self.dim > 1 {
            lemma_two_pow_bounds(self.dim as int - 1);
            assert(self.dim as int * two_pow(self.dim as int - 1) <= 5120) by (nonlinear_arith)
                requires
                    1 <= self.dim as int <= 10,
                    1 <= two_pow(self.dim as int - 1) <= 512,
            ;
        }
    }

    /// Builds the field for dimension `dim`: derives the skew, unskew, side
    /// length, squared corner-to-face radius and normalization scalar, and
    /// enumerates the gradient table.
    pub fn new(dim: usize) -> (field: SimplexNoise)
        requires
            1 <= dim <= MAX_DIM,
        ensures
            field.wf(),
            field.dim == dim,
    {
        let d = dim as i64;
        let skew: i64 = if dim > 1 {
            let s = fp_sqrt((d + 1) * FP_ONE);
            proof {
                assert(s >= FP_ONE) by (nonlinear_arith)
                    requires
                        is_sqrt(((d + 1) * FP_ONE) as int * FP_ONE, s as int),
                        d >= 1,
                        FP_ONE == 1_000_000i64,
                ;
                assert(s <= FP_ONE + 500_000 * d) by (nonlinear_arith)
                    requires
                        is_sqrt(((d + 1) * FP_ONE) as int * FP_ONE, s as int),
                        1 <= d <= 10,
                        FP_ONE == 1_000_000i64,
                ;
                vstd::arithmetic::div_mod::lemma_div_pos_is_pos(s - FP_ONE, d as int);
                vstd::arithmetic::div_mod::lemma_div_is_ordered(
                    s - FP_ONE,
                    500_000 * (d as int),
                    d as int,
                );
                vstd::arithmetic::div_mod::lemma_div_by_multiple(500_000, d as int);
            }
            (s - FP_ONE) / d
        } else {
            0
        };
        proof {
            assert(skew == spec_skew_factor(dim as int));
            assert(0 <= skew <= 500_000);
            assert(d * skew >= 0 && d * skew <= 10_000_000) by (nonlinear_arith)
                requires
                    0 <= skew <= 500_000,
                    1 <= d <= 10,
            ;
        }
        let denom: i64 = d * skew + FP_ONE;
        let unskew: i64 = if dim > 1 {
            fp_div(skew, denom)
        } else {
            FP_ONE
        };
        proof {
            if dim > 1 {
                let p = skew as int * FP_ONE;
                vstd::arithmetic::div_mod::lemma_div_pos_is_pos(p, denom as int);
                vstd::arithmetic::div_mod::lemma_multiply_divide_le(
                    p,
                    denom as int,
                    FP_ONE as int,
                );
                assert(p <= denom as int * FP_ONE) by (nonlinear_arith)
                    requires
                        p == skew as int * FP_ONE,
                        denom >= skew,
                        skew >= 0,
                        FP_ONE == 1_000_000i64,
                ;
            }
            assert(0 <= unskew <= FP_ONE);
        }
        let side_len: i64 = fp_div(fp_sqrt(d * FP_ONE), denom);
        proof {
            let sq = spec_fp_sqrt((dim as int) * FP_ONE);
            vstd::arithmetic::div_mod::lemma_div_pos_is_pos(sq * FP_ONE, denom as int);
            assert(side_len >= 0);
        }
        let side_half: i64 = side_len / 2;
        let a_sq: i64 = sat_sub(fp_mul(side_len, side_len), fp_mul(side_half, side_half));
        proof {
            assert(side_len as int * side_len as int >= side_half as int * side_half as int
                && side_half as int * side_half as int >= 0) by (nonlinear_arith)
                requires
                    0 <= side_half <= side_len,
            ;
            vstd::arithmetic::div_mod::lemma_div_is_ordered(
                side_half as int * side_half as int,
                side_len as int * side_len as int,
                FP_ONE as int,
            );
            vstd::arithmetic::div_mod::lemma_div_pos_is_pos(
                side_half as int * side_half as int,
                FP_ONE as int,
            );
            assert(a_sq >= 0);
        }
        let a: i64 = fp_sqrt(a_sq);
        let corner_to_face: i64 = if dim == 1 {
            side_len
        } else if dim == 2 {
            a
        } else {
            let ha: i64 = a / 2;
            let c_sq: i64 = sat_add(fp_mul(a, a), fp_mul(ha, ha));
            proof {
                assert(a as int * a as int >= 0 && ha as int * ha as int >= 0) by (nonlinear_arith)
                    requires
                        a >= 0,
                        ha >= 0,
                ;
                vstd::arithmetic::div_mod::lemma_div_pos_is_pos(
                    a as int * a as int,
                    FP_ONE as int,
                );
                vstd::arithmetic::div_mod::lemma_div_pos_is_pos(
                    ha as int * ha as int,
                    FP_ONE as int,
                );
            }
            fp_sqrt(c_sq)
        };
        let corner_to_face_sq: i64 = fp_mul(corner_to_face, corner_to_face);
        let value_scalar: i64 = if dim > 1 {
            let sd = fp_sqrt((d - 1) * FP_ONE);
            proof {
                assert(sd >= FP_ONE) by (nonlinear_arith)
                    requires
                        is_sqrt(((d - 1) * FP_ONE) as int * FP_ONE, sd as int),
                        d >= 2,
                        FP_ONE == 1_000_000i64,
                ;
            }
            let inv = fp_div(FP_ONE, sd);
            proof {
                assert((d - 1) * (d - 1) >= 1 && (d - 1) * (d - 1) <= 100 && (d - 1) * (d - 1)
                    * (d - 1) >= 1 && (d - 1) * (d - 1) * (d - 1) <= 1000) by (nonlinear_arith)
                    requires
                        2 <= d <= 10,
                ;
            }
            let cubed: i64 = (d - 1) * (d - 1) * (d - 1);
            let big = fp_mul(cubed * FP_ONE, sd);
            proof {
                assert(cubed as int * FP_ONE * (sd as int) >= FP_ONE as int * FP_ONE)
                    by (nonlinear_arith)
                    requires
                        cubed >= 1,
                        sd >= FP_ONE,
                        FP_ONE == 1_000_000i64,
                ;
                vstd::arithmetic::div_mod::lemma_div_is_ordered(
                    FP_ONE as int * FP_ONE,
                    cubed as int * FP_ONE * (sd as int),
                    FP_ONE as int,
                );
                assert((FP_ONE as int * FP_ONE) / (FP_ONE as int) == FP_ONE) by {
                    vstd::arithmetic::div_mod::lemma_div_by_multiple(FP_ONE as int, FP_ONE as int);
                }
                assert(big >= FP_ONE);
            }
            let term = sat_add(fp_div(100 * FP_ONE, big), 13 * FP_ONE);
            fp_mul(inv, term)
        } else {
            FP_ONE
        };
        let grads: Vec<Vec<i64>> = if dim > 1 {
            let l = pow2_exec(dim - 1);
            proof {
                assert(dim * l >= 2 && dim * l <= 5120) by (nonlinear_arith)
                    requires
                        2 <= dim <= 10,
                        1 <= l <= 512,
                ;
            }
            let count = dim * l;
            let mut table: Vec<Vec<i64>> = Vec::new();
            let mut i: usize = 0;
            while i < count
                invariant
                    0 < l <= 512,
                    l as int == two_pow(dim as int - 1),
                    count == dim * l,
                    2 <= dim <= MAX_DIM,
                    i <= count,
                    table@.len() == i,
                    forall|k: int|
                        0 <= k < i ==> (#[trigger] table@[k])@.len() == dim,
                    forall|k: int, j: int|
                        0 <= k < i && 0 <= j < dim ==> (#[trigger] table@[k]@[j])
                            == spec_grad_entry(dim as int, k, j),
                decreases count - i,
            {
                let c = i % l;
                let z = i / l;
                let mut row: Vec<i64> = Vec::new();
                let mut j: usize = 0;
                while j < dim
                    invariant
                        0 < l <= 512,
                        l as int == two_pow(dim as int - 1),
                        2 <= dim <= MAX_DIM,
                        c == i % l,
                        z == i / l,
                        j <= dim,
                        row@.len() == j,
                        forall|q: int|
                            0 <= q < j ==> (#[trigger] row@[q]) == spec_grad_entry(
                                dim as int,
                                i as int,
                                q,
                            ),
                    decreases dim - j,
                {
                    if j == z {
                        row.push(0);
                    } else {
                        let b = if j < z {
                            j
                        } else {
                            j - 1
                        };
                        let p = pow2_exec(b);
                        let bit = (c / p) % 2;
                        row.push(
                            if bit == 1 {
                                FP_ONE
                            } else {
                                -FP_ONE
                            },
                        );
                    }
                    j = j + 1;
                }
                table.push(row);
                i = i + 1;
            }
            table
        } else {
            let mut table: Vec<Vec<i64>> = Vec::new();
            let mut neg: Vec<i64> = Vec::new();
            neg.push(-FP_ONE);
            let mut pos: Vec<i64> = Vec::new();
            pos.push(FP_ONE);
            table.push(neg);
            table.push(pos);
            table
        };
        proof {
            if dim > 1 {
                assert(dim as int * two_pow(dim as int - 1) >= 2) by (nonlinear_arith)
                    requires
                        dim >= 2,
                        two_pow(dim as int - 1) >= 1,
                ;
            }
        }
        SimplexNoise {
            dim,
            skew,
            unskew,
            side_len,
            corner_to_face_sq,
            grads,
            value_scalar,
        }
    }
}

/// Saturating running sum of the first `n` entries.
pub open spec fn spec_sum_sat(s: Seq<i64>, n: int) -> i64
    decreases n,
{
    if n <= 0 {
        0
    } else {
        spec_sat_add(spec_sum_sat(s, n - 1) as int, s[n - 1] as int)
    }
}

/// Axis `a` comes before axis `b` in the simplex walk: strictly larger
/// displacement, ties broken toward the lower index.
pub open spec fn axis_precedes(disp: Seq<i64>, a: int, b: int) -> bool {
    disp[a] > disp[b] || (disp[a] == disp[b] && a < b)
}

/// Linear scan from `i` for the first-ranked axis not yet taken, carrying
/// the best candidate so far (`-1` for none).
pub open spec fn spec_pick_from(disp: Seq<i64>, taken: Seq<usize>, i: int, best: int) -> int
    decreases disp.len() - i,
{
    if i < 0 || i >= disp.len() {
        best
    } else {
        let better = !taken.contains(i as usize) && (best < 0 || axis_precedes(disp, i, best));
        spec_pick_from(disp, taken, i + 1, if better { i } else { best })
    }
}

/// The next axis of the simplex walk: the untaken axis of largest
/// displacement (lowest index on ties); axis zero if everything is taken.
pub open spec fn spec_pick(disp: Seq<i64>, taken: Seq<usize>) -> int {
    let p = spec_pick_from(disp, taken, 0, -1);
    if p < 0 {
        0
    } else {
        p
    }
}

/// The first `k` axes of the walk, in descending-displacement order.
pub open spec fn spec_order(disp: Seq<i64>, k: int) -> Seq<usize>
    decreases k,
{
    if k <= 0 {
        Seq::empty()
    } else {
        let prev = spec_order(disp, k - 1);
        prev.push(spec_pick(disp, prev) as usize)
    }
}

/// The lattice vertex reached after `steps` advances of the walk.
pub open spec fn spec_vertex(lat: Seq<i64>, order: Seq<usize>, steps: int) -> Seq<i64>
    decreases steps,
{
    if steps <= 0 {
        lat
    } else {
        let prev = spec_vertex(lat, order, steps - 1);
        let ax = order[steps - 1] as int;
        prev.update(ax, spec_sat_add(prev[ax] as int, 1))
    }
}

/// Saturating running attenuation: the squared radius minus the squared
/// distance over the first `n` axes.
pub open spec fn spec_att(ctf_sq: i64, u: Seq<i64>, n: int) -> i64
    decreases n,
{
    if n <= 0 {
        ctf_sq
    } else {
        spec_sat_sub(spec_att(ctf_sq, u, n - 1) as int, spec_fp_mul(u[n - 1] as int, u[n - 1] as int) as int)
    }
}

/// Saturating running dot product over the first `n` axes.
pub open spec fn spec_dot(grad: Seq<i64>, u: Seq<i64>, n: int) -> i64
    decreases n,
{
    if n <= 0 {
        0
    } else {
        spec_sat_add(spec_dot(grad, u, n - 1) as int, spec_fp_mul(grad[n - 1] as int, u[n - 1] as int) as int)
    }
}

/// The gradient-table slot a vertex hash selects: the hash taken as a
/// binary fraction of one, scaled by the table size.
pub open spec fn spec_gindex(h: u64, count: int) -> int {
    (h * count) / 0x1_0000_0000_0000_0000
}

fn contains_axis(order: &Vec<usize>, x: usize) -> (r: bool)
    ensures
        r == order@.contains(x),
{
    let mut k: usize = 0;
    while k < order.len()
        invariant
            k <= order@.len(),
            forall|t: int| 0 <= t < k ==> order@[t] != x,
        decreases order@.len() - k,
    {
        if order[k] == x {
            return true;
        }
        k = k + 1;
    }
    false
}

fn pick_axis(disp: &Vec<i64>, order: &Vec<usize>) -> (ax: usize)
    requires
        1 <= disp@.len() <= 1000,
    ensures
        ax as int == spec_pick(disp@, order@),
        ax < disp@.len(),
{
    let n = disp.len();
    let mut best: i64 = -1;
    let mut i: usize = 0;
    while i < n
        invariant
            n == disp@.len(),
            i <= n,
            1 <= n <= 1000,
            best == -1 || 0 <= best < n as i64,
            spec_pick_from(disp@, order@, 0, -1) == spec_pick_from(disp@, order@, i as int, best as int),
        decreases n - i,
    {
        let taken = contains_axis(order, i);
        let better = if taken {
            false
        } else if best < 0 {
            true
        } else {
            let b = best as usize;
            disp[i] > disp[b] || (disp[i] == disp[b] && i < b)
        };
        if better {
            best = i as i64;
        }
        i = i + 1;
    }
    if best < 0 {
        0
    } else {
        best as usize
    }
}

impl SimplexNoise {
    /// The skew offset `skew * sum(point)`.
    pub open spec fn spec_skew_offset(&self, point: Seq<i64>) -> i64 {
        spec_fp_mul(spec_sum_sat(point, point.len() as int) as int, self.skew as int)
    }

    /// The skewed integer lattice cell the point falls in.
    #[verifier::opaque]
    pub open spec fn spec_lattice(&self, point: Seq<i64>) -> Seq<i64> {
        let s = self.spec_skew_offset(point);
        Seq::new(point.len(), |i: int| spec_fp_floor(spec_sat_add(point[i] as int, s as int) as int) as i64)
    }

    /// The unskew offset `unskew * sum(lattice)`.
    pub open spec fn spec_unskew_offset(&self, lat: Seq<i64>) -> i64 {
        spec_sat_mul(spec_sum_sat(lat, lat.len() as int) as int, self.unskew as int)
    }

    /// The displacement of the point from its cell origin, unskewed back
    /// into original space.
    #[verifier::opaque]
    pub open spec fn spec_displacement(&self, point: Seq<i64>) -> Seq<i64> {
        let lat = self.spec_lattice(point);
        let t = self.spec_unskew_offset(lat);
        Seq::new(
            point.len(),
            |i: int|
                spec_sat_add(
                    spec_sat_sub(point[i] as int, spec_sat_mul(lat[i] as int, FP_ONE as int) as int) as int,
                    t as int,
                ),
        )
    }

    /// The offset of the query point from walk vertex `i`, compensated by
    /// the accumulated unskew.
    #[verifier::opaque]
    pub open spec fn spec_u(&self, disp: Seq<i64>, lat: Seq<i64>, vertex: Seq<i64>, i: int) -> Seq<i64> {
        Seq::new(
            disp.len(),
            |j: int|
                spec_sat_add(
                    spec_sat_sub(
                        disp[j] as int,
                        spec_sat_mul(vertex[j] - lat[j], FP_ONE as int) as int,
                    ) as int,
                    i * (self.unskew as int),
                ),
        )
    }

    /// One vertex of the simplex walk: if the attenuation kernel is
    /// positive, add the gradient contribution to the noise and to every
    /// partial derivative; otherwise leave both unchanged.
    #[verifier::opaque]
    pub open spec fn spec_step(
        &self,
        hash: u64,
        disp: Seq<i64>,
        lat: Seq<i64>,
        order: Seq<usize>,
        i: int,
        noise: i64,
        der: Seq<i64>,
    ) -> (i64, Seq<i64>) {
        let vertex = spec_vertex(lat, order, i);
        let u = self.spec_u(disp, lat, vertex, i);
        let att = spec_att(self.corner_to_face_sq, u, u.len() as int);
        if att > 0 {
            let vh = spec_derive_hash(hash, spec_hash_coords(vertex));
            let gi = spec_gindex(vh, self.grads@.len() as int);
            let grad = self.grads@[gi]@;
            let dot = spec_dot(grad, u, u.len() as int);
            let att2 = spec_fp_mul(att as int, att as int);
            let att4 = spec_fp_mul(att2 as int, att2 as int);
            let att3 = spec_fp_mul(att2 as int, att as int);
            let n2 = spec_sat_add(noise as int, spec_fp_mul(dot as int, att4 as int) as int);
            let d2 = Seq::new(
                der.len(),
                |j: int|
                    spec_sat_add(
                        der[j] as int,
                        spec_sat_sub(
                            spec_fp_mul(grad[j] as int, att4 as int) as int,
                            spec_fp_mul(
                                spec_fp_mul(spec_sat_mul(dot as int, 8) as int, att3 as int) as int,
                                u[j] as int,
                            ) as int,
                        ) as int,
                    ),
            );
            (n2, d2)
        } else {
            (noise, der)
        }
    }

    /// The accumulated noise and derivative after the first `i` vertices.
    pub open spec fn spec_accum(
        &self,
        hash: u64,
        disp: Seq<i64>,
        lat: Seq<i64>,
        order: Seq<usize>,
        i: int,
    ) -> (i64, Seq<i64>)
        decreases i,
    {
        if i <= 0 {
            (0, Seq::new(lat.len(), |j: int| 0i64))
        } else {
            let prev = self.spec_accum(hash, disp, lat, order, i - 1);
            self.spec_step(hash, disp, lat, order, i - 1, prev.0, prev.1)
        }
    }

    /// The full evaluation: walk the `D + 1` simplex vertices and scale the
    /// accumulated noise and derivative by the normalization scalar.
    #[verifier::opaque]
    pub open spec fn spec_eval(&self, hash: u64, point: Seq<i64>) -> (i64, Seq<i64>) {
        let lat = self.spec_lattice(point);
        let disp = self.spec_displacement(point);
        let order = spec_order(disp, self.dim as int);
        let nd = self.spec_accum(hash, disp, lat, order, self.dim as int + 1);
        (
            spec_fp_mul(nd.0 as int, self.value_scalar as int),
            Seq::new(nd.1.len(), |j: int| spec_fp_mul(nd.1[j] as int, self.value_scalar as int)),
        )
    }

    /// Evaluates one octave at `point`: the noise value and its analytic
    /// gradient, exactly as the spec-level mirror states.
    pub fn get(&self, seed: &ProcSeed, point: &Vec<i64>) -> (r: (i64, Vec<i64>))
        requires
            self.wf(),
            point@.len() == self.dim,
        ensures
            r.0 == self.spec_eval(seed.hash, point@).0,
            r.1@ == self.spec_eval(seed.hash, point@).1,
    {
        let dim = self.dim;
        let ghost hash = seed.hash;
        proof {
            reveal(SimplexNoise::spec_eval);
            self.lemma_wf_implies_eval_wf();
        }

        let s = self.skew_offset(point);
        let lat = self.lattice(point, s);
        let disp = self.displacement(point, &lat);
        let order = self.build_order(&disp);

        let mut noise: i64 = 0;
        let mut der: Vec<i64> = zero_vec(dim);
        let mut vertex: Vec<i64> = copy_vec(&lat);
        proof {
            assert(der@ =~= self.spec_accum(hash, disp@, lat@, order@, 0).1);
            assert(vertex@ =~= spec_vertex(lat@, order@, 0));
        }

        let mut acc_unskew: i64 = 0;
        let mut step: usize = 0;
        while step < dim + 1
            invariant
                self.eval_wf(),
                dim == self.dim,
                hash == seed.hash,
                point@.len() == dim,
                lat@.len() == dim,
                disp@.len() == dim,
                order@.len() == dim,
                vertex@.len() == dim,
                der@.len() == dim,
                lat@ == self.spec_lattice(point@),
                disp@ == self.spec_displacement(point@),
                order@ == spec_order(disp@, dim as int),
                forall|k: int| 0 <= k < dim ==> #[trigger] order@[k] < dim,
                forall|k: int|
                    0 <= k < dim ==> -10_000_000_000_000 <= #[trigger] lat@[k]
                        <= 10_000_000_000_000,
                step <= dim + 1,
                step <= dim ==> vertex@ == spec_vertex(lat@, order@, step as int),
                forall|k: int|
                    0 <= k < dim ==> lat@[k] <= #[trigger] vertex@[k] <= lat@[k] + step,
                acc_unskew == step as int * (self.unskew as int),
                0 <= acc_unskew <= 11_000_000,
                noise == self.spec_accum(hash, disp@, lat@, order@, step as int).0,
                der@ == self.spec_accum(hash, disp@, lat@, order@, step as int).1,
            decreases dim + 1 - step,
        {
            let nd = self.walk_step(seed, &disp, &lat, &vertex, &order, step, acc_unskew, noise, &der);
            noise = nd.0;
            der = nd.1;

            proof {
                assert(self.spec_accum(hash, disp@, lat@, order@, step as int + 1)
                    == self.spec_step(hash, disp@, lat@, order@, step as int,
                        self.spec_accum(hash, disp@, lat@, order@, step as int).0,
                        self.spec_accum(hash, disp@, lat@, order@, step as int).1));
            }
            if step < dim {
                let ax = order[step];
                vertex[ax] = sat_add(vertex[ax], 1);
                proof {
                    assert(vertex@ =~= spec_vertex(lat@, order@, step as int + 1));
                }
            }
            proof {
                assert((step as int + 1) * (self.unskew as int) == step as int * (self.unskew
                    as int) + self.unskew as int) by (nonlinear_arith);
                assert((step as int + 1) * (self.unskew as int)
                    <= 11_000_000) by (nonlinear_arith)
                    requires
                        0 <= step as int + 1 <= 11,
                        0 <= self.unskew <= 1_000_000,
                ;
            }
            acc_unskew = acc_unskew + self.unskew;
            step = step + 1;
        }

        let out_noise = fp_mul(noise, self.value_scalar);
        let mut out_der: Vec<i64> = Vec::new();
        let mut j: usize = 0;
        while j < dim
            invariant
                j <= dim,
                der@.len() == dim,
                out_der@.len() == j,
                forall|k: int|
                    0 <= k < j ==> #[trigger] out_der@[k] == spec_fp_mul(
                        der@[k] as int,
                        self.value_scalar as int,
                    ),
            decreases dim - j,
        {
            out_der.push(fp_mul(der[j], self.value_scalar));
            j = j + 1;
        }
        proof {
            reveal(SimplexNoise::spec_eval);
            assert(out_der@ =~= self.spec_eval(hash, point@).1);
        }
        (out_noise, out_der)
    }

    fn skew_offset(&self, point: &Vec<i64>) -> (s: i64)
        requires
            self.wf(),
            point@.len() == self.dim,
        ensures
            s == self.spec_skew_offset(point@),
    {
        let dim = self.dim;
        let mut sum: i64 = 0;
        let mut i: usize = 0;
        while i < dim
            invariant
                i <= dim,
                point@.len() == dim,
                sum == spec_sum_sat(point@, i as int),
            decreases dim - i,
        {
            sum = sat_add(sum, point[i]);
            i = i + 1;
        }
        fp_mul(sum, self.skew)
    }

    fn lattice(&self, point: &Vec<i64>, s: i64) -> (lat: Vec<i64>)
        requires
            self.wf(),
            point@.len() == self.dim,
            s == self.spec_skew_offset(point@),
        ensures
            lat@ == self.spec_lattice(point@),
            lat@.len() == self.dim,
            forall|k: int|
                0 <= k < lat@.len() ==> -10_000_000_000_000 <= #[trigger] lat@[k]
                    <= 10_000_000_000_000,
    {
        proof {
            reveal(SimplexNoise::spec_lattice);
        }
        let dim = self.dim;
        let mut lat: Vec<i64> = Vec::new();
        let mut k: usize = 0;
        while k < dim
            invariant
                point@.len() == dim,
                dim == self.dim,
                s == self.spec_skew_offset(point@),
                k <= dim,
                lat@.len() == k,
                forall|q: int|
                    0 <= q < k ==> #[trigger] lat@[q] == self.spec_lattice(point@)[q],
                forall|q: int|
                    0 <= q < k ==> -10_000_000_000_000 <= #[trigger] lat@[q]
                        <= 10_000_000_000_000,
            decreases dim - k,
        {
            proof {
                reveal(SimplexNoise::spec_lattice);
            }
            lat.push(fp_floor(sat_add(point[k], s)));
            k = k + 1;
        }
        proof {
            reveal(SimplexNoise::spec_lattice);
            assert(lat@ =~= self.spec_lattice(point@));
        }
        lat
    }

    fn displacement(&self, point: &Vec<i64>, lat: &Vec<i64>) -> (disp: Vec<i64>)
        requires
            self.wf(),
            point@.len() == self.dim,
            lat@ == self.spec_lattice(point@),
            lat@.len() == self.dim,
        ensures
            disp@ == self.spec_displacement(point@),
            disp@.len() == self.dim,
    {
        let dim = self.dim;
        let mut lsum: i64 = 0;
        let mut i: usize = 0;
        while i < dim
            invariant
                i <= dim,
                lat@.len() == dim,
                lsum == spec_sum_sat(lat@, i as int),
            decreases dim - i,
        {
            lsum = sat_add(lsum, lat[i]);
            i = i + 1;
        }
        let t = sat_mul(lsum, self.unskew);
        assert(t == self.spec_unskew_offset(lat@));
        let mut disp: Vec<i64> = Vec::new();
        let mut k: usize = 0;
        while k < dim
            invariant
                point@.len() == dim,
                dim == self.dim,
                lat@.len() == dim,
                lat@ == self.spec_lattice(point@),
                t == self.spec_unskew_offset(lat@),
                k <= dim,
                disp@.len() == k,
                forall|q: int|
                    0 <= q < k ==> #[trigger] disp@[q] == self.spec_displacement(point@)[q],
            decreases dim - k,
        {
            proof {
                reveal(SimplexNoise::spec_displacement);
            }
            disp.push(sat_add(sat_sub(point[k], sat_mul(lat[k], FP_ONE)), t));
            k = k + 1;
        }
        proof {
            reveal(SimplexNoise::spec_displacement);
            assert(disp@ =~= self.spec_displacement(point@));
        }
        disp
    }

    fn build_order(&self, disp: &Vec<i64>) -> (order: Vec<usize>)
        requires
            self.wf(),
            disp@.len() == self.dim,
        ensures
            order@ == spec_order(disp@, self.dim as int),
            order@.len() == self.dim,
            forall|k: int| 0 <= k < order@.len() ==> #[trigger] order@[k] < self.dim,
    {
        let dim = self.dim;
        let mut order: Vec<usize> = Vec::new();
        while order.len() < dim
            invariant
                disp@.len() == dim,
                1 <= dim <= MAX_DIM,
                order@.len() <= dim,
                order@ == spec_order(disp@, order@.len() as int),
                forall|k: int| 0 <= k < order@.len() ==> #[trigger] order@[k] < dim,
            decreases dim - order@.len(),
        {
            let ax = pick_axis(disp, &order);
            order.push(ax);
        }
        order
    }

    fn offsets_from_vertex(
        &self,
        disp: &Vec<i64>,
        lat: &Vec<i64>,
        vertex: &Vec<i64>,
        step: usize,
        acc_unskew: i64,
    ) -> (u: Vec<i64>)
        requires
            1 <= self.dim <= MAX_DIM,
            disp@.len() == self.dim,
            lat@.len() == self.dim,
            vertex@.len() == self.dim,
            step <= self.dim,
            forall|k: int|
                0 <= k < lat@.len() ==> -10_000_000_000_000 <= #[trigger] lat@[k]
                    <= 10_000_000_000_000,
            forall|k: int|
                0 <= k < lat@.len() ==> lat@[k] <= #[trigger] vertex@[k] <= lat@[k] + step,
            acc_unskew == step as int * (self.unskew as int),
        ensures
            u@ == self.spec_u(disp@, lat@, vertex@, step as int),
            u@.len() == self.dim,
    {
        let dim = self.dim;
        let mut u: Vec<i64> = Vec::new();
        let mut j: usize = 0;
        while j < dim
            invariant
                1 <= dim <= MAX_DIM,
                disp@.len() == dim,
                lat@.len() == dim,
                vertex@.len() == dim,
                step <= dim,
                forall|k: int|
                    0 <= k < dim ==> -10_000_000_000_000 <= #[trigger] lat@[k]
                        <= 10_000_000_000_000,
                forall|k: int|
                    0 <= k < dim ==> lat@[k] <= #[trigger] vertex@[k] <= lat@[k] + step,
                acc_unskew == step as int * (self.unskew as int),
                j <= dim,
                u@.len() == j,
                forall|q: int|
                    0 <= q < j ==> #[trigger] u@[q] == self.spec_u(
                        disp@,
                        lat@,
                        vertex@,
                        step as int,
                    )[q],
            decreases dim - j,
        {
            proof {
                reveal(SimplexNoise::spec_u);
                assert(lat@[j as int] <= vertex@[j as int] <= lat@[j as int] + step);
                assert(-10_000_000_000_000 <= lat@[j as int] <= 10_000_000_000_000);
            }
            let dvl = vertex[j] - lat[j];
            u.push(sat_add(sat_sub(disp[j], sat_mul(dvl, FP_ONE)), acc_unskew));
            j = j + 1;
        }
        proof {
            reveal(SimplexNoise::spec_u);
            assert(u@ =~= self.spec_u(disp@, lat@, vertex@, step as int));
        }
        u
    }

    /// One iteration of the simplex walk, applied to the running noise and
    /// derivative accumulators.
    #[verifier::rlimit(100)]
    fn walk_step(
        &self,
        seed: &ProcSeed,
        disp: &Vec<i64>,
        lat: &Vec<i64>,
        vertex: &Vec<i64>,
        order: &Vec<usize>,
        step: usize,
        acc_unskew: i64,
        noise: i64,
        der: &Vec<i64>,
    ) -> (nd: (i64, Vec<i64>))
        requires
            self.eval_wf(),
            disp@.len() == self.dim,
            lat@.len() == self.dim,
            vertex@.len() == self.dim,
            der@.len() == self.dim,
            step <= self.dim,
            vertex@ == spec_vertex(lat@, order@, step as int),
            forall|k: int|
                0 <= k < lat@.len() ==> -10_000_000_000_000 <= #[trigger] lat@[k]
                    <= 10_000_000_000_000,
            forall|k: int|
                0 <= k < lat@.len() ==> lat@[k] <= #[trigger] vertex@[k] <= lat@[k] + step,
            acc_unskew == step as int * (self.unskew as int),
        ensures
            nd.0 == self.spec_step(seed.hash, disp@, lat@, order@, step as int, noise, der@).0,
            nd.1@ == self.spec_step(seed.hash, disp@, lat@, order@, step as int, noise, der@).1,
            nd.1@.len() == der@.len(),
    {
        let ghost hash = seed.hash;
        let u = self.offsets_from_vertex(disp, lat, vertex, step, acc_unskew);
        let att = self.attenuation(&u);
        if att > 0 {
            let vseed = seed.derive_coords(vertex);
            let h2 = vseed.get();
            let gi = self.grad_index(h2);
            let grad = &self.grads[gi];
            let dot = dot_product(grad, &u);
            let att2 = fp_mul(att, att);
            let att4 = fp_mul(att2, att2);
            let att3 = fp_mul(att2, att);
            let new_noise = sat_add(noise, fp_mul(dot, att4));
            let nder = derivative_step(der, grad, &u, dot, att3, att4);
            proof {
                reveal(SimplexNoise::spec_step);
                let stepped = self.spec_step(hash, disp@, lat@, order@, step as int, noise, der@);
                assert(nder@ =~= stepped.1);
                assert(new_noise == stepped.0);
            }
            (new_noise, nder)
        } else {
            let nder = copy_vec(der);
            proof {
                reveal(SimplexNoise::spec_step);
                let stepped = self.spec_step(hash, disp@, lat@, order@, step as int, noise, der@);
                assert(stepped.0 == noise && stepped.1 == der@);
            }
            (noise, nder)
        }
    }

    fn attenuation(&self, u: &Vec<i64>) -> (att: i64)
        ensures
            att == spec_att(self.corner_to_face_sq, u@, u@.len() as int),
    {
        let n = u.len();
        let mut att: i64 = self.corner_to_face_sq;
        let mut j: usize = 0;
        while j < n
            invariant
                n == u@.len(),
                j <= n,
                att == spec_att(self.corner_to_face_sq, u@, j as int),
            decreases n - j,
        {
            att = sat_sub(att, fp_mul(u[j], u[j]));
            j = j + 1;
        }
        att
    }

    fn grad_index(&self, h: u64) -> (gi: usize)
        requires
            self.eval_wf(),
        ensures
            gi as int == spec_gindex(h, self.grads@.len() as int),
            gi < self.grads@.len(),
    {
        let glen = self.grads.len();
        proof {
            assert((h as int) * (glen as int) >= 0) by (nonlinear_arith)
                requires
                    h >= 0,
                    glen >= 0,
            ;
            assert((h as int) * (glen as int) <= 0xffff_ffff_ffff_ffffu64 * 6000) by (nonlinear_arith)
                requires
                    h <= 0xffff_ffff_ffff_ffffu64,
                    0 <= glen <= 6000,
            ;
            assert((h as int) * (glen as int) < 0x1_0000_0000_0000_0000 * (glen as int))
                by (nonlinear_arith)
                requires
                    h < 0x1_0000_0000_0000_0000,
                    glen >= 2,
            ;
            vstd::arithmetic::div_mod::lemma_multiply_divide_lt(
                (h as int) * (glen as int),
                0x1_0000_0000_0000_0000,
                glen as int,
            );
            vstd::arithmetic::div_mod::lemma_div_pos_is_pos(
                (h as int) * (glen as int),
                0x1_0000_0000_0000_0000,
            );
        }
        let prod: u128 = (h as u128) * (glen as u128);
        let gi: usize = (prod / 0x1_0000_0000_0000_0000u128) as usize;
        gi
    }
}

fn zero_vec(dim: usize) -> (v: Vec<i64>)
    ensures
        v@.len() == dim,
        forall|k: int| 0 <= k < dim ==> #[trigger] v@[k] == 0i64,
{
    let mut v: Vec<i64> = Vec::new();
    let mut i: usize = 0;
    while i < dim
        invariant
            i <= dim,
            v@.len() == i,
            forall|k: int| 0 <= k < i ==> #[trigger] v@[k] == 0i64,
        decreases dim - i,
    {
        v.push(0);
        i = i + 1;
    }
    v
}

fn copy_vec(src: &Vec<i64>) -> (v: Vec<i64>)
    ensures
        v@ == src@,
{
    let mut v: Vec<i64> = Vec::new();
    let mut i: usize = 0;
    while i < src.len()
        invariant
            i <= src@.len(),
            v@.len() == i,
            forall|k: int| 0 <= k < i ==> #[trigger] v@[k] == src@[k],
        decreases src@.len() - i,
    {
        v.push(src[i]);
        i = i + 1;
    }
    proof {
        assert(v@ =~= src@);
    }
    v
}

fn dot_product(grad: &Vec<i64>, u: &Vec<i64>) -> (dot: i64)
    requires
        grad@.len() == u@.len(),
    ensures
        dot == spec_dot(grad@, u@, u@.len() as int),
{
    let n = u.len();
    let mut dot: i64 = 0;
    let mut j: usize = 0;
    while j < n
        invariant
            n == u@.len(),
            grad@.len() == n,
            j <= n,
            dot == spec_dot(grad@, u@, j as int),
        decreases n - j,
    {
        dot = sat_add(dot, fp_mul(grad[j], u[j]));
        j = j + 1;
    }
    dot
}

fn derivative_step(
    der: &Vec<i64>,
    grad: &Vec<i64>,
    u: &Vec<i64>,
    dot: i64,
    att3: i64,
    att4: i64,
) -> (nder: Vec<i64>)
    requires
        grad@.len() == der@.len(),
        u@.len() == der@.len(),
    ensures
        nder@.len() == der@.len(),
        forall|j: int|
            0 <= j < der@.len() ==> #[trigger] nder@[j] == spec_sat_add(
                der@[j] as int,
                spec_sat_sub(
                    spec_fp_mul(grad@[j] as int, att4 as int) as int,
                    spec_fp_mul(
                        spec_fp_mul(spec_sat_mul(dot as int, 8) as int, att3 as int) as int,
                        u@[j] as int,
                    ) as int,
                ) as int,
            ),
{
    let n = der.len();
    let mut nder: Vec<i64> = Vec::new();
    let mut j: usize = 0;
    while j < n
        invariant
            n == der@.len(),
            grad@.len() == n,
            u@.len() == n,
            j <= n,
            nder@.len() == j,
            forall|q: int|
                0 <= q < j ==> #[trigger] nder@[q] == spec_sat_add(
                    der@[q] as int,
                    spec_sat_sub(
                        spec_fp_mul(grad@[q] as int, att4 as int) as int,
                        spec_fp_mul(
                            spec_fp_mul(spec_sat_mul(dot as int, 8) as int, att3 as int) as int,
                            u@[q] as int,
                        ) as int,
                    ) as int,
                ),
        decreases n - j,
    {
        let t1 = fp_mul(grad[j], att4);
        let m1 = sat_mul(dot, 8);
        let m2 = fp_mul(m1, att3);
        let t2 = fp_mul(m2, u[j]);
        nder.push(sat_add(der[j], sat_sub(t1, t2)));
        j = j + 1;
    }
    nder
}

impl Noise for SimplexNoise {
    open spec fn wf(&self) -> bool {
        SimplexNoise::wf(self)
    }

    open spec fn dim(&self) -> int {
        self.dim as int
    }

    open spec fn spec_noise(&self, seed: ProcSeed, point: Seq<i64>) -> i64 {
        self.spec_eval(seed.hash, point).0
    }

    fn get_noise(&self, seed: &ProcSeed, point: &Vec<i64>) -> (r: i64) {
        let (n, _) = self.get(seed, point);
        n
    }

    fn try_get_noise(&self, seed: &ProcSeed, point: &Vec<i64>) -> (r: Result<i64, NoiseError>) {
        if point.len() == self.dim {
            Ok(self.get_noise(seed, point))
        } else {
            Err(NoiseError::InvalidInput)
        }
    }
}

impl NoiseDerivative for SimplexNoise {
    open spec fn der_wf(&self) -> bool {
        SimplexNoise::wf(self)
    }

    open spec fn der_dim(&self) -> int {
        self.dim as int
    }

    open spec fn spec_noise_derivative(&self, seed: ProcSeed, point: Seq<i64>) -> Seq<i64> {
        self.spec_eval(seed.hash, point).1
    }

    fn get_noise_derivative(&self, seed: &ProcSeed, point: &Vec<i64>) -> (r: Vec<i64>) {
        let (_, d) = self.get(seed, point);
        d
    }
}

/// A walk vertex whose offset equals a whole-unit coordinate contributes
/// nothing to a one-dimensional field's noise: at the origin cell the
/// offset is zero, so the gradient dot product vanishes; elsewhere the
/// attenuation kernel is not positive.
proof fn lemma_dim1_zero_contribution(
    field: &SimplexNoise,
    hash: u64,
    disp: Seq<i64>,
    lat: Seq<i64>,
    order: Seq<usize>,
    i: int,
    noise: i64,
    der: Seq<i64>,
    k: i64,
)
    requires
        field.wf(),
        field.dim == 1,
        field.corner_to_face_sq == FP_ONE,
        -9_000_000_000_000 <= k <= 9_000_000_000_000,
        ({
            let vertex = spec_vertex(lat, order, i);
            let u = field.spec_u(disp, lat, vertex, i);
            u.len() == 1 && u[0] == (k * FP_ONE) as i64
        }),
    ensures
        field.spec_step(hash, disp, lat, order, i, noise, der).0 == noise,
{
    reveal(SimplexNoise::spec_step);
    let p: i64 = (k * FP_ONE) as i64;
    let vertex = spec_vertex(lat, order, i);
    let u = field.spec_u(disp, lat, vertex, i);
    assert(spec_att(field.corner_to_face_sq, u, 0) == FP_ONE);
    let psq = spec_fp_mul(p as int, p as int);
    if k == 0 {
        assert(p == 0);
        assert(p as int * p as int == 0) by (nonlinear_arith)
            requires
                p == 0i64,
        ;
        vstd::arithmetic::div_mod::lemma_div_of0(FP_ONE as int);
        assert(psq == 0);
        let att = spec_att(field.corner_to_face_sq, u, 1);
        assert(att == spec_sat_sub(FP_ONE as int, 0));
        assert(att == FP_ONE);
        let vh = spec_derive_hash(hash, spec_hash_coords(vertex));
        let gi = spec_gindex(vh, field.grads@.len() as int);
        let grad = field.grads@[gi]@;
        assert(spec_dot(grad, u, 0) == 0);
        assert(grad[0] as int * (u[0] as int) == 0) by (nonlinear_arith)
            requires
                u[0] == 0i64,
        ;
        assert(spec_fp_mul(grad[0] as int, u[0] as int) == 0);
        assert(spec_dot(grad, u, 1) == spec_sat_add(0, 0));
        let att2 = spec_fp_mul(att as int, att as int);
        let att4 = spec_fp_mul(att2 as int, att2 as int);
        assert(0int * att4 as int == 0) by (nonlinear_arith);
        assert(spec_fp_mul(0, att4 as int) == 0);
        assert(field.spec_step(hash, disp, lat, order, i, noise, der).0 == spec_sat_add(
            noise as int,
            0,
        ));
    } else {
        assert(p >= FP_ONE || p <= -FP_ONE);
        assert(p as int * p as int >= 1_000_000_000_000) by (nonlinear_arith)
            requires
                p >= 1_000_000 || p <= -1_000_000,
        ;
        vstd::arithmetic::div_mod::lemma_div_is_ordered(
            1_000_000_000_000,
            p as int * p as int,
            FP_ONE as int,
        );
        vstd::arithmetic::div_mod::lemma_div_by_multiple(FP_ONE as int, FP_ONE as int);
        assert((p as int * p as int) / (FP_ONE as int) >= FP_ONE);
        assert(psq >= FP_ONE);
        let att = spec_att(field.corner_to_face_sq, u, 1);
        assert(att == spec_sat_sub(FP_ONE as int, psq as int));
        assert(att <= 0);
    }
}

/// A one-dimensional field is exactly zero at every whole-unit lattice
/// point: the walk's two vertices both see the query point at a whole-unit
/// offset, so neither contributes.
pub proof fn lemma_dim1_lattice_zero(field: &SimplexNoise, hash: u64, k: i64)
    requires
        field.wf(),
        field.dim == 1,
        -9_000_000_000_000 <= k <= 9_000_000_000_000,
    ensures
        field.spec_eval(hash, seq![(k * FP_ONE) as i64]).0 == 0,
{
    reveal(SimplexNoise::spec_eval);
    reveal(SimplexNoise::spec_lattice);
    reveal(SimplexNoise::spec_displacement);
    reveal(SimplexNoise::spec_u);
    let p: i64 = (k * FP_ONE) as i64;
    let point = seq![p];

    assert(field.skew == 0);
    assert(field.unskew == FP_ONE);
    assert(is_sqrt(1_000_000_000_000, 1_000_000)) by (nonlinear_arith);
    lemma_sqrt_is(1_000_000_000_000, 1_000_000);
    assert(spec_fp_sqrt(FP_ONE as int) == 1_000_000);
    lemma_fp_div_one(1_000_000i64);
    assert(spec_denom(1) == FP_ONE);
    assert(field.side_len == FP_ONE);
    crate::fp::lemma_fp_mul_one(1_000_000i64);
    assert(field.corner_to_face_sq == FP_ONE);
    assert(field.value_scalar == FP_ONE);

    assert(spec_sum_sat(point, 0) == 0);
    assert(spec_sum_sat(point, 1) == spec_sat_add(0, point[0] as int));
    assert(spec_sum_sat(point, 1) == p);
    assert(p as int * 0 == 0) by (nonlinear_arith);
    vstd::arithmetic::div_mod::lemma_div_of0(FP_ONE as int);
    assert(field.spec_skew_offset(point) == 0);

    let lat = field.spec_lattice(point);
    assert(spec_sat_add(p as int, 0) == p);
    vstd::arithmetic::div_mod::lemma_fundamental_div_mod_converse(
        p as int,
        FP_ONE as int,
        k as int,
        0,
    );
    assert(spec_fp_floor(p as int) == k);
    assert(lat.len() == 1 && lat[0] == k);

    assert(spec_sum_sat(lat, 0) == 0);
    assert(spec_sum_sat(lat, 1) == spec_sat_add(0, k as int));
    assert(spec_sum_sat(lat, 1) == k);
    assert(field.spec_unskew_offset(lat) == spec_sat_mul(k as int, FP_ONE as int));
    assert(field.spec_unskew_offset(lat) == p);

    let disp = field.spec_displacement(point);
    assert(spec_sat_mul(k as int, FP_ONE as int) == p);
    assert(spec_sat_sub(p as int, p as int) == 0);
    assert(disp.len() == 1 && disp[0] == spec_sat_add(0, p as int));
    assert(disp[0] == p);

    let order = spec_order(disp, 1);
    assert(spec_order(disp, 0) == Seq::<usize>::empty());
    assert(!Seq::<usize>::empty().contains(0usize));
    assert(spec_pick_from(disp, Seq::<usize>::empty(), 1, 0) == 0);
    assert(spec_pick_from(disp, Seq::<usize>::empty(), 0, -1) == 0);
    assert(spec_pick(disp, Seq::<usize>::empty()) == 0);
    assert(order =~= seq![0usize]);

    let a0 = field.spec_accum(hash, disp, lat, order, 0);
    assert(a0.0 == 0);

    let v0 = spec_vertex(lat, order, 0);
    assert(v0 == lat);
    let u0 = field.spec_u(disp, lat, v0, 0);
    assert(v0[0] - lat[0] == 0);
    assert(0int * (FP_ONE as int) == 0) by (nonlinear_arith);
    assert(spec_sat_mul(0, FP_ONE as int) == 0);
    assert(0int * (field.unskew as int) == 0) by (nonlinear_arith);
    assert(u0.len() == 1 && u0[0] == spec_sat_add(spec_sat_sub(p as int, 0) as int, 0));
    assert(u0[0] == p);
    lemma_dim1_zero_contribution(field, hash, disp, lat, order, 0, a0.0, a0.1, k);
    let a1 = field.spec_accum(hash, disp, lat, order, 1);
    assert(a1.0 == 0);

    let v1 = spec_vertex(lat, order, 1);
    assert(order[0] == 0usize);
    assert(v1 == lat.update(0, spec_sat_add(lat[0] as int, 1)));
    assert(v1.len() == 1 && v1[0] == (k + 1) as i64);
    let u1 = field.spec_u(disp, lat, v1, 1);
    assert(v1[0] - lat[0] == 1);
    assert(1int * (FP_ONE as int) == FP_ONE) by (nonlinear_arith);
    assert(spec_sat_mul(1, FP_ONE as int) == FP_ONE);
    assert(1int * (field.unskew as int) == FP_ONE) by (nonlinear_arith)
        requires
            field.unskew == 1_000_000i64,
    ;
    assert(spec_sat_sub(p as int, FP_ONE as int) == (p - FP_ONE) as i64);
    assert(u1.len() == 1 && u1[0] == spec_sat_add((p - FP_ONE) as int, FP_ONE as int));
    assert(u1[0] == p);
    lemma_dim1_zero_contribution(field, hash, disp, lat, order, 1, a1.0, a1.1, k);
    let a2 = field.spec_accum(hash, disp, lat, order, 2);
    assert(a2.0 == 0);

    assert(0int * (field.value_scalar as int) == 0) by (nonlinear_arith);
    assert(spec_fp_mul(0, field.value_scalar as int) == 0);
    assert(field.spec_eval(hash, point).0 == 0);
}

/// The per-vertex accumulators of two well-formed fields of one dimension
/// agree: every constant and every gradient entry is pinned by the
/// dimension, so each walk step computes the same pair.
proof fn lemma_accum_same(
    f1: &SimplexNoise,
    f2: &SimplexNoise,
    hash: u64,
    disp: Seq<i64>,
    lat: Seq<i64>,
    order: Seq<usize>,
    i: int,
)
    requires
        f1.wf(),
        f2.wf(),
        f1.dim == f2.dim,
        disp.len() == f1.dim,
        lat.len() == f1.dim,
    ensures
        f1.spec_accum(hash, disp, lat, order, i) == f2.spec_accum(hash, disp, lat, order, i),
    decreases i,
{
    reveal(SimplexNoise::spec_u);
    reveal(SimplexNoise::spec_step);
    if i > 0 {
        lemma_accum_same(f1, f2, hash, disp, lat, order, i - 1);
        let prev = f1.spec_accum(hash, disp, lat, order, i - 1);
        let vertex = spec_vertex(lat, order, i - 1);
        let u1 = f1.spec_u(disp, lat, vertex, i - 1);
        let u2 = f2.spec_u(disp, lat, vertex, i - 1);
        assert(u1 =~= u2);
        let att = spec_att(f1.corner_to_face_sq, u1, u1.len() as int);
        assert(spec_att(f2.corner_to_face_sq, u2, u2.len() as int) == att);
        if att > 0 {
            let vh = spec_derive_hash(hash, spec_hash_coords(vertex));
            let glen = f1.grads@.len() as int;
            assert(f2.grads@.len() == glen);
            let gi = spec_gindex(vh, glen);
            assert((vh as int) * glen >= 0) by (nonlinear_arith)
                requires
                    vh >= 0,
                    glen >= 0,
            ;
            assert((vh as int) * glen < 0x1_0000_0000_0000_0000 * glen) by (nonlinear_arith)
                requires
                    vh < 0x1_0000_0000_0000_0000,
                    glen >= 2,
            ;
            vstd::arithmetic::div_mod::lemma_multiply_divide_lt(
                (vh as int) * glen,
                0x1_0000_0000_0000_0000,
                glen,
            );
            vstd::arithmetic::div_mod::lemma_div_pos_is_pos(
                (vh as int) * glen,
                0x1_0000_0000_0000_0000,
            );
            assert(0 <= gi < glen);
            assert(f1.grads@[gi]@ =~= f2.grads@[gi]@);
            let s1 = f1.spec_step(hash, disp, lat, order, i - 1, prev.0, prev.1);
            let s2 = f2.spec_step(hash, disp, lat, order, i - 1, prev.0, prev.1);
            assert(s1.1 =~= s2.1);
            assert(s1 == s2);
        } else {
            assert(f1.spec_step(hash, disp, lat, order, i - 1, prev.0, prev.1) == f2.spec_step(
                hash,
                disp,
                lat,
                order,
                i - 1,
                prev.0,
                prev.1,
            ));
        }
    } else {
        assert(f1.spec_accum(hash, disp, lat, order, i).1 =~= f2.spec_accum(
            hash,
            disp,
            lat,
            order,
            i,
        ).1);
    }
}

/// Determinism of construction: any two well-formed fields of the same
/// dimension evaluate to the same noise and gradient at every seed hash and
/// point, because every stored constant and gradient is a function of the
/// dimension alone.
pub proof fn lemma_same_dim_same_field(
    f1: &SimplexNoise,
    f2: &SimplexNoise,
    hash: u64,
    point: Seq<i64>,
)
    requires
        f1.wf(),
        f2.wf(),
        f1.dim == f2.dim,
        point.len() == f1.dim,
    ensures
        f1.spec_eval(hash, point) == f2.spec_eval(hash, point),
{
    reveal(SimplexNoise::spec_eval);
    reveal(SimplexNoise::spec_lattice);
    reveal(SimplexNoise::spec_displacement);
    assert(f1.skew == f2.skew);
    assert(f1.unskew == f2.unskew);
    assert(f1.corner_to_face_sq == f2.corner_to_face_sq);
    assert(f1.value_scalar == f2.value_scalar);
    assert(f1.spec_skew_offset(point) == f2.spec_skew_offset(point));
    let lat = f1.spec_lattice(point);
    assert(f2.spec_lattice(point) =~= lat);
    assert(f1.spec_unskew_offset(lat) == f2.spec_unskew_offset(lat));
    let disp = f1.spec_displacement(point);
    assert(f2.spec_displacement(point) =~= disp);
    let order = spec_order(disp, f1.dim as int);
    lemma_accum_same(f1, f2, hash, disp, lat, order, f1.dim as int + 1);
    assert(f1.spec_eval(hash, point).1 =~= f2.spec_eval(hash, point).1);
}

} // verus!
