//! Deterministic, derivable seeds. A seed carries a 64-bit hash, the root of
//! all pseudo-randomness, and a continuous fixed-point `skew` parameter that
//! is inherited unchanged by every derived child. Deriving by distinct labels
//! yields independent-looking but fully reproducible children.

use vstd::prelude::*;

verus! {

use vstd::string::StringSliceAdditionalSpecFns;

/// 64-bit finalizer round: xor-shift then an odd multiplier, wrapping.
pub open spec fn spec_wrap_mul64(a: u64, b: u64) -> u64 {
    ((a * b) % 0x1_0000_0000_0000_0000) as u64
}

fn wrap_mul64(a: u64, b: u64) -> (r: u64)
    ensures
        r == spec_wrap_mul64(a, b),
{
    proof {
        assert(a * b <= u128::MAX) by (nonlinear_arith)
            requires
                a <= 0xffff_ffff_ffff_ffff,
                b <= 0xffff_ffff_ffff_ffff,
        ;
    }
    ((a as u128 * b as u128) % 0x1_0000_0000_0000_0000u128) as u64
}

/// The mixing function behind every seed: a bijective 64-bit finalizer that
/// spreads every input bit over the whole word.
pub open spec fn spec_hash_u64(x: u64) -> u64 {
    let a = x ^ (x >> 30);
    let b = spec_wrap_mul64(a, 0xbf58_476d_1ce4_e5b9);
    let c = b ^ (b >> 27);
    let m = spec_wrap_mul64(c, 0x94d0_49bb_1331_11eb);
    m ^ (m >> 31)
}

/// Hashes a 64-bit value deterministically and uniformly over 64 bits.
pub fn hash(x: u64) -> (r: u64)
    ensures
        r == spec_hash_u64(x),
{
    let a = x ^ (x >> 30);
    let b = wrap_mul64(a, 0xbf58_476d_1ce4_e5b9);
    let c = b ^ (b >> 27);
    let m = wrap_mul64(c, 0x94d0_49bb_1331_11eb);
    m ^ (m >> 31)
}

/// Running 64-bit fold of the first `n` bytes of `s`, in the style of
/// Fowler-Noll-Vo: xor the byte in, then multiply by an odd prime.
pub open spec fn spec_fold_bytes(s: Seq<u8>, n: int) -> u64
    decreases n,
{
    if n <= 0 {
        0xcbf2_9ce4_8422_2325
    } else {
        spec_wrap_mul64(spec_fold_bytes(s, n - 1) ^ (s[n - 1] as u64), 0x100_0000_01b3)
    }
}

/// The label hash of a byte string: the byte fold, finalized.
pub open spec fn spec_hash_bytes(s: Seq<u8>) -> u64 {
    spec_hash_u64(spec_fold_bytes(s, s.len() as int))
}

/// Hashes a string label by its bytes.
pub fn hash_str(s: &str) -> (r: u64)
    ensures
        r == spec_hash_bytes(s.spec_bytes()),
{
    let bytes = s.as_bytes();
    let mut acc: u64 = 0xcbf2_9ce4_8422_2325;
    let mut i: usize = 0;
    while i < bytes.len()
        invariant
            i <= bytes@.len(),
            acc == spec_fold_bytes(bytes@, i as int),
        decreases bytes@.len() - i,
    {
        acc = wrap_mul64(acc ^ (bytes[i] as u64), 0x100_0000_01b3);
        i = i + 1;
    }
    hash(acc)
}

/// The two's-complement image of a signed coordinate in 64 unsigned bits.
pub open spec fn spec_u64_of_i64(x: i64) -> u64 {
    if x >= 0 {
        x as u64
    } else {
        (x + 0x1_0000_0000_0000_0000) as u64
    }
}

fn u64_of_i64(x: i64) -> (r: u64)
    ensures
        r == spec_u64_of_i64(x),
{
    if x >= 0 {
        x as u64
    } else {
        ((x as i128) + 0x1_0000_0000_0000_0000i128) as u64
    }
}

/// Running 64-bit fold of the first `n` coordinates of an integer vector.
pub open spec fn spec_fold_coords(s: Seq<i64>, n: int) -> u64
    decreases n,
{
    if n <= 0 {
        0xcbf2_9ce4_8422_2325
    } else {
        spec_wrap_mul64(spec_fold_coords(s, n - 1) ^ spec_u64_of_i64(s[n - 1]), 0x100_0000_01b3)
    }
}

/// The label hash of an integer vector: the coordinate fold, finalized.
pub open spec fn spec_hash_coords(s: Seq<i64>) -> u64 {
    spec_hash_u64(spec_fold_coords(s, s.len() as int))
}

/// Hashes a lattice-vertex label by its coordinates.
pub fn hash_coords(coords: &Vec<i64>) -> (r: u64)
    ensures
        r == spec_hash_coords(coords@),
{
    let mut acc: u64 = 0xcbf2_9ce4_8422_2325;
    let mut i: usize = 0;
    while i < coords.len()
        invariant
            i <= coords@.len(),
            acc == spec_fold_coords(coords@, i as int),
        decreases coords@.len() - i,
    {
        acc = wrap_mul64(acc ^ u64_of_i64(coords[i]), 0x100_0000_01b3);
        i = i + 1;
    }
    hash(acc)
}

/// An immutable seed value: a deterministic 64-bit fingerprint plus a
/// continuous skew parameter (for example, simulated time) in micro-units.
#[derive(Clone, Copy, PartialEq, Eq, Structural, Debug)]
pub struct ProcSeed {
    pub hash: u64,
    pub skew: i64,
}

/// The child seed under a label hash: hash the parent fingerprint xor the
/// label hash; the skew is inherited unchanged.
pub open spec fn spec_derive_hash(parent: u64, label_hash: u64) -> u64 {
    spec_hash_u64(parent ^ label_hash)
}

impl ProcSeed {
    /// Builds a root seed by hashing a 64-bit value; stores the skew as is.
    pub fn new(value: u64, skew: i64) -> (s: ProcSeed)
        ensures
            s.hash == spec_hash_u64(value),
            s.skew == skew,
    {
        ProcSeed { hash: hash(value), skew }
    }

    /// The deterministic fingerprint.
    pub fn get(&self) -> (r: u64)
        ensures
            r == self.hash,
    {
        self.hash
    }

    /// The continuous skew parameter, in micro-units.
    pub fn get_skew(&self) -> (r: i64)
        ensures
            r == self.skew,
    {
        self.skew
    }

    /// A child seed under a 64-bit label.
    pub fn derive(&self, label: u64) -> (s: ProcSeed)
        ensures
            s.hash == spec_derive_hash(self.hash, spec_hash_u64(label)),
            s.skew == self.skew,
    {
        ProcSeed { hash: hash(self.hash ^ hash(label)), skew: self.skew }
    }

    /// A child seed under a string label.
    pub fn derive_str(&self, label: &str) -> (s: ProcSeed)
        ensures
            s.hash == spec_derive_hash(self.hash, spec_hash_bytes(label.spec_bytes())),
            s.skew == self.skew,
    {
        ProcSeed { hash: hash(self.hash ^ hash_str(label)), skew: self.skew }
    }

    /// A child seed under a lattice-vertex label.
    pub fn derive_coords(&self, coords: &Vec<i64>) -> (s: ProcSeed)
        ensures
            s.hash == spec_derive_hash(self.hash, spec_hash_coords(coords@)),
            s.skew == self.skew,
    {
        ProcSeed { hash: hash(self.hash ^ hash_coords(coords)), skew: self.skew }
    }
}

} // verus!
