use hexterrain::fp::{cos_turns, sin_turns, FP_ONE};
use hexterrain::noise::{Noise, NoiseError};
use hexterrain::octave::OctavedSimplexNoise;
use hexterrain::seed::{hash, hash_str, ProcSeed};
use hexterrain::simplex::SimplexNoise;
use hexterrain::tiling::{SkewedTiledOctavedSimplexNoise, TiledOctavedSimplexNoise};

fn sample_coord(label: u64) -> i64 {
    // A deterministic pseudo-random coordinate in about [-20, 20] units.
    (hash(label) % 40_000_001) as i64 - 20_000_000
}

#[test]
fn sine_quarter_points() {
    assert_eq!(sin_turns(0), 0);
    assert_eq!(sin_turns(250_000), FP_ONE);
    assert_eq!(sin_turns(500_000), 0);
    assert_eq!(sin_turns(750_000), -FP_ONE);
    assert_eq!(cos_turns(0), FP_ONE);
    assert_eq!(cos_turns(500_000), -FP_ONE);
}

#[test]
fn hash_is_deterministic_and_spreads() {
    assert_eq!(hash(12345), hash(12345));
    assert_ne!(hash(0), hash(1));
    assert_eq!(hash_str("heightmap"), hash_str("heightmap"));
    assert_ne!(hash_str("heightmap"), hash_str("moisturemap"));
}

#[test]
fn seed_independence_many_labels() {
    // Distinct labels on the same parent yield pairwise distinct children.
    let s = ProcSeed::new(7, 0);
    let mut hashes: Vec<u64> = Vec::new();
    for label in 0..256u64 {
        hashes.push(s.derive(label).hash);
    }
    hashes.push(s.derive_str("heightmap").hash);
    hashes.push(s.derive_str("moisturemap").hash);
    hashes.push(s.derive_str("temperatureperturbancemap").hash);
    hashes.push(s.derive_str("maptexturemap").hash);
    for i in 0..hashes.len() {
        for j in 0..i {
            assert_ne!(hashes[i], hashes[j]);
        }
    }
}

#[test]
fn seed_derivation_keeps_skew() {
    let s = ProcSeed::new(99, 123_456);
    assert_eq!(s.get_skew(), 123_456);
    assert_eq!(s.derive(5).get_skew(), 123_456);
    assert_eq!(s.derive_str("heightmap").get_skew(), 123_456);
    assert_eq!(s.get(), s.hash);
}

#[test]
fn simplex_noise_is_deterministic() {
    let field = SimplexNoise::new(2);
    let seed = ProcSeed::new(42, 0);
    let point = vec![314_159, -271_828];
    let a = field.get_noise(&seed, &point);
    let b = field.get_noise(&seed, &point);
    assert_eq!(a, b);
    let other = SimplexNoise::new(2);
    assert_eq!(other.get_noise(&seed, &point), a);
}

#[test]
fn dim1_gradient_table() {
    let field = SimplexNoise::new(1);
    assert_eq!(field.grads.len(), 2);
    assert_eq!(field.grads[0], vec![-FP_ONE]);
    assert_eq!(field.grads[1], vec![FP_ONE]);
}

#[test]
fn dim1_lattice_points_are_zero() {
    let field = SimplexNoise::new(1);
    let seed = ProcSeed::new(1234, 0);
    for k in -5i64..6 {
        let point = vec![k * FP_ONE];
        assert_eq!(field.get_noise(&seed, &point), 0);
    }
}

#[test]
fn constructors_store_their_configuration() {
    let stack = OctavedSimplexNoise::new(3, 7, 400_000);
    assert_eq!(stack.dim, 3);
    assert_eq!(stack.octaves.len(), 7);
    assert_eq!(stack.octave_factor, 400_000);
    let tiled = TiledOctavedSimplexNoise::new(2, 6, 300_000, 900_000, 200_000);
    assert_eq!(tiled.source.dim, 4);
    assert_eq!(tiled.source.octaves.len(), 6);
    assert_eq!(tiled.source.octave_factor, 300_000);
    let skewed = SkewedTiledOctavedSimplexNoise::new(2, 6, 300_000, 900_000, 200_000);
    assert_eq!(skewed.source.dim, 5);
    assert_eq!(skewed.source.octaves.len(), 6);
    assert_eq!(skewed.source.octave_factor, 300_000);
}

#[test]
fn checked_noise_query_rejects_wrong_dimension() {
    let seed = ProcSeed::new(8, 0);
    let field = SimplexNoise::new(2);
    assert_eq!(
        field.try_get_noise(&seed, &vec![1, 2, 3]),
        Err(NoiseError::InvalidInput)
    );
    assert_eq!(
        field.try_get_noise(&seed, &vec![10, 20]),
        Ok(field.get_noise(&seed, &vec![10, 20]))
    );
    let tiled = TiledOctavedSimplexNoise::new(2, 2, 500_000, FP_ONE, 500_000);
    assert_eq!(
        tiled.try_get_noise(&seed, &vec![1]),
        Err(NoiseError::InvalidInput)
    );
    let stack = OctavedSimplexNoise::new(2, 2, 500_000);
    assert_eq!(stack.try_get_noise(&seed, &vec![]), Err(NoiseError::InvalidInput));
    let skewed = SkewedTiledOctavedSimplexNoise::new(2, 2, 500_000, FP_ONE, 500_000);
    assert_eq!(
        skewed.try_get_noise(&seed, &vec![0, 0]),
        Ok(skewed.get_noise(&seed, &vec![0, 0]))
    );
}

#[test]
fn octave_stack_single_octave_is_identity() {
    let stack = OctavedSimplexNoise::new(2, 1, 500_000);
    let seed = ProcSeed::new(2024, 0);
    let point = vec![777_777, -123_456];
    let direct = stack.octaves[0].get_noise(&seed.derive(0), &point);
    assert_eq!(stack.get_noise(&seed, &point), direct);
}

#[test]
fn octave_stack_stays_in_bounds() {
    // A dense deterministic sample stays within [-1.05, 1.05] units.
    let stack = OctavedSimplexNoise::new(2, 4, 500_000);
    for s in 0..3u64 {
        let seed = ProcSeed::new(s, 0);
        for i in 0..200u64 {
            let point = vec![sample_coord(2 * i), sample_coord(2 * i + 1)];
            let v = stack.get_noise(&seed, &point);
            assert!(-1_050_000 <= v && v <= 1_050_000, "out of range: {}", v);
        }
    }
}

#[test]
fn tiled_noise_is_periodic() {
    let tile = 700_000i64;
    let field = TiledOctavedSimplexNoise::new(2, 3, 500_000, tile, 800_000);
    let seed = ProcSeed::new(5, 0);
    for i in 0..20u64 {
        let p = vec![sample_coord(3 * i), sample_coord(3 * i + 1)];
        let base = field.get_noise(&seed, &p);
        for k in [-3i64, -1, 1, 5] {
            let shifted_x = vec![p[0] + k * tile, p[1]];
            assert_eq!(field.get_noise(&seed, &shifted_x), base);
            let shifted_y = vec![p[0], p[1] + k * tile];
            assert_eq!(field.get_noise(&seed, &shifted_y), base);
        }
    }
}

#[test]
fn skewed_tiled_noise_is_periodic_and_skew_sensitive() {
    let tile = FP_ONE;
    let field = SkewedTiledOctavedSimplexNoise::new(2, 3, 500_000, tile, 500_000);
    let seed = ProcSeed::new(9, 250_000);
    let p = vec![123_456, 654_321];
    let base = field.get_noise(&seed, &p);
    let shifted = vec![p[0] + 4 * tile, p[1]];
    assert_eq!(field.get_noise(&seed, &shifted), base);
    // The same point under a different skew drifts to another value with
    // the same fingerprint.
    let drifted = ProcSeed { hash: seed.hash, skew: 750_000 };
    assert_ne!(field.get_noise(&drifted, &p), base);
}
