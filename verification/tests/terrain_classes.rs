use hexterrain::seed::ProcSeed;
use hexterrain::terrain::{
    classify_biome, MapBiome, Terrain, TerrainError, TiledWorldTerrain, ARID, COLD, FREEZING,
    MOIST, MOUNTAIN_LEVEL, TEMPERATE, WATER_LEVEL, WET,
};
use hexterrain::world::{GameWorld, GameWorldOffset, TiledGameWorld};

#[test]
fn forced_cold_shallow_point_is_ice() {
    // A stubbed height of 0.3 and temperature of 0.1 classify as ice,
    // whatever the precipitation.
    for p in [0i64, 300_000, 500_000, 1_000_000] {
        assert_eq!(classify_biome(300_000, p, 100_000), MapBiome::Ice);
    }
}

#[test]
fn forced_high_point_is_mountain() {
    // A stubbed height of 0.9 is mountain regardless of climate.
    for p in [0i64, 450_000, 999_999] {
        for t in [0i64, 225_000, 600_000, 1_000_000] {
            assert_eq!(classify_biome(900_000, p, t), MapBiome::Mountain);
        }
    }
}

#[test]
fn every_biome_is_reachable() {
    assert_eq!(classify_biome(200_000, 0, 100_000), MapBiome::Ice);
    assert_eq!(classify_biome(200_000, 0, 500_000), MapBiome::Water);
    assert_eq!(classify_biome(600_000, 0, 100_000), MapBiome::Tundra);
    assert_eq!(classify_biome(600_000, 400_000, 250_000), MapBiome::TemperateGrassland);
    assert_eq!(classify_biome(600_000, 470_000, 250_000), MapBiome::Shrubland);
    assert_eq!(classify_biome(600_000, 800_000, 250_000), MapBiome::BorealForest);
    assert_eq!(classify_biome(600_000, 550_000, 400_000), MapBiome::TemperateSeasonalForest);
    assert_eq!(classify_biome(600_000, 700_000, 400_000), MapBiome::TemperateRainforest);
    assert_eq!(classify_biome(600_000, 400_000, 700_000), MapBiome::Desert);
    assert_eq!(classify_biome(600_000, 470_000, 700_000), MapBiome::Savannah);
    assert_eq!(classify_biome(600_000, 550_000, 700_000), MapBiome::TropicalSeasonalForest);
    assert_eq!(classify_biome(600_000, 700_000, 700_000), MapBiome::TropicalRainforest);
    assert_eq!(classify_biome(800_000, 700_000, 700_000), MapBiome::Mountain);
}

#[test]
fn threshold_boundaries_first_match_wins() {
    // At the water level exactly, the point is land; just below, water.
    assert_eq!(classify_biome(WATER_LEVEL - 1, 0, FREEZING), MapBiome::Water);
    assert_eq!(classify_biome(WATER_LEVEL, 0, FREEZING - 1), MapBiome::Tundra);
    assert_eq!(classify_biome(MOUNTAIN_LEVEL, 0, 0), MapBiome::Mountain);
    assert_eq!(classify_biome(MOUNTAIN_LEVEL - 1, 0, FREEZING - 1), MapBiome::Tundra);
    // Temperature band edges.
    assert_eq!(classify_biome(600_000, ARID, COLD - 1), MapBiome::Shrubland);
    assert_eq!(classify_biome(600_000, ARID - 1, COLD), MapBiome::TemperateGrassland);
    assert_eq!(classify_biome(600_000, WET, TEMPERATE - 1), MapBiome::TemperateRainforest);
    assert_eq!(classify_biome(600_000, WET - 1, TEMPERATE), MapBiome::TropicalSeasonalForest);
    assert_eq!(classify_biome(600_000, MOIST, TEMPERATE), MapBiome::TropicalSeasonalForest);
}

#[test]
fn classification_is_total_over_a_grid() {
    // Every combination lands in a defined category; Empty never comes out.
    let samples = [
        -2_000_000i64,
        0,
        224_999,
        225_000,
        299_999,
        300_000,
        449_999,
        450_000,
        499_999,
        500_000,
        549_999,
        550_000,
        599_999,
        600_000,
        699_999,
        700_000,
        1_000_000,
        3_000_000,
    ];
    for &h in &samples {
        for &p in &samples {
            for &t in &samples {
                assert_ne!(classify_biome(h, p, t), MapBiome::Empty);
            }
        }
    }
}

#[test]
fn terrain_fields_feed_the_classifier() {
    let terrain = TiledWorldTerrain::new();
    let seed = ProcSeed::new(42, 0);
    let point = vec![250_000, 750_000];
    let h = terrain.get_height(&seed, &point);
    let p = terrain.get_precipitation(&seed, &point);
    let t = terrain.get_temperature(&seed, &point);
    assert_eq!(terrain.get_biome(&seed, &point), classify_biome(h, p, t));
    assert_eq!(terrain.get_biome(&seed, &point), terrain.get_biome(&seed, &point));
}

#[test]
fn terrain_maps_carry_the_documented_configuration() {
    let terrain = TiledWorldTerrain::new();
    assert_eq!(terrain.heightmap.source.octaves.len(), 20);
    assert_eq!(terrain.moisturemap.source.octaves.len(), 10);
    assert_eq!(terrain.temperatureperturbancemap.source.octaves.len(), 5);
    assert_eq!(terrain.maptexturemap.source.octaves.len(), 5);
    assert_eq!(terrain.heightmap.source.octave_factor, 500_000);
    assert_eq!(terrain.heightmap.tile_distance, 1_000_000);
    assert_eq!(terrain.heightmap.scale, 500_000);
    assert_eq!(terrain.temperatureperturbancemap.scale, 1_000_000);
    assert_eq!(terrain.maptexturemap.scale, 500_000);
}

#[test]
fn terrain_fields_stay_in_the_unit_range() {
    let terrain = TiledWorldTerrain::new();
    for s in 0..2u64 {
        let seed = ProcSeed::new(s, 0);
        for i in 0..20i64 {
            let point = vec![i * 50_000, 1_000_000 - i * 37_000];
            for v in [
                terrain.get_height(&seed, &point),
                terrain.get_precipitation(&seed, &point),
                terrain.get_temperature(&seed, &point),
                terrain.get_map_texture(&seed, &point),
            ] {
                assert!(0 <= v && v <= 1_000_000, "field out of unit range: {}", v);
            }
        }
    }
}

#[test]
fn terrain_is_periodic_over_the_unit_tile() {
    let terrain = TiledWorldTerrain::new();
    let seed = ProcSeed::new(7, 0);
    let point = vec![123_456, 654_321];
    let shifted = vec![123_456 + 3_000_000, 654_321 - 2_000_000];
    assert_eq!(
        terrain.get_height(&seed, &point),
        terrain.get_height(&seed, &shifted)
    );
    assert_eq!(
        terrain.get_biome(&seed, &point),
        terrain.get_biome(&seed, &shifted)
    );
}

#[test]
fn checked_query_rejects_wrong_dimension() {
    let terrain = TiledWorldTerrain::new();
    let seed = ProcSeed::new(3, 0);
    assert_eq!(
        terrain.try_get_biome(&seed, &vec![1, 2, 3]),
        Err(TerrainError::InvalidInput)
    );
    let ok = terrain.try_get_biome(&seed, &vec![10_000, 20_000]);
    assert_eq!(ok, Ok(terrain.get_biome(&seed, &vec![10_000, 20_000])));
}

#[test]
fn render_is_deterministic_and_matches_texture_shading() {
    let terrain = TiledWorldTerrain::new();
    let seed = ProcSeed::new(11, 0);
    let point = vec![400_000, 100_000];
    let (fg1, bg1) = terrain.render(&seed, &point);
    let (fg2, bg2) = terrain.render(&seed, &point);
    assert_eq!(fg1, fg2);
    assert_eq!(bg1, bg2);
    for v in [fg1.r, fg1.g, fg1.b, bg1.r, bg1.g, bg1.b] {
        assert!(0 <= v && v <= 1_000_000, "channel out of unit range: {}", v);
    }
}

#[test]
fn world_maps_offsets_onto_the_tile() {
    let world = TiledGameWorld::new(800, 600);
    let seed = ProcSeed::new(1, 0);
    let origin = world.get_origin();
    assert_eq!(origin, GameWorldOffset::new(0, 0, 0));
    let a = world.render(&seed, &GameWorldOffset::new(10, 20, 0));
    let b = world.render(&seed, &GameWorldOffset::new(10, 20, 0));
    assert_eq!(a, b);
    // A full width is one tile: the same column repeats.
    let c = world.render(&seed, &GameWorldOffset::new(10 + 800, 20, 0));
    assert_eq!(a, c);
}
