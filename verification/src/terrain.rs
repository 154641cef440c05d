//! Terrain classification and coloring: four independently seeded periodic
//! noise fields (height, moisture, temperature perturbance, texture) are
//! combined per point, thresholded into one of a closed set of biomes, and
//! mapped to a foreground/background color pair.

use vstd::prelude::*;

verus! {

use vstd::string::StringSliceAdditionalSpecFns;
use crate::fp::{
    FP_ONE, FP_HALF, tdiv, spec_sat_add, spec_fp_mul, spec_fp_div, spec_sin_turns, sat_add,
    fp_mul, fp_mul_sub, fp_div, halve, euclid_mod, sin_turns,
};
use crate::seed::{ProcSeed, spec_derive_hash, spec_hash_bytes};
use crate::tiling::SkewedTiledOctavedSimplexNoise;
use crate::noise::Noise;

/// Heights below this are water.
pub const WATER_LEVEL: i64 = 550_000;

/// Heights at or above this are mountain, whatever the climate.
pub const MOUNTAIN_LEVEL: i64 = 700_000;

/// Temperatures below this freeze.
pub const FREEZING: i64 = 225_000;

/// Upper bound of the cold temperature band.
pub const COLD: i64 = 300_000;

/// Upper bound of the temperate band; above it is tropical.
pub const TEMPERATE: i64 = 600_000;

/// Precipitation below this is arid.
pub const ARID: i64 = 450_000;

/// Upper bound of the moderately moist band.
pub const MOIST: i64 = 500_000;

/// Upper bound of the wet band; above it is rainforest.
pub const WET: i64 = 600_000;

/// The closed set of terrain categories.
#[derive(Clone, Copy, PartialEq, Eq, Structural, Debug)]
pub enum MapBiome {
    Empty,
    Water,
    Ice,
    Tundra,
    BorealForest,
    Shrubland,
    TemperateGrassland,
    TemperateRainforest,
    TemperateSeasonalForest,
    TropicalRainforest,
    TropicalSeasonalForest,
    Savannah,
    Desert,
    Mountain,
}

/// The biome thresholds, first match wins: water or ice below the water
/// level; mountain at or above the mountain level; in between, bands of
/// temperature and then precipitation.
pub open spec fn spec_classify(height: i64, precipitation: i64, temperature: i64) -> MapBiome {
    if height < WATER_LEVEL {
        if temperature < FREEZING {
            MapBiome::Ice
        } else {
            MapBiome::Water
        }
    } else if height < MOUNTAIN_LEVEL {
        if temperature < FREEZING {
            MapBiome::Tundra
        } else if temperature < COLD {
            if precipitation < ARID {
                MapBiome::TemperateGrassland
            } else if precipitation < MOIST {
                MapBiome::Shrubland
            } else {
                MapBiome::BorealForest
            }
        } else if temperature < TEMPERATE {
            if precipitation < ARID {
                MapBiome::TemperateGrassland
            } else if precipitation < MOIST {
                MapBiome::Shrubland
            } else if precipitation < WET {
                MapBiome::TemperateSeasonalForest
            } else {
                MapBiome::TemperateRainforest
            }
        } else {
            if precipitation < ARID {
                MapBiome::Desert
            } else if precipitation < MOIST {
                MapBiome::Savannah
            } else if precipitation < WET {
                MapBiome::TropicalSeasonalForest
            } else {
                MapBiome::TropicalRainforest
            }
        }
    } else {
        MapBiome::Mountain
    }
}

/// Classifies a point's combined fields into a biome. Total: defined for
/// every input triple, and never panics.
pub fn classify_biome(height: i64, precipitation: i64, temperature: i64) -> (b: MapBiome)
    ensures
        b == spec_classify(height, precipitation, temperature),
{
    if height < WATER_LEVEL {
        if temperature < FREEZING {
            MapBiome::Ice
        } else {
            MapBiome::Water
        }
    } else if height < MOUNTAIN_LEVEL {
        if temperature < FREEZING {
            MapBiome::Tundra
        } else if temperature < COLD {
            if precipitation < ARID {
                MapBiome::TemperateGrassland
            } else if precipitation < MOIST {
                MapBiome::Shrubland
            } else {
                MapBiome::BorealForest
            }
        } else if temperature < TEMPERATE {
            if precipitation < ARID {
                MapBiome::TemperateGrassland
            } else if precipitation < MOIST {
                MapBiome::Shrubland
            } else if precipitation < WET {
                MapBiome::TemperateSeasonalForest
            } else {
                MapBiome::TemperateRainforest
            }
        } else {
            if precipitation < ARID {
                MapBiome::Desert
            } else if precipitation < MOIST {
                MapBiome::Savannah
            } else if precipitation < WET {
                MapBiome::TropicalSeasonalForest
            } else {
                MapBiome::TropicalRainforest
            }
        }
    } else {
        MapBiome::Mountain
    }
}

/// Classification is total over every input triple and always lands in one
/// of the defined categories; the unrendered `Empty` placeholder is never
/// chosen.
pub proof fn lemma_biome_total(height: i64, precipitation: i64, temperature: i64)
    ensures
        spec_classify(height, precipitation, temperature) != MapBiome::Empty,
        spec_classify(height, precipitation, temperature) == MapBiome::Water
            || spec_classify(height, precipitation, temperature) == MapBiome::Ice
            || spec_classify(height, precipitation, temperature) == MapBiome::Tundra
            || spec_classify(height, precipitation, temperature) == MapBiome::BorealForest
            || spec_classify(height, precipitation, temperature) == MapBiome::Shrubland
            || spec_classify(height, precipitation, temperature) == MapBiome::TemperateGrassland
            || spec_classify(height, precipitation, temperature) == MapBiome::TemperateRainforest
            || spec_classify(height, precipitation, temperature)
            == MapBiome::TemperateSeasonalForest
            || spec_classify(height, precipitation, temperature) == MapBiome::TropicalRainforest
            || spec_classify(height, precipitation, temperature)
            == MapBiome::TropicalSeasonalForest
            || spec_classify(height, precipitation, temperature) == MapBiome::Savannah
            || spec_classify(height, precipitation, temperature) == MapBiome::Desert
            || spec_classify(height, precipitation, temperature) == MapBiome::Mountain,
{
}

/// Below the water level, a freezing point is always ice.
pub proof fn lemma_freezing_water_is_ice(height: i64, precipitation: i64, temperature: i64)
    requires
        height < WATER_LEVEL,
        temperature < FREEZING,
    ensures
        spec_classify(height, precipitation, temperature) == MapBiome::Ice,
{
}

/// At or above the mountain level, the biome is mountain regardless of
/// temperature and precipitation.
pub proof fn lemma_high_ground_is_mountain(height: i64, precipitation: i64, temperature: i64)
    requires
        height >= MOUNTAIN_LEVEL,
    ensures
        spec_classify(height, precipitation, temperature) == MapBiome::Mountain,
{
}

/// A color with fixed-point channels, one whole unit per full channel.
#[derive(Clone, Copy, PartialEq, Eq, Structural, Debug)]
pub struct Rgb {
    pub r: i64,
    pub g: i64,
    pub b: i64,
}

/// Per-channel linear blend from `a` toward `b` by `l`.
pub open spec fn spec_color_lerp(a: Rgb, b: Rgb, l: i64) -> Rgb {
    Rgb {
        r: spec_sat_add(a.r as int, spec_fp_mul(b.r - a.r, l as int) as int),
        g: spec_sat_add(a.g as int, spec_fp_mul(b.g - a.g, l as int) as int),
        b: spec_sat_add(a.b as int, spec_fp_mul(b.b - a.b, l as int) as int),
    }
}

/// Linear darkening toward black: black blended toward the color by the
/// brightness factor.
pub open spec fn spec_color_brightness(c: Rgb, brightness: i64) -> Rgb {
    spec_color_lerp(Rgb { r: 0, g: 0, b: 0 }, c, brightness)
}

fn color_lerp(a: &Rgb, b: &Rgb, l: i64) -> (c: Rgb)
    ensures
        c == spec_color_lerp(*a, *b, l),
{
    Rgb {
        r: sat_add(a.r, fp_mul_sub(b.r, a.r, l)),
        g: sat_add(a.g, fp_mul_sub(b.g, a.g, l)),
        b: sat_add(a.b, fp_mul_sub(b.b, a.b, l)),
    }
}

fn color_brightness(c: &Rgb, brightness: i64) -> (o: Rgb)
    ensures
        o == spec_color_brightness(*c, brightness),
{
    color_lerp(&Rgb { r: 0, g: 0, b: 0 }, c, brightness)
}

/// A value confined to the unit range `[0, 1]` in micro-units.
pub open spec fn spec_clamp_unit(x: i64) -> i64 {
    if x < 0 {
        0
    } else if x > FP_ONE {
        FP_ONE
    } else {
        x
    }
}

fn clamp_unit(x: i64) -> (r: i64)
    ensures
        r == spec_clamp_unit(x),
        0 <= r <= FP_ONE,
{
    if x < 0 {
        0
    } else if x > FP_ONE {
        FP_ONE
    } else {
        x
    }
}

/// A color with every channel confined to the unit range.
pub open spec fn spec_clamp_color(c: Rgb) -> Rgb {
    Rgb { r: spec_clamp_unit(c.r), g: spec_clamp_unit(c.g), b: spec_clamp_unit(c.b) }
}

fn clamp_color(c: &Rgb) -> (o: Rgb)
    ensures
        o == spec_clamp_color(*c),
        0 <= o.r <= FP_ONE,
        0 <= o.g <= FP_ONE,
        0 <= o.b <= FP_ONE,
{
    Rgb { r: clamp_unit(c.r), g: clamp_unit(c.g), b: clamp_unit(c.b) }
}

/// The fixed base color of each biome except water, whose base depends on
/// the depth.
pub open spec fn spec_base_color(b: MapBiome) -> Rgb {
    match b {
        MapBiome::Empty => Rgb { r: 1_000_000, g: 1_000_000, b: 1_000_000 },
        MapBiome::Water => Rgb { r: 0, g: 0, b: 300_000 },
        MapBiome::Ice => Rgb { r: 700_000, g: 700_000, b: 1_000_000 },
        MapBiome::Tundra => Rgb { r: 500_000, g: 800_000, b: 400_000 },
        MapBiome::BorealForest => Rgb { r: 400_000, g: 700_000, b: 400_000 },
        MapBiome::Shrubland => Rgb { r: 500_000, g: 600_000, b: 200_000 },
        MapBiome::TemperateGrassland => Rgb { r: 300_000, g: 700_000, b: 200_000 },
        MapBiome::TemperateRainforest => Rgb { r: 200_000, g: 600_000, b: 400_000 },
        MapBiome::TemperateSeasonalForest => Rgb { r: 600_000, g: 800_000, b: 300_000 },
        MapBiome::TropicalRainforest => Rgb { r: 200_000, g: 800_000, b: 200_000 },
        MapBiome::TropicalSeasonalForest => Rgb { r: 500_000, g: 700_000, b: 100_000 },
        MapBiome::Savannah => Rgb { r: 500_000, g: 700_000, b: 100_000 },
        MapBiome::Desert => Rgb { r: 900_000, g: 800_000, b: 200_000 },
        MapBiome::Mountain => Rgb { r: 800_000, g: 800_000, b: 800_000 },
    }
}

/// The dark and bright blues that water is blended between by depth.
pub open spec fn spec_water_color(height: i64) -> Rgb {
    let depth_frac = spec_fp_div(height as int, WATER_LEVEL as int);
    let cube = spec_fp_mul(
        spec_fp_mul(depth_frac as int, depth_frac as int) as int,
        depth_frac as int,
    );
    spec_color_lerp(
        Rgb { r: 0, g: 0, b: 300_000 },
        Rgb { r: 0, g: 400_000, b: 900_000 },
        cube,
    )
}

/// The rendered color pair of a classified point: the biome's base color
/// (water blended toward bright blue by the cubed depth fraction) in front
/// of the same color darkened by the texture-driven brightness.
#[verifier::opaque]
pub open spec fn spec_render_pair(biome: MapBiome, height: i64, texture: i64) -> (Rgb, Rgb) {
    let fg = spec_clamp_color(
        if biome == MapBiome::Water {
            spec_water_color(height)
        } else {
            spec_base_color(biome)
        },
    );
    let brightness = spec_sat_add(300_000, spec_fp_mul(700_000, texture as int) as int);
    let bg = spec_clamp_color(spec_color_brightness(fg, brightness));
    (fg, bg)
}

/// The query interface of a classified terrain: per-point scalar fields,
/// the biome, and the rendered color pair.
pub trait Terrain {
    /// The terrain is fully constructed and internally consistent.
    spec fn t_wf(&self) -> bool;

    /// The height field in `[0, 1]` units.
    spec fn spec_height(&self, seed: ProcSeed, point: Seq<i64>) -> i64;

    /// The precipitation field in `[0, 1]` units.
    spec fn spec_precipitation(&self, seed: ProcSeed, point: Seq<i64>) -> i64;

    /// The temperature field in `[0, 1]` units.
    spec fn spec_temperature(&self, seed: ProcSeed, point: Seq<i64>) -> i64;

    /// The shading texture field in `[0, 1]` units.
    spec fn spec_map_texture(&self, seed: ProcSeed, point: Seq<i64>) -> i64;

    fn get_height(&self, seed: &ProcSeed, point: &Vec<i64>) -> (r: i64)
        requires
            self.t_wf(),
            point@.len() == 2,
        ensures
            r == self.spec_height(*seed, point@),
            0 <= r <= FP_ONE,
    ;

    fn get_precipitation(&self, seed: &ProcSeed, point: &Vec<i64>) -> (r: i64)
        requires
            self.t_wf(),
            point@.len() == 2,
        ensures
            r == self.spec_precipitation(*seed, point@),
            0 <= r <= FP_ONE,
    ;

    fn get_temperature(&self, seed: &ProcSeed, point: &Vec<i64>) -> (r: i64)
        requires
            self.t_wf(),
            point@.len() == 2,
        ensures
            r == self.spec_temperature(*seed, point@),
            0 <= r <= FP_ONE,
    ;

    fn get_map_texture(&self, seed: &ProcSeed, point: &Vec<i64>) -> (r: i64)
        requires
            self.t_wf(),
            point@.len() == 2,
        ensures
            r == self.spec_map_texture(*seed, point@),
            0 <= r <= FP_ONE,
    ;

    /// The biome is exactly the threshold classification of the height,
    /// precipitation and temperature fields at this point.
    fn get_biome(&self, seed: &ProcSeed, point: &Vec<i64>) -> (b: MapBiome)
        requires
            self.t_wf(),
            point@.len() == 2,
        ensures
            b == spec_classify(
                self.spec_height(*seed, point@),
                self.spec_precipitation(*seed, point@),
                self.spec_temperature(*seed, point@),
            ),
    ;

    /// The rendered pair: the biome's base color (water blended by depth)
    /// in front of the same color darkened by the texture field.
    fn render(&self, seed: &ProcSeed, point: &Vec<i64>) -> (c: (Rgb, Rgb))
        requires
            self.t_wf(),
            point@.len() == 2,
        ensures
            c == spec_render_pair(
                spec_classify(
                    self.spec_height(*seed, point@),
                    self.spec_precipitation(*seed, point@),
                    self.spec_temperature(*seed, point@),
                ),
                self.spec_height(*seed, point@),
                self.spec_map_texture(*seed, point@),
            ),
            0 <= c.0.r <= FP_ONE,
            0 <= c.0.g <= FP_ONE,
            0 <= c.0.b <= FP_ONE,
            0 <= c.1.r <= FP_ONE,
            0 <= c.1.g <= FP_ONE,
            0 <= c.1.b <= FP_ONE,
    ;
}

/// A world terrain built from four periodic skew-drifting noise maps over
/// a unit tile.
pub struct TiledWorldTerrain {
    pub heightmap: SkewedTiledOctavedSimplexNoise,
    pub moisturemap: SkewedTiledOctavedSimplexNoise,
    pub temperatureperturbancemap: SkewedTiledOctavedSimplexNoise,
    pub maptexturemap: SkewedTiledOctavedSimplexNoise,
}

/// The child seed a map derives for its own sampling, under its label.
pub open spec fn spec_label_seed(seed: ProcSeed, label: Seq<u8>) -> ProcSeed {
    ProcSeed { hash: spec_derive_hash(seed.hash, spec_hash_bytes(label)), skew: seed.skew }
}

impl TiledWorldTerrain {
    /// All four maps are well formed, two-dimensional, periodic fields.
    pub open spec fn wf(&self) -> bool {
        &&& self.heightmap.tiled_wf()
        &&& self.heightmap.dim == 2
        &&& self.moisturemap.tiled_wf()
        &&& self.moisturemap.dim == 2
        &&& self.temperatureperturbancemap.tiled_wf()
        &&& self.temperatureperturbancemap.dim == 2
        &&& self.maptexturemap.tiled_wf()
        &&& self.maptexturemap.dim == 2
    }

    /// Builds the four maps over a unit tile: twenty height octaves, ten
    /// moisture octaves, and five each for temperature perturbance and
    /// texture, all with a one-half octave factor.
    pub fn new() -> (terrain: TiledWorldTerrain)
        ensures
            terrain.wf(),
            terrain.heightmap.source.octaves@.len() == 20,
            terrain.heightmap.source.octave_factor == FP_HALF,
            terrain.heightmap.tile_distance == FP_ONE,
            terrain.heightmap.scale == FP_HALF,
            terrain.moisturemap.source.octaves@.len() == 10,
            terrain.moisturemap.source.octave_factor == FP_HALF,
            terrain.moisturemap.tile_distance == FP_ONE,
            terrain.moisturemap.scale == FP_HALF,
            terrain.temperatureperturbancemap.source.octaves@.len() == 5,
            terrain.temperatureperturbancemap.source.octave_factor == FP_HALF,
            terrain.temperatureperturbancemap.tile_distance == FP_ONE,
            terrain.temperatureperturbancemap.scale == FP_ONE,
            terrain.maptexturemap.source.octaves@.len() == 5,
            terrain.maptexturemap.source.octave_factor == FP_HALF,
            terrain.maptexturemap.tile_distance == FP_ONE,
            terrain.maptexturemap.scale == FP_HALF,
    {
        let tile_distance = FP_ONE;
        TiledWorldTerrain {
            heightmap: SkewedTiledOctavedSimplexNoise::new(2, 20, FP_HALF, tile_distance, FP_HALF),
            moisturemap: SkewedTiledOctavedSimplexNoise::new(
                2,
                10,
                FP_HALF,
                tile_distance,
                FP_HALF,
            ),
            temperatureperturbancemap: SkewedTiledOctavedSimplexNoise::new(
                2,
                5,
                FP_HALF,
                tile_distance,
                FP_ONE,
            ),
            maptexturemap: SkewedTiledOctavedSimplexNoise::new(2, 5, FP_HALF, tile_distance, FP_HALF),
        }
    }

    /// Checked biome query: rejects a point of the wrong dimension instead
    /// of leaving the behavior to the caller.
    pub fn try_get_biome(&self, seed: &ProcSeed, point: &Vec<i64>) -> (r: Result<
        MapBiome,
        TerrainError,
    >)
        requires
            self.t_wf(),
        ensures
            point@.len() == 2 ==> r == Ok::<MapBiome, TerrainError>(
                spec_classify(
                    self.spec_height(*seed, point@),
                    self.spec_precipitation(*seed, point@),
                    self.spec_temperature(*seed, point@),
                ),
            ),
            point@.len() != 2 ==> r == Err::<MapBiome, TerrainError>(TerrainError::InvalidInput),
    {
        if point.len() == 2 {
            Ok(self.get_biome(seed, point))
        } else {
            Err(TerrainError::InvalidInput)
        }
    }
}

/// The input-contract violations a checked terrain query reports.
#[derive(Clone, Copy, PartialEq, Eq, Structural, Debug)]
pub enum TerrainError {
    /// The point's dimension does not match the terrain's.
    InvalidInput,
}

impl Terrain for TiledWorldTerrain {
    open spec fn t_wf(&self) -> bool {
        self.wf()
    }

    open spec fn spec_height(&self, seed: ProcSeed, point: Seq<i64>) -> i64 {
        let child = spec_label_seed(seed, "heightmap".spec_bytes());
        spec_clamp_unit(
            spec_sat_add(
                tdiv(self.heightmap.spec_tiled_noise(child, point) as int, 2),
                FP_HALF as int,
            ),
        )
    }

    open spec fn spec_precipitation(&self, seed: ProcSeed, point: Seq<i64>) -> i64 {
        let child = spec_label_seed(seed, "moisturemap".spec_bytes());
        spec_clamp_unit(
            spec_sat_add(
                tdiv(self.moisturemap.spec_tiled_noise(child, point) as int, 2),
                FP_HALF as int,
            ),
        )
    }

    open spec fn spec_temperature(&self, seed: ProcSeed, point: Seq<i64>) -> i64 {
        let child = spec_label_seed(seed, "temperatureperturbancemap".spec_bytes());
        let base = spec_sin_turns(
            (spec_sat_add(point[1] as int, 250_000) as int) % (FP_ONE as int),
        );
        let perturbance = self.temperatureperturbancemap.spec_tiled_noise(child, point);
        let blended = spec_fp_div(
            spec_sat_add(
                spec_fp_mul(base as int, 1_500_000) as int,
                spec_fp_mul(perturbance as int, FP_ONE as int) as int,
            ) as int,
            2_500_000,
        );
        spec_clamp_unit(spec_sat_add(tdiv(blended as int, 2), FP_HALF as int))
    }

    open spec fn spec_map_texture(&self, seed: ProcSeed, point: Seq<i64>) -> i64 {
        let child = spec_label_seed(seed, "maptexturemap".spec_bytes());
        spec_clamp_unit(
            spec_sat_add(
                tdiv(self.maptexturemap.spec_tiled_noise(child, point) as int, 2),
                FP_HALF as int,
            ),
        )
    }

    fn get_height(&self, seed: &ProcSeed, point: &Vec<i64>) -> (r: i64) {
        let child = seed.derive_str("heightmap");
        let noise = self.heightmap.get_noise(&child, point);
        clamp_unit(sat_add(halve(noise), FP_HALF))
    }

    fn get_precipitation(&self, seed: &ProcSeed, point: &Vec<i64>) -> (r: i64) {
        let child = seed.derive_str("moisturemap");
        let noise = self.moisturemap.get_noise(&child, point);
        clamp_unit(sat_add(halve(noise), FP_HALF))
    }

    fn get_temperature(&self, seed: &ProcSeed, point: &Vec<i64>) -> (r: i64) {
        let child = seed.derive_str("temperatureperturbancemap");
        let shifted = sat_add(point[1], 250_000);
        let frac = euclid_mod(shifted, FP_ONE);
        let base = sin_turns(frac);
        let perturbance = self.temperatureperturbancemap.get_noise(&child, point);
        let blended = fp_div(
            sat_add(fp_mul(base, 1_500_000), fp_mul(perturbance, FP_ONE)),
            2_500_000,
        );
        clamp_unit(sat_add(halve(blended), FP_HALF))
    }

    fn get_map_texture(&self, seed: &ProcSeed, point: &Vec<i64>) -> (r: i64) {
        let child = seed.derive_str("maptexturemap");
        let noise = self.maptexturemap.get_noise(&child, point);
        clamp_unit(sat_add(halve(noise), FP_HALF))
    }

    fn get_biome(&self, seed: &ProcSeed, point: &Vec<i64>) -> (b: MapBiome) {
        let height = self.get_height(seed, point);
        let precipitation = self.get_precipitation(seed, point);
        let temperature = self.get_temperature(seed, point);
        classify_biome(height, precipitation, temperature)
    }

    fn render(&self, seed: &ProcSeed, point: &Vec<i64>) -> (c: (Rgb, Rgb)) {
        let biome = self.get_biome(seed, point);
        let height = self.get_height(seed, point);
        let texture = self.get_map_texture(seed, point);
        render_pair(biome, height, texture)
    }
}

fn base_color(b: MapBiome) -> (c: Rgb)
    ensures
        c == spec_base_color(b),
        0 <= c.r <= 1_000_000,
        0 <= c.g <= 1_000_000,
        0 <= c.b <= 1_000_000,
{
    match b {
        MapBiome::Empty => Rgb { r: 1_000_000, g: 1_000_000, b: 1_000_000 },
        MapBiome::Water => Rgb { r: 0, g: 0, b: 300_000 },
        MapBiome::Ice => Rgb { r: 700_000, g: 700_000, b: 1_000_000 },
        MapBiome::Tundra => Rgb { r: 500_000, g: 800_000, b: 400_000 },
        MapBiome::BorealForest => Rgb { r: 400_000, g: 700_000, b: 400_000 },
        MapBiome::Shrubland => Rgb { r: 500_000, g: 600_000, b: 200_000 },
        MapBiome::TemperateGrassland => Rgb { r: 300_000, g: 700_000, b: 200_000 },
        MapBiome::TemperateRainforest => Rgb { r: 200_000, g: 600_000, b: 400_000 },
        MapBiome::TemperateSeasonalForest => Rgb { r: 600_000, g: 800_000, b: 300_000 },
        MapBiome::TropicalRainforest => Rgb { r: 200_000, g: 800_000, b: 200_000 },
        MapBiome::TropicalSeasonalForest => Rgb { r: 500_000, g: 700_000, b: 100_000 },
        MapBiome::Savannah => Rgb { r: 500_000, g: 700_000, b: 100_000 },
        MapBiome::Desert => Rgb { r: 900_000, g: 800_000, b: 200_000 },
        MapBiome::Mountain => Rgb { r: 800_000, g: 800_000, b: 800_000 },
    }
}

fn render_pair(biome: MapBiome, height: i64, texture: i64) -> (c: (Rgb, Rgb))
    ensures
        c == spec_render_pair(biome, height, texture),
        0 <= c.0.r <= FP_ONE,
        0 <= c.0.g <= FP_ONE,
        0 <= c.0.b <= FP_ONE,
        0 <= c.1.r <= FP_ONE,
        0 <= c.1.g <= FP_ONE,
        0 <= c.1.b <= FP_ONE,
{
    proof {
        reveal(spec_render_pair);
    }
    let raw_fg = if biome == MapBiome::Water {
        let depth_frac = fp_div(height, WATER_LEVEL);
        let cube = fp_mul(fp_mul(depth_frac, depth_frac), depth_frac);
        color_lerp(
            &Rgb { r: 0, g: 0, b: 300_000 },
            &Rgb { r: 0, g: 400_000, b: 900_000 },
            cube,
        )
    } else {
        base_color(biome)
    };
    let fg = clamp_color(&raw_fg);
    let brightness = sat_add(300_000, fp_mul(700_000, texture));
    let bg = clamp_color(&color_brightness(&fg, brightness));
    (fg, bg)
}

} // verus!
