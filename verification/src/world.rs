//! The tiled game world: integer screen offsets mapped onto the unit tile
//! of the terrain and rendered to color pairs.

use vstd::prelude::*;

verus! {

use crate::fp::{spec_fp_div, fp_div};
use crate::seed::ProcSeed;
use crate::terrain::{
    Terrain, TiledWorldTerrain, Rgb, spec_classify, spec_render_pair,
};

/// An integer offset into the world, in screen units.
#[derive(Clone, Copy, PartialEq, Eq, Structural, Debug)]
pub struct GameWorldOffset {
    pub x: i64,
    pub y: i64,
    pub z: i64,
}

impl GameWorldOffset {
    /// Builds an offset from its components.
    pub fn new(x: i64, y: i64, z: i64) -> (o: GameWorldOffset)
        ensures
            o == (GameWorldOffset { x, y, z }),
    {
        GameWorldOffset { x, y, z }
    }
}

/// A world that can name its origin and render any offset.
pub trait GameWorld {
    /// The world is fully constructed and internally consistent.
    spec fn gw_wf(&self) -> bool;

    /// The rendered color pair at an offset, as a mathematical function.
    spec fn spec_render_world(&self, seed: ProcSeed, offset: GameWorldOffset) -> (Rgb, Rgb);

    /// The offset of the world's origin.
    fn get_origin(&self) -> (o: GameWorldOffset)
        requires
            self.gw_wf(),
        ensures
            o == (GameWorldOffset { x: 0, y: 0, z: 0 }),
    ;

    /// Renders the terrain at an offset.
    fn render(&self, seed: &ProcSeed, offset: &GameWorldOffset) -> (c: (Rgb, Rgb))
        requires
            self.gw_wf(),
        ensures
            c == self.spec_render_world(*seed, *offset),
    ;
}

/// A world of fixed pixel extent wrapped around the terrain's unit tile.
pub struct TiledGameWorld {
    pub width: usize,
    pub height: usize,
    pub terrain: TiledWorldTerrain,
}

impl TiledGameWorld {
    /// Builds a world of the given extent over a fresh terrain.
    pub fn new(width: usize, height: usize) -> (w: TiledGameWorld)
        requires
            1 <= width <= 1_000_000_000,
            1 <= height <= 1_000_000_000,
        ensures
            w.gw_wf(),
            w.width == width,
            w.height == height,
    {
        TiledGameWorld { width, height, terrain: TiledWorldTerrain::new() }
    }

    /// The terrain point an offset maps to: each component divided by the
    /// world's extent along its axis, in micro-units.
    pub open spec fn spec_point_of(&self, offset: GameWorldOffset) -> Seq<i64> {
        seq![
            spec_fp_div(offset.x as int, self.width as int),
            spec_fp_div(offset.y as int, self.height as int),
        ]
    }
}

impl GameWorld for TiledGameWorld {
    open spec fn gw_wf(&self) -> bool {
        &&& 1 <= self.width <= 1_000_000_000
        &&& 1 <= self.height <= 1_000_000_000
        &&& self.terrain.wf()
    }

    open spec fn spec_render_world(&self, seed: ProcSeed, offset: GameWorldOffset) -> (Rgb, Rgb) {
        let point = self.spec_point_of(offset);
        spec_render_pair(
            spec_classify(
                self.terrain.spec_height(seed, point),
                self.terrain.spec_precipitation(seed, point),
                self.terrain.spec_temperature(seed, point),
            ),
            self.terrain.spec_height(seed, point),
            self.terrain.spec_map_texture(seed, point),
        )
    }

    fn get_origin(&self) -> (o: GameWorldOffset) {
        GameWorldOffset { x: 0, y: 0, z: 0 }
    }

    fn render(&self, seed: &ProcSeed, offset: &GameWorldOffset) -> (c: (Rgb, Rgb)) {
        let mut point: Vec<i64> = Vec::new();
        point.push(fp_div(offset.x, self.width as i64));
        point.push(fp_div(offset.y, self.height as i64));
        proof {
            assert(point@ =~= self.spec_point_of(*offset));
        }
        self.terrain.render(seed, &point)
    }
}

} // verus!
