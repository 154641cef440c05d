//! Hexagonal-grid geometry in cube coordinates: a hex is an integer triple
//! summing to zero, with squared-length comparison, Manhattan distance, and
//! a walker that enumerates every hex within a given Manhattan radius.

use vstd::prelude::*;

verus! {

/// A bound on hex coordinates that keeps squares and sums inside `i64`.
pub const HEX_COORD_LIMIT: i64 = 1_000_000_000;

/// A cube-coordinate hex cell.
#[derive(Clone, Copy, PartialEq, Eq, Structural, Debug)]
pub struct Hex {
    pub x: i64,
    pub y: i64,
    pub z: i64,
}

/// The absolute value.
pub open spec fn spec_abs(v: int) -> int {
    if v >= 0 {
        v
    } else {
        -v
    }
}

impl Hex {
    /// Builds a hex from its cube coordinates.
    pub fn new(x: i64, y: i64, z: i64) -> (h: Hex)
        ensures
            h == (Hex { x, y, z }),
    {
        Hex { x, y, z }
    }

    /// The componentwise difference `self - other`.
    pub fn minus(&self, other: &Hex) -> (h: Hex)
        requires
            -HEX_COORD_LIMIT <= self.x <= HEX_COORD_LIMIT,
            -HEX_COORD_LIMIT <= self.y <= HEX_COORD_LIMIT,
            -HEX_COORD_LIMIT <= self.z <= HEX_COORD_LIMIT,
            -HEX_COORD_LIMIT <= other.x <= HEX_COORD_LIMIT,
            -HEX_COORD_LIMIT <= other.y <= HEX_COORD_LIMIT,
            -HEX_COORD_LIMIT <= other.z <= HEX_COORD_LIMIT,
        ensures
            h.x == self.x - other.x,
            h.y == self.y - other.y,
            h.z == self.z - other.z,
    {
        Hex { x: self.x - other.x, y: self.y - other.y, z: self.z - other.z }
    }

    /// Compares the hex's squared Euclidean length against `length`
    /// squared.
    pub fn cmp_len(&self, length: i64) -> (r: core::cmp::Ordering)
        requires
            -HEX_COORD_LIMIT <= self.x <= HEX_COORD_LIMIT,
            -HEX_COORD_LIMIT <= self.y <= HEX_COORD_LIMIT,
            -HEX_COORD_LIMIT <= self.z <= HEX_COORD_LIMIT,
            -HEX_COORD_LIMIT <= length <= HEX_COORD_LIMIT,
        ensures
            r == core::cmp::Ordering::Less <==> self.x * self.x + self.y * self.y + self.z
                * self.z < length * length,
            r == core::cmp::Ordering::Equal <==> self.x * self.x + self.y * self.y + self.z
                * self.z == length * length,
            r == core::cmp::Ordering::Greater <==> self.x * self.x + self.y * self.y + self.z
                * self.z > length * length,
    {
        proof {
            assert(self.x * self.x <= 1_000_000_000_000_000_000 && self.x * self.x >= 0
                && self.y * self.y <= 1_000_000_000_000_000_000 && self.y * self.y >= 0
                && self.z * self.z <= 1_000_000_000_000_000_000 && self.z * self.z >= 0
                && length * length <= 1_000_000_000_000_000_000 && length * length
                >= 0) by (nonlinear_arith)
                requires
                    -1_000_000_000 <= self.x <= 1_000_000_000,
                    -1_000_000_000 <= self.y <= 1_000_000_000,
                    -1_000_000_000 <= self.z <= 1_000_000_000,
                    -1_000_000_000 <= length <= 1_000_000_000,
            ;
        }
        let asq = self.x * self.x + self.y * self.y + self.z * self.z;
        let bsq = length * length;
        if asq < bsq {
            core::cmp::Ordering::Less
        } else if asq == bsq {
            core::cmp::Ordering::Equal
        } else {
            core::cmp::Ordering::Greater
        }
    }

    /// The hex Manhattan distance from the origin: half the coordinate
    /// absolute sum.
    pub fn manhattan(&self) -> (r: i64)
        requires
            -HEX_COORD_LIMIT <= self.x <= HEX_COORD_LIMIT,
            -HEX_COORD_LIMIT <= self.y <= HEX_COORD_LIMIT,
            -HEX_COORD_LIMIT <= self.z <= HEX_COORD_LIMIT,
        ensures
            r == (spec_abs(self.x as int) + spec_abs(self.y as int) + spec_abs(self.z as int))
                / 2,
    {
        let ax = if self.x >= 0 {
            self.x
        } else {
            -self.x
        };
        let ay = if self.y >= 0 {
            self.y
        } else {
            -self.y
        };
        let az = if self.z >= 0 {
            self.z
        } else {
            -self.z
        };
        (ax + ay + az) / 2
    }
}

/// A walker over every hex within a Manhattan radius: the state before the
/// next emission.
#[derive(Clone, Copy, PartialEq, Eq, Structural, Debug)]
pub struct HexManhattanIterator {
    pub x: i64,
    pub y: i64,
    pub length: i64,
}

/// One step of the walk: wrap to the next column when the row runs past
/// its end, emit the hex while the column is within range, advance the row.
pub open spec fn spec_hex_walk_step(s: HexManhattanIterator) -> (HexManhattanIterator, Option<
    Hex,
>) {
    let row_end: int = if s.length as int <= s.length - s.x {
        s.length as int
    } else {
        s.length - s.x
    };
    let wrap = s.y > row_end;
    let x1: int = if wrap {
        s.x + 1
    } else {
        s.x as int
    };
    let y1: int = if wrap {
        if -(s.length as int) >= -x1 - s.length {
            -(s.length as int)
        } else {
            -x1 - s.length
        }
    } else {
        s.y as int
    };
    let item = if x1 <= s.length {
        Some(Hex { x: x1 as i64, y: y1 as i64, z: (-x1 - y1) as i64 })
    } else {
        None
    };
    (HexManhattanIterator { x: x1 as i64, y: (y1 + 1) as i64, length: s.length }, item)
}

impl HexManhattanIterator {
    /// Starts the walk at the leftmost column of the given radius.
    pub fn new(length: i64) -> (it: HexManhattanIterator)
        requires
            0 <= length <= HEX_COORD_LIMIT,
        ensures
            it.x == -length,
            it.y == 0,
            it.length == length,
    {
        HexManhattanIterator { x: -length, y: 0, length }
    }

    /// Emits the next hex of the walk, or nothing once the columns are
    /// exhausted, advancing the state exactly one step.
    pub fn next(&mut self) -> (r: Option<Hex>)
        requires
            0 <= old(self).length <= HEX_COORD_LIMIT,
            -HEX_COORD_LIMIT <= old(self).x <= HEX_COORD_LIMIT,
            -HEX_COORD_LIMIT <= old(self).y <= HEX_COORD_LIMIT,
        ensures
            *final(self) == spec_hex_walk_step(*old(self)).0,
            r == spec_hex_walk_step(*old(self)).1,
    {
        let row_end = if self.length <= self.length - self.x {
            self.length
        } else {
            self.length - self.x
        };
        if self.y > row_end {
            self.x = self.x + 1;
            let lo = if -self.length >= -self.x - self.length {
                -self.length
            } else {
                -self.x - self.length
            };
            self.y = lo;
        }
        let result = if self.x <= self.length {
            Some(Hex { x: self.x, y: self.y, z: -self.x - self.y })
        } else {
            None
        };
        self.y = self.y + 1;
        result
    }
}

} // verus!
