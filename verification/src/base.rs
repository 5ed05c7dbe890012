//! The defended base at the end of the monster path.

use vstd::prelude::*;
use crate::block::BLOCK_SIZE;
use crate::geometry::{in_tile_range, Point, PIXEL};

verus! {

/// Side length of the base sprite, in coordinate units.
pub const BASE_SIZE: i64 = 60 * PIXEL;

/// Padding around the base that also counts as occupied.
pub const BASE_PADDING: i64 = 5 * PIXEL;

/// The base occupies a padded square anchored at a grid tile.
#[derive(Clone, Copy, PartialEq, Eq, Structural, Debug)]
pub struct Base {
    pub position: Point,
}

/// The pixel point `p` falls within the base's padded footprint. The lower
/// edge in y is unpadded, matching the footprint the placement rule uses.
pub open spec fn spec_in_base(base: Base, p: Point) -> bool {
    &&& p.x >= base.position.x * BLOCK_SIZE - BASE_PADDING
    &&& p.x <= base.position.x * BLOCK_SIZE + BASE_SIZE + 2 * BASE_PADDING
    &&& p.y >= base.position.y * BLOCK_SIZE
    &&& p.y <= base.position.y * BLOCK_SIZE + BASE_SIZE + 2 * BASE_PADDING
}

impl Base {
    /// Whether a pixel point falls within the base's padded footprint.
    pub fn is_position_in_base(&self, position: Point) -> (r: bool)
        requires
            in_tile_range(self.position),
        ensures
            r == spec_in_base(*self, position),
    {
        let bx = self.position.x * BLOCK_SIZE;
        let by = self.position.y * BLOCK_SIZE;
        position.x >= bx - BASE_PADDING && position.x <= bx + BASE_SIZE + 2 * BASE_PADDING
            && position.y >= by && position.y <= by + BASE_SIZE + 2 * BASE_PADDING
    }
}

} // verus!
