//! Path blocks: the tiles that make up the monsters' route.

use vstd::prelude::*;
use crate::geometry::{in_tile_range, Point, PIXEL};

verus! {

/// Side length of one grid tile, in coordinate units.
pub const BLOCK_SIZE: i64 = 35 * PIXEL;

/// One tile of the monster path. `position` is a pair of grid indices, not a
/// pixel position.
#[derive(Clone, Copy, PartialEq, Eq, Structural, Debug)]
pub struct Block {
    pub position: Point,
}

/// The block's grid indices are inside the admitted band.
pub open spec fn block_wf(b: Block) -> bool {
    in_tile_range(b.position)
}

} // verus!
