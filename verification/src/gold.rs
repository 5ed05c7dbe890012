//! Gold piles: pickups dropped where a monster died.

use vstd::prelude::*;
use crate::geometry::{Point, COORD_LIMIT, PIXEL};

verus! {

/// Gold value of every dropped pile.
pub const GOLD_VALUE: u32 = 10;

/// A pile may land a jitter offset outside the monster band, so its own band
/// is slightly wider.
pub const PILE_COORD_LIMIT: i64 = COORD_LIMIT + 20 * PIXEL;

/// A transient pickup created on monster death and destroyed on pickup.
/// `position` is a pixel-space point.
#[derive(Clone, Copy, PartialEq, Eq, Structural, Debug)]
pub struct GoldPile {
    pub position: Point,
    pub value: u32,
}

/// The pile lies inside the widened coordinate band.
pub open spec fn pile_wf(p: GoldPile) -> bool {
    &&& -PILE_COORD_LIMIT <= p.position.x <= PILE_COORD_LIMIT
    &&& -PILE_COORD_LIMIT <= p.position.y <= PILE_COORD_LIMIT
}

} // verus!
