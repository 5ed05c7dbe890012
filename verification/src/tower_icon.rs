//! Build-bar icons: the selectable tower kinds the presentation layer shows.

use vstd::prelude::*;
use crate::geometry::PIXEL;
use crate::tower::TowerType;

verus! {

/// Side length of one build-bar icon, in coordinate units.
pub const TOWER_ICON_SIZE: i64 = 50 * PIXEL;

/// One entry of the build bar; drawing it is the collaborator's job.
#[derive(Clone, Copy, PartialEq, Eq, Structural, Debug)]
pub struct TowerIcon {
    pub tower_type: TowerType,
}

} // verus!
