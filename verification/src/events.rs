//! Observable side-effect records. The simulation appends one record for each
//! sound or visual cue the presentation collaborator should play; the
//! simulation itself never does I/O.

use vstd::prelude::*;

verus! {

/// One observable side effect of a simulation step.
#[derive(Clone, Copy, PartialEq, Eq, Structural, Debug)]
pub enum GameEvent {
    /// A tower's area attack hit at least one monster this tick.
    AttackFired,
    /// A ninja tower's strong attack hit its randomly chosen target.
    StrongAttackFired,
    /// A monster's health reached zero and it dropped a gold pile.
    MonsterDied,
    /// The player picked up a gold pile.
    GoldCollected,
}

} // verus!
