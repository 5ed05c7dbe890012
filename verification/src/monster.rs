//! Monsters: the walking / attacking / dead state machine and path-following
//! movement.

use vstd::prelude::*;
use crate::block::{block_wf, Block, BLOCK_SIZE};
use crate::events::GameEvent;
use crate::geometry::{
    dist_sq, in_coord_range, isqrt, isqrt64, lemma_isqrt_bounds, lemma_scaled_step_bounds,
    scale_step, scaled_step, Point, PIXEL,
};
use crate::gold::{GoldPile, GOLD_VALUE};
use crate::player::Player;
use crate::rng::rand_range_i64;

verus! {

/// Side length of a monster sprite, in coordinate units.
pub const MONSTER_SIZE: i64 = 20 * PIXEL;

/// Damage a monster deals to the player when it reaches the base.
pub const MONSTER_DAMAGE: i64 = 1;

/// Health every monster spawns with.
pub const MONSTER_START_HEALTH: i64 = 100;

/// Speed every monster spawns with, in coordinate units per millisecond
/// (numerically equal to pixels per second).
pub const MONSTER_START_SPEED: i64 = 100;

/// Largest admitted monster speed, in units per millisecond.
pub const SPEED_LIMIT: i64 = 1_000_000;

/// Largest admitted single damage amount.
pub const DAMAGE_LIMIT: i64 = 1_000_000_000_000;

/// Largest admitted elapsed time of one tick, in milliseconds.
pub const ELAPSED_LIMIT: i64 = 1_000_000_000;

/// Lowest jitter offset (inclusive) of a dropped gold pile.
pub const GOLD_JITTER_LOW: i64 = -20 * PIXEL;

/// Highest jitter offset (exclusive) of a dropped gold pile.
pub const GOLD_JITTER_HIGH: i64 = -10 * PIXEL;

/// The monster variants of the game. Both share their stats; they differ in
/// presentation only.
#[derive(Clone, Copy, PartialEq, Eq, Structural, Debug)]
pub enum MonsterType {
    Chicken,
    CoolChicken,
}

/// Lifecycle of a monster. Transitions only ever move rightward:
/// `Walking -> Attacking -> Dead`, or straight to `Dead` through damage.
#[derive(Clone, Copy, PartialEq, Eq, Structural, Debug)]
pub enum MonsterState {
    Walking,
    Attacking,
    Dead,
}

/// Facing of a monster, derived from its horizontal movement and used only by
/// the drawing collaborator.
#[derive(Clone, Copy, PartialEq, Eq, Structural, Debug)]
pub enum Direction {
    Left,
    Right,
}

/// A monster on the board. `position` is the pixel-space point of its
/// top-left corner; `move_goal` indexes the path tile it walks toward.
#[derive(Clone, Copy, PartialEq, Eq, Structural, Debug)]
pub struct Monster {
    pub kind: MonsterType,
    pub position: Point,
    pub speed: i64,
    pub health: i64,
    pub move_goal: usize,
    pub state: MonsterState,
    pub direction: Direction,
}

/// Position of a state in the one-way lifecycle order.
pub open spec fn state_rank(s: MonsterState) -> int {
    match s {
        MonsterState::Walking => 0,
        MonsterState::Attacking => 1,
        MonsterState::Dead => 2,
    }
}

/// Well-formedness of a monster: admitted coordinates and speed, and positive
/// health in every state but `Dead`.
pub open spec fn monster_wf(m: Monster) -> bool {
    &&& in_coord_range(m.position)
    &&& 0 <= m.speed <= SPEED_LIMIT
    &&& m.state != MonsterState::Dead ==> m.health > 0
}

/// The monster a spawner creates for the given variant.
pub open spec fn spec_new_monster(kind: MonsterType) -> Monster {
    Monster {
        kind,
        position: Point { x: 0, y: 0 },
        speed: MONSTER_START_SPEED,
        health: MONSTER_START_HEALTH,
        move_goal: 0,
        state: MonsterState::Walking,
        direction: Direction::Right,
    }
}

/// One pixel coordinate of the goal point for a tile index: the monster's
/// center must reach the tile's center.
pub open spec fn goal_coord(tile: int) -> int {
    tile * BLOCK_SIZE + BLOCK_SIZE / 2 - MONSTER_SIZE / 2
}

/// The pixel-space goal point for a goal tile.
pub open spec fn goal_pos(tile: Point) -> Point {
    Point { x: goal_coord(tile.x as int) as i64, y: goal_coord(tile.y as int) as i64 }
}

/// Goal points of admitted tiles stay well inside the coordinate band.
pub proof fn lemma_goal_coord_range(tile: int)
    requires
        -crate::geometry::TILE_LIMIT <= tile <= crate::geometry::TILE_LIMIT,
    ensures
        -360_000_000 <= goal_coord(tile) <= 360_000_000,
{
    assert(-350_000_000 <= tile * BLOCK_SIZE <= 350_000_000) by (nonlinear_arith)
        requires
            -10_000 <= tile <= 10_000,
            BLOCK_SIZE == 35_000i64,
    ;
}

/// One movement attempt of a walking monster, as the executable `update`
/// performs it: reach the end of the path and turn to attack, or step toward
/// the goal tile's center without overshooting it. When the step length meets
/// or exceeds the remaining Euclidean distance (`step * step >= d2`, written
/// below over the floor square root so no square of the step is needed), the
/// monster snaps exactly onto the goal and the goal index advances.
pub open spec fn spec_try_moving(m: Monster, path: Seq<Block>, elapsed: int) -> Monster {
    if m.state != MonsterState::Walking {
        m
    } else if m.move_goal == path.len() {
        Monster { state: MonsterState::Attacking, ..m }
    } else {
        let g = goal_pos(path[m.move_goal as int].position);
        let dx = g.x - m.position.x;
        let dy = g.y - m.position.y;
        let dir = if dx >= 0 {
            Direction::Right
        } else {
            Direction::Left
        };
        let d2 = dx * dx + dy * dy;
        if d2 == 0 {
            Monster { move_goal: (m.move_goal + 1) as usize, direction: dir, ..m }
        } else {
            let dist = isqrt(d2 as nat) as int;
            let step = m.speed * elapsed;
            if dist < step || (dist == step && dist * dist == d2) {
                Monster {
                    position: g,
                    move_goal: (m.move_goal + 1) as usize,
                    direction: dir,
                    ..m
                }
            } else {
                Monster {
                    position: Point {
                        x: (m.position.x + scaled_step(dx, step, dist)) as i64,
                        y: (m.position.y + scaled_step(dy, step, dist)) as i64,
                    },
                    direction: dir,
                    ..m
                }
            }
        }
    }
}

/// One full update of a monster: an attacking monster deals its hit and dies;
/// a dead monster does nothing; a walking monster moves.
pub open spec fn spec_update_monster(m: Monster, path: Seq<Block>, elapsed: int) -> Monster {
    if m.state == MonsterState::Attacking {
        Monster { state: MonsterState::Dead, ..m }
    } else if m.state == MonsterState::Dead {
        m
    } else {
        spec_try_moving(m, path, elapsed)
    }
}

/// The monster after taking `damage`: a no-op when already dead, otherwise
/// health drops and reaching zero is final.
pub open spec fn spec_receive_damage(m: Monster, damage: int) -> Monster {
    if m.state == MonsterState::Dead {
        m
    } else {
        let h = m.health - damage;
        Monster {
            health: h as i64,
            state: if h <= 0 {
                MonsterState::Dead
            } else {
                m.state
            },
            ..m
        }
    }
}

/// Taking `damage` kills the monster: it is not yet dead and the damage
/// drains its health.
pub open spec fn spec_dies(m: Monster, damage: int) -> bool {
    m.state != MonsterState::Dead && m.health - damage <= 0
}

/// The pile a dying monster at `pos` may drop: fixed value, position the
/// monster's own offset by one jitter amount in each axis.
pub open spec fn dropped_pile_for(pos: Point, p: GoldPile) -> bool {
    &&& p.value == GOLD_VALUE
    &&& pos.x + GOLD_JITTER_LOW <= p.position.x < pos.x + GOLD_JITTER_HIGH
    &&& pos.y + GOLD_JITTER_LOW <= p.position.y < pos.y + GOLD_JITTER_HIGH
}

/// The pixel point of a monster's center.
pub open spec fn spec_center(m: Monster) -> Point {
    Point {
        x: (m.position.x + MONSTER_SIZE / 2) as i64,
        y: (m.position.y + MONSTER_SIZE / 2) as i64,
    }
}

/// Saturating subtraction on the player's health scale.
pub open spec fn sat_sub(a: int, b: int) -> int {
    if a - b < i64::MIN {
        i64::MIN as int
    } else {
        a - b
    }
}

/// Damage keeps a monster well-formed and only ever lowers health and
/// advances the lifecycle state.
pub proof fn lemma_receive_damage_props(m: Monster, damage: int)
    requires
        monster_wf(m),
        0 <= damage <= DAMAGE_LIMIT,
    ensures
        monster_wf(spec_receive_damage(m, damage)),
        spec_receive_damage(m, damage).kind == m.kind,
        spec_receive_damage(m, damage).position == m.position,
        spec_receive_damage(m, damage).speed == m.speed,
        spec_receive_damage(m, damage).move_goal == m.move_goal,
        spec_receive_damage(m, damage).direction == m.direction,
        spec_receive_damage(m, damage).health <= m.health,
        state_rank(spec_receive_damage(m, damage).state) >= state_rank(m.state),
{
}

/// Every block of the path holds admitted tile indices.
pub open spec fn path_wf(path: Seq<Block>) -> bool {
    forall|i: int| 0 <= i < path.len() ==> block_wf(#[trigger] path[i])
}

/// A walking monster's movement step never overshoots and strictly
/// approaches the center of its current goal tile: each position coordinate
/// stays between its old value and the goal's, the squared Euclidean distance
/// to the goal never grows, and it strictly shrinks whenever the monster is
/// not already at the goal. The one family of inputs left out are steps of
/// less than two coordinate units (`speed * elapsed < 2`, under two
/// thousandths of a pixel), where fixed-point rounding may leave the position
/// unchanged.
pub proof fn lemma_walk_approaches(m: Monster, path: Seq<Block>, elapsed: int)
    requires
        monster_wf(m),
        path_wf(path),
        m.state == MonsterState::Walking,
        m.move_goal < path.len(),
        0 < elapsed <= ELAPSED_LIMIT,
        2 <= m.speed * elapsed,
    ensures
        ({
            let g = goal_pos(path[m.move_goal as int].position);
            let m1 = spec_try_moving(m, path, elapsed);
            &&& dist_sq(m1.position, g) <= dist_sq(m.position, g)
            &&& (m.position != g ==> dist_sq(m1.position, g) < dist_sq(m.position, g))
            &&& (m.position.x <= m1.position.x <= g.x || g.x <= m1.position.x <= m.position.x)
            &&& (m.position.y <= m1.position.y <= g.y || g.y <= m1.position.y <= m.position.y)
        }),
{
    let tile = path[m.move_goal as int].position;
    assert(block_wf(path[m.move_goal as int]));
    lemma_goal_coord_range(tile.x as int);
    lemma_goal_coord_range(tile.y as int);
    let g = goal_pos(tile);
    let m1 = spec_try_moving(m, path, elapsed);
    let dx = g.x - m.position.x;
    let dy = g.y - m.position.y;
    let d2 = dx * dx + dy * dy;
    assert(0 <= dx * dx) by (nonlinear_arith);
    assert(0 <= dy * dy) by (nonlinear_arith);
    if d2 == 0 {
        assert(dx == 0 && dy == 0) by (nonlinear_arith)
            requires
                dx * dx + dy * dy == 0,
        ;
        assert(m.position == g);
        assert(m1.position == m.position);
    } else {
        let dist = isqrt(d2 as nat) as int;
        lemma_isqrt_bounds(d2 as nat);
        assert(dist >= 1) by (nonlinear_arith)
            requires
                d2 >= 1,
                (d2 as nat) < (isqrt(d2 as nat) + 1) * (isqrt(d2 as nat) + 1),
                dist == isqrt(d2 as nat) as int,
        ;
        let step = m.speed * elapsed;
        if dist < step || (dist == step && dist * dist == d2) {
            // Snap: the monster lands exactly on the goal.
            assert(m1.position == g);
            assert(dist_sq(g, g) == 0);
            assert(dist_sq(m.position, g) == d2) by (nonlinear_arith)
                requires
                    dx == g.x - m.position.x,
                    dy == g.y - m.position.y,
                    d2 == dx * dx + dy * dy,
            ;
        } else {
            let sx = scaled_step(dx, step, dist);
            let sy = scaled_step(dy, step, dist);
            lemma_scaled_step_bounds(dx, step, dist);
            lemma_scaled_step_bounds(dy, step, dist);
            assert(m1.position.x == m.position.x + sx);
            assert(m1.position.y == m.position.y + sy);
            let dx1 = g.x - m1.position.x;
            let dy1 = g.y - m1.position.y;
            assert(dx1 == dx - sx);
            assert(dy1 == dy - sy);
            // Componentwise, the step keeps the sign of the remaining
            // displacement and never exceeds it.
            assert(dx1 * dx1 <= dx * dx) by (nonlinear_arith)
                requires
                    (0 <= sx <= dx) || (dx <= sx <= 0),
                    dx1 == dx - sx,
            ;
            assert(dy1 * dy1 <= dy * dy) by (nonlinear_arith)
                requires
                    (0 <= sy <= dy) || (dy <= sy <= 0),
                    dy1 == dy - sy,
            ;
            assert(dist_sq(m1.position, g) == dx1 * dx1 + dy1 * dy1) by (nonlinear_arith)
                requires
                    dx1 == g.x - m1.position.x,
                    dy1 == g.y - m1.position.y,
            ;
            assert(dist_sq(m.position, g) == d2) by (nonlinear_arith)
                requires
                    dx == g.x - m.position.x,
                    dy == g.y - m.position.y,
                    d2 == dx * dx + dy * dy,
            ;
            // Strict progress: the larger displacement component moves by at
            // least one unit, because a step of two units spans the gap
            // between the Euclidean distance and that component.
            if m.position != g {
                let ax = if dx >= 0 {
                    dx
                } else {
                    -dx
                };
                let ay = if dy >= 0 {
                    dy
                } else {
                    -dy
                };
                let big = if ax >= ay {
                    ax
                } else {
                    ay
                };
                assert(big >= 1);
                assert(dist < 2 * big) by (nonlinear_arith)
                    requires
                        1 <= big,
                        dist >= 1,
                        dist * dist <= d2,
                        d2 == dx * dx + dy * dy,
                        (dx == big || dx == -big || dy == big || dy == -big),
                        -big <= dx <= big,
                        -big <= dy <= big,
                ;
                let smag = (big * step) / dist;
                assert(big * step >= dist) by (nonlinear_arith)
                    requires
                        1 <= big,
                        2 <= step,
                        dist < 2 * big,
                ;
                assert(smag >= 1) by {
                    vstd::arithmetic::div_mod::lemma_div_is_ordered(dist, big * step, dist);
                    assert(dist / dist == 1) by (nonlinear_arith)
                        requires
                            dist >= 1,
                    ;
                }
                if ax >= ay {
                    assert((dx * step) / dist == big * step / dist || ((-dx) * step) / dist == big
                        * step / dist);
                    assert(dx1 * dx1 < dx * dx) by (nonlinear_arith)
                        requires
                            1 <= big,
                            (dx == big && sx == smag) || (dx == -big && sx == -smag),
                            1 <= smag,
                            (0 <= sx <= dx) || (dx <= sx <= 0),
                            dx1 == dx - sx,
                    ;
                } else {
                    assert((dy * step) / dist == big * step / dist || ((-dy) * step) / dist == big
                        * step / dist);
                    assert(dy1 * dy1 < dy * dy) by (nonlinear_arith)
                        requires
                            1 <= big,
                            (dy == big && sy == smag) || (dy == -big && sy == -smag),
                            1 <= smag,
                            (0 <= sy <= dy) || (dy <= sy <= 0),
                            dy1 == dy - sy,
                    ;
                }
            }
        }
    }
}

/// A monster's lifecycle only ever moves forward, both under a tick and
/// under damage: no transition returns toward `Walking`.
pub proof fn lemma_state_monotonic(m: Monster, path: Seq<Block>, elapsed: int, damage: int)
    ensures
        state_rank(spec_update_monster(m, path, elapsed).state) >= state_rank(m.state),
        state_rank(spec_receive_damage(m, damage).state) >= state_rank(m.state),
{
}

/// Damage to a dead monster is a complete no-op on the monster itself; the
/// executable `recieve_damage` extends this to the pile collection and the
/// event log.
pub proof fn lemma_dead_damage_noop(m: Monster, damage: int)
    requires
        m.state == MonsterState::Dead,
    ensures
        spec_receive_damage(m, damage) == m,
{
}

impl Monster {
    /// A fresh chicken at the path start.
    pub fn new_chicken() -> (m: Monster)
        ensures
            m == spec_new_monster(MonsterType::Chicken),
            monster_wf(m),
    {
        Monster {
            kind: MonsterType::Chicken,
            position: Point { x: 0, y: 0 },
            speed: MONSTER_START_SPEED,
            health: MONSTER_START_HEALTH,
            move_goal: 0,
            state: MonsterState::Walking,
            direction: Direction::Right,
        }
    }

    /// A fresh cool chicken at the path start.
    pub fn new_cool_chicken() -> (m: Monster)
        ensures
            m == spec_new_monster(MonsterType::CoolChicken),
            monster_wf(m),
    {
        Monster { kind: MonsterType::CoolChicken, ..Self::new_chicken() }
    }

    /// A fresh monster of the plain variant.
    pub fn new_basic_monster() -> (m: Monster)
        ensures
            m == spec_new_monster(MonsterType::Chicken),
            monster_wf(m),
    {
        Self::new_chicken()
    }

    /// The pixel point of the monster's center.
    pub fn get_center_pos_abs(&self) -> (c: Point)
        requires
            in_coord_range(self.position),
        ensures
            c == spec_center(*self),
            c.x == self.position.x + MONSTER_SIZE / 2,
            c.y == self.position.y + MONSTER_SIZE / 2,
    {
        Point { x: self.position.x + MONSTER_SIZE / 2, y: self.position.y + MONSTER_SIZE / 2 }
    }

    /// Applies `damage`. A dead monster ignores it entirely; otherwise health
    /// drops, and on reaching zero the monster dies exactly once: one death
    /// event and one gold pile, dropped at a jittered offset of its position.
    pub fn recieve_damage(
        &mut self,
        damage: i64,
        gold_piles: &mut Vec<GoldPile>,
        events: &mut Vec<GameEvent>,
    )
        requires
            0 <= damage <= DAMAGE_LIMIT,
            monster_wf(*old(self)),
        ensures
            *final(self) == spec_receive_damage(*old(self), damage as int),
            monster_wf(*final(self)),
            state_rank(final(self).state) >= state_rank(old(self).state),
            old(self).state == MonsterState::Dead ==> *final(self) == *old(self),
            spec_dies(*old(self), damage as int) ==> {
                &&& final(gold_piles)@.len() == old(gold_piles)@.len() + 1
                &&& final(gold_piles)@.drop_last() == old(gold_piles)@
                &&& dropped_pile_for(old(self).position, final(gold_piles)@.last())
                &&& final(events)@ == old(events)@.push(GameEvent::MonsterDied)
            },
            !spec_dies(*old(self), damage as int) ==> {
                &&& final(gold_piles)@ == old(gold_piles)@
                &&& final(events)@ == old(events)@
            },
    {
        if self.state == MonsterState::Dead {
            // Already dead: nothing to do.
            return ;
        }
        self.health = self.health - damage;
        if self.health <= 0 {
            events.push(GameEvent::MonsterDied);
            self.state = MonsterState::Dead;
            let jx = rand_range_i64(GOLD_JITTER_LOW, GOLD_JITTER_HIGH);
            let jy = rand_range_i64(GOLD_JITTER_LOW, GOLD_JITTER_HIGH);
            let pile = GoldPile {
                position: Point { x: self.position.x + jx, y: self.position.y + jy },
                value: GOLD_VALUE,
            };
            gold_piles.push(pile);
            proof {
                assert(gold_piles@.drop_last() =~= old(gold_piles)@);
            }
        }
    }

    /// One movement attempt toward the current goal tile; private engine of
    /// `update`.
    fn try_moving(&mut self, elapsed: i64, path_blocks: &Vec<Block>)
        requires
            0 <= elapsed <= ELAPSED_LIMIT,
            monster_wf(*old(self)),
            old(self).move_goal <= path_blocks@.len(),
            path_wf(path_blocks@),
        ensures
            *final(self) == spec_try_moving(*old(self), path_blocks@, elapsed as int),
            monster_wf(*final(self)),
            final(self).move_goal <= path_blocks@.len(),
            final(self).move_goal >= old(self).move_goal,
    {
        if !(self.state == MonsterState::Walking) {
            return ;
        }
        if self.move_goal == path_blocks.len() {
            self.state = MonsterState::Attacking;
            return ;
        }
        let tile = path_blocks[self.move_goal].position;
        proof {
            lemma_goal_coord_range(tile.x as int);
            lemma_goal_coord_range(tile.y as int);
        }
        let gx = tile.x * BLOCK_SIZE + (BLOCK_SIZE / 2 - MONSTER_SIZE / 2);
        let gy = tile.y * BLOCK_SIZE + (BLOCK_SIZE / 2 - MONSTER_SIZE / 2);
        let dx = gx - self.position.x;
        let dy = gy - self.position.y;
        if dx >= 0 {
            self.direction = Direction::Right;
        } else {
            self.direction = Direction::Left;
        }
        proof {
            assert(0 <= dx * dx <= 1_000_000_000_000_000_000) by (nonlinear_arith)
                requires
                    -1_000_000_000 <= dx <= 1_000_000_000,
            ;
            assert(0 <= dy * dy <= 1_000_000_000_000_000_000) by (nonlinear_arith)
                requires
                    -1_000_000_000 <= dy <= 1_000_000_000,
            ;
        }
        let d2 = dx * dx + dy * dy;
        if d2 == 0 {
            self.move_goal = self.move_goal + 1;
        } else {
            let dist = isqrt64(d2 as u64);
            proof {
                assert(1 <= dist <= 2_000_000_000) by (nonlinear_arith)
                    requires
                        dist * dist <= 2_000_000_000_000_000_000u64,
                        (d2 as u64) < (dist + 1) * (dist + 1),
                        d2 >= 1,
                ;
                assert(0 <= self.speed * elapsed <= 1_000_000_000_000_000i64) by (nonlinear_arith)
                    requires
                        0 <= self.speed <= SPEED_LIMIT,
                        0 <= elapsed <= ELAPSED_LIMIT,
                        SPEED_LIMIT == 1_000_000i64,
                        ELAPSED_LIMIT == 1_000_000_000i64,
                ;
            }
            let step = self.speed * elapsed;
            proof {
                assert(dist * dist <= 4_000_000_000_000_000_000) by (nonlinear_arith)
                    requires
                        dist <= 2_000_000_000u64,
                ;
            }
            if dist < (step as u64) || (dist == (step as u64) && dist * dist == (d2 as u64)) {
                self.position = Point { x: gx, y: gy };
                self.move_goal = self.move_goal + 1;
            } else {
                let sx = scale_step(dx, step, dist as i64);
                let sy = scale_step(dy, step, dist as i64);
                self.position = Point { x: self.position.x + sx, y: self.position.y + sy };
            }
        }
    }

    /// One tick of this monster. An attacking monster deals its single hit to
    /// the player (saturating at the numeric floor) and dies; a dead monster
    /// does nothing; a walking monster follows the path.
    pub fn update(&mut self, elapsed: i64, path_blocks: &Vec<Block>, player: &mut Player)
        requires
            0 <= elapsed <= ELAPSED_LIMIT,
            monster_wf(*old(self)),
            old(self).move_goal <= path_blocks@.len(),
            path_wf(path_blocks@),
        ensures
            *final(self) == spec_update_monster(*old(self), path_blocks@, elapsed as int),
            monster_wf(*final(self)),
            final(self).move_goal <= path_blocks@.len(),
            state_rank(final(self).state) >= state_rank(old(self).state),
            final(self).move_goal >= old(self).move_goal,
            old(self).state == MonsterState::Attacking ==> *final(player) == (Player {
                health: sat_sub(old(player).health as int, MONSTER_DAMAGE as int) as i64,
                ..*old(player)
            }),
            old(self).state != MonsterState::Attacking ==> *final(player) == *old(player),
    {
        if self.state == MonsterState::Attacking {
            // The attack is one instantaneous hit; the monster dies with it.
            player.health = match player.health.checked_sub(MONSTER_DAMAGE) {
                Some(h) => h,
                None => i64::MIN,
            };
            self.state = MonsterState::Dead;
        }
        if self.state == MonsterState::Dead {
            return ;
        }
        self.try_moving(elapsed, path_blocks);
    }
}

} // verus!
