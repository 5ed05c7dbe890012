//! One game session: the player, the spawner and the board, with the
//! fixed-order tick driver (spawn, move, reap, tower attacks), the placement
//! command and the gold pickup command.

use vstd::prelude::*;
use crate::block::{Block, BLOCK_SIZE};
use crate::board::{board_wf, spec_occupied, spec_tile_of, Board};
use crate::events::GameEvent;
use crate::geometry::{floor_div, Point, COORD_LIMIT, PIXEL};
use crate::gold::{pile_wf, GoldPile, GOLD_VALUE};
use crate::monster::{
    monster_wf, path_wf, sat_sub, spec_update_monster, Monster, MonsterState, ELAPSED_LIMIT,
};
use crate::monster_spawner::{spawner_step, spawner_wf, MonsterSpawner};
use crate::player::Player;
use crate::tower::{
    damaged_monster, spec_tower_cost, tower_step_rel, tower_wf, Tower, TowerType, BASIC_COST,
    NINJA_COST,
};

verus! {

/// Offset from a gold pile's anchor to the center of its sprite: half a
/// tile, 17.5 pixels.
pub const GOLD_CENTER_OFFSET: i64 = 17 * PIXEL + 500;

/// Pickup radius around the pointer, in coordinate units.
pub const GOLD_PICKUP_RADIUS: i64 = 20 * PIXEL;

/// All monsters after one movement tick.
pub open spec fn spec_moved_monsters(ms: Seq<Monster>, path: Seq<Block>, elapsed: int) -> Seq<
    Monster,
> {
    ms.map_values(|m: Monster| spec_update_monster(m, path, elapsed))
}

/// The monsters that survive the reap step: everyone not dead.
pub open spec fn spec_live(ms: Seq<Monster>) -> Seq<Monster> {
    ms.filter(|m: Monster| m.state != MonsterState::Dead)
}

/// How many of the monsters stand in the attacking state.
pub open spec fn count_attacking(ms: Seq<Monster>) -> int
    decreases ms.len(),
{
    if ms.len() == 0 {
        0
    } else {
        count_attacking(ms.drop_last()) + if ms.last().state == MonsterState::Attacking {
            1int
        } else {
            0int
        }
    }
}

/// The pointer reaches a pile: their centers lie strictly within the pickup
/// radius.
pub open spec fn spec_picked(pointer: Point, g: GoldPile) -> bool {
    let dx = pointer.x - (g.position.x + GOLD_CENTER_OFFSET);
    let dy = pointer.y - (g.position.y + GOLD_CENTER_OFFSET);
    dx * dx + dy * dy < GOLD_PICKUP_RADIUS * GOLD_PICKUP_RADIUS
}

/// The piles a pickup pass at `pointer` leaves on the board.
pub open spec fn spec_kept_piles(pointer: Point, s: Seq<GoldPile>) -> Seq<GoldPile> {
    s.filter(|g: GoldPile| !spec_picked(pointer, g))
}

/// The piles a pickup pass at `pointer` collects.
pub open spec fn spec_picked_piles(pointer: Point, s: Seq<GoldPile>) -> Seq<GoldPile> {
    s.filter(|g: GoldPile| spec_picked(pointer, g))
}

/// Total gold value of a pile collection.
pub open spec fn gold_value_sum(s: Seq<GoldPile>) -> int
    decreases s.len(),
{
    if s.len() == 0 {
        0
    } else {
        gold_value_sum(s.drop_last()) + s.last().value
    }
}

/// Saturating addition on the wallet scale.
pub open spec fn sat_add_u32(a: int, b: int) -> int {
    if a + b > u32::MAX {
        u32::MAX as int
    } else {
        a + b
    }
}

/// A pile collection's total value is never negative.
pub proof fn lemma_gold_sum_nonneg(s: Seq<GoldPile>)
    ensures
        0 <= gold_value_sum(s),
    decreases s.len(),
{
    if s.len() > 0 {
        lemma_gold_sum_nonneg(s.drop_last());
    }
}

/// Prefixes chain: a prefix of a prefix is a prefix.
pub proof fn lemma_prefix_trans<T>(a: Seq<T>, b: Seq<T>, c: Seq<T>)
    requires
        a.is_prefix_of(b),
        b.is_prefix_of(c),
    ensures
        a.is_prefix_of(c),
{
    assert(c.subrange(0, a.len() as int) =~= a) by {
        assert(forall|k: int|
            0 <= k < a.len() ==> a[k] == b.subrange(0, a.len() as int)[k] && #[trigger] b[k]
                == c.subrange(0, b.len() as int)[k]);
    }
}

/// The whole tower phase of one tick relates the tower sequence, the monster
/// collection, the pile collection and the event log before and after: the
/// towers run one by one, in order, each step satisfying the single-tower
/// tick relation, each handing its monsters, piles and events to the next.
pub open spec fn towers_phase_rel(
    ts0: Seq<Tower>,
    ts1: Seq<Tower>,
    ms0: Seq<Monster>,
    ms1: Seq<Monster>,
    gp0: Seq<GoldPile>,
    gp1: Seq<GoldPile>,
    ev0: Seq<GameEvent>,
    ev1: Seq<GameEvent>,
    elapsed: int,
) -> bool
    decreases ts0.len(),
{
    if ts0.len() == 0 {
        &&& ts1.len() == 0
        &&& ms1 == ms0
        &&& gp1 == gp0
        &&& ev1 == ev0
    } else {
        &&& ts1.len() == ts0.len()
        &&& exists|ms_mid: Seq<Monster>, gp_mid: Seq<GoldPile>, ev_mid: Seq<GameEvent>|
            {
                &&& #[trigger] tower_step_rel(
                    ts0[0],
                    ts1[0],
                    ms0,
                    ms_mid,
                    gp0,
                    gp_mid,
                    ev0,
                    ev_mid,
                    elapsed,
                )
                &&& towers_phase_rel(
                    ts0.skip(1),
                    ts1.skip(1),
                    ms_mid,
                    ms1,
                    gp_mid,
                    gp1,
                    ev_mid,
                    ev1,
                    elapsed,
                )
            }
    }
}

/// Extending a tower phase by one more tower at the back keeps the phase
/// relation, with the new tower acting on the state the phase left.
proof fn lemma_towers_phase_snoc(
    a: Seq<Tower>,
    b: Seq<Tower>,
    t0: Tower,
    t1: Tower,
    ms0: Seq<Monster>,
    ms1: Seq<Monster>,
    ms2: Seq<Monster>,
    gp0: Seq<GoldPile>,
    gp1: Seq<GoldPile>,
    gp2: Seq<GoldPile>,
    ev0: Seq<GameEvent>,
    ev1: Seq<GameEvent>,
    ev2: Seq<GameEvent>,
    elapsed: int,
)
    requires
        towers_phase_rel(a, b, ms0, ms1, gp0, gp1, ev0, ev1, elapsed),
        tower_step_rel(t0, t1, ms1, ms2, gp1, gp2, ev1, ev2, elapsed),
    ensures
        towers_phase_rel(a.push(t0), b.push(t1), ms0, ms2, gp0, gp2, ev0, ev2, elapsed),
    decreases a.len(),
{
    if a.len() == 0 {
        assert(ms1 == ms0);
        assert(a.push(t0)[0] == t0);
        assert(b.push(t1)[0] == t1);
        assert(a.push(t0).skip(1) =~= Seq::<Tower>::empty());
        assert(b.push(t1).skip(1) =~= Seq::<Tower>::empty());
        assert(towers_phase_rel(
            a.push(t0).skip(1),
            b.push(t1).skip(1),
            ms2,
            ms2,
            gp2,
            gp2,
            ev2,
            ev2,
            elapsed,
        ));
        assert(tower_step_rel(a.push(t0)[0], b.push(t1)[0], ms0, ms2, gp0, gp2, ev0, ev2, elapsed));
    } else {
        let (ms_mid, gp_mid, ev_mid) = choose|
            ms_mid: Seq<Monster>,
            gp_mid: Seq<GoldPile>,
            ev_mid: Seq<GameEvent>,
        |
            {
                &&& #[trigger] tower_step_rel(
                    a[0],
                    b[0],
                    ms0,
                    ms_mid,
                    gp0,
                    gp_mid,
                    ev0,
                    ev_mid,
                    elapsed,
                )
                &&& towers_phase_rel(
                    a.skip(1),
                    b.skip(1),
                    ms_mid,
                    ms1,
                    gp_mid,
                    gp1,
                    ev_mid,
                    ev1,
                    elapsed,
                )
            };
        lemma_towers_phase_snoc(
            a.skip(1),
            b.skip(1),
            t0,
            t1,
            ms_mid,
            ms1,
            ms2,
            gp_mid,
            gp1,
            gp2,
            ev_mid,
            ev1,
            ev2,
            elapsed,
        );
        assert(a.push(t0).skip(1) =~= a.skip(1).push(t0));
        assert(b.push(t1).skip(1) =~= b.skip(1).push(t1));
        assert(a.push(t0)[0] == a[0]);
        assert(b.push(t1)[0] == b[0]);
        assert(tower_step_rel(
            a.push(t0)[0],
            b.push(t1)[0],
            ms0,
            ms_mid,
            gp0,
            gp_mid,
            ev0,
            ev_mid,
            elapsed,
        ));
        assert(towers_phase_rel(
            a.push(t0).skip(1),
            b.push(t1).skip(1),
            ms_mid,
            ms2,
            gp_mid,
            gp2,
            ev_mid,
            ev2,
            elapsed,
        ));
    }
}

/// One game session.
pub struct Game {
    pub player: Player,
    pub monster_spawner: MonsterSpawner,
    pub board: Board,
}

/// Well-formedness of a session: board and spawner are well-formed.
pub open spec fn game_wf(g: Game) -> bool {
    &&& board_wf(g.board)
    &&& spawner_wf(g.monster_spawner)
}

impl Game {
    /// A fresh session: full player, default schedule, authored board.
    pub fn new() -> (g: Game)
        ensures
            g.player.health == crate::player::PLAYER_START_HEALTH,
            g.player.gold == crate::player::PLAYER_START_GOLD,
            g.monster_spawner.spawn_schedule@
                == crate::monster_spawner::spec_default_schedule(),
            g.monster_spawner.elapsed_time == 0,
            g.board.path_blocks@ == crate::board::spec_default_path(),
            g.board.towers@ == Seq::<Tower>::empty(),
            g.board.monsters@ == Seq::<Monster>::empty(),
            g.board.gold_piles@ == Seq::<GoldPile>::empty(),
            game_wf(g),
    {
        Game {
            player: Player::new(),
            monster_spawner: MonsterSpawner::new(),
            board: Board::generate(1, 2),
        }
    }

    /// One simulation tick, in the fixed order: spawner, then every monster
    /// (an attacking one hits the player), then the reap of dead monsters,
    /// then every tower in order. Towers change only monster health and
    /// lifecycle states, drop gold piles, and append event records; the
    /// wallet, the path and the base never change within a tick.
    pub fn update(&mut self, elapsed: i64, events: &mut Vec<GameEvent>)
        requires
            0 <= elapsed <= ELAPSED_LIMIT,
            game_wf(*old(self)),
        ensures
            game_wf(*final(self)),
            final(self).board.path_blocks@ == old(self).board.path_blocks@,
            final(self).board.base == old(self).board.base,
            final(self).player.gold == old(self).player.gold,
            final(self).board.towers@.len() == old(self).board.towers@.len(),
            forall|i: int|
                0 <= i < old(self).board.towers@.len()
                    ==> (#[trigger] final(self).board.towers@[i]).kind
                        == old(self).board.towers@[i].kind
                    && final(self).board.towers@[i].position
                        == old(self).board.towers@[i].position,
            old(self).board.gold_piles@.is_prefix_of(final(self).board.gold_piles@),
            forall|k: int|
                old(self).board.gold_piles@.len() <= k < final(self).board.gold_piles@.len()
                    ==> (#[trigger] final(self).board.gold_piles@[k]).value == GOLD_VALUE,
            old(events)@.is_prefix_of(final(events)@),
            forall|k: int|
                old(events)@.len() <= k < final(events)@.len()
                    ==> (#[trigger] final(events)@[k] == GameEvent::MonsterDied
                    || final(events)@[k] == GameEvent::AttackFired
                    || final(events)@[k] == GameEvent::StrongAttackFired),
            exists|spawned: Seq<Monster>|
                {
                    &&& spawner_step(
                        old(self).monster_spawner,
                        final(self).monster_spawner,
                        old(self).board.monsters@,
                        spawned,
                        elapsed as int,
                    )
                    &&& final(self).player.health == sat_sub(
                        old(self).player.health as int,
                        count_attacking(spawned),
                    )
                    &&& ({
                        let survivors = spec_live(
                            spec_moved_monsters(
                                spawned,
                                old(self).board.path_blocks@,
                                elapsed as int,
                            ),
                        );
                        &&& final(self).board.monsters@.len() == survivors.len()
                        &&& forall|j: int|
                            0 <= j < survivors.len() ==> damaged_monster(
                                survivors[j],
                                #[trigger] final(self).board.monsters@[j],
                            )
                        &&& towers_phase_rel(
                            old(self).board.towers@,
                            final(self).board.towers@,
                            survivors,
                            final(self).board.monsters@,
                            old(self).board.gold_piles@,
                            final(self).board.gold_piles@,
                            old(events)@,
                            final(events)@,
                            elapsed as int,
                        )
                    })
                },
    {
        let ghost g0 = *old(self);
        let ghost ev0 = events@;
        let ghost gp0 = self.board.gold_piles@;

        self.monster_spawner.update(elapsed, &mut self.board);
        let ghost sp1 = self.monster_spawner;
        let ghost spawned = self.board.monsters@;
        let ghost path = self.board.path_blocks@;
        let ghost h0 = self.player.health as int;
        let ghost p_start = self.player;

        // Monster phase: each monster moves or deals its hit.
        let n = self.board.monsters.len();
        let mut i: usize = 0;
        while i < n
            invariant
                0 <= i <= n,
                n == spawned.len(),
                self.board.monsters@.len() == n,
                self.board.path_blocks@ == path,
                path_wf(path),
                0 <= elapsed <= ELAPSED_LIMIT,
                forall|k: int|
                    0 <= k < n ==> monster_wf(#[trigger] spawned[k]) && spawned[k].move_goal
                        <= path.len(),
                forall|k: int|
                    0 <= k < i ==> #[trigger] self.board.monsters@[k] == spec_update_monster(
                        spawned[k],
                        path,
                        elapsed as int,
                    ),
                forall|k: int| i <= k < n ==> #[trigger] self.board.monsters@[k] == spawned[k],
                forall|k: int|
                    0 <= k < n ==> monster_wf(#[trigger] self.board.monsters@[k])
                        && self.board.monsters@[k].move_goal <= path.len(),
                self.player.health == sat_sub(h0, count_attacking(spawned.take(i as int))),
                self.player.gold == p_start.gold,
                self.board.towers@ == g0.board.towers@,
                self.board.gold_piles@ == gp0,
                self.board.base == g0.board.base,
                self.monster_spawner == sp1,
            decreases n - i,
        {
            let ghost pre = spawned.take(i as int);
            let mut m = self.board.monsters[i];
            m.update(elapsed, &self.board.path_blocks, &mut self.player);
            self.board.monsters.set(i, m);
            proof {
                assert(spawned.take(i as int + 1).drop_last() =~= pre);
                assert(spawned.take(i as int + 1).last() == spawned[i as int]);
            }
            i = i + 1;
        }
        proof {
            assert(spawned.take(n as int) =~= spawned);
        }
        let ghost moved = self.board.monsters@;
        proof {
            assert(moved =~= spec_moved_monsters(spawned, path, elapsed as int));
        }

        // Reap phase: drop every dead monster, keeping order.
        let n2 = self.board.monsters.len();
        let mut kept: Vec<Monster> = Vec::new();
        let mut j: usize = 0;
        while j < n2
            invariant
                0 <= j <= n2,
                n2 == moved.len(),
                self.board.monsters@ == moved,
                path_wf(path),
                forall|k: int|
                    0 <= k < n2 ==> monster_wf(#[trigger] moved[k]) && moved[k].move_goal
                        <= path.len(),
                kept@ == spec_live(moved.take(j as int)),
                forall|k: int|
                    0 <= k < kept@.len() ==> monster_wf(#[trigger] kept@[k])
                        && kept@[k].move_goal <= path.len(),
            decreases n2 - j,
        {
            let ghost pre = moved.take(j as int);
            let m = self.board.monsters[j];
            if !(m.state == MonsterState::Dead) {
                kept.push(m);
            }
            proof {
                reveal(Seq::filter);
                assert(moved.take(j as int + 1).drop_last() =~= pre);
                assert(moved.take(j as int + 1).last() == moved[j as int]);
                assert(kept@ == spec_live(moved.take(j as int + 1)));
            }
            j = j + 1;
        }
        proof {
            assert(moved.take(n2 as int) =~= moved);
        }
        self.board.monsters = kept;
        let ghost reaped = self.board.monsters@;

        // Tower phase: each tower runs against the post-reap monsters.
        let nt = self.board.towers.len();
        let ghost ts0 = self.board.towers@;
        let ghost gp_mid = self.board.gold_piles@;
        let ghost ev_mid = events@;
        let ghost p_mid = self.player;
        let mut ti: usize = 0;
        proof {
            assert(ts0.take(0) =~= Seq::<Tower>::empty());
            assert(self.board.towers@.take(0) =~= Seq::<Tower>::empty());
        }
        while ti < nt
            invariant
                0 <= ti <= nt,
                towers_phase_rel(
                    ts0.take(ti as int),
                    self.board.towers@.take(ti as int),
                    reaped,
                    self.board.monsters@,
                    gp_mid,
                    self.board.gold_piles@,
                    ev_mid,
                    events@,
                    elapsed as int,
                ),
                nt == ts0.len(),
                self.board.towers@.len() == nt,
                0 <= elapsed <= ELAPSED_LIMIT,
                forall|k: int| 0 <= k < nt ==> tower_wf(#[trigger] ts0[k]),
                forall|k: int|
                    0 <= k < nt ==> tower_wf(#[trigger] self.board.towers@[k]) && self.board.towers@[k].kind
                        == ts0[k].kind && self.board.towers@[k].position == ts0[k].position,
                forall|k: int| ti <= k < nt ==> #[trigger] self.board.towers@[k] == ts0[k],
                self.board.monsters@.len() == reaped.len(),
                path_wf(path),
                forall|k: int|
                    0 <= k < reaped.len() ==> monster_wf(#[trigger] reaped[k])
                        && reaped[k].move_goal <= path.len(),
                forall|k: int|
                    0 <= k < reaped.len() ==> damaged_monster(
                        reaped[k],
                        #[trigger] self.board.monsters@[k],
                    ) && monster_wf(self.board.monsters@[k]) && self.board.monsters@[k].move_goal
                        <= path.len(),
                gp_mid.is_prefix_of(self.board.gold_piles@),
                forall|k: int|
                    gp_mid.len() <= k < self.board.gold_piles@.len() ==> (#[trigger] self.board.gold_piles@[k]).value
                        == GOLD_VALUE && pile_wf(self.board.gold_piles@[k]),
                forall|k: int|
                    0 <= k < self.board.gold_piles@.len() ==> pile_wf(
                        #[trigger] self.board.gold_piles@[k],
                    ),
                ev_mid.is_prefix_of(events@),
                forall|k: int|
                    ev_mid.len() <= k < events@.len() ==> (#[trigger] events@[k]
                        == GameEvent::MonsterDied || events@[k] == GameEvent::AttackFired
                        || events@[k] == GameEvent::StrongAttackFired),
                self.player == p_mid,
                self.board.path_blocks@ == path,
                self.board.base == g0.board.base,
                self.monster_spawner == sp1,
            decreases nt - ti,
        {
            let ghost ms_pre = self.board.monsters@;
            let ghost gp_pre = self.board.gold_piles@;
            let ghost ev_pre = events@;
            let ghost ts_pre = self.board.towers@;
            let mut t = self.board.towers[ti];
            t.update(elapsed, &mut self.board.monsters, &mut self.board.gold_piles, events);
            self.board.towers.set(ti, t);
            proof {
                lemma_towers_phase_snoc(
                    ts0.take(ti as int),
                    ts_pre.take(ti as int),
                    ts0[ti as int],
                    t,
                    reaped,
                    ms_pre,
                    self.board.monsters@,
                    gp_mid,
                    gp_pre,
                    self.board.gold_piles@,
                    ev_mid,
                    ev_pre,
                    events@,
                    elapsed as int,
                );
                assert(ts0.take(ti as int + 1) =~= ts0.take(ti as int).push(ts0[ti as int]));
                assert(self.board.towers@.take(ti as int + 1) =~= ts_pre.take(ti as int).push(t));
                lemma_prefix_trans(gp_mid, gp_pre, self.board.gold_piles@);
                lemma_prefix_trans(ev_mid, ev_pre, events@);
                assert forall|k: int| 0 <= k < gp_pre.len() implies #[trigger] self.board.gold_piles@[k]
                    == gp_pre[k] by {
                    assert(gp_pre[k] == self.board.gold_piles@.subrange(
                        0,
                        gp_pre.len() as int,
                    )[k]);
                }
                assert forall|k: int| 0 <= k < ev_pre.len() implies #[trigger] events@[k]
                    == ev_pre[k] by {
                    assert(ev_pre[k] == events@.subrange(0, ev_pre.len() as int)[k]);
                }
                assert forall|k: int|
                    ev_pre.len() <= k < events@.len() implies (#[trigger] events@[k]
                    == GameEvent::MonsterDied || events@[k] == GameEvent::AttackFired || events@[k]
                    == GameEvent::StrongAttackFired) by {
                    let appended = events@.subrange(ev_pre.len() as int, events@.len() as int);
                    assert(events@[k] == appended[k - ev_pre.len()]);
                }
            }
            ti = ti + 1;
        }

        proof {
            lemma_prefix_trans(gp0, gp_mid, self.board.gold_piles@);
            lemma_prefix_trans(ev0, ev_mid, events@);
            assert(ts0.take(nt as int) =~= ts0);
            assert(self.board.towers@.take(nt as int) =~= self.board.towers@);
        }
    }

    /// Handles a placement command at a pixel position. The command is
    /// rejected, changing nothing at all, when the position is occupied or
    /// the wallet cannot pay the variant's cost; otherwise the cost leaves
    /// the wallet and a fresh tower of the variant joins the board on the
    /// tile containing the position, inserted in row order.
    pub fn try_place_tower(&mut self, tower_type: TowerType, position: Point) -> (ok: bool)
        requires
            game_wf(*old(self)),
            -350_000_000 <= position.x <= 350_000_000,
            -350_000_000 <= position.y <= 350_000_000,
        ensures
            game_wf(*final(self)),
            ok <==> (!spec_occupied(old(self).board, position) && old(self).player.gold
                >= spec_tower_cost(tower_type)),
            !ok ==> *final(self) == *old(self),
            ok ==> {
                &&& final(self).player.gold == old(self).player.gold - spec_tower_cost(tower_type)
                &&& final(self).player.health == old(self).player.health
                &&& final(self).monster_spawner == old(self).monster_spawner
                &&& final(self).board.path_blocks == old(self).board.path_blocks
                &&& final(self).board.monsters == old(self).board.monsters
                &&& final(self).board.gold_piles == old(self).board.gold_piles
                &&& final(self).board.base == old(self).board.base
                &&& ({
                    let t = crate::tower::spec_new_tower(tower_type, spec_tile_of(position));
                    let ts0 = old(self).board.towers@;
                    let ts1 = final(self).board.towers@;
                    exists|idx: int|
                        {
                            &&& 0 <= idx <= ts0.len()
                            &&& forall|k: int|
                                0 <= k < idx ==> (#[trigger] ts0[k]).position.y < t.position.y
                            &&& (idx < ts0.len() ==> ts0[idx].position.y >= t.position.y)
                            &&& ts1 == ts0.insert(idx, t)
                        }
                })
            },
    {
        if self.board.position_is_occupied(position) {
            return false;
        }
        let tile = Point {
            x: floor_div(position.x, BLOCK_SIZE),
            y: floor_div(position.y, BLOCK_SIZE),
        };
        proof {
            vstd::arithmetic::div_mod::lemma_div_is_ordered(
                position.x as int,
                350_000_000,
                BLOCK_SIZE as int,
            );
            vstd::arithmetic::div_mod::lemma_div_is_ordered(
                -350_000_000,
                position.x as int,
                BLOCK_SIZE as int,
            );
            vstd::arithmetic::div_mod::lemma_div_is_ordered(
                position.y as int,
                350_000_000,
                BLOCK_SIZE as int,
            );
            vstd::arithmetic::div_mod::lemma_div_is_ordered(
                -350_000_000,
                position.y as int,
                BLOCK_SIZE as int,
            );
            assert(350_000_000int / 35_000int == 10_000);
            assert((-350_000_000int) / 35_000int == -10_000);
            assert(tile == spec_tile_of(position));
        }
        let cost = match tower_type {
            TowerType::Basic => BASIC_COST,
            TowerType::Ninja => NINJA_COST,
        };
        if self.player.gold >= cost {
            self.player.gold = self.player.gold - cost;
            let t = Tower::new(tower_type, tile);
            self.board.add_tower(t);
            true
        } else {
            false
        }
    }

    /// Handles one pointer pass over the board: every gold pile whose center
    /// lies strictly within the pickup radius of the pointer is collected in
    /// order, its value joining the wallet (saturating at the wallet
    /// ceiling) with one pickup event appended per pile; the other piles
    /// stay, in order.
    pub fn collect_gold(&mut self, pointer: Point, events: &mut Vec<GameEvent>)
        requires
            game_wf(*old(self)),
            -COORD_LIMIT <= pointer.x <= COORD_LIMIT,
            -COORD_LIMIT <= pointer.y <= COORD_LIMIT,
        ensures
            game_wf(*final(self)),
            final(self).board.gold_piles@ == spec_kept_piles(
                pointer,
                old(self).board.gold_piles@,
            ),
            final(self).player.gold as int == sat_add_u32(
                old(self).player.gold as int,
                gold_value_sum(spec_picked_piles(pointer, old(self).board.gold_piles@)),
            ),
            final(self).player.health == old(self).player.health,
            final(events)@ == old(events)@ + Seq::new(
                spec_picked_piles(pointer, old(self).board.gold_piles@).len(),
                |i: int| GameEvent::GoldCollected,
            ),
            final(self).monster_spawner == old(self).monster_spawner,
            final(self).board.path_blocks == old(self).board.path_blocks,
            final(self).board.towers == old(self).board.towers,
            final(self).board.monsters == old(self).board.monsters,
            final(self).board.base == old(self).board.base,
    {
        let ghost piles0 = self.board.gold_piles@;
        let ghost p0 = self.player;
        let ghost ev0 = events@;
        let n = self.board.gold_piles.len();
        let mut kept: Vec<GoldPile> = Vec::new();
        let mut i: usize = 0;
        while i < n
            invariant
                0 <= i <= n,
                n == piles0.len(),
                self.board.gold_piles@ == piles0,
                -COORD_LIMIT <= pointer.x <= COORD_LIMIT,
                -COORD_LIMIT <= pointer.y <= COORD_LIMIT,
                forall|k: int| 0 <= k < n ==> pile_wf(#[trigger] piles0[k]),
                kept@ == spec_kept_piles(pointer, piles0.take(i as int)),
                forall|k: int| 0 <= k < kept@.len() ==> pile_wf(#[trigger] kept@[k]),
                self.player.gold as int == sat_add_u32(
                    p0.gold as int,
                    gold_value_sum(spec_picked_piles(pointer, piles0.take(i as int))),
                ),
                self.player.health == p0.health,
                events@ == ev0 + Seq::new(
                    spec_picked_piles(pointer, piles0.take(i as int)).len(),
                    |j: int| GameEvent::GoldCollected,
                ),
                self.board.towers == old(self).board.towers,
                self.board.monsters == old(self).board.monsters,
                self.board.path_blocks == old(self).board.path_blocks,
                self.board.base == old(self).board.base,
                self.monster_spawner == old(self).monster_spawner,
            decreases n - i,
        {
            let ghost pre = piles0.take(i as int);
            let g = self.board.gold_piles[i];
            let dx = pointer.x - (g.position.x + GOLD_CENTER_OFFSET);
            let dy = pointer.y - (g.position.y + GOLD_CENTER_OFFSET);
            proof {
                assert(0 <= dx * dx <= 2_000_000_000_000_000_000) by (nonlinear_arith)
                    requires
                        -1_300_000_000 <= dx <= 1_300_000_000,
                ;
                assert(0 <= dy * dy <= 2_000_000_000_000_000_000) by (nonlinear_arith)
                    requires
                        -1_300_000_000 <= dy <= 1_300_000_000,
                ;
            }
            let picked = dx * dx + dy * dy < GOLD_PICKUP_RADIUS * GOLD_PICKUP_RADIUS;
            if picked {
                self.player.gold = self.player.gold.saturating_add(g.value);
                events.push(GameEvent::GoldCollected);
            } else {
                kept.push(g);
            }
            proof {
                reveal(Seq::filter);
                assert(piles0.take(i as int + 1).drop_last() =~= pre);
                assert(piles0.take(i as int + 1).last() == piles0[i as int]);
                lemma_gold_sum_nonneg(spec_picked_piles(pointer, pre));
                if spec_picked(pointer, piles0[i as int]) {
                    let picked_now = spec_picked_piles(pointer, pre).push(piles0[i as int]);
                    assert(spec_picked_piles(pointer, piles0.take(i as int + 1)) == picked_now);
                    assert(picked_now.drop_last() =~= spec_picked_piles(pointer, pre));
                    assert(gold_value_sum(picked_now) == gold_value_sum(
                        spec_picked_piles(pointer, pre),
                    ) + piles0[i as int].value);
                } else {
                    assert(spec_picked_piles(pointer, piles0.take(i as int + 1))
                        == spec_picked_piles(pointer, pre));
                }
                assert(kept@ == spec_kept_piles(pointer, piles0.take(i as int + 1)));
                assert(events@ =~= ev0 + Seq::new(
                    spec_picked_piles(pointer, piles0.take(i as int + 1)).len(),
                    |j: int| GameEvent::GoldCollected,
                ));
            }
            i = i + 1;
        }
        proof {
            assert(piles0.take(n as int) =~= piles0);
        }
        self.board.gold_piles = kept;
    }
}

} // verus!
