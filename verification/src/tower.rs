//! Towers: cooldown-gated area attacks, and the ninja tower's random-target
//! strong attack.

use vstd::prelude::*;
use crate::block::BLOCK_SIZE;
use crate::events::GameEvent;
use crate::geometry::{dist_sq, in_tile_range, Point, PIXEL, TILE_LIMIT};
use crate::gold::{pile_wf, GoldPile, GOLD_VALUE};
use crate::monster::{
    dropped_pile_for, monster_wf, spec_center, spec_dies, spec_receive_damage, state_rank,
    Monster, DAMAGE_LIMIT, ELAPSED_LIMIT,
};
use crate::rng::rand_below;

verus! {

/// Radius of the basic tower's area attack, in coordinate units.
pub const BASIC_ATTACK_RANGE: i64 = 100 * PIXEL;

/// Cooldown period of the basic tower's area attack, in milliseconds.
pub const BASIC_ATTACK_PERIOD: i64 = 1000;

/// Damage of the basic tower's area attack.
pub const BASIC_DAMAGE: i64 = 10;

/// Gold cost of placing a basic tower.
pub const BASIC_COST: u32 = 10;

/// Radius of the ninja tower's area attack, in coordinate units.
pub const NINJA_ATTACK_RANGE: i64 = 100 * PIXEL;

/// Cooldown period of the ninja tower's area attack, in milliseconds.
pub const NINJA_ATTACK_PERIOD: i64 = 2000;

/// Cooldown period of the ninja tower's strong attack, in milliseconds.
pub const NINJA_STRONG_PERIOD: i64 = 10_000;

/// Damage of the ninja tower's area attack.
pub const NINJA_DAMAGE: i64 = 10;

/// Damage of the ninja tower's strong attack.
pub const NINJA_STRONG_DAMAGE: i64 = 1000;

/// Gold cost of placing a ninja tower.
pub const NINJA_COST: u32 = 20;

/// Cooldown a freshly placed ninja tower starts with.
pub const NINJA_INITIAL_COOLDOWN: i64 = 2000;

/// Strong-attack cooldown a freshly placed ninja tower starts with.
pub const NINJA_INITIAL_STRONG_COOLDOWN: i64 = 5000;

/// The tower variants of the game.
#[derive(Clone, Copy, PartialEq, Eq, Structural, Debug)]
pub enum TowerType {
    Basic,
    Ninja,
}

/// A placed tower. `position` is the grid tile it stands on; the cooldowns
/// are remaining milliseconds until the abilities may fire, clamped at zero.
/// A basic tower has no strong attack: its strong cooldown is fixed at zero.
#[derive(Clone, Copy, PartialEq, Eq, Structural, Debug)]
pub struct Tower {
    pub kind: TowerType,
    pub position: Point,
    pub attack_cooldown: i64,
    pub strong_attack_cooldown: i64,
}

/// Area-attack radius of a variant.
pub open spec fn attack_range(kind: TowerType) -> int {
    match kind {
        TowerType::Basic => BASIC_ATTACK_RANGE as int,
        TowerType::Ninja => NINJA_ATTACK_RANGE as int,
    }
}

/// Area-attack cooldown period of a variant.
pub open spec fn attack_period(kind: TowerType) -> int {
    match kind {
        TowerType::Basic => BASIC_ATTACK_PERIOD as int,
        TowerType::Ninja => NINJA_ATTACK_PERIOD as int,
    }
}

/// Area-attack damage of a variant.
pub open spec fn attack_damage(kind: TowerType) -> int {
    match kind {
        TowerType::Basic => BASIC_DAMAGE as int,
        TowerType::Ninja => NINJA_DAMAGE as int,
    }
}

/// Strong-attack cooldown period of a variant; zero for a variant without a
/// strong attack.
pub open spec fn strong_period(kind: TowerType) -> int {
    match kind {
        TowerType::Basic => 0,
        TowerType::Ninja => NINJA_STRONG_PERIOD as int,
    }
}

/// Gold cost of placing a variant.
pub open spec fn spec_tower_cost(kind: TowerType) -> int {
    match kind {
        TowerType::Basic => BASIC_COST as int,
        TowerType::Ninja => NINJA_COST as int,
    }
}

/// Well-formedness of a tower: an admitted tile, and cooldowns between zero
/// and the variant's periods.
pub open spec fn tower_wf(t: Tower) -> bool {
    &&& in_tile_range(t.position)
    &&& 0 <= t.attack_cooldown <= attack_period(t.kind)
    &&& 0 <= t.strong_attack_cooldown <= strong_period(t.kind)
}

/// The tower a placement creates for the given variant and tile.
pub open spec fn spec_new_tower(kind: TowerType, position: Point) -> Tower {
    match kind {
        TowerType::Basic => Tower {
            kind,
            position,
            attack_cooldown: 0,
            strong_attack_cooldown: 0,
        },
        TowerType::Ninja => Tower {
            kind,
            position,
            attack_cooldown: NINJA_INITIAL_COOLDOWN,
            strong_attack_cooldown: NINJA_INITIAL_STRONG_COOLDOWN,
        },
    }
}

/// Pixel point of the tower's tile center.
pub open spec fn spec_tower_center(t: Tower) -> Point {
    Point {
        x: (t.position.x * BLOCK_SIZE + BLOCK_SIZE / 2) as i64,
        y: (t.position.y * BLOCK_SIZE + BLOCK_SIZE / 2) as i64,
    }
}

/// The pixel point `p` lies strictly inside the tower's circular attack
/// range, measured center to center.
pub open spec fn spec_in_attack_range(t: Tower, p: Point) -> bool {
    dist_sq(spec_tower_center(t), p) < attack_range(t.kind) * attack_range(t.kind)
}

/// A cooldown after `elapsed` milliseconds passed: decremented, clamped at
/// zero.
pub open spec fn spec_cooldown_after(cd: int, elapsed: int) -> int {
    if cd - elapsed < 0 {
        0
    } else {
        cd - elapsed
    }
}

/// The area attack fires this tick: the cooldown has run out and at least one
/// monster stands in range.
pub open spec fn spec_area_fires(t: Tower, ms: Seq<Monster>, elapsed: int) -> bool {
    &&& spec_cooldown_after(t.attack_cooldown as int, elapsed) == 0
    &&& exists|j: int| 0 <= j < ms.len() && spec_in_attack_range(t, spec_center(ms[j]))
}

/// The monsters after the area attack: when the cooldown has run out, every
/// monster in range takes the variant's damage; the rest are untouched.
pub open spec fn spec_area_monsters(t: Tower, ms: Seq<Monster>, elapsed: int) -> Seq<Monster> {
    if spec_cooldown_after(t.attack_cooldown as int, elapsed) == 0 {
        ms.map_values(
            |m: Monster|
                if spec_in_attack_range(t, spec_center(m)) {
                    spec_receive_damage(m, attack_damage(t.kind))
                } else {
                    m
                },
        )
    } else {
        ms
    }
}

/// The strong attack fires this tick: a ninja tower whose strong cooldown has
/// run out while any monster at all is on the board. Range deliberately plays
/// no part here: the strong attack picks its victim from the whole board, a
/// known quirk of the game's balance that is kept on purpose.
pub open spec fn spec_strong_fires(t: Tower, n_monsters: int, elapsed: int) -> bool {
    &&& t.kind == TowerType::Ninja
    &&& spec_cooldown_after(t.strong_attack_cooldown as int, elapsed) == 0
    &&& n_monsters > 0
}

/// The monsters the area attack kills, in scan order: those in range whose
/// health the variant's damage drains.
pub open spec fn spec_kill_filter(t: Tower, ms: Seq<Monster>) -> Seq<Monster> {
    ms.filter(
        |m: Monster|
            spec_in_attack_range(t, spec_center(m)) && spec_dies(m, attack_damage(t.kind)),
    )
}

/// The monsters the area phase of a tick kills: nobody while the cooldown
/// still runs, else everyone in range whom the damage drains, in scan order.
pub open spec fn spec_area_kills(t: Tower, ms: Seq<Monster>, elapsed: int) -> Seq<Monster> {
    if spec_cooldown_after(t.attack_cooldown as int, elapsed) == 0 {
        spec_kill_filter(t, ms)
    } else {
        Seq::<Monster>::empty()
    }
}

/// `n` death records, one per killed monster.
pub open spec fn death_records(n: int) -> Seq<GameEvent> {
    Seq::new(n as nat, |i: int| GameEvent::MonsterDied)
}

/// One dropped pile per killed monster, in kill order, each within the jitter
/// band of its monster's position.
pub open spec fn piles_dropped_for(kills: Seq<Monster>, appended: Seq<GoldPile>) -> bool {
    &&& appended.len() == kills.len()
    &&& forall|i: int|
        0 <= i < kills.len() ==> dropped_pile_for((#[trigger] kills[i]).position, appended[i])
}

/// One more kill with a pile in its jitter band extends the pile account.
proof fn lemma_piles_dropped_push(
    kills: Seq<Monster>,
    appended: Seq<GoldPile>,
    m: Monster,
    p: GoldPile,
)
    requires
        piles_dropped_for(kills, appended),
        dropped_pile_for(m.position, p),
    ensures
        piles_dropped_for(kills.push(m), appended.push(p)),
{
    assert forall|i: int| 0 <= i < kills.push(m).len() implies dropped_pile_for(
        (#[trigger] kills.push(m)[i]).position,
        appended.push(p)[i],
    ) by {
        if i < kills.len() {
            assert(kills.push(m)[i] == kills[i]);
            assert(appended.push(p)[i] == appended[i]);
        } else {
            assert(kills.push(m)[i] == m);
            assert(appended.push(p)[i] == p);
        }
    }
}

/// One tower tick relates the tower, the monster collection, the pile
/// collection and the event log before and after: the tower keeps its variant
/// and tile; each cooldown runs down clamped at zero, resetting to its full
/// period exactly when its attack fired; every monster in range takes the
/// area damage when the area cooldown ran out; a firing strong attack
/// additionally downs one monster of the whole board, at an index chance
/// alone picks; exactly one death record and one jitter-banded pile appear
/// per monster whose health crossed zero, in scan order, the attack record
/// exactly when the area attack fired, and the strong-attack record exactly
/// when the strong attack fired, closing the log.
pub open spec fn tower_step_rel(
    t0: Tower,
    t1: Tower,
    ms0: Seq<Monster>,
    ms1: Seq<Monster>,
    gp0: Seq<GoldPile>,
    gp1: Seq<GoldPile>,
    ev0: Seq<GameEvent>,
    ev1: Seq<GameEvent>,
    elapsed: int,
) -> bool {
    let mid = spec_area_monsters(t0, ms0, elapsed);
    let kills = spec_area_kills(t0, ms0, elapsed);
    let ev_area = ev0 + death_records(kills.len() as int) + if spec_area_fires(
        t0,
        ms0,
        elapsed,
    ) {
        seq![GameEvent::AttackFired]
    } else {
        Seq::<GameEvent>::empty()
    };
    &&& t1.kind == t0.kind
    &&& t1.position == t0.position
    &&& t1.attack_cooldown == if spec_area_fires(t0, ms0, elapsed) {
        attack_period(t0.kind)
    } else {
        spec_cooldown_after(t0.attack_cooldown as int, elapsed)
    }
    &&& t1.strong_attack_cooldown == if spec_strong_fires(t0, ms0.len() as int, elapsed) {
        strong_period(t0.kind)
    } else {
        spec_cooldown_after(t0.strong_attack_cooldown as int, elapsed)
    }
    &&& gp0.is_prefix_of(gp1)
    &&& if spec_strong_fires(t0, ms0.len() as int, elapsed) {
        exists|j: int|
            {
                &&& 0 <= j < mid.len()
                &&& ms1 == mid.update(j, spec_receive_damage(mid[j], NINJA_STRONG_DAMAGE as int))
                &&& ({
                    let sdies = spec_dies(mid[j], NINJA_STRONG_DAMAGE as int);
                    let kills_total = if sdies {
                        kills.push(mid[j])
                    } else {
                        kills
                    };
                    &&& ev1 == ev_area + (if sdies {
                        seq![GameEvent::MonsterDied]
                    } else {
                        Seq::<GameEvent>::empty()
                    }) + seq![GameEvent::StrongAttackFired]
                    &&& piles_dropped_for(
                        kills_total,
                        gp1.subrange(gp0.len() as int, gp1.len() as int),
                    )
                })
            }
    } else {
        &&& ms1 == mid
        &&& ev1 == ev_area
        &&& piles_dropped_for(kills, gp1.subrange(gp0.len() as int, gp1.len() as int))
    }
}

/// `b` is `a` after taking some damage: everything but health and lifecycle
/// state is untouched, health never rises, state never steps backward.
pub open spec fn damaged_monster(a: Monster, b: Monster) -> bool {
    &&& b.kind == a.kind
    &&& b.position == a.position
    &&& b.speed == a.speed
    &&& b.move_goal == a.move_goal
    &&& b.direction == a.direction
    &&& b.health <= a.health
    &&& state_rank(b.state) >= state_rank(a.state)
}

/// The area attack keeps every monster well-formed and only ever lowers
/// health and advances lifecycle states, monster by monster.
proof fn lemma_area_monsters_pointwise(t: Tower, ms: Seq<Monster>, elapsed: int)
    requires
        forall|k: int| 0 <= k < ms.len() ==> monster_wf(#[trigger] ms[k]),
    ensures
        spec_area_monsters(t, ms, elapsed).len() == ms.len(),
        forall|k: int|
            0 <= k < ms.len() ==> damaged_monster(
                ms[k],
                #[trigger] spec_area_monsters(t, ms, elapsed)[k],
            ) && monster_wf(spec_area_monsters(t, ms, elapsed)[k]),
{
    let mid = spec_area_monsters(t, ms, elapsed);
    assert forall|k: int| 0 <= k < ms.len() implies damaged_monster(ms[k], #[trigger] mid[k])
        && monster_wf(mid[k]) by {
        if spec_cooldown_after(t.attack_cooldown as int, elapsed) == 0 && spec_in_attack_range(
            t,
            spec_center(ms[k]),
        ) {
            crate::monster::lemma_receive_damage_props(ms[k], attack_damage(t.kind));
        }
    }
}

impl Tower {
    /// A freshly placed tower of the given variant on the given tile.
    pub fn new(kind: TowerType, position: Point) -> (t: Tower)
        requires
            in_tile_range(position),
        ensures
            t == spec_new_tower(kind, position),
            tower_wf(t),
    {
        match kind {
            TowerType::Basic => Tower {
                kind,
                position,
                attack_cooldown: 0,
                strong_attack_cooldown: 0,
            },
            TowerType::Ninja => Tower {
                kind,
                position,
                attack_cooldown: NINJA_INITIAL_COOLDOWN,
                strong_attack_cooldown: NINJA_INITIAL_STRONG_COOLDOWN,
            },
        }
    }

    /// The grid tile the tower stands on.
    pub fn get_block_position(&self) -> (p: Point)
        ensures
            p == self.position,
    {
        self.position
    }

    /// The pixel point of the tower's tile center.
    pub fn get_center_pos_abs(&self) -> (c: Point)
        requires
            in_tile_range(self.position),
        ensures
            c == spec_tower_center(*self),
    {
        proof {
            assert(-350_000_000 <= self.position.x * BLOCK_SIZE <= 350_000_000)
                by (nonlinear_arith)
                requires
                    -TILE_LIMIT <= self.position.x <= TILE_LIMIT,
                    TILE_LIMIT == 10_000i64,
                    BLOCK_SIZE == 35_000i64,
            ;
            assert(-350_000_000 <= self.position.y * BLOCK_SIZE <= 350_000_000)
                by (nonlinear_arith)
                requires
                    -TILE_LIMIT <= self.position.y <= TILE_LIMIT,
                    TILE_LIMIT == 10_000i64,
                    BLOCK_SIZE == 35_000i64,
            ;
        }
        Point {
            x: self.position.x * BLOCK_SIZE + BLOCK_SIZE / 2,
            y: self.position.y * BLOCK_SIZE + BLOCK_SIZE / 2,
        }
    }

    /// Whether a pixel point lies strictly inside the tower's attack circle.
    pub fn position_is_in_attack_range(&self, position_abs: Point) -> (r: bool)
        requires
            in_tile_range(self.position),
            -700_000_000 <= position_abs.x <= 700_000_000,
            -700_000_000 <= position_abs.y <= 700_000_000,
        ensures
            r == spec_in_attack_range(*self, position_abs),
    {
        let c = self.get_center_pos_abs();
        let dx = c.x - position_abs.x;
        let dy = c.y - position_abs.y;
        proof {
            assert(0 <= dx * dx <= 2_000_000_000_000_000_000) by (nonlinear_arith)
                requires
                    -1_100_000_000 <= dx <= 1_100_000_000,
            ;
            assert(0 <= dy * dy <= 2_000_000_000_000_000_000) by (nonlinear_arith)
                requires
                    -1_100_000_000 <= dy <= 1_100_000_000,
            ;
        }
        let range = match self.kind {
            TowerType::Basic => BASIC_ATTACK_RANGE,
            TowerType::Ninja => NINJA_ATTACK_RANGE,
        };
        dx * dx + dy * dy < range * range
    }

    /// One tick of this tower. Both cooldowns run down, clamped at zero. When
    /// the area cooldown reads zero, every monster strictly inside range takes
    /// the variant's damage at once; if at least one was in range the attack
    /// sound fires and the cooldown resets to its full period, else it stays
    /// at zero for the next tick. A ninja tower whose strong cooldown reads
    /// zero additionally deals its strong damage to one randomly chosen
    /// monster of the whole board, range ignored.
    pub fn update(
        &mut self,
        elapsed: i64,
        monsters: &mut Vec<Monster>,
        gold_piles: &mut Vec<GoldPile>,
        events: &mut Vec<GameEvent>,
    )
        requires
            0 <= elapsed <= ELAPSED_LIMIT,
            tower_wf(*old(self)),
            forall|j: int|
                0 <= j < old(monsters)@.len() ==> monster_wf(#[trigger] old(monsters)@[j]),
        ensures
            tower_wf(*final(self)),
            tower_step_rel(
                *old(self),
                *final(self),
                old(monsters)@,
                final(monsters)@,
                old(gold_piles)@,
                final(gold_piles)@,
                old(events)@,
                final(events)@,
                elapsed as int,
            ),
            final(self).kind == old(self).kind,
            final(self).position == old(self).position,
            final(self).attack_cooldown == if spec_area_fires(
                *old(self),
                old(monsters)@,
                elapsed as int,
            ) {
                attack_period(old(self).kind)
            } else {
                spec_cooldown_after(old(self).attack_cooldown as int, elapsed as int)
            },
            final(self).strong_attack_cooldown == if spec_strong_fires(
                *old(self),
                old(monsters)@.len() as int,
                elapsed as int,
            ) {
                strong_period(old(self).kind)
            } else {
                spec_cooldown_after(old(self).strong_attack_cooldown as int, elapsed as int)
            },
            ({
                let mid = spec_area_monsters(*old(self), old(monsters)@, elapsed as int);
                if spec_strong_fires(*old(self), old(monsters)@.len() as int, elapsed as int) {
                    exists|j: int|
                        0 <= j < mid.len() && final(monsters)@ == mid.update(
                            j,
                            spec_receive_damage(mid[j], NINJA_STRONG_DAMAGE as int),
                        )
                } else {
                    final(monsters)@ == mid
                }
            }),
            final(monsters)@.len() == old(monsters)@.len(),
            forall|j: int|
                0 <= j < old(monsters)@.len() ==> damaged_monster(
                    old(monsters)@[j],
                    #[trigger] final(monsters)@[j],
                ),
            forall|j: int|
                0 <= j < final(monsters)@.len() ==> monster_wf(#[trigger] final(monsters)@[j]),
            old(gold_piles)@.is_prefix_of(final(gold_piles)@),
            forall|k: int|
                old(gold_piles)@.len() <= k < final(gold_piles)@.len() ==> {
                    &&& (#[trigger] final(gold_piles)@[k]).value == GOLD_VALUE
                    &&& pile_wf(final(gold_piles)@[k])
                },
            old(events)@.is_prefix_of(final(events)@),
            ({
                let appended = final(events)@.subrange(
                    old(events)@.len() as int,
                    final(events)@.len() as int,
                );
                &&& forall|k: int|
                    0 <= k < appended.len() ==> (#[trigger] appended[k] == GameEvent::MonsterDied
                        || appended[k] == GameEvent::AttackFired || appended[k]
                        == GameEvent::StrongAttackFired)
                &&& (spec_area_fires(*old(self), old(monsters)@, elapsed as int)
                    <==> appended.contains(GameEvent::AttackFired))
                &&& (spec_strong_fires(*old(self), old(monsters)@.len() as int, elapsed as int)
                    <==> appended.contains(GameEvent::StrongAttackFired))
            }),
    {
        let ghost t0 = *old(self);
        let ghost ms0 = monsters@;
        let ghost gp0 = gold_piles@;
        let ghost ev0 = events@;

        if elapsed >= self.attack_cooldown {
            self.attack_cooldown = 0;
        } else {
            self.attack_cooldown = self.attack_cooldown - elapsed;
        }
        if elapsed >= self.strong_attack_cooldown {
            self.strong_attack_cooldown = 0;
        } else {
            self.strong_attack_cooldown = self.strong_attack_cooldown - elapsed;
        }

        let dmg = match self.kind {
            TowerType::Basic => BASIC_DAMAGE,
            TowerType::Ninja => NINJA_DAMAGE,
        };

        let mut damage_dealt = false;
        if self.attack_cooldown == 0 {
            let n = monsters.len();
            let mut j: usize = 0;
            proof {
                reveal(Seq::filter);
                assert(ms0.take(0) =~= Seq::<Monster>::empty());
                assert(spec_kill_filter(t0, ms0.take(0)) =~= Seq::<Monster>::empty());
                assert(gold_piles@.subrange(gp0.len() as int, gold_piles@.len() as int)
                    =~= Seq::<GoldPile>::empty());
                assert(events@ =~= ev0 + death_records(0));
            }
            while j < n
                invariant
                    j <= n,
                    piles_dropped_for(
                        spec_kill_filter(t0, ms0.take(j as int)),
                        gold_piles@.subrange(gp0.len() as int, gold_piles@.len() as int),
                    ),
                    events@ == ev0 + death_records(
                        spec_kill_filter(t0, ms0.take(j as int)).len() as int,
                    ),
                    n == ms0.len(),
                    monsters@.len() == ms0.len(),
                    *self == (Tower {
                        attack_cooldown: 0,
                        strong_attack_cooldown: spec_cooldown_after(
                            t0.strong_attack_cooldown as int,
                            elapsed as int,
                        ) as i64,
                        ..t0
                    }),
                    spec_cooldown_after(t0.attack_cooldown as int, elapsed as int) == 0,
                    dmg == attack_damage(t0.kind),
                    0 <= dmg <= DAMAGE_LIMIT,
                    tower_wf(t0),
                    forall|k: int| 0 <= k < ms0.len() ==> monster_wf(#[trigger] ms0[k]),
                    forall|k: int|
                        0 <= k < j ==> monsters@[k] == (if spec_in_attack_range(
                            t0,
                            spec_center(ms0[k]),
                        ) {
                            spec_receive_damage(#[trigger] ms0[k], attack_damage(t0.kind))
                        } else {
                            ms0[k]
                        }),
                    forall|k: int| j <= k < ms0.len() ==> monsters@[k] == #[trigger] ms0[k],
                    forall|k: int|
                        0 <= k < monsters@.len() ==> monster_wf(#[trigger] monsters@[k]),
                    damage_dealt <==> exists|k: int|
                        0 <= k < j && spec_in_attack_range(t0, spec_center(ms0[k])),
                    gp0.is_prefix_of(gold_piles@),
                    forall|k: int|
                        gp0.len() <= k < gold_piles@.len() ==> {
                            &&& (#[trigger] gold_piles@[k]).value == GOLD_VALUE
                            &&& pile_wf(gold_piles@[k])
                        },
                    ev0.is_prefix_of(events@),
                    forall|k: int|
                        ev0.len() <= k < events@.len() ==> #[trigger] events@[k]
                            == GameEvent::MonsterDied,
                decreases n - j,
            {
                let m = monsters[j];
                let c = m.get_center_pos_abs();
                let ghost gp_pre = gold_piles@;
                let ghost ev_pre = events@;
                let ghost prev = ms0.take(j as int);
                let ghost prek = spec_kill_filter(t0, prev);
                if self.position_is_in_attack_range(c) {
                    proof {
                        assert(m == ms0[j as int]);
                        assert(spec_in_attack_range(t0, spec_center(ms0[j as int])));
                    }
                    damage_dealt = true;
                    let mut mm = m;
                    mm.recieve_damage(dmg, gold_piles, events);
                    monsters.set(j, mm);
                    proof {
                        reveal(Seq::filter);
                        assert(ms0.take(j as int + 1).drop_last() =~= prev);
                        assert(ms0.take(j as int + 1).last() == ms0[j as int]);
                        if spec_dies(ms0[j as int], dmg as int) {
                            assert forall|k: int| 0 <= k < gp_pre.len() implies #[trigger]
                                gold_piles@[k] == gp_pre[k] by {
                                assert(gold_piles@.drop_last()[k] == gp_pre[k]);
                            }
                            assert(pile_wf(gold_piles@[gold_piles@.len() - 1]));
                            assert(spec_kill_filter(t0, ms0.take(j as int + 1)) == prek.push(
                                ms0[j as int],
                            ));
                            assert(gold_piles@.subrange(gp0.len() as int, gold_piles@.len() as int)
                                =~= gp_pre.subrange(gp0.len() as int, gp_pre.len() as int).push(
                                gold_piles@.last(),
                            ));
                            lemma_piles_dropped_push(
                                prek,
                                gp_pre.subrange(gp0.len() as int, gp_pre.len() as int),
                                ms0[j as int],
                                gold_piles@.last(),
                            );
                            assert(death_records(prek.len() as int + 1) =~= death_records(
                                prek.len() as int,
                            ).push(GameEvent::MonsterDied));
                            assert(events@ =~= ev0 + death_records(
                                spec_kill_filter(t0, ms0.take(j as int + 1)).len() as int,
                            ));
                        } else {
                            assert(spec_kill_filter(t0, ms0.take(j as int + 1)) == prek);
                        }
                        assert(gp0.is_prefix_of(gold_piles@)) by {
                            assert(gold_piles@.subrange(0, gp0.len() as int) =~= gp0);
                        }
                        assert(ev0.is_prefix_of(events@)) by {
                            assert(events@.subrange(0, ev0.len() as int) =~= ev0);
                        }
                    }
                } else {
                    proof {
                        reveal(Seq::filter);
                        assert(m == ms0[j as int]);
                        assert(!spec_in_attack_range(t0, spec_center(ms0[j as int])));
                        assert(ms0.take(j as int + 1).drop_last() =~= prev);
                        assert(ms0.take(j as int + 1).last() == ms0[j as int]);
                        assert(spec_kill_filter(t0, ms0.take(j as int + 1)) == prek);
                    }
                }
                j = j + 1;
            }
            proof {
                assert(ms0.take(n as int) =~= ms0);
            }
            if damage_dealt {
                events.push(GameEvent::AttackFired);
                self.attack_cooldown = match self.kind {
                    TowerType::Basic => BASIC_ATTACK_PERIOD,
                    TowerType::Ninja => NINJA_ATTACK_PERIOD,
                };
                proof {
                    assert(ev0.is_prefix_of(events@)) by {
                        assert(events@.subrange(0, ev0.len() as int) =~= ev0);
                    }
                }
            }
            proof {
                assert(monsters@ =~= spec_area_monsters(t0, ms0, elapsed as int));
                let kills = spec_area_kills(t0, ms0, elapsed as int);
                if damage_dealt {
                    assert(events@ =~= ev0 + death_records(kills.len() as int) + seq![
                        GameEvent::AttackFired,
                    ]);
                } else {
                    assert(events@ =~= ev0 + death_records(kills.len() as int)
                        + Seq::<GameEvent>::empty());
                }
            }
        } else {
            proof {
                reveal(Seq::filter);
                assert(monsters@ =~= spec_area_monsters(t0, ms0, elapsed as int));
                assert(spec_area_kills(t0, ms0, elapsed as int) =~= Seq::<Monster>::empty());
                assert(gold_piles@.subrange(gp0.len() as int, gold_piles@.len() as int)
                    =~= Seq::<GoldPile>::empty());
                assert(events@ =~= ev0 + death_records(0) + Seq::<GameEvent>::empty());
            }
        }

        // Shape of the event log after the area phase: only death records,
        // closed by one attack record when the attack fired.
        proof {
            assert(damage_dealt == spec_area_fires(t0, ms0, elapsed as int));
            assert(forall|k: int|
                ev0.len() <= k < events@.len() ==> #[trigger] events@[k] == GameEvent::MonsterDied
                    || events@[k] == GameEvent::AttackFired);
            assert(damage_dealt ==> events@.len() > ev0.len() && events@[events@.len() - 1]
                == GameEvent::AttackFired);
            assert(!damage_dealt ==> forall|k: int|
                ev0.len() <= k < events@.len() ==> #[trigger] events@[k]
                    == GameEvent::MonsterDied);
        }
        let ghost ev_area = events@;
        let ghost gp_area = gold_piles@;
        let ghost mid = spec_area_monsters(t0, ms0, elapsed as int);
        let ghost kills = spec_area_kills(t0, ms0, elapsed as int);
        proof {
            assert(piles_dropped_for(
                kills,
                gp_area.subrange(gp0.len() as int, gp_area.len() as int),
            ));
            assert(ev_area == ev0 + death_records(kills.len() as int) + if damage_dealt {
                seq![GameEvent::AttackFired]
            } else {
                Seq::<GameEvent>::empty()
            });
        }

        let is_ninja = match self.kind {
            TowerType::Basic => false,
            TowerType::Ninja => true,
        };
        let mut strong_dealt = false;
        let ghost mut sidx: int = 0;
        if is_ninja && self.strong_attack_cooldown == 0 && monsters.len() > 0 {
            strong_dealt = true;
            let idx = rand_below(monsters.len());
            proof {
                sidx = idx as int;
            }
            let m = monsters[idx];
            let ghost gp_pre = gold_piles@;
            let mut mm = m;
            mm.recieve_damage(NINJA_STRONG_DAMAGE, gold_piles, events);
            monsters.set(idx, mm);
            events.push(GameEvent::StrongAttackFired);
            self.strong_attack_cooldown = NINJA_STRONG_PERIOD;
            proof {
                assert(monsters@ =~= mid.update(
                    idx as int,
                    spec_receive_damage(mid[idx as int], NINJA_STRONG_DAMAGE as int),
                ));
                if spec_dies(mid[idx as int], NINJA_STRONG_DAMAGE as int) {
                    assert forall|k: int| 0 <= k < gp_pre.len() implies #[trigger] gold_piles@[k]
                        == gp_pre[k] by {
                        assert(gold_piles@.drop_last()[k] == gp_pre[k]);
                    }
                    assert(pile_wf(gold_piles@[gold_piles@.len() - 1]));
                    assert(gold_piles@.subrange(gp0.len() as int, gold_piles@.len() as int)
                        =~= gp_area.subrange(gp0.len() as int, gp_area.len() as int).push(
                        gold_piles@.last(),
                    ));
                    lemma_piles_dropped_push(
                        kills,
                        gp_area.subrange(gp0.len() as int, gp_area.len() as int),
                        mid[idx as int],
                        gold_piles@.last(),
                    );
                    assert(events@ =~= ev_area + seq![GameEvent::MonsterDied] + seq![
                        GameEvent::StrongAttackFired,
                    ]);
                } else {
                    assert(gold_piles@ == gp_area);
                    assert(events@ =~= ev_area + Seq::<GameEvent>::empty() + seq![
                        GameEvent::StrongAttackFired,
                    ]);
                }
                assert(gp0.is_prefix_of(gold_piles@)) by {
                    assert(gold_piles@.subrange(0, gp0.len() as int) =~= gp0);
                }
                assert(ev0.is_prefix_of(events@)) by {
                    assert(events@.subrange(0, ev0.len() as int) =~= ev0);
                }
            }
        }
        proof {
            assert(strong_dealt == spec_strong_fires(t0, ms0.len() as int, elapsed as int));
            lemma_update_event_shape(ev0, ev_area, events@, damage_dealt, strong_dealt);
            lemma_area_monsters_pointwise(t0, ms0, elapsed as int);
            if strong_dealt {
                crate::monster::lemma_receive_damage_props(
                    mid[sidx],
                    NINJA_STRONG_DAMAGE as int,
                );
            }
            assert forall|k: int| 0 <= k < ms0.len() implies damaged_monster(
                ms0[k],
                #[trigger] monsters@[k],
            ) && monster_wf(monsters@[k]) by {
                if strong_dealt && k == sidx {
                    assert(monsters@[k] == spec_receive_damage(
                        mid[sidx],
                        NINJA_STRONG_DAMAGE as int,
                    ));
                } else {
                    assert(monsters@[k] == mid[k]);
                }
            }
            if strong_dealt {
                let sdies = spec_dies(mid[sidx], NINJA_STRONG_DAMAGE as int);
                let kills_total = if sdies {
                    kills.push(mid[sidx])
                } else {
                    kills
                };
                assert({
                    &&& 0 <= sidx < mid.len()
                    &&& monsters@ == mid.update(
                        sidx,
                        spec_receive_damage(mid[sidx], NINJA_STRONG_DAMAGE as int),
                    )
                    &&& events@ == ev_area + (if sdies {
                        seq![GameEvent::MonsterDied]
                    } else {
                        Seq::<GameEvent>::empty()
                    }) + seq![GameEvent::StrongAttackFired]
                    &&& piles_dropped_for(
                        kills_total,
                        gold_piles@.subrange(gp0.len() as int, gold_piles@.len() as int),
                    )
                });
            }
            assert(tower_step_rel(
                t0,
                *self,
                ms0,
                monsters@,
                gp0,
                gold_piles@,
                ev0,
                events@,
                elapsed as int,
            ));
        }
    }
}

/// The event log of one tower tick, split at the end of the area phase, has
/// the announced shape: the appended records name only deaths and the two
/// attack sounds, and each attack sound appears exactly when its attack fired.
proof fn lemma_update_event_shape(
    ev0: Seq<GameEvent>,
    ev_area: Seq<GameEvent>,
    evf: Seq<GameEvent>,
    fired: bool,
    strong: bool,
)
    requires
        ev0.len() <= ev_area.len() <= evf.len(),
        forall|k: int|
            ev0.len() <= k < ev_area.len() ==> #[trigger] ev_area[k] == GameEvent::MonsterDied
                || ev_area[k] == GameEvent::AttackFired,
        fired ==> ev_area.len() > ev0.len() && ev_area[ev_area.len() - 1]
            == GameEvent::AttackFired,
        !fired ==> forall|k: int|
            ev0.len() <= k < ev_area.len() ==> #[trigger] ev_area[k] == GameEvent::MonsterDied,
        forall|k: int| 0 <= k < ev_area.len() ==> #[trigger] evf[k] == ev_area[k],
        forall|k: int|
            ev_area.len() <= k < evf.len() ==> #[trigger] evf[k] == GameEvent::MonsterDied
                || evf[k] == GameEvent::StrongAttackFired,
        strong ==> evf.len() > ev_area.len() && evf[evf.len() - 1]
            == GameEvent::StrongAttackFired,
        !strong ==> evf.len() == ev_area.len(),
    ensures
        ({
            let appended = evf.subrange(ev0.len() as int, evf.len() as int);
            &&& forall|k: int|
                0 <= k < appended.len() ==> (#[trigger] appended[k] == GameEvent::MonsterDied
                    || appended[k] == GameEvent::AttackFired || appended[k]
                    == GameEvent::StrongAttackFired)
            &&& (fired <==> appended.contains(GameEvent::AttackFired))
            &&& (strong <==> appended.contains(GameEvent::StrongAttackFired))
        }),
{
    let lo = ev0.len() as int;
    let appended = evf.subrange(lo, evf.len() as int);
    assert(forall|k: int| 0 <= k < appended.len() ==> #[trigger] appended[k] == evf[lo + k]);
    if fired {
        assert(appended[ev_area.len() - 1 - lo] == GameEvent::AttackFired);
        assert(appended.contains(GameEvent::AttackFired));
    } else {
        assert(forall|k: int| 0 <= k < appended.len() ==> #[trigger] appended[k]
            != GameEvent::AttackFired);
    }
    if strong {
        assert(appended[evf.len() - 1 - lo] == GameEvent::StrongAttackFired);
        assert(appended.contains(GameEvent::StrongAttackFired));
    } else {
        assert(forall|k: int| 0 <= k < appended.len() ==> #[trigger] appended[k]
            != GameEvent::StrongAttackFired);
    }
}

/// The cooldown discipline of a tower tick: after any update with positive
/// elapsed time the area cooldown is never negative, and it reads the full
/// period exactly when it had reached zero and the attack hit at least one
/// monster.
pub proof fn lemma_cooldown_reset_discipline(t: Tower, ms: Seq<Monster>, elapsed: int)
    requires
        tower_wf(t),
        0 < elapsed,
    ensures
        spec_cooldown_after(t.attack_cooldown as int, elapsed) >= 0,
        ({
            let after = if spec_area_fires(t, ms, elapsed) {
                attack_period(t.kind)
            } else {
                spec_cooldown_after(t.attack_cooldown as int, elapsed)
            };
            after == attack_period(t.kind) <==> spec_area_fires(t, ms, elapsed)
        }),
{
}

} // verus!
