//! The monster spawner: a chronological schedule of monsters to put on the
//! board as game time passes.

use vstd::prelude::*;
use crate::board::{board_wf, Board};
use crate::monster::{spec_new_monster, Monster, MonsterType, ELAPSED_LIMIT};

verus! {

/// Saturating addition on the spawner's clock scale.
pub open spec fn sat_add(a: int, b: int) -> int {
    if a + b > i64::MAX {
        i64::MAX as int
    } else {
        a + b
    }
}

/// The schedule's entries come in chronological order.
pub open spec fn schedule_sorted(s: Seq<(MonsterType, i64)>) -> bool {
    forall|i: int, j: int| 0 <= i < j < s.len() ==> (#[trigger] s[i]).1 <= (#[trigger] s[j]).1
}

/// Well-formedness of a spawner: a nonnegative clock and a chronological
/// schedule.
pub open spec fn spawner_wf(s: MonsterSpawner) -> bool {
    &&& 0 <= s.elapsed_time
    &&& schedule_sorted(s.spawn_schedule@)
}

/// One spawner tick relates the spawner and monster collection before and
/// after: the clock advances by `elapsed`; the schedule loses exactly its due
/// prefix (every entry strictly before the new clock, scanning from the
/// front); and one fresh monster of the scheduled variant joins the
/// collection for each removed entry, in schedule order.
pub open spec fn spawner_step(
    s0: MonsterSpawner,
    s1: MonsterSpawner,
    ms0: Seq<Monster>,
    ms1: Seq<Monster>,
    elapsed: int,
) -> bool {
    let now = sat_add(s0.elapsed_time as int, elapsed);
    &&& s1.elapsed_time == now
    &&& exists|k: int|
        {
            &&& 0 <= k <= s0.spawn_schedule@.len()
            &&& forall|i: int| 0 <= i < k ==> (#[trigger] s0.spawn_schedule@[i]).1 < now
            &&& (k < s0.spawn_schedule@.len() ==> s0.spawn_schedule@[k as int].1 >= now)
            &&& s1.spawn_schedule@ == s0.spawn_schedule@.skip(k)
            &&& ms1 == ms0 + Seq::new(
                k as nat,
                |i: int| spec_new_monster(s0.spawn_schedule@[i].0),
            )
        }
}

/// A time-ordered schedule of monsters to spawn, plus the accumulated game
/// clock. Each entry holds a variant and the clock offset (milliseconds) at
/// which it becomes due.
pub struct MonsterSpawner {
    pub spawn_schedule: Vec<(MonsterType, i64)>,
    pub elapsed_time: i64,
}

/// The schedule a fresh session starts with.
pub open spec fn spec_default_schedule() -> Seq<(MonsterType, i64)> {
    seq![
        (MonsterType::Chicken, 0i64),
        (MonsterType::Chicken, 3000i64),
        (MonsterType::Chicken, 5000i64),
        (MonsterType::Chicken, 7000i64),
        (MonsterType::Chicken, 8000i64),
        (MonsterType::Chicken, 8500i64),
        (MonsterType::Chicken, 8600i64),
        (MonsterType::Chicken, 8700i64),
        (MonsterType::Chicken, 8800i64),
        (MonsterType::CoolChicken, 14000i64),
    ]
}

impl MonsterSpawner {
    /// A fresh spawner holding the default schedule with the clock at zero.
    pub fn new() -> (s: MonsterSpawner)
        ensures
            s.spawn_schedule@ == spec_default_schedule(),
            s.elapsed_time == 0,
            spawner_wf(s),
    {
        let mut spawn_schedule: Vec<(MonsterType, i64)> = Vec::new();
        spawn_schedule.push((MonsterType::Chicken, 0));
        spawn_schedule.push((MonsterType::Chicken, 3000));
        spawn_schedule.push((MonsterType::Chicken, 5000));
        spawn_schedule.push((MonsterType::Chicken, 7000));
        spawn_schedule.push((MonsterType::Chicken, 8000));
        spawn_schedule.push((MonsterType::Chicken, 8500));
        spawn_schedule.push((MonsterType::Chicken, 8600));
        spawn_schedule.push((MonsterType::Chicken, 8700));
        spawn_schedule.push((MonsterType::Chicken, 8800));
        spawn_schedule.push((MonsterType::CoolChicken, 14000));
        proof {
            assert(spawn_schedule@ =~= spec_default_schedule());
        }
        MonsterSpawner { spawn_schedule, elapsed_time: 0 }
    }

    /// One spawner tick: accumulate the clock (saturating at the numeric
    /// ceiling), instantiate one monster for every schedule entry whose time
    /// lies strictly before the new clock, scanning from the front and
    /// stopping at the first entry not yet due, and drop those entries.
    /// Nothing else of the board changes.
    pub fn update(&mut self, elapsed: i64, board: &mut Board)
        requires
            0 <= elapsed <= ELAPSED_LIMIT,
            spawner_wf(*old(self)),
            board_wf(*old(board)),
        ensures
            spawner_step(
                *old(self),
                *final(self),
                old(board).monsters@,
                final(board).monsters@,
                elapsed as int,
            ),
            final(board).monsters@.len() >= old(board).monsters@.len(),
            final(board).path_blocks == old(board).path_blocks,
            final(board).towers == old(board).towers,
            final(board).gold_piles == old(board).gold_piles,
            final(board).base == old(board).base,
            spawner_wf(*final(self)),
            board_wf(*final(board)),
    {
        let ghost s0 = *old(self);
        let ghost ms0 = board.monsters@;

        self.elapsed_time = match self.elapsed_time.checked_add(elapsed) {
            Some(t) => t,
            None => i64::MAX,
        };
        let now = self.elapsed_time;

        let n = self.spawn_schedule.len();
        let mut i: usize = 0;
        while i < n && self.spawn_schedule[i].1 < now
            invariant
                0 <= i <= n,
                n == self.spawn_schedule@.len(),
                self.spawn_schedule@ == s0.spawn_schedule@,
                now == sat_add(s0.elapsed_time as int, elapsed as int),
                forall|k: int| 0 <= k < i ==> (#[trigger] s0.spawn_schedule@[k]).1 < now,
                board.monsters@ == ms0 + Seq::new(
                    i as nat,
                    |j: int| spec_new_monster(s0.spawn_schedule@[j].0),
                ),
                board.path_blocks == old(board).path_blocks,
                board.towers == old(board).towers,
                board.gold_piles == old(board).gold_piles,
                board.base == old(board).base,
                board_wf(*board),
            decreases n - i,
        {
            let entry = self.spawn_schedule[i];
            let m = match entry.0 {
                MonsterType::Chicken => Monster::new_chicken(),
                MonsterType::CoolChicken => Monster::new_cool_chicken(),
            };
            board.monsters.push(m);
            proof {
                assert(board.monsters@ =~= ms0 + Seq::new(
                    (i + 1) as nat,
                    |j: int| spec_new_monster(s0.spawn_schedule@[j].0),
                ));
            }
            i = i + 1;
        }
        let rest = self.spawn_schedule.split_off(i);
        self.spawn_schedule = rest;
        proof {
            assert(self.spawn_schedule@ =~= s0.spawn_schedule@.skip(i as int));
            assert(spawner_step(s0, *self, ms0, board.monsters@, elapsed as int)) by {
                let k = i as int;
                assert(0 <= k <= s0.spawn_schedule@.len());
                assert(self.spawn_schedule@ == s0.spawn_schedule@.skip(k));
            }
            assert(schedule_sorted(self.spawn_schedule@)) by {
                assert(forall|a: int, b: int|
                    0 <= a < b < self.spawn_schedule@.len() ==> (#[trigger] self.spawn_schedule@[a]).1
                        <= (#[trigger] self.spawn_schedule@[b]).1) by {
                    assert(forall|a: int|
                        0 <= a < self.spawn_schedule@.len() ==> #[trigger] self.spawn_schedule@[a]
                            == s0.spawn_schedule@[a + i]);
                }
            }
        }
    }
}

} // verus!
