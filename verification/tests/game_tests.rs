use tower_of_derp::board::Board;
use tower_of_derp::events::GameEvent;
use tower_of_derp::game::Game;
use tower_of_derp::geometry::Point;
use tower_of_derp::gold::GoldPile;
use tower_of_derp::monster::{MonsterState, MonsterType};
use tower_of_derp::monster_spawner::MonsterSpawner;
use tower_of_derp::tower::TowerType;

#[test]
fn fresh_session() {
    let g = Game::new();
    assert_eq!(g.player.health, 100);
    assert_eq!(g.player.gold, 300);
    assert_eq!(g.monster_spawner.spawn_schedule.len(), 10);
    assert_eq!(g.monster_spawner.spawn_schedule[0], (MonsterType::Chicken, 0));
    assert_eq!(g.monster_spawner.spawn_schedule[9], (MonsterType::CoolChicken, 14_000));
    assert_eq!(g.board.path_blocks.len(), 49);
}

#[test]
fn single_entry_schedule_spawns_one_chicken() {
    // Spawn schedule [(Chicken, 0)]: after one 100 ms tick exactly one
    // chicken walks near the first waypoint.
    let mut g = Game {
        player: tower_of_derp::player::Player::new(),
        monster_spawner: MonsterSpawner {
            spawn_schedule: vec![(MonsterType::Chicken, 0)],
            elapsed_time: 0,
        },
        board: Board::generate(0, 0),
    };
    let mut events: Vec<GameEvent> = Vec::new();
    g.update(100, &mut events);
    assert_eq!(g.board.monsters.len(), 1);
    let m = g.board.monsters[0];
    assert_eq!(m.kind, MonsterType::Chicken);
    assert_eq!(m.state, MonsterState::Walking);
    // The monster spawns at the origin and has moved toward the first
    // waypoint's goal point (7500, 7500) without reaching it.
    assert_eq!(m.position, Point { x: 7071, y: 7071 });
    assert!(g.monster_spawner.spawn_schedule.is_empty());
    assert_eq!(g.monster_spawner.elapsed_time, 100);
    assert!(events.is_empty());
}

#[test]
fn schedule_entry_at_tick_boundary_waits() {
    // Due means strictly before the accumulated clock: an entry at exactly
    // the clock does not spawn yet.
    let mut g = Game {
        player: tower_of_derp::player::Player::new(),
        monster_spawner: MonsterSpawner {
            spawn_schedule: vec![(MonsterType::Chicken, 100)],
            elapsed_time: 0,
        },
        board: Board::generate(0, 0),
    };
    let mut events: Vec<GameEvent> = Vec::new();
    g.update(100, &mut events);
    assert!(g.board.monsters.is_empty());
    assert_eq!(g.monster_spawner.spawn_schedule.len(), 1);
    g.update(1, &mut events);
    assert_eq!(g.board.monsters.len(), 1);
}

#[test]
fn spawner_consumes_due_prefix() {
    let mut spawner = MonsterSpawner::new();
    let mut board = Board::generate(0, 0);
    spawner.update(5500, &mut board);
    // Entries at 0, 3000 and 5000 are strictly before the clock 5500.
    assert_eq!(board.monsters.len(), 3);
    assert_eq!(spawner.spawn_schedule.len(), 7);
    assert_eq!(spawner.spawn_schedule[0], (MonsterType::Chicken, 7000));
    assert_eq!(spawner.elapsed_time, 5500);
}

#[test]
fn placement_rejected_without_funds() {
    // Player has 5 gold; a basic tower costs 10: the command fails and
    // changes nothing.
    let mut g = Game::new();
    g.player.gold = 5;
    let tile_pos = Point { x: 10 * 35_000 + 100, y: 2 * 35_000 + 100 };
    let ok = g.try_place_tower(TowerType::Basic, tile_pos);
    assert!(!ok);
    assert_eq!(g.player.gold, 5);
    assert_eq!(g.board.towers.len(), 0);
}

#[test]
fn placement_rejected_on_path() {
    let mut g = Game::new();
    let on_path = Point { x: 100, y: 100 };
    let ok = g.try_place_tower(TowerType::Basic, on_path);
    assert!(!ok);
    assert_eq!(g.player.gold, 300);
    assert!(g.board.towers.is_empty());
}

#[test]
fn placement_deducts_cost_and_occupies() {
    let mut g = Game::new();
    let tile_pos = Point { x: 10 * 35_000 + 100, y: 2 * 35_000 + 100 };
    assert!(g.try_place_tower(TowerType::Basic, tile_pos));
    assert_eq!(g.player.gold, 290);
    assert_eq!(g.board.towers.len(), 1);
    assert_eq!(g.board.towers[0].position, Point { x: 10, y: 2 });
    // The tile is now occupied: placing again there fails.
    assert!(!g.try_place_tower(TowerType::Ninja, tile_pos));
    assert_eq!(g.player.gold, 290);
    // A ninja tower elsewhere costs 20.
    let other = Point { x: 12 * 35_000 + 100, y: 2 * 35_000 + 100 };
    assert!(g.try_place_tower(TowerType::Ninja, other));
    assert_eq!(g.player.gold, 270);
    assert_eq!(g.board.towers.len(), 2);
}

#[test]
fn pickup_within_radius_collects() {
    let mut g = Game::new();
    g.board.gold_piles.push(GoldPile { position: Point { x: 70_000, y: 70_000 }, value: 10 });
    let mut events: Vec<GameEvent> = Vec::new();
    // The pile's center is its anchor plus 17.5 px on each axis; a pointer
    // 5 px away collects it.
    let pointer = Point { x: 70_000 + 17_500 + 5_000, y: 70_000 + 17_500 };
    g.collect_gold(pointer, &mut events);
    assert!(g.board.gold_piles.is_empty());
    assert_eq!(g.player.gold, 310);
    assert_eq!(events, vec![GameEvent::GoldCollected]);
}

#[test]
fn pickup_outside_radius_leaves_pile() {
    let mut g = Game::new();
    g.board.gold_piles.push(GoldPile { position: Point { x: 70_000, y: 70_000 }, value: 10 });
    let mut events: Vec<GameEvent> = Vec::new();
    // Exactly 20 px away: the strict comparison leaves the pile.
    let pointer = Point { x: 70_000 + 17_500 + 20_000, y: 70_000 + 17_500 };
    g.collect_gold(pointer, &mut events);
    assert_eq!(g.board.gold_piles.len(), 1);
    assert_eq!(g.player.gold, 300);
    assert!(events.is_empty());
}

#[test]
fn tick_reaps_dead_monsters() {
    let mut g = Game::new();
    let mut dead = tower_of_derp::monster::Monster::new_chicken();
    dead.state = MonsterState::Dead;
    dead.health = 0;
    g.board.monsters.push(dead);
    g.board.monsters.push(tower_of_derp::monster::Monster::new_chicken());
    g.monster_spawner.spawn_schedule = Vec::new();
    let mut events: Vec<GameEvent> = Vec::new();
    g.update(1, &mut events);
    assert_eq!(g.board.monsters.len(), 1);
    assert_eq!(g.board.monsters[0].state, MonsterState::Walking);
}

#[test]
fn attacking_monster_hits_player_once() {
    let mut g = Game::new();
    let mut m = tower_of_derp::monster::Monster::new_chicken();
    m.state = MonsterState::Attacking;
    m.move_goal = 49;
    g.board.monsters.push(m);
    g.monster_spawner.spawn_schedule = Vec::new();
    let mut events: Vec<GameEvent> = Vec::new();
    g.update(1, &mut events);
    assert_eq!(g.player.health, 99);
    // The attacker died with its hit and was reaped.
    assert!(g.board.monsters.is_empty());
    g.update(1, &mut events);
    assert_eq!(g.player.health, 99);
}

#[test]
fn tower_kill_through_full_tick() {
    // A tower in range of a weakened monster: one tick kills it, drops one
    // pile, and reports both the attack and the death; the reap removes it
    // the next tick.
    let mut g = Game::new();
    g.monster_spawner.spawn_schedule = Vec::new();
    let tile_pos = Point { x: 4 * 35_000 + 100, y: 0 * 35_000 + 100 };
    assert!(g.try_place_tower(TowerType::Basic, tile_pos));
    let mut m = tower_of_derp::monster::Monster::new_chicken();
    m.health = 10;
    // Stand the monster's center exactly on the tower center.
    m.position = Point { x: 4 * 35_000 + 17_500 - 10_000, y: 0 * 35_000 + 17_500 - 10_000 };
    // Keep it there: its goal tile is far, but one short tick barely moves it.
    g.board.monsters.push(m);
    let mut events: Vec<GameEvent> = Vec::new();
    g.update(1, &mut events);
    assert_eq!(g.board.monsters.len(), 1);
    assert_eq!(g.board.monsters[0].state, MonsterState::Dead);
    assert_eq!(g.board.gold_piles.len(), 1);
    assert_eq!(g.board.gold_piles[0].value, 10);
    assert_eq!(events, vec![GameEvent::MonsterDied, GameEvent::AttackFired]);
    assert_eq!(g.player.gold, 290);
}
