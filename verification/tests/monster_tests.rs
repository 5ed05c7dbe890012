use tower_of_derp::block::Block;
use tower_of_derp::events::GameEvent;
use tower_of_derp::geometry::Point;
use tower_of_derp::gold::GoldPile;
use tower_of_derp::monster::{Direction, Monster, MonsterState, MonsterType};
use tower_of_derp::player::Player;

fn one_tile_path() -> Vec<Block> {
    vec![Block { position: Point { x: 0, y: 0 } }]
}

#[test]
fn fresh_monster_stats() {
    let m = Monster::new_chicken();
    assert_eq!(m.health, 100);
    assert_eq!(m.speed, 100);
    assert_eq!(m.position, Point { x: 0, y: 0 });
    assert_eq!(m.move_goal, 0);
    assert_eq!(m.state, MonsterState::Walking);
    let c = Monster::new_cool_chicken();
    assert_eq!(c.kind, MonsterType::CoolChicken);
    assert_eq!(c.health, 100);
    let b = Monster::new_basic_monster();
    assert_eq!(b.kind, MonsterType::Chicken);
}

#[test]
fn center_is_offset_by_half_size() {
    let mut m = Monster::new_chicken();
    m.position = Point { x: 1000, y: 2000 };
    let c = m.get_center_pos_abs();
    assert_eq!(c, Point { x: 11_000, y: 12_000 });
}

#[test]
fn walk_moves_toward_first_waypoint() {
    // Starting at the corner (0, 0), the goal point of tile (0, 0) is
    // (7500, 7500); a 100 ms tick at speed 100 covers 10000 units of the
    // 10606-unit diagonal, scaling to 7071 on each axis.
    let mut m = Monster::new_chicken();
    let path = one_tile_path();
    let mut player = Player::new();
    m.update(100, &path, &mut player);
    assert_eq!(m.position, Point { x: 7071, y: 7071 });
    assert_eq!(m.state, MonsterState::Walking);
    assert_eq!(m.move_goal, 0);
    assert_eq!(m.direction, Direction::Right);
    assert_eq!(player.health, 100);
}

#[test]
fn walk_snaps_onto_waypoint_without_overshoot() {
    // A one-second tick covers 100_000 units, far beyond the 10606-unit
    // distance: the monster lands exactly on the goal point and advances.
    let mut m = Monster::new_chicken();
    let path = one_tile_path();
    let mut player = Player::new();
    m.update(1000, &path, &mut player);
    assert_eq!(m.position, Point { x: 7500, y: 7500 });
    assert_eq!(m.move_goal, 1);
    assert_eq!(m.state, MonsterState::Walking);
}

#[test]
fn at_goal_advances_without_moving() {
    let mut m = Monster::new_chicken();
    m.position = Point { x: 7500, y: 7500 };
    let path = one_tile_path();
    let mut player = Player::new();
    m.update(50, &path, &mut player);
    assert_eq!(m.position, Point { x: 7500, y: 7500 });
    assert_eq!(m.move_goal, 1);
}

#[test]
fn end_of_path_turns_to_attack_then_dies() {
    let mut m = Monster::new_chicken();
    m.position = Point { x: 7500, y: 7500 };
    m.move_goal = 1;
    let path = one_tile_path();
    let mut player = Player::new();
    m.update(10, &path, &mut player);
    assert_eq!(m.state, MonsterState::Attacking);
    assert_eq!(player.health, 100);
    // The next tick delivers the single hit and the monster dies.
    m.update(10, &path, &mut player);
    assert_eq!(m.state, MonsterState::Dead);
    assert_eq!(player.health, 99);
    // A dead monster does nothing further.
    m.update(10, &path, &mut player);
    assert_eq!(m.state, MonsterState::Dead);
    assert_eq!(player.health, 99);
}

#[test]
fn lethal_damage_drops_exactly_one_pile() {
    let mut m = Monster::new_chicken();
    m.position = Point { x: 70_000, y: 35_000 };
    m.health = 5;
    let mut piles: Vec<GoldPile> = Vec::new();
    let mut events: Vec<GameEvent> = Vec::new();
    m.recieve_damage(10, &mut piles, &mut events);
    assert_eq!(m.state, MonsterState::Dead);
    assert_eq!(m.health, -5);
    assert_eq!(piles.len(), 1);
    assert_eq!(piles[0].value, 10);
    // The pile lands a jitter offset away from the monster.
    assert!(70_000 - 20_000 <= piles[0].position.x && piles[0].position.x < 70_000 - 10_000);
    assert!(35_000 - 20_000 <= piles[0].position.y && piles[0].position.y < 35_000 - 10_000);
    assert_eq!(events, vec![GameEvent::MonsterDied]);
}

#[test]
fn damage_to_dead_monster_is_noop() {
    let mut m = Monster::new_chicken();
    m.health = 5;
    let mut piles: Vec<GoldPile> = Vec::new();
    let mut events: Vec<GameEvent> = Vec::new();
    m.recieve_damage(10, &mut piles, &mut events);
    let frozen = m;
    m.recieve_damage(1000, &mut piles, &mut events);
    assert_eq!(m, frozen);
    assert_eq!(piles.len(), 1);
    assert_eq!(events.len(), 1);
}

#[test]
fn nonlethal_damage_keeps_walking() {
    let mut m = Monster::new_chicken();
    let mut piles: Vec<GoldPile> = Vec::new();
    let mut events: Vec<GameEvent> = Vec::new();
    m.recieve_damage(30, &mut piles, &mut events);
    assert_eq!(m.health, 70);
    assert_eq!(m.state, MonsterState::Walking);
    assert!(piles.is_empty());
    assert!(events.is_empty());
}

#[test]
fn walking_never_overshoots_goal() {
    // Repeated small ticks strictly shrink the distance to the goal point
    // (7500, 7500) of tile (0, 0) until the monster lands exactly on it.
    let mut m = Monster::new_chicken();
    let path = one_tile_path();
    let mut player = Player::new();
    let mut last_d2 = i64::MAX;
    while m.move_goal == 0 {
        m.update(16, &path, &mut player);
        let dx = 7500 - m.position.x;
        let dy = 7500 - m.position.y;
        let d2 = dx * dx + dy * dy;
        assert!(d2 < last_d2);
        assert!(0 <= m.position.x && m.position.x <= 7500);
        assert!(0 <= m.position.y && m.position.y <= 7500);
        last_d2 = d2;
    }
    assert_eq!(m.position, Point { x: 7500, y: 7500 });
    assert_eq!(m.state, MonsterState::Walking);
}

#[test]
fn step_meeting_distance_exactly_snaps_and_advances() {
    // 100 units left along one axis, speed 100 units/ms, a 1 ms tick: the
    // step meets the remaining distance exactly, so the monster snaps onto
    // the goal and the goal index advances on this very tick.
    let mut m = Monster::new_chicken();
    m.position = Point { x: 7500 - 100, y: 7500 };
    let path = one_tile_path();
    let mut player = Player::new();
    m.update(1, &path, &mut player);
    assert_eq!(m.position, Point { x: 7500, y: 7500 });
    assert_eq!(m.move_goal, 1);
    assert_eq!(m.state, MonsterState::Walking);
}
