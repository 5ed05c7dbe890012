use tower_of_derp::events::GameEvent;
use tower_of_derp::geometry::Point;
use tower_of_derp::gold::GoldPile;
use tower_of_derp::monster::{Monster, MonsterState};
use tower_of_derp::tower::{Tower, TowerType};

#[test]
fn fresh_towers() {
    let b = Tower::new(TowerType::Basic, Point { x: 2, y: 5 });
    assert_eq!(b.attack_cooldown, 0);
    assert_eq!(b.strong_attack_cooldown, 0);
    let n = Tower::new(TowerType::Ninja, Point { x: 2, y: 5 });
    assert_eq!(n.attack_cooldown, 2000);
    assert_eq!(n.strong_attack_cooldown, 5000);
}

#[test]
fn center_is_tile_center() {
    let t = Tower::new(TowerType::Basic, Point { x: 2, y: 5 });
    assert_eq!(t.get_center_pos_abs(), Point { x: 87_500, y: 192_500 });
}

#[test]
fn range_test_is_strict() {
    let t = Tower::new(TowerType::Basic, Point { x: 0, y: 0 });
    let center = t.get_center_pos_abs();
    // Exactly on the center: distance 0, inside.
    assert!(t.position_is_in_attack_range(center));
    // 100 px straight out: squared distance equals the squared range, and the
    // comparison is strict, so this is outside.
    assert!(!t.position_is_in_attack_range(Point { x: center.x + 100_000, y: center.y }));
    assert!(t.position_is_in_attack_range(Point { x: center.x + 99_999, y: center.y }));
}

#[test]
fn zero_cooldown_attack_hits_and_resets() {
    // A basic tower at grid (2, 5) and a monster whose center sits exactly on
    // the tower center: one tick with the cooldown at zero deals the fixed
    // damage and resets the cooldown to the full period.
    let mut t = Tower::new(TowerType::Basic, Point { x: 2, y: 5 });
    let mut m = Monster::new_chicken();
    m.position = Point { x: 87_500 - 10_000, y: 192_500 - 10_000 };
    let mut monsters = vec![m];
    let mut piles: Vec<GoldPile> = Vec::new();
    let mut events: Vec<GameEvent> = Vec::new();
    t.update(16, &mut monsters, &mut piles, &mut events);
    assert_eq!(monsters[0].health, 90);
    assert_eq!(t.attack_cooldown, 1000);
    assert_eq!(events, vec![GameEvent::AttackFired]);
    assert!(piles.is_empty());
}

#[test]
fn cooldown_counts_down_and_clamps() {
    let mut t = Tower::new(TowerType::Basic, Point { x: 2, y: 5 });
    t.attack_cooldown = 1000;
    let mut monsters: Vec<Monster> = Vec::new();
    let mut piles: Vec<GoldPile> = Vec::new();
    let mut events: Vec<GameEvent> = Vec::new();
    t.update(300, &mut monsters, &mut piles, &mut events);
    assert_eq!(t.attack_cooldown, 700);
    t.update(5000, &mut monsters, &mut piles, &mut events);
    // Clamped at zero, never negative, and with nobody in range it stays at
    // zero instead of resetting.
    assert_eq!(t.attack_cooldown, 0);
    t.update(100, &mut monsters, &mut piles, &mut events);
    assert_eq!(t.attack_cooldown, 0);
    assert!(events.is_empty());
}

#[test]
fn no_reset_without_target() {
    let mut t = Tower::new(TowerType::Basic, Point { x: 2, y: 5 });
    // A monster well out of range: the attack does not fire and the cooldown
    // stays at zero for the next tick.
    let mut m = Monster::new_chicken();
    m.position = Point { x: 500_000, y: 500_000 };
    let mut monsters = vec![m];
    let mut piles: Vec<GoldPile> = Vec::new();
    let mut events: Vec<GameEvent> = Vec::new();
    t.update(16, &mut monsters, &mut piles, &mut events);
    assert_eq!(t.attack_cooldown, 0);
    assert_eq!(monsters[0].health, 100);
    assert!(events.is_empty());
}

#[test]
fn area_attack_hits_all_in_range() {
    let mut t = Tower::new(TowerType::Basic, Point { x: 0, y: 0 });
    let center = t.get_center_pos_abs();
    let mut near1 = Monster::new_chicken();
    near1.position = Point { x: center.x - 10_000, y: center.y - 10_000 };
    let mut near2 = Monster::new_chicken();
    near2.position = Point { x: center.x - 10_000 + 50_000, y: center.y - 10_000 };
    let mut far = Monster::new_chicken();
    far.position = Point { x: center.x + 200_000, y: center.y };
    let mut monsters = vec![near1, near2, far];
    let mut piles: Vec<GoldPile> = Vec::new();
    let mut events: Vec<GameEvent> = Vec::new();
    t.update(16, &mut monsters, &mut piles, &mut events);
    assert_eq!(monsters[0].health, 90);
    assert_eq!(monsters[1].health, 90);
    assert_eq!(monsters[2].health, 100);
}

#[test]
fn strong_attack_fells_its_target() {
    // A ninja tower whose strong cooldown has run out kills the one monster
    // on the board, wherever it stands; range deliberately does not matter.
    let mut t = Tower::new(TowerType::Ninja, Point { x: 0, y: 0 });
    t.attack_cooldown = 500;
    t.strong_attack_cooldown = 0;
    let mut m = Monster::new_chicken();
    m.position = Point { x: 500_000, y: 500_000 };
    let mut monsters = vec![m];
    let mut piles: Vec<GoldPile> = Vec::new();
    let mut events: Vec<GameEvent> = Vec::new();
    t.update(0, &mut monsters, &mut piles, &mut events);
    assert_eq!(monsters[0].state, MonsterState::Dead);
    assert_eq!(monsters[0].health, 100 - 1000);
    assert_eq!(t.strong_attack_cooldown, 10_000);
    assert_eq!(piles.len(), 1);
    assert_eq!(piles[0].value, 10);
    assert_eq!(events, vec![GameEvent::MonsterDied, GameEvent::StrongAttackFired]);
}

#[test]
fn strong_attack_needs_a_monster() {
    let mut t = Tower::new(TowerType::Ninja, Point { x: 0, y: 0 });
    t.strong_attack_cooldown = 0;
    let mut monsters: Vec<Monster> = Vec::new();
    let mut piles: Vec<GoldPile> = Vec::new();
    let mut events: Vec<GameEvent> = Vec::new();
    t.update(0, &mut monsters, &mut piles, &mut events);
    assert_eq!(t.strong_attack_cooldown, 0);
    assert!(events.is_empty());
}
