use tower_of_derp::board::Board;
use tower_of_derp::geometry::Point;
use tower_of_derp::tower::{Tower, TowerType};

fn check_towers_in_order(towers: &Vec<Tower>) -> bool {
    for i in 0..towers.len() - 1 {
        if towers[i].get_block_position().y > towers[i + 1].get_block_position().y {
            return false;
        }
    }
    return true;
}

fn fill_tower_positions(board: &mut Board, tower_y_positions: Vec<i64>) {
    for y in tower_y_positions {
        board.add_tower(Tower::new(TowerType::Basic, Point { x: 0, y }));
    }
}

#[test]
fn tower_order_0_1_2() {
    let mut board = Board::generate(0, 0);
    assert_eq!(board.towers.len(), 0);

    fill_tower_positions(&mut board, vec![0, 1, 2]);
    assert_eq!(board.towers.len(), 3);

    // Check sorted on y position.
    assert!(check_towers_in_order(&board.towers));
}

#[test]
fn tower_order_2_1_0() {
    let mut board = Board::generate(0, 0);
    assert_eq!(board.towers.len(), 0);

    fill_tower_positions(&mut board, vec![2, 1, 0]);
    assert_eq!(board.towers.len(), 3);

    // Check sorted on y position.
    assert!(check_towers_in_order(&board.towers));
}

#[test]
fn tower_order_2_0_1() {
    let mut board = Board::generate(0, 0);
    assert_eq!(board.towers.len(), 0);

    fill_tower_positions(&mut board, vec![2, 0, 1]);
    assert_eq!(board.towers.len(), 3);

    // Check sorted on y position.
    assert!(check_towers_in_order(&board.towers));
}

#[test]
fn tower_order_exact_positions() {
    let mut board = Board::generate(0, 0);
    fill_tower_positions(&mut board, vec![2, 0, 1]);
    assert_eq!(board.towers[0].position, Point { x: 0, y: 0 });
    assert_eq!(board.towers[1].position, Point { x: 0, y: 1 });
    assert_eq!(board.towers[2].position, Point { x: 0, y: 2 });
}

#[test]
fn equal_rows_insert_before_existing() {
    // A new tower with the same row lands before the towers already there.
    let mut board = Board::generate(0, 0);
    board.add_tower(Tower::new(TowerType::Basic, Point { x: 1, y: 4 }));
    board.add_tower(Tower::new(TowerType::Ninja, Point { x: 2, y: 4 }));
    assert_eq!(board.towers[0].position, Point { x: 2, y: 4 });
    assert_eq!(board.towers[0].kind, TowerType::Ninja);
    assert_eq!(board.towers[1].position, Point { x: 1, y: 4 });
}

#[test]
fn default_path_shape() {
    let board = Board::generate(1, 2);
    assert_eq!(board.path_blocks.len(), 49);
    assert_eq!(board.path_blocks[0].position, Point { x: 0, y: 0 });
    assert_eq!(board.path_blocks[48].position, Point { x: 2, y: 9 });
    assert_eq!(board.base.position, Point { x: 0, y: 8 });
    assert!(board.monsters.is_empty());
    assert!(board.gold_piles.is_empty());
}

#[test]
fn occupied_path_tile() {
    let board = Board::generate(0, 0);
    // A pixel point inside path tile (2, 4).
    let p = Point {
        x: 2 * 35_000 + 10,
        y: 4 * 35_000 + 34_999,
    };
    assert!(board.position_is_occupied(p));
}

#[test]
fn occupied_tower_tile() {
    let mut board = Board::generate(0, 0);
    board.add_tower(Tower::new(TowerType::Basic, Point { x: 10, y: 2 }));
    let p = Point {
        x: 10 * 35_000 + 17_500,
        y: 2 * 35_000 + 17_500,
    };
    assert!(board.position_is_occupied(p));
}

#[test]
fn occupied_base_footprint() {
    let board = Board::generate(0, 0);
    // The base sits at tile (0, 8); a point just inside its padded square.
    let p = Point { x: 100, y: 8 * 35_000 + 100 };
    assert!(board.position_is_occupied(p));
}

#[test]
fn empty_tile_not_occupied() {
    let board = Board::generate(0, 0);
    // Tile (10, 2) carries no tower, no path block, and is far from the base.
    let p = Point {
        x: 10 * 35_000 + 17_500,
        y: 2 * 35_000 + 17_500,
    };
    assert!(!board.position_is_occupied(p));
}
