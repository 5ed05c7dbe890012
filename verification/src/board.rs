//! The board: path, towers (kept sorted by tile row), monsters, gold piles
//! and the base. The single source of truth for spatial occupancy.

use vstd::prelude::*;
use crate::base::{spec_in_base, Base};
use crate::block::{Block, BLOCK_SIZE};
use crate::geometry::{floor_div, in_tile_range, Point};
use crate::gold::{pile_wf, GoldPile};
use crate::monster::{monster_wf, path_wf, Monster};
use crate::tower::{tower_wf, Tower};

verus! {

/// The towers come in ascending order of their tile row, the order the
/// drawing collaborator layers them in.
pub open spec fn towers_sorted(ts: Seq<Tower>) -> bool {
    forall|i: int, j: int|
        0 <= i < j < ts.len() ==> (#[trigger] ts[i]).position.y <= (#[trigger] ts[j]).position.y
}

/// The grid tile containing a pixel point: coordinates divided by the tile
/// size, rounded toward negative infinity.
pub open spec fn spec_tile_of(p: Point) -> Point {
    Point {
        x: (p.x as int / BLOCK_SIZE as int) as i64,
        y: (p.y as int / BLOCK_SIZE as int) as i64,
    }
}

/// Aggregate of one game's spatial state.
pub struct Board {
    pub path_blocks: Vec<Block>,
    pub towers: Vec<Tower>,
    pub monsters: Vec<Monster>,
    pub gold_piles: Vec<GoldPile>,
    pub base: Base,
}

/// Well-formedness of a board: admitted path tiles, well-formed towers sorted
/// by row, well-formed monsters whose goal indices stay within the path,
/// well-formed piles, and an admitted base tile.
pub open spec fn board_wf(b: Board) -> bool {
    &&& path_wf(b.path_blocks@)
    &&& forall|i: int| 0 <= i < b.towers@.len() ==> tower_wf(#[trigger] b.towers@[i])
    &&& towers_sorted(b.towers@)
    &&& forall|i: int|
        0 <= i < b.monsters@.len() ==> monster_wf(#[trigger] b.monsters@[i])
            && b.monsters@[i].move_goal <= b.path_blocks@.len()
    &&& forall|i: int| 0 <= i < b.gold_piles@.len() ==> pile_wf(#[trigger] b.gold_piles@[i])
    &&& in_tile_range(b.base.position)
}

/// A pixel point is occupied: its tile carries a tower or a path block, or
/// the point falls within the base's padded footprint.
pub open spec fn spec_occupied(b: Board, p: Point) -> bool {
    ||| exists|i: int| 0 <= i < b.towers@.len() && (#[trigger] b.towers@[i]).position == spec_tile_of(p)
    ||| exists|i: int|
        0 <= i < b.path_blocks@.len() && (#[trigger] b.path_blocks@[i]).position == spec_tile_of(p)
    ||| spec_in_base(b.base, p)
}

/// The authored path of the default board, from the spawn tile to the base.
pub open spec fn spec_default_path() -> Seq<Block> {
    seq![
        Block { position: Point { x: 0, y: 0 } },
        Block { position: Point { x: 0, y: 1 } },
        Block { position: Point { x: 0, y: 2 } },
        Block { position: Point { x: 1, y: 2 } },
        Block { position: Point { x: 2, y: 2 } },
        Block { position: Point { x: 2, y: 3 } },
        Block { position: Point { x: 2, y: 3 } },
        Block { position: Point { x: 2, y: 4 } },
        Block { position: Point { x: 2, y: 5 } },
        Block { position: Point { x: 3, y: 5 } },
        Block { position: Point { x: 4, y: 5 } },
        Block { position: Point { x: 5, y: 5 } },
        Block { position: Point { x: 6, y: 5 } },
        Block { position: Point { x: 7, y: 5 } },
        Block { position: Point { x: 8, y: 5 } },
        Block { position: Point { x: 9, y: 5 } },
        Block { position: Point { x: 10, y: 5 } },
        Block { position: Point { x: 11, y: 5 } },
        Block { position: Point { x: 12, y: 5 } },
        Block { position: Point { x: 13, y: 5 } },
        Block { position: Point { x: 14, y: 5 } },
        Block { position: Point { x: 15, y: 5 } },
        Block { position: Point { x: 16, y: 5 } },
        Block { position: Point { x: 17, y: 5 } },
        Block { position: Point { x: 18, y: 5 } },
        Block { position: Point { x: 19, y: 5 } },
        Block { position: Point { x: 20, y: 5 } },
        Block { position: Point { x: 20, y: 6 } },
        Block { position: Point { x: 20, y: 7 } },
        Block { position: Point { x: 20, y: 8 } },
        Block { position: Point { x: 20, y: 9 } },
        Block { position: Point { x: 19, y: 9 } },
        Block { position: Point { x: 18, y: 9 } },
        Block { position: Point { x: 17, y: 9 } },
        Block { position: Point { x: 16, y: 9 } },
        Block { position: Point { x: 15, y: 9 } },
        Block { position: Point { x: 14, y: 9 } },
        Block { position: Point { x: 13, y: 9 } },
        Block { position: Point { x: 12, y: 9 } },
        Block { position: Point { x: 11, y: 9 } },
        Block { position: Point { x: 10, y: 9 } },
        Block { position: Point { x: 9, y: 9 } },
        Block { position: Point { x: 8, y: 9 } },
        Block { position: Point { x: 7, y: 9 } },
        Block { position: Point { x: 6, y: 9 } },
        Block { position: Point { x: 5, y: 9 } },
        Block { position: Point { x: 4, y: 9 } },
        Block { position: Point { x: 3, y: 9 } },
        Block { position: Point { x: 2, y: 9 } },
    ]
}

/// Inserting a tower at the first index whose row is not below the new
/// tower's keeps the collection sorted by row.
pub proof fn lemma_insert_keeps_sorted(ts: Seq<Tower>, t: Tower, idx: int)
    requires
        towers_sorted(ts),
        0 <= idx <= ts.len(),
        forall|k: int| 0 <= k < idx ==> (#[trigger] ts[k]).position.y < t.position.y,
        idx < ts.len() ==> ts[idx].position.y >= t.position.y,
    ensures
        towers_sorted(ts.insert(idx, t)),
{
    let ts1 = ts.insert(idx, t);
    assert forall|i: int, j: int| 0 <= i < j < ts1.len() implies (#[trigger] ts1[i]).position.y
        <= (#[trigger] ts1[j]).position.y by {
        if i < idx {
            assert(ts1[i] == ts[i]);
        } else if i == idx {
            assert(ts1[i] == t);
        } else {
            assert(ts1[i] == ts[i - 1]);
        }
        if j < idx {
            assert(ts1[j] == ts[j]);
        } else if j == idx {
            assert(ts1[j] == t);
        } else {
            assert(ts1[j] == ts[j - 1]);
        }
    }
}

impl Board {
    /// The authored default board: the fixed path, the base, and empty tower,
    /// monster and pile collections. The arguments are reserved for future
    /// procedural generation and are unused.
    pub fn generate(_seed: u64, _length: u32) -> (b: Board)
        ensures
            b.path_blocks@ == spec_default_path(),
            b.towers@ == Seq::<Tower>::empty(),
            b.monsters@ == Seq::<Monster>::empty(),
            b.gold_piles@ == Seq::<GoldPile>::empty(),
            b.base == (Base { position: Point { x: 0, y: 8 } }),
            board_wf(b),
    {
        let mut path_blocks: Vec<Block> = Vec::new();
        path_blocks.push(Block { position: Point { x: 0, y: 0 } });
        path_blocks.push(Block { position: Point { x: 0, y: 1 } });
        path_blocks.push(Block { position: Point { x: 0, y: 2 } });
        path_blocks.push(Block { position: Point { x: 1, y: 2 } });
        path_blocks.push(Block { position: Point { x: 2, y: 2 } });
        path_blocks.push(Block { position: Point { x: 2, y: 3 } });
        path_blocks.push(Block { position: Point { x: 2, y: 3 } });
        path_blocks.push(Block { position: Point { x: 2, y: 4 } });
        path_blocks.push(Block { position: Point { x: 2, y: 5 } });
        path_blocks.push(Block { position: Point { x: 3, y: 5 } });
        path_blocks.push(Block { position: Point { x: 4, y: 5 } });
        path_blocks.push(Block { position: Point { x: 5, y: 5 } });
        path_blocks.push(Block { position: Point { x: 6, y: 5 } });
        path_blocks.push(Block { position: Point { x: 7, y: 5 } });
        path_blocks.push(Block { position: Point { x: 8, y: 5 } });
        path_blocks.push(Block { position: Point { x: 9, y: 5 } });
        path_blocks.push(Block { position: Point { x: 10, y: 5 } });
        path_blocks.push(Block { position: Point { x: 11, y: 5 } });
        path_blocks.push(Block { position: Point { x: 12, y: 5 } });
        path_blocks.push(Block { position: Point { x: 13, y: 5 } });
        path_blocks.push(Block { position: Point { x: 14, y: 5 } });
        path_blocks.push(Block { position: Point { x: 15, y: 5 } });
        path_blocks.push(Block { position: Point { x: 16, y: 5 } });
        path_blocks.push(Block { position: Point { x: 17, y: 5 } });
        path_blocks.push(Block { position: Point { x: 18, y: 5 } });
        path_blocks.push(Block { position: Point { x: 19, y: 5 } });
        path_blocks.push(Block { position: Point { x: 20, y: 5 } });
        path_blocks.push(Block { position: Point { x: 20, y: 6 } });
        path_blocks.push(Block { position: Point { x: 20, y: 7 } });
        path_blocks.push(Block { position: Point { x: 20, y: 8 } });
        path_blocks.push(Block { position: Point { x: 20, y: 9 } });
        path_blocks.push(Block { position: Point { x: 19, y: 9 } });
        path_blocks.push(Block { position: Point { x: 18, y: 9 } });
        path_blocks.push(Block { position: Point { x: 17, y: 9 } });
        path_blocks.push(Block { position: Point { x: 16, y: 9 } });
        path_blocks.push(Block { position: Point { x: 15, y: 9 } });
        path_blocks.push(Block { position: Point { x: 14, y: 9 } });
        path_blocks.push(Block { position: Point { x: 13, y: 9 } });
        path_blocks.push(Block { position: Point { x: 12, y: 9 } });
        path_blocks.push(Block { position: Point { x: 11, y: 9 } });
        path_blocks.push(Block { position: Point { x: 10, y: 9 } });
        path_blocks.push(Block { position: Point { x: 9, y: 9 } });
        path_blocks.push(Block { position: Point { x: 8, y: 9 } });
        path_blocks.push(Block { position: Point { x: 7, y: 9 } });
        path_blocks.push(Block { position: Point { x: 6, y: 9 } });
        path_blocks.push(Block { position: Point { x: 5, y: 9 } });
        path_blocks.push(Block { position: Point { x: 4, y: 9 } });
        path_blocks.push(Block { position: Point { x: 3, y: 9 } });
        path_blocks.push(Block { position: Point { x: 2, y: 9 } });
        proof {
            assert(path_blocks@ =~= spec_default_path());
        }
        Board {
            path_blocks,
            towers: Vec::new(),
            monsters: Vec::new(),
            gold_piles: Vec::new(),
            base: Base { position: Point { x: 0, y: 8 } },
        }
    }

    /// Whether the tile containing the pixel point already carries a tower or
    /// a path block, or the point falls within the base footprint. This is
    /// the sole gate used before tower placement.
    pub fn position_is_occupied(&self, click_position: Point) -> (r: bool)
        requires
            in_tile_range(self.base.position),
        ensures
            r == spec_occupied(*self, click_position),
    {
        let block_position = Point {
            x: floor_div(click_position.x, BLOCK_SIZE),
            y: floor_div(click_position.y, BLOCK_SIZE),
        };
        assert(block_position == spec_tile_of(click_position));

        let nt = self.towers.len();
        let mut i: usize = 0;
        while i < nt
            invariant
                0 <= i <= nt,
                nt == self.towers@.len(),
                block_position == spec_tile_of(click_position),
                forall|k: int|
                    0 <= k < i ==> (#[trigger] self.towers@[k]).position != spec_tile_of(
                        click_position,
                    ),
            decreases nt - i,
        {
            if self.towers[i].get_block_position() == block_position {
                return true;
            }
            i = i + 1;
        }

        let np = self.path_blocks.len();
        let mut j: usize = 0;
        while j < np
            invariant
                0 <= j <= np,
                np == self.path_blocks@.len(),
                block_position == spec_tile_of(click_position),
                forall|k: int|
                    0 <= k < j ==> (#[trigger] self.path_blocks@[k]).position != spec_tile_of(
                        click_position,
                    ),
            decreases np - j,
        {
            if self.path_blocks[j].position == block_position {
                return true;
            }
            j = j + 1;
        }

        if self.base.is_position_in_base(click_position) {
            return true;
        }

        false
    }

    /// Inserts a tower at the first index whose tile row is not below the new
    /// tower's row, so the collection stays sorted by row: the stable
    /// insertion the drawing order relies on. The insertion index is pinned
    /// by the two scanning conditions below.
    pub fn add_tower(&mut self, tower: Tower)
        requires
            tower_wf(tower),
            board_wf(*old(self)),
        ensures
            ({
                let ts0 = old(self).towers@;
                let ts1 = final(self).towers@;
                exists|idx: int|
                    {
                        &&& 0 <= idx <= ts0.len()
                        &&& forall|k: int|
                            0 <= k < idx ==> (#[trigger] ts0[k]).position.y < tower.position.y
                        &&& (idx < ts0.len() ==> ts0[idx].position.y >= tower.position.y)
                        &&& ts1 == ts0.insert(idx, tower)
                    }
            }),
            final(self).towers@.len() == old(self).towers@.len() + 1,
            final(self).path_blocks == old(self).path_blocks,
            final(self).monsters == old(self).monsters,
            final(self).gold_piles == old(self).gold_piles,
            final(self).base == old(self).base,
            board_wf(*final(self)),
    {
        let n = self.towers.len();
        let mut index: usize = 0;
        while index < n
            invariant
                0 <= index <= n,
                n == self.towers@.len(),
                forall|k: int|
                    0 <= k < index ==> (#[trigger] self.towers@[k]).position.y < tower.position.y,
            ensures
                0 <= index <= n,
                n == self.towers@.len(),
                forall|k: int|
                    0 <= k < index ==> (#[trigger] self.towers@[k]).position.y < tower.position.y,
                index < n ==> self.towers@[index as int].position.y >= tower.position.y,
            decreases n - index,
        {
            if self.towers[index].get_block_position().y >= tower.get_block_position().y {
                break ;
            }
            index = index + 1;
        }
        proof {
            lemma_insert_keeps_sorted(self.towers@, tower, index as int);
        }
        self.towers.insert(index, tower);
    }
}

} // verus!
