//! Levels of the breakout game: the bricks that a grid of tiles describes,
//! and what happens to a brick that the ball hits.
use vstd::prelude::*;
use crate::level_text::{parse_level_text, is_level_text, spec_tiles, rows_view};

verus! {

/// The tile of an empty cell.
pub const EMPTY: u8 = 0;

/// The tile of a solid brick, which cannot be destroyed.
pub const HARD_BRICK: u8 = 1;

/// A brick of a level, at a cell of its grid.
#[derive(Clone, Copy, Debug, PartialEq, Eq, Structural)]
pub struct Brick {
    /// Column of the cell, counted from the left.
    pub column: usize,
    /// Row of the cell, counted from the top.
    pub row: usize,
    /// The tile that the level file gives the cell.
    pub tile: u8,
    /// Solid bricks are never destroyed.
    pub is_solid: bool,
    pub destroyed: bool,
}

/// The colour in which a brick is drawn.
#[derive(Clone, Copy, Debug, PartialEq, Eq, Structural)]
pub enum BrickColor {
    Solid,
    Blue,
    Green,
    Yellow,
    Orange,
    White,
}

/// The colour of a brick with the given tile.
pub open spec fn spec_brick_color(tile: u8) -> BrickColor {
    if tile == HARD_BRICK {
        BrickColor::Solid
    } else if tile == 2 {
        BrickColor::Blue
    } else if tile == 3 {
        BrickColor::Green
    } else if tile == 4 {
        BrickColor::Yellow
    } else if tile == 5 {
        BrickColor::Orange
    } else {
        BrickColor::White
    }
}

impl Brick {
    /// The colour in which this brick is drawn.
    pub fn color(&self) -> (c: BrickColor)
        ensures
            c == spec_brick_color(self.tile),
    {
        if self.tile == HARD_BRICK {
            BrickColor::Solid
        } else if self.tile == 2 {
            BrickColor::Blue
        } else if self.tile == 3 {
            BrickColor::Green
        } else if self.tile == 4 {
            BrickColor::Yellow
        } else if self.tile == 5 {
            BrickColor::Orange
        } else {
            BrickColor::White
        }
    }
}

/// The bricks, none destroyed, that a tile at column `x` and row `y` makes:
/// none for an empty cell, a solid brick for a hard tile and a destroyable
/// brick for any greater tile.
pub open spec fn tile_bricks(tile: u8, x: int, y: int) -> Seq<Brick> {
    if tile == EMPTY {
        seq![]
    } else {
        seq![Brick { column: x as usize, row: y as usize, tile, is_solid: tile == HARD_BRICK, destroyed: false }]
    }
}

/// The bricks of a row of tiles, from left to right.
pub open spec fn row_bricks(row: Seq<u8>, y: int) -> Seq<Brick>
    decreases row.len(),
{
    if row.len() == 0 {
        seq![]
    } else {
        row_bricks(row.drop_last(), y) + tile_bricks(row.last(), row.len() - 1, y)
    }
}

/// The bricks of a grid of tiles, row by row from the top.
pub open spec fn level_bricks(tiles: Seq<Seq<u8>>) -> Seq<Brick>
    decreases tiles.len(),
{
    if tiles.len() == 0 {
        seq![]
    } else {
        level_bricks(tiles.drop_last()) + row_bricks(tiles.last(), tiles.len() - 1)
    }
}

/// The number of bricks that are not solid.
pub open spec fn count_destroyable(bricks: Seq<Brick>) -> nat
    decreases bricks.len(),
{
    if bricks.len() == 0 {
        0
    } else {
        count_destroyable(bricks.drop_last()) + if bricks.last().is_solid {
            0nat
        } else {
            1nat
        }
    }
}

/// The sound that a hit makes.
#[derive(Clone, Copy, Debug, PartialEq, Eq, Structural)]
pub enum HitSound {
    /// A destroyable brick was hit.
    Brick,
    /// A solid brick was hit.
    Solid,
}

/// What follows from the ball hitting a brick.
#[derive(Clone, Copy, Debug, PartialEq, Eq, Structural)]
pub struct BrickHit {
    /// The brick was destroyed, and a power-up may appear where it stood.
    pub destroyed: bool,
    /// The screen shakes.
    pub shake: bool,
    pub sound: HitSound,
    /// The ball bounces off the brick rather than passing through it.
    pub bounce: bool,
}

/// The outcome of the ball hitting a brick, where `pass_through` says
/// whether the ball passes through destroyable bricks.
pub open spec fn spec_brick_hit(is_solid: bool, pass_through: bool) -> BrickHit {
    BrickHit {
        destroyed: !is_solid,
        shake: is_solid,
        sound: if is_solid {
            HitSound::Solid
        } else {
            HitSound::Brick
        },
        bounce: !(pass_through && !is_solid),
    }
}

/// A level of the game.
pub struct GameLevel {
    pub bricks: Vec<Brick>,
    /// Number of columns of the grid: the length of its first row.
    pub columns: usize,
    /// Number of rows of the grid.
    pub rows: usize,
    /// How many bricks count as destroyed.
    pub destroyed_count: usize,
    /// How many bricks must be destroyed to complete the level.
    pub destroyable_count: usize,
}

impl GameLevel {
    /// The level that a grid of tiles describes.
    pub fn from_tiles(tiles: &Vec<Vec<u8>>) -> (level: GameLevel)
        ensures
            level.bricks@ == level_bricks(rows_view(tiles@)),
            level.columns == (if tiles.len() > 0 {
                tiles[0].len()
            } else {
                0
            }),
            level.rows == tiles.len(),
            level.destroyed_count == 0,
            level.destroyable_count == count_destroyable(level.bricks@),
    {
        let ghost grid = rows_view(tiles@);
        let mut bricks: Vec<Brick> = Vec::new();
        let mut destroyable: usize = 0;
        let height = tiles.len();
        let mut y: usize = 0;
        while y < height
            invariant
                height == tiles.len(),
                y <= height,
                grid == rows_view(tiles@),
                bricks@ == level_bricks(grid.take(y as int)),
                destroyable == count_destroyable(bricks@),
                destroyable <= bricks.len(),
            decreases height - y,
        {
            let row = &tiles[y];
            let ghost prefix = bricks@;
            assert(grid[y as int] == row@);
            let width = row.len();
            let mut x: usize = 0;
            assert(row@.take(0) =~= seq![]);
            assert(prefix + row_bricks(row@.take(0), y as int) =~= prefix);
            while x < width
                invariant
                    width == row.len(),
                    x <= width,
                    bricks@ == prefix + row_bricks(row@.take(x as int), y as int),
                    destroyable == count_destroyable(bricks@),
                    destroyable <= bricks.len(),
                decreases width - x,
            {
                let tile = row[x];
                let ghost before = bricks@;
                assert(row@.take(x + 1).drop_last() =~= row@.take(x as int));
                assert(row@.take(x + 1).last() == tile);
                if tile != EMPTY {
                    let brick = Brick {
                        column: x,
                        row: y,
                        tile,
                        is_solid: tile == HARD_BRICK,
                        destroyed: false,
                    };
                    bricks.push(brick);
                    assert(bricks@.drop_last() =~= before);
                    assert(destroyable < bricks.len());
                    if tile != HARD_BRICK {
                        destroyable = destroyable + 1;
                    }
                    assert(bricks@ =~= prefix + row_bricks(row@.take(x + 1), y as int));
                } else {
                    assert(bricks@ =~= prefix + row_bricks(row@.take(x + 1), y as int));
                }
                x = x + 1;
            }
            assert(row@.take(width as int) =~= row@);
            assert(grid.take(y + 1).drop_last() =~= grid.take(y as int));
            assert(grid.take(y + 1).last() == row@);
            y = y + 1;
        }
        assert(grid.take(height as int) =~= grid);
        let columns = if height > 0 {
            tiles[0].len()
        } else {
            0
        };
        GameLevel { bricks, columns, rows: height, destroyed_count: 0, destroyable_count: destroyable }
    }

    /// Reads a level from the text of a level file, which must hold only
    /// lines of tiles, each a number from 0 to 255, separated by single
    /// spaces.
    pub fn new(level_text: &str) -> (level: GameLevel)
        requires
            is_level_text(level_text@),
        ensures
            level.bricks@ == level_bricks(spec_tiles(level_text@)),
            level.rows == spec_tiles(level_text@).len(),
            level.columns == (if spec_tiles(level_text@).len() > 0 {
                spec_tiles(level_text@)[0].len()
            } else {
                0
            }),
            level.destroyed_count == 0,
            level.destroyable_count == count_destroyable(level.bricks@),
    {
        let tiles = match parse_level_text(level_text) {
            Ok(tiles) => tiles,
            Err(_) => Vec::new(),
        };
        let level = GameLevel::from_tiles(&tiles);
        proof {
            if tiles.len() > 0 {
                assert(rows_view(tiles@)[0] == tiles@[0]@);
            }
        }
        level
    }

    /// Restores every brick, counts none as destroyed, and counts the bricks
    /// that are not solid as the ones to destroy, as a fresh level does.
    pub fn reset(&mut self)
        ensures
            final(self).bricks.len() == old(self).bricks.len(),
            forall|i: int|
                0 <= i < final(self).bricks.len() ==> #[trigger] final(self).bricks[i] == (Brick {
                    destroyed: false,
                    ..old(self).bricks[i]
                }),
            final(self).columns == old(self).columns,
            final(self).rows == old(self).rows,
            final(self).destroyed_count == 0,
            final(self).destroyable_count == count_destroyable(final(self).bricks@),
    {
        self.destroyed_count = 0;
        let n = self.bricks.len();
        let mut destroyable: usize = 0;
        let mut i: usize = 0;
        assert(self.bricks@.take(0) =~= seq![]);
        while i < n
            invariant
                n == self.bricks.len(),
                n == old(self).bricks.len(),
                i <= n,
                self.columns == old(self).columns,
                self.rows == old(self).rows,
                self.destroyed_count == 0,
                destroyable <= i,
                destroyable == count_destroyable(self.bricks@.take(i as int)),
                forall|k: int|
                    0 <= k < i ==> #[trigger] self.bricks[k] == (Brick {
                        destroyed: false,
                        ..old(self).bricks[k]
                    }),
                forall|k: int| i <= k < n ==> #[trigger] self.bricks[k] == old(self).bricks[k],
            decreases n - i,
        {
            let mut brick = self.bricks[i];
            brick.destroyed = false;
            let ghost before = self.bricks@;
            self.bricks.set(i, brick);
            proof {
                assert(self.bricks@.take(i as int) =~= before.take(i as int));
                assert(self.bricks@.take(i + 1).drop_last() =~= self.bricks@.take(i as int));
                assert(self.bricks@.take(i + 1).last() == brick);
            }
            if !brick.is_solid {
                destroyable = destroyable + 1;
            }
            i = i + 1;
        }
        assert(self.bricks@.take(n as int) =~= self.bricks@);
        self.destroyable_count = destroyable;
    }

    /// The level is complete when as many bricks count as destroyed as must
    /// be destroyed.
    pub fn is_complete(&self) -> (r: bool)
        ensures
            r == (self.destroyed_count == self.destroyable_count),
    {
        self.destroyed_count == self.destroyable_count
    }

    /// The ball hits the brick at `index`: a destroyable brick is destroyed,
    /// a solid one shakes the screen; the ball bounces off unless it passes
    /// through destroyable bricks and this is one.
    pub fn hit_brick(&mut self, index: usize, pass_through: bool) -> (hit: BrickHit)
        requires
            index < old(self).bricks.len(),
        ensures
            hit == spec_brick_hit(old(self).bricks[index as int].is_solid, pass_through),
            hit.bounce <==> (old(self).bricks[index as int].is_solid || !pass_through),
            hit.destroyed <==> !old(self).bricks[index as int].is_solid,
            hit.shake <==> old(self).bricks[index as int].is_solid,
            hit.sound == (if old(self).bricks[index as int].is_solid {
                HitSound::Solid
            } else {
                HitSound::Brick
            }),
            final(self).bricks@ == (if old(self).bricks[index as int].is_solid {
                old(self).bricks@
            } else {
                old(self).bricks@.update(
                    index as int,
                    Brick { destroyed: true, ..old(self).bricks[index as int] },
                )
            }),
            final(self).columns == old(self).columns,
            final(self).rows == old(self).rows,
            final(self).destroyed_count == old(self).destroyed_count,
            final(self).destroyable_count == old(self).destroyable_count,
    {
        let mut brick = self.bricks[index];
        let is_solid = brick.is_solid;
        if !is_solid {
            brick.destroyed = true;
            self.bricks.set(index, brick);
        }
        BrickHit {
            destroyed: !is_solid,
            shake: is_solid,
            sound: if is_solid {
                HitSound::Solid
            } else {
                HitSound::Brick
            },
            bounce: !(pass_through && !is_solid),
        }
    }
}

/// The ball goes through a brick only when it passes through destroyable
/// bricks and the brick is one of them: a solid brick, or any brick hit
/// without passing through, sends it back. Only a destroyable brick is
/// destroyed, and only a solid one shakes the screen and sounds solid.
pub proof fn lemma_brick_hit_outcome(is_solid: bool, pass_through: bool)
    ensures
        is_solid ==> spec_brick_hit(is_solid, pass_through).bounce,
        !pass_through ==> spec_brick_hit(is_solid, pass_through).bounce,
        (pass_through && !is_solid) ==> !spec_brick_hit(is_solid, pass_through).bounce,
        spec_brick_hit(is_solid, pass_through).destroyed == !is_solid,
        spec_brick_hit(is_solid, pass_through).shake == is_solid,
        (spec_brick_hit(is_solid, pass_through).sound == HitSound::Solid) == is_solid,
{
}

/// Every brick of a fresh level stands on a cell whose tile is not empty,
/// carries that tile, is solid exactly when the tile is the hard one, and is
/// not destroyed.
pub open spec fn brick_matches_tiles(tiles: Seq<Seq<u8>>, b: Brick) -> bool {
    &&& b.row < tiles.len()
    &&& b.column < tiles[b.row as int].len()
    &&& tiles[b.row as int][b.column as int] == b.tile
    &&& b.tile != EMPTY
    &&& b.is_solid == (b.tile == HARD_BRICK)
    &&& !b.destroyed
}

/// The number of tiles greater than the hard one in a row.
pub open spec fn count_destroyable_tiles_row(row: Seq<u8>) -> nat
    decreases row.len(),
{
    if row.len() == 0 {
        0
    } else {
        count_destroyable_tiles_row(row.drop_last()) + if row.last() > HARD_BRICK {
            1nat
        } else {
            0nat
        }
    }
}

/// The number of tiles greater than the hard one in a grid.
pub open spec fn count_destroyable_tiles(tiles: Seq<Seq<u8>>) -> nat
    decreases tiles.len(),
{
    if tiles.len() == 0 {
        0
    } else {
        count_destroyable_tiles(tiles.drop_last()) + count_destroyable_tiles_row(tiles.last())
    }
}

proof fn lemma_count_destroyable_add(a: Seq<Brick>, b: Seq<Brick>)
    ensures
        count_destroyable(a + b) == count_destroyable(a) + count_destroyable(b),
    decreases b.len(),
{
    if b.len() == 0 {
        assert(a + b =~= a);
    } else {
        assert((a + b).drop_last() =~= a + b.drop_last());
        lemma_count_destroyable_add(a, b.drop_last());
    }
}

proof fn lemma_row_bricks(tiles: Seq<Seq<u8>>, y: int, w: int)
    requires
        0 <= y < tiles.len(),
        0 <= w <= tiles[y].len(),
        tiles.len() <= usize::MAX,
        tiles[y].len() <= usize::MAX,
    ensures
        forall|i: int|
            0 <= i < row_bricks(tiles[y].take(w), y).len() ==> brick_matches_tiles(
                tiles,
                #[trigger] row_bricks(tiles[y].take(w), y)[i],
            ) && row_bricks(tiles[y].take(w), y)[i].row == y,
        count_destroyable(row_bricks(tiles[y].take(w), y)) == count_destroyable_tiles_row(
            tiles[y].take(w),
        ),
    decreases w,
{
    let row = tiles[y].take(w);
    if w > 0 {
        let prev = tiles[y].take(w - 1);
        assert(row.drop_last() =~= prev);
        assert(row.last() == tiles[y][w - 1]);
        lemma_row_bricks(tiles, y, w - 1);
        let tb = tile_bricks(row.last(), w - 1, y);
        assert(row_bricks(row, y) == row_bricks(prev, y) + tb);
        lemma_count_destroyable_add(row_bricks(prev, y), tb);
        if tb.len() > 0 {
            assert(tb.drop_last() =~= seq![]);
            assert(count_destroyable(tb.drop_last()) == 0);
            assert(tb.last() == tb[0]);
        }
        assert(count_destroyable(tb) == if row.last() > HARD_BRICK {
            1nat
        } else {
            0nat
        });
        assert(count_destroyable_tiles_row(row) == count_destroyable_tiles_row(prev) + if row.last()
            > HARD_BRICK {
            1nat
        } else {
            0nat
        });
        assert forall|i: int| 0 <= i < row_bricks(row, y).len() implies brick_matches_tiles(
            tiles,
            #[trigger] row_bricks(row, y)[i],
        ) && row_bricks(row, y)[i].row == y by {
            if i < row_bricks(prev, y).len() {
                assert(row_bricks(row, y)[i] == row_bricks(prev, y)[i]);
            } else {
                assert(row_bricks(row, y)[i] == tb[0]);
            }
        }
    } else {
        assert(row =~= seq![]);
    }
}

/// The bricks of a fresh level are the non-empty cells of its tiles, and as
/// many of them are to be destroyed as there are tiles above the hard one.
pub proof fn lemma_level_bricks_match_tiles(tiles: Seq<Seq<u8>>)
    requires
        tiles.len() <= usize::MAX,
        forall|y: int| 0 <= y < tiles.len() ==> #[trigger] tiles[y].len() <= usize::MAX,
    ensures
        forall|i: int|
            0 <= i < level_bricks(tiles).len() ==> brick_matches_tiles(
                tiles,
                #[trigger] level_bricks(tiles)[i],
            ),
        count_destroyable(level_bricks(tiles)) == count_destroyable_tiles(tiles),
    decreases tiles.len(),
{
    if tiles.len() > 0 {
        let prev = tiles.drop_last();
        let y = tiles.len() - 1;
        assert forall|k: int| 0 <= k < prev.len() implies #[trigger] prev[k].len() <= usize::MAX by {
            assert(prev[k] == tiles[k]);
        }
        assert(tiles[y].len() <= usize::MAX);
        lemma_level_bricks_match_tiles(prev);
        assert(tiles.last().take(tiles.last().len() as int) =~= tiles.last());
        lemma_row_bricks(tiles, y, tiles.last().len() as int);
        lemma_count_destroyable_add(level_bricks(prev), row_bricks(tiles.last(), y));
        assert forall|i: int| 0 <= i < level_bricks(tiles).len() implies brick_matches_tiles(
            tiles,
            #[trigger] level_bricks(tiles)[i],
        ) by {
            if i < level_bricks(prev).len() {
                assert(brick_matches_tiles(prev, level_bricks(prev)[i]));
                assert(level_bricks(tiles)[i] == level_bricks(prev)[i]);
                let b = level_bricks(prev)[i];
                assert(tiles[b.row as int] == prev[b.row as int]);
            } else {
                assert(level_bricks(tiles)[i] == row_bricks(tiles.last(), y)[i
                    - level_bricks(prev).len()]);
            }
        }
    }
}

} // verus!
