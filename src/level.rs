//! The level's layout: background images side by side and a row of bricks,
//! both covering the level from its left end.
use vstd::prelude::*;

use crate::config::{BRICK_Y, FIRST_BRICK_X, LEVEL_LEN, TILE_SIZE, WIN_W};

verus! {

/// One brick: its centre and the frame of the brick sheet it shows.
#[derive(Clone, Copy, Debug, PartialEq, Eq, Structural)]
pub struct BrickTile {
    pub x: i64,
    pub y: i64,
    pub index: usize,
}

/// Horizontal positions of the background images: from `0` in steps of the
/// window's width, as many as it takes to cover the level.
pub fn background_offsets() -> (r: Vec<i64>)
    ensures
        forall|i: int| 0 <= i < r@.len() ==> r@[i] == i * WIN_W && #[trigger] r@[i] < LEVEL_LEN,
        r@.len() * WIN_W >= LEVEL_LEN,
{
    let mut r: Vec<i64> = Vec::new();
    let mut x: i64 = 0;
    while x < LEVEL_LEN
        invariant
            x == r@.len() * WIN_W,
            x <= LEVEL_LEN + WIN_W,
            0 <= x,
            forall|i: int| 0 <= i < r@.len() ==> r@[i] == i * WIN_W && #[trigger] r@[i] < LEVEL_LEN,
        decreases LEVEL_LEN + WIN_W - x,
    {
        proof {
            let n = r@.len() as int;
            assert((n + 1) * WIN_W == n * WIN_W + WIN_W) by (nonlinear_arith);
            assert(WIN_W > 0);
        }
        r.push(x);
        x = x + WIN_W;
    }
    r
}

/// The row of bricks along the bottom: from the window's bottom-left tile in
/// steps of one tile, as many as it takes to cover the level; the bricks
/// cycle through the `strip_len` frames of the brick sheet.
pub fn brick_tiles(strip_len: usize) -> (r: Vec<BrickTile>)
    requires
        strip_len > 0,
    ensures
        forall|i: int|
            0 <= i < r@.len() ==> {
                &&& #[trigger] r@[i].x == FIRST_BRICK_X + i * TILE_SIZE
                &&& r@[i].y == BRICK_Y
                &&& r@[i].index == i % (strip_len as int)
                &&& i * TILE_SIZE < LEVEL_LEN
            },
        r@.len() * TILE_SIZE >= LEVEL_LEN,
{
    let mut r: Vec<BrickTile> = Vec::new();
    let mut i: usize = 0;
    let mut x: i64 = FIRST_BRICK_X;
    while x < FIRST_BRICK_X + LEVEL_LEN
        invariant
            strip_len > 0,
            i == r@.len(),
            i <= 50,
            x == FIRST_BRICK_X + i * TILE_SIZE,
            forall|j: int|
                0 <= j < r@.len() ==> {
                    &&& #[trigger] r@[j].x == FIRST_BRICK_X + j * TILE_SIZE
                    &&& r@[j].y == BRICK_Y
                    &&& r@[j].index == j % (strip_len as int)
                    &&& j * TILE_SIZE < LEVEL_LEN
                },
        decreases 50 - i,
    {
        proof {
            let n = i as int;
            assert((n + 1) * TILE_SIZE == n * TILE_SIZE + TILE_SIZE) by (nonlinear_arith);
        }
        r.push(BrickTile { x, y: BRICK_Y, index: i % strip_len });
        i = i + 1;
        x = x + TILE_SIZE;
    }
    r
}

} // verus!
