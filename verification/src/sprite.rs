//! How a sprite goes onto the display bit by bit: the bookkeeping that the
//! drawing loop's proof needs.

use vstd::prelude::*;
use crate::machine::{sprite_bit, Machine, DISPLAY_HEIGHT, DISPLAY_WIDTH};

verus! {

/// Whether the part of the sprite that comes before row `row_done`, or in that
/// row before column `column_done`, has an on bit at pixel `(x, y)`.
pub open spec fn covered_before(
    m: Machine,
    vx: u8,
    vy: u8,
    rows: u8,
    row_done: int,
    column_done: int,
    x: int,
    y: int,
) -> bool {
    let row = (y - vy) % (DISPLAY_HEIGHT as int);
    let column = (x - vx) % (DISPLAY_WIDTH as int);
    (row < row_done || (row == row_done && column < column_done)) && m.sprite_covers(
        vx,
        vy,
        rows,
        x,
        y,
    )
}

/// Whether that part of the sprite has an on bit at a pixel that is lit.
pub open spec fn collided_before(
    m: Machine,
    vx: u8,
    vy: u8,
    rows: u8,
    row_done: int,
    column_done: int,
) -> bool {
    exists|x: int, y: int|
        0 <= x < DISPLAY_WIDTH && 0 <= y < DISPLAY_HEIGHT && m.pixels[y][x]
            && #[trigger] covered_before(m, vx, vy, rows, row_done, column_done, x, y)
}

/// Drawing one more bit of the sprite, at row `row` and column `column`,
/// changes what is covered at the pixel under that bit and nowhere else.
pub proof fn lemma_draw_bit(m: Machine, vx: u8, vy: u8, rows: u8, row: int, column: int)
    requires
        m.wf(),
        0 <= row < rows < 16,
        0 <= column < 8,
    ensures
        forall|x: int, y: int|
            0 <= x < DISPLAY_WIDTH && 0 <= y < DISPLAY_HEIGHT ==> #[trigger] covered_before(
                m,
                vx,
                vy,
                rows,
                row,
                column + 1,
                x,
                y,
            ) == if x == (vx + column) % (DISPLAY_WIDTH as int) && y == (vy + row) % (
            DISPLAY_HEIGHT as int) {
                sprite_bit(m.memory[m.index + row], column)
            } else {
                covered_before(m, vx, vy, rows, row, column, x, y)
            },
        collided_before(m, vx, vy, rows, row, column + 1) == (collided_before(
            m,
            vx,
            vy,
            rows,
            row,
            column,
        ) || (m.pixels[(vy + row) % (DISPLAY_HEIGHT as int)][(vx + column) % (
        DISPLAY_WIDTH as int)] && sprite_bit(m.memory[m.index + row], column))),
{
    let tx = (vx + column) % (DISPLAY_WIDTH as int);
    let ty = (vy + row) % (DISPLAY_HEIGHT as int);
    assert forall|x: int, y: int|
        0 <= x < DISPLAY_WIDTH && 0 <= y < DISPLAY_HEIGHT implies #[trigger] covered_before(
        m,
        vx,
        vy,
        rows,
        row,
        column + 1,
        x,
        y,
    ) == if x == tx && y == ty {
        sprite_bit(m.memory[m.index + row], column)
    } else {
        covered_before(m, vx, vy, rows, row, column, x, y)
    } by {}
    assert(covered_before(m, vx, vy, rows, row, column + 1, tx, ty) == sprite_bit(
        m.memory[m.index + row],
        column,
    ));
    if collided_before(m, vx, vy, rows, row, column) {
        let (x, y) = choose|x: int, y: int|
            0 <= x < DISPLAY_WIDTH && 0 <= y < DISPLAY_HEIGHT && m.pixels[y][x]
                && #[trigger] covered_before(m, vx, vy, rows, row, column, x, y);
        assert(covered_before(m, vx, vy, rows, row, column + 1, x, y));
    }
}

/// A finished row of the sprite is the start of the next one; nothing is
/// drawn before the first row, and after the last row the whole sprite is.
pub proof fn lemma_draw_rows(m: Machine, vx: u8, vy: u8, rows: u8, row: int)
    requires
        0 <= row,
    ensures
        forall|x: int, y: int| #[trigger]
            covered_before(m, vx, vy, rows, row, 8, x, y) == covered_before(
                m,
                vx,
                vy,
                rows,
                row + 1,
                0,
                x,
                y,
            ),
        collided_before(m, vx, vy, rows, row, 8) == collided_before(m, vx, vy, rows, row + 1, 0),
        forall|x: int, y: int| !(#[trigger] covered_before(m, vx, vy, rows, 0, 0, x, y)),
        !collided_before(m, vx, vy, rows, 0, 0),
        forall|x: int, y: int| #[trigger]
            covered_before(m, vx, vy, rows, rows as int, 0, x, y) == m.sprite_covers(
                vx,
                vy,
                rows,
                x,
                y,
            ),
        collided_before(m, vx, vy, rows, rows as int, 0) == m.sprite_collides(vx, vy, rows),
{
    if collided_before(m, vx, vy, rows, row, 8) {
        let (x, y) = choose|x: int, y: int|
            0 <= x < DISPLAY_WIDTH && 0 <= y < DISPLAY_HEIGHT && m.pixels[y][x]
                && #[trigger] covered_before(m, vx, vy, rows, row, 8, x, y);
        assert(covered_before(m, vx, vy, rows, row + 1, 0, x, y));
    }
    if collided_before(m, vx, vy, rows, row + 1, 0) {
        let (x, y) = choose|x: int, y: int|
            0 <= x < DISPLAY_WIDTH && 0 <= y < DISPLAY_HEIGHT && m.pixels[y][x]
                && #[trigger] covered_before(m, vx, vy, rows, row + 1, 0, x, y);
        assert(covered_before(m, vx, vy, rows, row, 8, x, y));
    }
    if collided_before(m, vx, vy, rows, rows as int, 0) {
        let (x, y) = choose|x: int, y: int|
            0 <= x < DISPLAY_WIDTH && 0 <= y < DISPLAY_HEIGHT && m.pixels[y][x]
                && #[trigger] covered_before(m, vx, vy, rows, rows as int, 0, x, y);
    }
    if m.sprite_collides(vx, vy, rows) {
        let (x, y) = choose|x: int, y: int|
            0 <= x < DISPLAY_WIDTH && 0 <= y < DISPLAY_HEIGHT && m.pixels[y][x]
                && #[trigger] m.sprite_covers(vx, vy, rows, x, y);
        assert(covered_before(m, vx, vy, rows, rows as int, 0, x, y));
    }
}

} // verus!
