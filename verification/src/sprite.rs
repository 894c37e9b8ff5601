//! Sprites and what drawing one does to a grid of pixels.
//!
//! A sprite is a run of bytes, one byte per row, top row first. Within a row
//! the most significant bit is the leftmost pixel. Drawing XORs every set bit
//! into the grid; each pixel position wraps around the edges on its own.

use vstd::prelude::*;
use crate::display::{is_grid, plot, plot_collides, Grid};

verus! {

/// Whether the pixel in column `col` of a sprite row is set; column 0 is the
/// most significant bit of the byte.
pub open spec fn sprite_bit(row_byte: u8, col: int) -> bool {
    (row_byte >> ((7 - col) as u8)) & 1 == 1
}

/// Whether a set bit of `sprite`, drawn with its top left corner at
/// `(vx, vy)`, lands on the grid position `(px, py)`.
pub open spec fn sprite_hits(sprite: Seq<u8>, vx: int, vy: int, px: int, py: int) -> bool {
    let col = (px - vx) % 64;
    let row = (py - vy) % 32;
    col < 8 && row < sprite.len() && sprite_bit(sprite[row], col)
}

/// The grid after `sprite` has been drawn at `(vx, vy)`: a pixel changes state
/// exactly where a set bit of the sprite lands on it.
pub open spec fn draw_sprite(grid: Grid, sprite: Seq<u8>, vx: int, vy: int) -> Grid {
    Seq::new(32, |py: int| Seq::new(64, |px: int| grid[py][px] != sprite_hits(sprite, vx, vy, px, py)))
}

/// Whether a set bit of `sprite` lands on the lit pixel `(px, py)` of `grid`.
pub open spec fn collides_at(grid: Grid, sprite: Seq<u8>, vx: int, vy: int, px: int, py: int) -> bool {
    0 <= px < 64 && 0 <= py < 32 && grid[py][px] && sprite_hits(sprite, vx, vy, px, py)
}

/// Whether drawing `sprite` at `(vx, vy)` turns off a pixel that was lit.
pub open spec fn sprite_collides(grid: Grid, sprite: Seq<u8>, vx: int, vy: int) -> bool {
    exists|px: int, py: int| collides_at(grid, sprite, vx, vy, px, py)
}

/// Whether a set bit of `sprite` lands on the dark pixel `(px, py)` of `grid`,
/// so that drawing the sprite lights it.
pub open spec fn lights_at(grid: Grid, sprite: Seq<u8>, vx: int, vy: int, px: int, py: int) -> bool {
    0 <= px < 64 && 0 <= py < 32 && !grid[py][px] && sprite_hits(sprite, vx, vy, px, py)
}

/// Whether the sprite position that lands on `(px, py)` comes before row
/// `row`, column `col` when the sprite is drawn row by row, left to right.
pub open spec fn drawn_before(vx: int, vy: int, px: int, py: int, row: int, col: int) -> bool {
    let r = (py - vy) % 32;
    let c = (px - vx) % 64;
    r < row || (r == row && c < col)
}

/// `grid` is what `before` has become once every sprite position ahead of
/// row `row`, column `col` has been drawn.
pub open spec fn drawn_up_to(
    before: Grid,
    grid: Grid,
    sprite: Seq<u8>,
    vx: int,
    vy: int,
    row: int,
    col: int,
) -> bool {
    &&& is_grid(grid)
    &&& forall|px: int, py: int|
        0 <= px < 64 && 0 <= py < 32 ==> #[trigger] grid[py][px] == (before[py][px] != (sprite_hits(
            sprite,
            vx,
            vy,
            px,
            py,
        ) && drawn_before(vx, vy, px, py, row, col)))
}

/// Whether a sprite position ahead of row `row`, column `col` lands on a lit
/// pixel of `before`.
pub open spec fn collides_up_to(before: Grid, sprite: Seq<u8>, vx: int, vy: int, row: int, col: int) -> bool {
    exists|px: int, py: int|
        #[trigger] collides_at(before, sprite, vx, vy, px, py) && drawn_before(vx, vy, px, py, row, col)
}

/// The bit in row `row` and column `col` of a sprite of at most 32 rows is the
/// one that lands on `((vx + col) mod 64, (vy + row) mod 32)`.
pub proof fn lemma_sprite_hits(sprite: Seq<u8>, vx: int, vy: int, row: int, col: int)
    requires
        sprite.len() <= 32,
        0 <= row < sprite.len(),
        0 <= col < 8,
    ensures
        sprite_hits(sprite, vx, vy, (vx + col) % 64, (vy + row) % 32) == sprite_bit(sprite[row], col),
{
    assert(((vx + col) % 64 - vx) % 64 == col);
    assert(((vy + row) % 32 - vy) % 32 == row);
}

/// Before the first sprite position is drawn the grid is untouched and
/// nothing has collided.
pub proof fn lemma_draw_start(before: Grid, sprite: Seq<u8>, vx: int, vy: int)
    requires
        is_grid(before),
    ensures
        drawn_up_to(before, before, sprite, vx, vy, 0, 0),
        !collides_up_to(before, sprite, vx, vy, 0, 0),
{
}

/// Drawing the sprite position in row `row`, column `col` carries the grid
/// and the collision flag from that position to the next one in the row.
pub proof fn lemma_draw_position(
    before: Grid,
    grid: Grid,
    sprite: Seq<u8>,
    vx: int,
    vy: int,
    row: int,
    col: int,
)
    requires
        is_grid(before),
        drawn_up_to(before, grid, sprite, vx, vy, row, col),
        sprite.len() <= 32,
        0 <= row < sprite.len(),
        0 <= col < 8,
    ensures
        sprite_bit(sprite[row], col) ==> drawn_up_to(
            before,
            plot(grid, vx + col, vy + row, true),
            sprite,
            vx,
            vy,
            row,
            col + 1,
        ),
        !sprite_bit(sprite[row], col) ==> drawn_up_to(before, grid, sprite, vx, vy, row, col + 1),
        collides_up_to(before, sprite, vx, vy, row, col + 1) == (collides_up_to(
            before,
            sprite,
            vx,
            vy,
            row,
            col,
        ) || (sprite_bit(sprite[row], col) && plot_collides(grid, vx + col, vy + row, true))),
{
    let px0 = (vx + col) % 64;
    let py0 = (vy + row) % 32;
    lemma_sprite_hits(sprite, vx, vy, row, col);
    assert((px0 - vx) % 64 == col);
    assert((py0 - vy) % 32 == row);
    assert(!drawn_before(vx, vy, px0, py0, row, col));
    assert(drawn_before(vx, vy, px0, py0, row, col + 1));
    assert(grid[py0][px0] == before[py0][px0]);
    assert forall|px: int, py: int| 0 <= px < 64 && 0 <= py < 32 && !(px == px0 && py == py0) implies drawn_before(
        vx,
        vy,
        px,
        py,
        row,
        col + 1,
    ) == drawn_before(vx, vy, px, py, row, col) by {
        if (py - vy) % 32 == row && (px - vx) % 64 == col {
            assert(px == px0);
            assert(py == py0);
        }
    }
    if sprite_bit(sprite[row], col) {
        let next = plot(grid, vx + col, vy + row, true);
        assert forall|px: int, py: int| 0 <= px < 64 && 0 <= py < 32 implies #[trigger] next[py][px] == (
        before[py][px] != (sprite_hits(sprite, vx, vy, px, py) && drawn_before(vx, vy, px, py, row, col + 1))) by {
            if px == px0 && py == py0 {
            } else {
                assert(next[py][px] == grid[py][px]);
            }
        }
    }
    let hit = sprite_bit(sprite[row], col) && plot_collides(grid, vx + col, vy + row, true);
    if collides_up_to(before, sprite, vx, vy, row, col + 1) {
        let (px, py) = choose|px: int, py: int|
            #[trigger] collides_at(before, sprite, vx, vy, px, py) && drawn_before(vx, vy, px, py, row, col + 1);
        if px == px0 && py == py0 {
            assert(hit);
        } else {
            assert(collides_at(before, sprite, vx, vy, px, py) && drawn_before(vx, vy, px, py, row, col));
        }
    }
    if collides_up_to(before, sprite, vx, vy, row, col) {
        let (px, py) = choose|px: int, py: int|
            #[trigger] collides_at(before, sprite, vx, vy, px, py) && drawn_before(vx, vy, px, py, row, col);
        assert(drawn_before(vx, vy, px, py, row, col + 1));
    }
    if hit {
        assert(collides_at(before, sprite, vx, vy, px0, py0) && drawn_before(vx, vy, px0, py0, row, col + 1));
    }
}

/// Past the last column of a row, drawing stands at the start of the next row.
pub proof fn lemma_draw_next_row(before: Grid, grid: Grid, sprite: Seq<u8>, vx: int, vy: int, row: int)
    requires
        drawn_up_to(before, grid, sprite, vx, vy, row, 8),
    ensures
        drawn_up_to(before, grid, sprite, vx, vy, row + 1, 0),
        collides_up_to(before, sprite, vx, vy, row + 1, 0) == collides_up_to(before, sprite, vx, vy, row, 8),
{
    if collides_up_to(before, sprite, vx, vy, row + 1, 0) {
        let (px, py) = choose|px: int, py: int|
            #[trigger] collides_at(before, sprite, vx, vy, px, py) && drawn_before(vx, vy, px, py, row + 1, 0);
        assert(drawn_before(vx, vy, px, py, row, 8));
    }
    if collides_up_to(before, sprite, vx, vy, row, 8) {
        let (px, py) = choose|px: int, py: int|
            #[trigger] collides_at(before, sprite, vx, vy, px, py) && drawn_before(vx, vy, px, py, row, 8);
        assert(drawn_before(vx, vy, px, py, row + 1, 0));
    }
}

/// Once every row has been drawn the grid is the drawn sprite and the
/// collisions are those of the whole sprite.
pub proof fn lemma_draw_end(before: Grid, grid: Grid, sprite: Seq<u8>, vx: int, vy: int)
    requires
        drawn_up_to(before, grid, sprite, vx, vy, sprite.len() as int, 0),
    ensures
        grid == draw_sprite(before, sprite, vx, vy),
        collides_up_to(before, sprite, vx, vy, sprite.len() as int, 0) == sprite_collides(before, sprite, vx, vy),
{
    assert(grid =~~= draw_sprite(before, sprite, vx, vy));
    if sprite_collides(before, sprite, vx, vy) {
        let (px, py) = choose|px: int, py: int| collides_at(before, sprite, vx, vy, px, py);
        assert(drawn_before(vx, vy, px, py, sprite.len() as int, 0));
    }
}

/// Drawing a sprite keeps the shape of the grid.
pub proof fn lemma_draw_sprite_is_grid(grid: Grid, sprite: Seq<u8>, vx: int, vy: int)
    ensures
        is_grid(draw_sprite(grid, sprite, vx, vy)),
{
}

/// Drawing the same sprite twice at the same place gives back the grid as it
/// was before the first draw.
pub proof fn lemma_draw_twice_restores(grid: Grid, sprite: Seq<u8>, vx: int, vy: int)
    requires
        is_grid(grid),
    ensures
        draw_sprite(draw_sprite(grid, sprite, vx, vy), sprite, vx, vy) == grid,
{
    assert(draw_sprite(draw_sprite(grid, sprite, vx, vy), sprite, vx, vy) =~~= grid);
}

/// The second of two identical draws reports a collision exactly when the
/// first one lit a pixel.
pub proof fn lemma_second_draw_collides(grid: Grid, sprite: Seq<u8>, vx: int, vy: int)
    requires
        is_grid(grid),
    ensures
        sprite_collides(draw_sprite(grid, sprite, vx, vy), sprite, vx, vy) <==> exists|px: int, py: int|
            lights_at(grid, sprite, vx, vy, px, py),
{
    let once = draw_sprite(grid, sprite, vx, vy);
    if sprite_collides(once, sprite, vx, vy) {
        let (px, py) = choose|px: int, py: int| collides_at(once, sprite, vx, vy, px, py);
        assert(lights_at(grid, sprite, vx, vy, px, py));
    }
    if exists|px: int, py: int| lights_at(grid, sprite, vx, vy, px, py) {
        let (px, py) = choose|px: int, py: int| lights_at(grid, sprite, vx, vy, px, py);
        assert(collides_at(once, sprite, vx, vy, px, py));
    }
}

} // verus!
