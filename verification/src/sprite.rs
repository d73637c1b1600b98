//! Sprites: rows of eight pixels, drawn onto the grid by XOR. The grid wraps
//! at its edges.
use vstd::prelude::*;
use crate::display::{grid_is_binary, grid_wf, xor_cell, Grid};
use crate::util::{bit_of, lemma_bit_is_binary};

verus! {

/// How many columns to the right of the sprite's left edge the column `cx`
/// lies, going round the grid: 0 to 63.
pub open spec fn column_offset(vx: u8, cx: int) -> int {
    (cx - vx) % 64
}

/// How many rows below the sprite's top edge the row `cy` lies, going round
/// the grid: 0 to 31.
pub open spec fn row_offset(vy: u8, cy: int) -> int {
    (cy - vy) % 32
}

/// The bit of the sprite that lands on the cell (`cx`, `cy`) when the
/// sprite's top left corner is at (`vx`, `vy`): row by row downwards, and
/// within a row the most significant bit leftmost. 0 where no bit lands.
pub open spec fn sprite_bit_at(sprite: Seq<u8>, vx: u8, vy: u8, cx: int, cy: int) -> u8 {
    let dx = column_offset(vx, cx);
    let dy = row_offset(vy, cy);
    if dx < 8 && dy < sprite.len() {
        bit_of(sprite[dy], (7 - dx) as u8)
    } else {
        0
    }
}

/// The grid after the sprite was drawn with its top left corner at
/// (`vx`, `vy`): every cell combined by XOR with the bit that lands on it.
/// Meant for sprites of at most 32 rows, which cover no cell twice.
pub open spec fn draw_sprite(g: Grid, sprite: Seq<u8>, vx: u8, vy: u8) -> Grid {
    Seq::new(
        64,
        |cx: int| Seq::new(32, |cy: int| g[cx][cy] ^ sprite_bit_at(sprite, vx, vy, cx, cy)),
    )
}

/// Whether the sprite, drawn at (`vx`, `vy`), sets a bit onto the set cell
/// (`cx`, `cy`) of `g`, and so unsets it.
pub open spec fn erases_at(g: Grid, sprite: Seq<u8>, vx: u8, vy: u8, cx: int, cy: int) -> bool {
    0 <= cx < 64 && 0 <= cy < 32 && g[cx][cy] == 1 && sprite_bit_at(sprite, vx, vy, cx, cy) == 1
}

/// Whether drawing the sprite at (`vx`, `vy`) unsets any set cell of `g`.
pub open spec fn sprite_collides(g: Grid, sprite: Seq<u8>, vx: u8, vy: u8) -> bool {
    exists|cx: int, cy: int| erases_at(g, sprite, vx, vy, cx, cy)
}

/// Drawing keeps the grid's dimensions.
pub proof fn lemma_draw_keeps_dimensions(g: Grid, sprite: Seq<u8>, vx: u8, vy: u8)
    ensures
        grid_wf(draw_sprite(g, sprite, vx, vy)),
{
}

/// Drawing onto a grid of zeros and ones leaves a grid of zeros and ones.
pub proof fn lemma_draw_keeps_binary(g: Grid, sprite: Seq<u8>, vx: u8, vy: u8)
    requires
        grid_wf(g),
        grid_is_binary(g),
    ensures
        grid_is_binary(draw_sprite(g, sprite, vx, vy)),
{
    let d = draw_sprite(g, sprite, vx, vy);
    assert forall|x: int, y: int| 0 <= x < 64 && 0 <= y < 32 implies (#[trigger] d[x][y]) <= 1 by {
        let p = g[x][y];
        let b = sprite_bit_at(sprite, vx, vy, x, y);
        if column_offset(vx, x) < 8 && row_offset(vy, y) < sprite.len() {
            lemma_bit_is_binary(sprite[row_offset(vy, y)], (7 - column_offset(vx, x)) as u8);
        }
        assert(p <= 1 && b <= 1 ==> (p ^ b) <= 1) by (bit_vector);
    }
}

/// Drawing the same sprite twice at the same place gives back the grid as it
/// was, every cell of it: XOR undoes itself.
pub proof fn lemma_draw_twice_restores(g: Grid, sprite: Seq<u8>, vx: u8, vy: u8)
    requires
        grid_wf(g),
    ensures
        draw_sprite(draw_sprite(g, sprite, vx, vy), sprite, vx, vy) == g,
{
    let once = draw_sprite(g, sprite, vx, vy);
    let twice = draw_sprite(once, sprite, vx, vy);
    assert forall|x: int, y: int| 0 <= x < 64 && 0 <= y < 32 implies twice[x][y] == g[x][y] by {
        let p = g[x][y];
        let b = sprite_bit_at(sprite, vx, vy, x, y);
        assert((p ^ b) ^ b == p) by (bit_vector);
    }
    assert(twice =~~= g);
}

/// The bit that has landed on the cell (`cx`, `cy`) once the first `rows`
/// rows of the sprite and the first `cols` pixels of the next row are
/// drawn, 0 where none has.
pub open spec fn partial_bit_at(
    sprite: Seq<u8>,
    rows: int,
    cols: int,
    vx: u8,
    vy: u8,
    cx: int,
    cy: int,
) -> u8 {
    let dx = column_offset(vx, cx);
    let dy = row_offset(vy, cy);
    if dx < 8 && dy < sprite.len() && (dy < rows || (dy == rows && dx < cols)) {
        bit_of(sprite[dy], (7 - dx) as u8)
    } else {
        0
    }
}

/// The grid once the first `rows` rows of the sprite and the first `cols`
/// pixels of the next row are drawn.
pub open spec fn draw_partial(g: Grid, sprite: Seq<u8>, rows: int, cols: int, vx: u8, vy: u8) -> Grid {
    Seq::new(
        64,
        |cx: int|
            Seq::new(32, |cy: int| g[cx][cy] ^ partial_bit_at(sprite, rows, cols, vx, vy, cx, cy)),
    )
}

/// Whether the part of the sprite drawn so far has set a bit onto the set
/// cell (`cx`, `cy`) of `g`.
pub open spec fn partial_erases_at(
    g: Grid,
    sprite: Seq<u8>,
    rows: int,
    cols: int,
    vx: u8,
    vy: u8,
    cx: int,
    cy: int,
) -> bool {
    0 <= cx < 64 && 0 <= cy < 32 && g[cx][cy] == 1 && partial_bit_at(
        sprite,
        rows,
        cols,
        vx,
        vy,
        cx,
        cy,
    ) == 1
}

/// Whether the part of the sprite drawn so far has unset any set cell of `g`.
pub open spec fn partial_collides(
    g: Grid,
    sprite: Seq<u8>,
    rows: int,
    cols: int,
    vx: u8,
    vy: u8,
) -> bool {
    exists|cx: int, cy: int| partial_erases_at(g, sprite, rows, cols, vx, vy, cx, cy)
}

/// The column that pixel `col` of a sprite row lands in.
pub open spec fn target_column(vx: u8, col: int) -> int {
    (vx + col) % 64
}

/// The row of the grid that row `row` of a sprite lands in. The running
/// row number wraps at 256 before it wraps at the grid's height.
pub open spec fn target_row(vy: u8, row: int) -> int {
    ((vy + row) % 256) % 32
}

/// With nothing drawn yet the grid is as it was, and nothing was erased.
pub proof fn lemma_draw_nothing(g: Grid, sprite: Seq<u8>, vx: u8, vy: u8)
    requires
        grid_wf(g),
    ensures
        draw_partial(g, sprite, 0, 0, vx, vy) == g,
        !partial_collides(g, sprite, 0, 0, vx, vy),
{
    let d = draw_partial(g, sprite, 0, 0, vx, vy);
    assert forall|x: int, y: int| 0 <= x < 64 && 0 <= y < 32 implies d[x][y] == g[x][y] by {
        let p = g[x][y];
        assert(p ^ 0 == p) by (bit_vector);
    }
    assert(d =~~= g);
}

/// One pixel more: combining the next bit into its target cell gives the
/// next partial drawing; that cell was untouched until now; and a set cell
/// was erased up to here exactly if one was before or this one is.
pub proof fn lemma_draw_pixel(g: Grid, sprite: Seq<u8>, row: int, col: int, vx: u8, vy: u8)
    requires
        grid_wf(g),
        0 <= row < sprite.len() <= 32,
        0 <= col < 8,
    ensures
        xor_cell(
            draw_partial(g, sprite, row, col, vx, vy),
            target_column(vx, col),
            target_row(vy, row),
            bit_of(sprite[row], (7 - col) as u8),
        ) == draw_partial(g, sprite, row, col + 1, vx, vy),
        draw_partial(g, sprite, row, col, vx, vy)[target_column(vx, col)][target_row(vy, row)]
            == g[target_column(vx, col)][target_row(vy, row)],
        partial_collides(g, sprite, row, col + 1, vx, vy) <==> (partial_collides(
            g,
            sprite,
            row,
            col,
            vx,
            vy,
        ) || (g[target_column(vx, col)][target_row(vy, row)] == 1 && (g[target_column(
            vx,
            col,
        )][target_row(vy, row)] ^ bit_of(sprite[row], (7 - col) as u8)) == 0)),
{
    let tx = target_column(vx, col);
    let ty = target_row(vy, row);
    let bit = bit_of(sprite[row], (7 - col) as u8);
    let now = draw_partial(g, sprite, row, col, vx, vy);
    let next = draw_partial(g, sprite, row, col + 1, vx, vy);
    assert(column_offset(vx, tx) == col);
    assert(row_offset(vy, ty) == row);
    assert forall|cx: int, cy: int|
        0 <= cx < 64 && 0 <= cy < 32 && !(cx == tx && cy == ty) implies partial_bit_at(
        sprite,
        row,
        col,
        vx,
        vy,
        cx,
        cy,
    ) == partial_bit_at(sprite, row, col + 1, vx, vy, cx, cy) by {
        if column_offset(vx, cx) == col && row_offset(vy, cy) == row {
            assert(cx == tx);
            assert(cy == ty);
        }
    }
    assert(partial_bit_at(sprite, row, col, vx, vy, tx, ty) == 0);
    assert(partial_bit_at(sprite, row, col + 1, vx, vy, tx, ty) == bit);
    let p = g[tx][ty];
    assert(p ^ 0 == p) by (bit_vector);
    assert(now[tx][ty] == p);
    lemma_bit_is_binary(sprite[row], (7 - col) as u8);
    assert(bit <= 1 ==> ((p == 1 && (p ^ bit) == 0) <==> (p == 1 && bit == 1))) by (bit_vector);
    let stepped = xor_cell(now, tx, ty, bit);
    assert forall|cx: int, cy: int| 0 <= cx < 64 && 0 <= cy < 32 implies stepped[cx][cy]
        == next[cx][cy] by {
        if cx == tx && cy == ty {
            assert(stepped[cx][cy] == p ^ bit);
        }
    }
    assert(stepped =~~= next);
    let next_col = col + 1;
    if partial_collides(g, sprite, row, next_col, vx, vy) {
        let (cx, cy) = choose|cx: int, cy: int|
            partial_erases_at(g, sprite, row, next_col, vx, vy, cx, cy);
        if !(cx == tx && cy == ty) {
            assert(partial_erases_at(g, sprite, row, col, vx, vy, cx, cy));
        }
    }
    if partial_collides(g, sprite, row, col, vx, vy) {
        let (cx, cy) = choose|cx: int, cy: int|
            partial_erases_at(g, sprite, row, col, vx, vy, cx, cy);
        assert(partial_erases_at(g, sprite, row, col + 1, vx, vy, cx, cy));
    }
    if p == 1 && bit == 1 {
        assert(partial_erases_at(g, sprite, row, col + 1, vx, vy, tx, ty));
    }
}

/// A row that is drawn in full is the start of the next row.
pub proof fn lemma_draw_row_done(g: Grid, sprite: Seq<u8>, row: int, vx: u8, vy: u8)
    ensures
        draw_partial(g, sprite, row, 8, vx, vy) == draw_partial(g, sprite, row + 1, 0, vx, vy),
        partial_collides(g, sprite, row, 8, vx, vy) == partial_collides(
            g,
            sprite,
            row + 1,
            0,
            vx,
            vy,
        ),
{
    assert forall|cx: int, cy: int|
        partial_bit_at(sprite, row, 8, vx, vy, cx, cy) == partial_bit_at(
            sprite,
            row + 1,
            0,
            vx,
            vy,
            cx,
            cy,
        ) by {}
    assert(draw_partial(g, sprite, row, 8, vx, vy) =~~= draw_partial(
        g,
        sprite,
        row + 1,
        0,
        vx,
        vy,
    ));
    if partial_collides(g, sprite, row, 8, vx, vy) {
        let (cx, cy) = choose|cx: int, cy: int|
            partial_erases_at(g, sprite, row, 8, vx, vy, cx, cy);
        assert(partial_erases_at(g, sprite, row + 1, 0, vx, vy, cx, cy));
    }
    let next_row = row + 1;
    if partial_collides(g, sprite, next_row, 0, vx, vy) {
        let (cx, cy) = choose|cx: int, cy: int|
            partial_erases_at(g, sprite, next_row, 0, vx, vy, cx, cy);
        assert(partial_erases_at(g, sprite, row, 8, vx, vy, cx, cy));
    }
}

/// With every row drawn, the partial drawing is the whole one.
pub proof fn lemma_draw_all(g: Grid, sprite: Seq<u8>, vx: u8, vy: u8)
    ensures
        draw_partial(g, sprite, sprite.len() as int, 0, vx, vy) == draw_sprite(g, sprite, vx, vy),
        partial_collides(g, sprite, sprite.len() as int, 0, vx, vy) == sprite_collides(
            g,
            sprite,
            vx,
            vy,
        ),
{
    let n = sprite.len() as int;
    assert forall|cx: int, cy: int|
        partial_bit_at(sprite, n, 0, vx, vy, cx, cy) == sprite_bit_at(sprite, vx, vy, cx, cy) by {}
    assert(draw_partial(g, sprite, n, 0, vx, vy) =~~= draw_sprite(g, sprite, vx, vy));
    if partial_collides(g, sprite, n, 0, vx, vy) {
        let (cx, cy) = choose|cx: int, cy: int| partial_erases_at(g, sprite, n, 0, vx, vy, cx, cy);
        assert(erases_at(g, sprite, vx, vy, cx, cy));
    }
    if sprite_collides(g, sprite, vx, vy) {
        let (cx, cy) = choose|cx: int, cy: int| erases_at(g, sprite, vx, vy, cx, cy);
        assert(partial_erases_at(g, sprite, n, 0, vx, vy, cx, cy));
    }
}

} // verus!
