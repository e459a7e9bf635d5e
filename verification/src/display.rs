//! Drawing sprites onto the framebuffer.

use vstd::prelude::*;
use crate::machine::{bit_set, sprite_col, sprite_collides, sprite_hits, sprite_row};

verus! {

/// The pixel on which bit `col` of row `row` of a sprite placed at
/// (`vx`, `vy`) lands.
pub open spec fn target_pixel(vx: int, vy: int, row: int, col: int) -> int {
    64 * ((vy + row) % 32) + (vx + col) % 64
}

/// Whether the pixel at `pixel` belongs to a sprite position that comes
/// before bit `col` of row `row`, in the order in which a sprite placed at
/// (`vx`, `vy`) is drawn: row by row, and left to right within a row.
spec fn drawn_before(vx: int, vy: int, row: int, col: int, pixel: int) -> bool {
    sprite_row(vy, pixel) < row || (sprite_row(vy, pixel) == row && sprite_col(vx, pixel) < col)
}

/// Whether the sprite has a set bit on the pixel at `pixel` that comes
/// before bit `col` of row `row`.
spec fn hits_before(
    memory: Seq<u8>,
    index: int,
    rows: int,
    vx: int,
    vy: int,
    row: int,
    col: int,
    pixel: int,
) -> bool {
    sprite_hits(memory, index, rows, vx, vy, pixel) && drawn_before(vx, vy, row, col, pixel)
}

/// Whether a set bit that comes before bit `col` of row `row` lands on a
/// pixel that was lit in `screen`.
spec fn collides_before(
    screen: Seq<bool>,
    memory: Seq<u8>,
    index: int,
    rows: int,
    vx: int,
    vy: int,
    row: int,
    col: int,
) -> bool {
    exists|p: int|
        0 <= p < 2048 && screen[p] && #[trigger] hits_before(
            memory,
            index,
            rows,
            vx,
            vy,
            row,
            col,
            p,
        )
}

/// Each bit of a sprite lands on exactly one pixel: the pixel at `pixel` is
/// under bit `col` of row `row` if and only if it is the target of that bit.
pub proof fn lemma_target_pixel(vx: int, vy: int, row: int, col: int, pixel: int)
    requires
        0 <= vx < 256,
        0 <= vy < 256,
        0 <= row < 32,
        0 <= col < 64,
        0 <= pixel < 2048,
    ensures
        0 <= target_pixel(vx, vy, row, col) < 2048,
        (sprite_col(vx, pixel) == col && sprite_row(vy, pixel) == row) <==> pixel == target_pixel(
            vx,
            vy,
            row,
            col,
        ),
{
    let x = pixel % 64;
    let y = pixel / 64;
    assert((x - vx) % 64 == col <==> x == (vx + col) % 64);
    assert((y - vy) % 32 == row <==> y == (vy + row) % 32);
}

/// A sprite has a set bit on a pixel exactly when one of its set bits, at
/// some column `col` of some row `row`, lands there: on column
/// `(vx + col) % 64` of screen row `(vy + row) % 32`.
pub proof fn law_sprite_hits(
    memory: Seq<u8>,
    index: int,
    rows: int,
    vx: int,
    vy: int,
    pixel: int,
)
    requires
        0 <= vx < 256,
        0 <= vy < 256,
        0 <= rows <= 32,
        0 <= pixel < 2048,
    ensures
        sprite_hits(memory, index, rows, vx, vy, pixel) <==> exists|row: int, col: int|
            0 <= row < rows && 0 <= col < 8 && bit_set(memory[index + row], col) && pixel
                == #[trigger] target_pixel(vx, vy, row, col),
{
    if sprite_hits(memory, index, rows, vx, vy, pixel) {
        let row = sprite_row(vy, pixel);
        let col = sprite_col(vx, pixel);
        lemma_target_pixel(vx, vy, row, col, pixel);
        assert(pixel == target_pixel(vx, vy, row, col));
    }
    if exists|row: int, col: int|
        0 <= row < rows && 0 <= col < 8 && bit_set(memory[index + row], col) && pixel
            == #[trigger] target_pixel(vx, vy, row, col) {
        let (row, col) = choose|row: int, col: int|
            0 <= row < rows && 0 <= col < 8 && bit_set(memory[index + row], col) && pixel
                == #[trigger] target_pixel(vx, vy, row, col);
        lemma_target_pixel(vx, vy, row, col, pixel);
    }
}

/// What drawing one more bit of the sprite adds to the positions drawn.
proof fn lemma_next_bit(
    memory: Seq<u8>,
    index: int,
    rows: int,
    vx: int,
    vy: int,
    row: int,
    col: int,
    pixel: int,
)
    requires
        0 <= vx < 256,
        0 <= vy < 256,
        0 <= row < rows <= 32,
        0 <= col < 8,
        0 <= pixel < 2048,
    ensures
        hits_before(memory, index, rows, vx, vy, row, col + 1, pixel) <==> (hits_before(
            memory,
            index,
            rows,
            vx,
            vy,
            row,
            col,
            pixel,
        ) || (pixel == target_pixel(vx, vy, row, col) && bit_set(memory[index + row], col))),
{
    lemma_target_pixel(vx, vy, row, col, pixel);
}

/// What drawing one more bit of the sprite does to the collision found so
/// far.
proof fn lemma_next_collision(
    screen: Seq<bool>,
    memory: Seq<u8>,
    index: int,
    rows: int,
    vx: int,
    vy: int,
    row: int,
    col: int,
)
    requires
        0 <= vx < 256,
        0 <= vy < 256,
        0 <= row < rows <= 32,
        0 <= col < 8,
    ensures
        collides_before(screen, memory, index, rows, vx, vy, row, col + 1) <==> (collides_before(
            screen,
            memory,
            index,
            rows,
            vx,
            vy,
            row,
            col,
        ) || (screen[target_pixel(vx, vy, row, col)] && bit_set(memory[index + row], col))),
{
    let q = target_pixel(vx, vy, row, col);
    lemma_target_pixel(vx, vy, row, col, q);
    lemma_next_bit(memory, index, rows, vx, vy, row, col, q);
    if collides_before(screen, memory, index, rows, vx, vy, row, col + 1) {
        let w = choose|p: int|
            0 <= p < 2048 && screen[p] && #[trigger] hits_before(
                memory,
                index,
                rows,
                vx,
                vy,
                row,
                col + 1,
                p,
            );
        lemma_next_bit(memory, index, rows, vx, vy, row, col, w);
        if w != q {
            assert(hits_before(memory, index, rows, vx, vy, row, col, w));
        }
    }
    if collides_before(screen, memory, index, rows, vx, vy, row, col) {
        let w = choose|p: int|
            0 <= p < 2048 && screen[p] && #[trigger] hits_before(
                memory,
                index,
                rows,
                vx,
                vy,
                row,
                col,
                p,
            );
        lemma_next_bit(memory, index, rows, vx, vy, row, col, w);
        assert(hits_before(memory, index, rows, vx, vy, row, col + 1, w));
    }
    if screen[q] && bit_set(memory[index + row], col) {
        assert(hits_before(memory, index, rows, vx, vy, row, col + 1, q));
    }
}

/// A finished row of eight bits is the start of the next row.
proof fn lemma_next_row(
    screen: Seq<bool>,
    memory: Seq<u8>,
    index: int,
    rows: int,
    vx: int,
    vy: int,
    row: int,
)
    ensures
        forall|p: int|
            hits_before(memory, index, rows, vx, vy, row, 8, p) <==> #[trigger] hits_before(
                memory,
                index,
                rows,
                vx,
                vy,
                row + 1,
                0,
                p,
            ),
        collides_before(screen, memory, index, rows, vx, vy, row, 8) <==> collides_before(
            screen,
            memory,
            index,
            rows,
            vx,
            vy,
            row + 1,
            0,
        ),
{
    assert forall|p: int|
        hits_before(memory, index, rows, vx, vy, row, 8, p) <==> #[trigger] hits_before(
            memory,
            index,
            rows,
            vx,
            vy,
            row + 1,
            0,
            p,
        ) by {}
    if collides_before(screen, memory, index, rows, vx, vy, row, 8) {
        let w = choose|p: int|
            0 <= p < 2048 && screen[p] && #[trigger] hits_before(
                memory,
                index,
                rows,
                vx,
                vy,
                row,
                8,
                p,
            );
        assert(hits_before(memory, index, rows, vx, vy, row + 1, 0, w));
    }
    if collides_before(screen, memory, index, rows, vx, vy, row + 1, 0) {
        let w = choose|p: int|
            0 <= p < 2048 && screen[p] && #[trigger] hits_before(
                memory,
                index,
                rows,
                vx,
                vy,
                row + 1,
                0,
                p,
            );
        assert(hits_before(memory, index, rows, vx, vy, row, 8, w));
    }
}

/// Before the first bit nothing is drawn; after the last row everything is.
proof fn lemma_whole_sprite(
    screen: Seq<bool>,
    memory: Seq<u8>,
    index: int,
    rows: int,
    vx: int,
    vy: int,
)
    ensures
        forall|p: int| !#[trigger] hits_before(memory, index, rows, vx, vy, 0, 0, p),
        !collides_before(screen, memory, index, rows, vx, vy, 0, 0),
        forall|p: int|
            #[trigger] hits_before(memory, index, rows, vx, vy, rows, 0, p) <==> sprite_hits(
                memory,
                index,
                rows,
                vx,
                vy,
                p,
            ),
        collides_before(screen, memory, index, rows, vx, vy, rows, 0) <==> sprite_collides(
            screen,
            memory,
            index,
            rows,
            vx,
            vy,
        ),
{
    if collides_before(screen, memory, index, rows, vx, vy, rows, 0) {
        let w = choose|p: int|
            0 <= p < 2048 && screen[p] && #[trigger] hits_before(
                memory,
                index,
                rows,
                vx,
                vy,
                rows,
                0,
                p,
            );
        assert(sprite_hits(memory, index, rows, vx, vy, w));
    }
    if sprite_collides(screen, memory, index, rows, vx, vy) {
        let w = choose|p: int|
            0 <= p < 2048 && screen[p] && #[trigger] sprite_hits(memory, index, rows, vx, vy, p);
        assert(hits_before(memory, index, rows, vx, vy, rows, 0, w));
    }
}

/// Whether bit `col` of `row` is set, counting from the left.
pub fn bit_is_set(row: u8, col: u8) -> (set: bool)
    requires
        col < 8,
    ensures
        set == bit_set(row, col as int),
    no_unwind
{
    (row >> (7 - col)) & 1 == 1
}

/// Draws the sprite of `rows` rows stored at `index` with its top left
/// corner at (`vx`, `vy`), by exclusive or, wrapping around the edges.
/// Returns whether a lit pixel was turned off.
pub fn draw_sprite(
    gfx: &mut [bool; 2048],
    memory: &[u8; 4096],
    index: usize,
    rows: u8,
    vx: u8,
    vy: u8,
) -> (collision: bool)
    requires
        rows < 16,
        rows > 0 ==> index + rows <= 4096,
    ensures
        forall|p: int|
            0 <= p < 2048 ==> final(gfx)@[p] == (old(gfx)@[p] != sprite_hits(
                memory@,
                index as int,
                rows as int,
                vx as int,
                vy as int,
                p,
            )),
        collision == sprite_collides(
            old(gfx)@,
            memory@,
            index as int,
            rows as int,
            vx as int,
            vy as int,
        ),
    no_unwind
{
    let ghost before = gfx@;
    let ghost mem = memory@;
    let ghost i = index as int;
    let ghost n = rows as int;
    let ghost x0 = vx as int;
    let ghost y0 = vy as int;
    proof {
        lemma_whole_sprite(before, mem, i, n, x0, y0);
    }
    let mut collision = false;
    let mut row: u8 = 0;
    while row < rows
        invariant
            row <= rows < 16,
            rows > 0 ==> index + rows <= 4096,
            mem == memory@,
            i == index,
            n == rows,
            x0 == vx,
            y0 == vy,
            before.len() == 2048,
            forall|p: int|
                0 <= p < 2048 ==> gfx@[p] == (before[p] != #[trigger] hits_before(
                    mem,
                    i,
                    n,
                    x0,
                    y0,
                    row as int,
                    0,
                    p,
                )),
            collision == collides_before(before, mem, i, n, x0, y0, row as int, 0),
        decreases rows - row,
    {
        let byte: u8 = memory[index + row as usize];
        let y: usize = (vy as usize + row as usize) % 32;
        let mut col: u8 = 0;
        while col < 8
            invariant
                row < rows < 16,
                col <= 8,
                mem == memory@,
                i == index,
                n == rows,
                x0 == vx,
                y0 == vy,
                before.len() == 2048,
                mem.len() == 4096,
                i + n <= 4096,
                byte == mem[i + row],
                y == (y0 + row) % 32,
                forall|p: int|
                    0 <= p < 2048 ==> gfx@[p] == (before[p] != #[trigger] hits_before(
                        mem,
                        i,
                        n,
                        x0,
                        y0,
                        row as int,
                        col as int,
                        p,
                    )),
                collision == collides_before(before, mem, i, n, x0, y0, row as int, col as int),
            decreases 8 - col,
        {
            let x: usize = (vx as usize + col as usize) % 64;
            let q: usize = 64 * y + x;
            proof {
                assert(q == target_pixel(x0, y0, row as int, col as int));
                lemma_target_pixel(x0, y0, row as int, col as int, q as int);
                lemma_next_collision(before, mem, i, n, x0, y0, row as int, col as int);
                assert forall|p: int| 0 <= p < 2048 implies (#[trigger] hits_before(
                    mem,
                    i,
                    n,
                    x0,
                    y0,
                    row as int,
                    col + 1,
                    p,
                ) <==> (hits_before(mem, i, n, x0, y0, row as int, col as int, p) || (p == q
                    && bit_set(byte, col as int)))) by {
                    lemma_next_bit(mem, i, n, x0, y0, row as int, col as int, p);
                }
                assert(!hits_before(mem, i, n, x0, y0, row as int, col as int, q as int));
            }
            let lit: bool = gfx[q];
            if bit_is_set(byte, col) {
                if lit {
                    collision = true;
                }
                gfx[q] = !lit;
            }
            col = col + 1;
        }
        proof {
            lemma_next_row(before, mem, i, n, x0, y0, row as int);
        }
        row = row + 1;
    }
    proof {
        lemma_whole_sprite(before, mem, i, n, x0, y0);
        assert forall|p: int| 0 <= p < 2048 implies gfx@[p] == (before[p] != sprite_hits(
            mem,
            i,
            n,
            x0,
            y0,
            p,
        )) by {
            assert(hits_before(mem, i, n, x0, y0, n, 0, p) == sprite_hits(mem, i, n, x0, y0, p));
        }
    }
    collision
}

/// The top left corner, in window coordinates, of the square that shows the
/// pixel at `pixel` when every pixel is `scale` units wide and high.
pub fn pixel_origin(pixel: usize, scale: u32) -> (origin: (i32, i32))
    requires
        pixel < 2048,
        63 * scale <= i32::MAX,
    ensures
        origin.0 == (pixel % 64) * scale,
        origin.1 == (pixel / 64) * scale,
{
    let column: u32 = (pixel % 64) as u32;
    let row: u32 = (pixel / 64) as u32;
    assert(column * scale <= 63 * scale) by (nonlinear_arith)
        requires
            column <= 63,
    ;
    assert(row * scale <= 63 * scale) by (nonlinear_arith)
        requires
            row <= 63,
    ;
    ((column * scale) as i32, (row * scale) as i32)
}

} // verus!
