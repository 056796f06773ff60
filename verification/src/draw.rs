//! The sprite-draw semantics: a pointwise description of the framebuffer
//! after an n-row sprite is XORed in with wraparound, and of the collision
//! flag.
//!
//! Every sprite bit targets its own pixel (rows are at most 15 apart on a
//! 32-row screen, columns at most 7 apart on a 64-column screen), so the
//! sequential XOR of the machine equals this pointwise form.

use vstd::prelude::*;

verus! {

/// Wrap a column position in [0, 128) onto the 64-column screen.
pub open spec fn wrap_col(v: int) -> int {
    if v < 64 {
        v
    } else {
        v - 64
    }
}

/// Wrap a row position in [0, 64) onto the 32-row screen.
pub open spec fn wrap_row(v: int) -> int {
    if v < 32 {
        v
    } else {
        v - 32
    }
}

/// The framebuffer index targeted by sprite bit (row, col) for a sprite
/// anchored at (x0, y0), with x0 already reduced below 64 and y0 below 32.
pub open spec fn pix_index(x0: int, y0: int, row: int, col: int) -> int {
    wrap_col(x0 + col) + 64 * wrap_row(y0 + row)
}

/// The single-bit mask selecting column `col` of a sprite byte, most
/// significant bit first.
pub open spec fn col_mask(col: int) -> u8 {
    if col == 0 {
        0x80
    } else if col == 1 {
        0x40
    } else if col == 2 {
        0x20
    } else if col == 3 {
        0x10
    } else if col == 4 {
        0x08
    } else if col == 5 {
        0x04
    } else if col == 6 {
        0x02
    } else if col == 7 {
        0x01
    } else {
        0
    }
}

/// Whether column `col` of sprite byte `b` is set.
pub open spec fn sprite_bit(b: u8, col: int) -> bool {
    b & col_mask(col) != 0
}

/// Whether any set bit of the n-row sprite at memory address `i` targets
/// pixel `idx`.
pub open spec fn sprite_covers(mem: Seq<u8>, i: int, x0: int, y0: int, n: int, idx: int) -> bool {
    exists|row: int, col: int|
        0 <= row < n && 0 <= col < 8 && sprite_bit(mem[i + row], col) && pix_index(
            x0,
            y0,
            row,
            col,
        ) == idx
}

/// The framebuffer after the draw: each targeted pixel is XORed, every other
/// pixel keeps its state.
pub open spec fn draw_result(
    disp: Seq<bool>,
    mem: Seq<u8>,
    i: int,
    x0: int,
    y0: int,
    n: int,
) -> Seq<bool> {
    Seq::new(disp.len(), |idx: int| disp[idx] != sprite_covers(mem, i, x0, y0, n, idx))
}

/// Whether the draw turns any previously lit pixel off: some set sprite bit
/// targets a pixel that is on before the draw.
pub open spec fn draw_collides(
    disp: Seq<bool>,
    mem: Seq<u8>,
    i: int,
    x0: int,
    y0: int,
    n: int,
) -> bool {
    exists|row: int, col: int|
        0 <= row < n && 0 <= col < 8 && sprite_bit(mem[i + row], col) && disp[pix_index(
            x0,
            y0,
            row,
            col,
        )]
}

/// Whether one of the first `cols` bits of sprite row `row` is set and
/// targets pixel `idx`: the part of the row the machine has already visited.
pub open spec fn row_covers(
    mem: Seq<u8>,
    i: int,
    x0: int,
    y0: int,
    row: int,
    cols: int,
    idx: int,
) -> bool {
    exists|c: int|
        0 <= c < cols && sprite_bit(mem[i + row], c) && pix_index(x0, y0, row, c) == idx
}

/// Whether one of the first `cols` set bits of sprite row `row` targets a
/// pixel lit in `disp`.
pub open spec fn row_collides(
    disp: Seq<bool>,
    mem: Seq<u8>,
    i: int,
    x0: int,
    y0: int,
    row: int,
    cols: int,
) -> bool {
    exists|c: int|
        0 <= c < cols && sprite_bit(mem[i + row], c) && disp[pix_index(x0, y0, row, c)]
}

/// Distinct sprite bits target distinct pixels: within one sprite of at most
/// 16 rows, no two (row, col) pairs wrap onto the same framebuffer cell.
pub proof fn lemma_pix_index_injective(
    x0: int,
    y0: int,
    r1: int,
    c1: int,
    r2: int,
    c2: int,
)
    requires
        0 <= x0 < 64,
        0 <= y0 < 32,
        0 <= r1 < 16,
        0 <= c1 < 8,
        0 <= r2 < 16,
        0 <= c2 < 8,
        !(r1 == r2 && c1 == c2),
    ensures
        pix_index(x0, y0, r1, c1) != pix_index(x0, y0, r2, c2),
{
    assert(0 <= wrap_col(x0 + c1) < 64);
    assert(0 <= wrap_col(x0 + c2) < 64);
    assert(0 <= wrap_row(y0 + r1) < 32);
    assert(0 <= wrap_row(y0 + r2) < 32);
    if r1 != r2 {
        assert(wrap_row(y0 + r1) != wrap_row(y0 + r2));
    } else {
        assert(wrap_col(x0 + c1) != wrap_col(x0 + c2));
    }
}

/// Each pixel targeted by the sprite lies inside the framebuffer.
pub proof fn lemma_pix_index_in_range(x0: int, y0: int, row: int, col: int)
    requires
        0 <= x0 < 64,
        0 <= y0 < 32,
        0 <= row < 16,
        0 <= col < 8,
    ensures
        0 <= pix_index(x0, y0, row, col) < 2048,
{
}

/// Coverage and collision for `row + 1` rows are coverage and collision for
/// `row` rows joined with the full row `row`.
pub proof fn lemma_row_merge(disp: Seq<bool>, mem: Seq<u8>, i: int, x0: int, y0: int, row: int)
    requires
        0 <= row,
    ensures
        forall|idx: int|
            #[trigger] sprite_covers(mem, i, x0, y0, row + 1, idx) == (sprite_covers(
                mem,
                i,
                x0,
                y0,
                row,
                idx,
            ) || row_covers(mem, i, x0, y0, row, 8, idx)),
        draw_collides(disp, mem, i, x0, y0, row + 1) == (draw_collides(disp, mem, i, x0, y0, row)
            || row_collides(disp, mem, i, x0, y0, row, 8)),
{
    assert forall|idx: int|
        #[trigger] sprite_covers(mem, i, x0, y0, row + 1, idx) == (sprite_covers(
            mem,
            i,
            x0,
            y0,
            row,
            idx,
        ) || row_covers(mem, i, x0, y0, row, 8, idx)) by {
        if sprite_covers(mem, i, x0, y0, row + 1, idx) {
            let (r, c) = choose|r: int, c: int|
                0 <= r < row + 1 && 0 <= c < 8 && sprite_bit(mem[i + r], c) && pix_index(
                    x0,
                    y0,
                    r,
                    c,
                ) == idx;
            if r < row {
                assert(sprite_covers(mem, i, x0, y0, row, idx));
            } else {
                assert(row_covers(mem, i, x0, y0, row, 8, idx));
            }
        }
        if sprite_covers(mem, i, x0, y0, row, idx) {
            let (r, c) = choose|r: int, c: int|
                0 <= r < row && 0 <= c < 8 && sprite_bit(mem[i + r], c) && pix_index(x0, y0, r, c)
                    == idx;
            assert(0 <= r < row + 1 && 0 <= c < 8 && sprite_bit(mem[i + r], c) && pix_index(
                x0,
                y0,
                r,
                c,
            ) == idx);
            assert(sprite_covers(mem, i, x0, y0, row + 1, idx));
        }
        if row_covers(mem, i, x0, y0, row, 8, idx) {
            let c = choose|c: int|
                0 <= c < 8 && sprite_bit(mem[i + row], c) && pix_index(x0, y0, row, c) == idx;
            assert(0 <= row < row + 1 && 0 <= c < 8 && sprite_bit(mem[i + row], c) && pix_index(
                x0,
                y0,
                row,
                c,
            ) == idx);
            assert(sprite_covers(mem, i, x0, y0, row + 1, idx));
        }
    }
    if draw_collides(disp, mem, i, x0, y0, row + 1) {
        let (r, c) = choose|r: int, c: int|
            0 <= r < row + 1 && 0 <= c < 8 && sprite_bit(mem[i + r], c) && disp[pix_index(
                x0,
                y0,
                r,
                c,
            )];
        if r < row {
            assert(draw_collides(disp, mem, i, x0, y0, row));
        } else {
            assert(row_collides(disp, mem, i, x0, y0, row, 8));
        }
    }
    if draw_collides(disp, mem, i, x0, y0, row) {
        let (r, c) = choose|r: int, c: int|
            0 <= r < row && 0 <= c < 8 && sprite_bit(mem[i + r], c) && disp[pix_index(
                x0,
                y0,
                r,
                c,
            )];
        assert(0 <= r < row + 1 && 0 <= c < 8 && sprite_bit(mem[i + r], c) && disp[pix_index(
            x0,
            y0,
            r,
            c,
        )]);
        assert(draw_collides(disp, mem, i, x0, y0, row + 1));
    }
    if row_collides(disp, mem, i, x0, y0, row, 8) {
        let c = choose|c: int|
            0 <= c < 8 && sprite_bit(mem[i + row], c) && disp[pix_index(x0, y0, row, c)];
        assert(0 <= row < row + 1 && 0 <= c < 8 && sprite_bit(mem[i + row], c) && disp[pix_index(
            x0,
            y0,
            row,
            c,
        )]);
        assert(draw_collides(disp, mem, i, x0, y0, row + 1));
    }
}

/// Visiting one more column whose sprite bit is set adds exactly the bit's
/// own target pixel to the row's coverage, and its lit state to the row's
/// collision.
pub proof fn lemma_col_step_set(
    disp: Seq<bool>,
    mem: Seq<u8>,
    i: int,
    x0: int,
    y0: int,
    row: int,
    col: int,
)
    requires
        0 <= col < 8,
        sprite_bit(mem[i + row], col),
    ensures
        forall|idx: int|
            #[trigger] row_covers(mem, i, x0, y0, row, col + 1, idx) == (row_covers(
                mem,
                i,
                x0,
                y0,
                row,
                col,
                idx,
            ) || idx == pix_index(x0, y0, row, col)),
        row_collides(disp, mem, i, x0, y0, row, col + 1) == (row_collides(
            disp,
            mem,
            i,
            x0,
            y0,
            row,
            col,
        ) || disp[pix_index(x0, y0, row, col)]),
{
    assert forall|idx: int|
        #[trigger] row_covers(mem, i, x0, y0, row, col + 1, idx) == (row_covers(
            mem,
            i,
            x0,
            y0,
            row,
            col,
            idx,
        ) || idx == pix_index(x0, y0, row, col)) by {
        if row_covers(mem, i, x0, y0, row, col + 1, idx) {
            let c = choose|c: int|
                0 <= c < col + 1 && sprite_bit(mem[i + row], c) && pix_index(x0, y0, row, c)
                    == idx;
            if c < col {
                assert(row_covers(mem, i, x0, y0, row, col, idx));
            }
        }
        if row_covers(mem, i, x0, y0, row, col, idx) {
            let c = choose|c: int|
                0 <= c < col && sprite_bit(mem[i + row], c) && pix_index(x0, y0, row, c) == idx;
            assert(0 <= c < col + 1 && sprite_bit(mem[i + row], c) && pix_index(x0, y0, row, c)
                == idx);
            assert(row_covers(mem, i, x0, y0, row, col + 1, idx));
        }
        if idx == pix_index(x0, y0, row, col) {
            assert(0 <= col < col + 1 && sprite_bit(mem[i + row], col) && pix_index(
                x0,
                y0,
                row,
                col,
            ) == idx);
            assert(row_covers(mem, i, x0, y0, row, col + 1, idx));
        }
    }
    if row_collides(disp, mem, i, x0, y0, row, col + 1) {
        let c = choose|c: int|
            0 <= c < col + 1 && sprite_bit(mem[i + row], c) && disp[pix_index(x0, y0, row, c)];
        if c < col {
            assert(row_collides(disp, mem, i, x0, y0, row, col));
        }
    }
    if row_collides(disp, mem, i, x0, y0, row, col) {
        let c = choose|c: int|
            0 <= c < col && sprite_bit(mem[i + row], c) && disp[pix_index(x0, y0, row, c)];
        assert(0 <= c < col + 1 && sprite_bit(mem[i + row], c) && disp[pix_index(x0, y0, row, c)]);
        assert(row_collides(disp, mem, i, x0, y0, row, col + 1));
    }
    if disp[pix_index(x0, y0, row, col)] {
        assert(0 <= col < col + 1 && sprite_bit(mem[i + row], col) && disp[pix_index(
            x0,
            y0,
            row,
            col,
        )]);
        assert(row_collides(disp, mem, i, x0, y0, row, col + 1));
    }
}

/// Visiting one more column whose sprite bit is clear changes neither the
/// row's coverage nor its collision.
pub proof fn lemma_col_step_clear(
    disp: Seq<bool>,
    mem: Seq<u8>,
    i: int,
    x0: int,
    y0: int,
    row: int,
    col: int,
)
    requires
        0 <= col < 8,
        !sprite_bit(mem[i + row], col),
    ensures
        forall|idx: int|
            #[trigger] row_covers(mem, i, x0, y0, row, col + 1, idx) == row_covers(
                mem,
                i,
                x0,
                y0,
                row,
                col,
                idx,
            ),
        row_collides(disp, mem, i, x0, y0, row, col + 1) == row_collides(
            disp,
            mem,
            i,
            x0,
            y0,
            row,
            col,
        ),
{
    assert forall|idx: int|
        #[trigger] row_covers(mem, i, x0, y0, row, col + 1, idx) == row_covers(
            mem,
            i,
            x0,
            y0,
            row,
            col,
            idx,
        ) by {
        if row_covers(mem, i, x0, y0, row, col + 1, idx) {
            let c = choose|c: int|
                0 <= c < col + 1 && sprite_bit(mem[i + row], c) && pix_index(x0, y0, row, c)
                    == idx;
            assert(c < col);
            assert(row_covers(mem, i, x0, y0, row, col, idx));
        }
        if row_covers(mem, i, x0, y0, row, col, idx) {
            let c = choose|c: int|
                0 <= c < col && sprite_bit(mem[i + row], c) && pix_index(x0, y0, row, c) == idx;
            assert(0 <= c < col + 1 && sprite_bit(mem[i + row], c) && pix_index(x0, y0, row, c)
                == idx);
            assert(row_covers(mem, i, x0, y0, row, col + 1, idx));
        }
    }
    if row_collides(disp, mem, i, x0, y0, row, col + 1) {
        let c = choose|c: int|
            0 <= c < col + 1 && sprite_bit(mem[i + row], c) && disp[pix_index(x0, y0, row, c)];
        assert(c < col);
        assert(row_collides(disp, mem, i, x0, y0, row, col));
    }
    if row_collides(disp, mem, i, x0, y0, row, col) {
        let c = choose|c: int|
            0 <= c < col && sprite_bit(mem[i + row], c) && disp[pix_index(x0, y0, row, c)];
        assert(0 <= c < col + 1 && sprite_bit(mem[i + row], c) && disp[pix_index(x0, y0, row, c)]);
        assert(row_collides(disp, mem, i, x0, y0, row, col + 1));
    }
}

/// No sprite bit visited before (row, col) — an earlier row, or an earlier
/// column of the same row — targets the pixel that (row, col) targets.
pub proof fn lemma_fresh_target(mem: Seq<u8>, i: int, x0: int, y0: int, row: int, col: int)
    requires
        0 <= x0 < 64,
        0 <= y0 < 32,
        0 <= row < 16,
        0 <= col < 8,
    ensures
        !sprite_covers(mem, i, x0, y0, row, pix_index(x0, y0, row, col)),
        !row_covers(mem, i, x0, y0, row, col, pix_index(x0, y0, row, col)),
{
    let t = pix_index(x0, y0, row, col);
    if sprite_covers(mem, i, x0, y0, row, t) {
        let (r, c) = choose|r: int, c: int|
            0 <= r < row && 0 <= c < 8 && sprite_bit(mem[i + r], c) && pix_index(x0, y0, r, c)
                == t;
        lemma_pix_index_injective(x0, y0, r, c, row, col);
    }
    if row_covers(mem, i, x0, y0, row, col, t) {
        let c = choose|c: int|
            0 <= c < col && sprite_bit(mem[i + row], c) && pix_index(x0, y0, row, c) == t;
        lemma_pix_index_injective(x0, y0, row, c, row, col);
    }
}

} // verus!
