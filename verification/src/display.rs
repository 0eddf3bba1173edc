//! The display: 2048 boolean cells, touched only by the clear instruction
//! and by the sprite-drawing algorithm below. Drawing XORs sprite bits onto
//! the grid, clips rows and columns at the edges instead of wrapping, and
//! reports whether any lit pixel was turned off.
use vstd::prelude::*;

use vstd::arithmetic::div_mod::lemma_fundamental_div_mod;
use vstd::arithmetic::div_mod::lemma_fundamental_div_mod_converse;

verus! {

/// Bit `c` of a sprite row byte, counted from the left: column 0 is the
/// most significant bit.
pub open spec fn sprite_bit(b: u8, c: int) -> bool {
    ((b >> ((7 - c) as u8)) & 1) == 1
}

/// Whether drawing `sprite` with its top-left corner at `(x0, y0)` toggles
/// the display cell `idx`. Rows and columns that would pass the edges are
/// clipped: a cell is toggled only where a set sprite bit lands on it.
pub open spec fn toggled(x0: int, y0: int, sprite: Seq<u8>, idx: int) -> bool {
    let py = idx / 64;
    let px = idx % 64;
    &&& y0 <= py < y0 + sprite.len()
    &&& x0 <= px < x0 + 8
    &&& sprite_bit(sprite[py - y0], px - x0)
}

/// The value of cell `idx` after the draw: XORed with the sprite bit that
/// lands on it, unchanged where none does.
pub open spec fn draw_cell(d: Seq<bool>, x0: int, y0: int, sprite: Seq<u8>, idx: int) -> bool {
    if toggled(x0, y0, sprite, idx) { !d[idx] } else { d[idx] }
}

/// The whole display after the draw.
pub open spec fn spec_draw(d: Seq<bool>, x0: int, y0: int, sprite: Seq<u8>) -> Seq<bool> {
    Seq::new(d.len(), |idx: int| draw_cell(d, x0, y0, sprite, idx))
}

/// Whether the draw collides: some set sprite bit, after clipping, lands on
/// a cell that was already lit.
pub open spec fn spec_collision(d: Seq<bool>, x0: int, y0: int, sprite: Seq<u8>) -> bool {
    exists|idx: int| 0 <= idx < d.len() && toggled(x0, y0, sprite, idx) && d[idx]
}

/// The part of the sprite already drawn when the scan stands at row `r`,
/// column `c`: every toggle in an earlier row, or in the current row to the
/// left of the current column.
pub open spec fn part_drawn(x0: int, y0: int, sprite: Seq<u8>, idx: int, r: int, c: int) -> bool {
    toggled(x0, y0, sprite, idx) && (idx / 64 < y0 + r || (idx / 64 == y0 + r && idx % 64 < x0 + c))
}

/// Draws `sprite` with its top-left corner at `(x0, y0)`, toggling the cell
/// under each set bit and clipping at the right and bottom edges. Returns
/// the collision flag: whether some toggle turned a lit cell off.
#[verifier::rlimit(60)]
pub fn draw_sprite(disp: &mut Vec<bool>, x0: u8, y0: u8, sprite: &Vec<u8>) -> (col: bool)
    requires
        old(disp)@.len() == 2048,
        x0 < 64,
        y0 < 32,
        sprite@.len() <= 16,
    ensures
        final(disp)@ == spec_draw(old(disp)@, x0 as int, y0 as int, sprite@),
        col == spec_collision(old(disp)@, x0 as int, y0 as int, sprite@),
{
    let ghost d0: Seq<bool> = old(disp)@;
    let ghost gx: int = x0 as int;
    let ghost gy: int = y0 as int;
    let slen = sprite.len();
    let hmax: usize = 32 - (y0 as usize);
    let height: usize = if slen < hmax { slen } else { hmax };
    let wmax: usize = 64 - (x0 as usize);
    let width: usize = if 8 < wmax { 8usize } else { wmax };
    let mut col = false;
    let mut r: usize = 0;
    while r < height
        invariant
            disp@.len() == 2048,
            d0.len() == 2048,
            x0 < 64,
            y0 < 32,
            gx == x0 as int,
            gy == y0 as int,
            slen == sprite@.len(),
            slen <= 16,
            height == (if slen < 32 - gy { slen as int } else { 32 - gy }),
            width == (if gx < 56 { 8int } else { 64 - gx }),
            r <= height,
            forall|idx: int| 0 <= idx < 2048 ==> disp@[idx] == (
                if part_drawn(gx, gy, sprite@, idx, r as int, 0) { !d0[idx] } else { d0[idx] }
            ),
            col == exists|idx: int| 0 <= idx < 2048
                && part_drawn(gx, gy, sprite@, idx, r as int, 0) && d0[idx],
        decreases height - r,
    {
        let byte = sprite[r];
        let py: usize = (y0 as usize) + r;
        let mut c: usize = 0;
        while c < width
            invariant
                disp@.len() == 2048,
                d0.len() == 2048,
                x0 < 64,
                y0 < 32,
                gx == x0 as int,
                gy == y0 as int,
                slen == sprite@.len(),
                slen <= 16,
                height == (if slen < 32 - gy { slen as int } else { 32 - gy }),
                width == (if gx < 56 { 8int } else { 64 - gx }),
                r < height,
                py == gy + r,
                byte == sprite@[r as int],
                c <= width,
                forall|idx: int| 0 <= idx < 2048 ==> disp@[idx] == (
                    if part_drawn(gx, gy, sprite@, idx, r as int, c as int) { !d0[idx] } else { d0[idx] }
                ),
                col == exists|idx: int| 0 <= idx < 2048
                    && part_drawn(gx, gy, sprite@, idx, r as int, c as int) && d0[idx],
            decreases width - c,
        {
            let px: usize = (x0 as usize) + c;
            let pos: usize = py * 64 + px;
            proof {
                assert(pos < 2048);
                lemma_fundamental_div_mod_converse(pos as int, 64, py as int, px as int);
                assert(pos as int / 64 == py as int && pos as int % 64 == px as int);
                assert(!part_drawn(gx, gy, sprite@, pos as int, r as int, c as int));
            }
            let sh: u8 = (7 - c) as u8;
            let bit_set: bool = ((byte >> sh) & 1) == 1;
            proof {
                assert(bit_set == sprite_bit(sprite@[r as int], c as int));
                assert(bit_set == toggled(gx, gy, sprite@, pos as int));
            }
            if bit_set {
                if disp[pos] {
                    disp[pos] = false;
                    col = true;
                } else {
                    disp[pos] = true;
                }
            }
            proof {
                let nc = c as int + 1;
                assert forall|idx: int| 0 <= idx < 2048 implies disp@[idx] == (
                    if part_drawn(gx, gy, sprite@, idx, r as int, nc) { !d0[idx] } else { d0[idx] }
                ) by {
                    lemma_fundamental_div_mod(idx, 64);
                    if idx != pos as int {
                        assert(disp@[idx] == (
                            if part_drawn(gx, gy, sprite@, idx, r as int, c as int) { !d0[idx] } else { d0[idx] }
                        ));
                        assert(part_drawn(gx, gy, sprite@, idx, r as int, nc)
                            == part_drawn(gx, gy, sprite@, idx, r as int, c as int));
                    }
                }
                if bit_set && d0[pos as int] {
                    assert(part_drawn(gx, gy, sprite@, pos as int, r as int, nc) && d0[pos as int]);
                    assert(col);
                    assert(col == exists|idx: int| 0 <= idx < 2048
                        && part_drawn(gx, gy, sprite@, idx, r as int, nc) && d0[idx]);
                } else {
                    assert forall|idx: int| 0 <= idx < 2048 implies
                        (part_drawn(gx, gy, sprite@, idx, r as int, nc) && d0[idx])
                        == (part_drawn(gx, gy, sprite@, idx, r as int, c as int) && d0[idx])
                    by {
                        lemma_fundamental_div_mod(idx, 64);
                    }
                    assert((exists|idx: int| 0 <= idx < 2048
                        && part_drawn(gx, gy, sprite@, idx, r as int, nc) && d0[idx])
                        == (exists|idx: int| 0 <= idx < 2048
                        && part_drawn(gx, gy, sprite@, idx, r as int, c as int) && d0[idx]));
                }
            }
            c += 1;
        }
        proof {
            let nr = r as int + 1;
            assert forall|idx: int| 0 <= idx < 2048 implies
                part_drawn(gx, gy, sprite@, idx, nr, 0)
                == part_drawn(gx, gy, sprite@, idx, r as int, width as int)
            by {
                lemma_fundamental_div_mod(idx, 64);
            }
        }
        r += 1;
    }
    proof {
        assert forall|idx: int| 0 <= idx < 2048 implies
            part_drawn(gx, gy, sprite@, idx, height as int, 0) == toggled(gx, gy, sprite@, idx)
        by {
            lemma_fundamental_div_mod(idx, 64);
        }
        assert(disp@ =~= spec_draw(d0, gx, gy, sprite@));
        assert(col == spec_collision(d0, gx, gy, sprite@));
    }
    col
}

} // verus!
