//! Drawing the initials of a text avatar: a glyph of the 5x7 font, scaled up,
//! clipped to the picture.
use crate::text::{ascii_upper, font_glyph, get_char_data};
use crate::texture::Texture;
use crate::tint::Rgba;
use vstd::prelude::*;

verus! {

/// Bit `4 - col` of a glyph row: the glyph's pixel in column `col` (0 is leftmost).
pub open spec fn glyph_bit(row: u8, col: int) -> bool {
    0 <= col < 5 && ((row >> ((4 - col) as u8)) & 1u8) == 1u8
}

/// Whether a glyph drawn `scale` times larger with its top-left corner at `(x, y)`
/// covers picture cell `(i, j)`.
pub open spec fn glyph_covers(rows: [u8; 7], x: i32, y: i32, scale: u32, i: int, j: int) -> bool {
    let dx = i - x;
    let dy = j - y;
    &&& scale > 0
    &&& 0 <= dx < 5 * scale
    &&& 0 <= dy < 7 * scale
    &&& glyph_bit(rows@[dy / scale as int], dx / scale as int)
}

/// The picture after drawing character `c`: every cell its glyph covers takes
/// `color`, every other cell stays; a character the font lacks draws nothing.
pub open spec fn after_glyph(old: Texture, new: Texture, c: char, x: i32, y: i32, scale: u32, color: Rgba) -> bool {
    &&& new.width == old.width
    &&& new.height == old.height
    &&& new.wf()
    &&& forall|i: int, j: int|
        0 <= i < old.width && 0 <= j < old.height ==> #[trigger] new.texel(i, j) == match font_glyph(
            ascii_upper(c),
        ) {
            Some(rows) => if glyph_covers(rows, x, y, scale, i, j) {
                color
            } else {
                old.texel(i, j)
            },
            None => old.texel(i, j),
        }
}

proof fn lemma_cell_index_injective(w: int, a: int, b: int, c: int, d: int)
    requires
        0 <= a < w,
        0 <= c < w,
        0 <= b,
        0 <= d,
        b * w + a == d * w + c,
    ensures
        a == c,
        b == d,
{
    if b < d {
        assert(b * w + a < d * w + c) by (nonlinear_arith)
            requires
                0 <= a < w,
                0 <= c,
                b < d,
        ;
    } else if d < b {
        assert(d * w + c < b * w + a) by (nonlinear_arith)
            requires
                0 <= c < w,
                0 <= a,
                d < b,
        ;
    }
}

proof fn lemma_cell_index_in_range(w: int, h: int, a: int, b: int)
    requires
        0 <= a < w,
        0 <= b < h,
    ensures
        0 <= b * w + a < w * h,
{
    assert(0 <= b * w + a < w * h) by (nonlinear_arith)
        requires
            0 <= a < w,
            0 <= b < h,
    ;
}

proof fn lemma_div_below(d: int, s: int, k: int)
    requires
        s > 0,
        0 <= d < k * s,
    ensures
        0 <= d / s < k,
{
    assert(0 <= d / s < k) by (nonlinear_arith)
        requires
            s > 0,
            0 <= d < k * s,
    ;
}

/// Draw character `c` of the 5x7 font, `scale` times larger, with its top-left
/// corner at `(x, y)`, in `color`; the parts outside the picture are dropped.
pub fn draw_char(image: &mut Texture, c: char, x: i32, y: i32, scale: u32, color: Rgba)
    requires
        old(image).wf(),
    ensures
        after_glyph(*old(image), *final(image), c, x, y, scale, color),
{
    let rows = match get_char_data(c) {
        Some(rows) => rows,
        None => return,
    };
    let ghost orig = *image;
    let w = image.width as i64;
    let h = image.height as i64;
    let s = scale as i64;
    let x0: i64 = if (x as i64) < 0 { 0 } else { x as i64 };
    let y0: i64 = if (y as i64) < 0 { 0 } else { y as i64 };
    let x1: i64 = if (x as i64) + 5 * s < w { (x as i64) + 5 * s } else { w };
    let y1: i64 = if (y as i64) + 7 * s < h { (y as i64) + 7 * s } else { h };
    proof {
        assert forall|i: int, j: int|
            0 <= i < orig.width && 0 <= j < orig.height && glyph_covers(rows, x, y, scale, i, j)
                implies x0 <= i < x1 && y0 <= j < y1 by {}
    }
    let mut py: i64 = y0;
    while py < y1
        invariant
            image.wf(),
            orig.wf(),
            image.width == orig.width,
            image.height == orig.height,
            w == orig.width,
            h == orig.height,
            s == scale,
            0 <= x0,
            0 <= y0,
            x1 <= w,
            y1 <= h,
            x0 >= x as i64,
            y0 >= y as i64,
            x1 <= x as i64 + 5 * s,
            y1 <= y as i64 + 7 * s,
            y0 <= py,
            font_glyph(ascii_upper(c)) == Some(rows),
            forall|i: int, j: int|
                0 <= i < orig.width && 0 <= j < orig.height && glyph_covers(rows, x, y, scale, i, j)
                    ==> x0 <= i < x1 && y0 <= j < y1,
            forall|i: int, j: int|
                0 <= i < orig.width && 0 <= j < orig.height ==> #[trigger] image.texel(i, j) == if j
                    < py && glyph_covers(rows, x, y, scale, i, j) {
                    color
                } else {
                    orig.texel(i, j)
                },
        decreases y1 - py,
    {
        let mut px: i64 = x0;
        while px < x1
            invariant
                image.wf(),
                orig.wf(),
                image.width == orig.width,
                image.height == orig.height,
                w == orig.width,
                h == orig.height,
                s == scale,
                0 <= x0,
                0 <= y0,
                x1 <= w,
                y1 <= h,
                x0 >= x as i64,
                y0 >= y as i64,
                x1 <= x as i64 + 5 * s,
                y1 <= y as i64 + 7 * s,
                y0 <= py < y1,
                x0 <= px,
                font_glyph(ascii_upper(c)) == Some(rows),
                forall|i: int, j: int|
                    0 <= i < orig.width && 0 <= j < orig.height && glyph_covers(rows, x, y, scale, i, j)
                        ==> x0 <= i < x1 && y0 <= j < y1,
                forall|i: int, j: int|
                    0 <= i < orig.width && 0 <= j < orig.height ==> #[trigger] image.texel(i, j) == if (j
                        < py || (j == py && i < px)) && glyph_covers(rows, x, y, scale, i, j) {
                        color
                    } else {
                        orig.texel(i, j)
                    },
            decreases x1 - px,
        {
            let dx: i64 = px - x as i64;
            let dy: i64 = py - y as i64;
            proof {
                lemma_div_below(dx as int, s as int, 5);
                lemma_div_below(dy as int, s as int, 7);
            }
            let col: i64 = dx / s;
            let row: i64 = dy / s;
            let bits: u8 = rows[row as usize];
            let shift: u8 = (4 - col) as u8;
            if (bits >> shift) & 1u8 == 1u8 {
                let ghost before = *image;
                let idx = image.cell_index(px as u32, py as u32);
                image.pixels.set(idx, color);
                proof {
                    assert(glyph_covers(rows, x, y, scale, px as int, py as int));
                    assert forall|i: int, j: int|
                        0 <= i < orig.width && 0 <= j < orig.height implies #[trigger] image.texel(i, j)
                            == if (j < py || (j == py && i < px + 1)) && glyph_covers(rows, x, y, scale, i, j) {
                            color
                        } else {
                            orig.texel(i, j)
                        } by {
                        lemma_cell_index_in_range(w as int, h as int, i, j);
                        if j * (w as int) + i == idx as int {
                            lemma_cell_index_injective(w as int, i, j, px as int, py as int);
                        } else {
                            assert(image.texel(i, j) == before.texel(i, j));
                            if i == px as int && j == py as int {
                                assert(false);
                            }
                        }
                    }
                }
            } else {
                proof {
                    assert(!glyph_covers(rows, x, y, scale, px as int, py as int));
                }
            }
            px = px + 1;
        }
        py = py + 1;
    }
}

} // verus!
