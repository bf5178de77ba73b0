//! Skin-image region rules: the transparency convention of old skin images and
//! the overlay of one texel grid onto another.
use crate::texture::Texture;
use crate::tint::Rgba;
use vstd::prelude::*;

verus! {

/// Cell `(a, b)` and cell `(c, d)` of a grid `w` wide have the same row-major
/// index only when they are the same cell.
proof fn lemma_cell_index_injective(w: int, a: int, b: int, c: int, d: int)
    requires
        0 <= a < w,
        0 <= c < w,
        0 <= b,
        0 <= d,
        b * w + a == d * w + c,
    ensures
        a == c,
        b == d,
{
    if b < d {
        assert(b * w + a < d * w + c) by (nonlinear_arith)
            requires
                0 <= a < w,
                0 <= c,
                b < d,
        ;
    } else if d < b {
        assert(d * w + c < b * w + a) by (nonlinear_arith)
            requires
                0 <= c < w,
                0 <= a,
                d < b,
        ;
    }
}

proof fn lemma_cell_index_in_range(w: int, h: int, a: int, b: int)
    requires
        0 <= a < w,
        0 <= b < h,
    ensures
        0 <= b * w + a < w * h,
{
    assert(0 <= b * w + a < w * h) by (nonlinear_arith)
        requires
            0 <= a < w,
            0 <= b < h,
    ;
}

/// A region of `w` by `h` cells at `(x, y)` that lies inside the grid (or is empty).
pub open spec fn region_ok(img: Texture, x: u32, y: u32, w: u32, h: u32) -> bool {
    w == 0 || h == 0 || (x + w <= img.width && y + h <= img.height)
}

pub open spec fn in_region(x: u32, y: u32, w: u32, h: u32, i: int, j: int) -> bool {
    x <= i < x + w && y <= j < y + h
}

/// Some texel of the region is less than half opaque.
pub open spec fn region_has_translucent(img: Texture, x: u32, y: u32, w: u32, h: u32) -> bool {
    exists|i: int, j: int| in_region(x, y, w, h, i, j) && #[trigger] img.texel(i, j).a < 128
}

/// Whether any texel of the region is less than half opaque (alpha below 128).
pub fn is_image_region_transparent_to_minecraft(
    img: &Texture,
    x: u32,
    y: u32,
    width: u32,
    height: u32,
) -> (r: bool)
    requires
        img.wf(),
        region_ok(*img, x, y, width, height),
    ensures
        r == region_has_translucent(*img, x, y, width, height),
{
    if width == 0 || height == 0 {
        return false;
    }
    let mut cy: u32 = y;
    while cy < y + height
        invariant
            img.wf(),
            x + width <= img.width,
            y + height <= img.height,
            y <= cy <= y + height,
            forall|i: int, j: int|
                in_region(x, y, width, height, i, j) && j < cy ==> #[trigger] img.texel(i, j).a >= 128,
        decreases y + height - cy,
    {
        let mut cx: u32 = x;
        while cx < x + width
            invariant
                img.wf(),
                x + width <= img.width,
                y + height <= img.height,
                y <= cy < y + height,
                x <= cx <= x + width,
                forall|i: int, j: int|
                    in_region(x, y, width, height, i, j) && (j < cy || (j == cy && i < cx))
                        ==> #[trigger] img.texel(i, j).a >= 128,
            decreases x + width - cx,
        {
            let p = img.get_pixel(cx, cy);
            if p.a < 128 {
                proof {
                    assert(img.texel(cx as int, cy as int).a < 128);
                    assert(in_region(x, y, width, height, cx as int, cy as int));
                }
                return true;
            }
            cx = cx + 1;
        }
        cy = cy + 1;
    }
    false
}

/// The grid after the transparency rule over a region: left alone when some
/// texel there is already translucent, else every texel of the region made
/// fully transparent (its colour kept).
pub open spec fn after_transparency(old: Texture, new: Texture, x: u32, y: u32, w: u32, h: u32) -> bool {
    &&& new.width == old.width
    &&& new.height == old.height
    &&& new.wf()
    &&& forall|i: int, j: int|
        0 <= i < old.width && 0 <= j < old.height ==> #[trigger] new.texel(i, j) == if !region_has_translucent(
            old,
            x,
            y,
            w,
            h,
        ) && in_region(x, y, w, h, i, j) {
            Rgba { a: 0, ..old.texel(i, j) }
        } else {
            old.texel(i, j)
        }
}

/// Apply the transparency rule of old skin images to a region.
pub fn apply_minecraft_transparency_region(
    img: &mut Texture,
    x: u32,
    y: u32,
    width: u32,
    height: u32,
)
    requires
        old(img).wf(),
        region_ok(*old(img), x, y, width, height),
    ensures
        after_transparency(*old(img), *final(img), x, y, width, height),
{
    if is_image_region_transparent_to_minecraft(img, x, y, width, height) {
        return;
    }
    if width == 0 || height == 0 {
        return;
    }
    let ghost orig = *img;
    let mut cy: u32 = y;
    while cy < y + height
        invariant
            img.wf(),
            orig.wf(),
            img.width == orig.width,
            img.height == orig.height,
            x + width <= orig.width,
            y + height <= orig.height,
            !region_has_translucent(orig, x, y, width, height),
            y <= cy <= y + height,
            forall|i: int, j: int|
                0 <= i < orig.width && 0 <= j < orig.height ==> #[trigger] img.texel(i, j) == if in_region(
                    x,
                    y,
                    width,
                    height,
                    i,
                    j,
                ) && j < cy {
                    Rgba { a: 0, ..orig.texel(i, j) }
                } else {
                    orig.texel(i, j)
                },
        decreases y + height - cy,
    {
        let mut cx: u32 = x;
        while cx < x + width
            invariant
                img.wf(),
                orig.wf(),
                img.width == orig.width,
                img.height == orig.height,
                x + width <= orig.width,
                y + height <= orig.height,
                y <= cy < y + height,
                x <= cx <= x + width,
                forall|i: int, j: int|
                    0 <= i < orig.width && 0 <= j < orig.height ==> #[trigger] img.texel(i, j)
                        == if in_region(x, y, width, height, i, j) && (j < cy || (j == cy && i < cx)) {
                        Rgba { a: 0, ..orig.texel(i, j) }
                    } else {
                        orig.texel(i, j)
                    },
            decreases x + width - cx,
        {
            let p = img.get_pixel(cx, cy);
            let ghost before = *img;
            let w = img.width;
            proof {
                lemma_cell_index_in_range(w as int, img.height as int, cx as int, cy as int);
                assert((w as int) * (img.height as int) == (img.width as int) * (img.height as int));
            }
            let idx: usize = img.cell_index(cx, cy);
            img.pixels.set(idx, Rgba { r: p.r, g: p.g, b: p.b, a: 0 });
            proof {
                assert forall|i: int, j: int|
                    0 <= i < orig.width && 0 <= j < orig.height implies #[trigger] img.texel(i, j)
                        == if in_region(x, y, width, height, i, j) && (j < cy || (j == cy && i < cx + 1)) {
                        Rgba { a: 0, ..orig.texel(i, j) }
                    } else {
                        orig.texel(i, j)
                    } by {
                    lemma_cell_index_in_range(w as int, img.height as int, i, j);
                    if j * (w as int) + i == idx as int {
                        lemma_cell_index_injective(w as int, i, j, cx as int, cy as int);
                    } else {
                        assert(img.texel(i, j) == before.texel(i, j));
                        if i == cx as int && j == cy as int {
                            assert(false);
                        }
                    }
                }
            }
            cx = cx + 1;
        }
        cy = cy + 1;
    }
}

/// Apply the transparency rule of old skin images to the whole grid.
pub fn apply_minecraft_transparency(img: &mut Texture)
    requires
        old(img).wf(),
    ensures
        after_transparency(*old(img), *final(img), 0, 0, old(img).width, old(img).height),
{
    let (w, h) = img.dimensions();
    apply_minecraft_transparency_region(img, 0, 0, w, h);
}

/// `a + b`, or the largest `u32` when that overflows.
pub open spec fn sat_add(a: u32, b: u32) -> u32 {
    if a + b > u32::MAX {
        u32::MAX
    } else {
        (a + b) as u32
    }
}

/// `a - b`, or zero when `b` is larger.
pub open spec fn sat_sub(a: u32, b: u32) -> u32 {
    if a < b {
        0
    } else {
        (a - b) as u32
    }
}

/// How many columns of a `top` grid placed at `x` land on a `bottom` grid
/// (`image::imageops::overlay_bounds`, per axis).
pub open spec fn overlay_extent(bottom: u32, top: u32, x: u32) -> u32 {
    let end = sat_add(top, x);
    let end = if end < bottom {
        end
    } else {
        bottom
    };
    sat_sub(end, x)
}

fn overlay_extent_of(bottom: u32, top: u32, x: u32) -> (r: u32)
    ensures
        r == overlay_extent(bottom, top, x),
        r <= top,
        x + r <= bottom || r == 0,
{
    let end: u32 = if top as u64 + x as u64 > u32::MAX as u64 {
        u32::MAX
    } else {
        top + x
    };
    let end: u32 = if end < bottom {
        end
    } else {
        bottom
    };
    if end < x {
        0
    } else {
        end - x
    }
}

/// The grid after overlaying `top` at `(x, y)`: every texel of `top` that lands
/// on the grid and is not fully transparent replaces the texel below it, made
/// fully opaque; every other texel stays.
pub open spec fn after_overlay(old: Texture, new: Texture, top: Texture, x: u32, y: u32) -> bool {
    let rw = overlay_extent(old.width, top.width, x);
    let rh = overlay_extent(old.height, top.height, y);
    &&& new.width == old.width
    &&& new.height == old.height
    &&& new.wf()
    &&& forall|i: int, j: int|
        0 <= i < old.width && 0 <= j < old.height ==> #[trigger] new.texel(i, j) == if in_region(
            x,
            y,
            rw,
            rh,
            i,
            j,
        ) && top.texel(i - x, j - y).a != 0 {
            Rgba { a: 255, ..top.texel(i - x, j - y) }
        } else {
            old.texel(i, j)
        }
}

/// Draw `top` onto `bottom` at `(x, y)`, cropped to `bottom`; transparent texels
/// of `top` are skipped, the others are drawn fully opaque.
pub fn fast_overlay(bottom: &mut Texture, top: &Texture, x: u32, y: u32)
    requires
        old(bottom).wf(),
        top.wf(),
    ensures
        after_overlay(*old(bottom), *final(bottom), *top, x, y),
{
    let rw = overlay_extent_of(bottom.width, top.width, x);
    let rh = overlay_extent_of(bottom.height, top.height, y);
    let ghost orig = *bottom;
    let mut ty: u32 = 0;
    while ty < rh
        invariant
            bottom.wf(),
            orig.wf(),
            top.wf(),
            bottom.width == orig.width,
            bottom.height == orig.height,
            rw == overlay_extent(orig.width, top.width, x),
            rh == overlay_extent(orig.height, top.height, y),
            rw <= top.width,
            rh <= top.height,
            x + rw <= orig.width || rw == 0,
            y + rh <= orig.height || rh == 0,
            ty <= rh,
            forall|i: int, j: int|
                0 <= i < orig.width && 0 <= j < orig.height ==> #[trigger] bottom.texel(i, j) == if in_region(
                    x,
                    y,
                    rw,
                    rh,
                    i,
                    j,
                ) && j < y + ty && top.texel(i - x, j - y).a != 0 {
                    Rgba { a: 255, ..top.texel(i - x, j - y) }
                } else {
                    orig.texel(i, j)
                },
        decreases rh - ty,
    {
        let mut tx: u32 = 0;
        while tx < rw
            invariant
                bottom.wf(),
                orig.wf(),
                top.wf(),
                bottom.width == orig.width,
                bottom.height == orig.height,
                rw <= top.width,
                rh <= top.height,
                x + rw <= orig.width || rw == 0,
                y + rh <= orig.height,
                ty < rh,
                tx <= rw,
                forall|i: int, j: int|
                    0 <= i < orig.width && 0 <= j < orig.height ==> #[trigger] bottom.texel(i, j)
                        == if in_region(x, y, rw, rh, i, j) && (j < y + ty || (j == y + ty && i < x
                        + tx)) && top.texel(i - x, j - y).a != 0 {
                        Rgba { a: 255, ..top.texel(i - x, j - y) }
                    } else {
                        orig.texel(i, j)
                    },
            decreases rw - tx,
        {
            let p = top.get_pixel(tx, ty);
            if p.a != 0 {
                let ghost before = *bottom;
                let bx: u32 = x + tx;
                let by: u32 = y + ty;
                let w = bottom.width;
                proof {
                    lemma_cell_index_in_range(w as int, bottom.height as int, bx as int, by as int);
                }
                let idx: usize = bottom.cell_index(bx, by);
                bottom.pixels.set(idx, Rgba { r: p.r, g: p.g, b: p.b, a: 255 });
                proof {
                    assert forall|i: int, j: int|
                        0 <= i < orig.width && 0 <= j < orig.height implies #[trigger] bottom.texel(i, j)
                            == if in_region(x, y, rw, rh, i, j) && (j < y + ty || (j == y + ty && i
                            < x + tx + 1)) && top.texel(i - x, j - y).a != 0 {
                            Rgba { a: 255, ..top.texel(i - x, j - y) }
                        } else {
                            orig.texel(i, j)
                        } by {
                        lemma_cell_index_in_range(w as int, bottom.height as int, i, j);
                        if j * (w as int) + i == idx as int {
                            lemma_cell_index_injective(w as int, i, j, bx as int, by as int);
                        } else {
                            assert(bottom.texel(i, j) == before.texel(i, j));
                            if i == bx as int && j == by as int {
                                assert(false);
                            }
                        }
                    }
                }
            } else {
                proof {
                    assert(top.texel(tx as int, ty as int).a == 0);
                }
            }
            tx = tx + 1;
        }
        ty = ty + 1;
    }
}

} // verus!
