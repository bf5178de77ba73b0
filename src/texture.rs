//! A decoded texture as a grid of RGBA texels, read with clamped coordinates.
use crate::tint::Rgba;
use vstd::prelude::*;

verus! {

/// A row-major grid of texels, `width * height` of them.
#[derive(Clone, Debug)]
pub struct Texture {
    pub width: u32,
    pub height: u32,
    pub pixels: Vec<Rgba>,
}

pub open spec fn clamp_to(v: int, lo: int, hi: int) -> int {
    if v < lo {
        lo
    } else if v > hi {
        hi
    } else {
        v
    }
}

impl Texture {
    /// A non-empty grid whose texel list has one entry per cell.
    pub open spec fn wf(&self) -> bool {
        &&& self.width >= 1
        &&& self.height >= 1
        &&& self.pixels@.len() == self.width as int * self.height as int
    }

    /// The texel in column `x`, row `y`.
    pub open spec fn texel(&self, x: int, y: int) -> Rgba {
        self.pixels@[y * self.width as int + x]
    }

    /// A texture from its size and its texels row by row; `None` when the size
    /// is zero or the texel count does not match.
    pub fn from_pixels(width: u32, height: u32, pixels: Vec<Rgba>) -> (t: Option<Texture>)
        ensures
            t is Some <==> (width >= 1 && height >= 1 && pixels@.len() == width as int
                * height as int),
            t matches Some(tx) ==> tx.wf() && tx.width == width && tx.height == height
                && tx.pixels@ == pixels@,
    {
        if width == 0 || height == 0 {
            return None;
        }
        proof {
            assert((width as int) * (height as int) <= 0xffff_ffff * 0xffff_ffff) by (nonlinear_arith)
                requires
                    width <= 0xffff_ffff,
                    height <= 0xffff_ffff,
            ;
        }
        let n: u64 = (width as u64) * (height as u64);
        if pixels.len() as u64 != n {
            return None;
        }
        Some(Texture { width, height, pixels })
    }

    pub fn dimensions(&self) -> (d: (u32, u32))
        ensures
            d == (self.width, self.height),
    {
        (self.width, self.height)
    }

    /// The texel at `(x, y)`, each coordinate clamped to the last column or row.
    pub fn get_pixel(&self, x: u32, y: u32) -> (c: Rgba)
        requires
            self.wf(),
        ensures
            c == self.texel(
                clamp_to(x as int, 0, self.width - 1),
                clamp_to(y as int, 0, self.height - 1),
            ),
    {
        let cx: u32 = if x > self.width - 1 {
            self.width - 1
        } else {
            x
        };
        let cy: u32 = if y > self.height - 1 {
            self.height - 1
        } else {
            y
        };
        self.texel_at_cell(cx, cy)
    }

    /// The texel at signed coordinates, each clamped into the grid.
    pub fn texel_clamped(&self, x: i64, y: i64) -> (c: Rgba)
        requires
            self.wf(),
        ensures
            c == self.texel(
                clamp_to(x as int, 0, self.width - 1),
                clamp_to(y as int, 0, self.height - 1),
            ),
    {
        let cx: u32 = if x < 0 {
            0
        } else if x > (self.width - 1) as i64 {
            self.width - 1
        } else {
            x as u32
        };
        let cy: u32 = if y < 0 {
            0
        } else if y > (self.height - 1) as i64 {
            self.height - 1
        } else {
            y as u32
        };
        self.texel_at_cell(cx, cy)
    }

    /// Row-major position of the texel in column `x`, row `y`.
    pub fn cell_index(&self, x: u32, y: u32) -> (r: usize)
        requires
            self.wf(),
            x < self.width,
            y < self.height,
        ensures
            r == y as int * self.width as int + x as int,
            r < self.pixels@.len(),
    {
        let len = self.pixels.len();
        proof {
            let w = self.width as int;
            let h = self.height as int;
            assert((y as int) * w + (x as int) < h * w) by (nonlinear_arith)
                requires
                    0 <= (x as int) < w,
                    0 <= (y as int) < h,
            ;
            assert(h * w == w * h) by (nonlinear_arith);
            assert(0 <= (y as int) * w) by (nonlinear_arith)
                requires
                    0 <= (y as int),
                    0 <= w,
            ;
        }
        (y as usize) * (self.width as usize) + (x as usize)
    }

    fn texel_at_cell(&self, x: u32, y: u32) -> (c: Rgba)
        requires
            self.wf(),
            x < self.width,
            y < self.height,
        ensures
            c == self.texel(x as int, y as int),
    {
        let idx = self.cell_index(x, y);
        self.pixels[idx]
    }
}

/// Alpha at or above which a texel counts as opaque when filtering.
pub const OPAQUE_ALPHA: u8 = 128;

/// Whether four neighbouring alphas straddle the opacity threshold (some opaque,
/// some not). Bilinear filtering falls back to the nearest texel there, so that
/// cut-out edges get no halo.
pub fn mixed_opacity(a00: u8, a10: u8, a01: u8, a11: u8) -> (m: bool)
    ensures
        m == ((a00 >= OPAQUE_ALPHA || a10 >= OPAQUE_ALPHA || a01 >= OPAQUE_ALPHA || a11
            >= OPAQUE_ALPHA) && (a00 < OPAQUE_ALPHA || a10 < OPAQUE_ALPHA || a01 < OPAQUE_ALPHA
            || a11 < OPAQUE_ALPHA)),
{
    let has_opaque = a00 >= OPAQUE_ALPHA || a10 >= OPAQUE_ALPHA || a01 >= OPAQUE_ALPHA || a11
        >= OPAQUE_ALPHA;
    let has_transparent = a00 < OPAQUE_ALPHA || a10 < OPAQUE_ALPHA || a01 < OPAQUE_ALPHA || a11
        < OPAQUE_ALPHA;
    has_opaque && has_transparent
}

} // verus!
