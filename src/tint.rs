//! Colours, 1D tint gradients, and the tint rule that recolours greyscale texels.
use vstd::prelude::*;

verus! {

/// A straight-alpha RGBA colour, one byte per channel.
#[derive(Clone, Copy, Debug, PartialEq, Eq, Structural)]
pub struct Rgba {
    pub r: u8,
    pub g: u8,
    pub b: u8,
    pub a: u8,
}

impl Rgba {
    pub fn new(r: u8, g: u8, b: u8, a: u8) -> (c: Rgba)
        ensures
            c == (Rgba { r, g, b, a }),
    {
        Rgba { r, g, b, a }
    }
}

pub open spec fn white() -> Rgba {
    Rgba { r: 255, g: 255, b: 255, a: 255 }
}

pub open spec fn min3(x: u8, y: u8, z: u8) -> u8 {
    if x <= y && x <= z {
        x
    } else if y <= z {
        y
    } else {
        z
    }
}

pub open spec fn max3(x: u8, y: u8, z: u8) -> u8 {
    if x >= y && x >= z {
        x
    } else if y >= z {
        y
    } else {
        z
    }
}

/// How far apart the colour channels of a pixel are (largest minus smallest).
pub open spec fn deviation(p: Rgba) -> int {
    max3(p.r, p.g, p.b) - min3(p.r, p.g, p.b)
}

/// A pixel counts as greyscale when its channels differ by at most one.
pub open spec fn is_greyscale(p: Rgba) -> bool {
    deviation(p) <= 1
}

/// Integer average of the three colour channels.
pub open spec fn luminance(p: Rgba) -> u8 {
    ((p.r as int + p.g as int + p.b as int) / 3) as u8
}

/// Entry of an `n`-entry gradient that grey level `g` selects:
/// `round(g / 255 * (n - 1))`, kept below `n`.
pub open spec fn gradient_index(g: u8, n: nat) -> int {
    let i = (2 * (g as int) * (n as int - 1) + 255) / 510;
    if i > n as int - 1 {
        n as int - 1
    } else {
        i
    }
}

/// Grey level that an (optionally inverted) gradient actually looks up.
pub open spec fn effective_grey(g: u8, inverted: bool) -> u8 {
    if inverted {
        (255 - g) as u8
    } else {
        g
    }
}

/// The colour that a gradient with entries `px` gives for grey level `g`
/// (white when the gradient has no entries).
pub open spec fn gradient_lookup(px: Seq<Rgba>, inverted: bool, g: u8) -> Rgba {
    if px.len() == 0 {
        white()
    } else {
        px[gradient_index(effective_grey(g, inverted), px.len())]
    }
}

/// The tint rule: transparent and coloured pixels stay as they are; a greyscale
/// pixel takes the gradient's colour at its luminance and keeps its own alpha.
pub open spec fn tinted(p: Rgba, px: Seq<Rgba>, inverted: bool) -> Rgba {
    if p.a == 0 || !is_greyscale(p) {
        p
    } else {
        Rgba { a: p.a, ..gradient_lookup(px, inverted, luminance(p)) }
    }
}

/// The identity gradient: entry `i` is the opaque grey `(i, i, i)`.
pub open spec fn identity_pixels() -> Seq<Rgba> {
    Seq::new(256, |i: int| Rgba { r: i as u8, g: i as u8, b: i as u8, a: 255 })
}

/// A 1D colour lookup table used to recolour greyscale texels by their
/// luminance; the lookup can run right to left (`inverted`).
#[derive(Clone, Debug)]
pub struct TintGradient {
    pub pixels: Vec<Rgba>,
    pub inverted: bool,
}

impl TintGradient {
    /// A gradient with the given entries, not inverted.
    pub fn from_pixels(pixels: Vec<Rgba>) -> (t: TintGradient)
        ensures
            t.pixels@ == pixels@,
            !t.inverted,
    {
        TintGradient { pixels, inverted: false }
    }

    /// A gradient of 256 copies of one colour.
    pub fn solid(color: Rgba) -> (t: TintGradient)
        ensures
            t.pixels@ == Seq::new(256, |i: int| color),
            !t.inverted,
    {
        let mut pixels: Vec<Rgba> = Vec::new();
        let mut i: usize = 0;
        while i < 256
            invariant
                i <= 256,
                pixels@ == Seq::new(i as nat, |j: int| color),
            decreases 256 - i,
        {
            pixels.push(color);
            i = i + 1;
            proof {
                assert(pixels@ =~= Seq::new(i as nat, |j: int| color));
            }
        }
        TintGradient { pixels, inverted: false }
    }

    /// The gradient that maps every grey level to itself.
    pub fn identity() -> (t: TintGradient)
        ensures
            t.pixels@ == identity_pixels(),
            !t.inverted,
    {
        let mut pixels: Vec<Rgba> = Vec::new();
        let mut i: u32 = 0;
        while i < 256
            invariant
                i <= 256,
                pixels@ == identity_pixels().subrange(0, i as int),
            decreases 256 - i,
        {
            let v: u8 = i as u8;
            pixels.push(Rgba { r: v, g: v, b: v, a: 255 });
            i = i + 1;
            proof {
                assert(pixels@ =~= identity_pixels().subrange(0, i as int));
            }
        }
        proof {
            assert(pixels@ =~= identity_pixels());
        }
        TintGradient { pixels, inverted: false }
    }

    /// The same gradient, read in the given direction.
    pub fn with_inverted(self, inverted: bool) -> (t: TintGradient)
        ensures
            t.pixels@ == self.pixels@,
            t.inverted == inverted,
    {
        TintGradient { pixels: self.pixels, inverted }
    }

    /// The colour for an integer grey level (0 to 255).
    pub fn lookup_u8(&self, grey: u8) -> (c: Rgba)
        ensures
            c == gradient_lookup(self.pixels@, self.inverted, grey),
    {
        let n = self.pixels.len();
        if n == 0 {
            return Rgba { r: 255, g: 255, b: 255, a: 255 };
        }
        let g: u8 = if self.inverted {
            255 - grey
        } else {
            grey
        };
        let last: u128 = (n - 1) as u128;
        proof {
            assert(2 * (g as int) * (last as int) <= 510 * 0xffff_ffff_ffff_ffffint) by (nonlinear_arith)
                requires
                    g <= 255,
                    last <= 0xffff_ffff_ffff_ffff,
            ;
        }
        let num: u128 = 2 * (g as u128) * last + 255;
        let mut idx: u128 = num / 510;
        if idx > last {
            idx = last;
        }
        self.pixels[idx as usize]
    }

    pub fn len(&self) -> (n: usize)
        ensures
            n == self.pixels@.len(),
    {
        self.pixels.len()
    }

    pub fn is_empty(&self) -> (b: bool)
        ensures
            b == (self.pixels@.len() == 0),
    {
        self.pixels.len() == 0
    }
}

fn min_u8(x: u8, y: u8) -> (m: u8)
    ensures
        m == (if x <= y { x } else { y }),
{
    if x <= y {
        x
    } else {
        y
    }
}

fn max_u8(x: u8, y: u8) -> (m: u8)
    ensures
        m == (if x >= y { x } else { y }),
{
    if x >= y {
        x
    } else {
        y
    }
}

/// Tint one texel: transparent pixels and coloured ("pre-coloured decorative")
/// pixels come back unchanged; greyscale ones take the gradient colour at their
/// luminance, with their own alpha.
pub fn apply_tint(pixel: Rgba, gradient: &TintGradient) -> (c: Rgba)
    ensures
        c == tinted(pixel, gradient.pixels@, gradient.inverted),
        c.a == pixel.a,
        deviation(pixel) > 1 ==> c == pixel,
{
    if pixel.a == 0 {
        return pixel;
    }
    let mn = min_u8(min_u8(pixel.r, pixel.g), pixel.b);
    let mx = max_u8(max_u8(pixel.r, pixel.g), pixel.b);
    proof {
        assert(mn == min3(pixel.r, pixel.g, pixel.b));
        assert(mx == max3(pixel.r, pixel.g, pixel.b));
    }
    let dev: u8 = mx - mn;
    if dev <= 1 {
        let lum: u8 = ((pixel.r as u16 + pixel.g as u16 + pixel.b as u16) / 3) as u8;
        let t = gradient.lookup_u8(lum);
        Rgba { r: t.r, g: t.g, b: t.b, a: pixel.a }
    } else {
        pixel
    }
}

/// Tinting a pure grey pixel through the identity gradient gives the pixel back.
pub proof fn lemma_identity_tint_keeps_grey(v: u8, a: u8)
    ensures
        tinted(Rgba { r: v, g: v, b: v, a }, identity_pixels(), false) == (Rgba { r: v, g: v, b: v, a }),
{
    let p = Rgba { r: v, g: v, b: v, a };
    assert(luminance(p) == v);
    let i = (2 * (v as int) * 255 + 255) / 510;
    assert(2 * (v as int) * 255 + 255 == 510 * (v as int) + 255);
    assert(i == v as int);
    assert(gradient_index(v, 256) == v as int);
}

/// A pixel whose channels differ by more than eight passes through any gradient
/// byte for byte.
pub proof fn lemma_coloured_pixel_untouched(p: Rgba, px: Seq<Rgba>, inverted: bool)
    requires
        deviation(p) > 8,
    ensures
        tinted(p, px, inverted) == p,
{
}

/// Value of a hexadecimal digit, if the character is one.
pub open spec fn hex_digit(c: char) -> Option<u8> {
    if '0' <= c && c <= '9' {
        Some(((c as u32) - 0x30) as u8)
    } else if 'a' <= c && c <= 'f' {
        Some(((c as u32) - 0x61 + 10) as u8)
    } else if 'A' <= c && c <= 'F' {
        Some(((c as u32) - 0x41 + 10) as u8)
    } else {
        None
    }
}

fn hex_digit_of(c: char) -> (r: Option<u8>)
    ensures
        r == hex_digit(c),
{
    if '0' <= c && c <= '9' {
        Some(((c as u32) - 0x30) as u8)
    } else if 'a' <= c && c <= 'f' {
        Some(((c as u32) - 0x61 + 10) as u8)
    } else if 'A' <= c && c <= 'F' {
        Some(((c as u32) - 0x41 + 10) as u8)
    } else {
        None
    }
}

/// A two-character hexadecimal byte as `u8::from_str_radix(_, 16)` reads it:
/// two digits, or a `+` sign and one digit.
pub open spec fn hex_pair(c1: char, c2: char) -> Option<u8> {
    match (hex_digit(c1), hex_digit(c2)) {
        (Some(h), Some(l)) => Some((h * 16 + l) as u8),
        (None, Some(l)) => if c1 == '+' {
            Some(l)
        } else {
            None
        },
        _ => None,
    }
}

fn hex_pair_of(c1: char, c2: char) -> (r: Option<u8>)
    ensures
        r == hex_pair(c1, c2),
{
    match (hex_digit_of(c1), hex_digit_of(c2)) {
        (Some(h), Some(l)) => Some(h * 16 + l),
        (None, Some(l)) => if c1 == '+' {
            Some(l)
        } else {
            None
        },
        _ => None,
    }
}

/// `s` without its leading `#` characters.
pub open spec fn strip_hashes(s: Seq<char>) -> Seq<char>
    decreases s.len(),
{
    if s.len() > 0 && s[0] == '#' {
        strip_hashes(s.skip(1))
    } else {
        s
    }
}

/// A colour written `RRGGBB` after any number of `#`, opaque; `None` for any
/// other text.
pub open spec fn hex_color(s: Seq<char>) -> Option<Rgba> {
    let t = strip_hashes(s);
    if t.len() == 6 {
        match (hex_pair(t[0], t[1]), hex_pair(t[2], t[3]), hex_pair(t[4], t[5])) {
            (Some(r), Some(g), Some(b)) => Some(Rgba { r, g, b, a: 255 }),
            _ => None,
        }
    } else {
        None
    }
}

/// Read one `#RRGGBB` colour.
pub fn parse_hex_color(hex: &str) -> (c: Option<Rgba>)
    ensures
        c == hex_color(hex@),
{
    let cs = crate::text::chars_of(hex);
    let mut start: usize = 0;
    proof {
        assert(cs@ =~= cs@.skip(0));
    }
    while start < cs.len() && cs[start] == '#'
        invariant
            start <= cs@.len(),
            strip_hashes(cs@.skip(start as int)) == strip_hashes(cs@),
        decreases cs.len() - start,
    {
        proof {
            assert(cs@.skip(start as int).skip(1) =~= cs@.skip(start as int + 1));
        }
        start = start + 1;
    }
    proof {
        assert(strip_hashes(cs@.skip(start as int)) == cs@.skip(start as int));
    }
    if cs.len() - start != 6 {
        return None;
    }
    let r = hex_pair_of(cs[start], cs[start + 1]);
    let g = hex_pair_of(cs[start + 2], cs[start + 3]);
    let b = hex_pair_of(cs[start + 4], cs[start + 5]);
    match (r, g, b) {
        (Some(r), Some(g), Some(b)) => Some(Rgba { r, g, b, a: 255 }),
        _ => None,
    }
}

/// The colours among `hs` that read as `#RRGGBB`, in order; the others are skipped.
pub open spec fn hex_colors(hs: Seq<Seq<char>>) -> Seq<Rgba>
    decreases hs.len(),
{
    if hs.len() == 0 {
        Seq::<Rgba>::empty()
    } else {
        let p = hex_colors(hs.drop_last());
        match hex_color(hs.last()) {
            Some(c) => p.push(c),
            None => p,
        }
    }
}

/// Read a list of `#RRGGBB` colours, skipping the entries that do not parse.
pub fn parse_hex_colors(hex_colors_in: &Vec<String>) -> (r: Vec<Rgba>)
    ensures
        r@ == hex_colors(crate::text::views_of(hex_colors_in@)),
{
    let mut out: Vec<Rgba> = Vec::new();
    let mut i: usize = 0;
    while i < hex_colors_in.len()
        invariant
            i <= hex_colors_in@.len(),
            out@ == hex_colors(crate::text::views_of(hex_colors_in@.subrange(0, i as int))),
        decreases hex_colors_in.len() - i,
    {
        let c = parse_hex_color(hex_colors_in[i].as_str());
        proof {
            let pre = crate::text::views_of(hex_colors_in@.subrange(0, i as int + 1));
            assert(pre.drop_last() =~= crate::text::views_of(hex_colors_in@.subrange(0, i as int)));
            assert(pre.last() == hex_colors_in@[i as int]@);
        }
        match c {
            Some(col) => out.push(col),
            None => {},
        }
        i = i + 1;
    }
    proof {
        assert(hex_colors_in@.subrange(0, hex_colors_in@.len() as int) =~= hex_colors_in@);
    }
    out
}

} // verus!
