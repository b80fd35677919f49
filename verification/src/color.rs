//! Colors and their per-format pixel encodings.
//!
//! A [`Color`] is stored in RGB565. A canvas cell is a `u32` holding the
//! pixel's encoded value for the canvas's format: grayscale canvases keep
//! one byte of luminance, RGB565 canvases the packed 16-bit value, and
//! RGBA8888 canvases the full 32-bit word with an opaque alpha byte.

use vstd::prelude::*;

verus! {

/// The pixel formats a canvas or a bitmap can carry.
#[derive(Clone, Copy, PartialEq, Eq, Structural, Debug)]
pub enum PixelFormat {
    /// One byte of luminance per pixel.
    Mono8,
    /// Packed 16-bit 5-6-5 RGB.
    Rgb565,
    /// 32-bit RGBA, alpha in the low byte.
    Rgba8888,
}

/// A color, packed as RGB565.
#[derive(Clone, Copy, PartialEq, Eq, Structural, Debug)]
pub struct Color {
    pub rgb565: u16,
}

impl Color {
    /// The red channel widened to eight bits.
    pub open spec fn spec_r8(self) -> u32 {
        (((self.rgb565 >> 11) & 0x1f) << 3) as u32
    }

    /// The green channel widened to eight bits.
    pub open spec fn spec_g8(self) -> u32 {
        (((self.rgb565 >> 5) & 0x3f) << 2) as u32
    }

    /// The blue channel widened to eight bits.
    pub open spec fn spec_b8(self) -> u32 {
        ((self.rgb565 & 0x1f) << 3) as u32
    }

    /// An integer luminance in `0..=255`, weighted towards green.
    pub open spec fn spec_luminance(self) -> u32 {
        ((self.spec_r8() * 77 + self.spec_g8() * 150 + self.spec_b8() * 29) / 256) as u32
    }

    pub fn new(rgb565: u16) -> (c: Color)
        ensures
            c.rgb565 == rgb565,
    {
        Color { rgb565 }
    }

    /// Packs eight-bit channels into RGB565.
    pub fn rgb(r: u8, g: u8, b: u8) -> (c: Color)
        ensures
            c.rgb565 == ((((r >> 3) as u16) << 11) | (((g >> 2) as u16) << 5) | ((b >> 3) as u16)),
    {
        Color { rgb565: ((((r >> 3) as u16) << 11) | (((g >> 2) as u16) << 5) | ((b >> 3) as u16)) }
    }

    pub fn black() -> (c: Color)
        ensures
            c.rgb565 == 0,
    {
        Color { rgb565: 0 }
    }

    pub fn white() -> (c: Color)
        ensures
            c.rgb565 == 0xffff,
    {
        Color { rgb565: 0xffff }
    }

    pub fn r8(self) -> (r: u32)
        ensures
            r == self.spec_r8(),
    {
        (((self.rgb565 >> 11) & 0x1f) << 3) as u32
    }

    pub fn g8(self) -> (r: u32)
        ensures
            r == self.spec_g8(),
    {
        (((self.rgb565 >> 5) & 0x3f) << 2) as u32
    }

    pub fn b8(self) -> (r: u32)
        ensures
            r == self.spec_b8(),
    {
        ((self.rgb565 & 0x1f) << 3) as u32
    }

    pub fn luminance(self) -> (r: u32)
        ensures
            r == self.spec_luminance(),
            r <= 255,
    {
        proof {
            lemma_channels_bounded(self);
        }
        (self.r8() * 77 + self.g8() * 150 + self.b8() * 29) / 256
    }
}

/// Each widened channel of a color fits in a byte.
pub proof fn lemma_channels_bounded(c: Color)
    ensures
        c.spec_r8() <= 255,
        c.spec_g8() <= 255,
        c.spec_b8() <= 255,
{
    let v = c.rgb565;
    assert((((v >> 11) & 0x1f) << 3) <= 255) by (bit_vector);
    assert((((v >> 5) & 0x3f) << 2) <= 255) by (bit_vector);
    assert(((v & 0x1f) << 3) <= 255) by (bit_vector);
}

/// True of a cell value that a buffer of format `fmt` may hold.
pub open spec fn cell_ok(fmt: PixelFormat, cell: u32) -> bool {
    match fmt {
        PixelFormat::Mono8 => cell <= 0xff,
        PixelFormat::Rgb565 => cell <= 0xffff,
        PixelFormat::Rgba8888 => true,
    }
}

/// The cell value that writing `color` opaquely into a buffer of format
/// `fmt` produces.
pub open spec fn spec_encode(fmt: PixelFormat, color: Color) -> u32 {
    match fmt {
        PixelFormat::Mono8 => color.spec_luminance(),
        PixelFormat::Rgb565 => color.rgb565 as u32,
        PixelFormat::Rgba8888 => (color.spec_r8() << 24) | (color.spec_g8() << 16) | (
        color.spec_b8() << 8) | 0xff,
    }
}

pub fn encode(fmt: PixelFormat, color: Color) -> (cell: u32)
    ensures
        cell == spec_encode(fmt, color),
        cell_ok(fmt, cell),
{
    match fmt {
        PixelFormat::Mono8 => color.luminance(),
        PixelFormat::Rgb565 => color.rgb565 as u32,
        PixelFormat::Rgba8888 => ((color.r8() << 24) | (color.g8() << 16) | (color.b8() << 8)
            | 0xff),
    }
}

/// One channel of source mixed over one channel of destination with
/// coverage `a` out of 255.
pub open spec fn spec_mix8(d: u32, s: u32, a: u32) -> u32 {
    ((d * (255 - a) + s * a) / 255) as u32
}

pub fn mix8(d: u32, s: u32, a: u32) -> (r: u32)
    requires
        d <= 255,
        s <= 255,
        a <= 255,
    ensures
        r == spec_mix8(d, s, a),
        r <= 255,
{
    proof {
        assert(d * (255 - a) + s * a <= 255 * 255) by (nonlinear_arith)
            requires
                d <= 255,
                s <= 255,
                a <= 255,
        ;
    }
    (d * (255 - a) + s * a) / 255
}

pub open spec fn spec_pack565(r: u32, g: u32, b: u32) -> u32 {
    (((r >> 3) << 11) | ((g >> 2) << 5) | (b >> 3)) as u32
}

pub fn pack565(r: u32, g: u32, b: u32) -> (c: u32)
    requires
        r <= 255,
        g <= 255,
        b <= 255,
    ensures
        c == spec_pack565(r, g, b),
        c <= 0xffff,
{
    proof {
        assert(r <= 255 && g <= 255 && b <= 255 ==> ((((r >> 3) << 11) | ((g >> 2) << 5) | (b
            >> 3)) <= 0xffff)) by (bit_vector);
    }
    ((r >> 3) << 11) | ((g >> 2) << 5) | (b >> 3)
}

pub open spec fn spec_pack8888(r: u32, g: u32, b: u32) -> u32 {
    ((r << 24) | (g << 16) | (b << 8) | 0xff) as u32
}

pub fn pack8888(r: u32, g: u32, b: u32) -> (c: u32)
    requires
        r <= 255,
        g <= 255,
        b <= 255,
    ensures
        c == spec_pack8888(r, g, b),
{
    (r << 24) | (g << 16) | (b << 8) | 0xff
}

/// The byte-wide channels hidden in a cell are all bounded by 255,
/// whatever the cell holds.
pub proof fn lemma_cell_channels_bounded(d: u32)
    ensures
        (((d >> 11) & 0x1f) << 3) <= 255,
        (((d >> 5) & 0x3f) << 2) <= 255,
        ((d & 0x1f) << 3) <= 255,
        ((d >> 24) & 0xff) <= 255,
        ((d >> 16) & 0xff) <= 255,
        ((d >> 8) & 0xff) <= 255,
        (d & 0xff) <= 255,
{
    assert((((d >> 11) & 0x1f) << 3) <= 255) by (bit_vector);
    assert((((d >> 5) & 0x3f) << 2) <= 255) by (bit_vector);
    assert(((d & 0x1f) << 3) <= 255) by (bit_vector);
    assert(((d >> 24) & 0xff) <= 255) by (bit_vector);
    assert(((d >> 16) & 0xff) <= 255) by (bit_vector);
    assert(((d >> 8) & 0xff) <= 255) by (bit_vector);
    assert((d & 0xff) <= 255) by (bit_vector);
}

/// Channel `c` (0 red, 1 green, 2 blue) of a packed RGB565 cell, widened
/// to eight bits.
pub open spec fn chan565(c: int, d: u32) -> u32 {
    if c == 0 {
        (((d >> 11) & 0x1f) << 3) as u32
    } else if c == 1 {
        (((d >> 5) & 0x3f) << 2) as u32
    } else {
        ((d & 0x1f) << 3) as u32
    }
}

/// The cell that painting `c` with coverage `a` over the cell `d` of a
/// buffer of format `fmt` produces. Full coverage is exactly `encode`.
pub open spec fn spec_blend(fmt: PixelFormat, d: u32, c: Color, a: u32) -> u32 {
    if a == 255 {
        spec_encode(fmt, c)
    } else {
        match fmt {
            PixelFormat::Mono8 => spec_mix8(d, c.spec_luminance(), a),
            PixelFormat::Rgb565 => spec_pack565(
                spec_mix8((((d >> 11) & 0x1f) << 3) as u32, c.spec_r8(), a),
                spec_mix8((((d >> 5) & 0x3f) << 2) as u32, c.spec_g8(), a),
                spec_mix8(((d & 0x1f) << 3) as u32, c.spec_b8(), a),
            ),
            PixelFormat::Rgba8888 => spec_pack8888(
                spec_mix8((d >> 24) & 0xff, c.spec_r8(), a),
                spec_mix8((d >> 16) & 0xff, c.spec_g8(), a),
                spec_mix8((d >> 8) & 0xff, c.spec_b8(), a),
            ),
        }
    }
}

pub fn blend(fmt: PixelFormat, d: u32, c: Color, a: u32) -> (r: u32)
    requires
        cell_ok(fmt, d),
        a <= 255,
    ensures
        r == spec_blend(fmt, d, c, a),
        cell_ok(fmt, r),
{
    if a == 255 {
        encode(fmt, c)
    } else {
        proof {
            lemma_cell_channels_bounded(d);
            lemma_channels_bounded(c);
        }
        match fmt {
            PixelFormat::Mono8 => mix8(d, c.luminance(), a),
            PixelFormat::Rgb565 => pack565(
                mix8(((d >> 11) & 0x1f) << 3, c.r8(), a),
                mix8(((d >> 5) & 0x3f) << 2, c.g8(), a),
                mix8((d & 0x1f) << 3, c.b8(), a),
            ),
            PixelFormat::Rgba8888 => pack8888(
                mix8((d >> 24) & 0xff, c.r8(), a),
                mix8((d >> 16) & 0xff, c.g8(), a),
                mix8((d >> 8) & 0xff, c.b8(), a),
            ),
        }
    }
}

/// The color a packed RGBA8888 cell carries, reduced to RGB565.
pub open spec fn spec_color_of_rgba(s: u32) -> Color {
    Color { rgb565: spec_pack565((s >> 24) & 0xff, (s >> 16) & 0xff, (s >> 8) & 0xff) as u16 }
}

/// The cell that drawing source pixel `s` of format `src_fmt` onto the
/// cell `d` of a buffer of format `dst_fmt` produces. A grayscale source
/// acts as a coverage mask for the foreground color `fg`; an RGB565
/// source is opaque; an RGBA8888 source blends with its own alpha byte.
pub open spec fn spec_composite(
    dst_fmt: PixelFormat,
    d: u32,
    src_fmt: PixelFormat,
    s: u32,
    fg: Color,
) -> u32 {
    match src_fmt {
        PixelFormat::Mono8 => spec_blend(dst_fmt, d, fg, s),
        PixelFormat::Rgb565 => spec_encode(dst_fmt, Color { rgb565: s as u16 }),
        PixelFormat::Rgba8888 => spec_blend(dst_fmt, d, spec_color_of_rgba(s), s & 0xff),
    }
}

pub fn composite(dst_fmt: PixelFormat, d: u32, src_fmt: PixelFormat, s: u32, fg: Color) -> (r:
    u32)
    requires
        cell_ok(dst_fmt, d),
        cell_ok(src_fmt, s),
    ensures
        r == spec_composite(dst_fmt, d, src_fmt, s, fg),
        cell_ok(dst_fmt, r),
{
    match src_fmt {
        PixelFormat::Mono8 => blend(dst_fmt, d, fg, s),
        PixelFormat::Rgb565 => encode(dst_fmt, Color::new(s as u16)),
        PixelFormat::Rgba8888 => {
            proof {
                lemma_cell_channels_bounded(s);
            }
            let c = Color::new(pack565((s >> 24) & 0xff, (s >> 16) & 0xff, (s >> 8) & 0xff)
                as u16);
            blend(dst_fmt, d, c, s & 0xff)
        },
    }
}

} // verus!
