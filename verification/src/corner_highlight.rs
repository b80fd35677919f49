//! Four L-shaped corner marks, drawn through a pre-rasterized mask.

use vstd::prelude::*;

use crate::bitmap::{lemma_grid_index, Bitmap, BitmapView, MAX_DIM};
use crate::canvas::Canvas;
use crate::color::{spec_composite, Color, PixelFormat};
use crate::geometry::Rect;

verus! {

/// True when pixel `(x, y)` of a `w` by `h` mask lies on one of the four
/// corner marks of arm length `len` and stroke thickness `t`.
pub open spec fn corner_covers(w: int, h: int, len: int, t: int, x: int, y: int) -> bool {
    ||| (x < len && y < t)
    ||| (x < t && y < len)
    ||| (x >= w - len && y < t)
    ||| (x >= w - t && y < len)
    ||| (x < len && y >= h - t)
    ||| (x < t && y >= h - len)
    ||| (x >= w - len && y >= h - t)
    ||| (x >= w - t && y >= h - len)
}

/// An opaque highlight of the four corners of a rectangle.
pub struct CornerHighlight {
    pub rect: Rect,
    pub color: Color,
    pub length: i32,
    pub thickness: i32,
    pub mask: Bitmap,
}

impl CornerHighlight {
    pub open spec fn wf(self) -> bool {
        self.rect.wf() && 0 <= self.rect.spec_width() <= MAX_DIM && 0 <= self.rect.spec_height()
            <= MAX_DIM && 0 <= self.thickness <= self.length && self.mask.wf() && self.mask.format
            == PixelFormat::Mono8 && self.mask.size.x == self.rect.spec_width()
            && self.mask.size.y == self.rect.spec_height() && forall|x: int, y: int|
            0 <= x < self.mask.size.x && 0 <= y < self.mask.size.y ==> #[trigger] self.mask.pix(
                x,
                y,
            ) == (if corner_covers(
                self.rect.spec_width(),
                self.rect.spec_height(),
                self.length as int,
                self.thickness as int,
                x,
                y,
            ) {
                255u32
            } else {
                0u32
            })
    }

    pub open spec fn spec_bounds(self) -> Rect {
        self.rect
    }

    /// The value of the relative pixel `(x, y)` after the highlight is
    /// drawn over a pixel holding `prev`, on a canvas of format `fmt`.
    pub open spec fn pix_spec(self, fmt: PixelFormat, x: int, y: int, prev: u32) -> u32 {
        if self.rect.contains(x, y) {
            spec_composite(
                fmt,
                prev,
                PixelFormat::Mono8,
                self.mask.pix(x - self.rect.x0, y - self.rect.y0),
                self.color,
            )
        } else {
            prev
        }
    }

    /// Builds the highlight and rasterizes its mask once. The arm length
    /// and the stroke are clamped to the rectangle.
    pub fn new(rect: Rect, color: Color, length: i32, thickness: i32) -> (c: CornerHighlight)
        requires
            rect.wf(),
            0 <= rect.spec_width() <= MAX_DIM,
            0 <= rect.spec_height() <= MAX_DIM,
            0 <= thickness <= length,
        ensures
            c.wf(),
            c.rect == rect,
            c.color == color,
            c.length == length,
            c.thickness == thickness,
    {
        let w = rect.width();
        let h = rect.height();
        let len = length;
        let t = thickness;
        let mut cells: Vec<u32> = Vec::new();
        let mut y: i32 = 0;
        while y < h
            invariant
                0 <= y <= h,
                0 <= w <= MAX_DIM,
                0 <= h <= MAX_DIM,
                w == rect.spec_width(),
                h == rect.spec_height(),
                0 <= t <= len,
                cells@.len() == y * w,
                forall|xx: int, yy: int|
                    0 <= xx < w && 0 <= yy < y ==> #[trigger] cells@[yy * w + xx] == (
                    if corner_covers(w as int, h as int, len as int, t as int, xx, yy) {
                        255u32
                    } else {
                        0u32
                    }),
            decreases h - y,
        {
            let mut x: i32 = 0;
            while x < w
                invariant
                    0 <= x <= w,
                    0 <= y < h,
                    0 <= w <= MAX_DIM,
                    0 <= h <= MAX_DIM,
                    w == rect.spec_width(),
                    h == rect.spec_height(),
                    0 <= t <= len,
                    cells@.len() == y * w + x,
                    forall|xx: int, yy: int|
                        0 <= xx < w && 0 <= yy < y ==> #[trigger] cells@[yy * w + xx] == (
                        if corner_covers(w as int, h as int, len as int, t as int, xx, yy) {
                            255u32
                        } else {
                            0u32
                        }),
                    forall|xx: int|
                        0 <= xx < x ==> #[trigger] cells@[y * w + xx] == (if corner_covers(
                            w as int,
                            h as int,
                            len as int,
                            t as int,
                            xx,
                            y as int,
                        ) {
                            255u32
                        } else {
                            0u32
                        }),
                decreases w - x,
            {
                let covered = (x < len && y < t) || (x < t && y < len) || (x >= w - len && y < t)
                    || (x >= w - t && y < len) || (x < len && y >= h - t) || (x < t && y >= h
                    - len) || (x >= w - len && y >= h - t) || (x >= w - t && y >= h - len);
                let v: u32 = if covered {
                    255
                } else {
                    0
                };
                cells.push(v);
                proof {
                    assert forall|xx: int, yy: int|
                        0 <= xx < w && 0 <= yy < y implies #[trigger] (yy * w + xx) < y * w by {
                        assert(yy * w + xx < y * w) by (nonlinear_arith)
                            requires
                                0 <= xx < w,
                                0 <= yy < y,
                        ;
                    }
                }
                x += 1;
            }
            proof {
                assert((y + 1) * w == y * w + w) by (nonlinear_arith);
            }
            y += 1;
        }
        let mask = Bitmap {
            format: PixelFormat::Mono8,
            size: crate::geometry::Offset { x: w, y: h },
            cells,
        };
        proof {
            assert(h * w == w * h) by (nonlinear_arith);
            assert forall|i: int| 0 <= i < mask.cells@.len() implies crate::color::cell_ok(
                PixelFormat::Mono8,
                #[trigger] mask.cells@[i],
            ) by {
                if w > 0 {
                    let yy = i / (w as int);
                    let xx = i % (w as int);
                    crate::bitmap::lemma_grid_decompose(w as int, h as int, i);
                    assert(mask.cells@[yy * w + xx] == mask.cells@[i]);
                }
            }
            assert forall|x: int, y: int|
                0 <= x < mask.size.x && 0 <= y < mask.size.y implies #[trigger] mask.pix(x, y) == (
            if corner_covers(w as int, h as int, len as int, t as int, x, y) {
                255u32
            } else {
                0u32
            }) by {
                lemma_grid_index(w as int, h as int, x, y);
            }
        }
        CornerHighlight { rect, color, length: len, thickness: t, mask }
    }

    /// Draws the four corner marks through the mask; pixels off the
    /// marks blend with coverage zero and keep their value.
    pub fn draw(&self, canvas: &mut Canvas)
        requires
            old(canvas).wf(),
            self.wf(),
        ensures
            final(canvas).wf(),
            final(canvas).format == old(canvas).format,
            final(canvas).size == old(canvas).size,
            final(canvas).viewport == old(canvas).viewport,
            forall|x: int, y: int|
                final(canvas).on_canvas(x, y) ==> #[trigger] final(canvas).pix(x, y) == (if old(
                    canvas,
                ).viewport.clip.contains(x, y) {
                    self.pix_spec(
                        old(canvas).format,
                        x - old(canvas).viewport.origin.x,
                        y - old(canvas).viewport.origin.y,
                        old(canvas).pix(x, y),
                    )
                } else {
                    old(canvas).pix(x, y)
                }),
    {
        let view = BitmapView::new(&self.mask, self.color);
        canvas.draw_bitmap(self.rect, view);
    }
}

} // verus!
