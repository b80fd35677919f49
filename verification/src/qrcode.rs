//! A QR code drawn from a precomputed module matrix.

use vstd::prelude::*;

use crate::bitmap::{lemma_grid_index, Bitmap, BitmapView, MAX_DIM};
use crate::canvas::Canvas;
use crate::color::{spec_encode, encode, Color, PixelFormat};
use crate::error::RenderError;
use crate::geometry::{coord_ok, Point, Rect};

verus! {

/// The color of QR pixel `(x, y)`: the module it falls in decides
/// between the foreground and the background color.
pub open spec fn qr_color(
    modules: Seq<bool>,
    side: int,
    scale: int,
    fg: Color,
    bg: Color,
    x: int,
    y: int,
) -> Color {
    if modules[(y / scale) * side + (x / scale)] {
        fg
    } else {
        bg
    }
}

/// A QR code: a square matrix of `side` by `side` modules, each drawn as
/// a `scale` by `scale` block of opaque pixels.
pub struct QrImage {
    pub pos: Point,
    pub side: i32,
    pub scale: i32,
    pub modules: Vec<bool>,
    pub fg: Color,
    pub bg: Color,
    pub bitmap: Bitmap,
}

impl QrImage {
    pub open spec fn wf(self) -> bool {
        self.pos.wf() && 0 < self.side && 0 < self.scale && self.side * self.scale <= MAX_DIM
            && coord_ok(self.pos.x + self.side * self.scale) && coord_ok(
            self.pos.y + self.side * self.scale,
        ) && self.modules@.len() == self.side * self.side && self.bitmap.wf()
            && self.bitmap.format == PixelFormat::Rgb565 && self.bitmap.size.x == self.side
            * self.scale && self.bitmap.size.y == self.side * self.scale && forall|x: int, y: int|
            0 <= x < self.bitmap.size.x && 0 <= y < self.bitmap.size.y ==> #[trigger] self.bitmap.pix(
                x,
                y,
            ) == spec_encode(
                PixelFormat::Rgb565,
                qr_color(self.modules@, self.side as int, self.scale as int, self.fg, self.bg, x, y),
            )
    }

    pub open spec fn spec_bounds(self) -> Rect {
        Rect {
            x0: self.pos.x,
            y0: self.pos.y,
            x1: (self.pos.x + self.side * self.scale) as i32,
            y1: (self.pos.y + self.side * self.scale) as i32,
        }
    }

    /// The value of the relative pixel `(x, y)` after the QR code is
    /// drawn over a pixel holding `prev`, on a canvas of format `fmt`.
    /// The code is opaque over its whole square.
    pub open spec fn pix_spec(self, fmt: PixelFormat, x: int, y: int, prev: u32) -> u32 {
        if self.spec_bounds().contains(x, y) {
            spec_encode(
                fmt,
                qr_color(
                    self.modules@,
                    self.side as int,
                    self.scale as int,
                    self.fg,
                    self.bg,
                    x - self.pos.x,
                    y - self.pos.y,
                ),
            )
        } else {
            prev
        }
    }

    /// Builds the QR shape and rasterizes the module matrix once;
    /// refused when the matrix length or the scaled size is wrong.
    pub fn new(pos: Point, side: i32, scale: i32, modules: Vec<bool>, fg: Color, bg: Color) -> (r:
        Result<QrImage, RenderError>)
        requires
            pos.wf(),
            coord_ok(pos.x + side * scale),
            coord_ok(pos.y + side * scale),
        ensures
            r matches Ok(_) <==> 0 < side && 0 < scale && side <= MAX_DIM && scale <= MAX_DIM
                && side * scale <= MAX_DIM && modules@.len() == side * side,
            r matches Err(e) ==> e == RenderError::Config,
            r matches Ok(q) ==> q.wf() && q.pos == pos && q.side == side && q.scale == scale
                && q.modules == modules && q.fg == fg && q.bg == bg,
    {
        if side <= 0 || scale <= 0 {
            return Err(RenderError::Config);
        }
        if side > MAX_DIM || scale > MAX_DIM {
            return Err(RenderError::Config);
        }
        proof {
            assert(side * side <= 1048576 && side * scale >= 1 && side * scale <= 1048576)
                by (nonlinear_arith)
                requires
                    0 < side <= 1024,
                    0 < scale <= 1024,
            ;
        }
        let s = side * scale;
        if s > MAX_DIM {
            return Err(RenderError::Config);
        }
        if modules.len() != (side as usize) * (side as usize) {
            return Err(RenderError::Config);
        }
        let fgc = encode(PixelFormat::Rgb565, fg);
        let bgc = encode(PixelFormat::Rgb565, bg);
        let mut cells: Vec<u32> = Vec::new();
        let mut y: i32 = 0;
        while y < s
            invariant
                0 <= y <= s,
                0 < side,
                0 < scale,
                s == side * scale,
                s <= MAX_DIM,
                side <= MAX_DIM,
                modules@.len() == side * side,
                fgc == spec_encode(PixelFormat::Rgb565, fg),
                bgc == spec_encode(PixelFormat::Rgb565, bg),
                cells@.len() == y * s,
                forall|xx: int, yy: int|
                    0 <= xx < s && 0 <= yy < y ==> #[trigger] cells@[yy * s + xx] == spec_encode(
                        PixelFormat::Rgb565,
                        qr_color(modules@, side as int, scale as int, fg, bg, xx, yy),
                    ),
            decreases s - y,
        {
            let my = y / scale;
            proof {
                assert(0 <= y / scale < side && (y / scale) * side <= (side - 1) * side && (side
                    - 1) * side + side == side * side) by (nonlinear_arith)
                    requires
                        0 <= y < side * scale,
                        0 < side,
                        0 < scale,
                ;
            }
            let mut x: i32 = 0;
            while x < s
                invariant
                    0 <= x <= s,
                    0 <= y < s,
                    0 < side,
                    0 < scale,
                    s == side * scale,
                    s <= MAX_DIM,
                    side <= MAX_DIM,
                    modules@.len() == side * side,
                    my == y / scale,
                    0 <= my < side,
                    fgc == spec_encode(PixelFormat::Rgb565, fg),
                    bgc == spec_encode(PixelFormat::Rgb565, bg),
                    cells@.len() == y * s + x,
                    forall|xx: int, yy: int|
                        0 <= xx < s && 0 <= yy < y ==> #[trigger] cells@[yy * s + xx]
                            == spec_encode(
                            PixelFormat::Rgb565,
                            qr_color(modules@, side as int, scale as int, fg, bg, xx, yy),
                        ),
                    forall|xx: int|
                        0 <= xx < x ==> #[trigger] cells@[y * s + xx] == spec_encode(
                            PixelFormat::Rgb565,
                            qr_color(modules@, side as int, scale as int, fg, bg, xx, y as int),
                        ),
                decreases s - x,
            {
                let mx = x / scale;
                proof {
                    assert(0 <= x / scale < side) by (nonlinear_arith)
                        requires
                            0 <= x < side * scale,
                            0 < side,
                            0 < scale,
                    ;
                    assert(my * side + mx < side * side && side * side <= 1048576)
                        by (nonlinear_arith)
                        requires
                            0 <= mx < side,
                            0 <= my < side,
                            side <= 1024,
                    ;
                }
                let m = modules[(my as usize) * (side as usize) + (mx as usize)];
                let v: u32 = if m {
                    fgc
                } else {
                    bgc
                };
                cells.push(v);
                proof {
                    assert forall|xx: int, yy: int|
                        0 <= xx < s && 0 <= yy < y implies #[trigger] (yy * s + xx) < y * s by {
                        assert(yy * s + xx < y * s) by (nonlinear_arith)
                            requires
                                0 <= xx < s,
                                0 <= yy < y,
                        ;
                    }
                }
                x += 1;
            }
            proof {
                assert((y + 1) * s == y * s + s) by (nonlinear_arith);
            }
            y += 1;
        }
        let bitmap = Bitmap {
            format: PixelFormat::Rgb565,
            size: crate::geometry::Offset { x: s, y: s },
            cells,
        };
        proof {
            assert forall|i: int| 0 <= i < bitmap.cells@.len() implies crate::color::cell_ok(
                PixelFormat::Rgb565,
                #[trigger] bitmap.cells@[i],
            ) by {
                let yy = i / (s as int);
                let xx = i % (s as int);
                crate::bitmap::lemma_grid_decompose(s as int, s as int, i);
                assert(bitmap.cells@[yy * s + xx] == bitmap.cells@[i]);
            }
            assert forall|x: int, y: int|
                0 <= x < bitmap.size.x && 0 <= y < bitmap.size.y implies #[trigger] bitmap.pix(
                x,
                y,
            ) == spec_encode(
                PixelFormat::Rgb565,
                qr_color(modules@, side as int, scale as int, fg, bg, x, y),
            ) by {
                lemma_grid_index(s as int, s as int, x, y);
            }
        }
        Ok(QrImage { pos, side, scale, modules, fg, bg, bitmap })
    }

    /// Draws the code's opaque square.
    pub fn draw(&self, canvas: &mut Canvas)
        requires
            old(canvas).wf(),
            self.wf(),
        ensures
            final(canvas).wf(),
            final(canvas).format == old(canvas).format,
            final(canvas).size == old(canvas).size,
            final(canvas).viewport == old(canvas).viewport,
            forall|x: int, y: int|
                final(canvas).on_canvas(x, y) ==> #[trigger] final(canvas).pix(x, y) == (if old(
                    canvas,
                ).viewport.clip.contains(x, y) {
                    self.pix_spec(
                        old(canvas).format,
                        x - old(canvas).viewport.origin.x,
                        y - old(canvas).viewport.origin.y,
                        old(canvas).pix(x, y),
                    )
                } else {
                    old(canvas).pix(x, y)
                }),
    {
        let s = self.side * self.scale;
        let r = Rect::new(self.pos.x, self.pos.y, self.pos.x + s, self.pos.y + s);
        let view = BitmapView::new(&self.bitmap, self.fg);
        canvas.draw_bitmap(r, view);
        proof {
            assert forall|x: int, y: int|
                canvas.on_canvas(x, y) implies #[trigger] canvas.pix(x, y) == (if old(
                canvas,
            ).viewport.clip.contains(x, y) {
                self.pix_spec(
                    old(canvas).format,
                    x - old(canvas).viewport.origin.x,
                    y - old(canvas).viewport.origin.y,
                    old(canvas).pix(x, y),
                )
            } else {
                old(canvas).pix(x, y)
            }) by {
                if old(canvas).paint_region(r).contains(x, y) {
                    assert(self.bitmap.pix(
                        x - (r.x0 + old(canvas).viewport.origin.x),
                        y - (r.y0 + old(canvas).viewport.origin.y),
                    ) == spec_encode(
                        PixelFormat::Rgb565,
                        qr_color(
                            self.modules@,
                            self.side as int,
                            self.scale as int,
                            self.fg,
                            self.bg,
                            x - old(canvas).viewport.origin.x - self.pos.x,
                            y - old(canvas).viewport.origin.y - self.pos.y,
                        ),
                    ));
                }
            }
        }
    }
}

} // verus!
