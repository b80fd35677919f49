//! A run of pre-rasterized glyphs placed at a point.
//!
//! Font rasterization is a collaborator's job: each glyph arrives as a
//! grayscale coverage bitmap with an offset inside the text's box, and
//! the text draws them in order, colorized with one color.

use vstd::prelude::*;

use crate::bitmap::{Bitmap, BitmapView};
use crate::canvas::Canvas;
use crate::color::{spec_composite, Color, PixelFormat};
use crate::error::RenderError;
use crate::geometry::{coord_ok, Offset, Point, Rect};

verus! {

/// One rasterized glyph: a grayscale coverage bitmap at an offset
/// inside the owning text's box.
pub struct Glyph {
    pub off: Offset,
    pub bitmap: Bitmap,
}

impl Glyph {
    pub open spec fn wf(self) -> bool {
        self.bitmap.wf() && self.bitmap.format == PixelFormat::Mono8 && 0 <= self.off.x && 0
            <= self.off.y
    }

    /// True when the glyph fits inside a box of the given size.
    pub open spec fn fits(self, size: Offset) -> bool {
        self.off.x + self.bitmap.size.x <= size.x && self.off.y + self.bitmap.size.y <= size.y
    }

    /// The glyph's rectangle in text-local coordinates.
    pub open spec fn spec_rect(self) -> Rect {
        Rect {
            x0: self.off.x,
            y0: self.off.y,
            x1: (self.off.x + self.bitmap.size.x) as i32,
            y1: (self.off.y + self.bitmap.size.y) as i32,
        }
    }
}

/// The value of text-local pixel `(x, y)` after the glyphs are drawn in
/// order over a pixel holding `prev`.
pub open spec fn glyphs_pix(
    glyphs: Seq<Glyph>,
    fmt: PixelFormat,
    color: Color,
    x: int,
    y: int,
    prev: u32,
) -> u32
    decreases glyphs.len(),
{
    if glyphs.len() == 0 {
        prev
    } else {
        let p = glyphs_pix(glyphs.drop_last(), fmt, color, x, y, prev);
        let g = glyphs.last();
        if g.spec_rect().contains(x, y) {
            spec_composite(
                fmt,
                p,
                PixelFormat::Mono8,
                g.bitmap.pix(x - g.off.x, y - g.off.y),
                color,
            )
        } else {
            p
        }
    }
}

/// Glyphs never paint outside the box they fit in.
pub proof fn lemma_glyphs_pix_outside(
    glyphs: Seq<Glyph>,
    size: Offset,
    fmt: PixelFormat,
    color: Color,
    x: int,
    y: int,
    prev: u32,
)
    requires
        forall|i: int| 0 <= i < glyphs.len() ==> (#[trigger] glyphs[i]).wf() && glyphs[i].fits(size),
        !(0 <= x < size.x && 0 <= y < size.y),
    ensures
        glyphs_pix(glyphs, fmt, color, x, y, prev) == prev,
    decreases glyphs.len(),
{
    if glyphs.len() > 0 {
        lemma_glyphs_pix_outside(glyphs.drop_last(), size, fmt, color, x, y, prev);
        assert(glyphs[glyphs.len() - 1].wf());
    }
}

/// A colorized run of glyphs inside a fixed box.
pub struct Text {
    pub pos: Point,
    pub size: Offset,
    pub color: Color,
    pub glyphs: Vec<Glyph>,
}

impl Text {
    pub open spec fn wf(self) -> bool {
        self.pos.wf() && self.size.wf() && 0 <= self.size.x && 0 <= self.size.y && coord_ok(
            self.pos.x + self.size.x,
        ) && coord_ok(self.pos.y + self.size.y) && forall|i: int|
            0 <= i < self.glyphs@.len() ==> (#[trigger] self.glyphs@[i]).wf()
                && self.glyphs@[i].fits(self.size)
    }

    pub open spec fn spec_bounds(self) -> Rect {
        Rect {
            x0: self.pos.x,
            y0: self.pos.y,
            x1: (self.pos.x + self.size.x) as i32,
            y1: (self.pos.y + self.size.y) as i32,
        }
    }

    /// The value of the relative pixel `(x, y)` after the text is drawn
    /// over a pixel holding `prev`, on a canvas of format `fmt`.
    pub open spec fn pix_spec(self, fmt: PixelFormat, x: int, y: int, prev: u32) -> u32 {
        glyphs_pix(self.glyphs@, fmt, self.color, x - self.pos.x, y - self.pos.y, prev)
    }

    /// An empty text box.
    pub fn new(pos: Point, size: Offset, color: Color) -> (t: Text)
        requires
            pos.wf(),
            size.wf(),
            0 <= size.x,
            0 <= size.y,
            coord_ok(pos.x + size.x),
            coord_ok(pos.y + size.y),
        ensures
            t.wf(),
            t.pos == pos,
            t.size == size,
            t.color == color,
            t.glyphs@.len() == 0,
    {
        Text { pos, size, color, glyphs: Vec::new() }
    }

    /// Appends one rasterized glyph; refused when it does not fit the
    /// text's box.
    pub fn add_glyph(&mut self, off: Offset, bitmap: Bitmap) -> (r: Result<(), RenderError>)
        requires
            old(self).wf(),
            bitmap.wf(),
        ensures
            final(self).wf(),
            final(self).pos == old(self).pos,
            final(self).size == old(self).size,
            final(self).color == old(self).color,
            r matches Ok(_) <==> bitmap.format == PixelFormat::Mono8 && 0 <= off.x && 0 <= off.y
                && off.x + bitmap.size.x <= old(self).size.x && off.y + bitmap.size.y <= old(
                self,
            ).size.y,
            r matches Ok(_) ==> final(self).glyphs@ == old(self).glyphs@.push(
                Glyph { off, bitmap },
            ),
            r matches Err(e) ==> e == RenderError::Config && final(self).glyphs@ == old(
                self,
            ).glyphs@,
    {
        if !matches!(bitmap.format, PixelFormat::Mono8) {
            return Err(RenderError::Config);
        }
        if off.x < 0 || off.y < 0 || off.x > self.size.x - bitmap.width() || off.y > self.size.y
            - bitmap.height() {
            return Err(RenderError::Config);
        }
        self.glyphs.push(Glyph { off, bitmap });
        Ok(())
    }

    /// Draws the glyphs in order; pixels no glyph covers keep their
    /// value.
    pub fn draw(&self, canvas: &mut Canvas)
        requires
            old(canvas).wf(),
            self.wf(),
        ensures
            final(canvas).wf(),
            final(canvas).format == old(canvas).format,
            final(canvas).size == old(canvas).size,
            final(canvas).viewport == old(canvas).viewport,
            forall|x: int, y: int|
                final(canvas).on_canvas(x, y) ==> #[trigger] final(canvas).pix(x, y) == (if old(
                    canvas,
                ).viewport.clip.contains(x, y) {
                    self.pix_spec(
                        old(canvas).format,
                        x - old(canvas).viewport.origin.x,
                        y - old(canvas).viewport.origin.y,
                        old(canvas).pix(x, y),
                    )
                } else {
                    old(canvas).pix(x, y)
                }),
    {
        let n = self.glyphs.len();
        let mut i: usize = 0;
        while i < n
            invariant
                i <= n,
                n == self.glyphs@.len(),
                self.wf(),
                canvas.wf(),
                canvas.format == old(canvas).format,
                canvas.size == old(canvas).size,
                canvas.viewport == old(canvas).viewport,
                forall|x: int, y: int|
                    canvas.on_canvas(x, y) ==> #[trigger] canvas.pix(x, y) == (if old(
                        canvas,
                    ).viewport.clip.contains(x, y) {
                        glyphs_pix(
                            self.glyphs@.take(i as int),
                            old(canvas).format,
                            self.color,
                            x - old(canvas).viewport.origin.x - self.pos.x,
                            y - old(canvas).viewport.origin.y - self.pos.y,
                            old(canvas).pix(x, y),
                        )
                    } else {
                        old(canvas).pix(x, y)
                    }),
            decreases n - i,
        {
            let g = &self.glyphs[i];
            let r = Rect::new(
                self.pos.x + g.off.x,
                self.pos.y + g.off.y,
                self.pos.x + g.off.x + g.bitmap.width(),
                self.pos.y + g.off.y + g.bitmap.height(),
            );
            let view = BitmapView::new(&g.bitmap, self.color);
            let ghost pre = *canvas;
            canvas.draw_bitmap(r, view);
            proof {
                assert(self.glyphs@.take(i + 1).drop_last() =~= self.glyphs@.take(i as int));
                assert(self.glyphs@.take(i + 1).last() == self.glyphs@[i as int]);
                assert forall|x: int, y: int|
                    canvas.on_canvas(x, y) implies #[trigger] canvas.pix(x, y) == (if old(
                    canvas,
                ).viewport.clip.contains(x, y) {
                    glyphs_pix(
                        self.glyphs@.take(i + 1),
                        old(canvas).format,
                        self.color,
                        x - old(canvas).viewport.origin.x - self.pos.x,
                        y - old(canvas).viewport.origin.y - self.pos.y,
                        old(canvas).pix(x, y),
                    )
                } else {
                    old(canvas).pix(x, y)
                }) by {
                    assert(pre.pix(x, y) == (if old(canvas).viewport.clip.contains(x, y) {
                        glyphs_pix(
                            self.glyphs@.take(i as int),
                            old(canvas).format,
                            self.color,
                            x - old(canvas).viewport.origin.x - self.pos.x,
                            y - old(canvas).viewport.origin.y - self.pos.y,
                            old(canvas).pix(x, y),
                        )
                    } else {
                        old(canvas).pix(x, y)
                    }));
                    assert(canvas.pix(x, y) == (if pre.paint_region(r).contains(x, y) {
                        spec_composite(
                            pre.format,
                            pre.pix(x, y),
                            PixelFormat::Mono8,
                            g.bitmap.pix(
                                x - (r.x0 + pre.viewport.origin.x),
                                y - (r.y0 + pre.viewport.origin.y),
                            ),
                            self.color,
                        )
                    } else {
                        pre.pix(x, y)
                    }));
                }
            }
            i += 1;
        }
        proof {
            assert(self.glyphs@.take(n as int) =~= self.glyphs@);
        }
    }
}

} // verus!
