//! A rectangle with an optional filled interior and an optional frame.

use vstd::prelude::*;

use crate::canvas::Canvas;
use crate::color::{spec_blend, Color, PixelFormat};
use crate::geometry::{coord_ok, Rect};

verus! {

/// A bar: a rectangle, an optional background fill, an optional frame of
/// the given thickness, drawn with one coverage value.
pub struct Bar {
    pub rect: Rect,
    pub fg: Option<Color>,
    pub bg: Option<Color>,
    pub thickness: i32,
    pub alpha: u8,
}

impl Bar {
    pub open spec fn wf(self) -> bool {
        self.rect.wf() && 0 <= self.thickness && (if self.rect.spec_is_empty() {
            self.thickness == 0
        } else {
            2 * self.thickness <= self.rect.spec_width() && 2 * self.thickness
                <= self.rect.spec_height()
        })
    }

    /// The interior left inside the frame.
    pub open spec fn spec_inner(self) -> Rect {
        Rect {
            x0: (self.rect.x0 + self.thickness) as i32,
            y0: (self.rect.y0 + self.thickness) as i32,
            x1: (self.rect.x1 - self.thickness) as i32,
            y1: (self.rect.y1 - self.thickness) as i32,
        }
    }

    /// The value of the relative pixel `(x, y)` after this bar is drawn
    /// over a pixel holding `prev`, on a canvas of format `fmt`.
    pub open spec fn pix_spec(self, fmt: PixelFormat, x: int, y: int, prev: u32) -> u32 {
        if self.spec_inner().contains(x, y) {
            match self.bg {
                Some(c) => spec_blend(fmt, prev, c, self.alpha as u32),
                None => prev,
            }
        } else if self.rect.contains(x, y) {
            match self.fg {
                Some(c) => spec_blend(fmt, prev, c, self.alpha as u32),
                None => prev,
            }
        } else {
            prev
        }
    }

    pub fn new(rect: Rect) -> (b: Bar)
        requires
            rect.wf(),
        ensures
            b.wf(),
            b.rect == rect,
            b.fg is None,
            b.bg is None,
            b.thickness == 0,
            b.alpha == 255,
    {
        Bar { rect, fg: None, bg: None, thickness: 0, alpha: 255 }
    }

    pub fn with_bg(self, color: Color) -> (b: Bar)
        ensures
            b == (Bar { bg: Some(color), ..self }),
    {
        Bar { bg: Some(color), ..self }
    }

    pub fn with_fg(self, color: Color) -> (b: Bar)
        ensures
            b == (Bar { fg: Some(color), ..self }),
    {
        Bar { fg: Some(color), ..self }
    }

    pub fn with_alpha(self, alpha: u8) -> (b: Bar)
        ensures
            b == (Bar { alpha, ..self }),
    {
        Bar { alpha, ..self }
    }

    /// Sets the frame thickness, clamped so that the frame never folds
    /// over itself.
    pub fn with_thickness(self, thickness: i32) -> (b: Bar)
        requires
            self.wf(),
            0 <= thickness,
        ensures
            b.wf(),
            b.rect == self.rect,
            b.fg == self.fg,
            b.bg == self.bg,
            b.alpha == self.alpha,
            2 * thickness <= self.rect.spec_width() && 2 * thickness <= self.rect.spec_height()
                && !self.rect.spec_is_empty() ==> b.thickness == thickness,
    {
        if self.rect.is_empty() {
            Bar { thickness: 0, ..self }
        } else {
            let w = self.rect.width();
            let h = self.rect.height();
            let mut t = thickness;
            if t > w / 2 {
                t = w / 2;
            }
            if t > h / 2 {
                t = h / 2;
            }
            Bar { thickness: t, ..self }
        }
    }

    /// Draws the bar: interior fill first, then the four frame strips.
    /// Every write lands inside the viewport's clip; pixels outside the
    /// clipped bar keep their value.
    pub fn draw(&self, canvas: &mut Canvas)
        requires
            old(canvas).wf(),
            self.wf(),
        ensures
            final(canvas).wf(),
            final(canvas).format == old(canvas).format,
            final(canvas).size == old(canvas).size,
            final(canvas).viewport == old(canvas).viewport,
            forall|x: int, y: int|
                final(canvas).on_canvas(x, y) ==> #[trigger] final(canvas).pix(x, y) == (if old(
                    canvas,
                ).viewport.clip.contains(x, y) {
                    self.pix_spec(
                        old(canvas).format,
                        x - old(canvas).viewport.origin.x,
                        y - old(canvas).viewport.origin.y,
                        old(canvas).pix(x, y),
                    )
                } else {
                    old(canvas).pix(x, y)
                }),
    {
        let t = self.thickness;
        let r = self.rect;
        let inner = Rect::new(r.x0 + t, r.y0 + t, r.x1 - t, r.y1 - t);
        let top = Rect::new(r.x0, r.y0, r.x1, r.y0 + t);
        let bottom = Rect::new(r.x0, r.y1 - t, r.x1, r.y1);
        let left = Rect::new(r.x0, r.y0 + t, r.x0 + t, r.y1 - t);
        let right = Rect::new(r.x1 - t, r.y0 + t, r.x1, r.y1 - t);
        let ghost c0 = *canvas;
        if let Some(c) = self.bg {
            canvas.fill_rect(inner, c, self.alpha);
        }
        let ghost c1 = *canvas;
        if let Some(c) = self.fg {
            canvas.fill_rect(top, c, self.alpha);
            let ghost c2 = *canvas;
            canvas.fill_rect(bottom, c, self.alpha);
            let ghost c3 = *canvas;
            canvas.fill_rect(left, c, self.alpha);
            let ghost c4 = *canvas;
            canvas.fill_rect(right, c, self.alpha);
            proof {
                assert forall|x: int, y: int| canvas.on_canvas(x, y) implies #[trigger] canvas.pix(
                    x,
                    y,
                ) == (if c0.viewport.clip.contains(x, y) {
                    self.pix_spec(
                        c0.format,
                        x - c0.viewport.origin.x,
                        y - c0.viewport.origin.y,
                        c0.pix(x, y),
                    )
                } else {
                    c0.pix(x, y)
                }) by {
                    if self.bg is Some {
                        assert(c1.pix(x, y) == (if c0.paint_region(inner).contains(x, y) {
                            spec_blend(c0.format, c0.pix(x, y), self.bg->0, self.alpha as u32)
                        } else {
                            c0.pix(x, y)
                        }));
                    }
                    assert(c2.pix(x, y) == (if c1.paint_region(top).contains(x, y) {
                        spec_blend(c1.format, c1.pix(x, y), self.fg->0, self.alpha as u32)
                    } else {
                        c1.pix(x, y)
                    }));
                    assert(c3.pix(x, y) == (if c2.paint_region(bottom).contains(x, y) {
                        spec_blend(c2.format, c2.pix(x, y), self.fg->0, self.alpha as u32)
                    } else {
                        c2.pix(x, y)
                    }));
                    assert(c4.pix(x, y) == (if c3.paint_region(left).contains(x, y) {
                        spec_blend(c3.format, c3.pix(x, y), self.fg->0, self.alpha as u32)
                    } else {
                        c3.pix(x, y)
                    }));
                    assert(canvas.pix(x, y) == (if c4.paint_region(right).contains(x, y) {
                        spec_blend(c4.format, c4.pix(x, y), self.fg->0, self.alpha as u32)
                    } else {
                        c4.pix(x, y)
                    }));
                }
            }
        } else {
            proof {
                assert forall|x: int, y: int| canvas.on_canvas(x, y) implies #[trigger] canvas.pix(
                    x,
                    y,
                ) == (if c0.viewport.clip.contains(x, y) {
                    self.pix_spec(
                        c0.format,
                        x - c0.viewport.origin.x,
                        y - c0.viewport.origin.y,
                        c0.pix(x, y),
                    )
                } else {
                    c0.pix(x, y)
                }) by {
                    if self.bg is Some {
                        assert(c1.pix(x, y) == (if c0.paint_region(inner).contains(x, y) {
                            spec_blend(c0.format, c0.pix(x, y), self.bg->0, self.alpha as u32)
                        } else {
                            c0.pix(x, y)
                        }));
                    }
                }
            }
        }
    }
}

} // verus!
