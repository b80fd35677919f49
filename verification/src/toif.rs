//! An icon image: a pre-decoded bitmap placed at a point.
//!
//! Icon content arrives already decoded from its compact storage format;
//! a grayscale icon acts as a coverage mask for its foreground color.

use vstd::prelude::*;

use crate::bitmap::{Bitmap, BitmapView};
use crate::canvas::Canvas;
use crate::color::{spec_composite, Color, PixelFormat};
use crate::geometry::{coord_ok, Point, Rect};

verus! {

/// A placed icon bitmap.
pub struct ToifImage {
    pub pos: Point,
    pub fg: Color,
    pub bitmap: Bitmap,
}

impl ToifImage {
    pub open spec fn wf(self) -> bool {
        self.pos.wf() && self.bitmap.wf() && coord_ok(self.pos.x + self.bitmap.size.x)
            && coord_ok(self.pos.y + self.bitmap.size.y)
    }

    pub open spec fn spec_bounds(self) -> Rect {
        Rect {
            x0: self.pos.x,
            y0: self.pos.y,
            x1: (self.pos.x + self.bitmap.size.x) as i32,
            y1: (self.pos.y + self.bitmap.size.y) as i32,
        }
    }

    /// The value of the relative pixel `(x, y)` after the icon is drawn
    /// over a pixel holding `prev`, on a canvas of format `fmt`.
    pub open spec fn pix_spec(self, fmt: PixelFormat, x: int, y: int, prev: u32) -> u32 {
        if self.spec_bounds().contains(x, y) {
            spec_composite(
                fmt,
                prev,
                self.bitmap.format,
                self.bitmap.pix(x - self.pos.x, y - self.pos.y),
                self.fg,
            )
        } else {
            prev
        }
    }

    pub fn new(pos: Point, fg: Color, bitmap: Bitmap) -> (t: ToifImage)
        requires
            pos.wf(),
            bitmap.wf(),
            coord_ok(pos.x + bitmap.size.x),
            coord_ok(pos.y + bitmap.size.y),
        ensures
            t.wf(),
            t.pos == pos,
            t.fg == fg,
            t.bitmap == bitmap,
    {
        ToifImage { pos, fg, bitmap }
    }

    /// Draws the icon bitmap at its position.
    pub fn draw(&self, canvas: &mut Canvas)
        requires
            old(canvas).wf(),
            self.wf(),
        ensures
            final(canvas).wf(),
            final(canvas).format == old(canvas).format,
            final(canvas).size == old(canvas).size,
            final(canvas).viewport == old(canvas).viewport,
            forall|x: int, y: int|
                final(canvas).on_canvas(x, y) ==> #[trigger] final(canvas).pix(x, y) == (if old(
                    canvas,
                ).viewport.clip.contains(x, y) {
                    self.pix_spec(
                        old(canvas).format,
                        x - old(canvas).viewport.origin.x,
                        y - old(canvas).viewport.origin.y,
                        old(canvas).pix(x, y),
                    )
                } else {
                    old(canvas).pix(x, y)
                }),
    {
        let r = Rect::new(
            self.pos.x,
            self.pos.y,
            self.pos.x + self.bitmap.width(),
            self.pos.y + self.bitmap.height(),
        );
        let view = BitmapView::new(&self.bitmap, self.fg);
        canvas.draw_bitmap(r, view);
    }
}

} // verus!
