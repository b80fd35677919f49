//! The closed set of drawable shapes, as one tagged union.
//!
//! Every shape computes a pure bounding rectangle, draws itself into a
//! canvas strictly inside the viewport's clip, and releases any
//! pass-local transient identity in `cleanup`.

use vstd::prelude::*;

use crate::bar::Bar;
use crate::cache::DrawingCache;
use crate::canvas::Canvas;
use crate::circle::Circle;
use crate::corner_highlight::CornerHighlight;
use crate::error::RenderError;
use crate::geometry::Rect;
use crate::jpeg::JpegImage;
use crate::color::PixelFormat;
use crate::qrcode::QrImage;
use crate::text::Text;
use crate::toif::ToifImage;

verus! {

/// A drawable primitive.
pub enum Shape {
    Bar(Bar),
    Circle(Circle),
    Text(Text),
    Toif(ToifImage),
    Jpeg(JpegImage),
    Qr(QrImage),
    CornerHighlight(CornerHighlight),
}

impl Shape {
    pub open spec fn wf(self) -> bool {
        match self {
            Shape::Bar(s) => s.wf(),
            Shape::Circle(s) => s.wf(),
            Shape::Text(s) => s.wf(),
            Shape::Toif(s) => s.wf(),
            Shape::Jpeg(s) => s.wf(),
            Shape::Qr(s) => s.wf(),
            Shape::CornerHighlight(s) => s.wf(),
        }
    }

    pub open spec fn spec_bounds(self) -> Rect {
        match self {
            Shape::Bar(s) => s.rect,
            Shape::Circle(s) => s.spec_bounds(),
            Shape::Text(s) => s.spec_bounds(),
            Shape::Toif(s) => s.spec_bounds(),
            Shape::Jpeg(s) => s.spec_bounds(),
            Shape::Qr(s) => s.spec_bounds(),
            Shape::CornerHighlight(s) => s.spec_bounds(),
        }
    }

    /// The value of the relative pixel `(x, y)` after this shape is
    /// drawn over a pixel holding `prev`, on a canvas of format `fmt`.
    pub open spec fn pix_spec(self, fmt: PixelFormat, x: int, y: int, prev: u32) -> u32 {
        match self {
            Shape::Bar(s) => s.pix_spec(fmt, x, y, prev),
            Shape::Circle(s) => s.pix_spec(fmt, x, y, prev),
            Shape::Text(s) => s.pix_spec(fmt, x, y, prev),
            Shape::Toif(s) => s.pix_spec(fmt, x, y, prev),
            Shape::Jpeg(s) => s.pix_spec(fmt, x, y, prev),
            Shape::Qr(s) => s.pix_spec(fmt, x, y, prev),
            Shape::CornerHighlight(s) => s.pix_spec(fmt, x, y, prev),
        }
    }

    /// True when `b` draws exactly as `a`: equal but for pass-local
    /// transient state.
    pub open spec fn same_drawing(a: Shape, b: Shape) -> bool {
        match (a, b) {
            (Shape::Jpeg(p), Shape::Jpeg(q)) => p.pos == q.pos && p.jpeg == q.jpeg && p.scale
                == q.scale && p.blur_radius == q.blur_radius,
            _ => a == b,
        }
    }

    /// Shapes that draw the same have the same bounds, the same
    /// well-formedness and the same per-pixel effect.
    pub proof fn lemma_same_drawing(a: Shape, b: Shape)
        requires
            Shape::same_drawing(a, b),
        ensures
            a.spec_bounds() == b.spec_bounds(),
            a.wf() == b.wf(),
            a.content_ok() == b.content_ok(),
            Shape::band_cost_b(a) == Shape::band_cost_b(b),
            Shape::band_cost_a(a) == Shape::band_cost_a(b),
            forall|fmt: PixelFormat, x: int, y: int, prev: u32|
                a.pix_spec(fmt, x, y, prev) == #[trigger] b.pix_spec(fmt, x, y, prev),
    {
    }

    /// A shape's effect outside its bounds is no effect.
    pub proof fn lemma_outside_bounds(s: Shape, fmt: PixelFormat, x: int, y: int, prev: u32)
        requires
            s.wf(),
            !s.spec_bounds().contains(x, y),
        ensures
            s.pix_spec(fmt, x, y, prev) == prev,
    {
        match s {
            Shape::Text(t) => {
                crate::text::lemma_glyphs_pix_outside(
                    t.glyphs@,
                    t.size,
                    fmt,
                    t.color,
                    x - t.pos.x,
                    y - t.pos.y,
                    prev,
                );
            },
            _ => {},
        }
    }

    /// True of a shape whose content is well-formed.
    pub open spec fn content_ok(self) -> bool {
        match self {
            Shape::Jpeg(j) => crate::jpeg::stream_ok(j.jpeg@),
            _ => true,
        }
    }

    /// The worst-case bytes one redraw of this shape leases from the
    /// second arena: two scratch lines for an image, nothing else.
    pub open spec fn band_cost_b(s: Shape) -> int {
        match s {
            Shape::Jpeg(j) => if j.spec_sw() >= 0 {
                8 * j.spec_sw()
            } else {
                0
            },
            _ => 0,
        }
    }

    /// The worst-case bytes one redraw of this shape leases from the
    /// first arena: a fresh blur window for a blurred image, nothing
    /// else.
    pub open spec fn band_cost_a(s: Shape) -> int {
        match s {
            Shape::Jpeg(j) => if j.blur_radius > 0 && j.spec_sw() >= 0 {
                (2 * j.blur_radius + 1) * j.spec_sw() * 4
            } else {
                0
            },
            _ => 0,
        }
    }

    /// A shape's lease costs are never negative.
    pub proof fn lemma_band_cost_nonneg(s: Shape)
        ensures
            Shape::band_cost_b(s) >= 0,
            Shape::band_cost_a(s) >= 0,
    {
        match s {
            Shape::Jpeg(j) => {
                if j.blur_radius > 0 && j.spec_sw() >= 0 {
                    assert((2 * j.blur_radius + 1) * j.spec_sw() * 4 >= 0) by (nonlinear_arith)
                        requires
                            j.blur_radius > 0,
                            j.spec_sw() >= 0,
                    ;
                }
            },
            _ => {},
        }
    }

    /// The condition under which drawing this shape is owed success:
    /// well-formed content, and the cache leases the draw needs fit.
    pub open spec fn draw_succeeds(s: Shape, cache: DrawingCache) -> bool {
        match s {
            Shape::Jpeg(j) => crate::jpeg::jpeg_draw_succeeds(j, cache),
            _ => true,
        }
    }

    /// Checks the shape's content before any drawing work is spent on
    /// it; malformed content is fatal for the pass and is surfaced at
    /// submission rather than silently drawing nothing.
    pub fn validate(&self) -> (r: Result<(), RenderError>)
        requires
            self.wf(),
        ensures
            r matches Ok(_) <==> self.content_ok(),
            r matches Err(e) ==> e == RenderError::Content,
    {
        match self {
            Shape::Jpeg(j) => {
                match crate::jpeg::parse_header(&j.jpeg) {
                    Ok(_) => Ok(()),
                    Err(e) => Err(e),
                }
            },
            _ => Ok(()),
        }
    }

    /// The shape's bounding rectangle; pure, cheap, and stable across
    /// repeated calls within one pass.
    pub fn bounds(&self, cache: &DrawingCache) -> (r: Rect)
        requires
            self.wf(),
        ensures
            r == self.spec_bounds(),
            r.wf(),
    {
        match self {
            Shape::Bar(s) => s.rect,
            Shape::Circle(s) => Rect::new(
                s.center.x - s.radius,
                s.center.y - s.radius,
                s.center.x + s.radius + 1,
                s.center.y + s.radius + 1,
            ),
            Shape::Text(s) => Rect::new(
                s.pos.x,
                s.pos.y,
                s.pos.x + s.size.x,
                s.pos.y + s.size.y,
            ),
            Shape::Toif(s) => Rect::new(
                s.pos.x,
                s.pos.y,
                s.pos.x + s.bitmap.width(),
                s.pos.y + s.bitmap.height(),
            ),
            Shape::Jpeg(s) => s.bounds(cache),
            Shape::Qr(s) => {
                let side = s.side * s.scale;
                Rect::new(s.pos.x, s.pos.y, s.pos.x + side, s.pos.y + side)
            },
            Shape::CornerHighlight(s) => s.rect,
        }
    }

    /// Draws the shape into the canvas, clipped to the viewport. On
    /// success every clip pixel holds exactly the shape's per-pixel
    /// effect over its old value, and nothing outside the clip moved; a
    /// failure is reported before the first pixel is written.
    pub fn draw(&mut self, canvas: &mut Canvas, cache: &mut DrawingCache) -> (r: Result<
        (),
        RenderError,
    >)
        requires
            old(self).wf(),
            old(canvas).wf(),
            old(cache).wf(),
        ensures
            Shape::same_drawing(*old(self), *final(self)),
            final(self).wf(),
            final(cache).wf(),
            final(cache).bump_a.capacity == old(cache).bump_a.capacity,
            final(cache).bump_b.capacity == old(cache).bump_b.capacity,
            final(canvas).wf(),
            final(canvas).format == old(canvas).format,
            final(canvas).size == old(canvas).size,
            final(canvas).viewport == old(canvas).viewport,
            !(*old(self) matches Shape::Jpeg(_)) ==> (r matches Ok(_)) && *final(cache) == *old(
                cache,
            ),
            Shape::draw_succeeds(*old(self), *old(cache)) ==> (r matches Ok(_)),
            r matches Ok(_) ==> final(cache).bump_b.used <= old(cache).bump_b.used
                + Shape::band_cost_b(*old(self)) && final(cache).bump_a.used <= old(
                cache,
            ).bump_a.used + Shape::band_cost_a(*old(self)),
            r matches Err(_) ==> final(canvas).cells == old(canvas).cells && (*old(
                self,
            ) matches Shape::Jpeg(_)),
            r matches Err(e) && e == RenderError::Content ==> !old(self).content_ok(),
            r matches Err(e) ==> e == RenderError::Content || e == RenderError::Config,
            r matches Ok(_) ==> forall|x: int, y: int|
                final(canvas).on_canvas(x, y) ==> #[trigger] final(canvas).pix(x, y) == (if old(
                    canvas,
                ).viewport.clip.contains(x, y) {
                    old(self).pix_spec(
                        old(canvas).format,
                        x - old(canvas).viewport.origin.x,
                        y - old(canvas).viewport.origin.y,
                        old(canvas).pix(x, y),
                    )
                } else {
                    old(canvas).pix(x, y)
                }),
    {
        match self {
            Shape::Bar(s) => {
                s.draw(canvas);
                Ok(())
            },
            Shape::Circle(s) => {
                s.draw(canvas);
                Ok(())
            },
            Shape::Text(s) => {
                s.draw(canvas);
                Ok(())
            },
            Shape::Toif(s) => {
                s.draw(canvas);
                Ok(())
            },
            Shape::Jpeg(s) => {
                let res = s.draw(canvas, cache);
                proof {
                    if res is Ok {
                        crate::jpeg::lemma_scaled_dim(
                            crate::jpeg::stream_width(s.jpeg@),
                            crate::jpeg::spec_scale_factor(s.scale as int),
                            0,
                        );
                    }
                }
                res
            },
            Shape::Qr(s) => {
                s.draw(canvas);
                Ok(())
            },
            Shape::CornerHighlight(s) => {
                s.draw(canvas);
                Ok(())
            },
        }
    }

    /// Releases any pass-local transient identity; called once per pass
    /// end whether or not the shape was drawn.
    pub fn cleanup(&mut self, cache: &mut DrawingCache)
        ensures
            Shape::same_drawing(*old(self), *final(self)),
            final(self).wf() == old(self).wf(),
            *final(cache) == *old(cache),
    {
        match self {
            Shape::Jpeg(s) => {
                s.cleanup(cache);
            },
            _ => {},
        }
    }
}

} // verus!
