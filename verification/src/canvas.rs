//! Software canvases: a pixel buffer, a pixel format and a clipping
//! viewport.
//!
//! Both drawing operations clip to the viewport before touching memory;
//! every pixel outside the clipped region is left exactly as it was.

use vstd::prelude::*;

use crate::bitmap::{dim_ok, lemma_grid_distinct, lemma_grid_index, Bitmap, BitmapView, MAX_DIM};
use crate::color::{
    cell_ok, composite, encode, spec_composite, spec_encode, blend, spec_blend, Color, PixelFormat,
};
use crate::error::RenderError;
use crate::geometry::{Offset, Rect};

verus! {

/// An origin offset plus a clipping rectangle, in the canvas's own
/// coordinate space.
#[derive(Clone, Copy, PartialEq, Eq, Structural, Debug)]
pub struct Viewport {
    pub origin: Offset,
    pub clip: Rect,
}

impl Viewport {
    pub open spec fn wf(self) -> bool {
        self.origin.wf() && self.clip.wf()
    }

    /// A viewport over a whole surface of the given size.
    pub fn from_size(size: Offset) -> (r: Viewport)
        requires
            size.wf(),
        ensures
            r.origin == (Offset { x: 0, y: 0 }),
            r.clip == (Rect { x0: 0, y0: 0, x1: size.x, y1: size.y }),
    {
        Viewport { origin: Offset::zero(), clip: Rect::from_size(size) }
    }

    /// A viewport with no origin shift and the given absolute clip.
    pub fn new(clip: Rect) -> (r: Viewport)
        ensures
            r.origin == (Offset { x: 0, y: 0 }),
            r.clip == clip,
    {
        Viewport { origin: Offset::zero(), clip }
    }

    /// Restricts the clip to the absolute rectangle `r`.
    pub fn absolute_clip(self, r: Rect) -> (v: Viewport)
        ensures
            v.origin == self.origin,
            v.clip == self.clip.spec_intersect(r),
    {
        Viewport { origin: self.origin, clip: self.clip.intersect(r) }
    }

    /// Restricts the clip to the translated relative rectangle `r`; the
    /// region a shape with bounds `r` may touch.
    pub fn relative_clip(self, r: Rect) -> (v: Viewport)
        requires
            self.wf(),
            r.wf(),
        ensures
            v.origin == self.origin,
            v.clip == self.clip.spec_intersect(r.spec_translate(self.origin)),
    {
        Viewport { origin: self.origin, clip: self.clip.intersect(r.translate(self.origin)) }
    }

    /// Shifts the origin by a relative offset.
    pub fn with_origin(self, shift: Offset) -> (v: Viewport)
        requires
            self.wf(),
            shift.wf(),
            self.origin.add_wf(shift),
        ensures
            v.clip == self.clip,
            v.origin.x == self.origin.x + shift.x,
            v.origin.y == self.origin.y + shift.y,
    {
        Viewport { origin: self.origin.add(shift), clip: self.clip }
    }
}

/// A pixel-format-specific software drawing target.
pub struct Canvas {
    pub format: PixelFormat,
    pub size: Offset,
    pub viewport: Viewport,
    pub cells: Vec<u32>,
}

impl Canvas {
    pub open spec fn wf(self) -> bool {
        dim_ok(self.size) && self.cells@.len() == self.size.x * self.size.y
            && self.viewport.wf() && 0 <= self.viewport.clip.x0 && 0 <= self.viewport.clip.y0
            && self.viewport.clip.x1 <= self.size.x && self.viewport.clip.y1 <= self.size.y
            && forall|i: int|
            0 <= i < self.cells@.len() ==> cell_ok(self.format, #[trigger] self.cells@[i])
    }

    /// The cell of the pixel at column `x`, row `y`.
    pub open spec fn pix(self, x: int, y: int) -> u32 {
        self.cells@[y * self.size.x + x]
    }

    /// True when `(x, y)` addresses a pixel of this canvas.
    pub open spec fn on_canvas(self, x: int, y: int) -> bool {
        0 <= x < self.size.x && 0 <= y < self.size.y
    }

    /// The absolute region a fill or a copy aimed at the relative
    /// rectangle `r` is allowed to touch.
    pub open spec fn paint_region(self, r: Rect) -> Rect {
        r.spec_translate(self.viewport.origin).spec_intersect(self.viewport.clip)
    }

    /// A fresh canvas with every pixel set to `bg` and the viewport over
    /// the whole surface; refused when the size is outside the engine's
    /// limits.
    pub fn new(format: PixelFormat, size: Offset, bg: Color) -> (r: Result<Canvas, RenderError>)
        requires
            size.wf(),
        ensures
            dim_ok(size) ==> matches!(r, Ok(_)),
            !dim_ok(size) ==> r == Result::<Canvas, RenderError>::Err(RenderError::Config),
            r matches Ok(c) ==> c.wf() && c.format == format && c.size == size && c.viewport == (
            Viewport { origin: Offset { x: 0, y: 0 }, clip: Rect { x0: 0, y0: 0, x1: size.x, y1: size.y } })
                && forall|x: int, y: int|
                c.on_canvas(x, y) ==> c.pix(x, y) == spec_encode(format, bg),
    {
        match Bitmap::new_filled(format, size, bg) {
            Ok(b) => {
                let ghost bsnap = b;
                let c = Canvas {
                    format: b.format,
                    size: b.size,
                    viewport: Viewport::from_size(size),
                    cells: b.cells,
                };
                proof {
                    assert forall|x: int, y: int| c.on_canvas(x, y) implies c.pix(x, y)
                        == spec_encode(format, bg) by {
                        assert(bsnap.pix(x, y) == spec_encode(format, bg));
                    }
                }
                Ok(c)
            },
            Err(e) => Err(e),
        }
    }

    pub fn size(&self) -> (s: Offset)
        ensures
            s == self.size,
    {
        self.size
    }

    pub fn bounds(&self) -> (r: Rect)
        ensures
            r == (Rect { x0: 0, y0: 0, x1: self.size.x, y1: self.size.y }),
    {
        Rect { x0: 0, y0: 0, x1: self.size.x, y1: self.size.y }
    }

    pub fn viewport(&self) -> (v: Viewport)
        ensures
            v == self.viewport,
    {
        self.viewport
    }

    /// Installs a viewport, re-clipped against the canvas's own bounds;
    /// the caller's clip is never trusted.
    pub fn set_viewport(&mut self, vp: Viewport)
        requires
            old(self).wf(),
            vp.wf(),
        ensures
            final(self).wf(),
            final(self).format == old(self).format,
            final(self).size == old(self).size,
            final(self).cells == old(self).cells,
            final(self).viewport.origin == vp.origin,
            final(self).viewport.clip == vp.clip.spec_intersect(
                Rect { x0: 0, y0: 0, x1: old(self).size.x, y1: old(self).size.y },
            ),
    {
        let b = self.bounds();
        self.viewport = vp.absolute_clip(b);
    }

    #[verifier::loop_isolation(false)]
    /// Fills the relative rectangle `r`, clipped to the viewport, with
    /// `color` at coverage `alpha`; every pixel outside the clipped
    /// region keeps its value.
    pub fn fill_rect(&mut self, r: Rect, color: Color, alpha: u8)
        requires
            old(self).wf(),
            r.wf(),
        ensures
            final(self).wf(),
            final(self).format == old(self).format,
            final(self).size == old(self).size,
            final(self).viewport == old(self).viewport,
            forall|x: int, y: int|
                final(self).on_canvas(x, y) ==> final(self).pix(x, y) == (if old(
                    self,
                ).paint_region(r).contains(x, y) {
                    spec_blend(old(self).format, old(self).pix(x, y), color, alpha as u32)
                } else {
                    old(self).pix(x, y)
                }),
    {
        let vp = self.viewport;
        let eff = r.translate(vp.origin).intersect(vp.clip);
        let w = self.size.x;
        let h = self.size.y;
        let mut y = eff.y0;
        while y < eff.y1
            invariant
                self.wf(),
                r.wf(),
                self.format == old(self).format,
                self.size == old(self).size,
                self.viewport == old(self).viewport,
                w == self.size.x,
                h == self.size.y,
                eff == old(self).paint_region(r),
                0 <= eff.x0,
                eff.x1 <= w,
                0 <= eff.y0 <= y,
                eff.y1 <= h,
                y <= eff.y1 || y == eff.y0,
                forall|xx: int, yy: int|
                    self.on_canvas(xx, yy) ==> #[trigger] self.pix(xx, yy) == (if eff.contains(
                        xx,
                        yy,
                    ) && yy < y {
                        spec_blend(old(self).format, old(self).pix(xx, yy), color, alpha as u32)
                    } else {
                        old(self).pix(xx, yy)
                    }),
            decreases eff.y1 - y,
        {
            let mut x = eff.x0;
            while x < eff.x1
                invariant
                    self.wf(),
                    r.wf(),
                    self.format == old(self).format,
                    self.size == old(self).size,
                    self.viewport == old(self).viewport,
                    w == self.size.x,
                    h == self.size.y,
                    eff == old(self).paint_region(r),
                    0 <= eff.x0 <= x,
                    eff.x1 <= w,
                    0 <= eff.y0 <= y < eff.y1 <= h,
                    x <= eff.x1 || x == eff.x0,
                    forall|xx: int, yy: int|
                        self.on_canvas(xx, yy) ==> #[trigger] self.pix(xx, yy) == (if eff.contains(
                            xx,
                            yy,
                        ) && (yy < y || (yy == y && xx < x)) {
                            spec_blend(
                                old(self).format,
                                old(self).pix(xx, yy),
                                color,
                                alpha as u32,
                            )
                        } else {
                            old(self).pix(xx, yy)
                        }),
                decreases eff.x1 - x,
            {
                proof {
                    lemma_grid_index(w as int, h as int, x as int, y as int);
                }
                let ghost snap = *self;
                let idx = (y as usize) * (w as usize) + (x as usize);
                let d = self.cells[idx];
                let v = blend(self.format, d, color, alpha as u32);
                self.cells[idx] = v;
                proof {
                    assert forall|xx: int, yy: int|
                        self.on_canvas(xx, yy) implies self.pix(xx, yy) == (if eff.contains(
                        xx,
                        yy,
                    ) && (yy < y || (yy == y && xx < x + 1)) {
                        spec_blend(old(self).format, old(self).pix(xx, yy), color, alpha as u32)
                    } else {
                        old(self).pix(xx, yy)
                    }) by {
                        lemma_grid_index(w as int, h as int, xx, yy);
                        assert(snap.pix(xx, yy) == (if eff.contains(xx, yy) && (yy < y || (yy == y
                            && xx < x)) {
                            spec_blend(
                                old(self).format,
                                old(self).pix(xx, yy),
                                color,
                                alpha as u32,
                            )
                        } else {
                            old(self).pix(xx, yy)
                        }));
                        if xx == x as int && yy == y as int {
                            assert(self.pix(xx, yy) == v);
                            assert(d == snap.pix(xx, yy));
                        } else {
                            lemma_grid_distinct(w as int, xx, yy, x as int, y as int);
                            assert(self.pix(xx, yy) == snap.pix(xx, yy));
                        }
                    }
                }
                x += 1;
            }
            y += 1;
        }
    }

    #[verifier::loop_isolation(false)]
    /// Draws the view's bitmap into the relative rectangle `r`, clipped
    /// to the viewport; every pixel outside the clipped region keeps its
    /// value. The rectangle's size must equal the bitmap's.
    pub fn draw_bitmap(&mut self, r: Rect, view: BitmapView<'_>)
        requires
            old(self).wf(),
            r.wf(),
            view.bitmap.wf(),
            r.spec_width() == view.bitmap.size.x,
            r.spec_height() == view.bitmap.size.y,
        ensures
            final(self).wf(),
            final(self).format == old(self).format,
            final(self).size == old(self).size,
            final(self).viewport == old(self).viewport,
            forall|x: int, y: int|
                final(self).on_canvas(x, y) ==> final(self).pix(x, y) == (if old(
                    self,
                ).paint_region(r).contains(x, y) {
                    spec_composite(
                        old(self).format,
                        old(self).pix(x, y),
                        view.bitmap.format,
                        view.bitmap.pix(
                            x - (r.x0 + old(self).viewport.origin.x),
                            y - (r.y0 + old(self).viewport.origin.y),
                        ),
                        view.fg,
                    )
                } else {
                    old(self).pix(x, y)
                }),
    {
        let vp = self.viewport;
        let abs = r.translate(vp.origin);
        let eff = abs.intersect(vp.clip);
        let w = self.size.x;
        let h = self.size.y;
        let mut y = eff.y0;
        while y < eff.y1
            invariant
                self.wf(),
                r.wf(),
                view.bitmap.wf(),
                r.spec_width() == view.bitmap.size.x,
                r.spec_height() == view.bitmap.size.y,
                self.format == old(self).format,
                self.size == old(self).size,
                self.viewport == old(self).viewport,
                w == self.size.x,
                h == self.size.y,
                abs == r.spec_translate(old(self).viewport.origin),
                eff == old(self).paint_region(r),
                0 <= eff.x0,
                eff.x1 <= w,
                0 <= eff.y0 <= y,
                eff.y1 <= h,
                y <= eff.y1 || y == eff.y0,
                abs.x0 <= eff.x0,
                abs.y0 <= eff.y0,
                eff.x1 <= abs.x1,
                eff.y1 <= abs.y1,
                forall|xx: int, yy: int|
                    self.on_canvas(xx, yy) ==> #[trigger] self.pix(xx, yy) == (if eff.contains(
                        xx,
                        yy,
                    ) && yy < y {
                        spec_composite(
                            old(self).format,
                            old(self).pix(xx, yy),
                            view.bitmap.format,
                            view.bitmap.pix(xx - abs.x0, yy - abs.y0),
                            view.fg,
                        )
                    } else {
                        old(self).pix(xx, yy)
                    }),
            decreases eff.y1 - y,
        {
            let mut x = eff.x0;
            while x < eff.x1
                invariant
                    self.wf(),
                    r.wf(),
                    view.bitmap.wf(),
                    r.spec_width() == view.bitmap.size.x,
                    r.spec_height() == view.bitmap.size.y,
                    self.format == old(self).format,
                    self.size == old(self).size,
                    self.viewport == old(self).viewport,
                    w == self.size.x,
                    h == self.size.y,
                    abs == r.spec_translate(old(self).viewport.origin),
                    eff == old(self).paint_region(r),
                    0 <= eff.x0 <= x,
                    eff.x1 <= w,
                    0 <= eff.y0 <= y < eff.y1 <= h,
                    x <= eff.x1 || x == eff.x0,
                    abs.x0 <= eff.x0,
                    abs.y0 <= eff.y0,
                    eff.x1 <= abs.x1,
                    eff.y1 <= abs.y1,
                    forall|xx: int, yy: int|
                        self.on_canvas(xx, yy) ==> #[trigger] self.pix(xx, yy) == (if eff.contains(
                            xx,
                            yy,
                        ) && (yy < y || (yy == y && xx < x)) {
                            spec_composite(
                                old(self).format,
                                old(self).pix(xx, yy),
                                view.bitmap.format,
                                view.bitmap.pix(xx - abs.x0, yy - abs.y0),
                                view.fg,
                            )
                        } else {
                            old(self).pix(xx, yy)
                        }),
                decreases eff.x1 - x,
            {
                proof {
                    lemma_grid_index(w as int, h as int, x as int, y as int);
                }
                let ghost snap = *self;
                let idx = (y as usize) * (w as usize) + (x as usize);
                let d = self.cells[idx];
                let s = view.bitmap.get_pix(x - abs.x0, y - abs.y0);
                let v = composite(self.format, d, view.bitmap.format, s, view.fg);
                self.cells[idx] = v;
                proof {
                    assert forall|xx: int, yy: int|
                        self.on_canvas(xx, yy) implies self.pix(xx, yy) == (if eff.contains(
                        xx,
                        yy,
                    ) && (yy < y || (yy == y && xx < x + 1)) {
                        spec_composite(
                            old(self).format,
                            old(self).pix(xx, yy),
                            view.bitmap.format,
                            view.bitmap.pix(xx - abs.x0, yy - abs.y0),
                            view.fg,
                        )
                    } else {
                        old(self).pix(xx, yy)
                    }) by {
                        lemma_grid_index(w as int, h as int, xx, yy);
                        assert(snap.pix(xx, yy) == (if eff.contains(xx, yy) && (yy < y || (yy == y
                            && xx < x)) {
                            spec_composite(
                                old(self).format,
                                old(self).pix(xx, yy),
                                view.bitmap.format,
                                view.bitmap.pix(xx - abs.x0, yy - abs.y0),
                                view.fg,
                            )
                        } else {
                            old(self).pix(xx, yy)
                        }));
                        if xx == x as int && yy == y as int {
                            assert(self.pix(xx, yy) == v);
                            assert(d == snap.pix(xx, yy));
                        } else {
                            lemma_grid_distinct(w as int, xx, yy, x as int, y as int);
                            assert(self.pix(xx, yy) == snap.pix(xx, yy));
                        }
                    }
                }
                x += 1;
            }
            y += 1;
        }
    }
}

} // verus!
