//! The DMA-backed display canvas.
//!
//! The display owns hardware-resident RGB565 pixel memory. Writes go
//! through asynchronous blit operations: an issued operation marks its
//! region pending and the engine busy, only one operation is in flight
//! at a time, and a software read or write that touches the pending
//! region is refused until the operation has been waited out.

use vstd::prelude::*;

use crate::bitmap::dim_ok;
use crate::canvas::{Canvas, Viewport};
use crate::color::{cell_ok, PixelFormat};
use crate::error::RenderError;
use crate::geometry::{Offset, Rect};

verus! {

/// Pixels across the physical display.
pub const DISPLAY_RESX: i32 = 240;

/// Pixels down the physical display.
pub const DISPLAY_RESY: i32 = 240;

/// A canvas handle over the physical display's RGB565 memory.
pub struct DisplayCanvas {
    pub size: Offset,
    pub viewport: Viewport,
    pub cells: Vec<u32>,
    /// True while a blit is in flight; only one at a time.
    pub busy: bool,
    /// The region the in-flight blit owns.
    pub pending: Rect,
}

impl DisplayCanvas {
    pub open spec fn wf(self) -> bool {
        dim_ok(self.size) && self.cells@.len() == self.size.x * self.size.y && self.viewport.wf()
            && 0 <= self.viewport.clip.x0 && 0 <= self.viewport.clip.y0 && self.viewport.clip.x1
            <= self.size.x && self.viewport.clip.y1 <= self.size.y && self.pending.wf() && forall|
            i: int,
        |
            0 <= i < self.cells@.len() ==> cell_ok(PixelFormat::Rgb565, #[trigger] self.cells@[i])
    }

    pub open spec fn pix(self, x: int, y: int) -> u32 {
        self.cells@[y * self.size.x + x]
    }

    pub open spec fn on_canvas(self, x: int, y: int) -> bool {
        0 <= x < self.size.x && 0 <= y < self.size.y
    }

    /// Acquires the display's logical canvas: full resolution, a full
    /// viewport, no blit in flight.
    pub fn acquire() -> (r: Option<DisplayCanvas>)
        ensures
            r matches Some(d) ==> d.wf() && d.size == (Offset { x: DISPLAY_RESX, y: DISPLAY_RESY })
                && d.viewport == (Viewport {
                origin: Offset { x: 0, y: 0 },
                clip: Rect { x0: 0, y0: 0, x1: DISPLAY_RESX, y1: DISPLAY_RESY },
            }) && !d.busy,
            r is Some,
    {
        match Canvas::new(
            PixelFormat::Rgb565,
            Offset::new(DISPLAY_RESX, DISPLAY_RESY),
            crate::color::Color::black(),
        ) {
            Ok(c) => Some(
                DisplayCanvas {
                    size: c.size,
                    viewport: c.viewport,
                    cells: c.cells,
                    busy: false,
                    pending: Rect::new(0, 0, 0, 0),
                },
            ),
            Err(_) => None,
        }
    }

    pub fn viewport(&self) -> (v: Viewport)
        ensures
            v == self.viewport,
    {
        self.viewport
    }

    pub fn size(&self) -> (s: Offset)
        ensures
            s == self.size,
    {
        self.size
    }

    /// Installs a viewport, re-clipped against the display's bounds.
    pub fn set_viewport(&mut self, vp: Viewport)
        requires
            old(self).wf(),
            vp.wf(),
        ensures
            final(self).wf(),
            final(self).size == old(self).size,
            final(self).cells == old(self).cells,
            final(self).busy == old(self).busy,
            final(self).pending == old(self).pending,
            final(self).viewport.origin == vp.origin,
            final(self).viewport.clip == vp.clip.spec_intersect(
                Rect { x0: 0, y0: 0, x1: old(self).size.x, y1: old(self).size.y },
            ),
    {
        let b = Rect::new(0, 0, self.size.x, self.size.y);
        self.viewport = vp.absolute_clip(b);
    }

    /// Blocks until the in-flight blit has retired and releases its
    /// region.
    pub fn wait(&mut self)
        requires
            old(self).wf(),
        ensures
            final(self).wf(),
            final(self).size == old(self).size,
            final(self).viewport == old(self).viewport,
            final(self).cells == old(self).cells,
            !final(self).busy,
            final(self).pending == (Rect { x0: 0, y0: 0, x1: 0, y1: 0 }),
    {
        self.busy = false;
        self.pending = Rect::new(0, 0, 0, 0);
    }

    /// Reads one pixel by software; refused exactly while the pixel
    /// belongs to the pending region of an in-flight blit.
    pub fn sw_read_pixel(&self, x: i32, y: i32) -> (r: Result<u32, RenderError>)
        requires
            self.wf(),
            self.on_canvas(x as int, y as int),
        ensures
            r is Err <==> self.busy && self.pending.contains(x as int, y as int),
            r matches Err(e) ==> e == RenderError::HardwareBusy,
            r matches Ok(c) ==> c == self.pix(x as int, y as int),
    {
        if self.busy && x >= self.pending.x0 && x < self.pending.x1 && y >= self.pending.y0 && y
            < self.pending.y1 {
            return Err(RenderError::HardwareBusy);
        }
        proof {
            crate::bitmap::lemma_grid_index(
                self.size.x as int,
                self.size.y as int,
                x as int,
                y as int,
            );
        }
        Ok(self.cells[(y as usize) * (self.size.x as usize) + (x as usize)])
    }

    /// Writes one pixel by software; refused exactly while the pixel
    /// belongs to the pending region of an in-flight blit.
    pub fn sw_write_pixel(&mut self, x: i32, y: i32, cell: u32) -> (r: Result<(), RenderError>)
        requires
            old(self).wf(),
            old(self).on_canvas(x as int, y as int),
            cell_ok(PixelFormat::Rgb565, cell),
        ensures
            final(self).wf(),
            final(self).size == old(self).size,
            final(self).viewport == old(self).viewport,
            final(self).busy == old(self).busy,
            final(self).pending == old(self).pending,
            r is Err <==> old(self).busy && old(self).pending.contains(x as int, y as int),
            r matches Err(e) ==> e == RenderError::HardwareBusy,
            r matches Err(_) ==> final(self).cells == old(self).cells,
            r matches Ok(_) ==> forall|xx: int, yy: int|
                final(self).on_canvas(xx, yy) ==> final(self).pix(xx, yy) == (if xx == x && yy
                    == y {
                    cell
                } else {
                    old(self).pix(xx, yy)
                }),
    {
        if self.busy && x >= self.pending.x0 && x < self.pending.x1 && y >= self.pending.y0 && y
            < self.pending.y1 {
            return Err(RenderError::HardwareBusy);
        }
        proof {
            crate::bitmap::lemma_grid_index(
                self.size.x as int,
                self.size.y as int,
                x as int,
                y as int,
            );
        }
        let idx = (y as usize) * (self.size.x as usize) + (x as usize);
        self.cells[idx] = cell;
        proof {
            assert forall|xx: int, yy: int|
                self.on_canvas(xx, yy) && !(xx == x && yy == y) implies self.pix(xx, yy) == old(
                self,
            ).pix(xx, yy) by {
                crate::bitmap::lemma_grid_index(self.size.x as int, self.size.y as int, xx, yy);
                crate::bitmap::lemma_grid_distinct(self.size.x as int, xx, yy, x as int, y as int);
            }
        }
        Ok(())
    }

    /// Hands a finished band to the hardware: an asynchronous copy of
    /// the top rows of `src` into the absolute region `r`. The previous
    /// operation must have been waited out; the copied region is marked
    /// pending and the engine busy.
    #[verifier::loop_isolation(false)]
    pub fn dma_copy(&mut self, r: Rect, src: &Canvas)
        requires
            old(self).wf(),
            !old(self).busy,
            src.wf(),
            src.format == PixelFormat::Rgb565,
            r.wf(),
            0 <= r.x0,
            0 <= r.y0,
            r.x1 <= old(self).size.x,
            r.y1 <= old(self).size.y,
            r.spec_width() == src.size.x,
            r.spec_height() <= src.size.y,
        ensures
            final(self).wf(),
            final(self).size == old(self).size,
            final(self).viewport == old(self).viewport,
            final(self).busy,
            final(self).pending == r,
            forall|x: int, y: int|
                final(self).on_canvas(x, y) ==> #[trigger] final(self).pix(x, y) == (
                if r.contains(x, y) {
                    src.pix(x - r.x0, y - r.y0)
                } else {
                    old(self).pix(x, y)
                }),
    {
        let w = self.size.x;
        let h = self.size.y;
        let mut y = r.y0;
        while y < r.y1
            invariant
                r.y0 <= y,
                y <= r.y1 || y == r.y0,
                self.wf(),
                self.size == old(self).size,
                self.viewport == old(self).viewport,
                self.busy == old(self).busy,
                self.pending == old(self).pending,
                forall|xx: int, yy: int|
                    self.on_canvas(xx, yy) ==> #[trigger] self.pix(xx, yy) == (if r.contains(
                        xx,
                        yy,
                    ) && yy < y {
                        src.pix(xx - r.x0, yy - r.y0)
                    } else {
                        old(self).pix(xx, yy)
                    }),
            decreases r.y1 - y,
        {
            let mut x = r.x0;
            while x < r.x1
                invariant
                    r.x0 <= x,
                    x <= r.x1 || x == r.x0,
                    r.y0 <= y < r.y1,
                    self.wf(),
                    self.size == old(self).size,
                    self.viewport == old(self).viewport,
                    self.busy == old(self).busy,
                    self.pending == old(self).pending,
                    forall|xx: int, yy: int|
                        self.on_canvas(xx, yy) ==> #[trigger] self.pix(xx, yy) == (if r.contains(
                            xx,
                            yy,
                        ) && (yy < y || (yy == y && xx < x)) {
                            src.pix(xx - r.x0, yy - r.y0)
                        } else {
                            old(self).pix(xx, yy)
                        }),
                decreases r.x1 - x,
            {
                proof {
                    crate::bitmap::lemma_grid_index(w as int, h as int, x as int, y as int);
                    crate::bitmap::lemma_grid_index(
                        src.size.x as int,
                        src.size.y as int,
                        x - r.x0,
                        y - r.y0,
                    );
                }
                let ghost snap = *self;
                let c = src.cells[((y - r.y0) as usize) * (src.size.x as usize) + ((x
                    - r.x0) as usize)];
                let idx = (y as usize) * (w as usize) + (x as usize);
                self.cells[idx] = c;
                proof {
                    assert forall|xx: int, yy: int|
                        self.on_canvas(xx, yy) implies #[trigger] self.pix(xx, yy) == (
                    if r.contains(xx, yy) && (yy < y || (yy == y && xx < x + 1)) {
                        src.pix(xx - r.x0, yy - r.y0)
                    } else {
                        old(self).pix(xx, yy)
                    }) by {
                        crate::bitmap::lemma_grid_index(w as int, h as int, xx, yy);
                        assert(snap.pix(xx, yy) == (if r.contains(xx, yy) && (yy < y || (yy == y
                            && xx < x)) {
                            src.pix(xx - r.x0, yy - r.y0)
                        } else {
                            old(self).pix(xx, yy)
                        }));
                        if xx == x as int && yy == y as int {
                            assert(self.pix(xx, yy) == c);
                        } else {
                            crate::bitmap::lemma_grid_distinct(
                                w as int,
                                xx,
                                yy,
                                x as int,
                                y as int,
                            );
                            assert(self.pix(xx, yy) == snap.pix(xx, yy));
                        }
                    }
                }
                x += 1;
            }
            y += 1;
        }
        let ghost done = *self;
        self.busy = true;
        self.pending = r;
        proof {
            assert forall|x: int, y: int|
                self.on_canvas(x, y) implies #[trigger] self.pix(x, y) == (if r.contains(x, y) {
                src.pix(x - r.x0, y - r.y0)
            } else {
                old(self).pix(x, y)
            }) by {
                assert(self.pix(x, y) == done.pix(x, y));
                assert(done.pix(x, y) == (if r.contains(x, y) {
                    src.pix(x - r.x0, y - r.y0)
                } else {
                    old(self).pix(x, y)
                }));
            }
        }
    }

    /// Triggers the hardware refresh after draining the in-flight blit;
    /// called exactly once per rendering pass.
    pub fn refresh(&mut self)
        requires
            old(self).wf(),
        ensures
            final(self).wf(),
            final(self).size == old(self).size,
            final(self).viewport == old(self).viewport,
            final(self).cells == old(self).cells,
            !final(self).busy,
    {
        self.wait();
    }
}

} // verus!
