//! A filled disc, drawn through a pre-rasterized coverage mask.

use vstd::prelude::*;

use crate::bitmap::{lemma_grid_index, Bitmap, BitmapView};
use crate::canvas::Canvas;
use crate::color::{spec_composite, Color, PixelFormat};
use crate::geometry::{coord_ok, Point, Rect};

verus! {

/// The largest radius a circle shape may have.
pub const MAX_RADIUS: i32 = 500;

/// True when mask pixel `(x, y)` of a disc of radius `rad` (centered on
/// pixel `(rad, rad)`) is covered.
pub open spec fn disc_covers(rad: int, x: int, y: int) -> bool {
    (x - rad) * (x - rad) + (y - rad) * (y - rad) <= rad * rad
}

/// A filled disc of one color, drawn with one coverage value.
pub struct Circle {
    pub center: Point,
    pub radius: i32,
    pub color: Color,
    pub alpha: u8,
    pub mask: Bitmap,
}

impl Circle {
    pub open spec fn wf(self) -> bool {
        self.center.wf() && 0 <= self.radius <= MAX_RADIUS && coord_ok(self.center.x - self.radius)
            && coord_ok(self.center.y - self.radius) && coord_ok(self.center.x + self.radius + 1)
            && coord_ok(self.center.y + self.radius + 1) && self.mask.wf() && self.mask.format
            == PixelFormat::Mono8 && self.mask.size.x == 2 * self.radius + 1 && self.mask.size.y
            == 2 * self.radius + 1 && forall|x: int, y: int|
            0 <= x < self.mask.size.x && 0 <= y < self.mask.size.y ==> #[trigger] self.mask.pix(
                x,
                y,
            ) == (if disc_covers(self.radius as int, x, y) {
                self.alpha as u32
            } else {
                0
            })
    }

    pub open spec fn spec_bounds(self) -> Rect {
        Rect {
            x0: (self.center.x - self.radius) as i32,
            y0: (self.center.y - self.radius) as i32,
            x1: (self.center.x + self.radius + 1) as i32,
            y1: (self.center.y + self.radius + 1) as i32,
        }
    }

    /// The value of the relative pixel `(x, y)` after this circle is
    /// drawn over a pixel holding `prev`, on a canvas of format `fmt`.
    pub open spec fn pix_spec(self, fmt: PixelFormat, x: int, y: int, prev: u32) -> u32 {
        if self.spec_bounds().contains(x, y) {
            spec_composite(
                fmt,
                prev,
                PixelFormat::Mono8,
                self.mask.pix(x - self.spec_bounds().x0, y - self.spec_bounds().y0),
                self.color,
            )
        } else {
            prev
        }
    }

    /// Builds the disc and rasterizes its coverage mask once.
    pub fn new(center: Point, radius: i32, color: Color, alpha: u8) -> (c: Circle)
        requires
            center.wf(),
            0 <= radius <= MAX_RADIUS,
            coord_ok(center.x - radius),
            coord_ok(center.y - radius),
            coord_ok(center.x + radius + 1),
            coord_ok(center.y + radius + 1),
        ensures
            c.wf(),
            c.center == center,
            c.radius == radius,
            c.color == color,
            c.alpha == alpha,
    {
        let side = 2 * radius + 1;
        let w = side as usize;
        let mut cells: Vec<u32> = Vec::new();
        let mut y: i32 = 0;
        while y < side
            invariant
                0 <= y <= side,
                side == 2 * radius + 1,
                0 <= radius <= MAX_RADIUS,
                cells@.len() == y * side,
                forall|xx: int, yy: int|
                    0 <= xx < side && 0 <= yy < y ==> #[trigger] cells@[yy * side + xx] == (
                    if disc_covers(radius as int, xx, yy) {
                        alpha as u32
                    } else {
                        0u32
                    }),
            decreases side - y,
        {
            let mut x: i32 = 0;
            while x < side
                invariant
                    0 <= x <= side,
                    0 <= y < side,
                    side == 2 * radius + 1,
                    0 <= radius <= MAX_RADIUS,
                    cells@.len() == y * side + x,
                    forall|xx: int, yy: int|
                        0 <= xx < side && 0 <= yy < y ==> #[trigger] cells@[yy * side + xx] == (
                        if disc_covers(radius as int, xx, yy) {
                            alpha as u32
                        } else {
                            0u32
                        }),
                    forall|xx: int|
                        0 <= xx < x ==> #[trigger] cells@[y * side + xx] == (if disc_covers(
                            radius as int,
                            xx,
                            y as int,
                        ) {
                            alpha as u32
                        } else {
                            0u32
                        }),
                decreases side - x,
            {
                let dx = x - radius;
                let dy = y - radius;
                proof {
                    assert(dx * dx <= 1048576 && dy * dy <= 1048576 && dx * dx >= 0 && dy * dy
                        >= 0 && radius * radius <= 1048576) by (nonlinear_arith)
                        requires
                            -1024 <= dx <= 1024,
                            -1024 <= dy <= 1024,
                            0 <= radius <= 1024,
                    ;
                }
                let covered = dx * dx + dy * dy <= radius * radius;
                let v: u32 = if covered {
                    alpha as u32
                } else {
                    0
                };
                cells.push(v);
                proof {
                    assert forall|xx: int, yy: int|
                        0 <= xx < side && 0 <= yy < y implies #[trigger] (yy * side + xx) < y
                        * side by {
                        assert(yy * side + xx < y * side) by (nonlinear_arith)
                            requires
                                0 <= xx < side,
                                0 <= yy < y,
                        ;
                    }
                }
                x += 1;
            }
            proof {
                assert((y + 1) * side == y * side + side) by (nonlinear_arith);
            }
            y += 1;
        }
        let mask = Bitmap {
            format: PixelFormat::Mono8,
            size: crate::geometry::Offset { x: side, y: side },
            cells,
        };
        proof {
            assert(mask.wf()) by {
                assert forall|i: int| 0 <= i < mask.cells@.len() implies crate::color::cell_ok(
                    PixelFormat::Mono8,
                    #[trigger] mask.cells@[i],
                ) by {
                    let yy = i / (side as int);
                    let xx = i % (side as int);
                    crate::bitmap::lemma_grid_decompose(side as int, side as int, i);
                    assert(mask.cells@[yy * side + xx] == mask.cells@[i]);
                }
            }
            assert forall|x: int, y: int|
                0 <= x < mask.size.x && 0 <= y < mask.size.y implies #[trigger] mask.pix(x, y) == (
            if disc_covers(radius as int, x, y) {
                alpha as u32
            } else {
                0
            }) by {
                lemma_grid_index(side as int, side as int, x, y);
            }
        }
        Circle { center, radius, color, alpha, mask }
    }

    /// Draws the disc through its coverage mask; uncovered pixels of the
    /// bounding square blend with coverage zero, which leaves them
    /// unchanged.
    pub fn draw(&self, canvas: &mut Canvas)
        requires
            old(canvas).wf(),
            self.wf(),
        ensures
            final(canvas).wf(),
            final(canvas).format == old(canvas).format,
            final(canvas).size == old(canvas).size,
            final(canvas).viewport == old(canvas).viewport,
            forall|x: int, y: int|
                final(canvas).on_canvas(x, y) ==> #[trigger] final(canvas).pix(x, y) == (if old(
                    canvas,
                ).viewport.clip.contains(x, y) {
                    self.pix_spec(
                        old(canvas).format,
                        x - old(canvas).viewport.origin.x,
                        y - old(canvas).viewport.origin.y,
                        old(canvas).pix(x, y),
                    )
                } else {
                    old(canvas).pix(x, y)
                }),
    {
        let r = Rect::new(
            self.center.x - self.radius,
            self.center.y - self.radius,
            self.center.x + self.radius + 1,
            self.center.y + self.radius + 1,
        );
        let view = BitmapView::new(&self.mask, self.color);
        canvas.draw_bitmap(r, view);
    }
}

} // verus!
