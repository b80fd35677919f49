//! The two rendering strategies, and the proof that they agree.
//!
//! A renderer folds submitted shapes, in submission order, over a
//! background-filled clip. [`DirectRenderer`] draws each shape once into
//! a full framebuffer the moment it is submitted. [`ProgressiveRenderer`]
//! keeps the list and redraws it once per horizontal band into a small
//! staging canvas, flushing each finished band to the display hardware
//! while the next band is being computed. Both are verified against the
//! same per-pixel fold, which is the equivalence of the two strategies.

use vstd::prelude::*;

use crate::cache::DrawingCache;
use crate::canvas::{Canvas, Viewport};
use crate::color::{spec_encode, Color, PixelFormat};
use crate::display::DisplayCanvas;
use crate::error::RenderError;
use crate::geometry::{Offset, Rect};
use crate::jpeg::JpegImage;
use crate::shape::Shape;

verus! {

/// The value of the absolute pixel `(x, y)` after the shapes have been
/// drawn, in order, over a canvas whose clip pixels held `base`: each
/// shape transforms the pixels inside the clip, and only those.
pub open spec fn shapes_pix(
    shapes: Seq<Shape>,
    fmt: PixelFormat,
    clip: Rect,
    origin: Offset,
    x: int,
    y: int,
    base: u32,
) -> u32
    decreases shapes.len(),
{
    if shapes.len() == 0 {
        base
    } else {
        let p = shapes_pix(shapes.drop_last(), fmt, clip, origin, x, y, base);
        if clip.contains(x, y) {
            shapes.last().pix_spec(fmt, x - origin.x, y - origin.y, p)
        } else {
            p
        }
    }
}

/// The fold does not depend on the drawing frame: two clips that both
/// contain a pixel, addressed so that the shape-relative coordinates
/// agree, paint it identically. This is what makes band-wise rendering
/// sound, and with the two renderers' contracts it is the equivalence
/// of the direct and the progressive strategy.
pub proof fn lemma_shapes_pix_frames(
    shapes: Seq<Shape>,
    fmt: PixelFormat,
    clip1: Rect,
    origin1: Offset,
    x1: int,
    y1: int,
    clip2: Rect,
    origin2: Offset,
    x2: int,
    y2: int,
    base: u32,
)
    requires
        clip1.contains(x1, y1),
        clip2.contains(x2, y2),
        x1 - origin1.x == x2 - origin2.x,
        y1 - origin1.y == y2 - origin2.y,
    ensures
        shapes_pix(shapes, fmt, clip1, origin1, x1, y1, base) == shapes_pix(
            shapes,
            fmt,
            clip2,
            origin2,
            x2,
            y2,
            base,
        ),
    decreases shapes.len(),
{
    if shapes.len() > 0 {
        lemma_shapes_pix_frames(
            shapes.drop_last(),
            fmt,
            clip1,
            origin1,
            x1,
            y1,
            clip2,
            origin2,
            x2,
            y2,
            base,
        );
    }
}

/// Folding one more shape that cannot touch the pixel changes nothing.
pub proof fn lemma_shapes_pix_skip(
    shapes: Seq<Shape>,
    s: Shape,
    fmt: PixelFormat,
    clip: Rect,
    origin: Offset,
    x: int,
    y: int,
    base: u32,
)
    requires
        s.wf(),
        clip.contains(x, y) ==> !s.spec_bounds().contains(x - origin.x, y - origin.y),
    ensures
        shapes_pix(shapes.push(s), fmt, clip, origin, x, y, base) == shapes_pix(
            shapes,
            fmt,
            clip,
            origin,
            x,
            y,
            base,
        ),
{
    assert(shapes.push(s).drop_last() =~= shapes);
    if clip.contains(x, y) {
        Shape::lemma_outside_bounds(
            s,
            fmt,
            x - origin.x,
            y - origin.y,
            shapes_pix(shapes, fmt, clip, origin, x, y, base),
        );
    }
}

/// How many bands a pass over a clip of the given height processes.
pub open spec fn spec_band_count(clip_height: int, lines_per_band: int) -> int {
    if clip_height <= 0 {
        0
    } else {
        (clip_height - 1) / lines_per_band + 1
    }
}

/// The worst-case bytes one whole band leases from the second arena.
pub open spec fn pass_cost_b(shapes: Seq<Shape>) -> int
    decreases shapes.len(),
{
    if shapes.len() == 0 {
        0
    } else {
        pass_cost_b(shapes.drop_last()) + Shape::band_cost_b(shapes.last())
    }
}

/// The worst-case bytes one whole band leases from the first arena.
pub open spec fn pass_cost_a(shapes: Seq<Shape>) -> int
    decreases shapes.len(),
{
    if shapes.len() == 0 {
        0
    } else {
        pass_cost_a(shapes.drop_last()) + Shape::band_cost_a(shapes.last())
    }
}

/// Band costs are never negative, and a prefix never costs more than
/// the whole list.
pub proof fn lemma_pass_cost_bounds(shapes: Seq<Shape>, k: int)
    requires
        0 <= k <= shapes.len(),
    ensures
        0 <= pass_cost_b(shapes.take(k)) <= pass_cost_b(shapes),
        0 <= pass_cost_a(shapes.take(k)) <= pass_cost_a(shapes),
    decreases shapes.len(),
{
    if shapes.len() > 0 {
        let pre = shapes.drop_last();
        Shape::lemma_band_cost_nonneg(shapes.last());
        if k == shapes.len() {
            lemma_pass_cost_bounds(pre, pre.len() as int);
            assert(shapes.take(k) =~= shapes);
        } else {
            lemma_pass_cost_bounds(pre, k);
            assert(shapes.take(k) =~= pre.take(k));
        }
    }
}

/// Draws shapes immediately, in submission order, into one directly
/// addressable framebuffer canvas.
pub struct DirectRenderer {
    pub canvas: Canvas,
    pub cache: DrawingCache,
    /// The canvas as it stood after the background fill.
    pub base: Ghost<Canvas>,
    /// Every shape submitted so far, as submitted.
    pub shapes: Ghost<Seq<Shape>>,
}

impl DirectRenderer {
    pub open spec fn wf(self) -> bool {
        &&& self.canvas.wf()
        &&& self.cache.wf()
        &&& self.base@.wf()
        &&& self.base@.format == self.canvas.format
        &&& self.base@.size == self.canvas.size
        &&& self.base@.viewport == self.canvas.viewport
        &&& forall|x: int, y: int|
            self.canvas.on_canvas(x, y) ==> #[trigger] self.canvas.pix(x, y) == shapes_pix(
                self.shapes@,
                self.canvas.format,
                self.canvas.viewport.clip,
                self.canvas.viewport.origin,
                x,
                y,
                self.base@.pix(x, y),
            )
    }

    /// Takes the target canvas and fills the clip with the background
    /// color, if one is given, before any shape is drawn.
    pub fn new(canvas: Canvas, bg: Option<Color>, cache: DrawingCache) -> (r: DirectRenderer)
        requires
            canvas.wf(),
            cache.wf(),
        ensures
            r.wf(),
            r.shapes@.len() == 0,
            r.cache == cache,
            r.canvas.format == canvas.format,
            r.canvas.size == canvas.size,
            r.canvas.viewport == canvas.viewport,
            bg is None ==> r.base@ == canvas,
            bg matches Some(c) ==> forall|x: int, y: int|
                canvas.on_canvas(x, y) ==> #[trigger] r.base@.pix(x, y) == (
                if canvas.viewport.clip.contains(x, y) {
                    crate::color::spec_blend(canvas.format, canvas.pix(x, y), c, 255)
                } else {
                    canvas.pix(x, y)
                }),
    {
        let mut canvas = canvas;
        let ghost c0 = canvas;
        match bg {
            Some(c) => {
                let vp = canvas.viewport();
                canvas.set_viewport(Viewport::new(vp.clip));
                let ghost c1 = canvas;
                canvas.fill_rect(vp.clip, c, 255);
                let ghost c2 = canvas;
                canvas.set_viewport(vp);
                proof {
                    assert forall|x: int, y: int|
                        canvas.on_canvas(x, y) implies #[trigger] canvas.pix(x, y) == (
                    if c0.viewport.clip.contains(x, y) {
                        crate::color::spec_blend(c0.format, c0.pix(x, y), c, 255)
                    } else {
                        c0.pix(x, y)
                    }) by {
                        assert(c2.pix(x, y) == (if c1.paint_region(vp.clip).contains(x, y) {
                            crate::color::spec_blend(c1.format, c1.pix(x, y), c, 255)
                        } else {
                            c1.pix(x, y)
                        }));
                        assert(canvas.pix(x, y) == c2.pix(x, y));
                        assert(c1.pix(x, y) == c0.pix(x, y));
                    }
                }
            },
            None => {},
        }
        let r = DirectRenderer {
            canvas,
            cache,
            base: Ghost(canvas),
            shapes: Ghost(Seq::empty()),
        };
        r
    }

    /// Submits one shape: culls it against the viewport by its bounds,
    /// else draws it at once. On success the submitted list grew by the
    /// shape and the canvas holds exactly the fold of the list.
    pub fn render_shape(&mut self, shape: Shape) -> (r: Result<(), RenderError>)
        requires
            old(self).wf(),
            shape.wf(),
        ensures
            final(self).wf(),
            final(self).canvas.format == old(self).canvas.format,
            final(self).canvas.size == old(self).canvas.size,
            final(self).canvas.viewport == old(self).canvas.viewport,
            final(self).base == old(self).base,
            final(self).cache.bump_a.capacity == old(self).cache.bump_a.capacity,
            final(self).cache.bump_b.capacity == old(self).cache.bump_b.capacity,
            !(shape matches Shape::Jpeg(_)) ==> (r matches Ok(_)),
            Shape::draw_succeeds(shape, old(self).cache) ==> (r matches Ok(_)),
            r matches Ok(_) ==> final(self).shapes@ == old(self).shapes@.push(shape),
            r matches Err(_) ==> final(self).shapes@ == old(self).shapes@
                && final(self).canvas.cells == old(self).canvas.cells,
    {
        match shape.validate() {
            Ok(_) => {},
            Err(e) => {
                return Err(e);
            },
        }
        let b = shape.bounds(&self.cache);
        let vp = self.canvas.viewport();
        let eff = b.translate(vp.origin).intersect(vp.clip);
        if eff.is_empty() {
            proof {
                self.shapes@ = self.shapes@.push(shape);
                assert forall|x: int, y: int|
                    self.canvas.on_canvas(x, y) implies #[trigger] self.canvas.pix(x, y)
                    == shapes_pix(
                    self.shapes@,
                    self.canvas.format,
                    self.canvas.viewport.clip,
                    self.canvas.viewport.origin,
                    x,
                    y,
                    self.base@.pix(x, y),
                ) by {
                    lemma_shapes_pix_skip(
                        old(self).shapes@,
                        shape,
                        self.canvas.format,
                        self.canvas.viewport.clip,
                        self.canvas.viewport.origin,
                        x,
                        y,
                        self.base@.pix(x, y),
                    );
                }
            }
            return Ok(());
        }
        let mut s = shape;
        let ghost pre = self.canvas;
        let res = s.draw(&mut self.canvas, &mut self.cache);
        match res {
            Ok(_) => {
                proof {
                    self.shapes@ = self.shapes@.push(shape);
                    assert(self.shapes@.drop_last() =~= old(self).shapes@);
                    assert forall|x: int, y: int|
                        self.canvas.on_canvas(x, y) implies #[trigger] self.canvas.pix(x, y)
                        == shapes_pix(
                        self.shapes@,
                        self.canvas.format,
                        self.canvas.viewport.clip,
                        self.canvas.viewport.origin,
                        x,
                        y,
                        self.base@.pix(x, y),
                    ) by {
                        assert(pre.pix(x, y) == shapes_pix(
                            old(self).shapes@,
                            pre.format,
                            pre.viewport.clip,
                            pre.viewport.origin,
                            x,
                            y,
                            self.base@.pix(x, y),
                        ));
                        assert(self.canvas.pix(x, y) == (if pre.viewport.clip.contains(x, y) {
                            shape.pix_spec(
                                pre.format,
                                x - pre.viewport.origin.x,
                                y - pre.viewport.origin.y,
                                pre.pix(x, y),
                            )
                        } else {
                            pre.pix(x, y)
                        }));
                    }
                }
                Ok(())
            },
            Err(e) => Err(e),
        }
    }

    /// Ends the pass: cleans up nothing the direct strategy retains and
    /// hands the drawn canvas and the cache back.
    pub fn into_parts(self) -> (r: (Canvas, DrawingCache))
        ensures
            r.0 == self.canvas,
            r.1 == self.cache,
    {
        (self.canvas, self.cache)
    }
}

/// Retains the submitted shape list and renders it band by band through
/// a staging canvas into the DMA-backed display.
pub struct ProgressiveRenderer {
    pub display: DisplayCanvas,
    pub cache: DrawingCache,
    pub bg: Color,
    pub shapes: Vec<Shape>,
    /// The shapes exactly as submitted (drawing may update pass-local
    /// transient state inside the retained copies).
    pub orig: Ghost<Seq<Shape>>,
}

impl ProgressiveRenderer {
    pub open spec fn wf(self) -> bool {
        &&& self.display.wf()
        &&& self.cache.wf()
        &&& self.shapes@.len() == self.orig@.len()
        &&& forall|i: int|
            0 <= i < self.shapes@.len() ==> Shape::same_drawing(
                self.orig@[i],
                #[trigger] self.shapes@[i],
            ) && self.shapes@[i].wf() && self.shapes@[i].content_ok()
    }

    /// Takes the display handle; the background fills each band's
    /// staging buffer before the shapes are redrawn over it.
    pub fn new(display: DisplayCanvas, bg: Option<Color>, cache: DrawingCache) -> (r:
        ProgressiveRenderer)
        requires
            display.wf(),
            cache.wf(),
        ensures
            r.wf(),
            r.display == display,
            r.cache == cache,
            r.orig@.len() == 0,
            bg matches Some(c) ==> r.bg == c,
            bg is None ==> r.bg == (Color { rgb565: 0 }),
    {
        let bgc = match bg {
            Some(c) => c,
            None => Color::black(),
        };
        ProgressiveRenderer {
            display,
            cache,
            bg: bgc,
            shapes: Vec::new(),
            orig: Ghost(Seq::empty()),
        }
    }

    /// Submits one shape: charges the shape-clone arena and retains the
    /// shape for the band passes. Exhausting the arena is a
    /// configuration error and submits nothing.
    pub fn render_shape(&mut self, shape: Shape) -> (r: Result<(), RenderError>)
        requires
            old(self).wf(),
            shape.wf(),
        ensures
            final(self).wf(),
            final(self).display == old(self).display,
            final(self).bg == old(self).bg,
            final(self).cache.bump_a.capacity == old(self).cache.bump_a.capacity,
            final(self).cache.bump_b.capacity == old(self).cache.bump_b.capacity,
            (old(self).cache.bump_a.used + crate::cache::SHAPE_CLONE_COST
                <= old(self).cache.bump_a.capacity && (shape matches Shape::Jpeg(j)
                ==> crate::jpeg::stream_ok(j.jpeg@))) ==> (r matches Ok(_)),
            r matches Ok(_) ==> final(self).orig@ == old(self).orig@.push(shape)
                && final(self).cache.bump_a.used == old(self).cache.bump_a.used
                + crate::cache::SHAPE_CLONE_COST && final(self).cache.bump_b == old(
                self,
            ).cache.bump_b,
            r matches Err(e) ==> final(self).orig@ == old(self).orig@ && (e == RenderError::Config
                || e == RenderError::Content),
            r matches Err(e) && e == RenderError::Content ==> !shape.content_ok(),
    {
        match shape.validate() {
            Ok(_) => {},
            Err(e) => {
                return Err(e);
            },
        }
        match self.cache.shape_clone_charge() {
            Ok(_) => {
                self.shapes.push(shape);
                proof {
                    self.orig@ = self.orig@.push(self.shapes@.last());
                }
                Ok(())
            },
            Err(e) => Err(e),
        }
    }

    /// Drives the pass to completion: partitions the clip into
    /// contiguous horizontal bands of `lines_per_band` rows, top to
    /// bottom, redraws the whole list into a staging buffer once per
    /// band, and flushes each finished band to the hardware, waiting
    /// out the previous transfer before issuing the next. Two staging
    /// buffers alternate so a band may be drawn while the previous one
    /// is still in flight. On success every clip pixel of the display
    /// holds the fold of the submitted shapes over the background.
    #[verifier::loop_isolation(false)]
    #[verifier::rlimit(60)]
    pub fn render(&mut self, lines_per_band: i32) -> (r: Result<(), RenderError>)
        requires
            old(self).wf(),
            1 <= lines_per_band <= 1024,
            crate::geometry::coord_ok(old(self).display.viewport.origin.x - 1024),
            crate::geometry::coord_ok(old(self).display.viewport.origin.y - 1024),
        ensures
            final(self).wf(),
            final(self).display.size == old(self).display.size,
            final(self).display.viewport == old(self).display.viewport,
            final(self).bg == old(self).bg,
            final(self).orig == old(self).orig,
            final(self).cache.bump_a.capacity == old(self).cache.bump_a.capacity,
            final(self).cache.bump_b.capacity == old(self).cache.bump_b.capacity,
            (forall|i: int|
                0 <= i < old(self).orig@.len() ==> !((#[trigger] old(self).orig@[i]) matches Shape::Jpeg(
                    _,
                ))) ==> (r matches Ok(_)),
            (old(self).cache.bump_b.used + spec_band_count(
                old(self).display.viewport.clip.y1 - old(self).display.viewport.clip.y0,
                lines_per_band as int,
            ) * pass_cost_b(old(self).orig@) <= old(self).cache.bump_b.capacity && old(
                self,
            ).cache.bump_a.used + spec_band_count(
                old(self).display.viewport.clip.y1 - old(self).display.viewport.clip.y0,
                lines_per_band as int,
            ) * pass_cost_a(old(self).orig@) <= old(self).cache.bump_a.capacity) ==> (
            r matches Ok(_)),
            r matches Err(e) ==> e == RenderError::Config,
            r matches Ok(_) ==> !final(self).display.busy,
            r matches Ok(_) ==> forall|x: int, y: int|
                final(self).display.on_canvas(x, y) ==> #[trigger] final(self).display.pix(x, y)
                    == (if old(self).display.viewport.clip.contains(x, y) {
                    shapes_pix(
                        old(self).orig@,
                        PixelFormat::Rgb565,
                        old(self).display.viewport.clip,
                        old(self).display.viewport.origin,
                        x,
                        y,
                        spec_encode(PixelFormat::Rgb565, old(self).bg),
                    )
                } else {
                    old(self).display.pix(x, y)
                }),
    {
        let vp = self.display.viewport();
        let clip = vp.clip;
        let ghost folded = self.orig@;
        let ghost base = spec_encode(PixelFormat::Rgb565, self.bg);
        if clip.x1 <= clip.x0 || clip.y1 <= clip.y0 {
            let ghost d0 = self.display;
            self.display.wait();
            proof {
                assert forall|x: int, y: int|
                    self.display.on_canvas(x, y) implies #[trigger] self.display.pix(x, y) == (
                if clip.contains(x, y) {
                    shapes_pix(folded, PixelFormat::Rgb565, clip, vp.origin, x, y, base)
                } else {
                    old(self).display.pix(x, y)
                }) by {
                    assert(self.display.pix(x, y) == d0.pix(x, y));
                }
            }
            return Ok(());
        }
        let stw = clip.x1 - clip.x0;
        let sth = lines_per_band;
        let stsize = Offset::new(stw, sth);
        let mut stage = match Canvas::new(PixelFormat::Rgb565, stsize, self.bg) {
            Ok(c) => c,
            Err(_) => {
                proof {
                    assert(false);
                }
                return Err(RenderError::Config);
            },
        };
        let mut spare = match Canvas::new(PixelFormat::Rgb565, stsize, self.bg) {
            Ok(c) => c,
            Err(_) => {
                proof {
                    assert(false);
                }
                return Err(RenderError::Config);
            },
        };
        let ghost sum_b = pass_cost_b(folded);
        let ghost sum_a = pass_cost_a(folded);
        let ghost bands = spec_band_count(clip.y1 - clip.y0, lines_per_band as int);
        let ghost u_b0 = self.cache.bump_b.used;
        let ghost u_a0 = self.cache.bump_a.used;
        let ghost mut done: int = 0;
        proof {
            lemma_pass_cost_bounds(folded, folded.len() as int);
            assert(folded.take(folded.len() as int) =~= folded);
        }
        let mut by = clip.y0;
        while by < clip.y1
            invariant
                self.wf(),
                self.display.size == old(self).display.size,
                self.display.viewport == old(self).display.viewport,
                self.bg == old(self).bg,
                self.orig@ == folded,
                self.cache.bump_a.capacity == old(self).cache.bump_a.capacity,
                self.cache.bump_b.capacity == old(self).cache.bump_b.capacity,
                clip.y0 <= by,
                0 <= done,
                by == clip.y0 + done * lines_per_band || by == clip.y1,
                sum_b == pass_cost_b(folded),
                sum_a == pass_cost_a(folded),
                0 <= sum_b,
                0 <= sum_a,
                bands == spec_band_count(clip.y1 - clip.y0, lines_per_band as int),
                u_b0 == old(self).cache.bump_b.used,
                u_a0 == old(self).cache.bump_a.used,
                self.cache.bump_b.used <= u_b0 + done * sum_b,
                self.cache.bump_a.used <= u_a0 + done * sum_a,
                stage.wf(),
                stage.format == PixelFormat::Rgb565,
                stage.size == stsize,
                spare.wf(),
                spare.format == PixelFormat::Rgb565,
                spare.size == stsize,
                forall|x: int, y: int|
                    self.display.on_canvas(x, y) ==> #[trigger] self.display.pix(x, y) == (
                    if clip.contains(x, y) && y < by {
                        shapes_pix(folded, PixelFormat::Rgb565, clip, vp.origin, x, y, base)
                    } else {
                        old(self).display.pix(x, y)
                    }),
            decreases clip.y1 - by,
        {
            let bh = if clip.y1 - by < sth {
                clip.y1 - by
            } else {
                sth
            };
            let band = Rect::new(clip.x0, by, clip.x1, by + bh);
            // software clear of the band's staging region
            stage.set_viewport(Viewport::from_size(stsize));
            let ghost st1 = stage;
            stage.fill_rect(Rect::from_size(stsize), self.bg, 255);
            let ghost st2 = stage;
            let stvp = Viewport {
                origin: Offset::new(vp.origin.x - clip.x0, vp.origin.y - by),
                clip: Rect::new(0, 0, stw, bh),
            };
            stage.set_viewport(stvp);
            proof {
                assert(stage.viewport == stvp);
                assert forall|sx: int, sy: int|
                    stage.on_canvas(sx, sy) implies #[trigger] stage.pix(sx, sy) == shapes_pix(
                    folded.take(0),
                    PixelFormat::Rgb565,
                    stvp.clip,
                    stvp.origin,
                    sx,
                    sy,
                    base,
                ) by {
                    assert(st2.pix(sx, sy) == (if st1.paint_region(
                        Rect { x0: 0, y0: 0, x1: stsize.x, y1: stsize.y },
                    ).contains(sx, sy) {
                        crate::color::spec_blend(st1.format, st1.pix(sx, sy), self.bg, 255)
                    } else {
                        st1.pix(sx, sy)
                    }));
                    assert(stage.pix(sx, sy) == st2.pix(sx, sy));
                }
            }
            let n = self.shapes.len();
            let mut i: usize = 0;
            while i < n
                invariant
                    i <= n,
                    n == self.shapes@.len(),
                    self.wf(),
                    self.display.size == old(self).display.size,
                    self.display.viewport == old(self).display.viewport,
                    self.bg == old(self).bg,
                    self.orig@ == folded,
                    self.cache.bump_a.capacity == old(self).cache.bump_a.capacity,
                    self.cache.bump_b.capacity == old(self).cache.bump_b.capacity,
                    0 <= done,
                    by == clip.y0 + done * lines_per_band,
                    by < clip.y1,
                    sum_b == pass_cost_b(folded),
                    sum_a == pass_cost_a(folded),
                    0 <= sum_b,
                    0 <= sum_a,
                    bands == spec_band_count(clip.y1 - clip.y0, lines_per_band as int),
                    u_b0 == old(self).cache.bump_b.used,
                    u_a0 == old(self).cache.bump_a.used,
                    self.cache.bump_b.used <= u_b0 + done * sum_b + pass_cost_b(
                        folded.take(i as int),
                    ),
                    self.cache.bump_a.used <= u_a0 + done * sum_a + pass_cost_a(
                        folded.take(i as int),
                    ),
                    stage.wf(),
                    stage.format == PixelFormat::Rgb565,
                    stage.size == stsize,
                    stage.viewport == stvp,
                    spare.wf(),
                    spare.format == PixelFormat::Rgb565,
                    spare.size == stsize,
                    forall|x: int, y: int|
                        self.display.on_canvas(x, y) ==> #[trigger] self.display.pix(x, y) == (
                        if clip.contains(x, y) && y < by {
                            shapes_pix(folded, PixelFormat::Rgb565, clip, vp.origin, x, y, base)
                        } else {
                            old(self).display.pix(x, y)
                        }),
                    forall|sx: int, sy: int|
                        stage.on_canvas(sx, sy) ==> #[trigger] stage.pix(sx, sy) == shapes_pix(
                            folded.take(i as int),
                            PixelFormat::Rgb565,
                            stvp.clip,
                            stvp.origin,
                            sx,
                            sy,
                            base,
                        ),
                decreases n - i,
            {
                proof {
                    assert(Shape::same_drawing(folded[i as int], self.shapes@[i as int]));
                    Shape::lemma_same_drawing(folded[i as int], self.shapes@[i as int]);
                    assert(folded.take(i + 1).drop_last() =~= folded.take(i as int));
                    assert(folded.take(i + 1) =~= folded.take(i as int).push(folded[i as int]));
                    assert(pass_cost_b(folded.take(i + 1)) == pass_cost_b(folded.take(i as int))
                        + Shape::band_cost_b(folded[i as int]));
                    assert(pass_cost_a(folded.take(i + 1)) == pass_cost_a(folded.take(i as int))
                        + Shape::band_cost_a(folded[i as int]));
                    Shape::lemma_band_cost_nonneg(folded[i as int]);
                }
                let b = self.shapes[i].bounds(&self.cache);
                let eff = b.translate(stvp.origin).intersect(stvp.clip);
                if eff.is_empty() {
                    proof {
                        assert forall|sx: int, sy: int|
                            stage.on_canvas(sx, sy) implies #[trigger] stage.pix(sx, sy)
                            == shapes_pix(
                            folded.take(i + 1),
                            PixelFormat::Rgb565,
                            stvp.clip,
                            stvp.origin,
                            sx,
                            sy,
                            base,
                        ) by {
                            lemma_shapes_pix_skip(
                                folded.take(i as int),
                                folded[i as int],
                                PixelFormat::Rgb565,
                                stvp.clip,
                                stvp.origin,
                                sx,
                                sy,
                                base,
                            );
                        }
                    }
                } else {
                    let ghost pre = stage;
                    let ghost cur = self.shapes@[i as int];
                    let ghost cache0 = self.cache;
                    let res = self.shapes[i].draw(&mut stage, &mut self.cache);
                    match res {
                        Ok(_) => {
                            proof {
                                assert(Shape::same_drawing(cur, self.shapes@[i as int]));
                                assert(Shape::same_drawing(folded[i as int], self.shapes@[
                                i as int]));
                                assert forall|sx: int, sy: int|
                                    stage.on_canvas(sx, sy) implies #[trigger] stage.pix(sx, sy)
                                    == shapes_pix(
                                    folded.take(i + 1),
                                    PixelFormat::Rgb565,
                                    stvp.clip,
                                    stvp.origin,
                                    sx,
                                    sy,
                                    base,
                                ) by {
                                    assert(pre.pix(sx, sy) == shapes_pix(
                                        folded.take(i as int),
                                        PixelFormat::Rgb565,
                                        stvp.clip,
                                        stvp.origin,
                                        sx,
                                        sy,
                                        base,
                                    ));
                                    assert(stage.pix(sx, sy) == (if stvp.clip.contains(sx, sy) {
                                        cur.pix_spec(
                                            PixelFormat::Rgb565,
                                            sx - stvp.origin.x,
                                            sy - stvp.origin.y,
                                            pre.pix(sx, sy),
                                        )
                                    } else {
                                        pre.pix(sx, sy)
                                    }));
                                    assert(cur.pix_spec(
                                        PixelFormat::Rgb565,
                                        sx - stvp.origin.x,
                                        sy - stvp.origin.y,
                                        pre.pix(sx, sy),
                                    ) == folded[i as int].pix_spec(
                                        PixelFormat::Rgb565,
                                        sx - stvp.origin.x,
                                        sy - stvp.origin.y,
                                        pre.pix(sx, sy),
                                    ));
                                }
                            }
                        },
                        Err(e) => {
                            proof {
                                assert(cur matches Shape::Jpeg(_));
                                assert(folded[i as int] matches Shape::Jpeg(_));
                                if u_b0 + bands * sum_b <= self.cache.bump_b.capacity && u_a0
                                    + bands * sum_a <= self.cache.bump_a.capacity {
                                    lemma_pass_cost_bounds(folded, i + 1);
                                    assert(done * lines_per_band <= clip.y1 - clip.y0 - 1);
                                    assert(done <= (clip.y1 - clip.y0 - 1) / (
                                    lines_per_band as int)) by (nonlinear_arith)
                                        requires
                                            done * lines_per_band <= clip.y1 - clip.y0 - 1,
                                            lines_per_band >= 1,
                                            done >= 0,
                                    ;
                                    assert(done + 1 <= bands);
                                    assert(done * sum_b + sum_b <= bands * sum_b)
                                        by (nonlinear_arith)
                                        requires
                                            done + 1 <= bands,
                                            sum_b >= 0,
                                    ;
                                    assert(done * sum_a + sum_a <= bands * sum_a)
                                        by (nonlinear_arith)
                                        requires
                                            done + 1 <= bands,
                                            sum_a >= 0,
                                    ;
                                    assert(cur.content_ok());
                                    assert(Shape::draw_succeeds(cur, cache0));
                                    assert(false);
                                }
                            }
                            return Err(e);
                        },
                    }
                }
                i += 1;
            }
            proof {
                assert(folded.take(n as int) =~= folded);
            }
            // hand the band to the hardware; the previous transfer must
            // retire before a new one is issued
            let ghost dpre = self.display;
            self.display.wait();
            let ghost disp0 = self.display;
            self.display.dma_copy(band, &stage);
            proof {
                assert forall|x: int, y: int|
                    self.display.on_canvas(x, y) implies #[trigger] self.display.pix(x, y) == (
                if clip.contains(x, y) && y < by + bh {
                    shapes_pix(folded, PixelFormat::Rgb565, clip, vp.origin, x, y, base)
                } else {
                    old(self).display.pix(x, y)
                }) by {
                    assert(dpre.pix(x, y) == (if clip.contains(x, y) && y < by {
                        shapes_pix(folded, PixelFormat::Rgb565, clip, vp.origin, x, y, base)
                    } else {
                        old(self).display.pix(x, y)
                    }));
                    assert(disp0.pix(x, y) == dpre.pix(x, y));
                    if band.contains(x, y) {
                        let sx = x - band.x0;
                        let sy = y - band.y0;
                        assert(self.display.pix(x, y) == stage.pix(sx, sy));
                        assert(stage.pix(sx, sy) == shapes_pix(
                            folded,
                            PixelFormat::Rgb565,
                            stvp.clip,
                            stvp.origin,
                            sx,
                            sy,
                            base,
                        ));
                        lemma_shapes_pix_frames(
                            folded,
                            PixelFormat::Rgb565,
                            stvp.clip,
                            stvp.origin,
                            sx,
                            sy,
                            clip,
                            vp.origin,
                            x,
                            y,
                            base,
                        );
                    } else {
                        assert(self.display.pix(x, y) == disp0.pix(x, y));
                    }
                }
            }
            core::mem::swap(&mut stage, &mut spare);
            proof {
                done = done + 1;
                assert(done * lines_per_band == (done - 1) * lines_per_band + lines_per_band)
                    by (nonlinear_arith);
                assert(done * sum_b == (done - 1) * sum_b + sum_b) by (nonlinear_arith);
                assert(done * sum_a == (done - 1) * sum_a + sum_a) by (nonlinear_arith);
            }
            by = by + bh;
        }
        let ghost dlast = self.display;
        let ghost byv = by as int;
        self.display.wait();
        proof {
            assert forall|x: int, y: int|
                self.display.on_canvas(x, y) implies #[trigger] self.display.pix(x, y) == (
            if clip.contains(x, y) {
                shapes_pix(folded, PixelFormat::Rgb565, clip, vp.origin, x, y, base)
            } else {
                old(self).display.pix(x, y)
            }) by {
                assert(self.display.pix(x, y) == dlast.pix(x, y));
                assert(dlast.pix(x, y) == (if clip.contains(x, y) && y < byv {
                    shapes_pix(folded, PixelFormat::Rgb565, clip, vp.origin, x, y, base)
                } else {
                    old(self).display.pix(x, y)
                }));
            }
        }
        Ok(())
    }

    /// Ends the pass and hands the display handle and the cache back.
    pub fn into_parts(self) -> (r: (DisplayCanvas, DrawingCache))
        ensures
            r.0 == self.display,
            r.1 == self.cache,
    {
        (self.display, self.cache)
    }

    /// How many bands a pass over a clip of the given height processes:
    /// the clip is split into full bands plus one shorter last band
    /// where the band height does not divide it evenly.
    pub fn band_count(clip_height: i32, lines_per_band: i32) -> (n: i32)
        requires
            0 <= clip_height <= 1024,
            1 <= lines_per_band <= 1024,
        ensures
            n == spec_band_count(clip_height as int, lines_per_band as int),
    {
        if clip_height == 0 {
            0
        } else {
            (clip_height - 1) / lines_per_band + 1
        }
    }

    /// Runs every retained shape's cleanup, once, at pass end.
    pub fn cleanup_shapes(&mut self)
        requires
            old(self).wf(),
        ensures
            final(self).wf(),
            final(self).display == old(self).display,
            final(self).bg == old(self).bg,
            final(self).orig == old(self).orig,
            final(self).cache == old(self).cache,
    {
        let n = self.shapes.len();
        let mut i: usize = 0;
        while i < n
            invariant
                i <= n,
                n == self.shapes@.len(),
                self.wf(),
                self.display == old(self).display,
                self.bg == old(self).bg,
                self.orig == old(self).orig,
                self.cache == old(self).cache,
            decreases n - i,
        {
            let ghost cur = self.shapes@[i as int];
            self.shapes[i].cleanup(&mut self.cache);
            proof {
                assert(Shape::same_drawing(cur, self.shapes@[i as int]));
                Shape::lemma_same_drawing(cur, self.shapes@[i as int]);
            }
            i += 1;
        }
    }
}

impl JpegImage {
    /// Submits this image to a renderer.
    pub fn render(self, renderer: &mut ProgressiveRenderer) -> (r: Result<(), RenderError>)
        requires
            old(renderer).wf(),
            self.wf(),
        ensures
            final(renderer).wf(),
            final(renderer).display == old(renderer).display,
            final(renderer).bg == old(renderer).bg,
            r matches Ok(_) ==> final(renderer).orig@ == old(renderer).orig@.push(
                Shape::Jpeg(self),
            ),
            r matches Err(e) ==> final(renderer).orig@ == old(renderer).orig@ && (e
                == RenderError::Config || e == RenderError::Content),
    {
        renderer.render_shape(Shape::Jpeg(self))
    }
}

/// The height of the clip one entry-point pass renders: the given
/// clip, re-clipped against the display's bounds, or the display's
/// standing viewport where none is given.
pub open spec fn effective_clip_height(display: DisplayCanvas, clip: Option<Rect>) -> int {
    match clip {
        Some(c) => {
            let e = c.spec_intersect(
                Rect { x0: 0, y0: 0, x1: display.size.x, y1: display.size.y },
            );
            e.y1 - e.y0
        },
        None => display.viewport.clip.y1 - display.viewport.clip.y0,
    }
}

/// The background a pass paints under the shapes: the given color, or
/// black where none is given.
pub open spec fn pass_background(bg: Option<Color>) -> Color {
    match bg {
        Some(c) => c,
        None => Color { rgb565: 0 },
    }
}

/// The sole entry point the rest of the firmware calls: performs
/// exactly one complete rendering pass and triggers exactly one
/// hardware refresh. The arenas are reset before the first shape is
/// drawn; the shapes are rendered band-wise, in submission order,
/// clipped to `clip`, over the background color.
#[verifier::loop_isolation(false)]
pub fn render_on_display(
    display: DisplayCanvas,
    clip: Option<Rect>,
    bg_color: Option<Color>,
    shapes: Vec<Shape>,
    bump_a: crate::cache::BumpArena,
    bump_b: crate::cache::BumpArena,
) -> (r: Result<DisplayCanvas, RenderError>)
    requires
        display.wf(),
        clip matches Some(c) ==> c.wf(),
        clip is None ==> crate::geometry::coord_ok(display.viewport.origin.x - 1024)
            && crate::geometry::coord_ok(display.viewport.origin.y - 1024),
        forall|i: int| 0 <= i < shapes@.len() ==> (#[trigger] shapes@[i]).wf(),
        bump_a.wf(),
        bump_b.wf(),
    ensures
        (bump_a.capacity == crate::cache::BUMP_A_SIZE && bump_b.capacity
            == crate::cache::BUMP_B_SIZE && shapes@.len() * crate::cache::SHAPE_CLONE_COST
            <= crate::cache::BUMP_A_SIZE && (forall|i: int|
            0 <= i < shapes@.len() ==> !((#[trigger] shapes@[i]) matches Shape::Jpeg(_)))) ==> (
        r matches Ok(_)),
        (forall|i: int| 0 <= i < shapes@.len() ==> (#[trigger] shapes@[i]).content_ok()) ==> (
        r matches Ok(_)) || (r matches Err(e) && e == RenderError::Config),
        (bump_a.capacity == crate::cache::BUMP_A_SIZE && bump_b.capacity
            == crate::cache::BUMP_B_SIZE && (forall|i: int|
            0 <= i < shapes@.len() ==> (#[trigger] shapes@[i]).content_ok()) && shapes@.len()
            * crate::cache::SHAPE_CLONE_COST + spec_band_count(
            effective_clip_height(display, clip),
            45,
        ) * pass_cost_a(shapes@) <= crate::cache::BUMP_A_SIZE && spec_band_count(
            effective_clip_height(display, clip),
            45,
        ) * pass_cost_b(shapes@) <= crate::cache::BUMP_B_SIZE) ==> (r matches Ok(_)),
        r matches Ok(d) ==> d.wf() && !d.busy && d.size == display.size && d.viewport == (
        match clip {
            Some(c) => Viewport {
                origin: Offset { x: 0, y: 0 },
                clip: c.spec_intersect(
                    Rect { x0: 0, y0: 0, x1: display.size.x, y1: display.size.y },
                ),
            },
            None => display.viewport,
        }) && forall|x: int, y: int|
            d.on_canvas(x, y) ==> #[trigger] d.pix(x, y) == (if d.viewport.clip.contains(x, y) {
                shapes_pix(
                    shapes@,
                    PixelFormat::Rgb565,
                    d.viewport.clip,
                    d.viewport.origin,
                    x,
                    y,
                    spec_encode(PixelFormat::Rgb565, pass_background(bg_color)),
                )
            } else {
                display.pix(x, y)
            }),
{
    let ghost shapes0 = shapes@;
    let mut display = display;
    let mut cache = match DrawingCache::new(bump_a, bump_b) {
        Ok(c) => c,
        Err(e) => {
            return Err(e);
        },
    };
    cache.reset();
    match clip {
        Some(c) => {
            display.set_viewport(Viewport::new(c));
        },
        None => {},
    }
    let ghost disp1 = display;
    let mut ren = ProgressiveRenderer::new(display, bg_color, cache);
    let mut rest = shapes;
    let ghost eh = effective_clip_height(display, clip);
    proof {
        assert(ren.orig@ =~= shapes0.take(0));
        assert(rest@ =~= shapes0.skip(0));
        assert(eh == disp1.viewport.clip.y1 - disp1.viewport.clip.y0);
        lemma_pass_cost_bounds(shapes0, shapes0.len() as int);
        assert(shapes0.take(shapes0.len() as int) =~= shapes0);
        if eh >= 1 {
            vstd::arithmetic::div_mod::lemma_fundamental_div_mod(eh - 1, 45);
            vstd::arithmetic::div_mod::lemma_mod_bound(eh - 1, 45);
        }
        assert(spec_band_count(eh, 45) >= 0);
    }
    while rest.len() > 0
        invariant
            ren.wf(),
            ren.display == disp1,
            ren.bg == pass_background(bg_color),
            ren.orig@ == shapes0.take(shapes0.len() - rest@.len()),
            ren.cache.bump_a.capacity == bump_a.capacity,
            ren.cache.bump_b.capacity == bump_b.capacity,
            ren.cache.bump_a.used == 256 * (shapes0.len() - rest@.len()),
            ren.cache.bump_b.used == 0,
            eh == disp1.viewport.clip.y1 - disp1.viewport.clip.y0,
            0 <= pass_cost_b(shapes0),
            0 <= pass_cost_a(shapes0),
            0 <= spec_band_count(eh, 45),
            rest@.len() <= shapes0.len(),
            rest@ == shapes0.skip(shapes0.len() - rest@.len()),
            forall|i: int| 0 <= i < rest@.len() ==> (#[trigger] rest@[i]).wf(),
        decreases rest@.len(),
    {
        let s = rest.remove(0);
        let ghost k = shapes0.len() - rest@.len() - 1;
        match ren.render_shape(s) {
            Ok(_) => {
                proof {
                    assert(shapes0.take(k + 1) =~= shapes0.take(k).push(shapes0[k]));
                    assert(rest@ =~= shapes0.skip(k + 1));
                }
            },
            Err(e) => {
                proof {
                    assert(crate::cache::SHAPE_CLONE_COST == 256);
                    if bump_a.capacity == crate::cache::BUMP_A_SIZE && (forall|i: int|
                        0 <= i < shapes0.len() ==> (#[trigger] shapes0[i]).content_ok())
                        && shapes0.len() * crate::cache::SHAPE_CLONE_COST + spec_band_count(
                        eh,
                        45,
                    ) * pass_cost_a(shapes0) <= crate::cache::BUMP_A_SIZE {
                        assert(s == shapes0[k]);
                        assert(s.content_ok());
                        assert((k + 1) * 256 <= shapes0.len() * 256) by (nonlinear_arith)
                            requires
                                k + 1 <= shapes0.len(),
                        ;
                        assert(shapes0.len() * 256 == shapes0.len()
                            * crate::cache::SHAPE_CLONE_COST) by (nonlinear_arith)
                            requires
                                crate::cache::SHAPE_CLONE_COST == 256,
                        ;
                        assert(spec_band_count(eh, 45) * pass_cost_a(shapes0) >= 0)
                            by (nonlinear_arith)
                            requires
                                spec_band_count(eh, 45) >= 0,
                                pass_cost_a(shapes0) >= 0,
                        ;
                        assert(false);
                    }
                    if shapes0.len() * crate::cache::SHAPE_CLONE_COST
                        <= crate::cache::BUMP_A_SIZE && bump_a.capacity
                        == crate::cache::BUMP_A_SIZE && (forall|i: int|
                        0 <= i < shapes0.len() ==> !((#[trigger] shapes0[i]) matches Shape::Jpeg(
                            _,
                        ))) {
                        assert(s == shapes0[k]);
                        assert(!(s matches Shape::Jpeg(_)));
                        assert((k + 1) * 256 <= shapes0.len() * 256) by (nonlinear_arith)
                            requires
                                k + 1 <= shapes0.len(),
                        ;
                        assert(shapes0.len() * 256 == shapes0.len()
                            * crate::cache::SHAPE_CLONE_COST) by (nonlinear_arith)
                            requires
                                crate::cache::SHAPE_CLONE_COST == 256,
                        ;
                        assert(false);
                    }
                }
                return Err(e);
            },
        }
    }
    proof {
        assert(ren.orig@ =~= shapes0);
    }
    match ren.render(45) {
        Ok(_) => {},
        Err(e) => {
            proof {
                assert(crate::cache::SHAPE_CLONE_COST == 256);
                if bump_a.capacity == crate::cache::BUMP_A_SIZE && bump_b.capacity
                    == crate::cache::BUMP_B_SIZE && (forall|i: int|
                    0 <= i < shapes0.len() ==> (#[trigger] shapes0[i]).content_ok())
                    && shapes0.len() * crate::cache::SHAPE_CLONE_COST + spec_band_count(eh, 45)
                    * pass_cost_a(shapes0) <= crate::cache::BUMP_A_SIZE && spec_band_count(
                    eh,
                    45,
                ) * pass_cost_b(shapes0) <= crate::cache::BUMP_B_SIZE {
                    assert(shapes0.len() * 256 == shapes0.len()
                        * crate::cache::SHAPE_CLONE_COST) by (nonlinear_arith)
                        requires
                            crate::cache::SHAPE_CLONE_COST == 256,
                    ;
                    assert(false);
                }
            }
            return Err(e);
        },
    }
    ren.cleanup_shapes();
    let (d, _cache) = ren.into_parts();
    let mut d = d;
    let ghost dready = d;
    d.refresh();
    proof {
        assert forall|x: int, y: int|
            d.on_canvas(x, y) implies #[trigger] d.pix(x, y) == (if d.viewport.clip.contains(
            x,
            y,
        ) {
            shapes_pix(
                shapes0,
                PixelFormat::Rgb565,
                d.viewport.clip,
                d.viewport.origin,
                x,
                y,
                spec_encode(PixelFormat::Rgb565, pass_background(bg_color)),
            )
        } else {
            disp1.pix(x, y)
        }) by {
            assert(d.pix(x, y) == dready.pix(x, y));
        }
        assert forall|x: int, y: int| d.on_canvas(x, y) implies disp1.pix(x, y) == display.pix(
            x,
            y,
        ) by {
        }
    }
    Ok(d)
}

} // verus!
