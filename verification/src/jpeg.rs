//! A shape for rendering streamed photographic images, with optional
//! backdrop blurring.
//!
//! The platform's image codec hands the engine a framed row stream: a
//! six-byte header (two magic bytes, then width and height as big-endian
//! 16-bit words) followed by the image's RGB565 pixels row-major, two
//! big-endian bytes each. The shape decodes it one row at a time, driven
//! by the clip's vertical extent, so memory stays bounded by one row
//! regardless of image height; with blurring, decoded rows stream
//! through the cache's blur session instead of being buffered.

use vstd::prelude::*;

use crate::bitmap::{lemma_grid_index, Bitmap, BitmapView};
use crate::blur::{blur_pix, BlurEngine, MAX_BLUR_RADIUS};
use crate::cache::DrawingCache;
use crate::canvas::Canvas;
use crate::color::{spec_encode, Color, PixelFormat};
use crate::error::RenderError;
use crate::geometry::{coord_ok, Point, Rect};

verus! {

/// First magic byte of a framed image stream.
pub const STREAM_MAGIC0: u8 = 0x49;

/// Second magic byte of a framed image stream.
pub const STREAM_MAGIC1: u8 = 0x52;

/// Bytes of the stream header.
pub const HEADER_LEN: usize = 6;

/// The width named by a stream's header.
pub open spec fn stream_width(b: Seq<u8>) -> int {
    b[2] * 256 + b[3]
}

/// The height named by a stream's header.
pub open spec fn stream_height(b: Seq<u8>) -> int {
    b[4] * 256 + b[5]
}

/// True of a well-formed stream: magic, sane dimensions, and exactly the
/// right number of pixel bytes.
pub open spec fn stream_ok(b: Seq<u8>) -> bool {
    b.len() >= HEADER_LEN && b[0] == STREAM_MAGIC0 && b[1] == STREAM_MAGIC1 && 0 < stream_width(b)
        <= 1024 && 0 < stream_height(b) <= 1024 && b.len() == HEADER_LEN + 2 * (stream_width(b)
        * stream_height(b))
}

/// The RGB565 value of pixel `(x, y)` of a stream.
pub open spec fn stream_pix(b: Seq<u8>, x: int, y: int) -> u32 {
    (b[HEADER_LEN + 2 * (y * stream_width(b) + x)] * 256 + b[HEADER_LEN + 2 * (y * stream_width(b)
        + x) + 1]) as u32
}

/// The decimation factor of a scale level: full size down to one
/// eighth.
pub open spec fn spec_scale_factor(s: int) -> int {
    if s == 0 {
        1
    } else if s == 1 {
        2
    } else if s == 2 {
        4
    } else {
        8
    }
}

pub fn scale_factor(s: u8) -> (f: i32)
    requires
        s <= 3,
    ensures
        f == spec_scale_factor(s as int),
        1 <= f <= 8,
{
    if s == 0 {
        1
    } else if s == 1 {
        2
    } else if s == 2 {
        4
    } else {
        8
    }
}

/// A dimension after decimation by factor `f`: the number of sample
/// points `x * f` that land inside `[0, d)`.
pub open spec fn spec_scaled_dim(d: int, f: int) -> int {
    (d - 1) / f + 1
}

/// Decimated sample points stay inside the source dimension.
pub proof fn lemma_scaled_dim(d: int, f: int, x: int)
    requires
        0 < d,
        1 <= f,
        0 <= x < spec_scaled_dim(d, f),
    ensures
        0 <= x * f <= d - 1,
        0 < spec_scaled_dim(d, f) <= d,
{
    vstd::arithmetic::div_mod::lemma_fundamental_div_mod(d - 1, f);
    vstd::arithmetic::div_mod::lemma_mod_bound(d - 1, f);
    let q = (d - 1) / f;
    assert(x * f <= q * f && q * f == f * q && 0 <= x * f && q <= d - 1) by (nonlinear_arith)
        requires
            0 <= x <= q,
            1 <= f,
            d - 1 == f * q + ((d - 1) % f),
            0 <= (d - 1) % f < f,
    ;
}

/// The pixel a decimated image shows at `(x, y)`: point sampling.
pub open spec fn scaled_pix(b: Seq<u8>, s: int, x: int, y: int) -> u32 {
    stream_pix(b, x * spec_scale_factor(s), y * spec_scale_factor(s))
}

/// The rows of the decimated image, as the blur engine sees them.
pub open spec fn scaled_rows(b: Seq<u8>, s: int) -> Seq<Seq<u32>> {
    Seq::new(
        spec_scaled_dim(stream_height(b), spec_scale_factor(s)) as nat,
        |y: int|
            Seq::new(
                spec_scaled_dim(stream_width(b), spec_scale_factor(s)) as nat,
                |x: int| scaled_pix(b, s, x, y),
            ),
    )
}

/// True when the cache already holds a blur session of these
/// dimensions and radius, whose arena lease a draw can take over.
pub open spec fn blur_session_matches(cache: DrawingCache, w: int, h: int, radius: i32) -> bool {
    match cache.blur {
        Some(e) => e.width == w && e.height == h && e.radius == radius,
        None => false,
    }
}

/// The condition under which drawing this image is owed success: the
/// stream is well-formed, the scratch-line lease fits the second arena
/// (one line plain, two lines blurred), and with blurring either a
/// matching session's lease is already held or a fresh window fits the
/// first arena.
pub open spec fn jpeg_draw_succeeds(j: JpegImage, cache: DrawingCache) -> bool {
    &&& stream_ok(j.jpeg@)
    &&& cache.bump_b.used + (if j.blur_radius == 0 {
        4int
    } else {
        8int
    }) * j.spec_sw() <= cache.bump_b.capacity
    &&& (j.blur_radius > 0 ==> (blur_session_matches(
        cache,
        j.spec_sw(),
        j.spec_sh(),
        j.blur_radius,
    ) || cache.bump_a.used + (2 * j.blur_radius + 1) * j.spec_sw() * 4
        <= cache.bump_a.capacity))
}

/// Reads a stream's header; succeeds exactly on well-formed streams.
pub fn parse_header(b: &Vec<u8>) -> (r: Result<(i32, i32), RenderError>)
    ensures
        r matches Ok(_) <==> stream_ok(b@),
        r matches Err(e) ==> e == RenderError::Content,
        r matches Ok(wh) ==> wh.0 == stream_width(b@) && wh.1 == stream_height(b@),
{
    if b.len() < HEADER_LEN {
        return Err(RenderError::Content);
    }
    if b[0] != STREAM_MAGIC0 || b[1] != STREAM_MAGIC1 {
        return Err(RenderError::Content);
    }
    let w: i32 = (b[2] as i32) * 256 + (b[3] as i32);
    let h: i32 = (b[4] as i32) * 256 + (b[5] as i32);
    if w <= 0 || w > 1024 || h <= 0 || h > 1024 {
        return Err(RenderError::Content);
    }
    proof {
        assert(w * h <= 1048576) by (nonlinear_arith)
            requires
                0 < w <= 1024,
                0 < h <= 1024,
        ;
    }
    if b.len() != HEADER_LEN + 2 * ((w as usize) * (h as usize)) {
        return Err(RenderError::Content);
    }
    Ok((w, h))
}

/// Decodes one row of the decimated image into a one-line bitmap.
#[verifier::loop_isolation(false)]
pub fn decode_row(b: &Vec<u8>, scale: u8, y: i32, out: &mut Bitmap)
    requires
        stream_ok(b@),
        scale <= 3,
        0 <= y < spec_scaled_dim(stream_height(b@), spec_scale_factor(scale as int)),
        old(out).wf(),
        old(out).format == PixelFormat::Rgb565,
        old(out).size.x == spec_scaled_dim(stream_width(b@), spec_scale_factor(scale as int)),
        old(out).size.y == 1,
    ensures
        final(out).wf(),
        final(out).format == PixelFormat::Rgb565,
        final(out).size == old(out).size,
        forall|x: int|
            0 <= x < final(out).size.x ==> final(out).pix(x, 0) == scaled_pix(
                b@,
                scale as int,
                x,
                y as int,
            ),
{
    let f = scale_factor(scale);
    let w: i32 = (b[2] as i32) * 256 + (b[3] as i32);
    let h: i32 = (b[4] as i32) * 256 + (b[5] as i32);
    let sw = (w - 1) / f + 1;
    let sy = y * f;
    proof {
        lemma_scaled_dim(h as int, f as int, y as int);
        assert(sy == y * f);
    }
    let mut x: i32 = 0;
    while x < sw
        invariant
            0 <= x <= sw,
            out.wf(),
            out.format == PixelFormat::Rgb565,
            out.size == old(out).size,
            forall|k: int|
                0 <= k < x ==> #[trigger] out.pix(k, 0) == scaled_pix(b@, scale as int, k, y as int),
        decreases sw - x,
    {
        let sx = x * f;
        proof {
            lemma_scaled_dim(w as int, f as int, x as int);
            lemma_grid_index(w as int, h as int, sx as int, sy as int);
        }
        let idx = HEADER_LEN + 2 * ((sy as usize) * (w as usize) + (sx as usize));
        let cell: u32 = (b[idx] as u32) * 256 + (b[idx + 1] as u32);
        out.set_pix(x, 0, cell);
        x += 1;
    }
}

/// A shape for rendering streamed photographic images.
pub struct JpegImage {
    /// Left-top corner.
    pub pos: Point,
    /// The framed image stream.
    pub jpeg: Vec<u8>,
    /// Scale (decimation) level, 0 through 3.
    pub scale: u8,
    /// Blurring radius, or 0 if no blurring is required.
    pub blur_radius: i32,
    /// Tag of the blur session in use; valid only during one pass.
    pub blur_tag: Option<u32>,
}

impl JpegImage {
    pub open spec fn wf(self) -> bool {
        self.pos.wf() && coord_ok(self.pos.x + 1024) && coord_ok(self.pos.y + 1024) && self.scale
            <= 3 && 0 <= self.blur_radius <= MAX_BLUR_RADIUS
    }

    /// The decimated width, when the stream is well-formed.
    pub open spec fn spec_sw(self) -> int {
        spec_scaled_dim(stream_width(self.jpeg@), spec_scale_factor(self.scale as int))
    }

    /// The decimated height, when the stream is well-formed.
    pub open spec fn spec_sh(self) -> int {
        spec_scaled_dim(stream_height(self.jpeg@), spec_scale_factor(self.scale as int))
    }

    /// The shape's bounding rectangle: the decimated image size, or an
    /// empty rectangle when the stream is malformed.
    pub open spec fn spec_bounds(self) -> Rect {
        if stream_ok(self.jpeg@) {
            Rect {
                x0: self.pos.x,
                y0: self.pos.y,
                x1: (self.pos.x + self.spec_sw()) as i32,
                y1: (self.pos.y + self.spec_sh()) as i32,
            }
        } else {
            Rect { x0: self.pos.x, y0: self.pos.y, x1: self.pos.x, y1: self.pos.y }
        }
    }

    /// The first visible decimated row of the image under a viewport.
    pub open spec fn spec_vis_y0(self, vp: crate::canvas::Viewport) -> int {
        let a = vp.clip.y0 - vp.origin.y - self.pos.y;
        if a >= 0 {
            a
        } else {
            0
        }
    }

    /// One past the last visible decimated row under a viewport.
    pub open spec fn spec_vis_y1(self, vp: crate::canvas::Viewport) -> int {
        let b = vp.clip.y1 - vp.origin.y - self.pos.y;
        if b <= self.spec_sh() {
            b
        } else {
            self.spec_sh()
        }
    }

    /// The value of the relative pixel `(x, y)` after this image is
    /// drawn over a pixel holding `prev`, on a canvas of format `fmt`:
    /// the sampled pixel, blurred when a radius is set, and opaque.
    pub open spec fn pix_spec(self, fmt: PixelFormat, x: int, y: int, prev: u32) -> u32 {
        if self.spec_bounds().contains(x, y) {
            let v = if self.blur_radius == 0 {
                scaled_pix(self.jpeg@, self.scale as int, x - self.pos.x, y - self.pos.y)
            } else {
                blur_pix(
                    scaled_rows(self.jpeg@, self.scale as int),
                    self.spec_sh(),
                    self.blur_radius as int,
                    x - self.pos.x,
                    y - self.pos.y,
                )
            };
            spec_encode(fmt, Color { rgb565: v as u16 })
        } else {
            prev
        }
    }

    pub fn new(pos: Point, jpeg: Vec<u8>) -> (s: JpegImage)
        requires
            pos.wf(),
            coord_ok(pos.x + 1024),
            coord_ok(pos.y + 1024),
        ensures
            s.wf(),
            s.pos == pos,
            s.jpeg == jpeg,
            s.scale == 0,
            s.blur_radius == 0,
            s.blur_tag is None,
    {
        JpegImage { pos, jpeg, scale: 0, blur_radius: 0, blur_tag: None }
    }

    pub fn with_scale(self, scale: u8) -> (s: JpegImage)
        requires
            self.wf(),
            scale <= 3,
        ensures
            s == (JpegImage { scale, ..self }),
    {
        JpegImage { scale, ..self }
    }

    pub fn with_blur(self, blur_radius: i32) -> (s: JpegImage)
        requires
            self.wf(),
            0 <= blur_radius <= MAX_BLUR_RADIUS,
        ensures
            s == (JpegImage { blur_radius, ..self }),
    {
        JpegImage { blur_radius, ..self }
    }

    /// The shape's bounding rectangle; pure and stable across calls
    /// within a pass.
    pub fn bounds(&self, _cache: &DrawingCache) -> (r: Rect)
        requires
            self.wf(),
        ensures
            r == self.spec_bounds(),
            r.wf(),
    {
        match parse_header(&self.jpeg) {
            Ok((w, h)) => {
                let f = scale_factor(self.scale);
                let sw = (w - 1) / f + 1;
                let sh = (h - 1) / f + 1;
                proof {
                    lemma_scaled_dim(w as int, f as int, 0);
                    lemma_scaled_dim(h as int, f as int, 0);
                }
                Rect::new(self.pos.x, self.pos.y, self.pos.x + sw, self.pos.y + sh)
            },
            Err(_) => Rect::new(self.pos.x, self.pos.y, self.pos.x, self.pos.y),
        }
    }

    /// Releases the pass-local blur-session identity, so that it cannot
    /// silently carry into a differently-configured next frame.
    pub fn cleanup(&mut self, cache: &mut DrawingCache)
        ensures
            *final(self) == (JpegImage { blur_tag: None, ..*old(self) }),
            *final(cache) == *old(cache),
    {
        self.blur_tag = None;
    }

    /// Decodes and draws the image, clipped to the viewport and driven
    /// by the clip's vertical extent: rows the clip does not need are
    /// never decoded. With a blur radius set, decoded rows stream
    /// through a blur session leased from the cache. Every failure is
    /// reported before the first pixel is written.
    #[verifier::loop_isolation(false)]
    #[verifier::rlimit(60)]
    pub fn draw(&mut self, canvas: &mut Canvas, cache: &mut DrawingCache) -> (r: Result<
        (),
        RenderError,
    >)
        requires
            old(self).wf(),
            old(canvas).wf(),
            old(cache).wf(),
        ensures
            final(self).pos == old(self).pos,
            final(self).jpeg == old(self).jpeg,
            final(self).scale == old(self).scale,
            final(self).blur_radius == old(self).blur_radius,
            final(self).wf(),
            final(cache).wf(),
            final(cache).bump_a.capacity == old(cache).bump_a.capacity,
            final(cache).bump_b.capacity == old(cache).bump_b.capacity,
            final(canvas).wf(),
            final(canvas).format == old(canvas).format,
            final(canvas).size == old(canvas).size,
            final(canvas).viewport == old(canvas).viewport,
            r matches Err(e) && e == RenderError::Content <==> !stream_ok(old(self).jpeg@),
            r matches Err(e) ==> e == RenderError::Content || e == RenderError::Config,
            r matches Err(_) ==> final(canvas).cells == old(canvas).cells,
            jpeg_draw_succeeds(*old(self), *old(cache)) ==> (r matches Ok(_)),
            r matches Ok(_) ==> final(cache).bump_b.used <= old(cache).bump_b.used + 8 * old(
                self,
            ).spec_sw(),
            (r matches Ok(_)) && (old(self).blur_radius == 0 || blur_session_matches(
                *old(cache),
                old(self).spec_sw(),
                old(self).spec_sh(),
                old(self).blur_radius,
            )) ==> final(cache).bump_a.used == old(cache).bump_a.used,
            r matches Ok(_) ==> final(cache).bump_a.used <= old(cache).bump_a.used + (2 * old(
                self,
            ).blur_radius + 1) * old(self).spec_sw() * 4,
            (r matches Ok(_)) && old(self).blur_radius > 0 && old(self).spec_vis_y0(
                old(canvas).viewport,
            ) < old(self).spec_vis_y1(old(canvas).viewport) ==> (final(cache).blur matches Some(e)
                && e.width == old(self).spec_sw() && e.height == old(self).spec_sh() && e.radius
                == old(self).blur_radius && final(self).blur_tag == Some(e.tag)
                && (blur_session_matches(
                *old(cache),
                old(self).spec_sw(),
                old(self).spec_sh(),
                old(self).blur_radius,
            ) ==> e.tag == old(cache).blur->Some_0.tag)),
            (old(self).blur_radius == 0 || (r matches Err(_)) || old(self).spec_vis_y0(
                old(canvas).viewport,
            ) >= old(self).spec_vis_y1(old(canvas).viewport)) ==> final(self).blur_tag == old(
                self,
            ).blur_tag,
            r matches Ok(_) ==> forall|x: int, y: int|
                final(canvas).on_canvas(x, y) ==> #[trigger] final(canvas).pix(x, y) == (if old(
                    canvas,
                ).viewport.clip.contains(x, y) {
                    old(self).pix_spec(
                        old(canvas).format,
                        x - old(canvas).viewport.origin.x,
                        y - old(canvas).viewport.origin.y,
                        old(canvas).pix(x, y),
                    )
                } else {
                    old(canvas).pix(x, y)
                }),
    {
        let ghost me = *old(self);
        let (w, h) = match parse_header(&self.jpeg) {
            Ok(p) => p,
            Err(e) => {
                return Err(e);
            },
        };
        let f = scale_factor(self.scale);
        let sw = (w - 1) / f + 1;
        let sh = (h - 1) / f + 1;
        proof {
            lemma_scaled_dim(w as int, f as int, 0);
            lemma_scaled_dim(h as int, f as int, 0);
        }
        let vp = canvas.viewport();
        let mut y0 = vp.clip.y0 - vp.origin.y - self.pos.y;
        let mut y1 = vp.clip.y1 - vp.origin.y - self.pos.y;
        if y0 < 0 {
            y0 = 0;
        }
        if y1 > sh {
            y1 = sh;
        }
        if y0 >= y1 {
            proof {
                assert forall|px: int, py: int|
                    canvas.on_canvas(px, py) implies #[trigger] canvas.pix(px, py) == (if old(
                    canvas,
                ).viewport.clip.contains(px, py) {
                    old(self).pix_spec(
                        old(canvas).format,
                        px - vp.origin.x,
                        py - vp.origin.y,
                        old(canvas).pix(px, py),
                    )
                } else {
                    old(canvas).pix(px, py)
                }) by {
                    let rx = px - vp.origin.x;
                    let ry = py - vp.origin.y;
                    if old(canvas).viewport.clip.contains(px, py) && me.spec_bounds().contains(
                        rx,
                        ry,
                    ) {
                        assert(y0 <= ry - me.pos.y < y1);
                    }
                }
            }
            return Ok(());
        }
        let mut line = match cache.image_buff(sw) {
            Ok(b) => b,
            Err(e) => {
                return Err(e);
            },
        };
        if self.blur_radius == 0 {
            let mut y = y0;
            while y < y1
                invariant
                    y0 <= y <= y1,
                    line.wf(),
                    line.format == PixelFormat::Rgb565,
                    line.size.x == sw,
                    line.size.y == 1,
                    canvas.wf(),
                    canvas.format == old(canvas).format,
                    canvas.size == old(canvas).size,
                    canvas.viewport == old(canvas).viewport,
                    forall|px: int, py: int|
                        canvas.on_canvas(px, py) ==> #[trigger] canvas.pix(px, py) == (if old(
                            canvas,
                        ).viewport.clip.contains(px, py) && me.spec_bounds().contains(
                            px - vp.origin.x,
                            py - vp.origin.y,
                        ) && py - vp.origin.y - me.pos.y < y {
                            me.pix_spec(
                                old(canvas).format,
                                px - vp.origin.x,
                                py - vp.origin.y,
                                old(canvas).pix(px, py),
                            )
                        } else {
                            old(canvas).pix(px, py)
                        }),
                decreases y1 - y,
            {
                decode_row(&self.jpeg, self.scale, y, &mut line);
                let rect = Rect::new(
                    self.pos.x,
                    self.pos.y + y,
                    self.pos.x + sw,
                    self.pos.y + y + 1,
                );
                let ghost pre = *canvas;
                canvas.draw_bitmap(rect, BitmapView::new(&line, Color::black()));
                proof {
                    assert forall|px: int, py: int|
                        canvas.on_canvas(px, py) implies #[trigger] canvas.pix(px, py) == (if old(
                        canvas,
                    ).viewport.clip.contains(px, py) && me.spec_bounds().contains(
                        px - vp.origin.x,
                        py - vp.origin.y,
                    ) && py - vp.origin.y - me.pos.y < y + 1 {
                        me.pix_spec(
                            old(canvas).format,
                            px - vp.origin.x,
                            py - vp.origin.y,
                            old(canvas).pix(px, py),
                        )
                    } else {
                        old(canvas).pix(px, py)
                    }) by {
                        assert(pre.pix(px, py) == (if old(canvas).viewport.clip.contains(px, py)
                            && me.spec_bounds().contains(px - vp.origin.x, py - vp.origin.y) && py
                            - vp.origin.y - me.pos.y < y {
                            me.pix_spec(
                                old(canvas).format,
                                px - vp.origin.x,
                                py - vp.origin.y,
                                old(canvas).pix(px, py),
                            )
                        } else {
                            old(canvas).pix(px, py)
                        }));
                        assert(canvas.pix(px, py) == (if pre.paint_region(rect).contains(px, py) {
                            crate::color::spec_composite(
                                pre.format,
                                pre.pix(px, py),
                                PixelFormat::Rgb565,
                                line.pix(
                                    px - (rect.x0 + vp.origin.x),
                                    py - (rect.y0 + vp.origin.y),
                                ),
                                Color { rgb565: 0 },
                            )
                        } else {
                            pre.pix(px, py)
                        }));
                    }
                }
                y += 1;
            }
            proof {
                lemma_jpeg_rows_done(me, *old(canvas), *canvas, vp, y0 as int, y1 as int);
            }
            Ok(())
        } else {
            let mut out = match cache.image_buff(sw) {
                Ok(b) => b,
                Err(e) => {
                    return Err(e);
                },
            };
            let rad = self.blur_radius;
            let tag: u32;
            match cache.take_blur() {
                Some(e) => {
                    // the session lease survives between bands; its
                    // streaming state restarts at this clip's first row
                    if e.width == sw && e.height == sh && e.radius == rad {
                        tag = e.tag;
                    } else {
                        match cache.blur_charge((2 * rad + 1) as usize, sw as usize) {
                            Ok(_) => {},
                            Err(e2) => {
                                return Err(e2);
                            },
                        }
                        tag = cache.fresh_tag();
                    }
                },
                None => {
                    match cache.blur_charge((2 * rad + 1) as usize, sw as usize) {
                        Ok(_) => {},
                        Err(e2) => {
                            return Err(e2);
                        },
                    }
                    tag = cache.fresh_tag();
                },
            }
            let mut engine = BlurEngine::new(sw, sh, rad, y0, tag);
            self.blur_tag = Some(tag);
            let ghost rows = scaled_rows(me.jpeg@, me.scale as int);
            proof {
                assert(rows.len() == sh);
            }
            while engine.popped < y1
                invariant
                    engine.wf(),
                    engine.width == sw,
                    engine.height == sh,
                    engine.radius == rad,
                    engine.first == y0,
                    engine.tag == tag,
                    y0 <= engine.popped <= y1,
                    forall|k: int|
                        engine.start() <= k < engine.filled ==> #[trigger] engine.hist@[k]
                            == rows[k],
                    line.wf(),
                    line.format == PixelFormat::Rgb565,
                    line.size.x == sw,
                    line.size.y == 1,
                    out.wf(),
                    out.format == PixelFormat::Rgb565,
                    out.size.x == sw,
                    out.size.y == 1,
                    canvas.wf(),
                    canvas.format == old(canvas).format,
                    canvas.size == old(canvas).size,
                    canvas.viewport == old(canvas).viewport,
                    forall|px: int, py: int|
                        canvas.on_canvas(px, py) ==> #[trigger] canvas.pix(px, py) == (if old(
                            canvas,
                        ).viewport.clip.contains(px, py) && me.spec_bounds().contains(
                            px - vp.origin.x,
                            py - vp.origin.y,
                        ) && py - vp.origin.y - me.pos.y < engine.popped {
                            me.pix_spec(
                                old(canvas).format,
                                px - vp.origin.x,
                                py - vp.origin.y,
                                old(canvas).pix(px, py),
                            )
                        } else {
                            old(canvas).pix(px, py)
                        }),
                decreases y1 - engine.popped, sh - engine.filled,
            {
                match engine.pop_ready() {
                    Some(py_row) => {
                        let ghost hist0 = engine.hist@;
                        engine.pop(&mut out);
                        proof {
                            lemma_blur_pix_rows(
                                hist0,
                                rows,
                                sh as int,
                                rad as int,
                                py_row as int,
                                engine.start(),
                                engine.filled as int,
                                sw as int,
                            );
                        }
                        let rect = Rect::new(
                            self.pos.x,
                            self.pos.y + py_row,
                            self.pos.x + sw,
                            self.pos.y + py_row + 1,
                        );
                        let ghost pre = *canvas;
                        canvas.draw_bitmap(rect, BitmapView::new(&out, Color::black()));
                        proof {
                            assert forall|px: int, py: int|
                                canvas.on_canvas(px, py) implies #[trigger] canvas.pix(px, py) == (
                            if old(canvas).viewport.clip.contains(px, py)
                                && me.spec_bounds().contains(px - vp.origin.x, py - vp.origin.y)
                                && py - vp.origin.y - me.pos.y < engine.popped {
                                me.pix_spec(
                                    old(canvas).format,
                                    px - vp.origin.x,
                                    py - vp.origin.y,
                                    old(canvas).pix(px, py),
                                )
                            } else {
                                old(canvas).pix(px, py)
                            }) by {
                                assert(pre.pix(px, py) == (if old(canvas).viewport.clip.contains(
                                    px,
                                    py,
                                ) && me.spec_bounds().contains(px - vp.origin.x, py - vp.origin.y)
                                    && py - vp.origin.y - me.pos.y < py_row {
                                    me.pix_spec(
                                        old(canvas).format,
                                        px - vp.origin.x,
                                        py - vp.origin.y,
                                        old(canvas).pix(px, py),
                                    )
                                } else {
                                    old(canvas).pix(px, py)
                                }));
                                assert(canvas.pix(px, py) == (if pre.paint_region(rect).contains(
                                    px,
                                    py,
                                ) {
                                    crate::color::spec_composite(
                                        pre.format,
                                        pre.pix(px, py),
                                        PixelFormat::Rgb565,
                                        out.pix(
                                            px - (rect.x0 + vp.origin.x),
                                            py - (rect.y0 + vp.origin.y),
                                        ),
                                        Color { rgb565: 0 },
                                    )
                                } else {
                                    pre.pix(px, py)
                                }));
                            }
                        }
                    },
                    None => {
                        match engine.push_ready() {
                            Some(fy) => {
                                decode_row(&self.jpeg, self.scale, fy, &mut line);
                                let ghost eng0 = engine;
                                engine.push(&line, 0);
                                proof {
                                    assert(engine.hist@.last() =~= rows[engine.filled - 1]);
                                    assert forall|k: int|
                                        engine.start() <= k < engine.filled implies #[trigger] engine.hist@[k]
                                        == rows[k] by {
                                        if k < engine.filled - 1 {
                                            assert(engine.hist@[k] == eng0.hist@[k]);
                                            assert(eng0.hist@[k] == rows[k]);
                                        }
                                    }
                                }
                            },
                            None => {
                                proof {
                                    assert(false);
                                }
                                return Err(RenderError::Config);
                            },
                        }
                    },
                }
            }
            cache.put_blur(engine);
            proof {
                lemma_jpeg_rows_done(me, *old(canvas), *canvas, vp, y0 as int, y1 as int);
            }
            Ok(())
        }
    }
}

/// When every visible row of the image has been drawn, the partial
/// row-by-row account equals the shape's full drawing contract.
pub proof fn lemma_jpeg_rows_done(
    me: JpegImage,
    before: Canvas,
    after: Canvas,
    vp: crate::canvas::Viewport,
    y0: int,
    y1: int,
)
    requires
        vp == before.viewport,
        stream_ok(me.jpeg@) ==> y1 >= (if before.viewport.clip.y1 - vp.origin.y - me.pos.y
            <= me.spec_sh() {
            before.viewport.clip.y1 - vp.origin.y - me.pos.y
        } else {
            me.spec_sh()
        }),
        forall|px: int, py: int|
            after.on_canvas(px, py) ==> #[trigger] after.pix(px, py) == (
            if before.viewport.clip.contains(px, py) && me.spec_bounds().contains(
                px - vp.origin.x,
                py - vp.origin.y,
            ) && py - vp.origin.y - me.pos.y < y1 {
                me.pix_spec(
                    before.format,
                    px - vp.origin.x,
                    py - vp.origin.y,
                    before.pix(px, py),
                )
            } else {
                before.pix(px, py)
            }),
    ensures
        forall|px: int, py: int|
            after.on_canvas(px, py) ==> #[trigger] after.pix(px, py) == (
            if before.viewport.clip.contains(px, py) {
                me.pix_spec(before.format, px - vp.origin.x, py - vp.origin.y, before.pix(px, py))
            } else {
                before.pix(px, py)
            }),
{
    assert forall|px: int, py: int|
        after.on_canvas(px, py) implies #[trigger] after.pix(px, py) == (
    if before.viewport.clip.contains(px, py) {
        me.pix_spec(before.format, px - vp.origin.x, py - vp.origin.y, before.pix(px, py))
    } else {
        before.pix(px, py)
    }) by {
        let rx = px - vp.origin.x;
        let ry = py - vp.origin.y;
        if before.viewport.clip.contains(px, py) {
            if me.spec_bounds().contains(rx, ry) {
                assert(ry - me.pos.y < y1);
            } else {
                assert(me.pix_spec(before.format, rx, ry, before.pix(px, py)) == before.pix(
                    px,
                    py,
                ));
            }
        }
    }
}

/// The popped history row and the decimated image agree on every
/// blurred pixel of a row whose window the history holds.
pub proof fn lemma_blur_pix_rows(
    hist: Seq<Seq<u32>>,
    rows: Seq<Seq<u32>>,
    h: int,
    r: int,
    y: int,
    start: int,
    filled: int,
    w: int,
)
    requires
        forall|k: int| start <= k < filled ==> #[trigger] hist[k] == rows[k],
        start <= crate::blur::win_lo(y, r),
        crate::blur::win_hi(y, r, h) <= filled,
    ensures
        forall|x: int|
            0 <= x < w ==> crate::blur::blur_pix(hist, h, r, x, y) == #[trigger] crate::blur::blur_pix(
                rows,
                h,
                r,
                x,
                y,
            ),
{
    assert forall|x: int|
        0 <= x < w implies crate::blur::blur_pix(hist, h, r, x, y) == #[trigger] crate::blur::blur_pix(
        rows,
        h,
        r,
        x,
        y,
    ) by {
        crate::blur::lemma_blur_pix_congruence(hist, rows, h, r, x, y);
    }
}

} // verus!
