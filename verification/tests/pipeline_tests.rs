use render_core::backlight::{
    get_backlight_dim, get_backlight_low, get_backlight_max, get_backlight_none,
    get_backlight_normal,
};
use render_core::bar::Bar;
use render_core::bitmap::Bitmap;
use render_core::button_request::{ButtonRequest, ButtonRequestExt, OneButtonRequest};
use render_core::cache::{get_bump_a_size, get_bump_b_size, BumpArena, DrawingCache};
use render_core::canvas::{Canvas, Viewport};
use render_core::color::{Color, PixelFormat};
use render_core::display::DisplayCanvas;
use render_core::error::RenderError;
use render_core::geometry::{Offset, Point, Rect};
use render_core::jpeg::{parse_header, JpegImage, HEADER_LEN, STREAM_MAGIC0, STREAM_MAGIC1};
use render_core::progress::Progress;
use render_core::render::{render_on_display, DirectRenderer, ProgressiveRenderer};
use render_core::screens::{screen_boot_full, screen_fatal_error};
use render_core::shape::Shape;
use render_core::text::Text;
use render_core::toif::ToifImage;

fn fresh_cache() -> DrawingCache {
    DrawingCache::new(
        BumpArena::new(get_bump_a_size()),
        BumpArena::new(get_bump_b_size()),
    )
    .unwrap()
}

fn rgb565_canvas(w: i32, h: i32, bg: Color) -> Canvas {
    Canvas::new(PixelFormat::Rgb565, Offset::new(w, h), bg).unwrap()
}

fn canvas_pix(c: &Canvas, x: i32, y: i32) -> u32 {
    c.cells[(y as usize) * (c.size.x as usize) + (x as usize)]
}

fn display_pix(d: &DisplayCanvas, x: i32, y: i32) -> u32 {
    d.cells[(y as usize) * (d.size.x as usize) + (x as usize)]
}

/// A framed image stream whose pixel (x, y) is `f(x, y)`.
fn make_stream(w: i32, h: i32, f: impl Fn(i32, i32) -> u16) -> Vec<u8> {
    let mut v = vec![
        STREAM_MAGIC0,
        STREAM_MAGIC1,
        (w >> 8) as u8,
        (w & 0xff) as u8,
        (h >> 8) as u8,
        (h & 0xff) as u8,
    ];
    for y in 0..h {
        for x in 0..w {
            let p = f(x, y);
            v.push((p >> 8) as u8);
            v.push((p & 0xff) as u8);
        }
    }
    v
}

#[test]
fn backlight_levels_are_zero_without_theme() {
    assert_eq!(get_backlight_none(), 0);
    assert_eq!(get_backlight_normal(), 0);
    assert_eq!(get_backlight_low(), 0);
    assert_eq!(get_backlight_dim(), 0);
    assert_eq!(get_backlight_max(), 0);
}

#[test]
fn one_button_request_fires_once() {
    let wrapped: OneButtonRequest<u32> = 5u32.one_button_request(ButtonRequest::new(9));
    let mut wrapped = wrapped;
    assert_eq!(wrapped.take_request(), Some(ButtonRequest::new(9)));
    assert_eq!(wrapped.take_request(), None);
    assert_eq!(wrapped.inner, 5);
}

#[test]
fn progress_updates_on_change_only() {
    let mut p = Progress::new(String::from("t"), false, String::from("d"));
    assert_eq!(p.value, 0);
    assert!(p.update_value(10));
    assert!(!p.update_value(10));
    assert_eq!(p.value, 10);
}

#[test]
fn bounds_are_stable_across_calls() {
    let cache = fresh_cache();
    let shape = Shape::Bar(Bar::new(Rect::new(3, 4, 10, 12)));
    let b1 = shape.bounds(&cache);
    let b2 = shape.bounds(&cache);
    assert_eq!(b1, b2);
    assert_eq!((b1.x0, b1.y0, b1.x1, b1.y1), (3, 4, 10, 12));
}

#[test]
fn direct_renderer_bar_scenario() {
    // a single 64x32 opaque bar into a blank RGB565 canvas, clip = whole
    // canvas: inside the bar its color, outside the background fill
    let canvas = rgb565_canvas(128, 64, Color::new(0x7777));
    let bg = Color::new(0x001f);
    let bar_color = Color::new(0xf800);
    let mut ren = DirectRenderer::new(canvas, Some(bg), fresh_cache());
    let bar = Bar::new(Rect::new(10, 10, 74, 42)).with_bg(bar_color);
    ren.render_shape(Shape::Bar(bar)).unwrap();
    let (out, _) = ren.into_parts();
    for y in 0..64 {
        for x in 0..128 {
            let inside = (10..74).contains(&x) && (10..42).contains(&y);
            let expect = if inside { 0xf800 } else { 0x001f };
            assert_eq!(canvas_pix(&out, x, y), expect, "at {x},{y}");
        }
    }
}

#[test]
fn renderer_culls_offscreen_shapes() {
    let canvas = rgb565_canvas(32, 32, Color::black());
    let mut ren = DirectRenderer::new(canvas, Some(Color::black()), fresh_cache());
    let bar = Bar::new(Rect::new(100, 100, 120, 120)).with_bg(Color::white());
    ren.render_shape(Shape::Bar(bar)).unwrap();
    let (out, _) = ren.into_parts();
    for y in 0..32 {
        for x in 0..32 {
            assert_eq!(canvas_pix(&out, x, y), 0);
        }
    }
}

#[test]
fn text_draws_glyph_runs() {
    let mut glyph = Bitmap::new_filled(PixelFormat::Mono8, Offset::new(2, 2), Color::black())
        .unwrap();
    glyph.set_pix(0, 0, 255);
    glyph.set_pix(1, 1, 255);
    let mut text = Text::new(Point::new(4, 4), Offset::new(8, 8), Color::white());
    text.add_glyph(Offset::new(0, 0), glyph).unwrap();
    let mut c = rgb565_canvas(16, 16, Color::black());
    text.draw(&mut c);
    assert_eq!(canvas_pix(&c, 4, 4), 0xffff);
    assert_eq!(canvas_pix(&c, 5, 5), 0xffff);
    assert_eq!(canvas_pix(&c, 5, 4), 0x0000);
    // a glyph that does not fit the box is refused
    let big = Bitmap::new_filled(PixelFormat::Mono8, Offset::new(20, 2), Color::black()).unwrap();
    let mut t2 = Text::new(Point::new(0, 0), Offset::new(8, 8), Color::white());
    assert!(matches!(t2.add_glyph(Offset::new(0, 0), big), Err(RenderError::Config)));
}

#[test]
fn stream_header_parsing() {
    let good = make_stream(3, 2, |_, _| 0xabcd);
    assert_eq!(parse_header(&good).unwrap(), (3, 2));
    let mut bad_magic = good.clone();
    bad_magic[0] = 0;
    assert!(matches!(parse_header(&bad_magic), Err(RenderError::Content)));
    let mut truncated = good.clone();
    truncated.pop();
    assert!(matches!(parse_header(&truncated), Err(RenderError::Content)));
    assert!(matches!(parse_header(&vec![1, 2, 3]), Err(RenderError::Content)));
    assert_eq!(good.len(), HEADER_LEN + 2 * 3 * 2);
}

#[test]
fn jpeg_draws_every_row_once_per_scale() {
    // the decoded region is written completely, at each scale level
    for scale in 0u8..4 {
        let f = 1i32 << scale;
        let stream = make_stream(32, 24, |x, y| (((x + 1) as u16) << 5) | ((y + 1) as u16));
        let sw = (32 - 1) / f + 1;
        let sh = (24 - 1) / f + 1;
        let canvas = rgb565_canvas(40, 40, Color::new(0x0001));
        let mut ren = DirectRenderer::new(canvas, None, fresh_cache());
        let img = JpegImage::new(Point::new(2, 3), stream).with_scale(scale);
        ren.render_shape(Shape::Jpeg(img)).unwrap();
        let (out, _) = ren.into_parts();
        for y in 0..40 {
            for x in 0..40 {
                let ix = x - 2;
                let iy = y - 3;
                let inside = ix >= 0 && ix < sw && iy >= 0 && iy < sh;
                let expect = if inside {
                    ((((ix * f + 1) as u32) << 5) | ((iy * f + 1) as u32)) as u32
                } else {
                    0x0001
                };
                assert_eq!(canvas_pix(&out, x, y), expect, "scale {scale} at {x},{y}");
            }
        }
    }
}

#[test]
fn jpeg_rejects_malformed_stream() {
    let canvas = rgb565_canvas(16, 16, Color::black());
    let mut ren = DirectRenderer::new(canvas, None, fresh_cache());
    let img = JpegImage::new(Point::new(0, 0), vec![1, 2, 3, 4, 5, 6, 7]);
    // malformed content aborts at submission, before any pixel moves
    assert!(matches!(
        ren.render_shape(Shape::Jpeg(img)),
        Err(RenderError::Content)
    ));
    let (out, _) = ren.into_parts();
    assert_eq!(canvas_pix(&out, 0, 0), 0);
}

#[test]
fn dma_pending_region_blocks_software_access() {
    let mut d = DisplayCanvas::acquire().unwrap();
    let stage = rgb565_canvas(10, 10, Color::white());
    let band = Rect::new(0, 0, 10, 10);
    d.dma_copy(band, &stage);
    assert!(d.busy);
    // conflicting software access is refused until completion
    assert!(matches!(d.sw_read_pixel(5, 5), Err(RenderError::HardwareBusy)));
    assert!(matches!(d.sw_write_pixel(5, 5, 0), Err(RenderError::HardwareBusy)));
    // outside the pending region access is fine
    assert_eq!(d.sw_read_pixel(20, 20).unwrap(), 0);
    // explicit completion clears the guard
    d.wait();
    assert_eq!(d.sw_read_pixel(5, 5).unwrap(), 0xffff);
    d.sw_write_pixel(5, 5, 0x1234).unwrap();
    assert_eq!(d.sw_read_pixel(5, 5).unwrap(), 0x1234);
}

fn sample_shapes() -> Vec<Shape> {
    let mut shapes = Vec::new();
    shapes.push(Shape::Bar(
        Bar::new(Rect::new(5, 5, 100, 60)).with_bg(Color::new(0x07e0)),
    ));
    shapes.push(Shape::Circle(render_core::circle::Circle::new(
        Point::new(60, 40),
        25,
        Color::new(0xf800),
        180,
    )));
    shapes.push(Shape::Bar(
        Bar::new(Rect::new(40, 20, 200, 200))
            .with_fg(Color::new(0x001f))
            .with_thickness(3),
    ));
    let mut icon = Bitmap::new_filled(PixelFormat::Mono8, Offset::new(3, 3), Color::black())
        .unwrap();
    icon.set_pix(1, 1, 200);
    shapes.push(Shape::Toif(ToifImage::new(
        Point::new(110, 110),
        Color::white(),
        icon,
    )));
    shapes
}

#[test]
fn direct_and_progressive_agree() {
    // the same shape list and a full-size clip must produce
    // pixel-identical output under both strategies
    let bg = Color::new(0x2104);
    let canvas = rgb565_canvas(240, 240, Color::black());
    let mut dren = DirectRenderer::new(canvas, Some(bg), fresh_cache());
    for s in sample_shapes() {
        dren.render_shape(s).unwrap();
    }
    let (direct, _) = dren.into_parts();

    let display = DisplayCanvas::acquire().unwrap();
    let mut pren = ProgressiveRenderer::new(display, Some(bg), fresh_cache());
    for s in sample_shapes() {
        pren.render_shape(s).unwrap();
    }
    pren.render(45).unwrap();
    let (prog, _) = pren.into_parts();
    assert!(!prog.busy);

    for y in 0..240 {
        for x in 0..240 {
            assert_eq!(
                canvas_pix(&direct, x, y),
                display_pix(&prog, x, y),
                "at {x},{y}"
            );
        }
    }
}

#[test]
fn progressive_blurred_jpeg_matches_direct() {
    // a blurred 100x60 image, band height 20 (three bands over the
    // clip), must match the direct rendering pixel for pixel
    let stream = make_stream(100, 60, |x, y| (((x * 31 / 99) as u16) << 11) | ((y % 32) as u16));
    let stream2 = stream.clone();
    let clip = Rect::new(10, 20, 110, 80);
    let img = JpegImage::new(Point::new(10, 20), stream).with_blur(5);
    let img2 = JpegImage::new(Point::new(10, 20), stream2).with_blur(5);

    let mut canvas = rgb565_canvas(240, 240, Color::black());
    canvas.set_viewport(Viewport::new(clip));
    let mut dren = DirectRenderer::new(canvas, Some(Color::black()), fresh_cache());
    dren.render_shape(Shape::Jpeg(img2)).unwrap();
    let (direct, _) = dren.into_parts();

    let mut display = DisplayCanvas::acquire().unwrap();
    display.set_viewport(Viewport::new(clip));
    let mut pren = ProgressiveRenderer::new(display, Some(Color::black()), fresh_cache());
    pren.render_shape(Shape::Jpeg(img)).unwrap();
    pren.render(20).unwrap();
    let (prog, _) = pren.into_parts();

    // the 60-row clip at 20 lines per band is exactly three bands
    assert_eq!(ProgressiveRenderer::band_count(clip.y1 - clip.y0, 20), 3);

    for y in 0..240 {
        for x in 0..240 {
            if x >= clip.x0 && x < clip.x1 && y >= clip.y0 && y < clip.y1 {
                assert_eq!(
                    canvas_pix(&direct, x, y),
                    display_pix(&prog, x, y),
                    "at {x},{y}"
                );
            }
        }
    }
    // the blur changed something relative to the unblurred image
    let plain = make_stream(100, 60, |x, y| (((x * 31 / 99) as u16) << 11) | ((y % 32) as u16));
    let mut canvas2 = rgb565_canvas(240, 240, Color::black());
    canvas2.set_viewport(Viewport::new(clip));
    let mut dren2 = DirectRenderer::new(canvas2, Some(Color::black()), fresh_cache());
    dren2
        .render_shape(Shape::Jpeg(JpegImage::new(Point::new(10, 20), plain)))
        .unwrap();
    let (unblurred, _) = dren2.into_parts();
    let mut differs = false;
    for y in 20..80 {
        for x in 10..110 {
            if canvas_pix(&direct, x, y) != canvas_pix(&unblurred, x, y) {
                differs = true;
            }
        }
    }
    assert!(differs);
}

#[test]
fn blurred_draw_records_its_session() {
    let stream = make_stream(40, 30, |x, y| ((x as u16) << 5) | (y as u16));
    let mut img = JpegImage::new(Point::new(0, 0), stream).with_blur(3);
    assert!(img.blur_tag.is_none());
    let mut canvas = rgb565_canvas(40, 30, Color::black());
    let mut cache = fresh_cache();
    img.draw(&mut canvas, &mut cache).unwrap();
    // the draw records the session it used, and the cache holds that
    // session for the next band
    let tag = img.blur_tag.expect("session tag recorded");
    let session = cache.blur.as_ref().expect("session cached");
    assert_eq!(session.tag, tag);
    assert_eq!((session.width, session.height, session.radius), (40, 30, 3));
    // a second draw over the same geometry keeps the session's lease
    let used_before = cache.bump_a.used;
    let mut img2 = JpegImage::new(
        Point::new(0, 0),
        make_stream(40, 30, |x, y| ((x as u16) << 5) | (y as u16)),
    )
    .with_blur(3);
    img2.draw(&mut canvas, &mut cache).unwrap();
    assert_eq!(cache.bump_a.used, used_before);
    assert_eq!(img2.blur_tag, Some(tag));
    // cleanup releases the pass-local identity
    img.cleanup(&mut cache);
    assert!(img.blur_tag.is_none());
}

#[test]
fn render_on_display_runs_one_pass() {
    let display = DisplayCanvas::acquire().unwrap();
    let mut shapes = Vec::new();
    shapes.push(Shape::Bar(
        Bar::new(Rect::new(0, 0, 240, 240)).with_bg(Color::new(0x07e0)),
    ));
    shapes.push(Shape::Jpeg(
        JpegImage::new(Point::new(55, 55), make_stream(8, 8, |_, _| 0xf800)).with_blur(2),
    ));
    let out = render_on_display(
        display,
        Some(Rect::new(50, 50, 70, 70)),
        Some(Color::white()),
        shapes,
        BumpArena::new(get_bump_a_size()),
        BumpArena::new(get_bump_b_size()),
    )
    .unwrap();
    assert!(!out.busy);
    // inside the clip: the bar, with the blurred image over it; outside:
    // the display's prior contents
    assert_eq!(display_pix(&out, 52, 52), 0x07e0);
    assert_eq!(display_pix(&out, 58, 58), 0xf800); // uniform image blurs to itself
    assert_eq!(display_pix(&out, 10, 10), 0x0000);
}

#[test]
fn screens_render_their_panels() {
    let d = screen_fatal_error("INTERNAL ERROR", "unrecoverable", "support.example").unwrap();
    assert!(!d.busy);
    // the red title band, the white message frame, the gray footer
    // band, and black elsewhere
    assert_eq!(display_pix(&d, 120, 10), 0xf800);
    assert_eq!(display_pix(&d, 8, 100), 0xffff);
    assert_eq!(display_pix(&d, 120, 100), 0x0000);
    assert_eq!(display_pix(&d, 120, 220), 0x3186);
    assert_eq!(display_pix(&d, 120, 40), 0x0000);
    let d2 = screen_boot_full().unwrap();
    assert!(!d2.busy);
    // the white logo block with green corner marks over black
    assert_eq!(display_pix(&d2, 120, 120), 0xffff);
    assert_eq!(display_pix(&d2, 70, 70), 0x07e0);
    assert_eq!(display_pix(&d2, 169, 169), 0x07e0);
    assert_eq!(display_pix(&d2, 10, 10), 0x0000);
}
