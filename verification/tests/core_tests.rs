use render_core::bar::Bar;
use render_core::bitmap::Bitmap;
use render_core::blur::BlurEngine;
use render_core::cache::{get_bump_a_size, get_bump_b_size, BumpArena, DrawingCache, BUMP_A_SIZE};
use render_core::canvas::{Canvas, Viewport};
use render_core::circle::Circle;
use render_core::color::{encode, Color, PixelFormat};
use render_core::corner_highlight::CornerHighlight;
use render_core::error::RenderError;
use render_core::geometry::{Offset, Point, Rect};
use render_core::qrcode::QrImage;
use render_core::toif::ToifImage;

fn rgb565_canvas(w: i32, h: i32, bg: Color) -> Canvas {
    Canvas::new(PixelFormat::Rgb565, Offset::new(w, h), bg).unwrap()
}

fn pix(c: &Canvas, x: i32, y: i32) -> u32 {
    c.cells[(y as usize) * (c.size.x as usize) + (x as usize)]
}

#[test]
fn rect_intersect_and_translate() {
    let a = Rect::new(0, 0, 10, 10);
    let b = Rect::new(5, -3, 20, 7);
    let i = a.intersect(b);
    assert_eq!((i.x0, i.y0, i.x1, i.y1), (5, 0, 10, 7));
    let t = a.translate(Offset::new(3, -2));
    assert_eq!((t.x0, t.y0, t.x1, t.y1), (3, -2, 13, 8));
    assert!(Rect::new(4, 4, 4, 9).is_empty());
}

#[test]
fn color_encodings() {
    let red = Color::rgb(255, 0, 0);
    assert_eq!(red.rgb565, 0xf800);
    assert_eq!(encode(PixelFormat::Rgb565, red), 0xf800);
    assert_eq!(encode(PixelFormat::Rgba8888, red), 0xf80000ff);
    assert_eq!(encode(PixelFormat::Mono8, Color::white()), (248 * 77 + 252 * 150 + 248 * 29) / 256);
    assert_eq!(encode(PixelFormat::Mono8, Color::black()), 0);
}

#[test]
fn fill_rect_clips_to_viewport() {
    // sentinel-filled canvas: nothing outside the clip may move
    let sentinel = Color::new(0x1234);
    let mut c = rgb565_canvas(20, 20, sentinel);
    c.set_viewport(Viewport::new(Rect::new(5, 5, 15, 15)));
    c.fill_rect(Rect::new(0, 0, 20, 20), Color::white(), 255);
    for y in 0..20 {
        for x in 0..20 {
            let inside = (5..15).contains(&x) && (5..15).contains(&y);
            let expect = if inside { 0xffff } else { 0x1234 };
            assert_eq!(pix(&c, x, y), expect, "at {x},{y}");
        }
    }
}

#[test]
fn bar_draw_exact() {
    let mut c = rgb565_canvas(16, 16, Color::black());
    let bar = Bar::new(Rect::new(2, 2, 14, 14))
        .with_bg(Color::new(0x07e0))
        .with_fg(Color::new(0xf800))
        .with_thickness(2);
    bar.draw(&mut c);
    // frame pixel
    assert_eq!(pix(&c, 2, 2), 0xf800);
    assert_eq!(pix(&c, 13, 13), 0xf800);
    assert_eq!(pix(&c, 3, 8), 0xf800);
    // interior pixel
    assert_eq!(pix(&c, 4, 4), 0x07e0);
    assert_eq!(pix(&c, 8, 8), 0x07e0);
    // untouched
    assert_eq!(pix(&c, 0, 0), 0x0000);
    assert_eq!(pix(&c, 15, 8), 0x0000);
}

#[test]
fn bar_alpha_blends() {
    let mut c = rgb565_canvas(4, 4, Color::black());
    let bar = Bar::new(Rect::new(0, 0, 4, 4)).with_bg(Color::white()).with_alpha(128);
    bar.draw(&mut c);
    // white's widened channels are 248/252/248; mixing over black at
    // coverage 128 truncates each channel product
    let r = (248u32 * 128) / 255;
    let g = (252u32 * 128) / 255;
    let b = (248u32 * 128) / 255;
    let expect = ((r >> 3) << 11) | ((g >> 2) << 5) | (b >> 3);
    assert_eq!(pix(&c, 1, 1), expect);
}

#[test]
fn circle_mask_covers_disc() {
    let circle = Circle::new(Point::new(10, 10), 4, Color::white(), 255);
    let mut c = rgb565_canvas(20, 20, Color::black());
    circle.draw(&mut c);
    assert_eq!(pix(&c, 10, 10), 0xffff); // center
    assert_eq!(pix(&c, 14, 10), 0xffff); // on radius
    assert_eq!(pix(&c, 13, 13), 0x0000); // corner of bounding box, outside disc
    assert_eq!(pix(&c, 0, 0), 0x0000);
}

#[test]
fn corner_highlight_marks_corners() {
    let ch = CornerHighlight::new(Rect::new(0, 0, 16, 16), Color::white(), 5, 2);
    let mut c = rgb565_canvas(16, 16, Color::black());
    ch.draw(&mut c);
    assert_eq!(pix(&c, 0, 0), 0xffff); // top-left arm
    assert_eq!(pix(&c, 4, 1), 0xffff); // horizontal arm extends
    assert_eq!(pix(&c, 1, 4), 0xffff); // vertical arm extends
    assert_eq!(pix(&c, 8, 8), 0x0000); // center untouched
    assert_eq!(pix(&c, 15, 15), 0xffff); // bottom-right corner
    assert_eq!(pix(&c, 8, 0), 0x0000); // between corners
}

#[test]
fn qr_draws_modules_scaled() {
    // 2x2 modules: [true, false, false, true], scale 3
    let modules = vec![true, false, false, true];
    let q = QrImage::new(
        Point::new(0, 0),
        2,
        3,
        modules,
        Color::black(),
        Color::white(),
    )
    .unwrap();
    let mut c = rgb565_canvas(6, 6, Color::new(0x5555));
    q.draw(&mut c);
    assert_eq!(pix(&c, 0, 0), 0x0000); // fg module
    assert_eq!(pix(&c, 2, 2), 0x0000);
    assert_eq!(pix(&c, 3, 0), 0xffff); // bg module
    assert_eq!(pix(&c, 0, 5), 0xffff);
    assert_eq!(pix(&c, 5, 5), 0x0000);
}

#[test]
fn qr_rejects_bad_matrix() {
    let r = QrImage::new(Point::new(0, 0), 2, 3, vec![true; 3], Color::black(), Color::white());
    assert!(matches!(r, Err(RenderError::Config)));
}

#[test]
fn toif_blends_mono_icon() {
    // a 2x1 grayscale icon: opaque then transparent
    let mut icon = Bitmap::new_filled(PixelFormat::Mono8, Offset::new(2, 1), Color::black()).unwrap();
    icon.set_pix(0, 0, 255);
    icon.set_pix(1, 0, 0);
    let t = ToifImage::new(Point::new(0, 0), Color::white(), icon);
    let mut c = rgb565_canvas(2, 1, Color::new(0x001f));
    t.draw(&mut c);
    assert_eq!(pix(&c, 0, 0), 0xffff); // opaque: foreground
    assert_eq!(pix(&c, 1, 0), 0x001f); // transparent: unchanged
}

#[test]
fn cache_budget_is_exact() {
    let mut cache = DrawingCache::new(
        BumpArena::new(get_bump_a_size()),
        BumpArena::new(get_bump_b_size()),
    )
    .unwrap();
    // a line buffer lease charges 4 bytes per pixel
    let before = cache.bump_b.used;
    let line = cache.image_buff(100).unwrap();
    assert_eq!(line.size.x, 100);
    assert_eq!(cache.bump_b.used, before + 400);
    // exhausting the shape-clone arena is a configuration error
    let mut n = 0usize;
    loop {
        match cache.shape_clone_charge() {
            Ok(()) => n += 1,
            Err(e) => {
                assert_eq!(e, RenderError::Config);
                break;
            }
        }
    }
    assert_eq!(n, BUMP_A_SIZE / 256);
    // a reset instantly invalidates all leases
    cache.reset();
    assert_eq!(cache.bump_a.used, 0);
    assert_eq!(cache.bump_b.used, 0);
}

#[test]
fn cache_refuses_wrong_arena_sizes() {
    let r = DrawingCache::new(BumpArena::new(16), BumpArena::new(get_bump_b_size()));
    assert!(matches!(r, Err(RenderError::Config)));
}

fn row_bitmap(vals: &[u32]) -> Bitmap {
    let mut b = Bitmap::new_filled(
        PixelFormat::Rgb565,
        Offset::new(vals.len() as i32, 1),
        Color::black(),
    )
    .unwrap();
    for (i, v) in vals.iter().enumerate() {
        b.set_pix(i as i32, 0, *v);
    }
    b
}

#[test]
fn blur_round_trip_counts_and_order() {
    // pushing N rows and popping all ready rows yields exactly N rows,
    // in original order, radius < N
    let n: i32 = 9;
    let r: i32 = 3;
    let mut engine = BlurEngine::new(4, n, r, 0, 7);
    let mut popped_rows: Vec<i32> = Vec::new();
    let mut out = row_bitmap(&[0, 0, 0, 0]);
    loop {
        while let Some(y) = engine.pop_ready() {
            engine.pop(&mut out);
            popped_rows.push(y);
        }
        match engine.push_ready() {
            Some(y) => {
                assert_eq!(y, engine.filled);
                let row = row_bitmap(&[100, 200, 300, 400]);
                engine.push(&row, 0);
            }
            None => {
                if popped_rows.len() as i32 == n {
                    break;
                }
            }
        }
    }
    let expect: Vec<i32> = (0..n).collect();
    assert_eq!(popped_rows, expect);
}

#[test]
fn blur_averages_window() {
    // 1-wide image, rows 0..5 with red channel 8,16,24,32,40 (5-bit step)
    let h: i32 = 5;
    let r: i32 = 1;
    let mut engine = BlurEngine::new(1, h, r, 0, 1);
    let mut out = row_bitmap(&[0]);
    let reds = [1u32, 2, 3, 4, 5]; // raw 5-bit red fields
    let mut results: Vec<u32> = Vec::new();
    loop {
        while let Some(_y) = engine.pop_ready() {
            engine.pop(&mut out);
            results.push(out.get_pix(0, 0));
        }
        match engine.push_ready() {
            Some(y) => {
                let cell = reds[y as usize] << 11;
                let row = row_bitmap(&[cell]);
                engine.push(&row, 0);
            }
            None => {
                if results.len() as i32 == h {
                    break;
                }
            }
        }
    }
    // row 0: window rows {0,1}: red8 = (8+16)/2 = 12 -> packs back to 1<<11
    let red8 = |cell: u32| ((cell >> 11) & 0x1f) << 3;
    assert_eq!(red8(results[0]), (8 + 16) / 2 / 8 * 8);
    // row 2: window rows {1,2,3}: (16+24+32)/3 = 24
    assert_eq!(red8(results[2]), 24);
    // row 4 (edge): window rows {3,4}: (32+40)/2 = 36 -> truncated to 32 by 5-bit packing
    assert_eq!(red8(results[4]), 32);
}
