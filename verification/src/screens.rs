//! Whole-screen passes for fatal errors and the boot screen.
//!
//! These compose shapes and run one rendering pass over the display.
//! The message text itself is rasterized by the font collaborator
//! outside the core; the screens lay out the panels the glyphs go on,
//! and their contracts fix every pixel of the result.

use vstd::prelude::*;

use crate::bar::Bar;
use crate::cache::{get_bump_a_size, get_bump_b_size, BumpArena};
use crate::color::{spec_encode, Color, PixelFormat};
use crate::corner_highlight::CornerHighlight;
use crate::display::{DisplayCanvas, DISPLAY_RESX, DISPLAY_RESY};
use crate::error::RenderError;
use crate::geometry::{Offset, Rect};
use crate::render::{render_on_display, shapes_pix};
use crate::shape::Shape;

verus! {

/// The whole-screen rectangle.
pub open spec fn spec_screen() -> Rect {
    Rect { x0: 0, y0: 0, x1: DISPLAY_RESX, y1: DISPLAY_RESY }
}

/// The fatal-error page's panels, back to front: the red title band,
/// the white frame around the message area, and the gray footer band.
pub open spec fn fatal_panels() -> Seq<Shape> {
    seq![
        Shape::Bar(
            Bar {
                rect: Rect { x0: 0, y0: 0, x1: DISPLAY_RESX, y1: 36 },
                fg: None,
                bg: Some(Color { rgb565: 0xf800 }),
                thickness: 0,
                alpha: 255,
            },
        ),
        Shape::Bar(
            Bar {
                rect: Rect {
                    x0: 8,
                    y0: 48,
                    x1: (DISPLAY_RESX - 8) as i32,
                    y1: (DISPLAY_RESY - 48) as i32,
                },
                fg: Some(Color { rgb565: 0xffff }),
                bg: None,
                thickness: 1,
                alpha: 255,
            },
        ),
        Shape::Bar(
            Bar {
                rect: Rect {
                    x0: 0,
                    y0: (DISPLAY_RESY - 36) as i32,
                    x1: DISPLAY_RESX,
                    y1: DISPLAY_RESY,
                },
                fg: None,
                bg: Some(Color { rgb565: 0x3186 }),
                thickness: 0,
                alpha: 255,
            },
        ),
    ]
}

/// The boot page's centered logo rectangle.
pub open spec fn spec_logo() -> Rect {
    Rect { x0: 70, y0: 70, x1: 170, y1: 170 }
}

/// Renders the fatal-error screen: a black page with a title band, a
/// framed message panel where the rasterized `title`/`msg`/`footer`
/// glyphs go, and a footer band; exactly one pass and one refresh.
/// Every display pixel ends as the fold of the three panels over
/// black.
pub fn screen_fatal_error(title: &str, msg: &str, footer: &str) -> (r: Result<
    DisplayCanvas,
    RenderError,
>)
    ensures
        r is Ok,
        r matches Ok(d) ==> d.wf() && !d.busy && d.size == (Offset {
            x: DISPLAY_RESX,
            y: DISPLAY_RESY,
        }) && forall|x: int, y: int|
            d.on_canvas(x, y) ==> #[trigger] d.pix(x, y) == shapes_pix(
                fatal_panels(),
                PixelFormat::Rgb565,
                spec_screen(),
                Offset { x: 0, y: 0 },
                x,
                y,
                spec_encode(PixelFormat::Rgb565, Color { rgb565: 0 }),
            ),
{
    let display = match DisplayCanvas::acquire() {
        Some(d) => d,
        None => {
            return Err(RenderError::Config);
        },
    };
    let mut shapes: Vec<Shape> = Vec::new();
    let screen = Rect::new(0, 0, DISPLAY_RESX, DISPLAY_RESY);
    let title_band = Rect::new(0, 0, DISPLAY_RESX, 36);
    shapes.push(Shape::Bar(Bar::new(title_band).with_bg(Color::new(0xf800))));
    let msg_band = Rect::new(8, 48, DISPLAY_RESX - 8, DISPLAY_RESY - 48);
    shapes.push(Shape::Bar(Bar::new(msg_band).with_fg(Color::new(0xffff)).with_thickness(1)));
    let footer_band = Rect::new(0, DISPLAY_RESY - 36, DISPLAY_RESX, DISPLAY_RESY);
    shapes.push(Shape::Bar(Bar::new(footer_band).with_bg(Color::new(0x3186))));
    proof {
        assert(shapes@ =~= fatal_panels());
    }
    let bump_a = BumpArena::new(get_bump_a_size());
    let bump_b = BumpArena::new(get_bump_b_size());
    let r = render_on_display(
        display,
        Some(screen),
        Some(Color::black()),
        shapes,
        bump_a,
        bump_b,
    );
    r
}

/// Renders the boot screen: a black page with the centered white logo
/// block and green corner marks; exactly one pass and one refresh.
/// Every display pixel ends as the fold of those two shapes over
/// black.
pub fn screen_boot_full() -> (r: Result<DisplayCanvas, RenderError>)
    ensures
        r is Ok,
        r matches Ok(d) ==> d.wf() && !d.busy && exists|ch: CornerHighlight|
            #[trigger] ch.wf() && ch.rect == spec_logo() && ch.color == (Color { rgb565: 0x07e0 })
                && ch.length == 20 && ch.thickness == 4 && forall|x: int, y: int|
                d.on_canvas(x, y) ==> #[trigger] d.pix(x, y) == shapes_pix(
                    seq![
                        Shape::Bar(
                            Bar {
                                rect: spec_logo(),
                                fg: None,
                                bg: Some(Color { rgb565: 0xffff }),
                                thickness: 0,
                                alpha: 255,
                            },
                        ),
                        Shape::CornerHighlight(ch),
                    ],
                    PixelFormat::Rgb565,
                    spec_screen(),
                    Offset { x: 0, y: 0 },
                    x,
                    y,
                    spec_encode(PixelFormat::Rgb565, Color { rgb565: 0 }),
                ),
{
    let display = match DisplayCanvas::acquire() {
        Some(d) => d,
        None => {
            return Err(RenderError::Config);
        },
    };
    let mut shapes: Vec<Shape> = Vec::new();
    let logo = Rect::new(70, 70, 170, 170);
    shapes.push(Shape::Bar(Bar::new(logo).with_bg(Color::new(0xffff))));
    let marks = CornerHighlight::new(logo, Color::new(0x07e0), 20, 4);
    let ghost marksg = marks;
    shapes.push(Shape::CornerHighlight(marks));
    proof {
        assert(shapes@ =~= seq![
            Shape::Bar(
                Bar {
                    rect: spec_logo(),
                    fg: None,
                    bg: Some(Color { rgb565: 0xffff }),
                    thickness: 0,
                    alpha: 255,
                },
            ),
            Shape::CornerHighlight(marksg),
        ]);
    }
    let bump_a = BumpArena::new(get_bump_a_size());
    let bump_b = BumpArena::new(get_bump_b_size());
    let r = render_on_display(display, None, Some(Color::black()), shapes, bump_a, bump_b);
    proof {
        if r is Ok {
            let d = r->Ok_0;
            assert(marksg.wf() && marksg.rect == spec_logo() && marksg.color == (Color {
                rgb565: 0x07e0,
            }) && marksg.length == 20 && marksg.thickness == 4);
            assert forall|x: int, y: int|
                d.on_canvas(x, y) implies #[trigger] d.pix(x, y) == shapes_pix(
                seq![
                    Shape::Bar(
                        Bar {
                            rect: spec_logo(),
                            fg: None,
                            bg: Some(Color { rgb565: 0xffff }),
                            thickness: 0,
                            alpha: 255,
                        },
                    ),
                    Shape::CornerHighlight(marksg),
                ],
                PixelFormat::Rgb565,
                spec_screen(),
                Offset { x: 0, y: 0 },
                x,
                y,
                spec_encode(PixelFormat::Rgb565, Color { rgb565: 0 }),
            ) by {
            }
        }
    }
    r
}

} // verus!
