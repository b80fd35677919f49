//! A progress screen: a centered loader over a titled page.
//!
//! The title and description strings are rasterized by the font
//! collaborator outside the core; this component keeps the progress
//! state and submits the loader's rings as shapes.

use vstd::prelude::*;

use crate::circle::Circle;
use crate::color::Color;
use crate::error::RenderError;
use crate::geometry::Point;
use crate::render::ProgressiveRenderer;
use crate::shape::Shape;

verus! {

/// X of the loader's center on the canonical screen.
pub const LOADER_X: i32 = 120;

/// Y of the loader's center on the canonical screen.
pub const LOADER_Y: i32 = 120;

/// Radius of the loader's outer ring.
pub const LOADER_OUTER: i32 = 60;

/// Radius of the loader's inner disc.
pub const LOADER_INNER: i32 = 42;

/// A progress dialog's state.
pub struct Progress {
    pub title: String,
    pub value: u16,
    pub loader_y_offset: i32,
    pub indeterminate: bool,
    pub description: String,
}

impl Progress {
    pub fn new(title: String, indeterminate: bool, description: String) -> (p: Progress)
        ensures
            p.title == title,
            p.value == 0,
            p.loader_y_offset == 0,
            p.indeterminate == indeterminate,
            p.description == description,
    {
        Progress { title, value: 0, loader_y_offset: 0, indeterminate, description }
    }

    /// A progress event: stores the new value and reports whether a
    /// repaint is due, exactly when the value changed.
    pub fn update_value(&mut self, value: u16) -> (changed: bool)
        ensures
            final(self).value == value,
            final(self).title == old(self).title,
            final(self).description == old(self).description,
            final(self).indeterminate == old(self).indeterminate,
            final(self).loader_y_offset == old(self).loader_y_offset,
            changed == (old(self).value != value),
    {
        let changed = self.value != value;
        self.value = value;
        changed
    }

    /// The loader's center: mid-screen, shifted by the layout offset.
    pub open spec fn spec_center(self) -> Point {
        Point { x: LOADER_X, y: (LOADER_Y + self.loader_y_offset) as i32 }
    }

    /// Submits the loader's rings, back to front: the inactive outer
    /// disc, the active inner ring, and the background core. The
    /// original's value-driven angular sweep is not drawn: the core's
    /// circle carries no arc geometry, so the loader shows the rings
    /// only; `value` feeds the repaint decision, not the geometry.
    pub fn render(&self, target: &mut ProgressiveRenderer) -> (r: Result<(), RenderError>)
        requires
            old(target).wf(),
            -1024 <= self.loader_y_offset <= 1024,
        ensures
            final(target).wf(),
            final(target).display == old(target).display,
            final(target).bg == old(target).bg,
            old(target).cache.bump_a.used + 3 * crate::cache::SHAPE_CLONE_COST <= old(
                target,
            ).cache.bump_a.capacity ==> (r matches Ok(_)),
            r matches Ok(_) ==> final(target).orig@.len() == old(target).orig@.len() + 3
                && final(target).orig@.subrange(0, old(target).orig@.len() as int) == old(
                target,
            ).orig@,
            r matches Ok(_) ==> (final(target).orig@[old(target).orig@.len() as int]
                matches Shape::Circle(c) && c.wf() && c.center == self.spec_center() && c.radius
                == LOADER_OUTER && c.color == (Color { rgb565: 0x528a }) && c.alpha == 255),
            r matches Ok(_) ==> (final(target).orig@[old(target).orig@.len() as int + 1]
                matches Shape::Circle(c) && c.wf() && c.center == self.spec_center() && c.radius
                == LOADER_INNER + 2 && c.color == (Color { rgb565: 0xffff }) && c.alpha == 255),
            r matches Ok(_) ==> (final(target).orig@[old(target).orig@.len() as int + 2]
                matches Shape::Circle(c) && c.wf() && c.center == self.spec_center() && c.radius
                == LOADER_INNER && c.color == (Color { rgb565: 0x0000 }) && c.alpha == 255),
            r matches Err(e) ==> e == RenderError::Config,
    {
        let center = Point::new(LOADER_X, LOADER_Y + self.loader_y_offset);
        let inactive = Color::new(0x528a);
        let active = Color::white();
        let bg = Color::black();
        let outer = Circle::new(center, LOADER_OUTER, inactive, 255);
        match target.render_shape(Shape::Circle(outer)) {
            Ok(_) => {},
            Err(e) => {
                return Err(e);
            },
        }
        let ring = Circle::new(center, LOADER_INNER + 2, active, 255);
        match target.render_shape(Shape::Circle(ring)) {
            Ok(_) => {},
            Err(e) => {
                return Err(e);
            },
        }
        let core_c = Circle::new(center, LOADER_INNER, bg, 255);
        match target.render_shape(Shape::Circle(core_c)) {
            Ok(_) => {},
            Err(e) => {
                return Err(e);
            },
        }
        proof {
            assert(target.orig@.subrange(0, old(target).orig@.len() as int) =~= old(
                target,
            ).orig@);
        }
        Ok(())
    }
}

} // verus!
