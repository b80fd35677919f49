//! The two fixed-capacity memory arenas that bound all transient memory
//! of one rendering pass.
//!
//! Leases are charged against an arena's byte budget; exhausting an arena
//! is a configuration error, never a silent fallback. A reset invalidates
//! every lease at once and happens exactly once per pass, before the
//! first shape is drawn.

use vstd::prelude::*;

use crate::bitmap::{Bitmap, MAX_DIM};
use crate::blur::BlurEngine;
use crate::color::{Color, PixelFormat};
use crate::error::RenderError;
use crate::geometry::Offset;

verus! {

/// Bytes of the arena that holds shape clones and the blur workspace.
pub const BUMP_A_SIZE: usize = 49152;

/// Bytes of the arena that holds the scratch image line and the image
/// decoder workspace.
pub const BUMP_B_SIZE: usize = 49152;

/// Bytes charged for the streaming image decoder's workspace.
pub const DECODER_WORKSPACE_COST: usize = 8192;

/// Bytes charged for one cloned shape held by a renderer.
pub const SHAPE_CLONE_COST: usize = 256;

/// The static capacity contract of the first arena.
pub fn get_bump_a_size() -> (n: usize)
    ensures
        n == BUMP_A_SIZE,
{
    BUMP_A_SIZE
}

/// The static capacity contract of the second arena.
pub fn get_bump_b_size() -> (n: usize)
    ensures
        n == BUMP_B_SIZE,
{
    BUMP_B_SIZE
}

/// A fixed-size bump arena: a byte budget and a high-water mark.
pub struct BumpArena {
    pub capacity: usize,
    pub used: usize,
}

impl BumpArena {
    pub open spec fn wf(self) -> bool {
        self.used <= self.capacity
    }

    pub fn new(capacity: usize) -> (a: BumpArena)
        ensures
            a.wf(),
            a.capacity == capacity,
            a.used == 0,
    {
        BumpArena { capacity, used: 0 }
    }

    /// Instantly invalidates every lease.
    pub fn reset(&mut self)
        ensures
            final(self).wf(),
            final(self).capacity == old(self).capacity,
            final(self).used == 0,
    {
        self.used = 0;
    }

    /// Charges `n` bytes; succeeds exactly when the budget allows it.
    pub fn take(&mut self, n: usize) -> (r: Result<(), RenderError>)
        requires
            old(self).wf(),
        ensures
            final(self).wf(),
            final(self).capacity == old(self).capacity,
            r matches Ok(_) <==> old(self).used + n <= old(self).capacity,
            r matches Ok(_) ==> final(self).used == old(self).used + n,
            r matches Err(e) ==> e == RenderError::Config && final(self).used == old(self).used,
    {
        if n <= self.capacity - self.used {
            self.used = self.used + n;
            Ok(())
        } else {
            Err(RenderError::Config)
        }
    }
}

/// The pair of arenas one rendering pass draws from, plus the streaming
/// blur session that survives between the bands of one pass.
pub struct DrawingCache {
    pub bump_a: BumpArena,
    pub bump_b: BumpArena,
    /// The streaming blur session of the current pass, if one is open.
    pub blur: Option<BlurEngine>,
    /// Tag handed to the next blur session; session tags are unique
    /// within a pass.
    pub next_tag: u32,
}

impl DrawingCache {
    pub open spec fn wf(self) -> bool {
        self.bump_a.wf() && self.bump_b.wf()
    }

    /// Binds two externally-owned arenas. Every backend must honor the
    /// static sizes exactly, since arenas are fixed, not growable.
    pub fn new(bump_a: BumpArena, bump_b: BumpArena) -> (c: Result<DrawingCache, RenderError>)
        requires
            bump_a.wf(),
            bump_b.wf(),
        ensures
            c matches Ok(_) <==> bump_a.capacity == BUMP_A_SIZE && bump_b.capacity == BUMP_B_SIZE,
            c matches Err(e) ==> e == RenderError::Config,
            c matches Ok(cc) ==> cc.wf() && cc.bump_a == bump_a && cc.bump_b == bump_b,
    {
        if bump_a.capacity == BUMP_A_SIZE && bump_b.capacity == BUMP_B_SIZE {
            Ok(DrawingCache { bump_a, bump_b, blur: None, next_tag: 1 })
        } else {
            Err(RenderError::Config)
        }
    }

    /// Invalidates all leases of both arenas; called exactly once per
    /// pass, before the first shape is drawn.
    pub fn reset(&mut self)
        ensures
            final(self).wf(),
            final(self).bump_a.capacity == old(self).bump_a.capacity,
            final(self).bump_b.capacity == old(self).bump_b.capacity,
            final(self).bump_a.used == 0,
            final(self).bump_b.used == 0,
            final(self).blur is None,
            final(self).next_tag == old(self).next_tag,
    {
        self.bump_a.reset();
        self.bump_b.reset();
        self.blur = None;
    }

    /// Takes the open blur session out of the cache, if any.
    pub fn take_blur(&mut self) -> (b: Option<BlurEngine>)
        ensures
            b == old(self).blur,
            final(self).blur is None,
            final(self).bump_a == old(self).bump_a,
            final(self).bump_b == old(self).bump_b,
            final(self).next_tag == old(self).next_tag,
    {
        let mut b: Option<BlurEngine> = None;
        core::mem::swap(&mut b, &mut self.blur);
        b
    }

    /// Stores the blur session back into the cache.
    pub fn put_blur(&mut self, e: BlurEngine)
        ensures
            final(self).blur == Some(e),
            final(self).bump_a == old(self).bump_a,
            final(self).bump_b == old(self).bump_b,
            final(self).next_tag == old(self).next_tag,
    {
        self.blur = Some(e);
    }

    /// Leases a one-line scratch bitmap of the given width from the
    /// second arena; fails exactly when the budget or the width limit
    /// refuses it.
    pub fn image_buff(&mut self, width: i32) -> (r: Result<Bitmap, RenderError>)
        requires
            old(self).wf(),
            0 <= width,
        ensures
            final(self).wf(),
            final(self).bump_a == old(self).bump_a,
            final(self).bump_b.capacity == old(self).bump_b.capacity,
            final(self).next_tag == old(self).next_tag,
            final(self).blur == old(self).blur,
            r matches Ok(_) <==> width <= MAX_DIM && old(self).bump_b.used + 4 * width <= old(
                self,
            ).bump_b.capacity,
            r matches Err(e) ==> e == RenderError::Config && final(self).bump_b == old(
                self,
            ).bump_b,
            r matches Ok(b) ==> b.wf() && b.format == PixelFormat::Rgb565 && b.size == (Offset {
                x: width,
                y: 1,
            }) && final(self).bump_b.used == old(self).bump_b.used + 4 * width,
    {
        if width > MAX_DIM {
            return Err(RenderError::Config);
        }
        match self.bump_b.take((width as usize) * 4) {
            Ok(_) => {
                match Bitmap::new_filled(PixelFormat::Rgb565, Offset::new(width, 1), Color::black(
                )) {
                    Ok(b) => Ok(b),
                    Err(e) => Err(e),
                }
            },
            Err(e) => Err(e),
        }
    }

    /// Leases the streaming image decoder's workspace from the second
    /// arena; fails exactly when the budget refuses it.
    pub fn decoder_workspace(&mut self) -> (r: Result<(), RenderError>)
        requires
            old(self).wf(),
        ensures
            final(self).wf(),
            final(self).bump_a == old(self).bump_a,
            final(self).bump_b.capacity == old(self).bump_b.capacity,
            final(self).next_tag == old(self).next_tag,
            final(self).blur == old(self).blur,
            r matches Ok(_) <==> old(self).bump_b.used + DECODER_WORKSPACE_COST <= old(
                self,
            ).bump_b.capacity,
            r matches Ok(_) ==> final(self).bump_b.used == old(self).bump_b.used
                + DECODER_WORKSPACE_COST,
            r matches Err(e) ==> e == RenderError::Config && final(self).bump_b == old(
                self,
            ).bump_b,
    {
        self.bump_b.take(DECODER_WORKSPACE_COST)
    }

    /// Charges the first arena for one cloned shape; fails exactly when
    /// the budget refuses it.
    pub fn shape_clone_charge(&mut self) -> (r: Result<(), RenderError>)
        requires
            old(self).wf(),
        ensures
            final(self).wf(),
            final(self).bump_b == old(self).bump_b,
            final(self).bump_a.capacity == old(self).bump_a.capacity,
            final(self).next_tag == old(self).next_tag,
            final(self).blur == old(self).blur,
            r matches Ok(_) <==> old(self).bump_a.used + SHAPE_CLONE_COST <= old(
                self,
            ).bump_a.capacity,
            r matches Ok(_) ==> final(self).bump_a.used == old(self).bump_a.used
                + SHAPE_CLONE_COST,
            r matches Err(e) ==> e == RenderError::Config && final(self).bump_a == old(
                self,
            ).bump_a,
    {
        self.bump_a.take(SHAPE_CLONE_COST)
    }

    /// Charges the first arena for a blur window of `rows` rows of
    /// `width` pixels; fails exactly when the budget or the width limit
    /// refuses it.
    pub fn blur_charge(&mut self, rows: usize, width: usize) -> (r: Result<(), RenderError>)
        requires
            old(self).wf(),
            rows <= 64,
            width <= 1024,
        ensures
            final(self).wf(),
            final(self).bump_b == old(self).bump_b,
            final(self).bump_a.capacity == old(self).bump_a.capacity,
            final(self).next_tag == old(self).next_tag,
            final(self).blur == old(self).blur,
            r matches Ok(_) <==> old(self).bump_a.used + rows * width * 4 <= old(
                self,
            ).bump_a.capacity,
            r matches Ok(_) ==> final(self).bump_a.used == old(self).bump_a.used + rows * width
                * 4,
            r matches Err(e) ==> e == RenderError::Config && final(self).bump_a == old(
                self,
            ).bump_a,
    {
        proof {
            assert(rows * width * 4 <= 64 * 1024 * 4) by (nonlinear_arith)
                requires
                    rows <= 64,
                    width <= 1024,
            ;
        }
        self.bump_a.take(rows * width * 4)
    }

    /// Hands out a fresh blur-session tag, distinct from every tag handed
    /// out since the last wrap of the counter.
    pub fn fresh_tag(&mut self) -> (t: u32)
        ensures
            final(self).bump_a == old(self).bump_a,
            final(self).bump_b == old(self).bump_b,
            final(self).blur == old(self).blur,
            t == old(self).next_tag,
            final(self).next_tag == old(self).next_tag + 1 || final(self).next_tag == 1,
    {
        let t = self.next_tag;
        if self.next_tag == u32::MAX {
            self.next_tag = 1;
        } else {
            self.next_tag = self.next_tag + 1;
        }
        t
    }
}

} // verus!
