//! A streaming row-at-a-time smoothing filter with a bounded window.
//!
//! The engine holds at most `2 * radius + 1` rows at a time. Rows are
//! pushed in order; a row can be popped only once every row of its
//! clamped window has been pushed, and rows pop in their original order.
//! A popped row's pixels are the per-channel average of the clamped
//! vertical window around the row.

use vstd::prelude::*;

use crate::bitmap::{bitmap_row, Bitmap};
use crate::color::{
    cell_ok, chan565, lemma_cell_channels_bounded, pack565, spec_pack565, PixelFormat,
};

verus! {

/// The largest blur radius a session may use.
pub const MAX_BLUR_RADIUS: i32 = 16;

/// The first row of the clamped window around row `y`.
pub open spec fn win_lo(y: int, r: int) -> int {
    if y - r >= 0 {
        y - r
    } else {
        0
    }
}

/// One past the last row of the clamped window around row `y` in an
/// image of `h` rows.
pub open spec fn win_hi(y: int, r: int, h: int) -> int {
    if y + r + 1 <= h {
        y + r + 1
    } else {
        h
    }
}

/// Sum of channel `c` of column `x` over rows `[y0, y1)` of `rows`.
pub open spec fn col_sum(rows: Seq<Seq<u32>>, c: int, x: int, y0: int, y1: int) -> int
    decreases y1 - y0,
{
    if y1 <= y0 {
        0
    } else {
        col_sum(rows, c, x, y0, y1 - 1) + chan565(c, rows[y1 - 1][x])
    }
}

/// The blurred value of pixel `(x, y)`: each RGB565 channel averaged
/// over the clamped window of up to `2 * r + 1` rows around `y`.
pub open spec fn blur_pix(rows: Seq<Seq<u32>>, h: int, r: int, x: int, y: int) -> u32 {
    let lo = win_lo(y, r);
    let hi = win_hi(y, r, h);
    let n = hi - lo;
    spec_pack565(
        (col_sum(rows, 0, x, lo, hi) / n) as u32,
        (col_sum(rows, 1, x, lo, hi) / n) as u32,
        (col_sum(rows, 2, x, lo, hi) / n) as u32,
    )
}

/// An averaged channel stays a byte: if `a <= 255 * n` with `n`
/// positive, `a / n <= 255`.
pub proof fn lemma_avg_bound(a: int, n: int)
    requires
        0 <= a,
        0 < n,
        a <= 255 * n,
    ensures
        0 <= a / n <= 255,
{
    assert(a / n <= 255 && a / n >= 0) by (nonlinear_arith)
        requires
            0 <= a,
            0 < n,
            a <= 255 * n,
    ;
}

/// A streaming blur session over one image.
pub struct BlurEngine {
    pub width: i32,
    pub height: i32,
    pub radius: i32,
    /// First row this session will pop.
    pub first: i32,
    /// Number of rows pushed so far (the absolute row index of the next
    /// push).
    pub filled: i32,
    /// Absolute row index of the next pop.
    pub popped: i32,
    /// Session tag, for reuse across the bands of one pass.
    pub tag: u32,
    /// The rows of the window, oldest first.
    pub window: Vec<Vec<u32>>,
    /// Every row pushed so far; entries below `start` are never read.
    pub hist: Ghost<Seq<Seq<u32>>>,
}

impl BlurEngine {
    /// The first row the session ever needs.
    pub open spec fn start(self) -> int {
        win_lo(self.first as int, self.radius as int)
    }

    /// The absolute row held at window index 0.
    pub open spec fn win_base(self) -> int {
        self.filled - self.window@.len()
    }

    pub open spec fn wf(self) -> bool {
        &&& 0 < self.width <= 1024
        &&& 0 < self.height <= 1024
        &&& 1 <= self.radius <= MAX_BLUR_RADIUS
        &&& 0 <= self.first <= self.popped <= self.height
        &&& self.start() <= self.filled <= self.height
        &&& self.hist@.len() == self.filled
        &&& self.win_base() == (if win_lo(self.popped as int, self.radius as int) >= self.start() {
            win_lo(self.popped as int, self.radius as int)
        } else {
            self.start()
        })
        &&& forall|k: int|
            self.start() <= k < self.filled ==> (#[trigger] self.hist@[k]).len() == self.width
        &&& forall|k: int, x: int|
            self.start() <= k < self.filled && 0 <= x < self.width ==> cell_ok(
                PixelFormat::Rgb565,
                #[trigger] self.hist@[k][x],
            )
        &&& forall|k: int|
            0 <= k < self.window@.len() ==> (#[trigger] self.window@[k])@ == self.hist@[
            self.win_base() + k]
    }

    /// True when the next input row may be pushed.
    pub open spec fn spec_push_ready(self) -> bool {
        self.filled < self.height && self.window@.len() < 2 * self.radius + 1
    }

    /// True when the next output row may be popped.
    pub open spec fn spec_pop_ready(self) -> bool {
        self.popped < self.height && (self.filled >= self.height || self.filled > self.popped
            + self.radius)
    }

    /// A fresh session that will pop rows from `first` on; pushing
    /// starts at the first row the clamped filter needs.
    pub fn new(width: i32, height: i32, radius: i32, first: i32, tag: u32) -> (e: BlurEngine)
        requires
            0 < width <= 1024,
            0 < height <= 1024,
            1 <= radius <= MAX_BLUR_RADIUS,
            0 <= first <= height,
        ensures
            e.wf(),
            e.width == width,
            e.height == height,
            e.radius == radius,
            e.first == first,
            e.popped == first,
            e.filled == e.start(),
            e.tag == tag,
    {
        let start = if first - radius >= 0 {
            first - radius
        } else {
            0
        };
        BlurEngine {
            width,
            height,
            radius,
            first,
            filled: start,
            popped: first,
            tag,
            window: Vec::new(),
            hist: Ghost(Seq::new(start as nat, |i: int| Seq::empty())),
        }
    }

    /// The next input row the session is willing to accept, if any.
    pub fn push_ready(&self) -> (r: Option<i32>)
        requires
            self.wf(),
        ensures
            r matches Some(y) ==> y == self.filled && self.spec_push_ready(),
            r is None ==> !self.spec_push_ready(),
    {
        if self.filled < self.height && (self.window.len() as i32) < 2 * self.radius + 1 {
            Some(self.filled)
        } else {
            None
        }
    }

    /// The next output row available for popping, if any.
    pub fn pop_ready(&self) -> (r: Option<i32>)
        requires
            self.wf(),
        ensures
            r matches Some(y) ==> y == self.popped && self.spec_pop_ready(),
            r is None ==> !self.spec_pop_ready(),
    {
        if self.popped < self.height && (self.filled >= self.height || self.filled > self.popped
            + self.radius) {
            Some(self.popped)
        } else {
            None
        }
    }

    /// Accepts the next input row, read from row `src_y` of `row`.
    #[verifier::loop_isolation(false)]
    pub fn push(&mut self, row: &Bitmap, src_y: i32)
        requires
            old(self).wf(),
            old(self).spec_push_ready(),
            row.wf(),
            row.format == PixelFormat::Rgb565,
            row.size.x == old(self).width,
            0 <= src_y < row.size.y,
        ensures
            final(self).wf(),
            final(self).width == old(self).width,
            final(self).height == old(self).height,
            final(self).radius == old(self).radius,
            final(self).first == old(self).first,
            final(self).tag == old(self).tag,
            final(self).popped == old(self).popped,
            final(self).filled == old(self).filled + 1,
            final(self).hist@ == old(self).hist@.push(bitmap_row(*row, src_y as int)),
    {
        let w = self.width;
        let mut v: Vec<u32> = Vec::new();
        let mut x: i32 = 0;
        while x < w
            invariant
                0 <= x <= w,
                v@.len() == x,
                forall|k: int| 0 <= k < x ==> v@[k] == row.pix(k, src_y as int),
            decreases w - x,
        {
            let c = row.get_pix(x, src_y);
            v.push(c);
            x += 1;
        }
        proof {
            assert(v@ =~= bitmap_row(*row, src_y as int));
            self.hist@ = self.hist@.push(v@);
        }
        self.window.push(v);
        self.filled = self.filled + 1;
        proof {
            assert forall|k: int, x: int|
                self.start() <= k < self.filled && 0 <= x < self.width implies cell_ok(
                PixelFormat::Rgb565,
                #[trigger] self.hist@[k][x],
            ) by {
                if k < self.filled - 1 {
                    assert(self.hist@[k] == old(self).hist@[k]);
                    assert(cell_ok(PixelFormat::Rgb565, old(self).hist@[k][x]));
                } else {
                    assert(self.hist@[k] == v@);
                    crate::bitmap::lemma_grid_index(
                        row.size.x as int,
                        row.size.y as int,
                        x,
                        src_y as int,
                    );
                    assert(v@[x] == row.pix(x, src_y as int));
                }
            }
            assert forall|k: int|
                0 <= k < self.window@.len() implies (#[trigger] self.window@[k])@ == self.hist@[
            self.win_base() + k] by {
                if k < self.window@.len() - 1 {
                    assert(old(self).window@[k]@ == old(self).hist@[old(self).win_base() + k]);
                }
            }
        }
    }

    /// Pops the next output row into the one-line bitmap `out`; the
    /// popped row is the blur of the pushed rows around it.
    #[verifier::loop_isolation(false)]
    pub fn pop(&mut self, out: &mut Bitmap)
        requires
            old(self).wf(),
            old(self).spec_pop_ready(),
            old(out).wf(),
            old(out).format == PixelFormat::Rgb565,
            old(out).size.x == old(self).width,
            old(out).size.y == 1,
        ensures
            final(self).wf(),
            final(self).width == old(self).width,
            final(self).height == old(self).height,
            final(self).radius == old(self).radius,
            final(self).first == old(self).first,
            final(self).tag == old(self).tag,
            final(self).filled == old(self).filled,
            final(self).hist == old(self).hist,
            final(self).popped == old(self).popped + 1,
            final(out).wf(),
            final(out).format == PixelFormat::Rgb565,
            final(out).size == old(out).size,
            forall|x: int|
                0 <= x < old(self).width ==> final(out).pix(x, 0) == blur_pix(
                    old(self).hist@,
                    old(self).height as int,
                    old(self).radius as int,
                    x,
                    old(self).popped as int,
                ),
    {
        let y = self.popped;
        let r = self.radius;
        let h = self.height;
        let lo = if y - r >= 0 {
            y - r
        } else {
            0
        };
        let hi = if y + r + 1 <= h {
            y + r + 1
        } else {
            h
        };
        let n = (hi - lo) as u32;
        let base = self.filled - (self.window.len() as i32);
        proof {
            assert(base == self.win_base());
            assert(base == lo);
            assert(hi <= self.filled);
            assert(1 <= n <= 2 * r + 1);
        }
        let w = self.width;
        let ghost hist = self.hist@;
        let mut x: i32 = 0;
        while x < w
            invariant
                0 <= x <= w,
                out.wf(),
                out.format == PixelFormat::Rgb565,
                out.size == old(out).size,
                forall|k: int|
                    0 <= k < x ==> #[trigger] out.pix(k, 0) == blur_pix(
                        hist,
                        h as int,
                        r as int,
                        k,
                        y as int,
                    ),
            decreases w - x,
        {
            let mut rs: u32 = 0;
            let mut gs: u32 = 0;
            let mut bs: u32 = 0;
            let mut yy: i32 = lo;
            while yy < hi
                invariant
                    lo <= yy <= hi,
                    0 <= x < w,
                    rs == col_sum(hist, 0, x as int, lo as int, yy as int),
                    gs == col_sum(hist, 1, x as int, lo as int, yy as int),
                    bs == col_sum(hist, 2, x as int, lo as int, yy as int),
                    rs <= 255 * (yy - lo),
                    gs <= 255 * (yy - lo),
                    bs <= 255 * (yy - lo),
                decreases hi - yy,
            {
                let wi = (yy - base) as usize;
                proof {
                    assert(self.window@[wi as int]@ == hist[yy as int]);
                    assert(self.start() <= yy < self.filled);
                    assert(cell_ok(PixelFormat::Rgb565, hist[yy as int][x as int]));
                    lemma_cell_channels_bounded(hist[yy as int][x as int]);
                }
                let rowv = &self.window[wi];
                let cell = rowv[x as usize];
                rs = rs + (((cell >> 11) & 0x1f) << 3);
                gs = gs + (((cell >> 5) & 0x3f) << 2);
                bs = bs + ((cell & 0x1f) << 3);
                yy += 1;
            }
            proof {
                lemma_avg_bound(rs as int, n as int);
                lemma_avg_bound(gs as int, n as int);
                lemma_avg_bound(bs as int, n as int);
            }
            let cell = pack565(rs / n, gs / n, bs / n);
            out.set_pix(x, 0, cell);
            x += 1;
        }
        self.popped = y + 1;
        let mut tgt = if self.popped - self.radius >= 0 {
            self.popped - self.radius
        } else {
            0
        };
        let start = if self.first - self.radius >= 0 {
            self.first - self.radius
        } else {
            0
        };
        if tgt < start {
            tgt = start;
        }
        if base < tgt {
            let _ = self.window.remove(0);
            proof {
                assert forall|k: int|
                    0 <= k < self.window@.len() implies (#[trigger] self.window@[k])@
                    == self.hist@[self.win_base() + k] by {
                    assert(old(self).window@[k + 1]@ == old(self).hist@[old(self).win_base() + k
                        + 1]);
                }
            }
        }
    }
}

/// A channel sum reads only the rows it spans.
pub proof fn lemma_col_sum_congruence(
    a: Seq<Seq<u32>>,
    b: Seq<Seq<u32>>,
    c: int,
    x: int,
    y0: int,
    y1: int,
)
    requires
        forall|k: int| y0 <= k < y1 ==> a[k] == b[k],
    ensures
        col_sum(a, c, x, y0, y1) == col_sum(b, c, x, y0, y1),
    decreases y1 - y0,
{
    if y1 > y0 {
        lemma_col_sum_congruence(a, b, c, x, y0, y1 - 1);
    }
}

/// A blurred pixel reads only the rows of its clamped window.
pub proof fn lemma_blur_pix_congruence(
    a: Seq<Seq<u32>>,
    b: Seq<Seq<u32>>,
    h: int,
    r: int,
    x: int,
    y: int,
)
    requires
        forall|k: int| win_lo(y, r) <= k < win_hi(y, r, h) ==> a[k] == b[k],
    ensures
        blur_pix(a, h, r, x, y) == blur_pix(b, h, r, x, y),
{
    lemma_col_sum_congruence(a, b, 0, x, win_lo(y, r), win_hi(y, r, h));
    lemma_col_sum_congruence(a, b, 1, x, win_lo(y, r), win_hi(y, r, h));
    lemma_col_sum_congruence(a, b, 2, x, win_lo(y, r), win_hi(y, r, h));
}

/// Once every row of an image has been pushed, a row is ready to pop
/// exactly while some row has not been popped yet; together with the pop
/// contract, a drained session yields one output row per image row, in
/// original order.
pub proof fn lemma_blur_drains(e: BlurEngine)
    requires
        e.wf(),
        e.filled == e.height,
    ensures
        e.spec_pop_ready() <==> e.popped < e.height,
{
}

} // verus!
