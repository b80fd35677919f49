//! Row-major pixel buffers and read views over them.

use vstd::prelude::*;

use crate::color::{cell_ok, encode, spec_encode, Color, PixelFormat};
use crate::error::RenderError;
use crate::geometry::Offset;

verus! {

/// The largest width or height any buffer of the engine may have.
pub const MAX_DIM: i32 = 1024;

/// True of a buffer size the engine is willing to allocate.
pub open spec fn dim_ok(size: Offset) -> bool {
    0 <= size.x <= MAX_DIM && 0 <= size.y <= MAX_DIM
}

/// A pixel with both coordinates on a bounded grid has a unique row-major
/// index, and that index is in bounds.
pub proof fn lemma_grid_index(w: int, h: int, x: int, y: int)
    requires
        0 <= x < w,
        0 <= y < h,
        w <= 1024,
        h <= 1024,
    ensures
        0 <= y * w + x < w * h,
        w * h <= 1048576,
{
    assert(y * w + x < w * h && w * h <= 1048576) by (nonlinear_arith)
        requires
            0 <= x < w,
            0 <= y < h,
            w <= 1024,
            h <= 1024,
    ;
}

/// A row-major index on a bounded grid decomposes into a unique row and
/// column.
pub proof fn lemma_grid_decompose(w: int, h: int, i: int)
    requires
        0 < w,
        0 <= i < w * h,
    ensures
        0 <= i % w < w,
        0 <= i / w < h,
        i == (i / w) * w + (i % w),
{
    vstd::arithmetic::div_mod::lemma_fundamental_div_mod(i, w);
    vstd::arithmetic::div_mod::lemma_mod_bound(i, w);
    assert((i / w) * w == w * (i / w)) by (nonlinear_arith);
    assert(i / w < h) by (nonlinear_arith)
        requires
            0 < w,
            i < w * h,
            i == w * (i / w) + (i % w),
            0 <= i % w < w,
    ;
    assert(i / w >= 0) by (nonlinear_arith)
        requires
            0 < w,
            i >= 0,
            i == w * (i / w) + (i % w),
            0 <= i % w < w,
    ;
}

/// Distinct pixels of one row-major grid have distinct indices.
pub proof fn lemma_grid_distinct(w: int, x1: int, y1: int, x2: int, y2: int)
    requires
        0 <= x1 < w,
        0 <= x2 < w,
        x1 != x2 || y1 != y2,
    ensures
        y1 * w + x1 != y2 * w + x2,
{
    assert(y1 * w + x1 != y2 * w + x2) by (nonlinear_arith)
        requires
            0 <= x1 < w,
            0 <= x2 < w,
            x1 != x2 || y1 != y2,
    ;
}

/// An owned row-major pixel buffer of one format.
pub struct Bitmap {
    pub format: PixelFormat,
    pub size: Offset,
    pub cells: Vec<u32>,
}

impl Bitmap {
    pub open spec fn wf(self) -> bool {
        dim_ok(self.size) && self.cells@.len() == self.size.x * self.size.y && forall|i: int|
            0 <= i < self.cells@.len() ==> cell_ok(self.format, #[trigger] self.cells@[i])
    }

    /// The cell of the pixel at column `x`, row `y`.
    pub open spec fn pix(self, x: int, y: int) -> u32 {
        self.cells@[y * self.size.x + x]
    }

    /// A fresh buffer with every pixel set to `fill`; refused when the
    /// size is outside the engine's limits.
    pub fn new_filled(format: PixelFormat, size: Offset, fill: Color) -> (r: Result<
        Bitmap,
        RenderError,
    >)
        ensures
            dim_ok(size) ==> matches!(r, Ok(_)),
            !dim_ok(size) ==> r == Result::<Bitmap, RenderError>::Err(RenderError::Config),
            r matches Ok(b) ==> b.wf() && b.format == format && b.size == size && forall|
                x: int,
                y: int,
            |
                0 <= x < size.x && 0 <= y < size.y ==> b.pix(x, y) == spec_encode(format, fill),
    {
        if !(0 <= size.x && size.x <= MAX_DIM && 0 <= size.y && size.y <= MAX_DIM) {
            return Err(RenderError::Config);
        }
        let cell = encode(format, fill);
        let w = size.x as usize;
        let h = size.y as usize;
        proof {
            if size.x > 0 && size.y > 0 {
                lemma_grid_index(size.x as int, size.y as int, 0, (size.y - 1) as int);
            }
            assert(size.x * size.y <= 1048576) by (nonlinear_arith)
                requires
                    0 <= size.x <= 1024,
                    0 <= size.y <= 1024,
            ;
        }
        let n = w * h;
        let mut cells: Vec<u32> = Vec::new();
        let mut i: usize = 0;
        while i < n
            invariant
                i <= n,
                n == size.x * size.y,
                cells@.len() == i,
                cell_ok(format, cell),
                cell == spec_encode(format, fill),
                forall|k: int| 0 <= k < i ==> cells@[k] == cell,
            decreases n - i,
        {
            cells.push(cell);
            i += 1;
        }
        let b = Bitmap { format, size, cells };
        proof {
            assert forall|x: int, y: int|
                0 <= x < size.x && 0 <= y < size.y implies b.pix(x, y) == spec_encode(
                format,
                fill,
            ) by {
                lemma_grid_index(size.x as int, size.y as int, x, y);
            }
        }
        Ok(b)
    }

    pub fn width(&self) -> (w: i32)
        requires
            self.wf(),
        ensures
            w == self.size.x,
    {
        self.size.x
    }

    pub fn height(&self) -> (h: i32)
        requires
            self.wf(),
        ensures
            h == self.size.y,
    {
        self.size.y
    }

    pub fn get_pix(&self, x: i32, y: i32) -> (c: u32)
        requires
            self.wf(),
            0 <= x < self.size.x,
            0 <= y < self.size.y,
        ensures
            c == self.pix(x as int, y as int),
            cell_ok(self.format, c),
    {
        proof {
            lemma_grid_index(self.size.x as int, self.size.y as int, x as int, y as int);
        }
        self.cells[(y as usize) * (self.size.x as usize) + (x as usize)]
    }

    pub fn set_pix(&mut self, x: i32, y: i32, cell: u32)
        requires
            old(self).wf(),
            0 <= x < old(self).size.x,
            0 <= y < old(self).size.y,
            cell_ok(old(self).format, cell),
        ensures
            final(self).wf(),
            final(self).format == old(self).format,
            final(self).size == old(self).size,
            forall|xx: int, yy: int|
                0 <= xx < final(self).size.x && 0 <= yy < final(self).size.y ==> final(self).pix(
                    xx,
                    yy,
                ) == (if xx == x && yy == y {
                    cell
                } else {
                    old(self).pix(xx, yy)
                }),
    {
        proof {
            lemma_grid_index(self.size.x as int, self.size.y as int, x as int, y as int);
        }
        let idx = (y as usize) * (self.size.x as usize) + (x as usize);
        self.cells[idx] = cell;
        proof {
            assert forall|xx: int, yy: int|
                0 <= xx < self.size.x && 0 <= yy < self.size.y && !(xx == x && yy == y) implies
                self.pix(xx, yy) == old(self).pix(xx, yy) by {
                lemma_grid_index(self.size.x as int, self.size.y as int, xx, yy);
                lemma_grid_distinct(self.size.x as int, xx, yy, x as int, y as int);
            }
        }
    }
}

/// The cells of row `y` of a bitmap, left to right.
pub open spec fn bitmap_row(b: Bitmap, y: int) -> Seq<u32> {
    Seq::new(b.size.x as nat, |x: int| b.pix(x, y))
}

/// A non-owning read view over a bitmap together with the foreground
/// color that colorizes grayscale sources.
pub struct BitmapView<'a> {
    pub bitmap: &'a Bitmap,
    pub fg: Color,
}

impl<'a> BitmapView<'a> {
    pub fn new(bitmap: &'a Bitmap, fg: Color) -> (r: BitmapView<'a>)
        ensures
            r.bitmap == bitmap,
            r.fg == fg,
    {
        BitmapView { bitmap, fg }
    }
}

} // verus!
