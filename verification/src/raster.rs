//! Row-major ARGB frame buffers: pixel addressing and the primitive fills used by the HUD.
use vstd::prelude::*;
use crate::pixel::blend_spec;

verus! {

/// The pixel at column `x`, row `y` of a row-major buffer whose rows are `w` wide.
pub open spec fn pix(s: Seq<u32>, w: int, x: int, y: int) -> u32 {
    s[y * w + x]
}

/// `(x, y)` lies on a `w` by `h` grid.
pub open spec fn in_grid(w: int, h: int, x: int, y: int) -> bool {
    0 <= x < w && 0 <= y < h
}

/// The buffer holds at least a full `w` by `h` grid.
pub open spec fn holds_grid(s: Seq<u32>, w: int, h: int) -> bool {
    w * h <= s.len()
}

/// `b` has the length of `a` and agrees with it on every cell past the `w` by `h` grid.
pub open spec fn same_outside_grid(a: Seq<u32>, b: Seq<u32>, w: int, h: int) -> bool {
    &&& a.len() == b.len()
    &&& forall|i: int| w * h <= i < a.len() ==> #[trigger] b[i] == a[i]
}

/// `(x, y)` lies in the half-open rectangle starting at `(rx, ry)` of size `rw` by `rh`.
pub open spec fn in_rect(x: int, y: int, rx: int, ry: int, rw: int, rh: int) -> bool {
    rx <= x < rx + rw && ry <= y < ry + rh
}

/// The cell of `(x, y)` lies inside the grid.
pub proof fn lemma_grid_index(w: int, h: int, x: int, y: int)
    requires
        in_grid(w, h, x, y),
    ensures
        0 <= y * w <= y * w + x < w * h,
{
    assert(0 <= y * w) by (nonlinear_arith)
        requires
            0 <= y,
            0 <= w,
    ;
    assert(y * w + x < w * h) by (nonlinear_arith)
        requires
            0 <= x < w,
            0 <= y < h,
    ;
}

/// Distinct grid coordinates address distinct cells.
pub proof fn lemma_grid_injective(w: int, x1: int, y1: int, x2: int, y2: int)
    requires
        0 <= x1 < w,
        0 <= x2 < w,
        0 <= y1,
        0 <= y2,
        y1 * w + x1 == y2 * w + x2,
    ensures
        x1 == x2,
        y1 == y2,
{
    if y1 < y2 {
        assert(y1 * w + w <= y2 * w) by (nonlinear_arith)
            requires
                y1 < y2,
                0 <= w,
        ;
    } else if y2 < y1 {
        assert(y2 * w + w <= y1 * w) by (nonlinear_arith)
            requires
                y2 < y1,
                0 <= w,
        ;
    }
}

/// Reads the pixel at `(x, y)`.
pub(crate) fn read_pixel(buffer: &[u32], width: usize, height: usize, x: usize, y: usize) -> (r: u32)
    requires
        holds_grid(buffer@, width as int, height as int),
        in_grid(width as int, height as int, x as int, y as int),
    ensures
        r == pix(buffer@, width as int, x as int, y as int),
{
    let n = buffer.len();
    proof {
        lemma_grid_index(width as int, height as int, x as int, y as int);
    }
    buffer[y * width + x]
}

/// Writes `color` at `(x, y)`, leaving every other cell as it was.
pub(crate) fn write_pixel(buffer: &mut [u32], width: usize, height: usize, x: usize, y: usize, color: u32)
    requires
        holds_grid(old(buffer)@, width as int, height as int),
        in_grid(width as int, height as int, x as int, y as int),
    ensures
        same_outside_grid(old(buffer)@, final(buffer)@, width as int, height as int),
        forall|px: int, py: int|
            in_grid(width as int, height as int, px, py) ==> #[trigger] pix(final(buffer)@, width as int, px, py)
                == if px == x && py == y {
                color
            } else {
                pix(old(buffer)@, width as int, px, py)
            },
{
    let n = buffer.len();
    proof {
        lemma_grid_index(width as int, height as int, x as int, y as int);
    }
    buffer[y * width + x] = color;
    proof {
        assert forall|px: int, py: int|
            in_grid(width as int, height as int, px, py) implies #[trigger] pix(buffer@, width as int, px, py)
                == if px == x && py == y {
                color
            } else {
                pix(old(buffer)@, width as int, px, py)
            } by {
            lemma_grid_index(width as int, height as int, px, py);
            if py * width + px == y * width + x {
                lemma_grid_injective(width as int, px, py, x as int, y as int);
            }
        }
    }
}

} // verus!
