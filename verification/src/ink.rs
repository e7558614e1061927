//! Whiteboard ink: filled disks stamped along Bresenham lines.
use vstd::prelude::*;
use crate::raster::{pix, in_grid, holds_grid, same_outside_grid, write_pixel};

verus! {

/// `(px, py)` lies in the disk of radius `r` around `(cx, cy)` (empty for a negative radius).
pub open spec fn in_disk(px: int, py: int, cx: int, cy: int, r: int) -> bool {
    r >= 0 && (px - cx) * (px - cx) + (py - cy) * (py - cy) <= r * r
}

/// A stamp of radius `r` at `(cx, cy)` whose arithmetic fits `isize`: twice the squared radius (the largest
/// squared distance it compares) and every coordinate it visits. A negative radius stamps nothing.
pub open spec fn disk_fits(cx: int, cy: int, r: int) -> bool {
    r < 0 || {
        &&& 2 * r * r <= isize::MAX
        &&& isize::MIN <= cx - r
        &&& cx + r <= isize::MAX
        &&& isize::MIN <= cy - r
        &&& cy + r <= isize::MAX
    }
}

/// A radius whose doubled square fits `isize` is below `isize::MAX`, and so is every square of a
/// distance within it.
pub(crate) proof fn lemma_radius_room(r: int, d: int, e: int)
    requires
        0 <= r,
        2 * r * r <= isize::MAX,
        -r <= d <= r,
        -r <= e <= r,
    ensures
        r < isize::MAX,
        r * r <= isize::MAX,
        0 <= d * d <= r * r,
        0 <= e * e <= r * r,
        d * d + e * e <= isize::MAX,
{
    let m: int = isize::MAX as int;
    assert(r < m) by (nonlinear_arith)
        requires
            0 <= r,
            2 * r * r <= m,
            m > 1,
    ;
    assert(2 * r * r == 2 * (r * r)) by (nonlinear_arith);
    assert(0 <= d * d <= r * r && 0 <= e * e <= r * r) by (nonlinear_arith)
        requires
            -r <= d <= r,
            -r <= e <= r,
    ;
}

/// Points of a disk lie within `r` of its centre on both axes.
proof fn lemma_disk_bounds(px: int, py: int, cx: int, cy: int, r: int)
    requires
        in_disk(px, py, cx, cy, r),
    ensures
        -r <= px - cx <= r,
        -r <= py - cy <= r,
{
    let ex = px - cx;
    let ey = py - cy;
    assert(-r <= ex <= r && -r <= ey <= r) by (nonlinear_arith)
        requires
            ex * ex + ey * ey <= r * r,
            r >= 0,
    ;
}

/// Fills the disk of radius `r` around `(cx, cy)` with `color`, clipped to the screen.
pub fn draw_disk(buffer: &mut [u32], width: usize, height: usize, cx: isize, cy: isize, r: isize, color: u32)
    requires
        holds_grid(old(buffer)@, width as int, height as int),
        width <= isize::MAX,
        height <= isize::MAX,
        disk_fits(cx as int, cy as int, r as int),
    ensures
        same_outside_grid(old(buffer)@, final(buffer)@, width as int, height as int),
        forall|px: int, py: int|
            in_grid(width as int, height as int, px, py) ==> #[trigger] pix(final(buffer)@, width as int, px, py)
                == if in_disk(px, py, cx as int, cy as int, r as int) {
                color
            } else {
                pix(old(buffer)@, width as int, px, py)
            },
{
    if r < 0 {
        return;
    }
    proof {
        lemma_radius_room(r as int, 0, 0);
    }
    let r_sq = r * r;
    let mut dy = -r;
    proof {
        assert forall|qx: int, qy: int| in_disk(qx, qy, cx as int, cy as int, r as int) implies -r <= qy - cy by {
            lemma_disk_bounds(qx, qy, cx as int, cy as int, r as int);
        }
    }
    while dy <= r
        invariant
            holds_grid(old(buffer)@, width as int, height as int),
            same_outside_grid(old(buffer)@, buffer@, width as int, height as int),
            width <= isize::MAX,
            height <= isize::MAX,
            disk_fits(cx as int, cy as int, r as int),
            0 <= r < isize::MAX,
            r_sq == r * r,
            -r <= dy <= r + 1,
            forall|px: int, py: int|
                in_grid(width as int, height as int, px, py) ==> #[trigger] pix(buffer@, width as int, px, py)
                    == if in_disk(px, py, cx as int, cy as int, r as int) && py - cy < dy {
                    color
                } else {
                    pix(old(buffer)@, width as int, px, py)
                },
        decreases r + 1 - dy,
    {
        let py = cy + dy;
        if py >= 0 && py < height as isize {
            let mut dx = -r;
            proof {
                assert forall|qx: int, qy: int| in_disk(qx, qy, cx as int, cy as int, r as int) implies -r <= qx - cx by {
                    lemma_disk_bounds(qx, qy, cx as int, cy as int, r as int);
                }
            }
            while dx <= r
                invariant
                    holds_grid(old(buffer)@, width as int, height as int),
                    same_outside_grid(old(buffer)@, buffer@, width as int, height as int),
                    width <= isize::MAX,
                    height <= isize::MAX,
                    disk_fits(cx as int, cy as int, r as int),
                    0 <= r < isize::MAX,
                    r_sq == r * r,
                    -r <= dy <= r,
                    py == cy + dy,
                    0 <= py < height,
                    -r <= dx <= r + 1,
                    forall|px: int, qy: int|
                        in_grid(width as int, height as int, px, qy) ==> #[trigger] pix(buffer@, width as int, px, qy)
                            == if in_disk(px, qy, cx as int, cy as int, r as int) && (qy - cy < dy || (qy - cy == dy && px - cx < dx)) {
                            color
                        } else {
                            pix(old(buffer)@, width as int, px, qy)
                        },
                decreases r + 1 - dx,
            {
                proof {
                    lemma_radius_room(r as int, dx as int, dy as int);
                }
                if dx * dx + dy * dy <= r_sq {
                    let px = cx + dx;
                    if px >= 0 && px < width as isize {
                        write_pixel(buffer, width, height, px as usize, py as usize, color);
                    }
                }
                dx += 1;
            }
            proof {
                assert forall|qx: int, qy: int| in_disk(qx, qy, cx as int, cy as int, r as int) implies qx - cx <= r by {
                    lemma_disk_bounds(qx, qy, cx as int, cy as int, r as int);
                }
            }
        }
        dy += 1;
    }
    proof {
        assert forall|qx: int, qy: int| in_disk(qx, qy, cx as int, cy as int, r as int) implies qy - cy <= r by {
            lemma_disk_bounds(qx, qy, cx as int, cy as int, r as int);
        }
    }
}

/// Absolute value.
pub open spec fn abs(v: int) -> int {
    if v < 0 { -v } else { v }
}

/// One step of the integer line walk from `(x0, y0)` towards `(x1, y1)`: the state is position and error term.
pub open spec fn line_step(x0: int, y0: int, x1: int, y1: int, st: (int, int, int)) -> (int, int, int) {
    let a = abs(x1 - x0);
    let b = abs(y1 - y0);
    let sx: int = if x0 < x1 { 1 } else { -1 };
    let sy: int = if y0 < y1 { 1 } else { -1 };
    let e2 = 2 * st.2;
    let (x, err1) = if e2 >= -b { (st.0 + sx, st.2 - b) } else { (st.0, st.2) };
    let (y, err2) = if e2 <= a { (st.1 + sy, err1 + a) } else { (st.1, err1) };
    (x, y, err2)
}

/// The walk state after `k` steps.
pub open spec fn line_walk(x0: int, y0: int, x1: int, y1: int, k: nat) -> (int, int, int)
    decreases k,
{
    if k == 0 {
        (x0, y0, abs(x1 - x0) - abs(y1 - y0))
    } else {
        line_step(x0, y0, x1, y1, line_walk(x0, y0, x1, y1, (k - 1) as nat))
    }
}

/// The walk reaches its `k`-th point: it has not stopped at `(x1, y1)` before.
pub open spec fn line_visits(x0: int, y0: int, x1: int, y1: int, k: nat) -> bool {
    forall|j: nat| j < k ==> #[trigger] line_walk(x0, y0, x1, y1, j).0 != x1 || line_walk(x0, y0, x1, y1, j).1 != y1
}

/// `(px, py)` is covered by a thick line of radius `r` from `(x0, y0)` to `(x1, y1)`: it lies in the disk around
/// one of the points the walk visits.
pub open spec fn on_thick_line(x0: int, y0: int, x1: int, y1: int, r: int, px: int, py: int) -> bool {
    exists|k: nat|
        #[trigger] line_visits(x0, y0, x1, y1, k) && in_disk(
            px,
            py,
            line_walk(x0, y0, x1, y1, k).0,
            line_walk(x0, y0, x1, y1, k).1,
            r,
        )
}

/// The walk keeps a bounded error, never moves past the target on either axis and always moves.
proof fn lemma_line_progress(a: int, b: int, ex: int, ey: int, err: int)
    requires
        0 <= ex <= a,
        0 <= ey <= b,
        !(ex == a && ey == b),
        err == a - b + a * ey - b * ex,
        -a - 2 * b <= 2 * err - a + b <= 2 * a + b,
    ensures
        2 * err >= -b || 2 * err <= a,
        2 * err >= -b ==> ex < a,
        2 * err <= a ==> ey < b,
        ({
            let e1 = if 2 * err >= -b { err - b } else { err };
            let e2 = if 2 * err <= a { e1 + a } else { e1 };
            let nx = if 2 * err >= -b { ex + 1 } else { ex };
            let ny = if 2 * err <= a { ey + 1 } else { ey };
            &&& e2 == a - b + a * ny - b * nx
            &&& -a - 2 * b <= 2 * e2 - a + b <= 2 * a + b
        }),
{
    if ex == a {
        assert(b * ex == a * b) by (nonlinear_arith)
            requires
                ex == a,
        ;
        assert(a * ey <= a * (b - 1)) by (nonlinear_arith)
            requires
                ey < b,
                0 <= a,
        ;
        assert(a * (b - 1) == a * b - a) by (nonlinear_arith);
    }
    if ey == b {
        assert(a * ey == a * b) by (nonlinear_arith)
            requires
                ey == b,
        ;
        assert(b * ex <= b * (a - 1)) by (nonlinear_arith)
            requires
                ex < a,
                0 <= b,
        ;
        assert(b * (a - 1) == a * b - b) by (nonlinear_arith);
    }
    assert(a * (ey + 1) == a * ey + a) by (nonlinear_arith);
    assert(b * (ex + 1) == b * ex + b) by (nonlinear_arith);
}

/// A thick line whose arithmetic fits `isize`: the stamps at both ends fit (and so, the walk staying between
/// them, every stamp on the way), and three times each axis distance fits, the room the doubled error term
/// of the walk needs.
pub open spec fn line_fits(x0: int, y0: int, x1: int, y1: int, r: int) -> bool {
    &&& disk_fits(x0, y0, r)
    &&& disk_fits(x1, y1, r)
    &&& 3 * abs(x1 - x0) <= isize::MAX
    &&& 3 * abs(y1 - y0) <= isize::MAX
}

/// Stamps disks of radius `radius` along the integer line from `(x0, y0)` to `(x1, y1)`.
fn draw_thick_line(
    buffer: &mut [u32],
    width: usize,
    height: usize,
    x0: isize,
    y0: isize,
    x1: isize,
    y1: isize,
    radius: isize,
    color: u32,
)
    requires
        holds_grid(old(buffer)@, width as int, height as int),
        width <= isize::MAX,
        height <= isize::MAX,
        0 <= x0,
        0 <= y0,
        0 <= x1,
        0 <= y1,
        line_fits(x0 as int, y0 as int, x1 as int, y1 as int, radius as int),
    ensures
        same_outside_grid(old(buffer)@, final(buffer)@, width as int, height as int),
        forall|px: int, py: int|
            in_grid(width as int, height as int, px, py) ==> #[trigger] pix(final(buffer)@, width as int, px, py)
                == if on_thick_line(x0 as int, y0 as int, x1 as int, y1 as int, radius as int, px, py) {
                color
            } else {
                pix(old(buffer)@, width as int, px, py)
            },
{
    let dx = if x1 >= x0 { x1 - x0 } else { x0 - x1 };
    let dy = -(if y1 >= y0 { y1 - y0 } else { y0 - y1 });
    let sx: isize = if x0 < x1 { 1 } else { -1 };
    let sy: isize = if y0 < y1 { 1 } else { -1 };
    let mut err = dx + dy;
    let mut x = x0;
    let mut y = y0;
    let ghost a = dx as int;
    let ghost b = -dy as int;
    let ghost mut ex: int = 0;
    let ghost mut ey: int = 0;
    let ghost mut k: nat = 0;
    let mut done = false;
    while !done
        invariant
            holds_grid(old(buffer)@, width as int, height as int),
            same_outside_grid(old(buffer)@, buffer@, width as int, height as int),
            width <= isize::MAX,
            height <= isize::MAX,
            0 <= x0,
            0 <= y0,
            0 <= x1,
            0 <= y1,
            line_fits(x0 as int, y0 as int, x1 as int, y1 as int, radius as int),
            a == abs(x1 - x0),
            b == abs(y1 - y0),
            dx == a,
            dy == -b,
            sx == if x0 < x1 { 1int } else { -1int },
            sy == if y0 < y1 { 1int } else { -1int },
            0 <= ex <= a,
            0 <= ey <= b,
            if x0 < x1 { x == x0 + ex } else { x == x0 - ex },
            if y0 < y1 { y == y0 + ey } else { y == y0 - ey },
            err == a - b + a * ey - b * ex,
            -a - 2 * b <= 2 * err - a + b <= 2 * a + b,
            (x as int, y as int, err as int) == line_walk(x0 as int, y0 as int, x1 as int, y1 as int, k),
            line_visits(x0 as int, y0 as int, x1 as int, y1 as int, k),
            done ==> x == x1 && y == y1,
            forall|px: int, py: int|
                in_grid(width as int, height as int, px, py) ==> #[trigger] pix(buffer@, width as int, px, py)
                    == if exists|j: nat|
                    j < k + if done { 1int } else { 0int } && #[trigger] line_visits(x0 as int, y0 as int, x1 as int, y1 as int, j)
                        && in_disk(px, py, line_walk(x0 as int, y0 as int, x1 as int, y1 as int, j).0,
                        line_walk(x0 as int, y0 as int, x1 as int, y1 as int, j).1, radius as int) {
                    color
                } else {
                    pix(old(buffer)@, width as int, px, py)
                },
        decreases (a - ex) + (b - ey) + if done { 0int } else { 1int },
    {
        let ghost before = buffer@;
        draw_disk(buffer, width, height, x, y, radius, color);
        if x == x1 && y == y1 {
            done = true;
            proof {
                assert forall|px: int, py: int|
                    in_grid(width as int, height as int, px, py) implies #[trigger] pix(buffer@, width as int, px, py)
                        == if exists|j: nat|
                        j < k + 1 && #[trigger] line_visits(x0 as int, y0 as int, x1 as int, y1 as int, j)
                            && in_disk(px, py, line_walk(x0 as int, y0 as int, x1 as int, y1 as int, j).0,
                            line_walk(x0 as int, y0 as int, x1 as int, y1 as int, j).1, radius as int) {
                        color
                    } else {
                        pix(old(buffer)@, width as int, px, py)
                    } by {
                    assert(pix(before, width as int, px, py) == if exists|j: nat|
                        j < k && #[trigger] line_visits(x0 as int, y0 as int, x1 as int, y1 as int, j)
                            && in_disk(px, py, line_walk(x0 as int, y0 as int, x1 as int, y1 as int, j).0,
                            line_walk(x0 as int, y0 as int, x1 as int, y1 as int, j).1, radius as int) {
                        color
                    } else {
                        pix(old(buffer)@, width as int, px, py)
                    });
                    if in_disk(px, py, x as int, y as int, radius as int) {
                        assert(line_visits(x0 as int, y0 as int, x1 as int, y1 as int, k));
                    }
                }
            }
        } else {
            proof {
                lemma_line_progress(a, b, ex, ey, err as int);
            }
            let e2 = 2 * err;
            let ghost old_k = k;
            if e2 >= dy {
                err = err + dy;
                x = x + sx;
                proof {
                    ex = ex + 1;
                }
            }
            if e2 <= dx {
                err = err + dx;
                y = y + sy;
                proof {
                    ey = ey + 1;
                }
            }
            proof {
                k = k + 1;
                assert(line_walk(x0 as int, y0 as int, x1 as int, y1 as int, k) == line_step(
                    x0 as int, y0 as int, x1 as int, y1 as int,
                    line_walk(x0 as int, y0 as int, x1 as int, y1 as int, old_k),
                ));
                assert forall|j: nat| j < k implies #[trigger] line_walk(x0 as int, y0 as int, x1 as int, y1 as int, j).0 != x1
                    || line_walk(x0 as int, y0 as int, x1 as int, y1 as int, j).1 != y1 by {
                    if j < old_k {
                        assert(line_visits(x0 as int, y0 as int, x1 as int, y1 as int, old_k));
                    }
                }
                assert forall|px: int, py: int|
                    in_grid(width as int, height as int, px, py) implies #[trigger] pix(buffer@, width as int, px, py)
                        == if exists|j: nat|
                        j < k && #[trigger] line_visits(x0 as int, y0 as int, x1 as int, y1 as int, j)
                            && in_disk(px, py, line_walk(x0 as int, y0 as int, x1 as int, y1 as int, j).0,
                            line_walk(x0 as int, y0 as int, x1 as int, y1 as int, j).1, radius as int) {
                        color
                    } else {
                        pix(old(buffer)@, width as int, px, py)
                    } by {
                    assert(pix(before, width as int, px, py) == if exists|j: nat|
                        j < old_k && #[trigger] line_visits(x0 as int, y0 as int, x1 as int, y1 as int, j)
                            && in_disk(px, py, line_walk(x0 as int, y0 as int, x1 as int, y1 as int, j).0,
                            line_walk(x0 as int, y0 as int, x1 as int, y1 as int, j).1, radius as int) {
                        color
                    } else {
                        pix(old(buffer)@, width as int, px, py)
                    });
                    if in_disk(px, py, line_walk(x0 as int, y0 as int, x1 as int, y1 as int, old_k).0,
                        line_walk(x0 as int, y0 as int, x1 as int, y1 as int, old_k).1, radius as int) {
                        assert(line_visits(x0 as int, y0 as int, x1 as int, y1 as int, old_k));
                    }
                }
            }
        }
    }
    proof {
        assert forall|px: int, py: int|
            in_grid(width as int, height as int, px, py) implies #[trigger] pix(buffer@, width as int, px, py)
                == if on_thick_line(x0 as int, y0 as int, x1 as int, y1 as int, radius as int, px, py) {
                color
            } else {
                pix(old(buffer)@, width as int, px, py)
            } by {
            if on_thick_line(x0 as int, y0 as int, x1 as int, y1 as int, radius as int, px, py) {
                let j = choose|j: nat| #[trigger] line_visits(x0 as int, y0 as int, x1 as int, y1 as int, j) && in_disk(
                    px, py, line_walk(x0 as int, y0 as int, x1 as int, y1 as int, j).0,
                    line_walk(x0 as int, y0 as int, x1 as int, y1 as int, j).1, radius as int);
                if j > k {
                    assert(line_walk(x0 as int, y0 as int, x1 as int, y1 as int, k).0 != x1
                        || line_walk(x0 as int, y0 as int, x1 as int, y1 as int, k).1 != y1);
                }
            }
        }
    }
}

/// A freehand whiteboard stroke: its points in screen pixels, colour and pen width.
#[derive(Debug, Clone)]
pub struct InkStroke {
    pub points: Vec<(usize, usize)>,
    pub color: u32,
    pub width: usize,
}

/// The pen radius of a stroke: half its width, at least 1.
pub open spec fn pen_radius(stroke: InkStroke) -> int {
    if stroke.width / 2 >= 1 { (stroke.width / 2) as int } else { 1 }
}

/// `(px, py)` is covered by `stroke`: a single point is a dot, longer strokes are thick lines between
/// consecutive points.
pub open spec fn stroke_covers(stroke: InkStroke, px: int, py: int) -> bool {
    let p = stroke.points@;
    let r = pen_radius(stroke);
    if p.len() == 0 {
        false
    } else if p.len() == 1 {
        in_disk(px, py, p[0].0 as int, p[0].1 as int, r)
    } else {
        exists|j: int| 0 <= j < p.len() - 1 && #[trigger] on_thick_line(p[j].0 as int, p[j].1 as int, p[j + 1].0 as int, p[j + 1].1 as int, r, px, py)
    }
}

/// The colour left at `(px, py)` by drawing `strokes` in order: that of the last stroke covering it.
pub open spec fn ink_color(strokes: Seq<InkStroke>, px: int, py: int) -> Option<u32>
    decreases strokes.len(),
{
    if strokes.len() == 0 {
        None
    } else if stroke_covers(strokes.last(), px, py) {
        Some(strokes.last().color)
    } else {
        ink_color(strokes.drop_last(), px, py)
    }
}

/// A stroke whose stamping arithmetic fits `isize`: a single point's stamp fits, and so does the thick line
/// between each two consecutive points.
pub open spec fn stroke_fits(s: InkStroke) -> bool {
    let p = s.points@;
    let r = pen_radius(s);
    &&& p.len() == 1 ==> disk_fits(p[0].0 as int, p[0].1 as int, r)
    &&& forall|j: int| 0 <= j < p.len() - 1 ==> #[trigger] line_fits(p[j].0 as int, p[j].1 as int, p[j + 1].0 as int, p[j + 1].1 as int, r)
}

/// Strokes that can all be drawn without leaving `isize`.
pub open spec fn drawable_strokes(strokes: Seq<InkStroke>) -> bool {
    forall|i: int| 0 <= i < strokes.len() ==> stroke_fits(#[trigger] strokes[i])
}

/// Renders whiteboard pen strokes onto the screen, later strokes over earlier ones.
pub fn render_ink_strokes(buffer: &mut [u32], width: usize, height: usize, strokes: &[InkStroke])
    requires
        holds_grid(old(buffer)@, width as int, height as int),
        width <= isize::MAX,
        height <= isize::MAX,
        drawable_strokes(strokes@),
    ensures
        same_outside_grid(old(buffer)@, final(buffer)@, width as int, height as int),
        forall|px: int, py: int|
            in_grid(width as int, height as int, px, py) ==> #[trigger] pix(final(buffer)@, width as int, px, py)
                == match ink_color(strokes@, px, py) {
                Some(c) => c,
                None => pix(old(buffer)@, width as int, px, py),
            },
{
    let mut i: usize = 0;
    while i < strokes.len()
        invariant
            holds_grid(old(buffer)@, width as int, height as int),
            same_outside_grid(old(buffer)@, buffer@, width as int, height as int),
            width <= isize::MAX,
            height <= isize::MAX,
            drawable_strokes(strokes@),
            i <= strokes.len(),
            forall|px: int, py: int|
                in_grid(width as int, height as int, px, py) ==> #[trigger] pix(buffer@, width as int, px, py)
                    == match ink_color(strokes@.take(i as int), px, py) {
                    Some(c) => c,
                    None => pix(old(buffer)@, width as int, px, py),
                },
        decreases strokes.len() - i,
    {
        let stroke = &strokes[i];
        let half = stroke.width / 2;
        let r: isize = if half >= 1 { half as isize } else { 1 };
        let n = stroke.points.len();
        let ghost before = buffer@;
        proof {
            assert(strokes@.take(i + 1).drop_last() == strokes@.take(i as int));
            assert(strokes@.take(i + 1).last() == strokes@[i as int]);
        }
        proof {
            assert(stroke_fits(strokes@[i as int]));
        }
        if n == 1 {
            let (x, y) = stroke.points[0];
            assert(strokes@[i as int].points@[0] == (x, y));
            assert(disk_fits(x as int, y as int, r as int));
            draw_disk(buffer, width, height, x as isize, y as isize, r, stroke.color);
        } else if n > 1 {
            let mut j: usize = 0;
            while j + 1 < n
                invariant
                    holds_grid(old(buffer)@, width as int, height as int),
                    same_outside_grid(old(buffer)@, buffer@, width as int, height as int),
                    width <= isize::MAX,
                    height <= isize::MAX,
                    drawable_strokes(strokes@),
                    i < strokes.len(),
                    *stroke == strokes@[i as int],
                    n == stroke.points@.len(),
                    n > 1,
                    r == pen_radius(*stroke),
                    j + 1 <= n,
                    forall|px: int, py: int|
                        in_grid(width as int, height as int, px, py) ==> #[trigger] pix(buffer@, width as int, px, py)
                            == if exists|q: int| 0 <= q < j && #[trigger] on_thick_line(stroke.points@[q].0 as int, stroke.points@[q].1 as int,
                                stroke.points@[q + 1].0 as int, stroke.points@[q + 1].1 as int, r as int, px, py) {
                            stroke.color
                        } else {
                            pix(before, width as int, px, py)
                        },
                decreases n - j,
            {
                let (x0, y0) = stroke.points[j];
                let (x1, y1) = stroke.points[j + 1];
                assert(strokes@[i as int].points@[j as int] == (x0, y0));
                assert(strokes@[i as int].points@[j + 1] == (x1, y1));
                assert(line_fits(x0 as int, y0 as int, x1 as int, y1 as int, r as int)) by {
                    assert(stroke_fits(strokes@[i as int]));
                    let p = strokes@[i as int].points@;
                    assert(line_fits(p[j as int].0 as int, p[j as int].1 as int, p[j + 1].0 as int, p[j + 1].1 as int, r as int));
                }
                let ghost mid = buffer@;
                draw_thick_line(buffer, width, height, x0 as isize, y0 as isize, x1 as isize, y1 as isize, r, stroke.color);
                proof {
                    assert forall|px: int, py: int|
                        in_grid(width as int, height as int, px, py) implies #[trigger] pix(buffer@, width as int, px, py)
                            == if exists|q: int| 0 <= q < j + 1 && #[trigger] on_thick_line(stroke.points@[q].0 as int, stroke.points@[q].1 as int,
                                stroke.points@[q + 1].0 as int, stroke.points@[q + 1].1 as int, r as int, px, py) {
                            stroke.color
                        } else {
                            pix(before, width as int, px, py)
                        } by {
                        assert(pix(mid, width as int, px, py) == if exists|q: int| 0 <= q < j && #[trigger] on_thick_line(stroke.points@[q].0 as int, stroke.points@[q].1 as int,
                                stroke.points@[q + 1].0 as int, stroke.points@[q + 1].1 as int, r as int, px, py) {
                            stroke.color
                        } else {
                            pix(before, width as int, px, py)
                        });
                        if on_thick_line(x0 as int, y0 as int, x1 as int, y1 as int, r as int, px, py) {
                            assert(on_thick_line(stroke.points@[j as int].0 as int, stroke.points@[j as int].1 as int,
                                stroke.points@[j + 1].0 as int, stroke.points@[j + 1].1 as int, r as int, px, py));
                        }
                    }
                }
                j += 1;
            }
        }
        proof {
            assert forall|px: int, py: int|
                in_grid(width as int, height as int, px, py) implies #[trigger] pix(buffer@, width as int, px, py)
                    == match ink_color(strokes@.take(i + 1), px, py) {
                    Some(c) => c,
                    None => pix(old(buffer)@, width as int, px, py),
                } by {
                assert(pix(before, width as int, px, py) == match ink_color(strokes@.take(i as int), px, py) {
                    Some(c) => c,
                    None => pix(old(buffer)@, width as int, px, py),
                });
            }
        }
        i += 1;
    }
    assert(strokes@.take(strokes@.len() as int) == strokes@);
}

} // verus!
