//! Small round marks: the selection ring of the colour palette and the glowing data-point marker.
use vstd::prelude::*;
use crate::raster::{pix, in_grid, holds_grid, same_outside_grid, write_pixel};
use crate::ink::{disk_fits, lemma_radius_room};

verus! {

/// The squared distance from `(cx, cy)` to `(px, py)`.
pub open spec fn dist_sq(px: int, py: int, cx: int, cy: int) -> int {
    (px - cx) * (px - cx) + (py - cy) * (py - cy)
}

/// `(px, py)` lies on the one-pixel ring of radius `r` around `(cx, cy)`: its squared distance is between
/// `(r - 1)^2` and `r^2`.
pub open spec fn on_ring(px: int, py: int, cx: int, cy: int, r: int) -> bool {
    r >= 0 && (r - 1) * (r - 1) <= dist_sq(px, py, cx, cy) <= r * r
}

/// Points within distance `r` lie within `r` of the centre on both axes.
proof fn lemma_within(px: int, py: int, cx: int, cy: int, r: int)
    requires
        r >= 0,
        dist_sq(px, py, cx, cy) <= r * r,
    ensures
        -r <= px - cx <= r,
        -r <= py - cy <= r,
{
    let ex = px - cx;
    let ey = py - cy;
    assert(-r <= ex <= r && -r <= ey <= r) by (nonlinear_arith)
        requires
            ex * ex + ey * ey <= r * r,
            r >= 0,
    ;
}

/// Draws the one-pixel ring of radius `radius` around `(cx, cy)`, clipped to the screen.
pub fn draw_circle_ring(
    buffer: &mut [u32],
    width: usize,
    height: usize,
    cx: isize,
    cy: isize,
    radius: isize,
    color: u32,
)
    requires
        holds_grid(old(buffer)@, width as int, height as int),
        width <= isize::MAX,
        height <= isize::MAX,
        disk_fits(cx as int, cy as int, radius as int),
    ensures
        same_outside_grid(old(buffer)@, final(buffer)@, width as int, height as int),
        forall|px: int, py: int|
            in_grid(width as int, height as int, px, py) ==> #[trigger] pix(final(buffer)@, width as int, px, py)
                == if on_ring(px, py, cx as int, cy as int, radius as int) {
                color
            } else {
                pix(old(buffer)@, width as int, px, py)
            },
{
    let r = radius;
    if r < 0 {
        return;
    }
    proof {
        lemma_radius_room(r as int, 0, 0);
    }
    assert(0 <= (r - 1) * (r - 1) <= r * r + 1) by (nonlinear_arith)
        requires
            0 <= r,
    ;
    assert(r * r + 1 <= isize::MAX) by (nonlinear_arith)
        requires
            0 <= r,
            2 * r * r <= isize::MAX,
    ;
    let r_min_sq = (r - 1) * (r - 1);
    let r_max_sq = r * r;
    let mut dy = -r;
    proof {
        assert forall|qx: int, qy: int| on_ring(qx, qy, cx as int, cy as int, r as int) implies -r <= qy - cy by {
            lemma_within(qx, qy, cx as int, cy as int, r as int);
        }
    }
    while dy <= r
        invariant
            holds_grid(old(buffer)@, width as int, height as int),
            same_outside_grid(old(buffer)@, buffer@, width as int, height as int),
            width <= isize::MAX,
            height <= isize::MAX,
            disk_fits(cx as int, cy as int, r as int),
            0 <= r < isize::MAX,
            r == radius,
            r_max_sq == r * r,
            r_min_sq == (r - 1) * (r - 1),
            -r <= dy <= r + 1,
            forall|px: int, py: int|
                in_grid(width as int, height as int, px, py) ==> #[trigger] pix(buffer@, width as int, px, py)
                    == if on_ring(px, py, cx as int, cy as int, r as int) && py - cy < dy {
                    color
                } else {
                    pix(old(buffer)@, width as int, px, py)
                },
        decreases r + 1 - dy,
    {
        let py = cy + dy;
        if py >= 0 && py < height as isize {
            let mut dx = -r;
            proof {
                assert forall|qx: int, qy: int| on_ring(qx, qy, cx as int, cy as int, r as int) implies -r <= qx
                    - cx by {
                    lemma_within(qx, qy, cx as int, cy as int, r as int);
                }
            }
            while dx <= r
                invariant
                    holds_grid(old(buffer)@, width as int, height as int),
                    same_outside_grid(old(buffer)@, buffer@, width as int, height as int),
                    width <= isize::MAX,
                    height <= isize::MAX,
                    disk_fits(cx as int, cy as int, r as int),
                    0 <= r < isize::MAX,
                    r == radius,
                    r_max_sq == r * r,
                    r_min_sq == (r - 1) * (r - 1),
                    -r <= dy <= r,
                    py == cy + dy,
                    0 <= py < height,
                    -r <= dx <= r + 1,
                    forall|px: int, qy: int|
                        in_grid(width as int, height as int, px, qy) ==> #[trigger] pix(buffer@, width as int, px, qy)
                            == if on_ring(px, qy, cx as int, cy as int, r as int) && (qy - cy < dy || (qy - cy
                            == dy && px - cx < dx)) {
                            color
                        } else {
                            pix(old(buffer)@, width as int, px, qy)
                        },
                decreases r + 1 - dx,
            {
                proof {
                    lemma_radius_room(r as int, dx as int, dy as int);
                }
                let d = dx * dx + dy * dy;
                if d >= r_min_sq && d <= r_max_sq {
                    let px = cx + dx;
                    if px >= 0 && px < width as isize {
                        write_pixel(buffer, width, height, px as usize, py as usize, color);
                    }
                }
                dx += 1;
            }
            proof {
                assert forall|qx: int, qy: int| on_ring(qx, qy, cx as int, cy as int, r as int) implies qx - cx
                    <= r by {
                    lemma_within(qx, qy, cx as int, cy as int, r as int);
                }
            }
        }
        dy += 1;
    }
    proof {
        assert forall|qx: int, qy: int| on_ring(qx, qy, cx as int, cy as int, r as int) implies qy - cy <= r by {
            lemma_within(qx, qy, cx as int, cy as int, r as int);
        }
    }
}

/// What the glow marker at `(cx, cy)` paints at `(px, py)`: white within distance 2, `color` within distance 4.
pub open spec fn glow_pixel(px: int, py: int, cx: int, cy: int, color: u32) -> Option<u32> {
    if dist_sq(px, py, cx, cy) <= 4 {
        Some(0xFFFF_FFFFu32)
    } else if dist_sq(px, py, cx, cy) <= 16 {
        Some(color)
    } else {
        None
    }
}

/// Draws a glowing marker at `(cx, cy)`: a white centre of radius 2 in a halo of `color` of radius 4.
pub fn draw_glow_marker(buffer: &mut [u32], width: usize, height: usize, cx: usize, cy: usize, color: u32)
    requires
        holds_grid(old(buffer)@, width as int, height as int),
        cx <= isize::MAX - 4,
        cy <= isize::MAX - 4,
    ensures
        same_outside_grid(old(buffer)@, final(buffer)@, width as int, height as int),
        forall|px: int, py: int|
            in_grid(width as int, height as int, px, py) ==> #[trigger] pix(final(buffer)@, width as int, px, py)
                == match glow_pixel(px, py, cx as int, cy as int, color) {
                Some(c) => c,
                None => pix(old(buffer)@, width as int, px, py),
            },
{
    proof {
        assert forall|qx: int, qy: int| glow_pixel(qx, qy, cx as int, cy as int, color) is Some implies -4 <= qy
            - cy <= 4 && -4 <= qx - cx <= 4 by {
            lemma_within(qx, qy, cx as int, cy as int, 4);
        }
    }
    let mut j: usize = 0;
    while j <= 8
        invariant
            holds_grid(old(buffer)@, width as int, height as int),
            same_outside_grid(old(buffer)@, buffer@, width as int, height as int),
            cx <= isize::MAX - 4,
            cy <= isize::MAX - 4,
            j <= 9,
            forall|qx: int, qy: int|
                glow_pixel(qx, qy, cx as int, cy as int, color) is Some ==> -4 <= qy - cy <= 4 && -4 <= qx - cx
                    <= 4,
            forall|px: int, py: int|
                in_grid(width as int, height as int, px, py) ==> #[trigger] pix(buffer@, width as int, px, py)
                    == if py - cy + 4 < j && glow_pixel(px, py, cx as int, cy as int, color) is Some {
                    glow_pixel(px, py, cx as int, cy as int, color)->0
                } else {
                    pix(old(buffer)@, width as int, px, py)
                },
        decreases 9 - j,
    {
        if cy + j >= 4 && cy + j - 4 < height {
            let py = cy + j - 4;
            let mut i: usize = 0;
            while i <= 8
                invariant
                    holds_grid(old(buffer)@, width as int, height as int),
                    same_outside_grid(old(buffer)@, buffer@, width as int, height as int),
                    cx <= isize::MAX - 4,
                    cy <= isize::MAX - 4,
                    j <= 8,
                    i <= 9,
                    py == cy + j - 4,
                    py < height,
                    forall|px: int, qy: int|
                        in_grid(width as int, height as int, px, qy) ==> #[trigger] pix(buffer@, width as int, px, qy)
                            == if (qy - cy + 4 < j || (qy - cy + 4 == j && px - cx + 4 < i)) && glow_pixel(
                            px,
                            qy,
                            cx as int,
                            cy as int,
                            color,
                        ) is Some {
                            glow_pixel(px, qy, cx as int, cy as int, color)->0
                        } else {
                            pix(old(buffer)@, width as int, px, qy)
                        },
                decreases 9 - i,
            {
                if cx + i >= 4 && cx + i - 4 < width {
                    let px = cx + i - 4;
                    let dx: usize = if i >= 4 { i - 4 } else { 4 - i };
                    let dy: usize = if j >= 4 { j - 4 } else { 4 - j };
                    assert(dx <= 4 && dy <= 4);
                    assert(dx * dx <= 16 && dy * dy <= 16) by (nonlinear_arith)
                        requires
                            dx <= 4,
                            dy <= 4,
                    ;
                    let d = dx * dx + dy * dy;
                    proof {
                        assert(d == dist_sq(px as int, py as int, cx as int, cy as int)) by (nonlinear_arith)
                            requires
                                dx == if i >= 4 { i - 4 } else { 4 - i },
                                dy == if j >= 4 { j - 4 } else { 4 - j },
                                px == cx + i - 4,
                                py == cy + j - 4,
                                d == dx * dx + dy * dy,
                        ;
                    }
                    if d <= 4 {
                        write_pixel(buffer, width, height, px, py, 0xFFFF_FFFF);
                    } else if d <= 16 {
                        write_pixel(buffer, width, height, px, py, color);
                    }
                }
                i += 1;
            }
        }
        j += 1;
    }
}

} // verus!
