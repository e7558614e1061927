//! Placing a rendered slide image (RGBA bytes) into a window-sized surface with letterbox margins.
use vstd::prelude::*;
use crate::raster::{pix, in_grid};
use crate::animation::SlideSurface;

verus! {

/// The packed 0xAARRGGBB pixel of the RGBA bytes starting at `i`.
pub open spec fn argb_at(data: Seq<u8>, i: int) -> u32 {
    ((data[i + 3] as u32) << 24u32) | ((data[i] as u32) << 16u32) | ((data[i + 1] as u32) << 8u32) | (data[i + 2] as u32)
}

/// Packs the RGBA bytes at `i` into 0xAARRGGBB.
fn argb_from(data: &[u8], i: usize) -> (r: u32)
    requires
        i + 3 < data@.len(),
    ensures
        r == argb_at(data@, i as int),
{
    let r = data[i] as u32;
    let g = data[i + 1] as u32;
    let b = data[i + 2] as u32;
    let a = data[i + 3] as u32;
    (a << 24) | (r << 16) | (g << 8) | b
}

/// `a - b`, or 0 when `b` is larger.
pub open spec fn sat(a: int, b: int) -> int {
    if a > b { a - b } else { 0 }
}

/// The smaller of two integers.
pub open spec fn lesser(a: int, b: int) -> int {
    if a < b { a } else { b }
}

/// The sample points for the margin colour, in order: top centre, top left, top right, middle left (two
/// pixels in from the edges where the image is large enough).
pub open spec fn sample_point(k: int, w: int, h: int) -> (int, int) {
    let top = lesser(2, sat(h, 1));
    let left = lesser(2, sat(w, 1));
    if k == 0 {
        (lesser(w / 2, sat(w, 1)), top)
    } else if k == 1 {
        (left, top)
    } else if k == 2 {
        (sat(w, 3), top)
    } else {
        (left, lesser(h / 2, sat(h, 1)))
    }
}

/// The colour of the slide's margin: the first sample point (from `k` on) whose pixel is not fully
/// transparent, else the default dark background 0xFF0F111A.
pub open spec fn margin_color_from(data: Seq<u8>, w: int, h: int, k: int) -> u32
    decreases 4 - k,
{
    if k >= 4 || k < 0 {
        0xFF0f_111au32
    } else {
        let (sx, sy) = sample_point(k, w, h);
        let idx = (sy * w + sx) * 4;
        if idx + 3 < data.len() && data[idx + 3] > 0 {
            argb_at(data, idx)
        } else {
            margin_color_from(data, w, h, k + 1)
        }
    }
}

/// Finds the slide's margin colour from the rendered image's pixels.
pub fn detect_background(data: &[u8], content_w: usize, content_h: usize) -> (r: u32)
    requires
        4 * content_w * content_h <= usize::MAX,
        data@.len() == 4 * content_w * content_h,
    ensures
        r == margin_color_from(data@, content_w as int, content_h as int, 0),
{
    let w = content_w;
    let h = content_h;
    let hs: usize = if h > 0 { h - 1 } else { 0 };
    let ws: usize = if w > 0 { w - 1 } else { 0 };
    let top: usize = if 2 < hs { 2 } else { hs };
    let left: usize = if 2 < ws { 2 } else { ws };
    let mut k: usize = 0;
    let mut found: Option<u32> = None;
    while k < 4 && found.is_none()
        invariant
            k <= 4,
            4 * w * h <= usize::MAX,
            data@.len() == 4 * w * h,
            w == content_w,
            h == content_h,
            hs == sat(h as int, 1),
            ws == sat(w as int, 1),
            top == lesser(2, sat(h as int, 1)),
            left == lesser(2, sat(w as int, 1)),
            match found {
                Some(c) => c == margin_color_from(data@, w as int, h as int, 0),
                None => margin_color_from(data@, w as int, h as int, 0) == margin_color_from(
                    data@,
                    w as int,
                    h as int,
                    k as int,
                ),
            },
        decreases 4 - k, if found is None { 1int } else { 0int },
    {
        let (sx, sy): (usize, usize) = if k == 0 {
            (if w / 2 < ws { w / 2 } else { ws }, top)
        } else if k == 1 {
            (left, top)
        } else if k == 2 {
            (if w > 3 { w - 3 } else { 0 }, top)
        } else {
            (left, if h / 2 < hs { h / 2 } else { hs })
        };
        proof {
            assert((sx as int, sy as int) == sample_point(k as int, w as int, h as int));
        }
        if w > 0 && h > 0 {
            proof {
                assert(sx < w && sy < h);
                assert(sy * w + sx < w * h) by (nonlinear_arith)
                    requires
                        sx < w,
                        sy < h,
                ;
                assert(0 <= sy * w) by (nonlinear_arith)
                    requires
                        0 <= sy,
                        0 <= w,
                ;
                assert((sy * w + sx) * 4 + 3 < 4 * w * h) by (nonlinear_arith)
                    requires
                        sy * w + sx < w * h,
                ;
            }
            let idx = (sy * w + sx) * 4;
            if data[idx + 3] > 0 {
                found = Some(argb_from(data, idx));
            }
        } else {
            proof {
                assert(data@.len() == 0) by (nonlinear_arith)
                    requires
                        data@.len() == 4 * w * h,
                        w == 0 || h == 0,
                ;
            }
        }
        k += 1;
    }
    match found {
        Some(c) => c,
        None => 0xFF0f_111a,
    }
}

/// The window pixel at `(x, y)`: the rendered image's pixel where the image (placed at `(ox, oy)` and clipped
/// to the window) covers it, the margin colour `bg` elsewhere.
pub open spec fn letterboxed(data: Seq<u8>, cw: int, ch: int, tw: int, ox: int, oy: int, bg: u32, x: int, y: int) -> u32 {
    let room = if tw > ox { tw - ox } else { 0 };
    let copy_w = if cw < room { cw } else { room };
    if oy <= y < oy + ch && ox <= x < ox + copy_w {
        argb_at(data, ((y - oy) * cw + (x - ox)) * 4)
    } else {
        bg
    }
}

/// A window-sized surface showing the rendered image (RGBA bytes, `content_w` by `content_h`) at
/// `(offset_x, offset_y)` over the margin colour `bg`.
pub fn letterbox_surface(
    data: &[u8],
    content_w: usize,
    content_h: usize,
    target_w: usize,
    target_h: usize,
    offset_x: usize,
    offset_y: usize,
    bg: u32,
) -> (r: SlideSurface)
    requires
        4 * content_w * content_h <= usize::MAX,
        data@.len() == 4 * content_w * content_h,
        target_w * target_h <= usize::MAX,
        offset_y + content_h <= usize::MAX,
    ensures
        r.width == target_w,
        r.height == target_h,
        r.bg_color == bg,
        r.pixels@.len() == target_w * target_h,
        forall|x: int, y: int|
            in_grid(target_w as int, target_h as int, x, y) ==> #[trigger] pix(r.pixels@, target_w as int, x, y)
                == letterboxed(
                data@,
                content_w as int,
                content_h as int,
                target_w as int,
                offset_x as int,
                offset_y as int,
                bg,
                x,
                y,
            ),
{
    let total = target_w * target_h;
    let room: usize = if target_w > offset_x { target_w - offset_x } else { 0 };
    let copy_w: usize = if content_w < room { content_w } else { room };
    let mut pixels: Vec<u32> = Vec::new();
    let mut y: usize = 0;
    while y < target_h
        invariant
            total == target_w * target_h,
            4 * content_w * content_h <= usize::MAX,
            data@.len() == 4 * content_w * content_h,
            offset_y + content_h <= usize::MAX,
            copy_w == (if content_w < (if target_w > offset_x { target_w - offset_x } else { 0 }) {
                content_w as int
            } else {
                (if target_w > offset_x { target_w - offset_x } else { 0 })
            }),
            copy_w <= content_w,
            y <= target_h,
            pixels@.len() == y * target_w,
            forall|qx: int, qy: int|
                0 <= qx < target_w && 0 <= qy < y ==> #[trigger] pixels@[qy * target_w + qx] == letterboxed(
                    data@,
                    content_w as int,
                    content_h as int,
                    target_w as int,
                    offset_x as int,
                    offset_y as int,
                    bg,
                    qx,
                    qy,
                ),
        decreases target_h - y,
    {
        let mut x: usize = 0;
        proof {
            assert(y * target_w + target_w <= total) by (nonlinear_arith)
                requires
                    y < target_h,
                    total == target_w * target_h,
            ;
        }
        while x < target_w
            invariant
                total == target_w * target_h,
                4 * content_w * content_h <= usize::MAX,
                data@.len() == 4 * content_w * content_h,
                offset_y + content_h <= usize::MAX,
                copy_w == (if content_w < (if target_w > offset_x { target_w - offset_x } else { 0 }) {
                    content_w as int
                } else {
                    (if target_w > offset_x { target_w - offset_x } else { 0 })
                }),
                copy_w <= content_w,
                y < target_h,
                y * target_w + target_w <= total,
                x <= target_w,
                pixels@.len() == y * target_w + x,
                forall|qx: int, qy: int|
                    (0 <= qx < target_w && 0 <= qy < y) || (qy == y && 0 <= qx < x) ==> #[trigger] pixels@[qy
                        * target_w + qx] == letterboxed(
                        data@,
                        content_w as int,
                        content_h as int,
                        target_w as int,
                        offset_x as int,
                        offset_y as int,
                        bg,
                        qx,
                        qy,
                    ),
            decreases target_w - x,
        {
            let inside = y >= offset_y && y - offset_y < content_h && x >= offset_x && x - offset_x < copy_w;
            let p = if inside {
                let cy = y - offset_y;
                let cx = x - offset_x;
                proof {
                    assert(cy * content_w + cx < content_w * content_h) by (nonlinear_arith)
                        requires
                            cx < content_w,
                            cy < content_h,
                    ;
                    assert(0 <= cy * content_w) by (nonlinear_arith)
                        requires
                            0 <= cy,
                            0 <= content_w,
                    ;
                    assert((cy * content_w + cx) * 4 + 3 < 4 * content_w * content_h) by (nonlinear_arith)
                        requires
                            cy * content_w + cx < content_w * content_h,
                    ;
                }
                argb_from(data, (cy * content_w + cx) * 4)
            } else {
                bg
            };
            let ghost before = pixels@;
            pixels.push(p);
            proof {
                assert forall|qx: int, qy: int|
                    (0 <= qx < target_w && 0 <= qy < y) || (qy == y && 0 <= qx < x + 1) implies #[trigger] pixels@[qy
                        * target_w + qx] == letterboxed(
                        data@,
                        content_w as int,
                        content_h as int,
                        target_w as int,
                        offset_x as int,
                        offset_y as int,
                        bg,
                        qx,
                        qy,
                    ) by {
                    if qy < y {
                        assert(qy * target_w + qx < y * target_w) by (nonlinear_arith)
                            requires
                                qy < y,
                                qx < target_w,
                        ;
                        assert(pixels@[qy * target_w + qx] == before[qy * target_w + qx]);
                    } else if qx < x {
                        assert(pixels@[qy * target_w + qx] == before[qy * target_w + qx]);
                    }
                }
            }
            x += 1;
        }
        proof {
            assert forall|qx: int, qy: int|
                0 <= qx < target_w && 0 <= qy < y + 1 implies #[trigger] pixels@[qy * target_w + qx] == letterboxed(
                    data@,
                    content_w as int,
                    content_h as int,
                    target_w as int,
                    offset_x as int,
                    offset_y as int,
                    bg,
                    qx,
                    qy,
                ) by {}
            assert(pixels@.len() == (y + 1) * target_w) by (nonlinear_arith)
                requires
                    pixels@.len() == y * target_w + target_w,
            ;
        }
        y += 1;
    }
    proof {
        assert(pixels@.len() == target_w * target_h) by (nonlinear_arith)
            requires
                pixels@.len() == y * target_w,
                y == target_h,
        ;
    }
    SlideSurface::new(target_w, target_h, pixels, bg)
}

} // verus!
