//! Slide surfaces, transition frame buffers and the built-in transitions' pixel work.
use vstd::prelude::*;
use crate::pixel::{blend_spec, blend_pixel_fast};
use crate::raster::{pix, in_grid, holds_grid, same_outside_grid, in_rect, read_pixel, write_pixel};

verus! {

/// The start of row `y` in a buffer whose rows are `w` wide.
pub open spec fn row_start(y: int, w: int) -> int {
    y * w
}

/// Index `i` lies in row `cy` (for some `cy` in `y1..y2`) between columns `x1` and `x2`, and that whole row span
/// lies inside a buffer of length `len`.
pub open spec fn in_row_spans(i: int, w: int, len: int, x1: int, x2: int, y1: int, y2: int) -> bool {
    exists|cy: int|
        y1 <= cy < y2 && #[trigger] row_start(cy, w) + x2 <= len && row_start(cy, w) + x1 <= i < row_start(cy, w) + x2
}

/// Fills the span `start..end` of `buf` with `color`.
fn fill_span(buf: &mut [u32], start: usize, end: usize, color: u32)
    requires
        start <= end <= old(buf)@.len(),
    ensures
        final(buf)@.len() == old(buf)@.len(),
        forall|i: int| 0 <= i < old(buf)@.len() ==> #[trigger] final(buf)@[i] == if start <= i < end {
            color
        } else {
            old(buf)@[i]
        },
{
    let mut i = start;
    while i < end
        invariant
            start <= i <= end,
            end <= old(buf)@.len(),
            buf@.len() == old(buf)@.len(),
            forall|k: int| 0 <= k < old(buf)@.len() ==> #[trigger] buf@[k] == if start <= k < i {
                color
            } else {
                old(buf)@[k]
            },
        decreases end - i,
    {
        buf[i] = color;
        i += 1;
    }
}

/// Fills columns `x1..x2` of every row `y1..y2` whose span fits in the buffer; rows that do not fit are skipped.
fn fill_row_spans(buf: &mut [u32], width: usize, x1: usize, x2: usize, y1: usize, y2: usize, color: u32)
    requires
        x1 <= x2,
    ensures
        final(buf)@.len() == old(buf)@.len(),
        forall|i: int| 0 <= i < old(buf)@.len() ==> #[trigger] final(buf)@[i] == if in_row_spans(
            i,
            width as int,
            old(buf)@.len() as int,
            x1 as int,
            x2 as int,
            y1 as int,
            y2 as int,
        ) {
            color
        } else {
            old(buf)@[i]
        },
{
    let n = buf.len();
    let mut cy = y1;
    while cy < y2
        invariant
            x1 <= x2,
            n == buf@.len(),
            n == old(buf)@.len(),
            y1 <= cy || y2 <= cy,
            forall|i: int| 0 <= i < n ==> #[trigger] buf@[i] == if in_row_spans(
                i,
                width as int,
                n as int,
                x1 as int,
                x2 as int,
                y1 as int,
                if cy < y2 { cy as int } else { y2 as int },
            ) {
                color
            } else {
                old(buf)@[i]
            },
        decreases y2 - cy,
    {
        let ghost before = buf@;
        if let Some(row) = cy.checked_mul(width) {
            if x2 <= n && row <= n - x2 {
                assert(row == row_start(cy as int, width as int));
                fill_span(buf, row + x1, row + x2, color);
            } else {
                assert(row_start(cy as int, width as int) + x2 > n);
            }
        } else {
            assert(row_start(cy as int, width as int) > usize::MAX);
        }
        proof {
            assert forall|i: int| 0 <= i < n implies #[trigger] buf@[i] == if in_row_spans(
                i,
                width as int,
                n as int,
                x1 as int,
                x2 as int,
                y1 as int,
                cy + 1,
            ) {
                color
            } else {
                old(buf)@[i]
            } by {
                if row_start(cy as int, width as int) + x2 <= n && row_start(cy as int, width as int) + x1 <= i
                    < row_start(cy as int, width as int) + x2 {
                    assert(in_row_spans(i, width as int, n as int, x1 as int, x2 as int, y1 as int, cy + 1));
                }
                if in_row_spans(i, width as int, n as int, x1 as int, x2 as int, y1 as int, cy + 1) {
                    let c = choose|c: int|
                        y1 <= c < cy + 1 && #[trigger] row_start(c, width as int) + x2 <= n && row_start(c, width as int)
                            + x1 <= i < row_start(c, width as int) + x2;
                    if c < cy {
                        assert(in_row_spans(i, width as int, n as int, x1 as int, x2 as int, y1 as int, cy as int));
                    }
                }
            }
        }
        cy += 1;
    }
}

/// A rendered slide surface: `width * height` packed 0xAARRGGBB pixels in row-major order.
#[derive(Clone)]
pub struct SlideSurface {
    pub width: usize,
    pub height: usize,
    pub pixels: Vec<u32>,
    pub bg_color: u32,
}

/// An in-slide build step in screen pixels: its order and the rectangle `left..right` by `top..bottom`
/// that it covers (not yet clipped to the surface).
#[derive(Clone, Copy, Debug, PartialEq, Eq, Structural)]
pub struct StepMask {
    pub order: usize,
    pub left: usize,
    pub top: usize,
    pub right: usize,
    pub bottom: usize,
}

/// The smaller of two integers.
pub open spec fn min(a: int, b: int) -> int {
    if a < b { a } else { b }
}

/// Index `i` of a surface `w` pixels wide (with `len` cells) is covered by a step of `steps` that is still hidden
/// at `current_step`.
pub open spec fn masked(steps: Seq<StepMask>, current_step: int, i: int, w: int, h: int, len: int) -> bool {
    exists|k: int|
        0 <= k < steps.len() && (#[trigger] steps[k]).order > current_step && min(steps[k].left as int, w) < min(
            steps[k].right as int,
            w,
        ) && in_row_spans(
            i,
            w,
            len,
            min(steps[k].left as int, w),
            min(steps[k].right as int, w),
            min(steps[k].top as int, h),
            min(steps[k].bottom as int, h),
        )
}

/// The first `len` pixels blended from `from` (black when absent) towards `to` with weight `alpha` out of 256.
pub open spec fn blended_prefix(old: Seq<u32>, from: Option<Seq<u32>>, to: Seq<u32>, alpha: u32, i: int) -> u32 {
    match from {
        Some(f) => if i < min(min(old.len() as int, to.len() as int), f.len() as int) {
            blend_spec(f[i], to[i], alpha)
        } else {
            old[i]
        },
        None => if i < min(old.len() as int, to.len() as int) {
            blend_spec(0xFF00_0000, to[i], alpha)
        } else {
            old[i]
        },
    }
}

/// Blends the common prefix of `from` and `to` into `dst` with weight `alpha_256` out of 256.
fn blend_into(dst: &mut [u32], from: Option<&SlideSurface>, to: &SlideSurface, alpha_256: u32)
    ensures
        final(dst)@.len() == old(dst)@.len(),
        forall|i: int| 0 <= i < old(dst)@.len() ==> #[trigger] final(dst)@[i] == blended_prefix(
            old(dst)@,
            match from { Some(f) => Some(f.pixels@), None => None },
            to.pixels@,
            alpha_256,
            i,
        ),
{
    let n = dst.len();
    let mut len = if n < to.pixels.len() { n } else { to.pixels.len() };
    match from {
        Some(f) => {
            if f.pixels.len() < len {
                len = f.pixels.len();
            }
        },
        None => {},
    }
    let mut i: usize = 0;
    while i < len
        invariant
            n == dst@.len(),
            n == old(dst)@.len(),
            len <= n,
            len <= to.pixels@.len(),
            len as int == match from {
                Some(f) => min(min(n as int, to.pixels@.len() as int), f.pixels@.len() as int),
                None => min(n as int, to.pixels@.len() as int),
            },
            i <= len,
            forall|k: int| 0 <= k < n ==> #[trigger] dst@[k] == if k < i {
                blended_prefix(old(dst)@, match from { Some(f) => Some(f.pixels@), None => None }, to.pixels@, alpha_256, k)
            } else {
                old(dst)@[k]
            },
        decreases len - i,
    {
        let base = match from {
            Some(f) => f.pixels[i],
            None => 0xFF00_0000u32,
        };
        dst[i] = blend_pixel_fast(base, to.pixels[i], alpha_256);
        i += 1;
    }
}

impl SlideSurface {
    /// A surface with the given size, pixels and background colour.
    pub fn new(width: usize, height: usize, pixels: Vec<u32>, bg_color: u32) -> (r: Self)
        ensures
            r.width == width,
            r.height == height,
            r.pixels@ == pixels@,
            r.bg_color == bg_color,
    {
        SlideSurface { width, height, pixels, bg_color }
    }

    /// The surface holds a full `width` by `height` grid of pixels.
    pub open spec fn well_formed(&self) -> bool {
        holds_grid(self.pixels@, self.width as int, self.height as int)
    }

    /// A surface of the given size filled with `color`, which is also its background colour.
    pub fn blank(width: usize, height: usize, color: u32) -> (r: Self)
        requires
            width * height <= usize::MAX,
        ensures
            r.width == width,
            r.height == height,
            r.bg_color == color,
            r.pixels@.len() == width * height,
            forall|i: int| 0 <= i < r.pixels@.len() ==> #[trigger] r.pixels@[i] == color,
            r.well_formed(),
    {
        let n = width * height;
        let mut pixels: Vec<u32> = Vec::with_capacity(n);
        let mut i: usize = 0;
        while i < n
            invariant
                i <= n,
                pixels@.len() == i,
                forall|k: int| 0 <= k < i ==> #[trigger] pixels@[k] == color,
            decreases n - i,
        {
            pixels.push(color);
            i += 1;
        }
        SlideSurface { width, height, pixels, bg_color: color }
    }

    /// The pixel at `(x, y)`, or 0 off the surface.
    pub fn get_pixel(&self, x: usize, y: usize) -> (r: u32)
        requires
            self.well_formed(),
        ensures
            r == if x < self.width && y < self.height {
                pix(self.pixels@, self.width as int, x as int, y as int)
            } else {
                0
            },
    {
        if x < self.width && y < self.height {
            read_pixel(self.pixels.as_slice(), self.width, self.height, x, y)
        } else {
            0
        }
    }

    /// Sets the pixel at `(x, y)`; does nothing off the surface.
    pub fn set_pixel(&mut self, x: usize, y: usize, color: u32)
        requires
            old(self).well_formed(),
        ensures
            final(self).width == old(self).width,
            final(self).height == old(self).height,
            final(self).bg_color == old(self).bg_color,
            same_outside_grid(old(self).pixels@, final(self).pixels@, old(self).width as int, old(self).height as int),
            forall|px: int, py: int|
                in_grid(old(self).width as int, old(self).height as int, px, py) ==> #[trigger] pix(
                    final(self).pixels@,
                    old(self).width as int,
                    px,
                    py,
                ) == if px == x && py == y {
                    color
                } else {
                    pix(old(self).pixels@, old(self).width as int, px, py)
                },
    {
        if x < self.width && y < self.height {
            let w = self.width;
            let h = self.height;
            write_pixel(self.pixels.as_mut_slice(), w, h, x, y, color);
        }
    }

    /// Fills the on-surface part of the rectangle `(x, y, w, h)` with `color`.
    pub fn fill_rect(&mut self, x: usize, y: usize, w: usize, h: usize, color: u32)
        requires
            old(self).well_formed(),
            x + w <= usize::MAX,
            y + h <= usize::MAX,
        ensures
            final(self).width == old(self).width,
            final(self).height == old(self).height,
            final(self).bg_color == old(self).bg_color,
            same_outside_grid(old(self).pixels@, final(self).pixels@, old(self).width as int, old(self).height as int),
            forall|px: int, py: int|
                in_grid(old(self).width as int, old(self).height as int, px, py) ==> #[trigger] pix(
                    final(self).pixels@,
                    old(self).width as int,
                    px,
                    py,
                ) == if in_rect(px, py, x as int, y as int, w as int, h as int) {
                    color
                } else {
                    pix(old(self).pixels@, old(self).width as int, px, py)
                },
    {
        let sw = self.width;
        let sh = self.height;
        crate::hud::fill_rect(self.pixels.as_mut_slice(), sw, sh, x, y, w, h, color);
    }

    /// Copies the `w` by `h` block of `src` at `(src_x, src_y)` to `(dst_x, dst_y)`, clipped to both surfaces.
    pub fn copy_rect(
        &mut self,
        src: &Self,
        src_x: usize,
        src_y: usize,
        dst_x: usize,
        dst_y: usize,
        w: usize,
        h: usize,
    )
        requires
            old(self).well_formed(),
            src.well_formed(),
        ensures
            final(self).width == old(self).width,
            final(self).height == old(self).height,
            final(self).bg_color == old(self).bg_color,
            same_outside_grid(old(self).pixels@, final(self).pixels@, old(self).width as int, old(self).height as int),
            forall|px: int, py: int|
                in_grid(old(self).width as int, old(self).height as int, px, py) ==> #[trigger] pix(
                    final(self).pixels@,
                    old(self).width as int,
                    px,
                    py,
                ) == if dst_x <= px < dst_x + w && dst_y <= py < dst_y + h && in_grid(
                    src.width as int,
                    src.height as int,
                    src_x + (px - dst_x),
                    src_y + (py - dst_y),
                ) {
                    pix(src.pixels@, src.width as int, src_x + (px - dst_x), src_y + (py - dst_y))
                } else {
                    pix(old(self).pixels@, old(self).width as int, px, py)
                },
    {
        let sw = self.width;
        let sh = self.height;
        let mut row: usize = 0;
        let mut stop = false;
        while row < h && !stop
            invariant
                self.width == sw,
                self.height == sh,
                self.bg_color == old(self).bg_color,
                sw == old(self).width,
                sh == old(self).height,
                holds_grid(old(self).pixels@, sw as int, sh as int),
                src.well_formed(),
                same_outside_grid(old(self).pixels@, self.pixels@, sw as int, sh as int),
                row <= h,
                stop ==> src_y + row >= src.height || dst_y + row >= sh,
                row > 0 ==> src_y + row - 1 < src.height && dst_y + row - 1 < sh,
                forall|px: int, py: int|
                    in_grid(sw as int, sh as int, px, py) ==> #[trigger] pix(self.pixels@, sw as int, px, py)
                        == if dst_x <= px < dst_x + w && dst_y <= py < dst_y + row && in_grid(
                        src.width as int,
                        src.height as int,
                        src_x + (px - dst_x),
                        src_y + (py - dst_y),
                    ) {
                        pix(src.pixels@, src.width as int, src_x + (px - dst_x), src_y + (py - dst_y))
                    } else {
                        pix(old(self).pixels@, sw as int, px, py)
                    },
            decreases h - row + if stop { 0int } else { 1int },
        {
            let sy = src_y + row;
            let dy = dst_y + row;
            if sy >= src.height || dy >= sh {
                stop = true;
            } else {
                let mut col: usize = 0;
                let mut cstop = false;
                while col < w && !cstop
                    invariant
                        self.width == sw,
                        self.height == sh,
                        self.bg_color == old(self).bg_color,
                        sw == old(self).width,
                        sh == old(self).height,
                        holds_grid(old(self).pixels@, sw as int, sh as int),
                        src.well_formed(),
                        same_outside_grid(old(self).pixels@, self.pixels@, sw as int, sh as int),
                        row < h,
                        sy == src_y + row,
                        dy == dst_y + row,
                        sy < src.height,
                        dy < sh,
                        col <= w,
                        cstop ==> src_x + col >= src.width || dst_x + col >= sw,
                        col > 0 ==> src_x + col - 1 < src.width && dst_x + col - 1 < sw,
                        forall|px: int, py: int|
                            in_grid(sw as int, sh as int, px, py) ==> #[trigger] pix(self.pixels@, sw as int, px, py)
                                == if dst_x <= px < dst_x + w && in_grid(
                                src.width as int,
                                src.height as int,
                                src_x + (px - dst_x),
                                src_y + (py - dst_y),
                            ) && (dst_y <= py < dst_y + row || (py == dy && px < dst_x + col)) {
                                pix(src.pixels@, src.width as int, src_x + (px - dst_x), src_y + (py - dst_y))
                            } else {
                                pix(old(self).pixels@, sw as int, px, py)
                            },
                    decreases w - col + if cstop { 0int } else { 1int },
                {
                    let sx = src_x + col;
                    let dx = dst_x + col;
                    if sx >= src.width || dx >= sw {
                        cstop = true;
                    } else {
                        let v = read_pixel(src.pixels.as_slice(), src.width, src.height, sx, sy);
                        write_pixel(self.pixels.as_mut_slice(), sw, sh, dx, dy, v);
                        col += 1;
                    }
                }
            }
            if !stop {
                row += 1;
            }
        }
    }

    /// Blanks, with `bg_color`, every build step still hidden at `current_step` (order greater than it),
    /// each clipped to the surface.
    pub fn mask_steps(&mut self, steps: &[StepMask], current_step: usize, bg_color: u32)
        ensures
            final(self).width == old(self).width,
            final(self).height == old(self).height,
            final(self).bg_color == old(self).bg_color,
            final(self).pixels@.len() == old(self).pixels@.len(),
            forall|i: int|
                0 <= i < old(self).pixels@.len() ==> #[trigger] final(self).pixels@[i] == if masked(
                    steps@,
                    current_step as int,
                    i,
                    old(self).width as int,
                    old(self).height as int,
                    old(self).pixels@.len() as int,
                ) {
                    bg_color
                } else {
                    old(self).pixels@[i]
                },
    {
        let w = self.width;
        let h = self.height;
        let n = self.pixels.len();
        let mut k: usize = 0;
        while k < steps.len()
            invariant
                self.width == w,
                self.height == h,
                w == old(self).width,
                h == old(self).height,
                self.bg_color == old(self).bg_color,
                n == self.pixels@.len(),
                n == old(self).pixels@.len(),
                k <= steps.len(),
                forall|i: int|
                    0 <= i < n ==> #[trigger] self.pixels@[i] == if masked(
                        steps@.take(k as int),
                        current_step as int,
                        i,
                        w as int,
                        h as int,
                        n as int,
                    ) {
                        bg_color
                    } else {
                        old(self).pixels@[i]
                    },
            decreases steps.len() - k,
        {
            let step = steps[k];
            let ghost before = self.pixels@;
            let sx1 = if step.left < w { step.left } else { w };
            let sy1 = if step.top < h { step.top } else { h };
            let sx2 = if step.right < w { step.right } else { w };
            let sy2 = if step.bottom < h { step.bottom } else { h };
            if step.order > current_step && sx1 < sx2 {
                fill_row_spans(self.pixels.as_mut_slice(), w, sx1, sx2, sy1, sy2, bg_color);
            }
            proof {
                assert(steps@.take(k + 1)[k as int] == step);
                assert forall|i: int| 0 <= i < n implies #[trigger] self.pixels@[i] == if masked(
                    steps@.take(k + 1),
                    current_step as int,
                    i,
                    w as int,
                    h as int,
                    n as int,
                ) {
                    bg_color
                } else {
                    old(self).pixels@[i]
                } by {
                    if masked(steps@.take(k + 1), current_step as int, i, w as int, h as int, n as int) {
                        let j = choose|j: int|
                            0 <= j < steps@.take(k + 1).len() && (#[trigger] steps@.take(k + 1)[j]).order > current_step
                                && min(steps@.take(k + 1)[j].left as int, w as int) < min(steps@.take(k + 1)[j].right as int, w as int)
                                && in_row_spans(
                                i,
                                w as int,
                                n as int,
                                min(steps@.take(k + 1)[j].left as int, w as int),
                                min(steps@.take(k + 1)[j].right as int, w as int),
                                min(steps@.take(k + 1)[j].top as int, h as int),
                                min(steps@.take(k + 1)[j].bottom as int, h as int),
                            );
                        if j < k {
                            assert(steps@.take(k as int)[j] == steps@.take(k + 1)[j]);
                            assert(masked(steps@.take(k as int), current_step as int, i, w as int, h as int, n as int));
                        }
                    }
                    if masked(steps@.take(k as int), current_step as int, i, w as int, h as int, n as int) {
                        let j = choose|j: int|
                            0 <= j < steps@.take(k as int).len() && (#[trigger] steps@.take(k as int)[j]).order > current_step
                                && min(steps@.take(k as int)[j].left as int, w as int) < min(steps@.take(k as int)[j].right as int, w as int)
                                && in_row_spans(
                                i,
                                w as int,
                                n as int,
                                min(steps@.take(k as int)[j].left as int, w as int),
                                min(steps@.take(k as int)[j].right as int, w as int),
                                min(steps@.take(k as int)[j].top as int, h as int),
                                min(steps@.take(k as int)[j].bottom as int, h as int),
                            );
                        assert(steps@.take(k as int)[j] == steps@.take(k + 1)[j]);
                    }
                }
            }
            k += 1;
        }
        assert(steps@.take(steps@.len() as int) == steps@);
    }

    /// Blends `from` (black when absent) towards `to` into this surface with weight `alpha_256` out of 256,
    /// over the pixels the surfaces have in common.
    pub fn blend_from_to_alpha(&mut self, from: Option<&Self>, to: &Self, alpha_256: u32)
        ensures
            final(self).width == old(self).width,
            final(self).height == old(self).height,
            final(self).bg_color == old(self).bg_color,
            final(self).pixels@.len() == old(self).pixels@.len(),
            forall|i: int| 0 <= i < old(self).pixels@.len() ==> #[trigger] final(self).pixels@[i] == blended_prefix(
                old(self).pixels@,
                match from { Some(f) => Some(f.pixels@), None => None },
                to.pixels@,
                alpha_256,
                i,
            ),
    {
        blend_into(self.pixels.as_mut_slice(), from, to, alpha_256);
    }
}


/// The destination frame buffer of a transition: `width * height` pixels in row-major order.
pub struct RenderContext<'a> {
    pub width: usize,
    pub height: usize,
    pub buffer: &'a mut [u32],
}

impl<'a> RenderContext<'a> {
    /// A context that draws into `buffer` as a `width` by `height` grid.
    pub fn new(width: usize, height: usize, buffer: &'a mut [u32]) -> (r: Self)
        ensures
            r.width == width,
            r.height == height,
            r.buffer@ == old(buffer)@,
            final(buffer)@ == final(r.buffer)@,
    {
        RenderContext { width, height, buffer }
    }

    /// The pixels currently in the buffer.
    pub open spec fn cells(&self) -> Seq<u32> {
        self.buffer@
    }

    /// The buffer holds the full grid.
    pub open spec fn well_formed(&self) -> bool {
        holds_grid(self.cells(), self.width as int, self.height as int)
    }

    /// The pixel at `(x, y)`, or 0 off the grid.
    pub fn get_pixel(&self, x: usize, y: usize) -> (r: u32)
        requires
            self.well_formed(),
        ensures
            r == if x < self.width && y < self.height {
                pix(self.cells(), self.width as int, x as int, y as int)
            } else {
                0
            },
    {
        if x < self.width && y < self.height {
            read_pixel(&*self.buffer, self.width, self.height, x, y)
        } else {
            0
        }
    }

    /// Sets the pixel at `(x, y)`; does nothing off the grid.
    pub fn set_pixel(&mut self, x: usize, y: usize, color: u32)
        requires
            old(self).well_formed(),
        ensures
            final(self).width == old(self).width,
            final(self).height == old(self).height,
            same_outside_grid(old(self).buffer@, final(self).buffer@, old(self).width as int, old(self).height as int),
            forall|px: int, py: int|
                in_grid(old(self).width as int, old(self).height as int, px, py) ==> #[trigger] pix(
                    final(self).buffer@,
                    old(self).width as int,
                    px,
                    py,
                ) == if px == x && py == y {
                    color
                } else {
                    pix(old(self).buffer@, old(self).width as int, px, py)
                },
    {
        if x < self.width && y < self.height {
            let w = self.width;
            let h = self.height;
            write_pixel(&mut *self.buffer, w, h, x, y, color);
        }
    }

    /// Fills the whole buffer with `color`.
    pub fn clear(&mut self, color: u32)
        ensures
            final(self).width == old(self).width,
            final(self).height == old(self).height,
            final(self).buffer@.len() == old(self).buffer@.len(),
            forall|i: int| 0 <= i < final(self).buffer@.len() ==> #[trigger] final(self).buffer@[i] == color,
    {
        let n = self.buffer.len();
        fill_span(&mut *self.buffer, 0, n, color);
    }

    /// Fills the on-grid part of the rectangle `(x, y, w, h)` with `color`; a row whose span does not fit in the
    /// buffer is left alone.
    pub fn fill_rect(&mut self, x: usize, y: usize, w: usize, h: usize, color: u32)
        ensures
            final(self).width == old(self).width,
            final(self).height == old(self).height,
            final(self).buffer@.len() == old(self).buffer@.len(),
            forall|i: int| 0 <= i < old(self).buffer@.len() ==> #[trigger] final(self).buffer@[i] == if in_row_spans(
                i,
                old(self).width as int,
                old(self).buffer@.len() as int,
                min(x as int, old(self).width as int),
                min(x + w, old(self).width as int),
                min(y as int, old(self).height as int),
                min(y + h, old(self).height as int),
            ) {
                color
            } else {
                old(self).buffer@[i]
            },
    {
        let sw = self.width;
        let sh = self.height;
        let xe = x.saturating_add(w);
        let ye = y.saturating_add(h);
        let x2 = if xe < sw { xe } else { sw };
        let y2 = if ye < sh { ye } else { sh };
        let x1 = if x < sw { x } else { sw };
        let y1 = if y < sh { y } else { sh };
        if x1 < x2 {
            fill_row_spans(&mut *self.buffer, sw, x1, x2, y1, y2, color);
        } else {
            proof {
                assert forall|i: int| 0 <= i < self.buffer@.len() implies !in_row_spans(
                    i,
                    sw as int,
                    self.buffer@.len() as int,
                    x1 as int,
                    x2 as int,
                    y1 as int,
                    y2 as int,
                ) by {}
            }
        }
    }

    /// Copies the pixels that this buffer and `src` have in common (their shorter length) from `src`.
    pub fn copy_from(&mut self, src: &SlideSurface)
        ensures
            final(self).width == old(self).width,
            final(self).height == old(self).height,
            final(self).buffer@.len() == old(self).buffer@.len(),
            forall|i: int| 0 <= i < old(self).buffer@.len() ==> #[trigger] final(self).buffer@[i] == if i
                < src.pixels@.len() {
                src.pixels@[i]
            } else {
                old(self).buffer@[i]
            },
    {
        let n = self.buffer.len();
        let len = if n < src.pixels.len() { n } else { src.pixels.len() };
        let mut i: usize = 0;
        while i < len
            invariant
                self.width == old(self).width,
                self.height == old(self).height,
                n == self.buffer@.len(),
                n == old(self).buffer@.len(),
                len <= n,
                len <= src.pixels@.len(),
                len == n || len == src.pixels@.len(),
                i <= len,
                forall|k: int| 0 <= k < n ==> #[trigger] self.buffer@[k] == if k < i {
                    src.pixels@[k]
                } else {
                    old(self).buffer@[k]
                },
            decreases len - i,
        {
            self.buffer[i] = src.pixels[i];
            i += 1;
        }
    }

    /// Blends `from` (black when absent) towards `to` into the buffer with weight `alpha_256` out of 256,
    /// over the pixels the three have in common.
    pub fn blend_from_to_alpha(&mut self, from: Option<&SlideSurface>, to: &SlideSurface, alpha_256: u32)
        ensures
            final(self).width == old(self).width,
            final(self).height == old(self).height,
            final(self).buffer@.len() == old(self).buffer@.len(),
            forall|i: int| 0 <= i < old(self).buffer@.len() ==> #[trigger] final(self).buffer@[i] == blended_prefix(
                old(self).buffer@,
                match from { Some(f) => Some(f.pixels@), None => None },
                to.pixels@,
                alpha_256,
                i,
            ),
    {
        blend_into(&mut *self.buffer, from, to, alpha_256);
    }
}

} // verus!
