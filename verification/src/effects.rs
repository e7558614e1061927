//! The built-in slide transitions, each drawn from an integer parameter that the caller derives from the
//! transition's progress: a push offset, a fade weight or a dissolve threshold.
use vstd::prelude::*;
use crate::pixel::{blend_255_spec, blend_pixel_255};
use crate::raster::{pix, in_grid, holds_grid, same_outside_grid, write_pixel};
use crate::animation::{SlideSurface, RenderContext};
use crate::chars::chars_of;
use crate::dsl::is_text;

verus! {

/// The pixel of `s` at `(x, y)`, or 0 off the surface.
pub open spec fn surface_pixel(s: SlideSurface, x: int, y: int) -> u32 {
    if 0 <= x < s.width && 0 <= y < s.height {
        pix(s.pixels@, s.width as int, x, y)
    } else {
        0
    }
}

/// The pixel of the outgoing slide at `(x, y)`; black-transparent (0) when there is none.
pub open spec fn from_pixel(from: Option<&SlideSurface>, x: int, y: int) -> u32 {
    match from {
        Some(f) => surface_pixel(*f, x, y),
        None => 0,
    }
}

/// The outgoing slide, when there is one, holds its full grid.
pub open spec fn from_well_formed(from: Option<&SlideSurface>) -> bool {
    match from {
        Some(f) => f.well_formed(),
        None => true,
    }
}

/// A whole-frame transition effect at one instant, with its integer parameter.
#[derive(Clone, Copy, Debug, PartialEq, Eq, Structural)]
pub enum FrameEffect {
    /// The new slide pushes in from the right; the offset is how far it has come.
    SlideLeft(usize),
    /// The new slide pushes in from the left.
    SlideRight(usize),
    /// The new slide pushes in from the bottom.
    SlideUp(usize),
    /// The new slide pushes in from the top.
    SlideDown(usize),
    /// Pixels whose dissolve rank is below the threshold show the new slide.
    Dissolve(u32),
}

/// The per-pixel dissolve rank in `0..1000`, a fixed hash of the coordinates.
pub open spec fn dissolve_rank(x: usize, y: usize) -> u32 {
    let h0 = vstd::wrapping::u32_specs::wrapping_mul(x as u32, 0x45d9f3b) ^ vstd::wrapping::u32_specs::wrapping_mul(
        y as u32,
        0x119de1f,
    );
    let h1 = vstd::wrapping::u32_specs::wrapping_mul((h0 >> 16u32) ^ h0, 0x45d9f3b);
    let h2 = (h1 >> 16u32) ^ h1;
    h2 % 1000
}

/// The push offset of `effect` fits the `w` by `h` frame.
pub open spec fn effect_fits(effect: FrameEffect, w: int, h: int) -> bool {
    match effect {
        FrameEffect::SlideLeft(o) => o <= w && w + o <= usize::MAX,
        FrameEffect::SlideRight(o) => o <= w,
        FrameEffect::SlideUp(o) => o <= h && h + o <= usize::MAX,
        FrameEffect::SlideDown(o) => o <= h,
        FrameEffect::Dissolve(_) => true,
    }
}

/// What `effect` shows at `(x, y)` of a `w` by `h` frame.
pub open spec fn effect_pixel(
    effect: FrameEffect,
    from: Option<&SlideSurface>,
    to: SlideSurface,
    w: int,
    h: int,
    x: int,
    y: int,
) -> u32 {
    match effect {
        FrameEffect::SlideLeft(o) => if x + o < w {
            from_pixel(from, x + o, y)
        } else {
            surface_pixel(to, x + o - w, y)
        },
        FrameEffect::SlideRight(o) => if x < o {
            surface_pixel(to, w - o + x, y)
        } else {
            from_pixel(from, x - o, y)
        },
        FrameEffect::SlideUp(o) => if y + o < h {
            from_pixel(from, x, y + o)
        } else {
            surface_pixel(to, x, y + o - h)
        },
        FrameEffect::SlideDown(o) => if y < o {
            surface_pixel(to, x, h - o + y)
        } else {
            from_pixel(from, x, y - o)
        },
        FrameEffect::Dissolve(reveal) => if dissolve_rank(x as usize, y as usize) < reveal {
            surface_pixel(to, x, y)
        } else {
            from_pixel(from, x, y)
        },
    }
}

/// The dissolve rank of `(x, y)`.
pub fn dissolve_rank_at(x: usize, y: usize) -> (r: u32)
    ensures
        r == dissolve_rank(x, y),
        r < 1000,
{
    let mut h: u32 = (x as u32).wrapping_mul(0x45d9f3b) ^ (y as u32).wrapping_mul(0x119de1f);
    h = ((h >> 16) ^ h).wrapping_mul(0x45d9f3b);
    h = (h >> 16) ^ h;
    h % 1000
}

/// The pixel of `s` at `(x, y)`, or 0 off the surface.
fn surface_pixel_at(s: &SlideSurface, x: usize, y: usize) -> (r: u32)
    requires
        s.well_formed(),
    ensures
        r == surface_pixel(*s, x as int, y as int),
{
    s.get_pixel(x, y)
}

/// The pixel of the outgoing slide at `(x, y)`, or 0.
fn from_pixel_at(from: Option<&SlideSurface>, x: usize, y: usize) -> (r: u32)
    requires
        from_well_formed(from),
    ensures
        r == from_pixel(from, x as int, y as int),
{
    match from {
        Some(f) => surface_pixel_at(f, x, y),
        None => 0,
    }
}

/// What `effect` shows at `(x, y)` of a `w` by `h` frame.
fn effect_pixel_at(
    effect: FrameEffect,
    from: Option<&SlideSurface>,
    to: &SlideSurface,
    w: usize,
    h: usize,
    x: usize,
    y: usize,
) -> (r: u32)
    requires
        from_well_formed(from),
        to.well_formed(),
        effect_fits(effect, w as int, h as int),
        x < w,
        y < h,
    ensures
        r == effect_pixel(effect, from, *to, w as int, h as int, x as int, y as int),
{
    match effect {
        FrameEffect::SlideLeft(o) => if x + o < w {
            from_pixel_at(from, x + o, y)
        } else {
            surface_pixel_at(to, x + o - w, y)
        },
        FrameEffect::SlideRight(o) => if x < o {
            surface_pixel_at(to, w - o + x, y)
        } else {
            from_pixel_at(from, x - o, y)
        },
        FrameEffect::SlideUp(o) => if y + o < h {
            from_pixel_at(from, x, y + o)
        } else {
            surface_pixel_at(to, x, y + o - h)
        },
        FrameEffect::SlideDown(o) => if y < o {
            surface_pixel_at(to, x, h - o + y)
        } else {
            from_pixel_at(from, x, y - o)
        },
        FrameEffect::Dissolve(reveal) => if dissolve_rank_at(x, y) < reveal {
            surface_pixel_at(to, x, y)
        } else {
            from_pixel_at(from, x, y)
        },
    }
}

/// Draws `effect` over the whole frame of `ctx`, row by row.
pub fn render_effect(ctx: &mut RenderContext, from: Option<&SlideSurface>, to: &SlideSurface, effect: FrameEffect)
    requires
        old(ctx).well_formed(),
        from_well_formed(from),
        to.well_formed(),
        effect_fits(effect, old(ctx).width as int, old(ctx).height as int),
    ensures
        final(ctx).width == old(ctx).width,
        final(ctx).height == old(ctx).height,
        same_outside_grid(old(ctx).buffer@, final(ctx).buffer@, old(ctx).width as int, old(ctx).height as int),
        forall|px: int, py: int|
            in_grid(old(ctx).width as int, old(ctx).height as int, px, py) ==> #[trigger] pix(
                final(ctx).buffer@,
                old(ctx).width as int,
                px,
                py,
            ) == effect_pixel(effect, from, *to, old(ctx).width as int, old(ctx).height as int, px, py),
{
    let w = ctx.width;
    let h = ctx.height;
    let mut y: usize = 0;
    while y < h
        invariant
            ctx.width == w,
            ctx.height == h,
            w == old(ctx).width,
            h == old(ctx).height,
            y <= h,
            from_well_formed(from),
            to.well_formed(),
            effect_fits(effect, w as int, h as int),
            holds_grid(ctx.buffer@, w as int, h as int),
            same_outside_grid(old(ctx).buffer@, ctx.buffer@, w as int, h as int),
            forall|px: int, py: int|
                in_grid(w as int, h as int, px, py) ==> #[trigger] pix(ctx.buffer@, w as int, px, py) == if py < y {
                    effect_pixel(effect, from, *to, w as int, h as int, px, py)
                } else {
                    pix(old(ctx).buffer@, w as int, px, py)
                },
        decreases h - y,
    {
        let mut x: usize = 0;
        while x < w
            invariant
                ctx.width == w,
                ctx.height == h,
                w == old(ctx).width,
                h == old(ctx).height,
                y < h,
                x <= w,
                from_well_formed(from),
                to.well_formed(),
                effect_fits(effect, w as int, h as int),
                holds_grid(ctx.buffer@, w as int, h as int),
                same_outside_grid(old(ctx).buffer@, ctx.buffer@, w as int, h as int),
                forall|px: int, py: int|
                    in_grid(w as int, h as int, px, py) ==> #[trigger] pix(ctx.buffer@, w as int, px, py) == if py
                        < y || (py == y && px < x) {
                        effect_pixel(effect, from, *to, w as int, h as int, px, py)
                    } else {
                        pix(old(ctx).buffer@, w as int, px, py)
                    },
            decreases w - x,
        {
            let p = effect_pixel_at(effect, from, to, w, h, x, y);
            write_pixel(&mut *ctx.buffer, w, h, x, y, p);
            x += 1;
        }
        y += 1;
    }
}

/// What a cross-fade with weight `alpha` out of 255 shows at index `i`: a blend of the outgoing slide (when it
/// has as many pixels as the incoming one, else black) towards the incoming slide, over the pixels the frame and
/// the incoming slide have in common.
pub open spec fn crossfade_pixel(old: Seq<u32>, from: Option<&SlideSurface>, to: Seq<u32>, alpha: u32, i: int) -> u32 {
    if i < old.len() && i < to.len() {
        match from {
            Some(f) => if f.pixels@.len() == to.len() {
                blend_255_spec(f.pixels@[i], to[i], alpha)
            } else {
                blend_255_spec(0, to[i], alpha)
            },
            None => blend_255_spec(0, to[i], alpha),
        }
    } else {
        old[i]
    }
}

/// Draws a cross-fade with weight `alpha` out of 255.
pub fn render_crossfade(ctx: &mut RenderContext, from: Option<&SlideSurface>, to: &SlideSurface, alpha: u32)
    requires
        alpha <= 255,
    ensures
        final(ctx).width == old(ctx).width,
        final(ctx).height == old(ctx).height,
        final(ctx).buffer@.len() == old(ctx).buffer@.len(),
        forall|i: int| 0 <= i < old(ctx).buffer@.len() ==> #[trigger] final(ctx).buffer@[i] == crossfade_pixel(
            old(ctx).buffer@,
            from,
            to.pixels@,
            alpha,
            i,
        ),
{
    let n = ctx.buffer.len();
    let len = if n < to.pixels.len() { n } else { to.pixels.len() };
    let same_size = match from {
        Some(f) => f.pixels.len() == to.pixels.len(),
        None => false,
    };
    let mut i: usize = 0;
    while i < len
        invariant
            ctx.width == old(ctx).width,
            ctx.height == old(ctx).height,
            n == ctx.buffer@.len(),
            n == old(ctx).buffer@.len(),
            len <= n,
            len <= to.pixels@.len(),
            len == n || len == to.pixels@.len(),
            alpha <= 255,
            same_size == match from {
                Some(f) => f.pixels@.len() == to.pixels@.len(),
                None => false,
            },
            i <= len,
            forall|k: int| 0 <= k < n ==> #[trigger] ctx.buffer@[k] == if k < i {
                crossfade_pixel(old(ctx).buffer@, from, to.pixels@, alpha, k)
            } else {
                old(ctx).buffer@[k]
            },
        decreases len - i,
    {
        let base = match from {
            Some(f) => if same_size {
                f.pixels[i]
            } else {
                0
            },
            None => 0,
        };
        ctx.buffer[i] = blend_pixel_255(base, to.pixels[i], alpha);
        i += 1;
    }
}


/// An in-slide fragment reveal at one instant, with its integer parameters.
#[derive(Clone, Copy, Debug, PartialEq, Eq, Structural)]
pub enum RegionEffect {
    /// The fragment fades in from the background with weight `alpha` out of 255.
    FadeIn(u32),
    /// The fragment, faded in with weight `.0` out of 255, rises into place from `.1` pixels below.
    SlideUp(u32, usize),
    /// The fragment's columns left of column `.0` are shown as they are, the others still as background.
    Typewriter(usize),
}

/// The smaller of two integers.
pub open spec fn min_int(a: int, b: int) -> int {
    if a < b { a } else { b }
}

/// The weight of a region effect is at most 255.
pub open spec fn region_fits(effect: RegionEffect) -> bool {
    match effect {
        RegionEffect::FadeIn(a) => a <= 255,
        RegionEffect::SlideUp(a, _) => a <= 255,
        RegionEffect::Typewriter(_) => true,
    }
}

/// What `effect` shows at `(x, y)` of the fragment whose clipped bottom edge is `y2`.
pub open spec fn region_pixel(effect: RegionEffect, slide: SlideSurface, bg: u32, y2: int, x: int, y: int) -> u32 {
    match effect {
        RegionEffect::FadeIn(a) => blend_255_spec(bg, surface_pixel(slide, x, y), a),
        RegionEffect::SlideUp(a, o) => if y + o < y2 {
            blend_255_spec(bg, surface_pixel(slide, x, y + o), a)
        } else {
            bg
        },
        RegionEffect::Typewriter(edge) => if x < edge {
            surface_pixel(slide, x, y)
        } else {
            bg
        },
    }
}

/// `(x, y)` lies in the fragment `left..right` by `top..bottom` clipped to a `w` by `h` frame.
pub open spec fn in_clipped(x: int, y: int, left: int, top: int, right: int, bottom: int, w: int, h: int) -> bool {
    min_int(left, w) <= x < min_int(right, w) && min_int(top, h) <= y < min_int(bottom, h)
}

/// Draws `effect` for the fragment `left..right` by `top..bottom` (clipped to the `width` by `height` frame) into
/// `output`, taking the fragment's pixels from `slide`; pixels outside the fragment are left alone.
pub fn render_region(
    effect: RegionEffect,
    left: usize,
    top: usize,
    right: usize,
    bottom: usize,
    slide: &SlideSurface,
    output: &mut [u32],
    width: usize,
    height: usize,
    bg_color: u32,
)
    requires
        holds_grid(old(output)@, width as int, height as int),
        slide.well_formed(),
        region_fits(effect),
    ensures
        same_outside_grid(old(output)@, final(output)@, width as int, height as int),
        forall|px: int, py: int|
            in_grid(width as int, height as int, px, py) ==> #[trigger] pix(final(output)@, width as int, px, py)
                == if in_clipped(px, py, left as int, top as int, right as int, bottom as int, width as int, height as int) {
                region_pixel(effect, *slide, bg_color, min_int(bottom as int, height as int), px, py)
            } else {
                pix(old(output)@, width as int, px, py)
            },
{
    let x1 = if left < width { left } else { width };
    let y1 = if top < height { top } else { height };
    let x2 = if right < width { right } else { width };
    let y2 = if bottom < height { bottom } else { height };
    let mut y = y1;
    while y < y2
        invariant
            x1 == min_int(left as int, width as int),
            y1 == min_int(top as int, height as int),
            x2 == min_int(right as int, width as int),
            y2 == min_int(bottom as int, height as int),
            y1 <= y || y2 <= y,
            x2 <= width,
            y2 <= height,
            slide.well_formed(),
            region_fits(effect),
            holds_grid(output@, width as int, height as int),
            same_outside_grid(old(output)@, output@, width as int, height as int),
            forall|px: int, py: int|
                in_grid(width as int, height as int, px, py) ==> #[trigger] pix(output@, width as int, px, py) == if x1
                    <= px < x2 && y1 <= py < y2 && py < y {
                    region_pixel(effect, *slide, bg_color, y2 as int, px, py)
                } else {
                    pix(old(output)@, width as int, px, py)
                },
        decreases y2 - y,
    {
        let mut x = x1;
        while x < x2
            invariant
                x1 == min_int(left as int, width as int),
                y1 == min_int(top as int, height as int),
                x2 == min_int(right as int, width as int),
                y2 == min_int(bottom as int, height as int),
                y1 <= y < y2,
                x1 <= x || x2 <= x,
                x2 <= width,
                y2 <= height,
                slide.well_formed(),
                region_fits(effect),
                holds_grid(output@, width as int, height as int),
                same_outside_grid(old(output)@, output@, width as int, height as int),
                forall|px: int, py: int|
                    in_grid(width as int, height as int, px, py) ==> #[trigger] pix(output@, width as int, px, py)
                        == if x1 <= px < x2 && y1 <= py < y2 && (py < y || (py == y && px < x)) {
                        region_pixel(effect, *slide, bg_color, y2 as int, px, py)
                    } else {
                        pix(old(output)@, width as int, px, py)
                    },
            decreases x2 - x,
        {
            let p = match effect {
                RegionEffect::FadeIn(a) => blend_pixel_255(bg_color, surface_pixel_at(slide, x, y), a),
                RegionEffect::SlideUp(a, o) => if o < y2 - y {
                    blend_pixel_255(bg_color, surface_pixel_at(slide, x, y + o), a)
                } else {
                    bg_color
                },
                RegionEffect::Typewriter(edge) => if x < edge {
                    surface_pixel_at(slide, x, y)
                } else {
                    bg_color
                },
            };
            write_pixel(output, width, height, x, y, p);
            x += 1;
        }
        y += 1;
    }
}

/// Instant cut to the new slide.
#[derive(Clone, Copy, Debug, PartialEq, Eq, Structural)]
pub struct InstantCut;

impl InstantCut {
    /// The name this effect is registered under.
    pub fn name(&self) -> (r: &'static str)
        ensures
            r@ == "cut"@,
    {
        "cut"
    }

    /// How long the effect runs, in milliseconds.
    pub fn duration_ms(&self) -> (r: u64)
        ensures
            r == 0,
    {
        0
    }

    /// Shows the new slide: copies the pixels the frame and `to` have in common.
    pub fn render(&self, ctx: &mut RenderContext, to: &SlideSurface)
        ensures
            final(ctx).width == old(ctx).width,
            final(ctx).height == old(ctx).height,
            final(ctx).buffer@.len() == old(ctx).buffer@.len(),
            forall|i: int| 0 <= i < old(ctx).buffer@.len() ==> #[trigger] final(ctx).buffer@[i] == if i
                < to.pixels@.len() {
                to.pixels@[i]
            } else {
                old(ctx).buffer@[i]
            },
    {
        ctx.copy_from(to);
    }
}

/// Smooth cross-fade.
#[derive(Clone, Copy, Debug, PartialEq, Eq, Structural)]
pub struct CrossFade;

impl CrossFade {
    /// The name this effect is registered under.
    pub fn name(&self) -> (r: &'static str)
        ensures
            r@ == "fade"@,
    {
        "fade"
    }

    /// How long the effect runs, in milliseconds.
    pub fn duration_ms(&self) -> (r: u64)
        ensures
            r == 400,
    {
        400
    }

    /// Draws the cross-fade at weight `alpha` out of 255.
    pub fn render(&self, ctx: &mut RenderContext, from: Option<&SlideSurface>, to: &SlideSurface, alpha: u32)
        requires
            alpha <= 255,
        ensures
            final(ctx).width == old(ctx).width,
            final(ctx).height == old(ctx).height,
            final(ctx).buffer@.len() == old(ctx).buffer@.len(),
            forall|i: int| 0 <= i < old(ctx).buffer@.len() ==> #[trigger] final(ctx).buffer@[i] == crossfade_pixel(
                old(ctx).buffer@,
                from,
                to.pixels@,
                alpha,
                i,
            ),
    {
        render_crossfade(ctx, from, to, alpha);
    }
}

/// Push from right to left.
#[derive(Clone, Copy, Debug, PartialEq, Eq, Structural)]
pub struct SlideLeft;

impl SlideLeft {
    /// The name this effect is registered under.
    pub fn name(&self) -> (r: &'static str)
        ensures
            r@ == "slide-left"@,
    {
        "slide-left"
    }

    /// How long the effect runs, in milliseconds.
    pub fn duration_ms(&self) -> (r: u64)
        ensures
            r == 450,
    {
        450
    }

    /// Draws the push with the new slide `offset` pixels in.
    pub fn render(&self, ctx: &mut RenderContext, from: Option<&SlideSurface>, to: &SlideSurface, offset: usize)
        requires
            old(ctx).well_formed(),
            from_well_formed(from),
            to.well_formed(),
            effect_fits(FrameEffect::SlideLeft(offset), old(ctx).width as int, old(ctx).height as int),
        ensures
            final(ctx).width == old(ctx).width,
            final(ctx).height == old(ctx).height,
            same_outside_grid(old(ctx).buffer@, final(ctx).buffer@, old(ctx).width as int, old(ctx).height as int),
            forall|px: int, py: int|
                in_grid(old(ctx).width as int, old(ctx).height as int, px, py) ==> #[trigger] pix(
                    final(ctx).buffer@,
                    old(ctx).width as int,
                    px,
                    py,
                ) == effect_pixel(
                    FrameEffect::SlideLeft(offset),
                    from,
                    *to,
                    old(ctx).width as int,
                    old(ctx).height as int,
                    px,
                    py,
                ),
    {
        render_effect(ctx, from, to, FrameEffect::SlideLeft(offset));
    }
}

/// Push from left to right.
#[derive(Clone, Copy, Debug, PartialEq, Eq, Structural)]
pub struct SlideRight;

impl SlideRight {
    /// The name this effect is registered under.
    pub fn name(&self) -> (r: &'static str)
        ensures
            r@ == "slide-right"@,
    {
        "slide-right"
    }

    /// How long the effect runs, in milliseconds.
    pub fn duration_ms(&self) -> (r: u64)
        ensures
            r == 450,
    {
        450
    }

    /// Draws the push with the new slide `offset` pixels in.
    pub fn render(&self, ctx: &mut RenderContext, from: Option<&SlideSurface>, to: &SlideSurface, offset: usize)
        requires
            old(ctx).well_formed(),
            from_well_formed(from),
            to.well_formed(),
            effect_fits(FrameEffect::SlideRight(offset), old(ctx).width as int, old(ctx).height as int),
        ensures
            final(ctx).width == old(ctx).width,
            final(ctx).height == old(ctx).height,
            same_outside_grid(old(ctx).buffer@, final(ctx).buffer@, old(ctx).width as int, old(ctx).height as int),
            forall|px: int, py: int|
                in_grid(old(ctx).width as int, old(ctx).height as int, px, py) ==> #[trigger] pix(
                    final(ctx).buffer@,
                    old(ctx).width as int,
                    px,
                    py,
                ) == effect_pixel(
                    FrameEffect::SlideRight(offset),
                    from,
                    *to,
                    old(ctx).width as int,
                    old(ctx).height as int,
                    px,
                    py,
                ),
    {
        render_effect(ctx, from, to, FrameEffect::SlideRight(offset));
    }
}

/// Particle dissolve.
#[derive(Clone, Copy, Debug, PartialEq, Eq, Structural)]
pub struct ParticleDissolve;

impl ParticleDissolve {
    /// The name this effect is registered under.
    pub fn name(&self) -> (r: &'static str)
        ensures
            r@ == "particles"@,
    {
        "particles"
    }

    /// How long the effect runs, in milliseconds.
    pub fn duration_ms(&self) -> (r: u64)
        ensures
            r == 600,
    {
        600
    }

    /// Draws the dissolve with every pixel whose rank is below `reveal` (out of 1000) showing the new slide.
    pub fn render(&self, ctx: &mut RenderContext, from: Option<&SlideSurface>, to: &SlideSurface, reveal: u32)
        requires
            old(ctx).well_formed(),
            from_well_formed(from),
            to.well_formed(),
        ensures
            final(ctx).width == old(ctx).width,
            final(ctx).height == old(ctx).height,
            same_outside_grid(old(ctx).buffer@, final(ctx).buffer@, old(ctx).width as int, old(ctx).height as int),
            forall|px: int, py: int|
                in_grid(old(ctx).width as int, old(ctx).height as int, px, py) ==> #[trigger] pix(
                    final(ctx).buffer@,
                    old(ctx).width as int,
                    px,
                    py,
                ) == effect_pixel(
                    FrameEffect::Dissolve(reveal),
                    from,
                    *to,
                    old(ctx).width as int,
                    old(ctx).height as int,
                    px,
                    py,
                ),
    {
        render_effect(ctx, from, to, FrameEffect::Dissolve(reveal));
    }
}

/// Zoom / radial wipe.
#[derive(Clone, Copy, Debug, PartialEq, Eq, Structural)]
pub struct ZoomWipe;

impl ZoomWipe {
    /// The name this effect is registered under.
    pub fn name(&self) -> (r: &'static str)
        ensures
            r@ == "zoom"@,
    {
        "zoom"
    }

    /// How long the effect runs, in milliseconds.
    pub fn duration_ms(&self) -> (r: u64)
        ensures
            r == 500,
    {
        500
    }
}

/// Push from bottom to top.
#[derive(Clone, Copy, Debug, PartialEq, Eq, Structural)]
pub struct SlideUp;

impl SlideUp {
    /// The name this effect is registered under.
    pub fn name(&self) -> (r: &'static str)
        ensures
            r@ == "slide-up"@,
    {
        "slide-up"
    }

    /// How long the effect runs, in milliseconds.
    pub fn duration_ms(&self) -> (r: u64)
        ensures
            r == 450,
    {
        450
    }

    /// Draws the push with the new slide `offset` pixels in.
    pub fn render(&self, ctx: &mut RenderContext, from: Option<&SlideSurface>, to: &SlideSurface, offset: usize)
        requires
            old(ctx).well_formed(),
            from_well_formed(from),
            to.well_formed(),
            effect_fits(FrameEffect::SlideUp(offset), old(ctx).width as int, old(ctx).height as int),
        ensures
            final(ctx).width == old(ctx).width,
            final(ctx).height == old(ctx).height,
            same_outside_grid(old(ctx).buffer@, final(ctx).buffer@, old(ctx).width as int, old(ctx).height as int),
            forall|px: int, py: int|
                in_grid(old(ctx).width as int, old(ctx).height as int, px, py) ==> #[trigger] pix(
                    final(ctx).buffer@,
                    old(ctx).width as int,
                    px,
                    py,
                ) == effect_pixel(
                    FrameEffect::SlideUp(offset),
                    from,
                    *to,
                    old(ctx).width as int,
                    old(ctx).height as int,
                    px,
                    py,
                ),
    {
        render_effect(ctx, from, to, FrameEffect::SlideUp(offset));
    }
}

/// Push from top to bottom.
#[derive(Clone, Copy, Debug, PartialEq, Eq, Structural)]
pub struct SlideDown;

impl SlideDown {
    /// The name this effect is registered under.
    pub fn name(&self) -> (r: &'static str)
        ensures
            r@ == "slide-down"@,
    {
        "slide-down"
    }

    /// How long the effect runs, in milliseconds.
    pub fn duration_ms(&self) -> (r: u64)
        ensures
            r == 450,
    {
        450
    }

    /// Draws the push with the new slide `offset` pixels in.
    pub fn render(&self, ctx: &mut RenderContext, from: Option<&SlideSurface>, to: &SlideSurface, offset: usize)
        requires
            old(ctx).well_formed(),
            from_well_formed(from),
            to.well_formed(),
            effect_fits(FrameEffect::SlideDown(offset), old(ctx).width as int, old(ctx).height as int),
        ensures
            final(ctx).width == old(ctx).width,
            final(ctx).height == old(ctx).height,
            same_outside_grid(old(ctx).buffer@, final(ctx).buffer@, old(ctx).width as int, old(ctx).height as int),
            forall|px: int, py: int|
                in_grid(old(ctx).width as int, old(ctx).height as int, px, py) ==> #[trigger] pix(
                    final(ctx).buffer@,
                    old(ctx).width as int,
                    px,
                    py,
                ) == effect_pixel(
                    FrameEffect::SlideDown(offset),
                    from,
                    *to,
                    old(ctx).width as int,
                    old(ctx).height as int,
                    px,
                    py,
                ),
    {
        render_effect(ctx, from, to, FrameEffect::SlideDown(offset));
    }
}

/// Soft linear wipe from right to left.
#[derive(Clone, Copy, Debug, PartialEq, Eq, Structural)]
pub struct WipeLeft;

impl WipeLeft {
    /// The name this effect is registered under.
    pub fn name(&self) -> (r: &'static str)
        ensures
            r@ == "wipe-left"@,
    {
        "wipe-left"
    }

    /// How long the effect runs, in milliseconds.
    pub fn duration_ms(&self) -> (r: u64)
        ensures
            r == 500,
    {
        500
    }
}

/// Soft linear wipe from left to right.
#[derive(Clone, Copy, Debug, PartialEq, Eq, Structural)]
pub struct WipeRight;

impl WipeRight {
    /// The name this effect is registered under.
    pub fn name(&self) -> (r: &'static str)
        ensures
            r@ == "wipe-right"@,
    {
        "wipe-right"
    }

    /// How long the effect runs, in milliseconds.
    pub fn duration_ms(&self) -> (r: u64)
        ensures
            r == 500,
    {
        500
    }
}

/// Circular iris reveal.
#[derive(Clone, Copy, Debug, PartialEq, Eq, Structural)]
pub struct IrisWipe;

impl IrisWipe {
    /// The name this effect is registered under.
    pub fn name(&self) -> (r: &'static str)
        ensures
            r@ == "iris"@,
    {
        "iris"
    }

    /// How long the effect runs, in milliseconds.
    pub fn duration_ms(&self) -> (r: u64)
        ensures
            r == 550,
    {
        550
    }
}

/// Digital glitch scanlines with chromatic displacement.
#[derive(Clone, Copy, Debug, PartialEq, Eq, Structural)]
pub struct CyberGlitch;

impl CyberGlitch {
    /// The name this effect is registered under.
    pub fn name(&self) -> (r: &'static str)
        ensures
            r@ == "glitch"@,
    {
        "glitch"
    }

    /// How long the effect runs, in milliseconds.
    pub fn duration_ms(&self) -> (r: u64)
        ensures
            r == 450,
    {
        450
    }
}

/// Simulated cube rotation.
#[derive(Clone, Copy, Debug, PartialEq, Eq, Structural)]
pub struct Cube3D;

impl Cube3D {
    /// The name this effect is registered under.
    pub fn name(&self) -> (r: &'static str)
        ensures
            r@ == "cube"@,
    {
        "cube"
    }

    /// How long the effect runs, in milliseconds.
    pub fn duration_ms(&self) -> (r: u64)
        ensures
            r == 500,
    {
        500
    }
}

/// Fragment fade-in.
#[derive(Clone, Copy, Debug, PartialEq, Eq, Structural)]
pub struct ComponentFadeIn;

impl ComponentFadeIn {
    /// The name this effect is registered under.
    pub fn name(&self) -> (r: &'static str)
        ensures
            r@ == "fade-in"@,
    {
        "fade-in"
    }

    /// How long the effect runs, in milliseconds.
    pub fn duration_ms(&self) -> (r: u64)
        ensures
            r == 300,
    {
        300
    }

    /// Reveals the fragment `left..right` by `top..bottom` faded in with weight `alpha` out of 255.
    pub fn render(
        &self,
        alpha: u32,
        left: usize,
        top: usize,
        right: usize,
        bottom: usize,
        slide: &SlideSurface,
        output: &mut [u32],
        width: usize,
        height: usize,
        bg_color: u32,
    )
        requires
            holds_grid(old(output)@, width as int, height as int),
            slide.well_formed(),
            alpha <= 255,
        ensures
            same_outside_grid(old(output)@, final(output)@, width as int, height as int),
            forall|px: int, py: int|
                in_grid(width as int, height as int, px, py) ==> #[trigger] pix(final(output)@, width as int, px, py)
                    == if in_clipped(
                    px,
                    py,
                    left as int,
                    top as int,
                    right as int,
                    bottom as int,
                    width as int,
                    height as int,
                ) {
                    region_pixel(RegionEffect::FadeIn(alpha), *slide, bg_color, min_int(bottom as int, height as int), px, py)
                } else {
                    pix(old(output)@, width as int, px, py)
                },
    {
        render_region(RegionEffect::FadeIn(alpha), left, top, right, bottom, slide, output, width, height, bg_color);
    }
}

/// Fragment slide up and reveal.
#[derive(Clone, Copy, Debug, PartialEq, Eq, Structural)]
pub struct ComponentSlideUp;

impl ComponentSlideUp {
    /// The name this effect is registered under.
    pub fn name(&self) -> (r: &'static str)
        ensures
            r@ == "slide-up"@,
    {
        "slide-up"
    }

    /// How long the effect runs, in milliseconds.
    pub fn duration_ms(&self) -> (r: u64)
        ensures
            r == 300,
    {
        300
    }

    /// Reveals the fragment faded in with weight `alpha` out of 255, `offset` pixels short of its place.
    pub fn render(
        &self,
        alpha: u32,
        offset: usize,
        left: usize,
        top: usize,
        right: usize,
        bottom: usize,
        slide: &SlideSurface,
        output: &mut [u32],
        width: usize,
        height: usize,
        bg_color: u32,
    )
        requires
            holds_grid(old(output)@, width as int, height as int),
            slide.well_formed(),
            alpha <= 255,
        ensures
            same_outside_grid(old(output)@, final(output)@, width as int, height as int),
            forall|px: int, py: int|
                in_grid(width as int, height as int, px, py) ==> #[trigger] pix(final(output)@, width as int, px, py)
                    == if in_clipped(
                    px,
                    py,
                    left as int,
                    top as int,
                    right as int,
                    bottom as int,
                    width as int,
                    height as int,
                ) {
                    region_pixel(RegionEffect::SlideUp(alpha, offset), *slide, bg_color, min_int(bottom as int, height as int), px, py)
                } else {
                    pix(old(output)@, width as int, px, py)
                },
    {
        render_region(RegionEffect::SlideUp(alpha, offset), left, top, right, bottom, slide, output, width, height, bg_color);
    }
}

/// Fragment zoom-in.
#[derive(Clone, Copy, Debug, PartialEq, Eq, Structural)]
pub struct ComponentZoomIn;

impl ComponentZoomIn {
    /// The name this effect is registered under.
    pub fn name(&self) -> (r: &'static str)
        ensures
            r@ == "zoom-in"@,
    {
        "zoom-in"
    }

    /// How long the effect runs, in milliseconds.
    pub fn duration_ms(&self) -> (r: u64)
        ensures
            r == 300,
    {
        300
    }
}

/// Fragment scanline glitch reveal.
#[derive(Clone, Copy, Debug, PartialEq, Eq, Structural)]
pub struct ComponentGlitch;

impl ComponentGlitch {
    /// The name this effect is registered under.
    pub fn name(&self) -> (r: &'static str)
        ensures
            r@ == "glitch"@,
    {
        "glitch"
    }

    /// How long the effect runs, in milliseconds.
    pub fn duration_ms(&self) -> (r: u64)
        ensures
            r == 250,
    {
        250
    }
}

/// Fragment left-to-right wipe.
#[derive(Clone, Copy, Debug, PartialEq, Eq, Structural)]
pub struct ComponentWipe;

impl ComponentWipe {
    /// The name this effect is registered under.
    pub fn name(&self) -> (r: &'static str)
        ensures
            r@ == "wipe"@,
    {
        "wipe"
    }

    /// How long the effect runs, in milliseconds.
    pub fn duration_ms(&self) -> (r: u64)
        ensures
            r == 300,
    {
        300
    }
}


/// The width in pixels of one typed character of the typewriter reveal.
pub const TYPEWRITER_CELL: usize = 8;

/// The column up to which the typewriter reveal of a fragment starting at `left` shows it after `cells`
/// characters (the last column when that lies beyond the machine's range).
pub open spec fn typewriter_edge(left: int, cells: int) -> int {
    if left + TYPEWRITER_CELL * cells <= usize::MAX {
        left + TYPEWRITER_CELL * cells
    } else {
        usize::MAX as int
    }
}

/// Fragment typewriter reveal: the fragment appears from the left one character cell at a time.
#[derive(Clone, Copy, Debug, PartialEq, Eq, Structural)]
pub struct ComponentTypewriter;

impl ComponentTypewriter {
    /// The name this effect is registered under.
    pub fn name(&self) -> (r: &'static str)
        ensures
            r@ == "typewriter"@,
    {
        "typewriter"
    }

    /// How long the effect runs, in milliseconds.
    pub fn duration_ms(&self) -> (r: u64)
        ensures
            r == 600,
    {
        600
    }

    /// Reveals the first `cells` character cells of the fragment `left..right` by `top..bottom`; the rest of the
    /// fragment shows the background.
    pub fn render(
        &self,
        cells: usize,
        left: usize,
        top: usize,
        right: usize,
        bottom: usize,
        slide: &SlideSurface,
        output: &mut [u32],
        width: usize,
        height: usize,
        bg_color: u32,
    )
        requires
            holds_grid(old(output)@, width as int, height as int),
            slide.well_formed(),
        ensures
            same_outside_grid(old(output)@, final(output)@, width as int, height as int),
            forall|px: int, py: int|
                in_grid(width as int, height as int, px, py) ==> #[trigger] pix(final(output)@, width as int, px, py)
                    == if in_clipped(
                    px,
                    py,
                    left as int,
                    top as int,
                    right as int,
                    bottom as int,
                    width as int,
                    height as int,
                ) {
                    if px < typewriter_edge(left as int, cells as int) {
                        surface_pixel(*slide, px, py)
                    } else {
                        bg_color
                    }
                } else {
                    pix(old(output)@, width as int, px, py)
                },
    {
        let edge = if cells <= (usize::MAX - left) / TYPEWRITER_CELL {
            assert(TYPEWRITER_CELL * cells <= usize::MAX - left) by (nonlinear_arith)
                requires
                    cells <= (usize::MAX - left) / 8,
                    TYPEWRITER_CELL == 8,
            ;
            left + TYPEWRITER_CELL * cells
        } else {
            assert(TYPEWRITER_CELL * cells > usize::MAX - left) by (nonlinear_arith)
                requires
                    cells > (usize::MAX - left) / 8,
                    TYPEWRITER_CELL == 8,
            ;
            usize::MAX
        };
        render_region(RegionEffect::Typewriter(edge), left, top, right, bottom, slide, output, width, height, bg_color);
    }
}

/// The slide transitions of the default registry.
#[derive(Clone, Copy, Debug, PartialEq, Eq, Structural)]
pub enum TransitionKind {
    Cut,
    Fade,
    SlideLeft,
    SlideRight,
    SlideUp,
    SlideDown,
    Zoom,
    WipeLeft,
    WipeRight,
    Iris,
    Glitch,
    Cube,
    Particles,
}

/// The transition registered under `name`; the cross-fade when no transition is registered under it.
pub open spec fn transition_for(name: Seq<char>) -> TransitionKind {
    if name == "cut"@ {
        TransitionKind::Cut
    } else if name == "slide-left"@ {
        TransitionKind::SlideLeft
    } else if name == "slide-right"@ {
        TransitionKind::SlideRight
    } else if name == "slide-up"@ {
        TransitionKind::SlideUp
    } else if name == "slide-down"@ {
        TransitionKind::SlideDown
    } else if name == "zoom"@ {
        TransitionKind::Zoom
    } else if name == "wipe-left"@ {
        TransitionKind::WipeLeft
    } else if name == "wipe-right"@ {
        TransitionKind::WipeRight
    } else if name == "iris"@ {
        TransitionKind::Iris
    } else if name == "glitch"@ {
        TransitionKind::Glitch
    } else if name == "cube"@ {
        TransitionKind::Cube
    } else if name == "particles"@ {
        TransitionKind::Particles
    } else {
        TransitionKind::Fade
    }
}

/// Looks up the transition registered under `name`, falling back to the cross-fade.
pub fn transition_named(name: &str) -> (r: TransitionKind)
    ensures
        r == transition_for(name@),
{
    let n = chars_of(name);
    if is_text(&n, "cut") {
        TransitionKind::Cut
    } else if is_text(&n, "slide-left") {
        TransitionKind::SlideLeft
    } else if is_text(&n, "slide-right") {
        TransitionKind::SlideRight
    } else if is_text(&n, "slide-up") {
        TransitionKind::SlideUp
    } else if is_text(&n, "slide-down") {
        TransitionKind::SlideDown
    } else if is_text(&n, "zoom") {
        TransitionKind::Zoom
    } else if is_text(&n, "wipe-left") {
        TransitionKind::WipeLeft
    } else if is_text(&n, "wipe-right") {
        TransitionKind::WipeRight
    } else if is_text(&n, "iris") {
        TransitionKind::Iris
    } else if is_text(&n, "glitch") {
        TransitionKind::Glitch
    } else if is_text(&n, "cube") {
        TransitionKind::Cube
    } else if is_text(&n, "particles") {
        TransitionKind::Particles
    } else {
        TransitionKind::Fade
    }
}

/// The build-step reveals of the default registry.
#[derive(Clone, Copy, Debug, PartialEq, Eq, Structural)]
pub enum RevealKind {
    FadeIn,
    SlideUp,
    ZoomIn,
    Glitch,
    Wipe,
    Typewriter,
}

/// The reveal registered under `name`; the fade-in when no reveal is registered under it.
pub open spec fn reveal_for(name: Seq<char>) -> RevealKind {
    if name == "typewriter"@ {
        RevealKind::Typewriter
    } else if name == "slide-up"@ {
        RevealKind::SlideUp
    } else if name == "zoom-in"@ {
        RevealKind::ZoomIn
    } else if name == "glitch"@ {
        RevealKind::Glitch
    } else if name == "wipe"@ {
        RevealKind::Wipe
    } else {
        RevealKind::FadeIn
    }
}

/// Looks up the reveal registered under `name`, falling back to the fade-in.
pub fn reveal_named(name: &str) -> (r: RevealKind)
    ensures
        r == reveal_for(name@),
{
    let n = chars_of(name);
    if is_text(&n, "typewriter") {
        RevealKind::Typewriter
    } else if is_text(&n, "slide-up") {
        RevealKind::SlideUp
    } else if is_text(&n, "zoom-in") {
        RevealKind::ZoomIn
    } else if is_text(&n, "glitch") {
        RevealKind::Glitch
    } else if is_text(&n, "wipe") {
        RevealKind::Wipe
    } else {
        RevealKind::FadeIn
    }
}

} // verus!
