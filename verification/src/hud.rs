//! Presenter HUD drawing onto a row-major ARGB frame buffer.
use vstd::prelude::*;
use vstd::string::StringSliceAdditionalSpecFns;
use vstd::arithmetic::div_mod::lemma_fundamental_div_mod_converse;
use crate::pixel::{blend_spec, blend_pixel_fast};
use crate::font::{glyph_bit, glyph_rows, to_ascii_upper, glyph, ascii_upper};
use crate::chars::{chars_of, string_of};
use crate::raster::{pix, in_grid, holds_grid, same_outside_grid, in_rect, read_pixel, write_pixel};

verus! {

/// Fills the part of the rectangle `(x, y, w, h)` that lies on the screen with `color`.
pub fn fill_rect(
    buffer: &mut [u32],
    width: usize,
    height: usize,
    x: usize,
    y: usize,
    w: usize,
    h: usize,
    color: u32,
)
    requires
        holds_grid(old(buffer)@, width as int, height as int),
        x + w <= usize::MAX,
        y + h <= usize::MAX,
    ensures
        same_outside_grid(old(buffer)@, final(buffer)@, width as int, height as int),
        forall|px: int, py: int|
            in_grid(width as int, height as int, px, py) ==> #[trigger] pix(final(buffer)@, width as int, px, py)
                == if in_rect(px, py, x as int, y as int, w as int, h as int) {
                color
            } else {
                pix(old(buffer)@, width as int, px, py)
            },
{
    let x2 = if x + w < width { x + w } else { width };
    let y2 = if y + h < height { y + h } else { height };
    let x1 = if x < width { x } else { width };
    let mut py = if y < height { y } else { height };
    while py < y2
        invariant
            holds_grid(old(buffer)@, width as int, height as int),
            same_outside_grid(old(buffer)@, buffer@, width as int, height as int),
            x2 as int == if x + w < width { x + w } else { width as int },
            y2 as int == if y + h < height { y + h } else { height as int },
            x1 as int == if x < width { x as int } else { width as int },
            y <= py || y2 <= py,
            forall|px: int, qy: int|
                in_grid(width as int, height as int, px, qy) ==> #[trigger] pix(buffer@, width as int, px, qy)
                    == if in_rect(px, qy, x as int, y as int, w as int, h as int) && qy < py {
                    color
                } else {
                    pix(old(buffer)@, width as int, px, qy)
                },
        decreases y2 - py,
    {
        let mut px = x1;
        while px < x2
            invariant
                holds_grid(old(buffer)@, width as int, height as int),
                same_outside_grid(old(buffer)@, buffer@, width as int, height as int),
                x2 as int == if x + w < width { x + w } else { width as int },
                y2 as int == if y + h < height { y + h } else { height as int },
                x1 as int == if x < width { x as int } else { width as int },
                y <= py < y2,
                x1 <= px,
                forall|qx: int, qy: int|
                    in_grid(width as int, height as int, qx, qy) ==> #[trigger] pix(buffer@, width as int, qx, qy)
                        == if in_rect(qx, qy, x as int, y as int, w as int, h as int) && (qy < py || (qy
                        == py && qx < px)) {
                        color
                    } else {
                        pix(old(buffer)@, width as int, qx, qy)
                    },
            decreases x2 - px,
        {
            write_pixel(buffer, width, height, px, py, color);
            px += 1;
        }
        py += 1;
    }
}

/// Blends `color` with weight `alpha_256` (out of 256) over the on-screen part of the rectangle `(x, y, w, h)`.
pub fn fill_rect_alpha(
    buffer: &mut [u32],
    width: usize,
    height: usize,
    x: usize,
    y: usize,
    w: usize,
    h: usize,
    color: u32,
    alpha_256: u32,
)
    requires
        holds_grid(old(buffer)@, width as int, height as int),
        x + w <= usize::MAX,
        y + h <= usize::MAX,
    ensures
        same_outside_grid(old(buffer)@, final(buffer)@, width as int, height as int),
        forall|px: int, py: int|
            in_grid(width as int, height as int, px, py) ==> #[trigger] pix(final(buffer)@, width as int, px, py)
                == if in_rect(px, py, x as int, y as int, w as int, h as int) {
                blend_spec(pix(old(buffer)@, width as int, px, py), color, alpha_256)
            } else {
                pix(old(buffer)@, width as int, px, py)
            },
{
    let x2 = if x + w < width { x + w } else { width };
    let y2 = if y + h < height { y + h } else { height };
    let x1 = if x < width { x } else { width };
    let mut py = if y < height { y } else { height };
    while py < y2
        invariant
            holds_grid(old(buffer)@, width as int, height as int),
            same_outside_grid(old(buffer)@, buffer@, width as int, height as int),
            x2 as int == if x + w < width { x + w } else { width as int },
            y2 as int == if y + h < height { y + h } else { height as int },
            x1 as int == if x < width { x as int } else { width as int },
            y <= py || y2 <= py,
            forall|px: int, qy: int|
                in_grid(width as int, height as int, px, qy) ==> #[trigger] pix(buffer@, width as int, px, qy)
                    == if in_rect(px, qy, x as int, y as int, w as int, h as int) && qy < py {
                    blend_spec(pix(old(buffer)@, width as int, px, qy), color, alpha_256)
                } else {
                    pix(old(buffer)@, width as int, px, qy)
                },
        decreases y2 - py,
    {
        let mut px = x1;
        while px < x2
            invariant
                holds_grid(old(buffer)@, width as int, height as int),
                same_outside_grid(old(buffer)@, buffer@, width as int, height as int),
                x2 as int == if x + w < width { x + w } else { width as int },
                y2 as int == if y + h < height { y + h } else { height as int },
                x1 as int == if x < width { x as int } else { width as int },
                y <= py < y2,
                x1 <= px,
                forall|qx: int, qy: int|
                    in_grid(width as int, height as int, qx, qy) ==> #[trigger] pix(buffer@, width as int, qx, qy)
                        == if in_rect(qx, qy, x as int, y as int, w as int, h as int) && (qy < py || (qy
                        == py && qx < px)) {
                        blend_spec(pix(old(buffer)@, width as int, qx, qy), color, alpha_256)
                    } else {
                        pix(old(buffer)@, width as int, qx, qy)
                    },
            decreases x2 - px,
        {
            let bg = read_pixel(buffer, width, height, px, py);
            let blended = blend_pixel_fast(bg, color, alpha_256);
            write_pixel(buffer, width, height, px, py, blended);
            px += 1;
        }
        py += 1;
    }
}

/// The corners of the outline drawn for `(x, y, w, h)`: the far edge is clipped to the last column and row.
pub open spec fn outline_far(start: int, len: int, limit: int) -> int {
    if start + len - 1 < limit - 1 { start + len - 1 } else { limit - 1 }
}

/// `(px, py)` lies on the 1-pixel outline of the rectangle `(x, y, w, h)` clipped to the screen.
pub open spec fn on_outline(px: int, py: int, x: int, y: int, w: int, h: int, width: int, height: int) -> bool {
    let x2 = outline_far(x, w, width);
    let y2 = outline_far(y, h, height);
    &&& w > 0 && h > 0 && x < width && y < height
    &&& ((x <= px <= x2 && (py == y || py == y2)) || (y <= py <= y2 && (px == x || px == x2)))
}

/// Draws the 1-pixel outline of the rectangle `(x, y, w, h)`; nothing when it is empty or starts off screen.
pub fn draw_rect_outline(
    buffer: &mut [u32],
    width: usize,
    height: usize,
    x: usize,
    y: usize,
    w: usize,
    h: usize,
    color: u32,
)
    requires
        holds_grid(old(buffer)@, width as int, height as int),
        w == 0 || h == 0 || x >= width || y >= height || (x + w <= usize::MAX && y + h <= usize::MAX),
    ensures
        same_outside_grid(old(buffer)@, final(buffer)@, width as int, height as int),
        forall|px: int, py: int|
            in_grid(width as int, height as int, px, py) ==> #[trigger] pix(final(buffer)@, width as int, px, py)
                == if on_outline(px, py, x as int, y as int, w as int, h as int, width as int, height as int) {
                color
            } else {
                pix(old(buffer)@, width as int, px, py)
            },
{
    if w == 0 || h == 0 || x >= width || y >= height {
        return;
    }
    let x2 = if x + w - 1 < width - 1 { x + w - 1 } else { width - 1 };
    let y2 = if y + h - 1 < height - 1 { y + h - 1 } else { height - 1 };
    let ghost ow = w as int;
    let ghost oh = h as int;
    let mut px = x;
    while px <= x2
        invariant
            holds_grid(old(buffer)@, width as int, height as int),
            same_outside_grid(old(buffer)@, buffer@, width as int, height as int),
            x < width, y < height, w > 0, h > 0,
            x2 == outline_far(x as int, w as int, width as int),
            y2 == outline_far(y as int, h as int, height as int),
            x <= px <= x2 + 1,
            forall|qx: int, qy: int|
                in_grid(width as int, height as int, qx, qy) ==> #[trigger] pix(buffer@, width as int, qx, qy)
                    == if x <= qx < px && (qy == y || qy == y2) {
                    color
                } else {
                    pix(old(buffer)@, width as int, qx, qy)
                },
        decreases x2 + 1 - px,
    {
        write_pixel(buffer, width, height, px, y, color);
        write_pixel(buffer, width, height, px, y2, color);
        px += 1;
    }
    let mut py = y;
    while py <= y2
        invariant
            holds_grid(old(buffer)@, width as int, height as int),
            same_outside_grid(old(buffer)@, buffer@, width as int, height as int),
            x < width, y < height, w > 0, h > 0,
            x2 == outline_far(x as int, w as int, width as int),
            y2 == outline_far(y as int, h as int, height as int),
            y <= py <= y2 + 1,
            forall|qx: int, qy: int|
                in_grid(width as int, height as int, qx, qy) ==> #[trigger] pix(buffer@, width as int, qx, qy)
                    == if (x <= qx <= x2 && (qy == y || qy == y2)) || (y <= qy < py && (qx == x || qx == x2)) {
                    color
                } else {
                    pix(old(buffer)@, width as int, qx, qy)
                },
        decreases y2 + 1 - py,
    {
        write_pixel(buffer, width, height, x, py, color);
        write_pixel(buffer, width, height, x2, py, color);
        py += 1;
    }
}

/// Column `px` of a dashed line that starts at `x1` falls on a dash of length `dash` repeating every `dash + gap`.
pub open spec fn on_dash(px: int, x1: int, dash: int, gap: int) -> bool {
    (px - x1) % (dash + gap) < dash
}

/// Draws a horizontal dashed line on row `y` over the columns `x1..x2` (clipped to the screen).
pub fn draw_dashed_hline(
    buffer: &mut [u32],
    width: usize,
    height: usize,
    x1: usize,
    x2: usize,
    y: usize,
    color: u32,
    dash_len: usize,
    gap_len: usize,
)
    requires
        holds_grid(old(buffer)@, width as int, height as int),
        y >= height || x1 >= x2 || x1 >= width || (dash_len + gap_len > 0 && width + dash_len + gap_len <= usize::MAX),
    ensures
        same_outside_grid(old(buffer)@, final(buffer)@, width as int, height as int),
        forall|px: int, py: int|
            in_grid(width as int, height as int, px, py) ==> #[trigger] pix(final(buffer)@, width as int, px, py)
                == if py == y && x1 <= px < x2 && on_dash(px, x1 as int, dash_len as int, gap_len as int) {
                color
            } else {
                pix(old(buffer)@, width as int, px, py)
            },
{
    if y >= height {
        return;
    }
    let ghost period = dash_len + gap_len;
    let ghost limit: int = if x2 < width { x2 as int } else { width as int };
    let ghost mut k: int = 0;
    let mut px = x1;
    while px < x2 && px < width
        invariant
            holds_grid(old(buffer)@, width as int, height as int),
            same_outside_grid(old(buffer)@, buffer@, width as int, height as int),
            y < height,
            limit == if x2 < width { x2 as int } else { width as int },
            x1 >= limit || (period > 0 && width + period <= usize::MAX),
            period == dash_len + gap_len,
            k >= 0,
            px == x1 + k * period,
            px >= x1,
            px < limit ==> px <= width,
            forall|qx: int, qy: int|
                in_grid(width as int, height as int, qx, qy) ==> #[trigger] pix(buffer@, width as int, qx, qy)
                    == if qy == y && x1 <= qx < px && qx < limit && on_dash(qx, x1 as int, dash_len as int, gap_len as int) {
                    color
                } else {
                    pix(old(buffer)@, width as int, qx, qy)
                },
        decreases if px < limit { limit - px } else { 0 },
    {
        let a = px + dash_len;
        let b = if a < x2 { a } else { x2 };
        let seg_end = if b < width { b } else { width };
        let mut cx = px;
        while cx < seg_end
            invariant
                holds_grid(old(buffer)@, width as int, height as int),
                same_outside_grid(old(buffer)@, buffer@, width as int, height as int),
                y < height,
                px <= cx <= seg_end,
                seg_end <= width,
                seg_end as int == if px + dash_len < limit { px + dash_len } else { limit },
                px < limit,
                limit == if x2 < width { x2 as int } else { width as int },
                period > 0 && width + period <= usize::MAX,
                period == dash_len + gap_len,
                k >= 0,
                px == x1 + k * period,
                px >= x1,
                forall|qx: int, qy: int|
                    in_grid(width as int, height as int, qx, qy) ==> #[trigger] pix(buffer@, width as int, qx, qy)
                        == if qy == y && ((x1 <= qx < px && qx < limit && on_dash(qx, x1 as int, dash_len as int, gap_len as int)) || px <= qx < cx) {
                        color
                    } else {
                        pix(old(buffer)@, width as int, qx, qy)
                    },
            decreases seg_end - cx,
        {
            write_pixel(buffer, width, height, cx, y, color);
            cx += 1;
        }
        proof {
            assert forall|qx: int, qy: int|
                in_grid(width as int, height as int, qx, qy) implies #[trigger] pix(buffer@, width as int, qx, qy)
                    == if qy == y && x1 <= qx < px + period && qx < limit && on_dash(qx, x1 as int, dash_len as int, gap_len as int) {
                    color
                } else {
                    pix(old(buffer)@, width as int, qx, qy)
                } by {
                if px <= qx < px + period {
                    lemma_fundamental_div_mod_converse(qx - x1, period, k, qx - px);
                }
            }
            k = k + 1;
            assert(px + period == x1 + k * period) by (nonlinear_arith)
                requires px == x1 + (k - 1) * period;
        }
        px = px + dash_len + gap_len;
    }
}

/// What drawing a character can change: only pixels of the 5x7 box at its corner; a space sets none; a letter
/// draws as its ASCII upper-case form does.
pub proof fn law_glyph_pixels(c: char, col: int, row: int)
    ensures
        glyph_bit(c, col, row) ==> 0 <= col < 5 && 0 <= row < 7,
        !glyph_bit(' ', col, row),
        glyph_bit(ascii_upper(c), col, row) == glyph_bit(c, col, row),
{
    if 0 <= col < 5 && 0 <= row < 7 {
        let m = (1u8 << ((4 - col) as u8)) as u8;
        assert(0u8 & m == 0) by (bit_vector);
        assert(glyph(ascii_upper(' '))[row] == 0u8);
    }
}

/// Draws one character of the 5x7 HUD font with its top-left corner at `(x, y)`, clipped to the screen.
pub fn draw_char(buffer: &mut [u32], width: usize, height: usize, x: usize, y: usize, ch: char, color: u32)
    requires
        holds_grid(old(buffer)@, width as int, height as int),
    ensures
        same_outside_grid(old(buffer)@, final(buffer)@, width as int, height as int),
        forall|px: int, py: int|
            in_grid(width as int, height as int, px, py) ==> #[trigger] pix(final(buffer)@, width as int, px, py)
                == if glyph_bit(ch, px - x, py - y) {
                color
            } else {
                pix(old(buffer)@, width as int, px, py)
            },
{
    let upper = to_ascii_upper(ch);
    let bitmap = glyph_rows(upper);
    let mut row: usize = 0;
    while row < 7 && y + row < height
        invariant
            holds_grid(old(buffer)@, width as int, height as int),
            same_outside_grid(old(buffer)@, buffer@, width as int, height as int),
            upper == ascii_upper(ch),
            bitmap@ == glyph(upper),
            row <= 7,
            row == 0 || y + row - 1 < height,
            forall|px: int, py: int|
                in_grid(width as int, height as int, px, py) ==> #[trigger] pix(buffer@, width as int, px, py)
                    == if glyph_bit(ch, px - x, py - y) && py - y < row {
                    color
                } else {
                    pix(old(buffer)@, width as int, px, py)
                },
        decreases 7 - row,
    {
        let py = y + row;
        let bits = bitmap[row];
        let mut col: usize = 0;
        while col < 5 && x + col < width
            invariant
                holds_grid(old(buffer)@, width as int, height as int),
                same_outside_grid(old(buffer)@, buffer@, width as int, height as int),
                upper == ascii_upper(ch),
                bitmap@ == glyph(upper),
                row < 7,
                py == y + row,
                py < height,
                bits == glyph(upper)[row as int],
                col <= 5,
                col == 0 || x + col - 1 < width,
                forall|px: int, qy: int|
                    in_grid(width as int, height as int, px, qy) ==> #[trigger] pix(buffer@, width as int, px, qy)
                        == if glyph_bit(ch, px - x, qy - y) && (qy - y < row || (qy - y == row && px - x < col)) {
                        color
                    } else {
                        pix(old(buffer)@, width as int, px, qy)
                    },
            decreases 5 - col,
        {
            let px = x + col;
            let mask: u8 = 1u8 << ((4 - col) as u8);
            if (bits & mask) != 0 {
                write_pixel(buffer, width, height, px, py, color);
            }
            assert(glyph_bit(ch, col as int, row as int) == ((bits & mask) != 0));
            col += 1;
        }
        row += 1;
    }
}

/// Pixel `(px, py)` is set by the HUD font when `chars` is written from `(x, y)` with a 7-pixel advance
/// (5 pixels of glyph and 2 of spacing).
pub open spec fn text_bit(chars: Seq<char>, x: int, y: int, px: int, py: int) -> bool {
    px >= x && (px - x) / 7 < chars.len() && glyph_bit(chars[(px - x) / 7], (px - x) % 7, py - y)
}

/// Writing one more character extends the text image by that character's glyph.
proof fn lemma_text_bit_push(chars: Seq<char>, i: int, x: int, y: int, px: int, py: int)
    requires
        0 <= i < chars.len(),
    ensures
        text_bit(chars.take(i + 1), x, y, px, py) == (text_bit(chars.take(i), x, y, px, py) || glyph_bit(
            chars[i],
            px - (x + 7 * i),
            py - y,
        )),
{
    if x + 7 * i <= px < x + 7 * i + 7 {
        lemma_fundamental_div_mod_converse(px - x, 7, i, px - (x + 7 * i));
    } else if px >= x {
        let q = (px - x) / 7;
        let r = (px - x) % 7;
        lemma_fundamental_div_mod_converse(px - x, 7, q, r);
    }
}

/// Draws `text` left to right from `(x, y)` in the HUD font, each character 7 pixels to the right of the previous.
pub fn draw_text(buffer: &mut [u32], width: usize, height: usize, x: usize, y: usize, text: &str, color: u32)
    requires
        holds_grid(old(buffer)@, width as int, height as int),
        x + 7 * text@.len() <= usize::MAX,
    ensures
        same_outside_grid(old(buffer)@, final(buffer)@, width as int, height as int),
        forall|px: int, py: int|
            in_grid(width as int, height as int, px, py) ==> #[trigger] pix(final(buffer)@, width as int, px, py)
                == if text_bit(text@, x as int, y as int, px, py) {
                color
            } else {
                pix(old(buffer)@, width as int, px, py)
            },
{
    let chars = chars_of(text);
    let mut cur = x;
    let mut i: usize = 0;
    while i < chars.len()
        invariant
            holds_grid(old(buffer)@, width as int, height as int),
            same_outside_grid(old(buffer)@, buffer@, width as int, height as int),
            chars@ == text@,
            x + 7 * chars@.len() <= usize::MAX,
            i <= chars.len(),
            cur == x + 7 * i,
            forall|px: int, py: int|
                in_grid(width as int, height as int, px, py) ==> #[trigger] pix(buffer@, width as int, px, py)
                    == if text_bit(chars@.take(i as int), x as int, y as int, px, py) {
                    color
                } else {
                    pix(old(buffer)@, width as int, px, py)
                },
        decreases chars.len() - i,
    {
        let ghost before = buffer@;
        draw_char(buffer, width, height, cur, y, chars[i], color);
        proof {
            assert forall|px: int, py: int|
                in_grid(width as int, height as int, px, py) implies #[trigger] pix(buffer@, width as int, px, py)
                    == if text_bit(chars@.take(i + 1), x as int, y as int, px, py) {
                    color
                } else {
                    pix(old(buffer)@, width as int, px, py)
                } by {
                lemma_text_bit_push(chars@, i as int, x as int, y as int, px, py);
                assert(pix(before, width as int, px, py) == if text_bit(chars@.take(i as int), x as int, y as int, px, py) {
                    color
                } else {
                    pix(old(buffer)@, width as int, px, py)
                });
            }
        }
        cur = cur + 7;
        i += 1;
    }
    assert(chars@.take(chars@.len() as int) == chars@);
}

/// Pixel `(px, py)` is set when `chars` is written from `(x, y)` but only the characters whose glyph box ends
/// left of column `limit` - 6 are drawn.
pub open spec fn clipped_text_bit(chars: Seq<char>, x: int, y: int, limit: int, px: int, py: int) -> bool {
    text_bit(chars, x, y, px, py) && x + 7 * ((px - x) / 7) + 6 < limit
}

/// Draws `text` from `(x, y)` like [`draw_text`], stopping before the first character whose glyph box would
/// reach column `max_x` or the right edge of the screen.
pub fn draw_text_clipped(
    buffer: &mut [u32],
    width: usize,
    height: usize,
    x: usize,
    y: usize,
    text: &str,
    color: u32,
    max_x: usize,
)
    requires
        holds_grid(old(buffer)@, width as int, height as int),
    ensures
        same_outside_grid(old(buffer)@, final(buffer)@, width as int, height as int),
        forall|px: int, py: int|
            in_grid(width as int, height as int, px, py) ==> #[trigger] pix(final(buffer)@, width as int, px, py)
                == if clipped_text_bit(text@, x as int, y as int, if max_x < width { max_x as int } else { width as int }, px, py) {
                color
            } else {
                pix(old(buffer)@, width as int, px, py)
            },
{
    let chars = chars_of(text);
    let ghost limit: int = if max_x < width { max_x as int } else { width as int };
    let mut cur = x;
    let mut i: usize = 0;
    let mut stop = false;
    while i < chars.len() && !stop
        invariant
            holds_grid(old(buffer)@, width as int, height as int),
            same_outside_grid(old(buffer)@, buffer@, width as int, height as int),
            chars@ == text@,
            limit == if max_x < width { max_x as int } else { width as int },
            i <= chars.len(),
            !stop ==> cur == x + 7 * i,
            stop ==> x + 7 * i + 6 >= limit,
            i > 0 ==> x + 7 * (i - 1) + 6 < limit,
            forall|px: int, py: int|
                in_grid(width as int, height as int, px, py) ==> #[trigger] pix(buffer@, width as int, px, py)
                    == if text_bit(chars@.take(i as int), x as int, y as int, px, py) {
                    color
                } else {
                    pix(old(buffer)@, width as int, px, py)
                },
        decreases chars.len() - i + if stop { 0int } else { 1int },
    {
        let next = cur.saturating_add(6);
        if next >= max_x || next >= width {
            stop = true;
        } else {
            let ghost before = buffer@;
            draw_char(buffer, width, height, cur, y, chars[i], color);
            proof {
                assert forall|px: int, py: int|
                    in_grid(width as int, height as int, px, py) implies #[trigger] pix(buffer@, width as int, px, py)
                        == if text_bit(chars@.take(i + 1), x as int, y as int, px, py) {
                        color
                    } else {
                        pix(old(buffer)@, width as int, px, py)
                    } by {
                    lemma_text_bit_push(chars@, i as int, x as int, y as int, px, py);
                    assert(pix(before, width as int, px, py) == if text_bit(chars@.take(i as int), x as int, y as int, px, py) {
                        color
                    } else {
                        pix(old(buffer)@, width as int, px, py)
                    });
                }
            }
            cur = next.saturating_add(1);
            i += 1;
        }
    }
    proof {
        assert forall|px: int, py: int|
            in_grid(width as int, height as int, px, py) implies #[trigger] pix(buffer@, width as int, px, py)
                == if clipped_text_bit(text@, x as int, y as int, limit, px, py) {
                color
            } else {
                pix(old(buffer)@, width as int, px, py)
            } by {
            if px >= x {
                let k = (px - x) / 7;
                lemma_fundamental_div_mod_converse(px - x, 7, k, (px - x) % 7);
                if k < i {
                    assert(x + 7 * k + 6 <= x + 7 * (i - 1) + 6);
                } else {
                    assert(x + 7 * k + 6 >= x + 7 * i + 6);
                }
            }
        }
    }
}

/// Draws `text` centred on `(cx, cy)`: the box is `7 * bytes` wide (bytes of the UTF-8 text) and 7 high,
/// and its left and top edges stop at the screen's edge.
pub fn draw_text_at_center(
    buffer: &mut [u32],
    width: usize,
    height: usize,
    cx: usize,
    cy: usize,
    text: &str,
    color: u32,
)
    requires
        holds_grid(old(buffer)@, width as int, height as int),
        7 * text.spec_bytes().len() <= usize::MAX,
        cx + 7 * text@.len() <= usize::MAX,
    ensures
        same_outside_grid(old(buffer)@, final(buffer)@, width as int, height as int),
        forall|px: int, py: int|
            in_grid(width as int, height as int, px, py) ==> #[trigger] pix(final(buffer)@, width as int, px, py)
                == if text_bit(
                text@,
                if cx >= 7 * text.spec_bytes().len() / 2 { cx - 7 * text.spec_bytes().len() / 2 } else { 0 },
                if cy >= 3 { cy - 3 } else { 0 },
                px,
                py,
            ) {
                color
            } else {
                pix(old(buffer)@, width as int, px, py)
            },
{
    let text_w = text.len() * 7;
    let start_x = cx.saturating_sub(text_w / 2);
    let start_y = cy.saturating_sub(3);
    draw_text(buffer, width, height, start_x, start_y, text, color);
}

/// The text shown for `text` in a column `max_px` pixels wide (7 pixels per character): unchanged when it fits,
/// cut to fit otherwise, and ending in `...` when more than three characters fit.
pub open spec fn truncated(text: Seq<char>, max_px: int) -> Seq<char> {
    let max_chars = max_px / 7;
    if max_chars == 0 {
        Seq::empty()
    } else if text.len() <= max_chars {
        text
    } else if max_chars <= 3 {
        text.take(max_chars)
    } else {
        text.take(max_chars - 3) + seq!['.', '.', '.']
    }
}

/// Truncates `text` to fit within `max_px` pixels of the HUD font, appending `...` if truncated.
pub fn truncate_text_to_width(text: &str, max_px: usize) -> (r: String)
    ensures
        r@ == truncated(text@, max_px as int),
{
    let max_chars = max_px / 7;
    if max_chars == 0 {
        return String::new();
    }
    let chars = chars_of(text);
    if chars.len() <= max_chars {
        return string_of(&chars);
    }
    let take_count = if max_chars <= 3 { max_chars } else { max_chars - 3 };
    let mut out: Vec<char> = Vec::new();
    let mut i: usize = 0;
    while i < take_count
        invariant
            take_count < chars.len(),
            i <= take_count,
            out@ == chars@.take(i as int),
        decreases take_count - i,
    {
        out.push(chars[i]);
        i += 1;
        assert(out@ == chars@.take(i as int));
    }
    if max_chars > 3 {
        out.push('.');
        out.push('.');
        out.push('.');
    }
    string_of(&out)
}

} // verus!
