//! Presenter overlays drawn over the slide: the page badge and the shortcut help panel.
use vstd::prelude::*;
use crate::pixel::{channel, opaque_rgb};
use crate::raster::{pix, in_grid, holds_grid, same_outside_grid, in_rect, read_pixel, write_pixel};
use crate::hud::{text_bit, draw_text, on_outline, draw_rect_outline};
use crate::text::{decimal_text, decimal_chars, append_chars};
use crate::chars::{chars_of, string_of};

verus! {

/// One channel darkened towards `target`, keeping `keep` percent of the original.
pub open spec fn shade_channel(c: u32, keep: u32, target: u32) -> u32 {
    ((c * keep + target * (100 - keep)) / 100) as u32
}

/// `bg` darkened towards the colour `(tr, tg, tb)`, keeping `keep` percent of it; the result is opaque.
pub open spec fn shade_spec(bg: u32, keep: u32, tr: u32, tg: u32, tb: u32) -> u32 {
    opaque_rgb(
        shade_channel(channel(bg, 16), keep, tr),
        shade_channel(channel(bg, 8), keep, tg),
        shade_channel(channel(bg, 0), keep, tb),
    )
}

/// Darkens one pixel towards `(tr, tg, tb)`.
fn shade_pixel(bg: u32, keep: u32, tr: u32, tg: u32, tb: u32) -> (r: u32)
    requires
        keep <= 100,
        tr <= 255,
        tg <= 255,
        tb <= 255,
    ensures
        r == shade_spec(bg, keep, tr, tg, tb),
{
    let r1 = (bg >> 16) & 0xFF;
    let g1 = (bg >> 8) & 0xFF;
    let b1 = bg & 0xFF;
    assert(r1 <= 255 && g1 <= 255 && b1 <= 255) by (bit_vector)
        requires
            r1 == (bg >> 16) & 0xFF,
            g1 == (bg >> 8) & 0xFF,
            b1 == bg & 0xFF,
    ;
    assert(b1 == channel(bg, 0)) by (bit_vector)
        requires
            b1 == bg & 0xFF,
    ;
    let rest = 100 - keep;
    assert(r1 * keep <= 255 * 100) by (nonlinear_arith)
        requires
            r1 <= 255,
            keep <= 100,
    ;
    assert(g1 * keep <= 255 * 100) by (nonlinear_arith)
        requires
            g1 <= 255,
            keep <= 100,
    ;
    assert(b1 * keep <= 255 * 100) by (nonlinear_arith)
        requires
            b1 <= 255,
            keep <= 100,
    ;
    assert(tr * rest <= 255 * 100 && tg * rest <= 255 * 100 && tb * rest <= 255 * 100) by (nonlinear_arith)
        requires
            tr <= 255,
            tg <= 255,
            tb <= 255,
            rest <= 100,
    ;
    let r = (r1 * keep + tr * rest) / 100;
    let g = (g1 * keep + tg * rest) / 100;
    let b = (b1 * keep + tb * rest) / 100;
    assert((0xFFu32 << 24) == 0xFF00_0000u32) by (bit_vector);
    (0xFF << 24) | (r << 16) | (g << 8) | b
}

/// Darkens the on-screen part of the rectangle `(x, y, w, h)` towards `(tr, tg, tb)`, keeping `keep` percent.
pub fn shade_rect(
    buffer: &mut [u32],
    width: usize,
    height: usize,
    x: usize,
    y: usize,
    w: usize,
    h: usize,
    keep: u32,
    tr: u32,
    tg: u32,
    tb: u32,
)
    requires
        holds_grid(old(buffer)@, width as int, height as int),
        x + w <= usize::MAX,
        y + h <= usize::MAX,
        keep <= 100,
        tr <= 255,
        tg <= 255,
        tb <= 255,
    ensures
        same_outside_grid(old(buffer)@, final(buffer)@, width as int, height as int),
        forall|px: int, py: int|
            in_grid(width as int, height as int, px, py) ==> #[trigger] pix(final(buffer)@, width as int, px, py)
                == if in_rect(px, py, x as int, y as int, w as int, h as int) {
                shade_spec(pix(old(buffer)@, width as int, px, py), keep, tr, tg, tb)
            } else {
                pix(old(buffer)@, width as int, px, py)
            },
{
    let x2 = if x + w < width { x + w } else { width };
    let y2 = if y + h < height { y + h } else { height };
    let x1 = if x < width { x } else { width };
    let mut py = if y < height { y } else { height };
    while py < y2
        invariant
            holds_grid(old(buffer)@, width as int, height as int),
            same_outside_grid(old(buffer)@, buffer@, width as int, height as int),
            x2 as int == if x + w < width { x + w } else { width as int },
            y2 as int == if y + h < height { y + h } else { height as int },
            x1 as int == if x < width { x as int } else { width as int },
            y <= py || y2 <= py,
            keep <= 100,
            tr <= 255,
            tg <= 255,
            tb <= 255,
            forall|px: int, qy: int|
                in_grid(width as int, height as int, px, qy) ==> #[trigger] pix(buffer@, width as int, px, qy)
                    == if in_rect(px, qy, x as int, y as int, w as int, h as int) && qy < py {
                    shade_spec(pix(old(buffer)@, width as int, px, qy), keep, tr, tg, tb)
                } else {
                    pix(old(buffer)@, width as int, px, qy)
                },
        decreases y2 - py,
    {
        let mut px = x1;
        while px < x2
            invariant
                holds_grid(old(buffer)@, width as int, height as int),
                same_outside_grid(old(buffer)@, buffer@, width as int, height as int),
                x2 as int == if x + w < width { x + w } else { width as int },
                y2 as int == if y + h < height { y + h } else { height as int },
                x1 as int == if x < width { x as int } else { width as int },
                y <= py < y2,
                x1 <= px,
                keep <= 100,
                tr <= 255,
                tg <= 255,
                tb <= 255,
                forall|qx: int, qy: int|
                    in_grid(width as int, height as int, qx, qy) ==> #[trigger] pix(buffer@, width as int, qx, qy)
                        == if in_rect(qx, qy, x as int, y as int, w as int, h as int) && (qy < py || (qy == py
                        && qx < px)) {
                        shade_spec(pix(old(buffer)@, width as int, qx, qy), keep, tr, tg, tb)
                    } else {
                        pix(old(buffer)@, width as int, qx, qy)
                    },
            decreases x2 - px,
        {
            let bg = read_pixel(buffer, width, height, px, py);
            let shaded = shade_pixel(bg, keep, tr, tg, tb);
            write_pixel(buffer, width, height, px, py, shaded);
            px += 1;
        }
        py += 1;
    }
}

/// Ten to the power `k`.
pub open spec fn ten_pow(k: nat) -> nat
    decreases k,
{
    if k == 0 { 1 } else { 10 * ten_pow((k - 1) as nat) }
}

/// Decimal numbers below `10^k` (with `k >= 1`) have at most `k` digits.
pub proof fn lemma_decimal_len(n: nat, k: nat)
    requires
        k >= 1,
        n < ten_pow(k),
    ensures
        decimal_text(n).len() <= k,
    decreases k,
{
    if n >= 10 {
        if k == 1 {
            assert(ten_pow(0) == 1);
        } else {
            assert(n / 10 < ten_pow((k - 1) as nat)) by (nonlinear_arith)
                requires
                    n < ten_pow(k),
                    ten_pow(k) == 10 * ten_pow((k - 1) as nat),
            ;
            lemma_decimal_len(n / 10, (k - 1) as nat);
        }
    }
}

/// Every `usize` has at most 20 decimal digits.
pub proof fn lemma_usize_digits(n: usize)
    ensures
        decimal_text(n as nat).len() <= 20,
{
    reveal_with_fuel(ten_pow, 21);
    assert(ten_pow(20) == 100000000000000000000nat);
    lemma_decimal_len(n as nat, 20);
}

/// The page badge text: `slide / total`, followed by `  [STEP step/steps]` when the slide has build steps.
pub open spec fn badge_text(slide: nat, total: nat, step: nat, steps: nat) -> Seq<char> {
    decimal_text(slide) + " / "@ + decimal_text(total) + if steps > 0 {
        "  [STEP "@ + decimal_text(step) + "/"@ + decimal_text(steps) + "]"@
    } else {
        Seq::empty()
    }
}

/// Saturating subtraction.
pub open spec fn sat_sub(a: int, b: int) -> int {
    if a > b { a - b } else { 0 }
}

/// Draws the page badge in the bottom-right corner: a darkened box 16 pixels from the edges holding the badge
/// text in the accent blue.
pub fn draw_page_badge(
    buffer: &mut [u32],
    width: usize,
    height: usize,
    current_slide: usize,
    total_slides: usize,
    current_step: usize,
    total_steps: usize,
)
    requires
        holds_grid(old(buffer)@, width as int, height as int),
    ensures
        same_outside_grid(old(buffer)@, final(buffer)@, width as int, height as int),
        ({
            let t = badge_text(current_slide as nat, total_slides as nat, current_step as nat, total_steps as nat);
            let bw = (7 * t.len() + 16) as int;
            let sx = sat_sub(width as int, bw + 16);
            let sy = sat_sub(height as int, 40);
            forall|px: int, py: int|
                in_grid(width as int, height as int, px, py) ==> #[trigger] pix(final(buffer)@, width as int, px, py)
                    == if text_bit(t, sx + 8, sy + 8, px, py) {
                    0xFF58_a6ffu32
                } else if in_rect(px, py, sx, sy, bw, 24) {
                    shade_spec(pix(old(buffer)@, width as int, px, py), 20, 0x16, 0x1b, 0x22)
                } else {
                    pix(old(buffer)@, width as int, px, py)
                }
        }),
{
    let mut text = decimal_chars(current_slide);
    append_chars(&mut text, &chars_of(" / "));
    append_chars(&mut text, &decimal_chars(total_slides));
    if total_steps > 0 {
        append_chars(&mut text, &chars_of("  [STEP "));
        append_chars(&mut text, &decimal_chars(current_step));
        append_chars(&mut text, &chars_of("/"));
        append_chars(&mut text, &decimal_chars(total_steps));
        append_chars(&mut text, &chars_of("]"));
    }
    let ghost t = badge_text(current_slide as nat, total_slides as nat, current_step as nat, total_steps as nat);
    proof {
        reveal_strlit(" / ");
        reveal_strlit("  [STEP ");
        reveal_strlit("/");
        reveal_strlit("]");
        lemma_usize_digits(current_slide);
        lemma_usize_digits(total_slides);
        lemma_usize_digits(current_step);
        lemma_usize_digits(total_steps);
        assert(text@ =~= t);
        assert(t.len() <= 100);
    }
    let badge = string_of(&text);
    let text_w = text.len() * 7;
    let box_w = text_w + 16;
    let box_h: usize = 24;
    let start_x = if width > box_w + 16 { width - (box_w + 16) } else { 0 };
    let start_y = if height > box_h + 16 { height - (box_h + 16) } else { 0 };
    let ghost mid = buffer@;
    shade_rect(buffer, width, height, start_x, start_y, box_w, box_h, 20, 0x16, 0x1b, 0x22);
    let ghost shaded = buffer@;
    draw_text(buffer, width, height, start_x + 8, start_y + 8, badge.as_str(), 0xFF58_a6ff);
    proof {
        assert forall|px: int, py: int| in_grid(width as int, height as int, px, py) implies #[trigger] pix(
            buffer@,
            width as int,
            px,
            py,
        ) == if text_bit(t, start_x + 8, start_y + 8, px, py) {
            0xFF58_a6ffu32
        } else if in_rect(px, py, start_x as int, start_y as int, box_w as int, 24) {
            shade_spec(pix(mid, width as int, px, py), 20, 0x16, 0x1b, 0x22)
        } else {
            pix(mid, width as int, px, py)
        } by {
            assert(pix(shaded, width as int, px, py) == pix(shaded, width as int, px, py));
        }
    }
}

/// The lines of the shortcut help panel.
pub open spec fn help_lines() -> Seq<Seq<char>> {
    seq![
        "CARGO SLIDE PRESENTER SHORTCUTS"@,
        "-----------------------------------------"@,
        "Space / Right / Left-Click: Next step / slide"@,
        "Backspace / Left / Right-Click: Prev step / slide"@,
        "F11 / F              : Toggle Fullscreen / Windowed"@,
        "1 .. 9               : Jump to slide"@,
        "Home / End           : First / Last slide"@,
        "L                    : Toggle Laser pointer (with trail)"@,
        "P                    : Toggle Whiteboard Pen"@,
        "K / Dock [COL]       : Open Color Palette (1..7 keys)"@,
        "C / X                : Clear ink strokes"@,
        "Mouse Wheel          : Adjust Volume (+/- 5%)"@,
        "+ / = / Up           : Volume +5%"@,
        "- / _ / Down         : Volume -5%"@,
        "M                    : Mute / Unmute audio"@,
        "Bottom Dock          : Touch / Click presentation controls"@,
        "R                    : Live reload slides"@,
        "H / ?                : Toggle this help"@,
        "Esc / Q              : Exit presentation"@,
    ]
}

/// The length of the longest of `ls`.
pub open spec fn max_line_len(ls: Seq<Seq<char>>) -> nat
    decreases ls.len(),
{
    if ls.len() == 0 {
        0
    } else {
        let m = max_line_len(ls.drop_last());
        if ls.last().len() > m { ls.last().len() } else { m }
    }
}

/// The colour of help line `i`: the title in accent blue, the rule in grey, the rest in near-white.
pub open spec fn help_line_color(i: int) -> u32 {
    if i == 0 {
        0xFF58_a6ffu32
    } else if i == 1 {
        0xFF8b_949eu32
    } else {
        0xFFe6_edf3u32
    }
}

/// The colour of the last of the first `k` lines of `ls` (drawn 14 pixels apart from `(x, y0)`) whose text covers
/// `(px, py)`.
pub open spec fn lines_ink(ls: Seq<Seq<char>>, k: int, x: int, y0: int, px: int, py: int) -> Option<u32>
    decreases k,
{
    if k <= 0 {
        None
    } else if text_bit(ls[k - 1], x, y0 + (k - 1) * 14, px, py) {
        Some(help_line_color(k - 1))
    } else {
        lines_ink(ls, k - 1, x, y0, px, py)
    }
}

/// The help panel's size: wide enough for the longest line plus 18 pixels of padding on each side.
pub open spec fn help_box_w() -> int {
    (max_line_len(help_lines()) * 7 + 36) as int
}

/// The help panel's height: 14 pixels per line plus padding.
pub open spec fn help_box_h() -> int {
    (help_lines().len() * 14 + 36) as int
}

/// Draws the shortcut help panel centred on the screen: a darkened box with a blue border and the help lines.
pub fn draw_help_overlay(buffer: &mut [u32], width: usize, height: usize)
    requires
        holds_grid(old(buffer)@, width as int, height as int),
        width > 0,
        height > 0,
    ensures
        same_outside_grid(old(buffer)@, final(buffer)@, width as int, height as int),
        ({
            let sx = sat_sub(width as int, help_box_w()) / 2;
            let sy = sat_sub(height as int, help_box_h()) / 2;
            forall|px: int, py: int|
                in_grid(width as int, height as int, px, py) ==> #[trigger] pix(final(buffer)@, width as int, px, py)
                    == match lines_ink(help_lines(), help_lines().len() as int, sx + 18, sy + 18, px, py) {
                    Some(c) => c,
                    None => if on_outline(
                        px,
                        py,
                        sx,
                        sy,
                        help_box_w() + 1,
                        help_box_h() + 1,
                        width as int,
                        height as int,
                    ) {
                        0xFF58_a6ffu32
                    } else if in_rect(px, py, sx, sy, help_box_w(), help_box_h()) {
                        shade_spec(pix(old(buffer)@, width as int, px, py), 8, 0x10, 0x14, 0x1d)
                    } else {
                        pix(old(buffer)@, width as int, px, py)
                    },
                }
        }),
{
    let lines: Vec<&'static str> = vec![
        "CARGO SLIDE PRESENTER SHORTCUTS",
        "-----------------------------------------",
        "Space / Right / Left-Click: Next step / slide",
        "Backspace / Left / Right-Click: Prev step / slide",
        "F11 / F              : Toggle Fullscreen / Windowed",
        "1 .. 9               : Jump to slide",
        "Home / End           : First / Last slide",
        "L                    : Toggle Laser pointer (with trail)",
        "P                    : Toggle Whiteboard Pen",
        "K / Dock [COL]       : Open Color Palette (1..7 keys)",
        "C / X                : Clear ink strokes",
        "Mouse Wheel          : Adjust Volume (+/- 5%)",
        "+ / = / Up           : Volume +5%",
        "- / _ / Down         : Volume -5%",
        "M                    : Mute / Unmute audio",
        "Bottom Dock          : Touch / Click presentation controls",
        "R                    : Live reload slides",
        "H / ?                : Toggle this help",
        "Esc / Q              : Exit presentation",
    ];
    proof {
        reveal_strlit("CARGO SLIDE PRESENTER SHORTCUTS");
        reveal_strlit("-----------------------------------------");
        reveal_strlit("Space / Right / Left-Click: Next step / slide");
        reveal_strlit("Backspace / Left / Right-Click: Prev step / slide");
        reveal_strlit("F11 / F              : Toggle Fullscreen / Windowed");
        reveal_strlit("1 .. 9               : Jump to slide");
        reveal_strlit("Home / End           : First / Last slide");
        reveal_strlit("L                    : Toggle Laser pointer (with trail)");
        reveal_strlit("P                    : Toggle Whiteboard Pen");
        reveal_strlit("K / Dock [COL]       : Open Color Palette (1..7 keys)");
        reveal_strlit("C / X                : Clear ink strokes");
        reveal_strlit("Mouse Wheel          : Adjust Volume (+/- 5%)");
        reveal_strlit("+ / = / Up           : Volume +5%");
        reveal_strlit("- / _ / Down         : Volume -5%");
        reveal_strlit("M                    : Mute / Unmute audio");
        reveal_strlit("Bottom Dock          : Touch / Click presentation controls");
        reveal_strlit("R                    : Live reload slides");
        reveal_strlit("H / ?                : Toggle this help");
        reveal_strlit("Esc / Q              : Exit presentation");
        assert(lines@.map_values(|l: &str| l@) =~= help_lines());
    }
    let ghost ls = help_lines();
    let mut max_len: usize = 0;
    let mut i: usize = 0;
    while i < lines.len()
        invariant
            i <= lines@.len(),
            lines@.len() == 19,
            ls == help_lines(),
            ls == lines@.map_values(|l: &str| l@),
            forall|j: int| 0 <= j < 19 ==> #[trigger] ls[j].len() <= 58,
            max_len == max_line_len(ls.take(i as int)),
            max_len <= 58,
        decreases lines.len() - i,
    {
        let n = chars_of(lines[i]).len();
        proof {
            assert(ls.take(i + 1).drop_last() =~= ls.take(i as int));
            assert(ls[i as int] == lines@[i as int]@);
        }
        if n > max_len {
            max_len = n;
        }
        i += 1;
    }
    proof {
        assert(ls.take(19) =~= ls);
    }
    let box_w = max_len * 7 + 36;
    let box_h = lines.len() * 14 + 36;
    let start_x = (if width > box_w { width - box_w } else { 0 }) / 2;
    let start_y = (if height > box_h { height - box_h } else { 0 }) / 2;
    let ghost before = buffer@;
    shade_rect(buffer, width, height, start_x, start_y, box_w, box_h, 8, 0x10, 0x14, 0x1d);
    draw_rect_outline(buffer, width, height, start_x, start_y, box_w + 1, box_h + 1, 0xFF58_a6ff);
    let ghost framed = buffer@;
    let mut k: usize = 0;
    while k < lines.len()
        invariant
            k <= 19,
            lines@.len() == 19,
            ls == help_lines(),
            ls == lines@.map_values(|l: &str| l@),
            forall|j: int| 0 <= j < 19 ==> #[trigger] ls[j].len() <= 58,
            start_x <= width / 2,
            start_y <= height / 2,
            holds_grid(buffer@, width as int, height as int),
            same_outside_grid(before, buffer@, width as int, height as int),
            same_outside_grid(before, framed, width as int, height as int),
            forall|px: int, py: int|
                in_grid(width as int, height as int, px, py) ==> #[trigger] pix(buffer@, width as int, px, py)
                    == match lines_ink(ls, k as int, start_x + 18, start_y + 18, px, py) {
                    Some(c) => c,
                    None => pix(framed, width as int, px, py),
                },
        decreases lines.len() - k,
    {
        let color: u32 = if k == 0 {
            0xFF58_a6ff
        } else if k == 1 {
            0xFF8b_949e
        } else {
            0xFFe6_edf3
        };
        proof {
            assert(ls[k as int] == lines@[k as int]@);
        }
        draw_text(buffer, width, height, start_x + 18, start_y + 18 + k * 14, lines[k], color);
        k += 1;
    }
}

} // verus!
