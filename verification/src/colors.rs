//! Colour values: hexadecimal colour strings and the presenter's pen palette.
use vstd::prelude::*;
use crate::chars::chars_of;
use crate::text::after;
use crate::watch_filter::{ascii_lower, ascii_lowercase};

verus! {

/// The value of a hexadecimal digit character.
pub open spec fn hex_char_value(c: char) -> Option<int> {
    if '0' <= c <= '9' {
        Some(c as int - '0' as int)
    } else if 'a' <= c <= 'f' {
        Some(c as int - 'a' as int + 10)
    } else if 'A' <= c <= 'F' {
        Some(c as int - 'A' as int + 10)
    } else {
        None
    }
}

/// Every character of `s` is a hexadecimal digit.
pub open spec fn all_hex(s: Seq<char>) -> bool {
    forall|i: int| 0 <= i < s.len() ==> #[trigger] hex_char_value(s[i]) is Some
}

/// The number that the hexadecimal digits `s` spell.
pub open spec fn hex_number(s: Seq<char>) -> int
    decreases s.len(),
{
    if s.len() == 0 {
        0
    } else {
        hex_number(s.drop_last()) * 16 + hex_char_value(s.last())->0
    }
}

/// What `u32::from_str_radix(s, 16)` accepts: an optional `+`, then one or more hex digits whose value fits.
pub open spec fn parsed_hex_u32(s: Seq<char>) -> Option<u32> {
    let body = if s.len() > 0 && s[0] == '+' { after(s, 1) } else { s };
    if body.len() > 0 && all_hex(body) && hex_number(body) <= u32::MAX {
        Some(hex_number(body) as u32)
    } else {
        None
    }
}

/// `s` without all of its leading `#` characters.
pub open spec fn strip_hashes(s: Seq<char>) -> Seq<char>
    decreases s.len(),
{
    if s.len() > 0 && s[0] == '#' {
        strip_hashes(after(s, 1))
    } else {
        s
    }
}

/// The colour that a hex colour string denotes: up to six digits are an opaque RGB colour, more digits give
/// the alpha too; anything unreadable is the accent blue 0xFF58A6FF.
pub open spec fn hex_color(s: Seq<char>) -> u32 {
    let c = strip_hashes(s);
    match parsed_hex_u32(c) {
        Some(v) => if c.len() <= 6 { 0xFF00_0000u32 | v } else { v },
        None => 0xFF58_a6ffu32,
    }
}

/// Lower-casing an ASCII letter does not change its worth as a hex digit.
proof fn lemma_hex_char_lower(c: char)
    ensures
        hex_char_value(ascii_lower(c)) == hex_char_value(c),
        ascii_lower(c) == '#' <==> c == '#',
        ascii_lower(c) == '+' <==> c == '+',
{
    if 'A' <= c <= 'Z' {
        let l = ascii_lower(c);
        assert(l as int == c as int + 32);
    }
}

/// Lower-casing keeps every digit's worth, so a digit string spells the same number.
proof fn lemma_hex_lower_seq(s: Seq<char>)
    ensures
        all_hex(ascii_lowercase(s)) == all_hex(s),
        hex_number(ascii_lowercase(s)) == hex_number(s),
    decreases s.len(),
{
    let l = ascii_lowercase(s);
    assert forall|i: int| 0 <= i < s.len() implies hex_char_value(#[trigger] l[i]) == hex_char_value(s[i]) by {
        lemma_hex_char_lower(s[i]);
    }
    if !all_hex(s) {
        let i = choose|i: int| 0 <= i < s.len() && !(#[trigger] hex_char_value(s[i]) is Some);
        assert(hex_char_value(l[i]) is None);
    }
    if s.len() > 0 {
        assert(l.drop_last() =~= ascii_lowercase(s.drop_last()));
        lemma_hex_lower_seq(s.drop_last());
        assert(hex_char_value(l.last()) == hex_char_value(s.last()));
    }
}

/// Stripping leading `#` commutes with lower-casing.
proof fn lemma_strip_lower(s: Seq<char>)
    ensures
        strip_hashes(ascii_lowercase(s)) == ascii_lowercase(strip_hashes(s)),
    decreases s.len(),
{
    let l = ascii_lowercase(s);
    if s.len() > 0 {
        lemma_hex_char_lower(s[0]);
        assert(after(l, 1) =~= ascii_lowercase(after(s, 1)));
        lemma_strip_lower(after(s, 1));
    }
}

/// Letter case does not matter in a hex colour: a string and its ASCII lower-cased form denote the same colour
/// (`A` to `F` are worth what `a` to `f` are).
pub proof fn law_hex_color_ignores_case(s: Seq<char>)
    ensures
        hex_color(ascii_lowercase(s)) == hex_color(s),
{
    lemma_strip_lower(s);
    let c = strip_hashes(s);
    let lc = ascii_lowercase(c);
    if c.len() > 0 {
        lemma_hex_char_lower(c[0]);
    }
    let body = if c.len() > 0 && c[0] == '+' { after(c, 1) } else { c };
    let lbody = if lc.len() > 0 && lc[0] == '+' { after(lc, 1) } else { lc };
    assert(lbody =~= ascii_lowercase(body));
    lemma_hex_lower_seq(body);
}

/// The sixteen hex digits in order: `0` to `9`, then `a` to `f`.
pub open spec fn hex_digits_lower() -> Seq<char> {
    seq!['0', '1', '2', '3', '4', '5', '6', '7', '8', '9', 'a', 'b', 'c', 'd', 'e', 'f']
}

/// The sixteen hex digits in order: `0` to `9`, then `A` to `F`.
pub open spec fn hex_digits_upper() -> Seq<char> {
    seq!['0', '1', '2', '3', '4', '5', '6', '7', '8', '9', 'A', 'B', 'C', 'D', 'E', 'F']
}

/// The hex digits are worth their place in the digit order, in either letter case: a one-digit colour string
/// is the opaque colour whose blue channel is that worth.
pub proof fn law_hex_digit_values(k: int)
    requires
        0 <= k < 16,
    ensures
        hex_color(seq![hex_digits_lower()[k]]) == 0xFF00_0000u32 + k,
        hex_color(seq![hex_digits_upper()[k]]) == 0xFF00_0000u32 + k,
{
    let d = hex_digits_lower()[k];
    let u = hex_digits_upper()[k];
    assert(hex_char_value(d) == Some(k));
    assert(hex_char_value(u) == Some(k));
    let sd = seq![d];
    let su = seq![u];
    assert(strip_hashes(sd) == sd);
    assert(strip_hashes(su) == su);
    assert(sd.drop_last() =~= Seq::<char>::empty());
    assert(su.drop_last() =~= Seq::<char>::empty());
    assert(hex_number(Seq::<char>::empty()) == 0);
    assert(sd.last() == d && su.last() == u);
    assert(hex_number(sd) == hex_number(sd.drop_last()) * 16 + k);
    assert(hex_number(su) == hex_number(su.drop_last()) * 16 + k);
    assert(all_hex(sd));
    assert(all_hex(su));
    let v = k as u32;
    assert(0xFF00_0000u32 | v == 0xFF00_0000u32 + v) by (bit_vector)
        requires
            v < 16,
    ;
}

/// Hex-number values of prefixes never exceed the whole.
pub proof fn lemma_hex_prefix_le(s: Seq<char>, k: int)
    requires
        all_hex(s),
        0 <= k <= s.len(),
    ensures
        0 <= hex_number(s.take(k)) <= hex_number(s),
    decreases s.len(),
{
    if s.len() == 0 {
        assert(s.take(k) =~= s);
    } else if k == s.len() {
        assert(s.take(k) =~= s);
        lemma_hex_prefix_le(s.drop_last(), s.len() - 1);
        assert(hex_char_value(s[s.len() - 1]) is Some);
        assert(s.drop_last().take(s.len() - 1) =~= s.drop_last());
    } else {
        assert(s.drop_last().take(k) =~= s.take(k));
        assert(hex_char_value(s[s.len() - 1]) is Some);
        lemma_hex_prefix_le(s.drop_last(), k);
    }
}

/// The digit value of a hexadecimal character.
fn hex_char_at(c: char) -> (r: Option<u32>)
    ensures
        r matches Some(v) ==> hex_char_value(c) == Some(v as int) && v < 16,
        r is None ==> hex_char_value(c) is None,
{
    if '0' <= c && c <= '9' {
        Some(c as u32 - '0' as u32)
    } else if 'a' <= c && c <= 'f' {
        Some(c as u32 - 'a' as u32 + 10)
    } else if 'A' <= c && c <= 'F' {
        Some(c as u32 - 'A' as u32 + 10)
    } else {
        None
    }
}

/// Parses a hexadecimal `u32` as `u32::from_str_radix(_, 16)` does.
pub fn parse_hex_u32(s: &Vec<char>) -> (r: Option<u32>)
    ensures
        r == parsed_hex_u32(s@),
{
    let start: usize = if s.len() > 0 && s[0] == '+' { 1 } else { 0 };
    let ghost body = if s@.len() > 0 && s@[0] == '+' { after(s@, 1) } else { s@ };
    assert(body =~= s@.subrange(start as int, s@.len() as int));
    if start >= s.len() {
        return None;
    }
    let mut acc: u32 = 0;
    let mut i = start;
    while i < s.len()
        invariant
            start <= i <= s@.len(),
            body == s@.subrange(start as int, s@.len() as int),
            body == (if s@.len() > 0 && s@[0] == '+' { after(s@, 1) } else { s@ }),
            all_hex(body.take(i - start)),
            acc as int == hex_number(body.take(i - start)),
        decreases s.len() - i,
    {
        let c = s[i];
        proof {
            assert(body[i - start] == c);
            assert(body.take(i + 1 - start).drop_last() =~= body.take(i - start));
            assert(body.take(i + 1 - start).last() == c);
        }
        let d = match hex_char_at(c) {
            Some(d) => d,
            None => {
                proof {
                    assert(hex_char_value(body[i - start]) is None);
                }
                return None;
            },
        };
        proof {
            assert(all_hex(body.take(i + 1 - start)));
        }
        match acc.checked_mul(16) {
            Some(m) => match m.checked_add(d) {
                Some(v) => {
                    acc = v;
                },
                None => {
                    proof {
                        if all_hex(body) {
                            lemma_hex_prefix_le(body, i + 1 - start);
                        }
                    }
                    return None;
                },
            },
            None => {
                proof {
                    if all_hex(body) {
                        lemma_hex_prefix_le(body, i + 1 - start);
                    }
                }
                return None;
            },
        }
        i += 1;
    }
    proof {
        assert(body.take(i - start) =~= body);
    }
    Some(acc)
}

/// Parses a colour written as hex digits after any number of `#`: six or fewer digits are made opaque; a
/// string that is not a hex number gives the accent blue 0xFF58A6FF.
pub fn parse_hex_color(hex: &str) -> (r: u32)
    ensures
        r == hex_color(hex@),
{
    let v = chars_of(hex);
    let mut start: usize = 0;
    assert(after(v@, 0) =~= v@);
    while start < v.len() && v[start] == '#'
        invariant
            start <= v@.len(),
            strip_hashes(v@) == strip_hashes(after(v@, start as int)),
        decreases v.len() - start,
    {
        proof {
            assert(after(after(v@, start as int), 1) =~= after(v@, start + 1));
        }
        start += 1;
    }
    let mut clean: Vec<char> = Vec::new();
    let mut i = start;
    while i < v.len()
        invariant
            start <= i <= v@.len(),
            clean@ == v@.subrange(start as int, i as int),
        decreases v.len() - i,
    {
        clean.push(v[i]);
        i += 1;
        proof {
            assert(clean@ =~= v@.subrange(start as int, i as int));
        }
    }
    proof {
        assert(clean@ =~= after(v@, start as int));
        assert(strip_hashes(clean@) == clean@);
    }
    match parse_hex_u32(&clean) {
        Some(val) => if clean.len() <= 6 {
            0xFF00_0000u32 | val
        } else {
            val
        },
        None => 0xFF58_a6ffu32,
    }
}

/// The number of colours in the pen and laser palette.
pub open spec fn palette_size() -> int {
    7
}

/// The colour of palette entry `idx`.
pub open spec fn palette_spec(idx: int) -> u32 {
    if idx == 0 {
        0xFF00_E5FFu32
    } else if idx == 1 {
        0xFFFF_3366u32
    } else if idx == 2 {
        0xFF00_E676u32
    } else if idx == 3 {
        0xFFFF_D600u32
    } else if idx == 4 {
        0xFFD5_00F9u32
    } else if idx == 5 {
        0xFFFF_FFFFu32
    } else {
        0xFFFF_9100u32
    }
}

/// The colour of palette entry `idx`: cyan, red, green, yellow, purple, white, orange.
pub fn palette_color(idx: usize) -> (r: u32)
    requires
        idx < palette_size(),
    ensures
        r == palette_spec(idx as int),
{
    if idx == 0 {
        0xFF00_E5FF
    } else if idx == 1 {
        0xFFFF_3366
    } else if idx == 2 {
        0xFF00_E676
    } else if idx == 3 {
        0xFFFF_D600
    } else if idx == 4 {
        0xFFD5_00F9
    } else if idx == 5 {
        0xFFFF_FFFF
    } else {
        0xFFFF_9100
    }
}

/// The name of palette entry `idx`.
pub fn palette_name(idx: usize) -> (r: &'static str)
    requires
        idx < palette_size(),
    ensures
        idx == 0 ==> r@ == "Cyan"@,
        idx == 1 ==> r@ == "Red"@,
        idx == 2 ==> r@ == "Green"@,
        idx == 3 ==> r@ == "Yellow"@,
        idx == 4 ==> r@ == "Purple"@,
        idx == 5 ==> r@ == "White"@,
        idx == 6 ==> r@ == "Orange"@,
{
    if idx == 0 {
        "Cyan"
    } else if idx == 1 {
        "Red"
    } else if idx == 2 {
        "Green"
    } else if idx == 3 {
        "Yellow"
    } else if idx == 4 {
        "Purple"
    } else if idx == 5 {
        "White"
    } else {
        "Orange"
    }
}

} // verus!
