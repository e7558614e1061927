//! The 5x7 bitmap font of the presenter HUD.
use vstd::prelude::*;

verus! {

/// ASCII upper-case folding: `a..=z` map to `A..=Z`, every other character is kept.
pub open spec fn ascii_upper(c: char) -> char {
    if 'a' <= c <= 'z' {
        ((c as u32) - 32) as char
    } else {
        c
    }
}

/// Folds `c` to ASCII upper case.
pub fn to_ascii_upper(c: char) -> (r: char)
    ensures
        r == ascii_upper(c),
{
    if 'a' <= c && c <= 'z' {
        let u = (c as u8) - 32;
        u as char
    } else {
        c
    }
}

/// The seven rows of the glyph drawn for an upper-case character; bit 4 of a row is its leftmost column.
/// Characters without a glyph of their own are drawn as a hollow box.
pub open spec fn glyph(c: char) -> Seq<u8> {
    match c {
        '0' => seq![0b01110u8, 0b10001u8, 0b10011u8, 0b10101u8, 0b11001u8, 0b10001u8, 0b01110u8],
        '1' => seq![0b00100u8, 0b01100u8, 0b00100u8, 0b00100u8, 0b00100u8, 0b00100u8, 0b01110u8],
        '2' => seq![0b01110u8, 0b10001u8, 0b00001u8, 0b00010u8, 0b00100u8, 0b01000u8, 0b11111u8],
        '3' => seq![0b11110u8, 0b00001u8, 0b00001u8, 0b01110u8, 0b00001u8, 0b00001u8, 0b11110u8],
        '4' => seq![0b00010u8, 0b00110u8, 0b01010u8, 0b10010u8, 0b11111u8, 0b00010u8, 0b00010u8],
        '5' => seq![0b11111u8, 0b10000u8, 0b11110u8, 0b00001u8, 0b00001u8, 0b10001u8, 0b01110u8],
        '6' => seq![0b00110u8, 0b01000u8, 0b10000u8, 0b11110u8, 0b10001u8, 0b10001u8, 0b01110u8],
        '7' => seq![0b11111u8, 0b00001u8, 0b00010u8, 0b00100u8, 0b01000u8, 0b01000u8, 0b01000u8],
        '8' => seq![0b01110u8, 0b10001u8, 0b10001u8, 0b01110u8, 0b10001u8, 0b10001u8, 0b01110u8],
        '9' => seq![0b01110u8, 0b10001u8, 0b10001u8, 0b01111u8, 0b00001u8, 0b00010u8, 0b01100u8],
        'A' => seq![0b01110u8, 0b10001u8, 0b10001u8, 0b11111u8, 0b10001u8, 0b10001u8, 0b10001u8],
        'B' => seq![0b11110u8, 0b10001u8, 0b10001u8, 0b11110u8, 0b10001u8, 0b10001u8, 0b11110u8],
        'C' => seq![0b01111u8, 0b10000u8, 0b10000u8, 0b10000u8, 0b10000u8, 0b10000u8, 0b01111u8],
        'D' => seq![0b11110u8, 0b10001u8, 0b10001u8, 0b10001u8, 0b10001u8, 0b10001u8, 0b11110u8],
        'E' => seq![0b11111u8, 0b10000u8, 0b10000u8, 0b11110u8, 0b10000u8, 0b10000u8, 0b11111u8],
        'F' => seq![0b11111u8, 0b10000u8, 0b10000u8, 0b11110u8, 0b10000u8, 0b10000u8, 0b10000u8],
        'G' => seq![0b01111u8, 0b10000u8, 0b10000u8, 0b10111u8, 0b10001u8, 0b10001u8, 0b01111u8],
        'H' => seq![0b10001u8, 0b10001u8, 0b10001u8, 0b11111u8, 0b10001u8, 0b10001u8, 0b10001u8],
        'I' => seq![0b01110u8, 0b00100u8, 0b00100u8, 0b00100u8, 0b00100u8, 0b00100u8, 0b01110u8],
        'J' => seq![0b00111u8, 0b00010u8, 0b00010u8, 0b00010u8, 0b10010u8, 0b10010u8, 0b01100u8],
        'K' => seq![0b10001u8, 0b10010u8, 0b10100u8, 0b11000u8, 0b10100u8, 0b10010u8, 0b10001u8],
        'L' => seq![0b10000u8, 0b10000u8, 0b10000u8, 0b10000u8, 0b10000u8, 0b10000u8, 0b11111u8],
        'M' => seq![0b10001u8, 0b11011u8, 0b10101u8, 0b10101u8, 0b10001u8, 0b10001u8, 0b10001u8],
        'N' => seq![0b10001u8, 0b11001u8, 0b10101u8, 0b10011u8, 0b10001u8, 0b10001u8, 0b10001u8],
        'O' => seq![0b01110u8, 0b10001u8, 0b10001u8, 0b10001u8, 0b10001u8, 0b10001u8, 0b01110u8],
        'P' => seq![0b11110u8, 0b10001u8, 0b10001u8, 0b11110u8, 0b10000u8, 0b10000u8, 0b10000u8],
        'Q' => seq![0b01110u8, 0b10001u8, 0b10001u8, 0b10001u8, 0b10101u8, 0b10001u8, 0b01101u8],
        'R' => seq![0b11110u8, 0b10001u8, 0b10001u8, 0b11110u8, 0b10100u8, 0b10010u8, 0b10001u8],
        'S' => seq![0b01111u8, 0b10000u8, 0b10000u8, 0b01110u8, 0b00001u8, 0b00001u8, 0b11110u8],
        'T' => seq![0b11111u8, 0b00100u8, 0b00100u8, 0b00100u8, 0b00100u8, 0b00100u8, 0b00100u8],
        'U' => seq![0b10001u8, 0b10001u8, 0b10001u8, 0b10001u8, 0b10001u8, 0b10001u8, 0b01110u8],
        'V' => seq![0b10001u8, 0b10001u8, 0b10001u8, 0b10001u8, 0b10001u8, 0b01010u8, 0b00100u8],
        'W' => seq![0b10001u8, 0b10001u8, 0b10001u8, 0b10101u8, 0b10101u8, 0b11011u8, 0b10001u8],
        'X' => seq![0b10001u8, 0b10001u8, 0b01010u8, 0b00100u8, 0b01010u8, 0b10001u8, 0b10001u8],
        'Y' => seq![0b10001u8, 0b10001u8, 0b01010u8, 0b00100u8, 0b00100u8, 0b00100u8, 0b00100u8],
        'Z' => seq![0b11111u8, 0b00001u8, 0b00010u8, 0b00100u8, 0b01000u8, 0b10000u8, 0b11111u8],
        '<' => seq![0b00010u8, 0b00100u8, 0b01000u8, 0b10000u8, 0b01000u8, 0b00100u8, 0b00010u8],
        '>' => seq![0b01000u8, 0b00100u8, 0b00010u8, 0b00001u8, 0b00010u8, 0b00100u8, 0b01000u8],
        '[' => seq![0b11110u8, 0b10000u8, 0b10000u8, 0b10000u8, 0b10000u8, 0b10000u8, 0b11110u8],
        ']' => seq![0b01111u8, 0b00001u8, 0b00001u8, 0b00001u8, 0b00001u8, 0b00001u8, 0b01111u8],
        '%' => seq![0b11001u8, 0b11010u8, 0b00100u8, 0b01000u8, 0b01011u8, 0b10011u8, 0b00000u8],
        '/' => seq![0b00001u8, 0b00010u8, 0b00100u8, 0b01000u8, 0b10000u8, 0b00000u8, 0b00000u8],
        '\\' => seq![0b10000u8, 0b01000u8, 0b00100u8, 0b00010u8, 0b00001u8, 0b00000u8, 0b00000u8],
        '-' => seq![0b00000u8, 0b00000u8, 0b00000u8, 0b11111u8, 0b00000u8, 0b00000u8, 0b00000u8],
        '+' => seq![0b00000u8, 0b00100u8, 0b00100u8, 0b11111u8, 0b00100u8, 0b00100u8, 0b00000u8],
        '=' => seq![0b00000u8, 0b11111u8, 0b00000u8, 0b11111u8, 0b00000u8, 0b00000u8, 0b00000u8],
        '.' => seq![0b00000u8, 0b00000u8, 0b00000u8, 0b00000u8, 0b00000u8, 0b01100u8, 0b01100u8],
        ',' => seq![0b00000u8, 0b00000u8, 0b00000u8, 0b00000u8, 0b00000u8, 0b01100u8, 0b00100u8],
        ':' => seq![0b00000u8, 0b01100u8, 0b01100u8, 0b00000u8, 0b01100u8, 0b01100u8, 0b00000u8],
        '?' => seq![0b01110u8, 0b10001u8, 0b00010u8, 0b00100u8, 0b00100u8, 0b00000u8, 0b00100u8],
        '(' => seq![0b00100u8, 0b01000u8, 0b10000u8, 0b10000u8, 0b10000u8, 0b01000u8, 0b00100u8],
        ')' => seq![0b00100u8, 0b00010u8, 0b00001u8, 0b00001u8, 0b00001u8, 0b00010u8, 0b00100u8],
        '$' => seq![0b00100u8, 0b01111u8, 0b10100u8, 0b01110u8, 0b00101u8, 0b11110u8, 0b00100u8],
        '#' => seq![0b01010u8, 0b01010u8, 0b11111u8, 0b01010u8, 0b11111u8, 0b01010u8, 0b01010u8],
        '|' => seq![0b00100u8, 0b00100u8, 0b00100u8, 0b00100u8, 0b00100u8, 0b00100u8, 0b00100u8],
        '*' => seq![0b00000u8, 0b10101u8, 0b01110u8, 0b11111u8, 0b01110u8, 0b10101u8, 0b00000u8],
        '^' => seq![0b00100u8, 0b01010u8, 0b10001u8, 0b00000u8, 0b00000u8, 0b00000u8, 0b00000u8],
        '!' => seq![0b00100u8, 0b00100u8, 0b00100u8, 0b00100u8, 0b00000u8, 0b00100u8, 0b00000u8],
        ' ' => seq![0b00000u8, 0b00000u8, 0b00000u8, 0b00000u8, 0b00000u8, 0b00000u8, 0b00000u8],
        _ => seq![0b11111u8, 0b10001u8, 0b10001u8, 0b10001u8, 0b10001u8, 0b10001u8, 0b11111u8],
    }
}

/// The seven glyph rows of an upper-case character.
pub fn glyph_rows(c: char) -> (r: [u8; 7])
    ensures
        r@ == glyph(c),
{
    match c {
        '0' => [0b01110, 0b10001, 0b10011, 0b10101, 0b11001, 0b10001, 0b01110],
        '1' => [0b00100, 0b01100, 0b00100, 0b00100, 0b00100, 0b00100, 0b01110],
        '2' => [0b01110, 0b10001, 0b00001, 0b00010, 0b00100, 0b01000, 0b11111],
        '3' => [0b11110, 0b00001, 0b00001, 0b01110, 0b00001, 0b00001, 0b11110],
        '4' => [0b00010, 0b00110, 0b01010, 0b10010, 0b11111, 0b00010, 0b00010],
        '5' => [0b11111, 0b10000, 0b11110, 0b00001, 0b00001, 0b10001, 0b01110],
        '6' => [0b00110, 0b01000, 0b10000, 0b11110, 0b10001, 0b10001, 0b01110],
        '7' => [0b11111, 0b00001, 0b00010, 0b00100, 0b01000, 0b01000, 0b01000],
        '8' => [0b01110, 0b10001, 0b10001, 0b01110, 0b10001, 0b10001, 0b01110],
        '9' => [0b01110, 0b10001, 0b10001, 0b01111, 0b00001, 0b00010, 0b01100],
        'A' => [0b01110, 0b10001, 0b10001, 0b11111, 0b10001, 0b10001, 0b10001],
        'B' => [0b11110, 0b10001, 0b10001, 0b11110, 0b10001, 0b10001, 0b11110],
        'C' => [0b01111, 0b10000, 0b10000, 0b10000, 0b10000, 0b10000, 0b01111],
        'D' => [0b11110, 0b10001, 0b10001, 0b10001, 0b10001, 0b10001, 0b11110],
        'E' => [0b11111, 0b10000, 0b10000, 0b11110, 0b10000, 0b10000, 0b11111],
        'F' => [0b11111, 0b10000, 0b10000, 0b11110, 0b10000, 0b10000, 0b10000],
        'G' => [0b01111, 0b10000, 0b10000, 0b10111, 0b10001, 0b10001, 0b01111],
        'H' => [0b10001, 0b10001, 0b10001, 0b11111, 0b10001, 0b10001, 0b10001],
        'I' => [0b01110, 0b00100, 0b00100, 0b00100, 0b00100, 0b00100, 0b01110],
        'J' => [0b00111, 0b00010, 0b00010, 0b00010, 0b10010, 0b10010, 0b01100],
        'K' => [0b10001, 0b10010, 0b10100, 0b11000, 0b10100, 0b10010, 0b10001],
        'L' => [0b10000, 0b10000, 0b10000, 0b10000, 0b10000, 0b10000, 0b11111],
        'M' => [0b10001, 0b11011, 0b10101, 0b10101, 0b10001, 0b10001, 0b10001],
        'N' => [0b10001, 0b11001, 0b10101, 0b10011, 0b10001, 0b10001, 0b10001],
        'O' => [0b01110, 0b10001, 0b10001, 0b10001, 0b10001, 0b10001, 0b01110],
        'P' => [0b11110, 0b10001, 0b10001, 0b11110, 0b10000, 0b10000, 0b10000],
        'Q' => [0b01110, 0b10001, 0b10001, 0b10001, 0b10101, 0b10001, 0b01101],
        'R' => [0b11110, 0b10001, 0b10001, 0b11110, 0b10100, 0b10010, 0b10001],
        'S' => [0b01111, 0b10000, 0b10000, 0b01110, 0b00001, 0b00001, 0b11110],
        'T' => [0b11111, 0b00100, 0b00100, 0b00100, 0b00100, 0b00100, 0b00100],
        'U' => [0b10001, 0b10001, 0b10001, 0b10001, 0b10001, 0b10001, 0b01110],
        'V' => [0b10001, 0b10001, 0b10001, 0b10001, 0b10001, 0b01010, 0b00100],
        'W' => [0b10001, 0b10001, 0b10001, 0b10101, 0b10101, 0b11011, 0b10001],
        'X' => [0b10001, 0b10001, 0b01010, 0b00100, 0b01010, 0b10001, 0b10001],
        'Y' => [0b10001, 0b10001, 0b01010, 0b00100, 0b00100, 0b00100, 0b00100],
        'Z' => [0b11111, 0b00001, 0b00010, 0b00100, 0b01000, 0b10000, 0b11111],
        '<' => [0b00010, 0b00100, 0b01000, 0b10000, 0b01000, 0b00100, 0b00010],
        '>' => [0b01000, 0b00100, 0b00010, 0b00001, 0b00010, 0b00100, 0b01000],
        '[' => [0b11110, 0b10000, 0b10000, 0b10000, 0b10000, 0b10000, 0b11110],
        ']' => [0b01111, 0b00001, 0b00001, 0b00001, 0b00001, 0b00001, 0b01111],
        '%' => [0b11001, 0b11010, 0b00100, 0b01000, 0b01011, 0b10011, 0b00000],
        '/' => [0b00001, 0b00010, 0b00100, 0b01000, 0b10000, 0b00000, 0b00000],
        '\\' => [0b10000, 0b01000, 0b00100, 0b00010, 0b00001, 0b00000, 0b00000],
        '-' => [0b00000, 0b00000, 0b00000, 0b11111, 0b00000, 0b00000, 0b00000],
        '+' => [0b00000, 0b00100, 0b00100, 0b11111, 0b00100, 0b00100, 0b00000],
        '=' => [0b00000, 0b11111, 0b00000, 0b11111, 0b00000, 0b00000, 0b00000],
        '.' => [0b00000, 0b00000, 0b00000, 0b00000, 0b00000, 0b01100, 0b01100],
        ',' => [0b00000, 0b00000, 0b00000, 0b00000, 0b00000, 0b01100, 0b00100],
        ':' => [0b00000, 0b01100, 0b01100, 0b00000, 0b01100, 0b01100, 0b00000],
        '?' => [0b01110, 0b10001, 0b00010, 0b00100, 0b00100, 0b00000, 0b00100],
        '(' => [0b00100, 0b01000, 0b10000, 0b10000, 0b10000, 0b01000, 0b00100],
        ')' => [0b00100, 0b00010, 0b00001, 0b00001, 0b00001, 0b00010, 0b00100],
        '$' => [0b00100, 0b01111, 0b10100, 0b01110, 0b00101, 0b11110, 0b00100],
        '#' => [0b01010, 0b01010, 0b11111, 0b01010, 0b11111, 0b01010, 0b01010],
        '|' => [0b00100, 0b00100, 0b00100, 0b00100, 0b00100, 0b00100, 0b00100],
        '*' => [0b00000, 0b10101, 0b01110, 0b11111, 0b01110, 0b10101, 0b00000],
        '^' => [0b00100, 0b01010, 0b10001, 0b00000, 0b00000, 0b00000, 0b00000],
        '!' => [0b00100, 0b00100, 0b00100, 0b00100, 0b00000, 0b00100, 0b00000],
        ' ' => [0b00000, 0b00000, 0b00000, 0b00000, 0b00000, 0b00000, 0b00000],
        _ => [0b11111, 0b10001, 0b10001, 0b10001, 0b10001, 0b10001, 0b11111],
    }
}

/// Pixel `(col, row)` of the glyph of `c` (after upper-case folding) is set.
pub open spec fn glyph_bit(c: char, col: int, row: int) -> bool {
    0 <= col < 5 && 0 <= row < 7 && (glyph(ascii_upper(c))[row] & ((1u8 << ((4 - col) as u8)) as u8)) != 0
}


/// The worth of column `col` in a glyph row read as a five-digit binary number: the leftmost column is the most
/// significant digit.
pub open spec fn column_weight(col: int) -> int {
    if col == 0 {
        16
    } else if col == 1 {
        8
    } else if col == 2 {
        4
    } else if col == 3 {
        2
    } else {
        1
    }
}

/// A glyph row is a five-digit binary number read from left to right: pixel `(col, row)` of a character is set
/// exactly when the row's binary digit of worth `column_weight(col)` is 1 (so the leftmost column is the row's
/// most significant digit, and glyphs are never drawn mirrored).
pub proof fn law_glyph_columns_read_left_to_right(c: char, col: int, row: int)
    requires
        0 <= col < 5,
        0 <= row < 7,
    ensures
        glyph_bit(c, col, row) == ((glyph(ascii_upper(c))[row] as int / column_weight(col)) % 2 == 1),
{
    let v: u8 = glyph(ascii_upper(c))[row];
    if col == 0 {
        assert(((v & ((1u8 << 4u8) as u8)) != 0) == ((v / 16) % 2 == 1)) by (bit_vector);
    } else if col == 1 {
        assert(((v & ((1u8 << 3u8) as u8)) != 0) == ((v / 8) % 2 == 1)) by (bit_vector);
    } else if col == 2 {
        assert(((v & ((1u8 << 2u8) as u8)) != 0) == ((v / 4) % 2 == 1)) by (bit_vector);
    } else if col == 3 {
        assert(((v & ((1u8 << 1u8) as u8)) != 0) == ((v / 2) % 2 == 1)) by (bit_vector);
    } else {
        assert(((v & ((1u8 << 0u8) as u8)) != 0) == ((v / 1) % 2 == 1)) by (bit_vector);
    }
}

} // verus!
