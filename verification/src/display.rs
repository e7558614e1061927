//! Reading the screen size out of what the display tools report: `xrandr` listings and the framebuffer's
//! `virtual_size` file.
use vstd::prelude::*;
use crate::chars::chars_of;
use crate::text::{
    is_ws, is_whitespace, split_once_at, split_once_chars, parsed_usize, parse_usize, has_infix,
    contains_chars, trimmed, trim_chars,
};
use crate::compile::{lines_of, split_lines};

verus! {

/// The whitespace-separated words of `s` seen so far, and the word being read, after reading all of `s`.
pub open spec fn ws_scan(s: Seq<char>) -> (Seq<Seq<char>>, Seq<char>)
    decreases s.len(),
{
    if s.len() == 0 {
        (Seq::empty(), Seq::empty())
    } else {
        let (words, cur) = ws_scan(s.drop_last());
        if is_ws(s.last()) {
            if cur.len() > 0 {
                (words.push(cur), Seq::empty())
            } else {
                (words, Seq::empty())
            }
        } else {
            (words, cur.push(s.last()))
        }
    }
}

/// The words of `s` as `str::split_whitespace` gives them: the non-empty runs between whitespace.
pub open spec fn ws_words(s: Seq<char>) -> Seq<Seq<char>> {
    let (words, cur) = ws_scan(s);
    if cur.len() > 0 {
        words.push(cur)
    } else {
        words
    }
}

/// Splits `s` into its whitespace-separated words.
pub fn whitespace_words(s: &Vec<char>) -> (r: Vec<Vec<char>>)
    ensures
        r@.map_values(|w: Vec<char>| w@) == ws_words(s@),
{
    let mut words: Vec<Vec<char>> = Vec::new();
    let mut cur: Vec<char> = Vec::new();
    let mut i: usize = 0;
    while i < s.len()
        invariant
            i <= s@.len(),
            (words@.map_values(|w: Vec<char>| w@), cur@) == ws_scan(s@.take(i as int)),
        decreases s.len() - i,
    {
        let c = s[i];
        proof {
            assert(s@.take(i + 1).drop_last() =~= s@.take(i as int));
            assert(s@.take(i + 1).last() == c);
        }
        if is_whitespace(c) {
            if cur.len() > 0 {
                let ghost before = words@.map_values(|w: Vec<char>| w@);
                words.push(cur);
                proof {
                    assert(words@.map_values(|w: Vec<char>| w@) =~= before.push(cur@));
                }
                cur = Vec::new();
            }
        } else {
            cur.push(c);
        }
        i += 1;
    }
    proof {
        assert(s@.take(i as int) =~= s@);
    }
    if cur.len() > 0 {
        let ghost before = words@.map_values(|w: Vec<char>| w@);
        words.push(cur);
        proof {
            assert(words@.map_values(|w: Vec<char>| w@) =~= before.push(cur@));
        }
    }
    words
}

/// Both numbers of a size read as positive `usize` values.
pub open spec fn positive_pair(w: Seq<char>, h: Seq<char>) -> Option<(usize, usize)> {
    match (parsed_usize(w), parsed_usize(h)) {
        (Some(a), Some(b)) => if a > 0 && b > 0 {
            Some((a, b))
        } else {
            None
        },
        _ => None,
    }
}

/// The size a word of the form `WxH+X+Y` gives: `W` before the first `x`, `H` up to the next `+`.
pub open spec fn geometry_size(word: Seq<char>) -> Option<(usize, usize)> {
    match split_once_at(word, 'x') {
        Some((w, rest)) => match split_once_at(rest, '+') {
            Some((h, _)) => positive_pair(w, h),
            None => None,
        },
        None => None,
    }
}

/// Reads a positive size out of two number texts.
fn parse_positive_pair(w: &Vec<char>, h: &Vec<char>) -> (r: Option<(usize, usize)>)
    ensures
        r == positive_pair(w@, h@),
{
    match (parse_usize(w), parse_usize(h)) {
        (Some(a), Some(b)) => if a > 0 && b > 0 {
            Some((a, b))
        } else {
            None
        },
        _ => None,
    }
}

/// Reads the size of a geometry word `WxH+X+Y`.
pub fn parse_geometry(word: &Vec<char>) -> (r: Option<(usize, usize)>)
    ensures
        r == geometry_size(word@),
{
    match split_once_chars(word, 'x') {
        Some((w, rest)) => match split_once_chars(&rest, '+') {
            Some((h, _)) => parse_positive_pair(&w, &h),
            None => None,
        },
        None => None,
    }
}

/// The size given by the first geometry word among `words`.
pub open spec fn first_geometry(words: Seq<Seq<char>>) -> Option<(usize, usize)>
    decreases words.len(),
{
    if words.len() == 0 {
        None
    } else {
        match first_geometry(words.drop_last()) {
            Some(g) => Some(g),
            None => geometry_size(words.last()),
        }
    }
}

/// The size an `xrandr` line gives: that of its first geometry word.
pub open spec fn line_geometry(l: Seq<char>) -> Option<(usize, usize)> {
    first_geometry(ws_words(l))
}

/// The line describes a connected output.
pub open spec fn is_connected_line(l: Seq<char>) -> bool {
    has_infix(l, " connected "@)
}

/// The line describes the primary output.
pub open spec fn is_primary_line(l: Seq<char>) -> bool {
    has_infix(l, " primary "@)
}

/// The size of the last connected primary output among `ls` that gives one.
pub open spec fn primary_size(ls: Seq<Seq<char>>) -> Option<(usize, usize)>
    decreases ls.len(),
{
    if ls.len() == 0 {
        None
    } else if is_connected_line(ls.last()) && is_primary_line(ls.last()) && line_geometry(ls.last()) is Some {
        line_geometry(ls.last())
    } else {
        primary_size(ls.drop_last())
    }
}

/// The size of the first connected non-primary output among `ls` that gives one.
pub open spec fn other_size(ls: Seq<Seq<char>>) -> Option<(usize, usize)>
    decreases ls.len(),
{
    if ls.len() == 0 {
        None
    } else {
        match other_size(ls.drop_last()) {
            Some(g) => Some(g),
            None => if is_connected_line(ls.last()) && !is_primary_line(ls.last()) {
                line_geometry(ls.last())
            } else {
                None
            },
        }
    }
}

/// The screen size an `xrandr` listing gives: the primary output's, else the first connected output's.
pub open spec fn xrandr_size(text: Seq<char>) -> Option<(usize, usize)> {
    match primary_size(lines_of(text)) {
        Some(g) => Some(g),
        None => other_size(lines_of(text)),
    }
}

/// The size of the first geometry word of a line.
fn line_size(l: &Vec<char>) -> (r: Option<(usize, usize)>)
    ensures
        r == line_geometry(l@),
{
    let words = whitespace_words(l);
    let ghost ws = words@.map_values(|w: Vec<char>| w@);
    let mut i: usize = 0;
    while i < words.len()
        invariant
            i <= words@.len(),
            ws == words@.map_values(|w: Vec<char>| w@),
            ws == ws_words(l@),
            first_geometry(ws.take(i as int)) is None,
        decreases words.len() - i,
    {
        proof {
            assert(ws.take(i + 1).drop_last() =~= ws.take(i as int));
            assert(ws.take(i + 1).last() == words@[i as int]@);
        }
        let g = parse_geometry(&words[i]);
        if g.is_some() {
            proof {
                lemma_first_geometry_extends(ws, (i + 1) as int);
            }
            return g;
        }
        i += 1;
    }
    proof {
        assert(ws.take(i as int) =~= ws);
    }
    None
}

/// Once a prefix of `words` gives a size, the whole sequence gives the same one.
proof fn lemma_first_geometry_extends(words: Seq<Seq<char>>, k: int)
    requires
        0 <= k <= words.len(),
        first_geometry(words.take(k)) is Some,
    ensures
        first_geometry(words) == first_geometry(words.take(k)),
    decreases words.len() - k,
{
    if k < words.len() {
        assert(words.take(k + 1).drop_last() =~= words.take(k));
        lemma_first_geometry_extends(words, k + 1);
    } else {
        assert(words.take(k) =~= words);
    }
}

/// Reads the screen size out of an `xrandr` listing: the primary connected output's, else the first connected
/// output's; none when no connected line carries a geometry.
pub fn parse_xrandr_resolution(text: &str) -> (r: Option<(usize, usize)>)
    ensures
        r == xrandr_size(text@),
{
    let content = chars_of(text);
    let lines = split_lines(&content);
    let ghost ls = lines_of(content@);
    let connected = chars_of(" connected ");
    let primary = chars_of(" primary ");
    let mut prim: Option<(usize, usize)> = None;
    let mut other: Option<(usize, usize)> = None;
    let mut i: usize = 0;
    while i < lines.len()
        invariant
            i <= lines@.len(),
            lines@.len() == ls.len(),
            ls == lines_of(text@),
            forall|k: int| 0 <= k < lines@.len() ==> #[trigger] lines@[k]@ == ls[k],
            connected@ == " connected "@,
            primary@ == " primary "@,
            prim == primary_size(ls.take(i as int)),
            other == other_size(ls.take(i as int)),
        decreases lines.len() - i,
    {
        let l = &lines[i];
        proof {
            assert(ls.take(i + 1).drop_last() =~= ls.take(i as int));
            assert(ls.take(i + 1).last() == l@);
        }
        let is_conn = contains_chars(l, &connected);
        let is_prim = contains_chars(l, &primary);
        if is_conn {
            let g = line_size(l);
            if is_prim {
                if g.is_some() {
                    prim = g;
                }
            } else if other.is_none() {
                other = g;
            }
        }
        i += 1;
    }
    proof {
        assert(ls.take(i as int) =~= ls);
    }
    match prim {
        Some(g) => Some(g),
        None => other,
    }
}

/// The size the framebuffer's `virtual_size` file gives: `W,H` (after trimming), both positive.
pub open spec fn framebuffer_size(text: Seq<char>) -> Option<(usize, usize)> {
    match split_once_at(trimmed(text), ',') {
        Some((w, h)) => positive_pair(w, h),
        None => None,
    }
}

/// Reads the screen size out of the framebuffer's `virtual_size` file.
pub fn parse_framebuffer_size(text: &str) -> (r: Option<(usize, usize)>)
    ensures
        r == framebuffer_size(text@),
{
    let t = trim_chars(&chars_of(text));
    match split_once_chars(&t, ',') {
        Some((w, h)) => parse_positive_pair(&w, &h),
        None => None,
    }
}

} // verus!
