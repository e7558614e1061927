//! SVG text sanitising: escaping bare `&` so XML parsers accept Typst's output.
use vstd::prelude::*;
use crate::chars::{chars_of, string_of};

verus! {

/// What `char::is_alphanumeric` answers for `c` (Unicode Alphabetic or Numeric).
pub uninterp spec fn char_is_alphanumeric(c: char) -> bool;

/// ASCII letters and digits.
pub open spec fn is_ascii_alnum(c: char) -> bool {
    ('a' <= c <= 'z') || ('A' <= c <= 'Z') || ('0' <= c <= '9')
}

/// Whether `c` is alphanumeric as `char::is_alphanumeric` answers: among ASCII characters exactly the letters
/// and digits; beyond ASCII, the Unicode Alphabetic and Numeric properties.
pub open spec fn is_alnum(c: char) -> bool {
    if (c as u32) < 0x80 {
        is_ascii_alnum(c)
    } else {
        char_is_alphanumeric(c)
    }
}

/// Calls `char::is_alphanumeric`. Claimed: the answer is a function of `c` alone, and among ASCII characters
/// exactly the letters and digits are alphanumeric. What it answers for other characters (Unicode tables)
/// is left unsaid.
#[verifier::external_body]
fn is_alphanumeric(c: char) -> (r: bool)
    ensures
        r == char_is_alphanumeric(c),
        (c as u32) < 0x80 ==> (r <==> is_ascii_alnum(c)),
{
    c.is_alphanumeric()
}

/// Number of bytes of `c` in UTF-8.
pub open spec fn utf8_width(c: char) -> int {
    if (c as u32) < 0x80 {
        1
    } else if (c as u32) < 0x800 {
        2
    } else if (c as u32) < 0x10000 {
        3
    } else {
        4
    }
}

/// The UTF-8 width of `c`.
fn char_utf8_width(c: char) -> (r: usize)
    ensures
        r == utf8_width(c),
{
    let v = c as u32;
    if v < 0x80 {
        1
    } else if v < 0x800 {
        2
    } else if v < 0x10000 {
        3
    } else {
        4
    }
}

/// Reads an entity name after `&`: `Some(name)` when the characters up to a `;` are all alphanumeric or `#`
/// and take at most 10 bytes; `name` and `nbytes` are what has been read so far.
pub open spec fn scan_entity(r: Seq<char>, name: Seq<char>, nbytes: int) -> Option<Seq<char>>
    decreases r.len(),
{
    if r.len() == 0 {
        None
    } else if r[0] == ';' {
        Some(name)
    } else if is_alnum(r[0]) || r[0] == '#' {
        if nbytes + utf8_width(r[0]) > 10 {
            None
        } else {
            scan_entity(r.drop_first(), name.push(r[0]), nbytes + utf8_width(r[0]))
        }
    } else {
        None
    }
}

/// Entities that XML parsers already understand: the five predefined ones and numeric references.
pub open spec fn is_kept_entity(name: Seq<char>) -> bool {
    name == seq!['a', 'm', 'p'] || name == seq!['l', 't'] || name == seq!['g', 't'] || name == seq![
        'q',
        'u',
        'o',
        't',
    ] || name == seq!['a', 'p', 'o', 's'] || (name.len() > 1 && name[0] == '#')
}

/// The entity read after a leading `&` of `r` (the `&` itself excluded).
pub open spec fn entity_after(r: Seq<char>) -> Option<Seq<char>> {
    scan_entity(r, Seq::empty(), 0)
}

/// The sanitised form of an SVG text: a `&` that starts a known entity or numeric reference is kept,
/// `&nbsp;` becomes `&#160;`, and every other `&` becomes `&amp;`.
pub open spec fn sanitized(s: Seq<char>) -> Seq<char>
    decreases s.len(),
{
    if s.len() == 0 {
        Seq::empty()
    } else if s[0] != '&' {
        seq![s[0]] + sanitized(s.drop_first())
    } else {
        let rest = s.drop_first();
        match entity_after(rest) {
            Some(name) => {
                if is_kept_entity(name) {
                    seq!['&'] + sanitized(rest)
                } else if name == seq!['n', 'b', 's', 'p'] && s.len() >= 6 {
                    seq!['&', '#', '1', '6', '0', ';'] + sanitized(s.subrange(6, s.len() as int))
                } else {
                    seq!['&', 'a', 'm', 'p', ';'] + sanitized(rest)
                }
            },
            None => seq!['&', 'a', 'm', 'p', ';'] + sanitized(rest),
        }
    }
}

/// Reads the entity name that starts at `start` (just after a `&`).
fn read_entity(chars: &Vec<char>, start: usize) -> (r: Option<Vec<char>>)
    requires
        start <= chars.len(),
    ensures
        match r {
            Some(v) => entity_after(chars@.subrange(start as int, chars.len() as int)) == Some(v@),
            None => entity_after(chars@.subrange(start as int, chars.len() as int)) is None,
        },
{
    let mut name: Vec<char> = Vec::new();
    let mut nbytes: usize = 0;
    let mut j = start;
    while j < chars.len()
        invariant
            start <= j <= chars.len(),
            nbytes <= 10,
            entity_after(chars@.subrange(start as int, chars.len() as int)) == scan_entity(
                chars@.subrange(j as int, chars.len() as int),
                name@,
                nbytes as int,
            ),
        decreases chars.len() - j,
    {
        let c = chars[j];
        let ghost r = chars@.subrange(j as int, chars.len() as int);
        assert(r[0] == c);
        assert(r.drop_first() == chars@.subrange(j + 1, chars.len() as int));
        if c == ';' {
            return Some(name);
        }
        if is_alphanumeric(c) || c == '#' {
            let w = char_utf8_width(c);
            name.push(c);
            if nbytes + w > 10 {
                return None;
            }
            nbytes = nbytes + w;
        } else {
            return None;
        }
        j += 1;
    }
    None
}

/// `v` spells the word `w`.
fn spells(v: &Vec<char>, w: &str) -> (r: bool)
    ensures
        r == (v@ == w@),
{
    let wc = chars_of(w);
    if v.len() != wc.len() {
        return false;
    }
    let mut i: usize = 0;
    while i < v.len()
        invariant
            v.len() == wc.len(),
            wc@ == w@,
            i <= v.len(),
            forall|k: int| 0 <= k < i ==> v@[k] == wc@[k],
        decreases v.len() - i,
    {
        if v[i] != wc[i] {
            return false;
        }
        i += 1;
    }
    assert(v@ =~= wc@);
    true
}

/// Pushes the characters of `w` onto `out`.
fn push_str(out: &mut Vec<char>, w: &str)
    ensures
        final(out)@ == old(out)@ + w@,
{
    let wc = chars_of(w);
    let mut i: usize = 0;
    while i < wc.len()
        invariant
            i <= wc.len(),
            wc@ == w@,
            out@ == old(out)@ + wc@.take(i as int),
        decreases wc.len() - i,
    {
        out.push(wc[i]);
        i += 1;
        assert(out@ == old(out)@ + wc@.take(i as int));
    }
    assert(wc@.take(wc@.len() as int) == wc@);
}

/// Sanitises an SVG string by escaping bare `&` characters so XML parsers do not fail on malformed
/// entity references.
pub fn sanitize_svg(svg: &str) -> (r: String)
    ensures
        r@ == sanitized(svg@),
        ampersands_escaped(r@),
        sanitized(r@) == r@,
        ampersands_escaped(svg@) ==> r@ == svg@,
{
    proof {
        reveal_strlit("amp");
        reveal_strlit("lt");
        reveal_strlit("gt");
        reveal_strlit("quot");
        reveal_strlit("apos");
        reveal_strlit("nbsp");
        reveal_strlit("&#160;");
        reveal_strlit("&amp;");
        assert("amp"@ =~= seq!['a', 'm', 'p']);
        assert("lt"@ =~= seq!['l', 't']);
        assert("gt"@ =~= seq!['g', 't']);
        assert("quot"@ =~= seq!['q', 'u', 'o', 't']);
        assert("apos"@ =~= seq!['a', 'p', 'o', 's']);
        assert("nbsp"@ =~= seq!['n', 'b', 's', 'p']);
        assert("&#160;"@ =~= seq!['&', '#', '1', '6', '0', ';']);
        assert("&amp;"@ =~= seq!['&', 'a', 'm', 'p', ';']);
    }
    let chars = chars_of(svg);
    let n = chars.len();
    let mut out: Vec<char> = Vec::new();
    let mut i: usize = 0;
    assert(chars@.subrange(0, n as int) == chars@);
    while i < n
        invariant
            "amp"@ == seq!['a', 'm', 'p'],
            "lt"@ == seq!['l', 't'],
            "gt"@ == seq!['g', 't'],
            "quot"@ == seq!['q', 'u', 'o', 't'],
            "apos"@ == seq!['a', 'p', 'o', 's'],
            "nbsp"@ == seq!['n', 'b', 's', 'p'],
            "&#160;"@ == seq!['&', '#', '1', '6', '0', ';'],
            "&amp;"@ == seq!['&', 'a', 'm', 'p', ';'],
            n == chars.len(),
            chars@ == svg@,
            i <= n,
            sanitized(chars@) == out@ + sanitized(chars@.subrange(i as int, n as int)),
        decreases n - i,
    {
        let c = chars[i];
        let ghost s = chars@.subrange(i as int, n as int);
        assert(s[0] == c);
        assert(s.drop_first() == chars@.subrange(i + 1, n as int));
        if c == '&' {
            let ent = read_entity(&chars, i + 1);
            match ent {
                Some(name) => {
                    let kept = spells(&name, "amp") || spells(&name, "lt") || spells(&name, "gt")
                        || spells(&name, "quot") || spells(&name, "apos") || (name.len() > 1
                        && name[0] == '#');
                    if kept {
                        assert(is_kept_entity(name@));
                        assert(sanitized(s) == seq!['&'] + sanitized(s.drop_first()));
                        out.push('&');
                        i += 1;
                    } else if spells(&name, "nbsp") {
                        proof {
                            lemma_nbsp_prefix(s.drop_first());
                        }
                        assert(!is_kept_entity(name@));
                        assert(s.subrange(6, s.len() as int) == chars@.subrange(i + 6, n as int));
                        assert(sanitized(s) == seq!['&', '#', '1', '6', '0', ';'] + sanitized(s.subrange(6, s.len() as int)));
                        push_str(&mut out, "&#160;");
                        i += 6;
                    } else {
                        assert(!is_kept_entity(name@));
                        assert(name@ != seq!['n', 'b', 's', 'p']);
                        assert(sanitized(s) == seq!['&', 'a', 'm', 'p', ';'] + sanitized(s.drop_first()));
                        push_str(&mut out, "&amp;");
                        i += 1;
                    }
                },
                None => {
                    assert(sanitized(s) == seq!['&', 'a', 'm', 'p', ';'] + sanitized(s.drop_first()));
                    push_str(&mut out, "&amp;");
                    i += 1;
                },
            }
        } else {
            assert(sanitized(s) == seq![c] + sanitized(s.drop_first()));
            out.push(c);
            i += 1;
        }
    }
    assert(chars@.subrange(n as int, n as int) =~= Seq::<char>::empty());
    proof {
        lemma_sanitized_escaped(svg@);
        lemma_escaped_fixed(sanitized(svg@));
        if ampersands_escaped(svg@) {
            lemma_escaped_fixed(svg@);
        }
    }
    string_of(&out)
}

/// A `nbsp` entity is followed by its `;`, so the text holds at least five characters after the `&`.
proof fn lemma_nbsp_prefix(r: Seq<char>)
    requires
        entity_after(r) == Some(seq!['n', 'b', 's', 'p']),
    ensures
        r.len() >= 5,
{
    lemma_scan_length(r, Seq::empty(), 0);
}

/// A successful scan reads its name and the closing `;` from the text.
proof fn lemma_scan_length(r: Seq<char>, name: Seq<char>, nbytes: int)
    requires
        scan_entity(r, name, nbytes) is Some,
    ensures
        r.len() >= scan_entity(r, name, nbytes)->0.len() - name.len() + 1,
    decreases r.len(),
{
    if r.len() > 0 && r[0] != ';' {
        lemma_scan_length(r.drop_first(), name.push(r[0]), nbytes + utf8_width(r[0]));
    }
}

/// Every `&` of `t` starts an entity that sanitising keeps, so `t` holds no bare ampersand.
pub open spec fn ampersands_escaped(t: Seq<char>) -> bool
    decreases t.len(),
{
    t.len() == 0 || ((t[0] != '&' || (entity_after(t.drop_first()) matches Some(n) && is_kept_entity(n)))
        && ampersands_escaped(t.drop_first()))
}

/// Sanitising does not change the entity read after a `&`: the scan stops at the first `&`, which
/// sanitising leaves in place.
proof fn lemma_scan_sanitized(r: Seq<char>, name: Seq<char>, nbytes: int)
    ensures
        scan_entity(sanitized(r), name, nbytes) == scan_entity(r, name, nbytes),
    decreases r.len(),
{
    if r.len() == 0 {
    } else if r[0] != '&' {
        let t = sanitized(r);
        assert(t[0] == r[0]);
        assert(t.drop_first() == sanitized(r.drop_first()));
        if r[0] != ';' && (is_alnum(r[0]) || r[0] == '#') && nbytes + utf8_width(r[0]) <= 10 {
            lemma_scan_sanitized(r.drop_first(), name.push(r[0]), nbytes + utf8_width(r[0]));
        }
    } else {
        assert(sanitized(r)[0] == '&');
    }
}

/// A scan over ASCII letters, digits and `#` reads them all, up to the `;` that follows them.
proof fn lemma_scan_name(n: Seq<char>, t: Seq<char>, name: Seq<char>, nbytes: int)
    requires
        forall|i: int| 0 <= i < n.len() ==> is_ascii_alnum(#[trigger] n[i]) || n[i] == '#',
        nbytes + n.len() <= 10,
    ensures
        scan_entity(n + seq![';'] + t, name, nbytes) == Some(name + n),
    decreases n.len(),
{
    let r = n + seq![';'] + t;
    if n.len() == 0 {
        assert(r[0] == ';');
        assert(name + n =~= name);
    } else {
        let c = n[0];
        assert(r[0] == c);
        assert(is_ascii_alnum(c) || c == '#');
        assert((c as u32) < 0x80);
        assert(r.drop_first() =~= n.drop_first() + seq![';'] + t);
        assert forall|i: int| 0 <= i < n.drop_first().len() implies is_ascii_alnum(#[trigger] n.drop_first()[i])
            || n.drop_first()[i] == '#' by {
            assert(n.drop_first()[i] == n[i + 1]);
        }
        lemma_scan_name(n.drop_first(), t, name.push(c), nbytes + 1);
        assert(name.push(c) + n.drop_first() =~= name + n);
    }
}

/// Text without `&` passes through sanitising unchanged, and sanitising goes on after it.
proof fn lemma_sanitized_plain_prefix(p: Seq<char>, x: Seq<char>)
    requires
        forall|i: int| 0 <= i < p.len() ==> p[i] != '&',
    ensures
        sanitized(p + x) == p + sanitized(x),
    decreases p.len(),
{
    if p.len() > 0 {
        let s = p + x;
        assert(s[0] == p[0]);
        assert(s.drop_first() =~= p.drop_first() + x);
        lemma_sanitized_plain_prefix(p.drop_first(), x);
        assert(seq![p[0]] + (p.drop_first() + sanitized(x)) =~= p + sanitized(x));
    } else {
        assert(p + x =~= x);
        assert(p + sanitized(x) =~= sanitized(x));
    }
}

/// The five entities XML predefines, `&amp;`, `&lt;`, `&gt;`, `&quot;` and `&apos;`, and decimal character
/// references `&#N;` pass through sanitising untouched, whatever follows them.
pub proof fn law_predefined_entities_kept(n: Seq<char>, t: Seq<char>)
    requires
        n == seq!['a', 'm', 'p'] || n == seq!['l', 't'] || n == seq!['g', 't'] || n == seq!['q', 'u', 'o', 't']
            || n == seq!['a', 'p', 'o', 's'] || (2 <= n.len() <= 10 && n[0] == '#' && forall|i: int|
            1 <= i < n.len() ==> '0' <= #[trigger] n[i] <= '9'),
    ensures
        sanitized(seq!['&'] + n + seq![';'] + t) == seq!['&'] + n + seq![';'] + sanitized(t),
{
    let s = seq!['&'] + n + seq![';'] + t;
    let rest = n + seq![';'] + t;
    assert(s[0] == '&');
    assert(s.drop_first() =~= rest);
    assert forall|i: int| 0 <= i < n.len() implies is_ascii_alnum(#[trigger] n[i]) || n[i] == '#' by {
        if n.len() > 1 && n[0] == '#' && i >= 1 {
            assert('0' <= n[i] <= '9');
        }
    }
    lemma_scan_name(n, t, Seq::empty(), 0);
    assert(Seq::<char>::empty() + n =~= n);
    assert(entity_after(rest) == Some(n));
    assert(is_kept_entity(n));
    let p = n + seq![';'];
    assert forall|i: int| 0 <= i < p.len() implies p[i] != '&' by {
        if i < n.len() {
            assert(p[i] == n[i]);
        }
    }
    assert(rest =~= p + t);
    lemma_sanitized_plain_prefix(p, t);
    assert(seq!['&'] + (p + sanitized(t)) =~= seq!['&'] + n + seq![';'] + sanitized(t));
}

/// A prefix without `&` does not affect whether the ampersands of a text are escaped.
proof fn lemma_escaped_prefix(p: Seq<char>, x: Seq<char>)
    requires
        forall|i: int| 0 <= i < p.len() ==> p[i] != '&',
    ensures
        ampersands_escaped(p + x) == ampersands_escaped(x),
    decreases p.len(),
{
    if p.len() > 0 {
        assert((p + x).drop_first() == p.drop_first() + x);
        lemma_escaped_prefix(p.drop_first(), x);
    } else {
        assert(p + x == x);
    }
}

/// Sanitised text holds no bare ampersand.
proof fn lemma_sanitized_escaped(s: Seq<char>)
    ensures
        ampersands_escaped(sanitized(s)),
    decreases s.len(),
{
    if s.len() == 0 {
    } else if s[0] != '&' {
        lemma_sanitized_escaped(s.drop_first());
        let t = sanitized(s);
        assert(t.drop_first() == sanitized(s.drop_first()));
    } else {
        let rest = s.drop_first();
        lemma_sanitized_escaped(rest);
        let t = sanitized(s);
        match entity_after(rest) {
            Some(name) => {
                if is_kept_entity(name) {
                    lemma_scan_sanitized(rest, Seq::empty(), 0);
                    assert(t.drop_first() == sanitized(rest));
                } else if name == seq!['n', 'b', 's', 'p'] && s.len() >= 6 {
                    let x = sanitized(s.subrange(6, s.len() as int));
                    lemma_sanitized_escaped(s.subrange(6, s.len() as int));
                    let p = seq!['#', '1', '6', '0', ';'];
                    assert(t == seq!['&'] + (p + x));
                    assert(t.drop_first() == p + x);
                    lemma_escaped_prefix(p, x);
                    let q = p + x;
                    assert(q.drop_first() == seq!['1', '6', '0', ';'] + x);
                    assert(q.drop_first().drop_first() == seq!['6', '0', ';'] + x);
                    assert(q.drop_first().drop_first().drop_first() == seq!['0', ';'] + x);
                    assert(q.drop_first().drop_first().drop_first().drop_first() == seq![';'] + x);
                    assert(scan_entity(seq![';'] + x, seq!['#', '1', '6', '0'], 4) == Some(seq!['#', '1', '6', '0']));
                    assert((seq!['0', ';'] + x).drop_first() =~= seq![';'] + x);
                    assert(seq!['#', '1', '6'].push('0') =~= seq!['#', '1', '6', '0']);
                    assert(scan_entity(seq!['0', ';'] + x, seq!['#', '1', '6'], 3) == Some(seq!['#', '1', '6', '0']));
                    assert((seq!['6', '0', ';'] + x).drop_first() =~= seq!['0', ';'] + x);
                    assert(seq!['#', '1'].push('6') =~= seq!['#', '1', '6']);
                    assert(scan_entity(seq!['6', '0', ';'] + x, seq!['#', '1'], 2) == Some(seq!['#', '1', '6', '0']));
                    assert((seq!['1', '6', '0', ';'] + x).drop_first() =~= seq!['6', '0', ';'] + x);
                    assert(seq!['#'].push('1') =~= seq!['#', '1']);
                    assert(scan_entity(seq!['1', '6', '0', ';'] + x, seq!['#'], 1) == Some(seq!['#', '1', '6', '0']));
                    assert(scan_entity(q, Seq::empty(), 0) == Some(seq!['#', '1', '6', '0']));
                } else {
                    let x = sanitized(rest);
                    let p = seq!['a', 'm', 'p', ';'];
                    assert(t == seq!['&'] + (p + x));
                    assert(t.drop_first() == p + x);
                    lemma_escaped_prefix(p, x);
                    let q = p + x;
                    assert(q.drop_first() == seq!['m', 'p', ';'] + x);
                    assert(q.drop_first().drop_first() == seq!['p', ';'] + x);
                    assert(q.drop_first().drop_first().drop_first() == seq![';'] + x);
                    assert(scan_entity(seq![';'] + x, seq!['a', 'm', 'p'], 3) == Some(seq!['a', 'm', 'p']));
                    assert((seq!['p', ';'] + x).drop_first() =~= seq![';'] + x);
                    assert(seq!['a', 'm'].push('p') =~= seq!['a', 'm', 'p']);
                    assert(scan_entity(seq!['p', ';'] + x, seq!['a', 'm'], 2) == Some(seq!['a', 'm', 'p']));
                    assert((seq!['m', 'p', ';'] + x).drop_first() =~= seq!['p', ';'] + x);
                    assert(seq!['a'].push('m') =~= seq!['a', 'm']);
                    assert(scan_entity(seq!['m', 'p', ';'] + x, seq!['a'], 1) == Some(seq!['a', 'm', 'p']));
                    assert(scan_entity(q, Seq::empty(), 0) == Some(seq!['a', 'm', 'p']));
                }
            },
            None => {
                let x = sanitized(rest);
                let p = seq!['a', 'm', 'p', ';'];
                assert(t == seq!['&'] + (p + x));
                assert(t.drop_first() == p + x);
                lemma_escaped_prefix(p, x);
                let q = p + x;
                assert(q.drop_first() == seq!['m', 'p', ';'] + x);
                assert(q.drop_first().drop_first() == seq!['p', ';'] + x);
                assert(q.drop_first().drop_first().drop_first() == seq![';'] + x);
                assert(scan_entity(seq![';'] + x, seq!['a', 'm', 'p'], 3) == Some(seq!['a', 'm', 'p']));
                assert((seq!['p', ';'] + x).drop_first() =~= seq![';'] + x);
                assert(seq!['a', 'm'].push('p') =~= seq!['a', 'm', 'p']);
                assert(scan_entity(seq!['p', ';'] + x, seq!['a', 'm'], 2) == Some(seq!['a', 'm', 'p']));
                assert((seq!['m', 'p', ';'] + x).drop_first() =~= seq!['p', ';'] + x);
                assert(seq!['a'].push('m') =~= seq!['a', 'm']);
                assert(scan_entity(seq!['m', 'p', ';'] + x, seq!['a'], 1) == Some(seq!['a', 'm', 'p']));
                assert(scan_entity(q, Seq::empty(), 0) == Some(seq!['a', 'm', 'p']));
            },
        }
    }
}

/// Text whose ampersands are all escaped is left unchanged by sanitising.
proof fn lemma_escaped_fixed(t: Seq<char>)
    requires
        ampersands_escaped(t),
    ensures
        sanitized(t) == t,
    decreases t.len(),
{
    if t.len() > 0 {
        lemma_escaped_fixed(t.drop_first());
        assert(t == seq![t[0]] + t.drop_first());
    }
}

} // verus!
