//! Hyperlink targets: percent-decoding, Windows path prefixes, and what a click on a link does.
use vstd::prelude::*;
use vstd::string::StringSliceAdditionalSpecFns;
use vstd::utf8::{encode_utf8, decode_utf8, valid_utf8, encode_utf8_valid_utf8, encode_utf8_decode_utf8,
    decode_utf8_encode_utf8};
use crate::chars::{chars_of, string_of};
use crate::text::{
    has_prefix, has_infix, after, parsed_usize, starts_with_chars, contains_chars, chars_after, parse_usize,
};

verus! {

/// The value of an ASCII hexadecimal digit.
pub open spec fn hex_digit(b: u8) -> Option<u8> {
    if 48 <= b <= 57 {
        Some((b - 48) as u8)
    } else if 97 <= b <= 102 {
        Some((b - 97 + 10) as u8)
    } else if 65 <= b <= 70 {
        Some((b - 65 + 10) as u8)
    } else {
        None
    }
}

/// `s` percent-decoded from the left: each `%` followed by two hex digits becomes the byte they spell; every
/// other byte is kept.
pub open spec fn percent_decoded(s: Seq<u8>) -> Seq<u8>
    decreases s.len(),
{
    if s.len() == 0 {
        Seq::empty()
    } else if s[0] == 37 && s.len() >= 3 && hex_digit(s[1]) is Some && hex_digit(s[2]) is Some {
        seq![(hex_digit(s[1])->0 * 16 + hex_digit(s[2])->0) as u8] + percent_decoded(s.subrange(3, s.len() as int))
    } else {
        seq![s[0]] + percent_decoded(s.subrange(1, s.len() as int))
    }
}

/// The value of the hex digit `b`, if it is one.
fn hex_value(b: u8) -> (r: Option<u8>)
    ensures
        r == hex_digit(b),
{
    if 48 <= b && b <= 57 {
        Some(b - 48)
    } else if 97 <= b && b <= 102 {
        Some(b - 97 + 10)
    } else if 65 <= b && b <= 70 {
        Some(b - 65 + 10)
    } else {
        None
    }
}

/// Percent-decodes `bytes`.
pub fn percent_decode(bytes: &[u8]) -> (r: Vec<u8>)
    ensures
        r@ == percent_decoded(bytes@),
{
    let n = bytes.len();
    let mut out: Vec<u8> = Vec::new();
    let mut i: usize = 0;
    proof {
        assert(bytes@.subrange(0, n as int) =~= bytes@);
        assert(out@ + percent_decoded(bytes@) =~= percent_decoded(bytes@));
    }
    while i < n
        invariant
            n == bytes@.len(),
            i <= n,
            percent_decoded(bytes@) == out@ + percent_decoded(bytes@.subrange(i as int, n as int)),
        decreases n - i,
    {
        let ghost rest = bytes@.subrange(i as int, n as int);
        let mut step: usize = 1;
        let mut b = bytes[i];
        if bytes[i] == 37 && n - i >= 3 {
            match (hex_value(bytes[i + 1]), hex_value(bytes[i + 2])) {
                (Some(n1), Some(n2)) => {
                    assert(((n1 << 4u8) | n2) == n1 * 16 + n2) by (bit_vector)
                        requires
                            n1 < 16,
                            n2 < 16,
                    ;
                    b = (n1 << 4) | n2;
                    step = 3;
                },
                _ => {},
            }
        }
        proof {
            assert(rest[0] == bytes@[i as int]);
            if step == 3 {
                assert(rest[1] == bytes@[i + 1] && rest[2] == bytes@[i + 2]);
                assert(rest.subrange(3, rest.len() as int) =~= bytes@.subrange(i + 3, n as int));
            } else {
                assert(rest.len() >= 3 ==> rest[1] == bytes@[i + 1] && rest[2] == bytes@[i + 2]);
                assert(rest.subrange(1, rest.len() as int) =~= bytes@.subrange(i + 1, n as int));
            }
        }
        out.push(b);
        proof {
            assert(percent_decoded(rest) == seq![b] + percent_decoded(bytes@.subrange(i + step, n as int)));
            assert(out@ + percent_decoded(bytes@.subrange(i + step, n as int)) =~= (out@.drop_last() + seq![b])
                + percent_decoded(bytes@.subrange(i + step, n as int)));
            assert(out@.drop_last() + (seq![b] + percent_decoded(bytes@.subrange(i + step, n as int)))
                =~= (out@.drop_last() + seq![b]) + percent_decoded(bytes@.subrange(i + step, n as int)));
        }
        i = i + step;
    }
    proof {
        assert(bytes@.subrange(n as int, n as int) =~= Seq::<u8>::empty());
        assert(out@ + Seq::<u8>::empty() =~= out@);
    }
    out
}

/// Bytes without a `%` are left as they are.
pub proof fn lemma_percent_free_unchanged(s: Seq<u8>)
    requires
        !s.contains(37u8),
    ensures
        percent_decoded(s) == s,
    decreases s.len(),
{
    if s.len() > 0 {
        let t = s.subrange(1, s.len() as int);
        assert forall|x: u8| t.contains(x) implies s.contains(x) by {
            let j = choose|j: int| 0 <= j < t.len() && t[j] == x;
            assert(s[j + 1] == x);
        }
        lemma_percent_free_unchanged(t);
        assert(seq![s[0]] + t =~= s);
    }
}

/// What `String::from_utf8_lossy` makes of `bytes`.
pub uninterp spec fn utf8_lossy(bytes: Seq<u8>) -> Seq<char>;

/// Calls `String::from_utf8_lossy`. Claimed: the result is a function of the bytes alone, and bytes that are the
/// UTF-8 encoding of some characters give back exactly those characters. How invalid sequences are replaced
/// is left unsaid.
#[verifier::external_body]
fn string_from_utf8_lossy(bytes: &[u8]) -> (r: String)
    ensures
        r@ == utf8_lossy(bytes@),
        forall|cs: Seq<char>| bytes@ == encode_utf8(cs) ==> r@ == cs,
{
    String::from_utf8_lossy(bytes).into_owned()
}

/// What percent-decoding the text `t` gives: the decoded bytes read as UTF-8 where they are valid UTF-8, and
/// otherwise what `String::from_utf8_lossy` makes of them.
pub open spec fn url_decoded(t: Seq<char>) -> Seq<char> {
    let b = percent_decoded(encode_utf8(t));
    if valid_utf8(b) {
        decode_utf8(b)
    } else {
        utf8_lossy(b)
    }
}

/// Percent-decodes `s` (as UTF-8 bytes) and reads the result back as UTF-8, replacing invalid sequences.
pub fn url_decode(s: &str) -> (r: String)
    ensures
        r@ == url_decoded(s@),
        !s.spec_bytes().contains(37u8) ==> r@ == s@,
{
    let bytes = s.as_bytes();
    let decoded = percent_decode(bytes);
    proof {
        if !s.spec_bytes().contains(37u8) {
            lemma_percent_free_unchanged(s.spec_bytes());
            encode_utf8_valid_utf8(s@);
            encode_utf8_decode_utf8(s@);
        }
    }
    let r = string_from_utf8_lossy(decoded.as_slice());
    proof {
        let b = percent_decoded(encode_utf8(s@));
        if valid_utf8(b) {
            decode_utf8_encode_utf8(b);
            assert(decoded@ == encode_utf8(decode_utf8(b)));
        }
    }
    r
}

/// The hexadecimal digit of `n` (below 16) in ASCII, upper- or lower-case.
pub open spec fn hex_char(n: u8, upper: bool) -> u8 {
    if n < 10 {
        (48 + n) as u8
    } else if upper {
        (55 + n) as u8
    } else {
        (87 + n) as u8
    }
}

/// Every byte of `b` written as `%` and its two hexadecimal digits.
pub open spec fn percent_encoded(b: Seq<u8>, upper: bool) -> Seq<u8>
    decreases b.len(),
{
    if b.len() == 0 {
        Seq::empty()
    } else {
        seq![37u8, hex_char(b[0] / 16, upper), hex_char(b[0] % 16, upper)] + percent_encoded(
            b.subrange(1, b.len() as int),
            upper,
        )
    }
}

/// Percent-decoding undoes percent-encoding, with either case of hexadecimal digits.
pub proof fn lemma_percent_round_trip(b: Seq<u8>, upper: bool)
    ensures
        percent_decoded(percent_encoded(b, upper)) == b,
    decreases b.len(),
{
    if b.len() > 0 {
        let e = percent_encoded(b, upper);
        let hi = b[0] / 16;
        let lo = b[0] % 16;
        assert(hex_digit(hex_char(hi, upper)) == Some(hi));
        assert(hex_digit(hex_char(lo, upper)) == Some(lo));
        assert(hi * 16 + lo == b[0]);
        let rest = b.subrange(1, b.len() as int);
        lemma_percent_round_trip(rest, upper);
        assert(e.subrange(3, e.len() as int) =~= percent_encoded(rest, upper));
        assert(seq![b[0]] + rest =~= b);
    }
}

/// Decoding a link target whose every byte was percent-encoded (`%XX`, upper- or lower-case hexadecimal
/// digits) gives back the text that was encoded.
pub proof fn law_url_decode_round_trip(cs: Seq<char>, t: Seq<char>, upper: bool)
    requires
        encode_utf8(t) == percent_encoded(encode_utf8(cs), upper),
    ensures
        url_decoded(t) == cs,
{
    lemma_percent_round_trip(encode_utf8(cs), upper);
    encode_utf8_valid_utf8(cs);
    encode_utf8_decode_utf8(cs);
}

/// The Windows extended-length prefix `\\?\`.
pub open spec fn verbatim_prefix() -> Seq<char> {
    seq!['\\', '\\', '?', '\\']
}

/// The Windows extended-length UNC prefix `\\?\UNC\`.
pub open spec fn verbatim_unc_prefix() -> Seq<char> {
    seq!['\\', '\\', '?', '\\', 'U', 'N', 'C', '\\']
}

/// `p` with an extended-length prefix removed: `\\?\UNC\server\share` becomes `\\server\share` and
/// `\\?\C:\dir` becomes `C:\dir`; other paths are unchanged.
pub open spec fn without_verbatim_prefix(p: Seq<char>) -> Seq<char> {
    if has_prefix(p, verbatim_unc_prefix()) {
        seq!['\\', '\\'] + after(p, 8)
    } else if has_prefix(p, verbatim_prefix()) {
        after(p, 4)
    } else {
        p
    }
}

/// Removes a Windows extended-length prefix so the path can be handed to shells and launchers; on other
/// platforms (`on_windows` false) the path is returned unchanged.
pub fn normalize_windows_path(p: &str, on_windows: bool) -> (r: String)
    ensures
        r@ == if on_windows { without_verbatim_prefix(p@) } else { p@ },
{
    let v = chars_of(p);
    if !on_windows {
        return string_of(&v);
    }
    let unc = vec!['\\', '\\', '?', '\\', 'U', 'N', 'C', '\\'];
    let verbatim = vec!['\\', '\\', '?', '\\'];
    assert(unc@ =~= verbatim_unc_prefix());
    assert(verbatim@ =~= verbatim_prefix());
    if starts_with_chars(&v, &unc) {
        let rest = chars_after(&v, 8);
        let mut out = vec!['\\', '\\'];
        let mut i: usize = 0;
        while i < rest.len()
            invariant
                i <= rest@.len(),
                out@ == seq!['\\', '\\'] + rest@.take(i as int),
            decreases rest.len() - i,
        {
            out.push(rest[i]);
            i += 1;
            proof {
                assert(out@ =~= seq!['\\', '\\'] + rest@.take(i as int));
            }
        }
        proof {
            assert(rest@.take(rest@.len() as int) =~= rest@);
        }
        string_of(&out)
    } else if starts_with_chars(&v, &verbatim) {
        let rest = chars_after(&v, 4);
        string_of(&rest)
    } else {
        string_of(&v)
    }
}

/// What a click on a link hotspot does.
#[derive(Clone, Copy, Debug, PartialEq, Eq, Structural)]
pub enum LinkAction {
    /// Open the chart inspector for the chart description that follows `chart:`.
    OpenChart,
    /// Nothing: an internal marker, or a page link that names no other existing slide.
    Ignore,
    /// Hand the target to the system opener as it is (web address or mail link).
    OpenExternal,
    /// Go to the slide with this index.
    JumpTo(usize),
    /// Resolve the target as a local file and open it.
    OpenLocal,
}

/// The target with one leading `#` removed.
pub open spec fn without_hash(t: Seq<char>) -> Seq<char> {
    if has_prefix(t, seq!['#']) { after(t, 1) } else { t }
}

/// The page number text of an in-document link `#page=N`, `#slide=N` or `#N`.
pub open spec fn page_text(t: Seq<char>) -> Option<Seq<char>> {
    if has_prefix(t, seq!['#', 'p', 'a', 'g', 'e', '=']) {
        Some(after(t, 6))
    } else if has_prefix(t, seq!['#', 's', 'l', 'i', 'd', 'e', '=']) {
        Some(after(t, 7))
    } else if has_prefix(t, seq!['#']) {
        Some(after(t, 1))
    } else {
        None
    }
}

/// A target the system opener handles directly: `mailto:` or a URL with a scheme other than `file://`.
pub open spec fn is_external(t: Seq<char>) -> bool {
    has_prefix(t, seq!['m', 'a', 'i', 'l', 't', 'o', ':']) || (has_infix(t, seq![':', '/', '/']) && !has_prefix(
        t,
        seq!['f', 'i', 'l', 'e', ':', '/', '/'],
    ))
}

/// Metadata markers that links carry for the player itself.
pub open spec fn is_internal_marker(c: Seq<char>) -> bool {
    has_prefix(c, seq!['v', 'i', 'd', 'e', 'o', ':']) || has_prefix(c, seq!['a', 'u', 'd', 'i', 'o', ':'])
        || has_prefix(c, seq!['s', 't', 'e', 'p', ':']) || has_prefix(
        c,
        seq!['t', 'r', 'a', 'n', 's', 'i', 't', 'i', 'o', 'n', ':'],
    )
}

/// What a click on the link `t` does in a deck of `total` slides showing slide `current`.
pub open spec fn link_action(t: Seq<char>, total: int, current: int) -> LinkAction {
    let c = without_hash(t);
    if has_prefix(c, seq!['c', 'h', 'a', 'r', 't', ':']) {
        LinkAction::OpenChart
    } else if is_internal_marker(c) {
        LinkAction::Ignore
    } else if is_external(t) {
        LinkAction::OpenExternal
    } else if page_text(t) is Some {
        match parsed_usize(page_text(t)->0) {
            Some(page) => if 1 <= page <= total && page - 1 != current {
                LinkAction::JumpTo((page - 1) as usize)
            } else {
                LinkAction::Ignore
            },
            None => LinkAction::Ignore,
        }
    } else {
        LinkAction::OpenLocal
    }
}

/// Decides what a click on the link `target` does in a deck of `total_slides` slides showing `current_idx`.
pub fn classify_link(target: &str, total_slides: usize, current_idx: usize) -> (r: LinkAction)
    ensures
        r == link_action(target@, total_slides as int, current_idx as int),
{
    let t = chars_of(target);
    let hash = vec!['#'];
    assert(hash@ =~= seq!['#']);
    let c = if starts_with_chars(&t, &hash) { chars_after(&t, 1) } else { chars_after(&t, 0) };
    assert(after(t@, 0) =~= t@);
    let chart = vec!['c', 'h', 'a', 'r', 't', ':'];
    assert(chart@ =~= seq!['c', 'h', 'a', 'r', 't', ':']);
    if starts_with_chars(&c, &chart) {
        return LinkAction::OpenChart;
    }
    let video = vec!['v', 'i', 'd', 'e', 'o', ':'];
    let audio = vec!['a', 'u', 'd', 'i', 'o', ':'];
    let step = vec!['s', 't', 'e', 'p', ':'];
    let transition = vec!['t', 'r', 'a', 'n', 's', 'i', 't', 'i', 'o', 'n', ':'];
    assert(video@ =~= seq!['v', 'i', 'd', 'e', 'o', ':']);
    assert(audio@ =~= seq!['a', 'u', 'd', 'i', 'o', ':']);
    assert(step@ =~= seq!['s', 't', 'e', 'p', ':']);
    assert(transition@ =~= seq!['t', 'r', 'a', 'n', 's', 'i', 't', 'i', 'o', 'n', ':']);
    if starts_with_chars(&c, &video) || starts_with_chars(&c, &audio) || starts_with_chars(&c, &step)
        || starts_with_chars(&c, &transition) {
        return LinkAction::Ignore;
    }
    let mailto = vec!['m', 'a', 'i', 'l', 't', 'o', ':'];
    let scheme = vec![':', '/', '/'];
    let file = vec!['f', 'i', 'l', 'e', ':', '/', '/'];
    assert(mailto@ =~= seq!['m', 'a', 'i', 'l', 't', 'o', ':']);
    assert(scheme@ =~= seq![':', '/', '/']);
    assert(file@ =~= seq!['f', 'i', 'l', 'e', ':', '/', '/']);
    if starts_with_chars(&t, &mailto) || (contains_chars(&t, &scheme) && !starts_with_chars(&t, &file)) {
        return LinkAction::OpenExternal;
    }
    let page = vec!['#', 'p', 'a', 'g', 'e', '='];
    let slide = vec!['#', 's', 'l', 'i', 'd', 'e', '='];
    assert(page@ =~= seq!['#', 'p', 'a', 'g', 'e', '=']);
    assert(slide@ =~= seq!['#', 's', 'l', 'i', 'd', 'e', '=']);
    let num = if starts_with_chars(&t, &page) {
        chars_after(&t, 6)
    } else if starts_with_chars(&t, &slide) {
        chars_after(&t, 7)
    } else if starts_with_chars(&t, &hash) {
        chars_after(&t, 1)
    } else {
        return LinkAction::OpenLocal;
    };
    match parse_usize(&num) {
        Some(n) => if n >= 1 && n <= total_slides && n - 1 != current_idx {
            LinkAction::JumpTo(n - 1)
        } else {
            LinkAction::Ignore
        },
        None => LinkAction::Ignore,
    }
}

/// The chart description carried by a `chart:` link (after an optional leading `#`).
pub fn link_chart_payload(target: &str) -> (r: Option<String>)
    ensures
        r matches Some(p) ==> has_prefix(without_hash(target@), seq!['c', 'h', 'a', 'r', 't', ':']) && p@ == after(
            without_hash(target@),
            6,
        ),
        r is None ==> !has_prefix(without_hash(target@), seq!['c', 'h', 'a', 'r', 't', ':']),
{
    let t = chars_of(target);
    let hash = vec!['#'];
    assert(hash@ =~= seq!['#']);
    let c = if starts_with_chars(&t, &hash) { chars_after(&t, 1) } else { chars_after(&t, 0) };
    assert(after(t@, 0) =~= t@);
    let chart = vec!['c', 'h', 'a', 'r', 't', ':'];
    assert(chart@ =~= seq!['c', 'h', 'a', 'r', 't', ':']);
    if starts_with_chars(&c, &chart) {
        let p = chars_after(&c, 6);
        Some(string_of(&p))
    } else {
        None
    }
}

/// `c` is an ASCII letter.
pub open spec fn is_ascii_alpha(c: char) -> bool {
    ('a' <= c <= 'z') || ('A' <= c <= 'Z')
}

/// A local path written as `/C:/...` (RFC 8089 drive form) loses its leading slash; other paths are unchanged.
pub open spec fn without_drive_slash(d: Seq<char>) -> Seq<char> {
    if d.len() >= 3 && d[0] == '/' && is_ascii_alpha(d[1]) && d[2] == ':' {
        after(d, 1)
    } else {
        d
    }
}

/// The file-system path text of a local link target: without a `file://` scheme, percent-decoded, and with the
/// slash before a drive letter removed. Where the file is looked for on disk is the caller's business.
pub fn clean_local_path(raw: &str) -> (r: String)
    ensures
        r@ == without_drive_slash(
            url_decoded(
                if has_prefix(raw@, seq!['f', 'i', 'l', 'e', ':', '/', '/']) {
                    after(raw@, 7)
                } else {
                    raw@
                },
            ),
        ),
{
    let t = chars_of(raw);
    let file = vec!['f', 'i', 'l', 'e', ':', '/', '/'];
    assert(file@ =~= seq!['f', 'i', 'l', 'e', ':', '/', '/']);
    let path = if starts_with_chars(&t, &file) {
        let rest = chars_after(&t, 7);
        string_of(&rest)
    } else {
        string_of(&t)
    };
    let decoded = url_decode(path.as_str());
    let d = chars_of(decoded.as_str());
    if d.len() >= 3 && d[0] == '/' && (('a' <= d[1] && d[1] <= 'z') || ('A' <= d[1] && d[1] <= 'Z')) && d[2] == ':' {
        let rest = chars_after(&d, 1);
        string_of(&rest)
    } else {
        string_of(&d)
    }
}

} // verus!
