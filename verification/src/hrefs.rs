//! The link conventions of slide SVGs: transition markers, build steps, video and audio hotspots, charts.
use vstd::prelude::*;
use crate::chars::{chars_of, string_of};
use crate::text::{
    has_prefix, after, trimmed, trim_chars, parsed_usize, parse_usize, split_on, split_chars, split_once_at,
    split_once_chars, starts_with_chars, chars_after,
};
use crate::links::without_hash;

verus! {

/// What an SVG link stands for, by the prefix of its target (after an optional `#`).
#[derive(Clone, Copy, Debug, PartialEq, Eq, Structural)]
pub enum HrefKind {
    /// `transition:NAME` names the slide's transition.
    Transition,
    /// `step:N?effect=E` marks a build step.
    Step,
    /// `video:PATH` is a video hotspot.
    Video,
    /// `audio:PATH?...` is an audio hotspot.
    Audio,
    /// `chart:...` describes an interactive chart.
    Chart,
    /// Anything else is a hyperlink.
    Link,
}

/// The kind of the link target `h`.
pub open spec fn href_kind(h: Seq<char>) -> HrefKind {
    let c = without_hash(h);
    if has_prefix(c, "transition:"@) {
        HrefKind::Transition
    } else if has_prefix(c, "step:"@) {
        HrefKind::Step
    } else if has_prefix(c, "video:"@) {
        HrefKind::Video
    } else if has_prefix(c, "audio:"@) {
        HrefKind::Audio
    } else if has_prefix(c, "chart:"@) {
        HrefKind::Chart
    } else {
        HrefKind::Link
    }
}

/// The link target without an optional leading `#`.
fn strip_hash(h: &str) -> (r: Vec<char>)
    ensures
        r@ == without_hash(h@),
{
    let t = chars_of(h);
    let hash = vec!['#'];
    assert(hash@ =~= seq!['#']);
    if starts_with_chars(&t, &hash) {
        chars_after(&t, 1)
    } else {
        assert(after(t@, 0) =~= t@);
        chars_after(&t, 0)
    }
}

/// `c` begins with the text `lit`.
fn has_literal_prefix(c: &Vec<char>, lit: &str) -> (r: bool)
    ensures
        r == has_prefix(c@, lit@),
{
    let l = chars_of(lit);
    starts_with_chars(c, &l)
}

/// Classifies an SVG link target.
pub fn classify_href(href: &str) -> (r: HrefKind)
    ensures
        r == href_kind(href@),
{
    let c = strip_hash(href);
    if has_literal_prefix(&c, "transition:") {
        HrefKind::Transition
    } else if has_literal_prefix(&c, "step:") {
        HrefKind::Step
    } else if has_literal_prefix(&c, "video:") {
        HrefKind::Video
    } else if has_literal_prefix(&c, "audio:") {
        HrefKind::Audio
    } else if has_literal_prefix(&c, "chart:") {
        HrefKind::Chart
    } else {
        HrefKind::Link
    }
}

/// What follows the kind's prefix in the link target `h` (after an optional `#`).
pub open spec fn href_payload(h: Seq<char>, prefix_len: int) -> Seq<char> {
    after(without_hash(h), prefix_len)
}

/// The length of the prefix that marks a link of kind `k`; plain links have none.
pub open spec fn kind_prefix_len(k: HrefKind) -> int {
    match k {
        HrefKind::Transition => 11,
        HrefKind::Step => 5,
        HrefKind::Video => 6,
        HrefKind::Audio => 6,
        HrefKind::Chart => 6,
        HrefKind::Link => 0,
    }
}

/// What a link carries: for a marked link the text after its prefix (and the optional `#`), for a plain link
/// the whole target as written.
pub open spec fn link_payload_spec(h: Seq<char>) -> Seq<char> {
    let k = href_kind(h);
    if k == HrefKind::Link {
        h
    } else {
        href_payload(h, kind_prefix_len(k))
    }
}

/// The text a link target carries: the step query, media path, audio query or chart description after the
/// prefix, or a plain link's whole target.
pub fn href_payload_text(href: &str) -> (r: String)
    ensures
        r@ == link_payload_spec(href@),
{
    let k = classify_href(href);
    let c = strip_hash(href);
    proof {
        reveal_strlit("transition:");
        reveal_strlit("step:");
        reveal_strlit("video:");
        reveal_strlit("audio:");
        reveal_strlit("chart:");
    }
    let n: usize = match k {
        HrefKind::Transition => 11,
        HrefKind::Step => 5,
        HrefKind::Video => 6,
        HrefKind::Audio => 6,
        HrefKind::Chart => 6,
        HrefKind::Link => {
            return href.to_string();
        },
    };
    let rest = chars_after(&c, n);
    string_of(&rest)
}

/// The outline colour of a hovered hotspot: blue for links, orange for videos, green for audio, cyan for
/// charts; transition and step markers are no hotspots.
pub fn hotspot_outline_color(kind: HrefKind) -> (r: Option<u32>)
    ensures
        r == match kind {
            HrefKind::Link => Some(0xFF58a6ffu32),
            HrefKind::Video => Some(0xFFf0883eu32),
            HrefKind::Audio => Some(0xFF3fb950u32),
            HrefKind::Chart => Some(0xFF38bdf8u32),
            _ => None::<u32>,
        },
{
    match kind {
        HrefKind::Link => Some(0xFF58a6ffu32),
        HrefKind::Video => Some(0xFFf0883eu32),
        HrefKind::Audio => Some(0xFF3fb950u32),
        HrefKind::Chart => Some(0xFF38bdf8u32),
        _ => None,
    }
}

/// The transition a `transition:NAME` link names, trimmed.
pub fn transition_name(href: &str) -> (r: Option<String>)
    ensures
        href_kind(href@) == HrefKind::Transition ==> (r matches Some(n) && n@ == trimmed(href_payload(href@, 11))),
        href_kind(href@) != HrefKind::Transition ==> r is None,
{
    let c = strip_hash(href);
    if has_literal_prefix(&c, "transition:") {
        proof {
            reveal_strlit("transition:");
        }
        let rest = chars_after(&c, 11);
        let t = trim_chars(&rest);
        Some(string_of(&t))
    } else {
        None
    }
}

/// The value of the last `key=value` piece for `key` among `pieces` (split at the first `=`).
pub open spec fn last_value(pieces: Seq<Seq<char>>, key: Seq<char>) -> Option<Seq<char>>
    decreases pieces.len(),
{
    if pieces.len() == 0 {
        None
    } else {
        match split_once_at(pieces.last(), '=') {
            Some((k, v)) => if k == key {
                Some(v)
            } else {
                last_value(pieces.drop_last(), key)
            },
            None => last_value(pieces.drop_last(), key),
        }
    }
}

/// The values of all `key=value` pieces whose key is `k1` or `k2`, in order.
pub open spec fn values_for(pieces: Seq<Seq<char>>, k1: Seq<char>, k2: Seq<char>) -> Seq<Seq<char>>
    decreases pieces.len(),
{
    if pieces.len() == 0 {
        Seq::empty()
    } else {
        let earlier = values_for(pieces.drop_last(), k1, k2);
        match split_once_at(pieces.last(), '=') {
            Some((k, v)) => if k == k1 || k == k2 {
                earlier.push(v)
            } else {
                earlier
            },
            None => earlier,
        }
    }
}

/// The parameters of a link query: its `&`- or `;`-separated pieces.
pub open spec fn query_pieces(params: Seq<char>) -> Seq<Seq<char>> {
    split_on(params, seq!['&', ';'])
}

/// A link query split at its first `?` into the part before and the parameters (empty when there is no `?`).
pub open spec fn query_parts(q: Seq<char>) -> (Seq<char>, Seq<char>) {
    match split_once_at(q, '?') {
        Some((a, b)) => (a, b),
        None => (q, Seq::empty()),
    }
}

/// A build step: its order (1 when unreadable) and its reveal effect (`fade-in` unless an `effect=` parameter
/// names another; the last one counts).
pub open spec fn step_spec(q: Seq<char>) -> (usize, Seq<char>) {
    let (order_text, params) = query_parts(q);
    (
        match parsed_usize(order_text) {
            Some(n) => n,
            None => 1,
        },
        match last_value(query_pieces(params), "effect"@) {
            Some(e) => e,
            None => "fade-in"@,
        },
    )
}

/// Finds the value of the last `key=value` piece for `key`.
fn find_last_value(pieces: &Vec<Vec<char>>, key: &str) -> (r: Option<Vec<char>>)
    ensures
        match last_value(pieces@.map_values(|v: Vec<char>| v@), key@) {
            Some(v) => r matches Some(x) && x@ == v,
            None => r is None,
        },
{
    let ghost ps = pieces@.map_values(|v: Vec<char>| v@);
    let k = chars_of(key);
    let mut found: Option<Vec<char>> = None;
    let mut i: usize = 0;
    while i < pieces.len()
        invariant
            i <= pieces@.len(),
            ps == pieces@.map_values(|v: Vec<char>| v@),
            k@ == key@,
            match last_value(ps.take(i as int), key@) {
                Some(v) => found matches Some(x) && x@ == v,
                None => found is None,
            },
        decreases pieces.len() - i,
    {
        proof {
            assert(ps.take(i + 1).drop_last() =~= ps.take(i as int));
            assert(ps.take(i + 1).last() == pieces@[i as int]@);
        }
        match split_once_chars(&pieces[i], '=') {
            Some((pk, pv)) => {
                if same_chars(&pk, &k) {
                    found = Some(pv);
                }
            },
            None => {},
        }
        i += 1;
    }
    proof {
        assert(ps.take(i as int) =~= ps);
    }
    found
}

/// `a` and `b` hold the same characters.
fn same_chars(a: &Vec<char>, b: &Vec<char>) -> (r: bool)
    ensures
        r == (a@ == b@),
{
    if a.len() != b.len() {
        return false;
    }
    let r = starts_with_chars(a, b);
    proof {
        assert(a@ =~= a@.subrange(0, b@.len() as int));
    }
    r
}

/// The order and reveal effect of a build step link `step:QUERY`, given its query.
pub fn parse_step_query(query: &str) -> (r: (usize, String))
    ensures
        r.0 == step_spec(query@).0,
        r.1@ == step_spec(query@).1,
{
    let q = chars_of(query);
    let (order_text, params) = match split_once_chars(&q, '?') {
        Some((a, b)) => (a, b),
        None => (chars_after(&q, 0), Vec::new()),
    };
    proof {
        assert(after(q@, 0) =~= q@);
    }
    let order = match parse_usize(&order_text) {
        Some(n) => n,
        None => 1,
    };
    let seps = vec!['&', ';'];
    assert(seps@ =~= seq!['&', ';']);
    let pieces = split_chars(&params, &seps);
    let effect = match find_last_value(&pieces, "effect") {
        Some(e) => string_of(&e),
        None => "fade-in".to_string(),
    };
    (order, effect)
}

/// The settings of an audio hotspot link `audio:PATH?PARAMS`: the source path, whether it starts by itself
/// (`autoplay=true` or `=1`), whether it loops (`loop=...` likewise) and the texts given for its volume
/// (`vol=` or `volume=`), in order; the player reads the last of them that is a number.
#[derive(Clone, Debug)]
pub struct AudioQuery {
    pub source: String,
    pub autoplay: bool,
    pub loop_audio: bool,
    pub volume_texts: Vec<String>,
}

/// A flag parameter is on when its last value is `true` or `1`.
pub open spec fn flag_on(pieces: Seq<Seq<char>>, key: Seq<char>) -> bool {
    match last_value(pieces, key) {
        Some(v) => v == "true"@ || v == "1"@,
        None => false,
    }
}

/// Reads the query of an audio hotspot link.
pub fn parse_audio_query(query: &str) -> (r: AudioQuery)
    ensures
        r.source@ == query_parts(query@).0,
        r.autoplay == flag_on(query_pieces(query_parts(query@).1), "autoplay"@),
        r.loop_audio == flag_on(query_pieces(query_parts(query@).1), "loop"@),
        r.volume_texts@.map_values(|v: String| v@) == values_for(
            query_pieces(query_parts(query@).1),
            "vol"@,
            "volume"@,
        ),
{
    let q = chars_of(query);
    let (source, params) = match split_once_chars(&q, '?') {
        Some((a, b)) => (a, b),
        None => (chars_after(&q, 0), Vec::new()),
    };
    proof {
        assert(after(q@, 0) =~= q@);
    }
    let seps = vec!['&', ';'];
    assert(seps@ =~= seq!['&', ';']);
    let pieces = split_chars(&params, &seps);
    let t = chars_of("true");
    let one = chars_of("1");
    let autoplay = match find_last_value(&pieces, "autoplay") {
        Some(v) => same_chars(&v, &t) || same_chars(&v, &one),
        None => false,
    };
    let loop_audio = match find_last_value(&pieces, "loop") {
        Some(v) => same_chars(&v, &t) || same_chars(&v, &one),
        None => false,
    };
    let ghost ps = pieces@.map_values(|v: Vec<char>| v@);
    let k1 = chars_of("vol");
    let k2 = chars_of("volume");
    let mut vols: Vec<String> = Vec::new();
    let mut i: usize = 0;
    while i < pieces.len()
        invariant
            i <= pieces@.len(),
            ps == pieces@.map_values(|v: Vec<char>| v@),
            k1@ == "vol"@,
            k2@ == "volume"@,
            vols@.map_values(|v: String| v@) == values_for(ps.take(i as int), "vol"@, "volume"@),
        decreases pieces.len() - i,
    {
        proof {
            assert(ps.take(i + 1).drop_last() =~= ps.take(i as int));
            assert(ps.take(i + 1).last() == pieces@[i as int]@);
        }
        let ghost before = vols@.map_values(|v: String| v@);
        match split_once_chars(&pieces[i], '=') {
            Some((pk, pv)) => {
                if same_chars(&pk, &k1) || same_chars(&pk, &k2) {
                    vols.push(string_of(&pv));
                    proof {
                        assert(vols@.map_values(|v: String| v@) =~= before.push(pv@));
                    }
                }
            },
            None => {},
        }
        i += 1;
    }
    proof {
        assert(ps.take(i as int) =~= ps);
    }
    AudioQuery { source: string_of(&source), autoplay, loop_audio, volume_texts: vols }
}


/// Step `a` is revealed before step `b` (both positions in document order): a smaller order first, and of equal
/// orders the earlier in the document.
pub open spec fn step_before(orders: Seq<usize>, a: usize, b: usize) -> bool {
    orders[a as int] < orders[b as int] || (orders[a as int] == orders[b as int] && a < b)
}

/// The build steps of a slide, given by their orders in document order, arranged for revealing: every position
/// exactly once, by order, equal orders keeping document order.
pub fn step_sequence(orders: &Vec<usize>) -> (r: Vec<usize>)
    ensures
        r@.len() == orders@.len(),
        forall|k: int| 0 <= k < r@.len() ==> r@[k] < orders@.len(),
        forall|i: usize| i < orders@.len() ==> #[trigger] r@.contains(i),
        forall|k: int| 0 <= k < r@.len() - 1 ==> step_before(orders@, #[trigger] r@[k], r@[k + 1]),
{
    let n = orders.len();
    let mut out: Vec<usize> = Vec::new();
    let mut i: usize = 0;
    while i < n
        invariant
            n == orders@.len(),
            i <= n,
            out@.len() == i,
            forall|k: int| 0 <= k < out@.len() ==> out@[k] < i,
            forall|j: usize| j < i ==> #[trigger] out@.contains(j),
            forall|k: int| 0 <= k < out@.len() - 1 ==> step_before(orders@, #[trigger] out@[k], out@[k + 1]),
        decreases n - i,
    {
        let mut p: usize = 0;
        while p < out.len() && orders[out[p]] <= orders[i]
            invariant
                n == orders@.len(),
                i < n,
                p <= out@.len(),
                forall|k: int| 0 <= k < out@.len() ==> out@[k] < i,
                forall|k: int| 0 <= k < p ==> step_before(orders@, #[trigger] out@[k], i),
            decreases out.len() - p,
        {
            assert(step_before(orders@, out@[p as int], i));
            p += 1;
        }
        let ghost before = out@;
        out.insert(p, i);
        proof {
            assert(out@ == before.insert(p as int, i));
            assert forall|k: int| 0 <= k < out@.len() - 1 implies step_before(orders@, #[trigger] out@[k], out@[k + 1]) by {
                if k + 1 < p {
                    assert(out@[k] == before[k] && out@[k + 1] == before[k + 1]);
                } else if k + 1 == p {
                    assert(out@[k] == before[k] && out@[k + 1] == i);
                } else if k == p {
                    assert(out@[k] == i && out@[k + 1] == before[k]);
                    assert(before[k] < i);
                } else {
                    assert(out@[k] == before[k - 1] && out@[k + 1] == before[k]);
                }
            }
            assert forall|j: usize| j < i + 1 implies #[trigger] out@.contains(j) by {
                if j == i {
                    assert(out@[p as int] == i);
                } else {
                    assert(before.contains(j));
                    let k = choose|k: int| 0 <= k < before.len() && before[k] == j;
                    if k < p {
                        assert(out@[k] == j);
                    } else {
                        assert(out@[k + 1] == j);
                    }
                }
            }
            assert forall|k: int| 0 <= k < out@.len() implies out@[k] < i + 1 by {
                if k < p {
                    assert(out@[k] == before[k]);
                } else if k > p {
                    assert(out@[k] == before[k - 1]);
                }
            }
        }
        i += 1;
    }
    out
}

} // verus!
