//! The chart data pipeline: its `stage -> stage | ...` language, how its stages pick rows and series, and the
//! SQL that loads chart data into a query table.
use vstd::prelude::*;
use crate::chars::{chars_of, string_of};
use crate::text::{trimmed, trim_chars, parsed_usize, parse_usize, split_on, split_chars, append_chars, has_infix,
    contains_chars, decimal_text, decimal_chars, first_sep, find_sep, is_ws, is_whitespace};
use crate::display::{ws_words, whitespace_words};
use crate::commands::{lower_text, to_lowercase};
use crate::watch_filter::{ascii_lowercase, to_ascii_lower};
use crate::charts::ChartTransform;

verus! {

/// A pipeline stage, as parsed.
#[derive(Clone, Debug)]
pub enum DslStage {
    /// Keep the rows whose `column` compares with `value` by `op`.
    Filter { column: String, op: String, value: String },
    /// Order the rows by `column` (by row total when none).
    Sort { column: Option<String>, descending: bool },
    /// Keep the first rows.
    Limit(usize),
    /// Keep the last rows.
    Tail(usize),
    /// Keep the rows with the largest totals.
    TopK(usize),
    /// Keep the series whose lower-cased name contains one of these (lower-cased) texts.
    Select(Vec<String>),
    /// Replace each series by its moving average over this many rows.
    Smooth(usize),
    /// Replace each series by its running total.
    Cumulative,
    /// Replace each value by its share of the row total, in percent.
    Percent,
}

/// What a stage says, as text: the model of `DslStage`.
pub enum StageText {
    Filter(Seq<char>, Seq<char>, Seq<char>),
    Sort(Option<Seq<char>>, bool),
    Limit(usize),
    Tail(usize),
    TopK(usize),
    Select(Seq<Seq<char>>),
    Smooth(usize),
    Cumulative,
    Percent,
}

/// The model of a parsed stage.
pub open spec fn stage_text(s: DslStage) -> StageText {
    match s {
        DslStage::Filter { column, op, value } => StageText::Filter(column@, op@, value@),
        DslStage::Sort { column, descending } => StageText::Sort(
            match column {
                Some(c) => Some(c@),
                None => None,
            },
            descending,
        ),
        DslStage::Limit(n) => StageText::Limit(n),
        DslStage::Tail(n) => StageText::Tail(n),
        DslStage::TopK(n) => StageText::TopK(n),
        DslStage::Select(w) => StageText::Select(w@.map_values(|x: String| x@)),
        DslStage::Smooth(n) => StageText::Smooth(n),
        DslStage::Cumulative => StageText::Cumulative,
        DslStage::Percent => StageText::Percent,
    }
}

/// What one stage of the text comes to: nothing (blank, unknown command, or a row count missing), a malformed
/// filter, or a stage.
pub enum StageOutcome {
    Skip,
    Invalid,
    Stage(StageText),
}

/// The words joined with single spaces.
pub open spec fn join_words(ws: Seq<Seq<char>>) -> Seq<char>
    decreases ws.len(),
{
    if ws.len() == 0 {
        Seq::empty()
    } else if ws.len() == 1 {
        ws[0]
    } else {
        join_words(ws.drop_last()) + seq![' '] + ws.last()
    }
}

/// The number a word spells, or `d` when it spells none.
pub open spec fn number_or(w: Seq<char>, d: usize) -> usize {
    match parsed_usize(w) {
        Some(n) => n,
        None => d,
    }
}

/// The lower-cased, trimmed pieces that are not empty.
pub open spec fn kept_names(pieces: Seq<Seq<char>>) -> Seq<Seq<char>>
    decreases pieces.len(),
{
    if pieces.len() == 0 {
        Seq::empty()
    } else {
        let rest = kept_names(pieces.drop_last());
        let l = lower_text(trimmed(pieces.last()));
        if l.len() > 0 {
            rest.push(l)
        } else {
            rest
        }
    }
}

/// The names a `select` stage keeps: its arguments split at commas and spaces, lower-cased, empties dropped.
pub open spec fn select_names(toks: Seq<Seq<char>>) -> Seq<Seq<char>> {
    kept_names(split_on(join_words(toks.skip(1)), seq![',', ' ']))
}

/// The command word is one of the given spellings.
pub open spec fn is_cmd(c: Seq<char>, a: Seq<char>, b: Seq<char>, d: Seq<char>, e: Seq<char>) -> bool {
    c == a || c == b || c == d || c == e
}

/// No character of `s` is whitespace.
pub open spec fn no_ws(s: Seq<char>) -> bool {
    forall|j: int| 0 <= j < s.len() ==> !is_ws(#[trigger] s[j])
}

/// A stage written as a call, `name(args)`, read as the words `name args`: the name runs up to the first `(`
/// and holds no whitespace, and the stage ends with `)`. Any other stage text is left as it is.
pub open spec fn call_as_words(t: Seq<char>) -> Seq<char> {
    match first_sep(t, seq!['(']) {
        Some(p) => if 0 < p < t.len() - 1 && t.last() == ')' && no_ws(t.take(p)) {
            t.take(p) + seq![' '] + t.subrange(p + 1, t.len() - 1)
        } else {
            t
        },
        None => t,
    }
}

/// `s` with each `->`, read from the left, turned into the stage separator `|`.
pub open spec fn arrows_as_bars(s: Seq<char>) -> Seq<char>
    decreases s.len(),
{
    if s.len() == 0 {
        Seq::empty()
    } else if s.len() >= 2 && s[0] == '-' && s[1] == '>' {
        seq!['|'] + arrows_as_bars(s.skip(2))
    } else {
        seq![s[0]] + arrows_as_bars(s.skip(1))
    }
}

/// The stage texts of a pipeline: its text cut at every `|` and at every `->`.
pub open spec fn stage_texts(dsl: Seq<char>) -> Seq<Seq<char>> {
    split_on(arrows_as_bars(dsl), seq!['|'])
}

/// What the stage text `stage` comes to. `source` names the data as given and does nothing.
pub open spec fn stage_outcome(stage: Seq<char>) -> StageOutcome {
    let toks = ws_words(call_as_words(trimmed(stage)));
    if trimmed(stage).len() == 0 || toks.len() == 0 {
        StageOutcome::Skip
    } else {
        let cmd = lower_text(toks[0]);
        if cmd == "source"@ {
            StageOutcome::Skip
        } else if cmd == "filter"@ || cmd == "where"@ {
            if toks.len() < 4 {
                StageOutcome::Invalid
            } else {
                StageOutcome::Stage(StageText::Filter(toks[1], toks[2], join_words(toks.skip(3))))
            }
        } else if cmd == "sort"@ || cmd == "order"@ {
            StageOutcome::Stage(
                if toks.len() == 2 {
                    let arg = lower_text(toks[1]);
                    if arg == "desc"@ {
                        StageText::Sort(None, true)
                    } else if arg == "asc"@ {
                        StageText::Sort(None, false)
                    } else {
                        StageText::Sort(Some(toks[1]), false)
                    }
                } else if toks.len() >= 3 {
                    StageText::Sort(Some(toks[1]), ascii_lowercase(toks[2]) == "desc"@)
                } else {
                    StageText::Sort(None, true)
                },
            )
        } else if is_cmd(cmd, "limit"@, "top"@, "head"@, "head"@) {
            if toks.len() >= 2 {
                StageOutcome::Stage(StageText::Limit(number_or(toks[1], 5)))
            } else {
                StageOutcome::Skip
            }
        } else if cmd == "tail"@ || cmd == "last"@ {
            if toks.len() >= 2 {
                StageOutcome::Stage(StageText::Tail(number_or(toks[1], 5)))
            } else {
                StageOutcome::Skip
            }
        } else if cmd == "top_k"@ {
            StageOutcome::Stage(StageText::TopK(if toks.len() >= 2 { number_or(toks[1], 5) } else { 5 }))
        } else if cmd == "select"@ {
            StageOutcome::Stage(StageText::Select(select_names(toks)))
        } else if is_cmd(cmd, "smooth"@, "moving_avg"@, "ma"@, "ma"@) {
            StageOutcome::Stage(StageText::Smooth(if toks.len() >= 2 { number_or(toks[1], 3) } else { 3 }))
        } else if is_cmd(cmd, "cumulative"@, "cumsum"@, "cum_sum"@, "cum_sum"@) {
            StageOutcome::Stage(StageText::Cumulative)
        } else if is_cmd(cmd, "percent"@, "share"@, "percent100"@, "normalize_100"@) {
            StageOutcome::Stage(StageText::Percent)
        } else {
            StageOutcome::Skip
        }
    }
}

/// `last` and `tail` are one command: a stage led by `last` comes to what the stage with the same arguments led by
/// `tail` comes to (in any letter case), and with a count `N` that is a stage keeping the last `N` rows.
pub proof fn law_last_is_tail(a: Seq<char>, b: Seq<char>)
    requires
        trimmed(a).len() > 0,
        trimmed(b).len() > 0,
        ws_words(call_as_words(trimmed(a))).len() > 0,
        ws_words(call_as_words(trimmed(b))).len() > 0,
        lower_text(ws_words(call_as_words(trimmed(a)))[0]) == "last"@,
        lower_text(ws_words(call_as_words(trimmed(b)))[0]) == "tail"@,
        ws_words(call_as_words(trimmed(a))).skip(1) == ws_words(call_as_words(trimmed(b))).skip(1),
    ensures
        stage_outcome(a) == stage_outcome(b),
        ({
            let ta = ws_words(call_as_words(trimmed(a)));
            ta.len() >= 2 && parsed_usize(ta[1]) is Some ==> stage_outcome(a) == StageOutcome::Stage(
                StageText::Tail(parsed_usize(ta[1])->0),
            )
        }),
{
    reveal_strlit("last");
    reveal_strlit("tail");
    reveal_strlit("source");
    reveal_strlit("filter");
    reveal_strlit("where");
    reveal_strlit("sort");
    reveal_strlit("order");
    reveal_strlit("limit");
    reveal_strlit("top");
    reveal_strlit("head");
    let ta = ws_words(call_as_words(trimmed(a)));
    let tb = ws_words(call_as_words(trimmed(b)));
    assert(ta.len() == ta.skip(1).len() + 1);
    assert(tb.len() == tb.skip(1).len() + 1);
    assert(ta.len() == tb.len());
    let ca = lower_text(ta[0]);
    assert("last"@ =~= seq!['l', 'a', 's', 't']);
    assert("source"@ =~= seq!['s', 'o', 'u', 'r', 'c', 'e']);
    assert("filter"@ =~= seq!['f', 'i', 'l', 't', 'e', 'r']);
    assert("where"@ =~= seq!['w', 'h', 'e', 'r', 'e']);
    assert("sort"@ =~= seq!['s', 'o', 'r', 't']);
    assert("order"@ =~= seq!['o', 'r', 'd', 'e', 'r']);
    assert("limit"@ =~= seq!['l', 'i', 'm', 'i', 't']);
    assert("top"@ =~= seq!['t', 'o', 'p']);
    assert("head"@ =~= seq!['h', 'e', 'a', 'd']);
    if ta.len() >= 2 {
        assert(ta[1] == ta.skip(1)[0]);
        assert(tb[1] == tb.skip(1)[0]);
    }
}

/// The stages of the stage texts `stages`, in order; none when one of them is a malformed filter.
pub open spec fn pipeline_stages(stages: Seq<Seq<char>>) -> Option<Seq<StageText>>
    decreases stages.len(),
{
    if stages.len() == 0 {
        Some(Seq::empty())
    } else {
        match pipeline_stages(stages.drop_last()) {
            None => None,
            Some(ps) => match stage_outcome(stages.last()) {
                StageOutcome::Skip => Some(ps),
                StageOutcome::Invalid => None,
                StageOutcome::Stage(t) => Some(ps.push(t)),
            },
        }
    }
}

/// The trimmed text of the first malformed filter among `stages`.
pub open spec fn first_invalid(stages: Seq<Seq<char>>) -> Option<Seq<char>>
    decreases stages.len(),
{
    if stages.len() == 0 {
        None
    } else {
        match first_invalid(stages.drop_last()) {
            Some(t) => Some(t),
            None => if stage_outcome(stages.last()) is Invalid {
                Some(trimmed(stages.last()))
            } else {
                None
            },
        }
    }
}

/// The error for a malformed filter stage.
pub open spec fn invalid_filter_message(stage: Seq<char>) -> Seq<char> {
    "Invalid filter syntax '"@ + stage + "': expected 'filter <col> <op> <val>'"@
}

/// A malformed stage in a prefix makes the whole pipeline malformed, with the same first culprit.
proof fn lemma_invalid_prefix(stages: Seq<Seq<char>>, k: int)
    requires
        0 <= k <= stages.len(),
        pipeline_stages(stages.take(k)) is None,
        first_invalid(stages.take(k)) is Some,
    ensures
        pipeline_stages(stages) is None,
        first_invalid(stages) == first_invalid(stages.take(k)),
    decreases stages.len() - k,
{
    if k < stages.len() {
        assert(stages.take(k + 1).drop_last() =~= stages.take(k));
        lemma_invalid_prefix(stages, k + 1);
    } else {
        assert(stages.take(k) =~= stages);
    }
}

/// `s` equals the text `lit`.
pub(crate) fn is_text(s: &Vec<char>, lit: &str) -> (r: bool)
    ensures
        r == (s@ == lit@),
{
    let l = chars_of(lit);
    if s.len() != l.len() {
        return false;
    }
    let mut i: usize = 0;
    while i < s.len()
        invariant
            s@.len() == l@.len(),
            l@ == lit@,
            i <= s@.len(),
            forall|j: int| 0 <= j < i ==> s@[j] == l@[j],
        decreases s.len() - i,
    {
        if s[i] != l[i] {
            return false;
        }
        i += 1;
    }
    proof {
        assert(s@ =~= l@);
    }
    true
}

/// The characters of `w` lower-cased as `str::to_lowercase` does.
fn lower(w: &Vec<char>) -> (r: Vec<char>)
    ensures
        r@ == lower_text(w@),
{
    let s = string_of(w);
    let l = to_lowercase(s.as_str());
    chars_of(l.as_str())
}

/// Joins `ws[start..]` with single spaces.
fn join_from(ws: &Vec<Vec<char>>, start: usize) -> (r: Vec<char>)
    requires
        start <= ws@.len(),
    ensures
        r@ == join_words(ws@.map_values(|w: Vec<char>| w@).skip(start as int)),
{
    let ghost v = ws@.map_values(|w: Vec<char>| w@);
    let mut out: Vec<char> = Vec::new();
    let mut i = start;
    proof {
        assert(v.skip(start as int).take(0) =~= Seq::<Seq<char>>::empty());
    }
    while i < ws.len()
        invariant
            start <= i <= ws@.len(),
            v == ws@.map_values(|w: Vec<char>| w@),
            out@ == join_words(v.skip(start as int).take(i - start)),
        decreases ws.len() - i,
    {
        let ghost before = v.skip(start as int).take(i - start);
        let ghost after_ = v.skip(start as int).take(i + 1 - start);
        proof {
            assert(after_.drop_last() =~= before);
            assert(after_.last() == ws@[i as int]@);
        }
        if i > start {
            out.push(' ');
        }
        append_chars(&mut out, &ws[i]);
        proof {
            if i > start {
                assert(out@ =~= join_words(before) + seq![' '] + ws@[i as int]@);
            } else {
                assert(after_.len() == 1);
                assert(out@ =~= ws@[i as int]@);
            }
        }
        i += 1;
    }
    proof {
        assert(v.skip(start as int).take(i - start) =~= v.skip(start as int));
    }
    out
}

/// The lower-cased, trimmed, non-empty pieces.
fn keep_names(pieces: &Vec<Vec<char>>) -> (r: Vec<String>)
    ensures
        r@.map_values(|x: String| x@) == kept_names(pieces@.map_values(|w: Vec<char>| w@)),
{
    let ghost v = pieces@.map_values(|w: Vec<char>| w@);
    let mut out: Vec<String> = Vec::new();
    let mut i: usize = 0;
    while i < pieces.len()
        invariant
            i <= pieces@.len(),
            v == pieces@.map_values(|w: Vec<char>| w@),
            out@.map_values(|x: String| x@) == kept_names(v.take(i as int)),
        decreases pieces.len() - i,
    {
        proof {
            assert(v.take(i + 1).drop_last() =~= v.take(i as int));
            assert(v.take(i + 1).last() == pieces@[i as int]@);
        }
        let l = lower(&trim_chars(&pieces[i]));
        if l.len() > 0 {
            let ghost before = out@.map_values(|x: String| x@);
            out.push(string_of(&l));
            proof {
                assert(out@.map_values(|x: String| x@) =~= before.push(l@));
            }
        }
        i += 1;
    }
    proof {
        assert(v.take(i as int) =~= v);
    }
    out
}

/// The number a word spells, or `d`.
fn number_or_exec(w: &Vec<char>, d: usize) -> (r: usize)
    ensures
        r == number_or(w@, d),
{
    match parse_usize(w) {
        Some(n) => n,
        None => d,
    }
}

/// Reads a stage written as a call, `name(args)`, as the words `name args`.
fn call_words(t: &Vec<char>) -> (r: Vec<char>)
    ensures
        r@ == call_as_words(t@),
{
    let open = vec!['('];
    assert(open@ =~= seq!['(']);
    match find_sep(t, &open) {
        None => t.clone(),
        Some(p) => {
            let n = t.len();
            if p == 0 || p + 1 >= n || t[n - 1] != ')' {
                return t.clone();
            }
            let mut k: usize = 0;
            while k < p
                invariant
                    0 < p,
                    k <= p,
                    p + 1 < t@.len(),
                    t@.last() == ')',
                    first_sep(t@, seq!['(']) == Some(p as int),
                    forall|j: int| 0 <= j < k ==> !is_ws(#[trigger] t@[j]),
                decreases p - k,
            {
                if is_whitespace(t[k]) {
                    proof {
                        assert(is_ws(t@[k as int]));
                        assert(t@.take(p as int)[k as int] == t@[k as int]);
                        assert(!no_ws(t@.take(p as int)));
                    }
                    return t.clone();
                }
                k += 1;
            }
            let mut out: Vec<char> = Vec::new();
            let mut i: usize = 0;
            while i < p
                invariant
                    i <= p < t@.len(),
                    out@ == t@.take(i as int),
                decreases p - i,
            {
                out.push(t[i]);
                i += 1;
                proof {
                    assert(out@ =~= t@.take(i as int));
                }
            }
            out.push(' ');
            let mut j: usize = p + 1;
            while j < n - 1
                invariant
                    p + 1 <= j <= n - 1,
                    n == t@.len(),
                    out@ == t@.take(p as int) + seq![' '] + t@.subrange(p + 1, j as int),
                decreases n - 1 - j,
            {
                out.push(t[j]);
                j += 1;
                proof {
                    assert(out@ =~= t@.take(p as int) + seq![' '] + t@.subrange(p + 1, j as int));
                }
            }
            proof {
                assert(no_ws(t@.take(p as int)));
            }
            out
        },
    }
}

/// `s` with each `->` turned into `|`.
fn arrows_to_bars(s: &Vec<char>) -> (r: Vec<char>)
    ensures
        r@ == arrows_as_bars(s@),
{
    let mut out: Vec<char> = Vec::new();
    let mut i: usize = 0;
    proof {
        assert(s@.skip(0) =~= s@);
        assert(out@ + arrows_as_bars(s@.skip(0)) =~= arrows_as_bars(s@));
    }
    while i < s.len()
        invariant
            i <= s@.len(),
            arrows_as_bars(s@) == out@ + arrows_as_bars(s@.skip(i as int)),
        decreases s.len() - i,
    {
        let ghost rest = s@.skip(i as int);
        if i + 1 < s.len() && s[i] == '-' && s[i + 1] == '>' {
            proof {
                assert(rest.skip(2) =~= s@.skip(i + 2));
                assert(out@.push('|') + arrows_as_bars(s@.skip(i + 2)) =~= out@ + (seq!['|'] + arrows_as_bars(
                    rest.skip(2),
                )));
            }
            out.push('|');
            i += 2;
        } else {
            proof {
                assert(rest.skip(1) =~= s@.skip(i + 1));
                assert(out@.push(s@[i as int]) + arrows_as_bars(s@.skip(i + 1)) =~= out@ + (seq![rest[0]]
                    + arrows_as_bars(rest.skip(1))));
            }
            out.push(s[i]);
            i += 1;
        }
    }
    proof {
        assert(s@.skip(i as int) =~= Seq::<char>::empty());
        assert(out@ + Seq::<char>::empty() =~= out@);
    }
    out
}

/// Reads one stage of a pipeline: `Ok(None)` for a stage that does nothing, `Err(())` for a malformed filter.
fn parse_stage(stage: &Vec<char>) -> (r: Result<Option<DslStage>, ()>)
    ensures
        match stage_outcome(stage@) {
            StageOutcome::Skip => r == Ok::<Option<DslStage>, ()>(None),
            StageOutcome::Invalid => r is Err,
            StageOutcome::Stage(t) => r matches Ok(Some(s)) && stage_text(s) == t,
        },
{
    let t = trim_chars(stage);
    let words = call_words(&t);
    let toks = whitespace_words(&words);
    let ghost tv = toks@.map_values(|w: Vec<char>| w@);
    if t.len() == 0 || toks.len() == 0 {
        return Ok(None);
    }
    assert(tv[0] == toks@[0]@);
    let cmd = lower(&toks[0]);
    if is_text(&cmd, "source") {
        return Ok(None);
    }
    if is_text(&cmd, "filter") || is_text(&cmd, "where") {
        if toks.len() < 4 {
            return Err(());
        }
        assert(tv[1] == toks@[1]@ && tv[2] == toks@[2]@);
        let value = join_from(&toks, 3);
        return Ok(Some(DslStage::Filter { column: string_of(&toks[1]), op: string_of(&toks[2]), value: string_of(&value) }));
    }
    if is_text(&cmd, "sort") || is_text(&cmd, "order") {
        let st = if toks.len() == 2 {
            assert(tv[1] == toks@[1]@);
            let arg = lower(&toks[1]);
            if is_text(&arg, "desc") {
                DslStage::Sort { column: None, descending: true }
            } else if is_text(&arg, "asc") {
                DslStage::Sort { column: None, descending: false }
            } else {
                DslStage::Sort { column: Some(string_of(&toks[1])), descending: false }
            }
        } else if toks.len() >= 3 {
            assert(tv[1] == toks@[1]@ && tv[2] == toks@[2]@);
            let d = to_ascii_lower(&toks[2]);
            DslStage::Sort { column: Some(string_of(&toks[1])), descending: is_text(&d, "desc") }
        } else {
            DslStage::Sort { column: None, descending: true }
        };
        return Ok(Some(st));
    }
    if is_text(&cmd, "limit") || is_text(&cmd, "top") || is_text(&cmd, "head") {
        if toks.len() >= 2 {
            assert(tv[1] == toks@[1]@);
            return Ok(Some(DslStage::Limit(number_or_exec(&toks[1], 5))));
        }
        return Ok(None);
    }
    if is_text(&cmd, "tail") || is_text(&cmd, "last") {
        if toks.len() >= 2 {
            assert(tv[1] == toks@[1]@);
            return Ok(Some(DslStage::Tail(number_or_exec(&toks[1], 5))));
        }
        return Ok(None);
    }
    if is_text(&cmd, "top_k") {
        let n = if toks.len() >= 2 {
            assert(tv[1] == toks@[1]@);
            number_or_exec(&toks[1], 5)
        } else {
            5
        };
        return Ok(Some(DslStage::TopK(n)));
    }
    if is_text(&cmd, "select") {
        let joined = join_from(&toks, 1);
        let seps = vec![',', ' '];
        assert(seps@ =~= seq![',', ' ']);
        let pieces = split_chars(&joined, &seps);
        let names = keep_names(&pieces);
        return Ok(Some(DslStage::Select(names)));
    }
    if is_text(&cmd, "smooth") || is_text(&cmd, "moving_avg") || is_text(&cmd, "ma") {
        let n = if toks.len() >= 2 {
            assert(tv[1] == toks@[1]@);
            number_or_exec(&toks[1], 3)
        } else {
            3
        };
        return Ok(Some(DslStage::Smooth(n)));
    }
    if is_text(&cmd, "cumulative") || is_text(&cmd, "cumsum") || is_text(&cmd, "cum_sum") {
        return Ok(Some(DslStage::Cumulative));
    }
    if is_text(&cmd, "percent") || is_text(&cmd, "share") || is_text(&cmd, "percent100") || is_text(
        &cmd,
        "normalize_100",
    ) {
        return Ok(Some(DslStage::Percent));
    }
    Ok(None)
}

/// Parses a pipeline: its stages, separated by `|` or `->` and written as words (`filter fps >= 30`) or as
/// calls (`filter(fps >= 30)`), in order, skipping blank stages, `source`, unknown commands and row counts
/// without a number; a filter with fewer than three arguments makes the whole pipeline an error.
pub fn parse_dsl(dsl: &str) -> (r: Result<Vec<DslStage>, String>)
    ensures
        match pipeline_stages(stage_texts(dsl@)) {
            Some(ps) => r matches Ok(v) && v@.map_values(|s: DslStage| stage_text(s)) == ps,
            None => r matches Err(m) && first_invalid(stage_texts(dsl@)) matches Some(bad) && m@
                == invalid_filter_message(bad),
        },
{
    let text = arrows_to_bars(&chars_of(dsl));
    let bar = vec!['|'];
    assert(bar@ =~= seq!['|']);
    let stages = split_chars(&text, &bar);
    let ghost sv = stages@.map_values(|w: Vec<char>| w@);
    assert(sv == stage_texts(dsl@));
    let mut out: Vec<DslStage> = Vec::new();
    let mut i: usize = 0;
    while i < stages.len()
        invariant
            i <= stages@.len(),
            sv == stages@.map_values(|w: Vec<char>| w@),
            sv == stage_texts(dsl@),
            pipeline_stages(sv.take(i as int)) == Some(out@.map_values(|s: DslStage| stage_text(s))),
            first_invalid(sv.take(i as int)) is None,
        decreases stages.len() - i,
    {
        proof {
            assert(sv.take(i + 1).drop_last() =~= sv.take(i as int));
            assert(sv.take(i + 1).last() == stages@[i as int]@);
        }
        match parse_stage(&stages[i]) {
            Err(()) => {
                proof {
                    assert(stage_outcome(sv[i as int]) is Invalid);
                    assert(first_invalid(sv.take(i + 1)) == Some(trimmed(sv[i as int])));
                    lemma_invalid_prefix(sv, i + 1);
                }
                let mut m = chars_of("Invalid filter syntax '");
                let bad = trim_chars(&stages[i]);
                append_chars(&mut m, &bad);
                append_chars(&mut m, &chars_of("': expected 'filter <col> <op> <val>'"));
                proof {
                    assert(m@ =~= invalid_filter_message(trimmed(sv[i as int])));
                }
                return Err(string_of(&m));
            },
            Ok(None) => {},
            Ok(Some(st)) => {
                let ghost before = out@.map_values(|s: DslStage| stage_text(s));
                out.push(st);
                proof {
                    assert(out@.map_values(|s: DslStage| stage_text(s)) =~= before.push(stage_text(st)));
                }
            },
        }
        i += 1;
    }
    proof {
        assert(sv.take(i as int) =~= sv);
    }
    Ok(out)
}

/// The pipeline a chart transform preset stands for; none for the data as given.
pub open spec fn transform_pipeline(t: ChartTransform) -> Option<Seq<char>> {
    match t {
        ChartTransform::Original => None,
        ChartTransform::TopK(k) => Some("top_k "@ + decimal_text(k as nat)),
        ChartTransform::SortDesc => Some("sort desc"@),
        ChartTransform::SortAsc => Some("sort asc"@),
        ChartTransform::Cumulative => Some("cumulative"@),
        ChartTransform::Percent100 => Some("percent"@),
        ChartTransform::MovingAvg(w) => Some("smooth "@ + decimal_text(w as nat)),
    }
}

/// Writes the pipeline of a transform preset.
pub fn transform_dsl(t: ChartTransform) -> (r: Option<String>)
    ensures
        match transform_pipeline(t) {
            Some(p) => r matches Some(s) && s@ == p,
            None => r is None,
        },
{
    match t {
        ChartTransform::Original => None,
        ChartTransform::TopK(k) => {
            let mut v = chars_of("top_k ");
            append_chars(&mut v, &decimal_chars(k));
            Some(string_of(&v))
        },
        ChartTransform::SortDesc => Some("sort desc".to_string()),
        ChartTransform::SortAsc => Some("sort asc".to_string()),
        ChartTransform::Cumulative => Some("cumulative".to_string()),
        ChartTransform::Percent100 => Some("percent".to_string()),
        ChartTransform::MovingAvg(w) => {
            let mut v = chars_of("smooth ");
            append_chars(&mut v, &decimal_chars(w));
            Some(string_of(&v))
        },
    }
}

/// Which value of a row a filter compares: the category, the row total, a series (by index), or, when the
/// column names none of these, the first series.
#[derive(Clone, Copy, Debug, PartialEq, Eq, Structural)]
pub enum RowValue {
    Category,
    Total,
    Series(usize),
    FirstSeries,
}

/// What rows are ordered by: the category, a series (by index), or the row total.
#[derive(Clone, Copy, Debug, PartialEq, Eq, Structural)]
pub enum SortKey {
    Category,
    Series(usize),
    Total,
}

/// The column names the category (`category` or `cat`, in any ASCII case).
pub open spec fn names_category(c: Seq<char>) -> bool {
    ascii_lowercase(c) == "category"@ || ascii_lowercase(c) == "cat"@
}

/// The column names the row total (`total` or `sum`, in any ASCII case).
pub open spec fn names_total(c: Seq<char>) -> bool {
    ascii_lowercase(c) == "total"@ || ascii_lowercase(c) == "sum"@
}

/// The index of the first name equal to `col` ignoring ASCII case.
pub open spec fn first_named(names: Seq<Seq<char>>, col: Seq<char>) -> Option<int>
    decreases names.len(),
{
    if names.len() == 0 {
        None
    } else {
        match first_named(names.drop_last(), col) {
            Some(i) => Some(i),
            None => if ascii_lowercase(names.last()) == ascii_lowercase(col) {
                Some(names.len() - 1)
            } else {
                None
            },
        }
    }
}

/// The value a filter on `col` compares, among series named `names`.
pub open spec fn filter_value_spec(col: Seq<char>, names: Seq<Seq<char>>) -> RowValue {
    if names_category(col) {
        RowValue::Category
    } else if names_total(col) {
        RowValue::Total
    } else {
        match first_named(names, col) {
            Some(i) => RowValue::Series(i as usize),
            None => RowValue::FirstSeries,
        }
    }
}

/// The key a sort on `col` orders by, among series named `names`.
pub open spec fn sort_key_spec(col: Option<Seq<char>>, names: Seq<Seq<char>>) -> SortKey {
    match col {
        Some(c) => if names_category(c) {
            SortKey::Category
        } else {
            match first_named(names, c) {
                Some(i) => SortKey::Series(i as usize),
                None => SortKey::Total,
            }
        },
        None => SortKey::Total,
    }
}

/// The index of the first series named `col` ignoring ASCII case.
fn find_named(names: &Vec<String>, col: &Vec<char>) -> (r: Option<usize>)
    ensures
        match first_named(names@.map_values(|n: String| n@), col@) {
            Some(i) => r == Some(i as usize),
            None => r is None,
        },
{
    let ghost nv = names@.map_values(|n: String| n@);
    let lc = to_ascii_lower(col);
    let mut i: usize = 0;
    while i < names.len()
        invariant
            i <= names@.len(),
            nv == names@.map_values(|n: String| n@),
            lc@ == ascii_lowercase(col@),
            first_named(nv.take(i as int), col@) is None,
        decreases names.len() - i,
    {
        proof {
            assert(nv.take(i + 1).drop_last() =~= nv.take(i as int));
            assert(nv.take(i + 1).last() == names@[i as int]@);
        }
        let ln = to_ascii_lower(&chars_of(names[i].as_str()));
        if same_chars(&ln, &lc) {
            proof {
                lemma_first_named_prefix(nv, col@, i + 1);
            }
            return Some(i);
        }
        i += 1;
    }
    proof {
        assert(nv.take(i as int) =~= nv);
    }
    None
}

/// Once a prefix of `names` holds a match, the whole sequence's first match is the same.
proof fn lemma_first_named_prefix(names: Seq<Seq<char>>, col: Seq<char>, k: int)
    requires
        0 <= k <= names.len(),
        first_named(names.take(k), col) is Some,
    ensures
        first_named(names, col) == first_named(names.take(k), col),
    decreases names.len() - k,
{
    if k < names.len() {
        assert(names.take(k + 1).drop_last() =~= names.take(k));
        lemma_first_named_prefix(names, col, k + 1);
    } else {
        assert(names.take(k) =~= names);
    }
}

/// `a` and `b` hold the same characters.
fn same_chars(a: &Vec<char>, b: &Vec<char>) -> (r: bool)
    ensures
        r == (a@ == b@),
{
    if a.len() != b.len() {
        return false;
    }
    let mut i: usize = 0;
    while i < a.len()
        invariant
            a@.len() == b@.len(),
            i <= a@.len(),
            forall|j: int| 0 <= j < i ==> a@[j] == b@[j],
        decreases a.len() - i,
    {
        if a[i] != b[i] {
            return false;
        }
        i += 1;
    }
    proof {
        assert(a@ =~= b@);
    }
    true
}

/// Tells whether the column names the category or the total.
fn category_or_total(col: &Vec<char>) -> (r: (bool, bool))
    ensures
        r == (names_category(col@), names_total(col@)),
{
    let l = to_ascii_lower(col);
    (is_text(&l, "category") || is_text(&l, "cat"), is_text(&l, "total") || is_text(&l, "sum"))
}

/// Resolves which value of a row a filter on `col` compares.
pub fn filter_value(col: &str, names: &Vec<String>) -> (r: RowValue)
    ensures
        r == filter_value_spec(col@, names@.map_values(|n: String| n@)),
{
    let c = chars_of(col);
    let (is_cat, is_total) = category_or_total(&c);
    if is_cat {
        RowValue::Category
    } else if is_total {
        RowValue::Total
    } else {
        match find_named(names, &c) {
            Some(i) => RowValue::Series(i),
            None => RowValue::FirstSeries,
        }
    }
}

/// Resolves what a sort on `col` orders rows by.
pub fn sort_key(col: Option<&str>, names: &Vec<String>) -> (r: SortKey)
    ensures
        r == sort_key_spec(
            match col {
                Some(c) => Some(c@),
                None => None,
            },
            names@.map_values(|n: String| n@),
        ),
{
    match col {
        Some(col) => {
            let c = chars_of(col);
            let (is_cat, _) = category_or_total(&c);
            if is_cat {
                SortKey::Category
            } else {
                match find_named(names, &c) {
                    Some(i) => SortKey::Series(i),
                    None => SortKey::Total,
                }
            }
        },
        None => SortKey::Total,
    }
}

/// Whether a category filter keeps `cat`: `==` or `=` compare ignoring ASCII case, `!=` the opposite,
/// `contains` looks for the lower-cased value in the lower-cased category; other operators keep every row.
pub open spec fn category_kept(op: Seq<char>, cat: Seq<char>, val: Seq<char>) -> bool {
    if op == "=="@ || op == "="@ {
        ascii_lowercase(cat) == ascii_lowercase(val)
    } else if op == "!="@ {
        ascii_lowercase(cat) != ascii_lowercase(val)
    } else if op == "contains"@ {
        has_infix(lower_text(cat), lower_text(val))
    } else {
        true
    }
}

/// Decides whether a category filter keeps the category `cat`.
pub fn category_matches(op: &str, cat: &str, val: &str) -> (r: bool)
    ensures
        r == category_kept(op@, cat@, val@),
{
    let o = chars_of(op);
    let c = chars_of(cat);
    let v = chars_of(val);
    if is_text(&o, "==") || is_text(&o, "=") {
        same_chars(&to_ascii_lower(&c), &to_ascii_lower(&v))
    } else if is_text(&o, "!=") {
        !same_chars(&to_ascii_lower(&c), &to_ascii_lower(&v))
    } else if is_text(&o, "contains") {
        contains_chars(&lower(&c), &lower(&v))
    } else {
        true
    }
}

/// A `select` stage keeps the series whose lower-cased name contains one of the wanted texts.
pub open spec fn series_kept(name: Seq<char>, wanted: Seq<Seq<char>>) -> bool {
    exists|j: int| 0 <= j < wanted.len() && has_infix(lower_text(name), #[trigger] wanted[j])
}

/// Decides whether a `select` stage keeps the series `name`.
pub fn series_selected(name: &str, wanted: &Vec<String>) -> (r: bool)
    ensures
        r == series_kept(name@, wanted@.map_values(|w: String| w@)),
{
    let ghost wv = wanted@.map_values(|w: String| w@);
    let l = lower(&chars_of(name));
    let mut j: usize = 0;
    while j < wanted.len()
        invariant
            j <= wanted@.len(),
            wv == wanted@.map_values(|w: String| w@),
            l@ == lower_text(name@),
            forall|k: int| 0 <= k < j ==> !has_infix(l@, #[trigger] wv[k]),
        decreases wanted.len() - j,
    {
        let w = chars_of(wanted[j].as_str());
        assert(w@ == wv[j as int]);
        if contains_chars(&l, &w) {
            return true;
        }
        j += 1;
    }
    false
}

/// A character of a table column name: ASCII letters, digits and `_` stay, anything else becomes `_`.
pub open spec fn column_char(c: char) -> char {
    if ('a' <= c <= 'z') || ('A' <= c <= 'Z') || ('0' <= c <= '9') || c == '_' {
        c
    } else {
        '_'
    }
}

/// The table column name of the series `name` at position `idx`: its characters made safe, prefixed with
/// `col_IDX_` when that leaves it empty or starting with a digit.
pub open spec fn column_name_spec(name: Seq<char>, idx: nat) -> Seq<char> {
    let s = name.map_values(|c: char| column_char(c));
    if s.len() == 0 || ('0' <= s[0] <= '9') {
        "col_"@ + decimal_text(idx) + "_"@ + s
    } else {
        s
    }
}

/// Makes the table column name for a series.
pub fn sql_column_name(name: &str, idx: usize) -> (r: String)
    ensures
        r@ == column_name_spec(name@, idx as nat),
{
    let v = chars_of(name);
    let mut s: Vec<char> = Vec::new();
    let mut i: usize = 0;
    while i < v.len()
        invariant
            i <= v@.len(),
            s@ == v@.take(i as int).map_values(|c: char| column_char(c)),
        decreases v.len() - i,
    {
        let c = v[i];
        let k = if ('a' <= c && c <= 'z') || ('A' <= c && c <= 'Z') || ('0' <= c && c <= '9') || c == '_' {
            c
        } else {
            '_'
        };
        s.push(k);
        proof {
            assert(v@.take(i + 1).map_values(|c: char| column_char(c)) =~= v@.take(i as int).map_values(
                |c: char| column_char(c),
            ).push(k));
        }
        i += 1;
    }
    proof {
        assert(v@.take(i as int) =~= v@);
    }
    if s.len() == 0 || ('0' <= s[0] && s[0] <= '9') {
        let mut out = chars_of("col_");
        append_chars(&mut out, &decimal_chars(idx));
        append_chars(&mut out, &chars_of("_"));
        append_chars(&mut out, &s);
        string_of(&out)
    } else {
        string_of(&s)
    }
}

/// The column definitions `, "c" REAL` of the table's series columns.
pub open spec fn column_defs(cols: Seq<Seq<char>>) -> Seq<char>
    decreases cols.len(),
{
    if cols.len() == 0 {
        Seq::empty()
    } else {
        column_defs(cols.drop_last()) + ", \""@ + cols.last() + "\" REAL"@
    }
}

/// The statement creating the query table: an id, the category, and one real column per series.
pub open spec fn create_table_spec(cols: Seq<Seq<char>>) -> Seq<char> {
    "CREATE TABLE data (id INTEGER PRIMARY KEY, category TEXT"@ + column_defs(cols) + ")"@
}

/// The column list `, "c"` of an insert.
pub open spec fn column_list(cols: Seq<Seq<char>>) -> Seq<char>
    decreases cols.len(),
{
    if cols.len() == 0 {
        Seq::empty()
    } else {
        column_list(cols.drop_last()) + ", \""@ + cols.last() + "\""@
    }
}

/// The parameter markers `, ?3`, `, ?4`, ... for `n` series values.
pub open spec fn value_markers(n: nat) -> Seq<char>
    decreases n,
{
    if n == 0 {
        Seq::empty()
    } else {
        value_markers((n - 1) as nat) + ", ?"@ + decimal_text(n + 2)
    }
}

/// The statement inserting one row: its id (`?1`), category (`?2`) and series values (`?3` on).
pub open spec fn insert_row_spec(cols: Seq<Seq<char>>) -> Seq<char> {
    "INSERT INTO data (id, category"@ + column_list(cols) + ") VALUES (?1, ?2"@ + value_markers(cols.len()) + ")"@
}

/// Writes the statement creating the query table for the given column names.
pub fn create_table_sql(cols: &Vec<String>) -> (r: String)
    ensures
        r@ == create_table_spec(cols@.map_values(|c: String| c@)),
{
    let ghost cv = cols@.map_values(|c: String| c@);
    let mut out = chars_of("CREATE TABLE data (id INTEGER PRIMARY KEY, category TEXT");
    let ghost head = out@;
    let mut i: usize = 0;
    while i < cols.len()
        invariant
            i <= cols@.len(),
            cv == cols@.map_values(|c: String| c@),
            out@ == head + column_defs(cv.take(i as int)),
            head == "CREATE TABLE data (id INTEGER PRIMARY KEY, category TEXT"@,
        decreases cols.len() - i,
    {
        proof {
            assert(cv.take(i + 1).drop_last() =~= cv.take(i as int));
            assert(cv.take(i + 1).last() == cols@[i as int]@);
        }
        let ghost before = out@;
        append_chars(&mut out, &chars_of(", \""));
        append_chars(&mut out, &chars_of(cols[i].as_str()));
        append_chars(&mut out, &chars_of("\" REAL"));
        proof {
            assert(out@ =~= head + column_defs(cv.take(i + 1)));
        }
        i += 1;
    }
    append_chars(&mut out, &chars_of(")"));
    proof {
        assert(cv.take(i as int) =~= cv);
        assert(out@ =~= create_table_spec(cv));
    }
    string_of(&out)
}

/// Writes the statement inserting one row into the query table.
pub fn insert_row_sql(cols: &Vec<String>) -> (r: String)
    requires
        cols@.len() + 2 <= usize::MAX,
    ensures
        r@ == insert_row_spec(cols@.map_values(|c: String| c@)),
{
    let ghost cv = cols@.map_values(|c: String| c@);
    let mut out = chars_of("INSERT INTO data (id, category");
    let ghost head = out@;
    let mut i: usize = 0;
    while i < cols.len()
        invariant
            i <= cols@.len(),
            cv == cols@.map_values(|c: String| c@),
            out@ == head + column_list(cv.take(i as int)),
            head == "INSERT INTO data (id, category"@,
        decreases cols.len() - i,
    {
        proof {
            assert(cv.take(i + 1).drop_last() =~= cv.take(i as int));
            assert(cv.take(i + 1).last() == cols@[i as int]@);
        }
        append_chars(&mut out, &chars_of(", \""));
        append_chars(&mut out, &chars_of(cols[i].as_str()));
        append_chars(&mut out, &chars_of("\""));
        proof {
            assert(out@ =~= head + column_list(cv.take(i + 1)));
        }
        i += 1;
    }
    proof {
        assert(cv.take(i as int) =~= cv);
    }
    append_chars(&mut out, &chars_of(") VALUES (?1, ?2"));
    let ghost mid = out@;
    let mut k: usize = 0;
    while k < cols.len()
        invariant
            k <= cols@.len(),
            cols@.len() + 2 <= usize::MAX,
            out@ == mid + value_markers(k as nat),
        decreases cols.len() - k,
    {
        append_chars(&mut out, &chars_of(", ?"));
        append_chars(&mut out, &decimal_chars(k + 3));
        proof {
            assert(out@ =~= mid + value_markers((k + 1) as nat));
        }
        k += 1;
    }
    append_chars(&mut out, &chars_of(")"));
    proof {
        assert(out@ =~= insert_row_spec(cv));
    }
    string_of(&out)
}

} // verus!
