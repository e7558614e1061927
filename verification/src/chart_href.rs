//! The text of a `chart:` link: `key=value` parameters describing a chart, read before any data is loaded.
use vstd::prelude::*;
use crate::chars::{chars_of, string_of};
use crate::text::{trimmed, trim_chars, replaced, replace_chars, split_on, split_chars, split_once_at, split_once_chars};
use crate::charts::{ChartType, chart_type_named, decoded_chart_param, decode_chart_param};

verus! {

/// The `key=value` parameters of a chart link: after `&amp;` is read as `&`, the `&`-separated pieces that hold
/// an `=`, split at it, with key and value trimmed.
pub open spec fn kv_pairs(pieces: Seq<Seq<char>>) -> Seq<(Seq<char>, Seq<char>)>
    decreases pieces.len(),
{
    if pieces.len() == 0 {
        Seq::empty()
    } else {
        let earlier = kv_pairs(pieces.drop_last());
        match split_once_at(pieces.last(), '=') {
            Some((k, v)) => earlier.push((trimmed(k), trimmed(v))),
            None => earlier,
        }
    }
}

/// The `&`-separated pieces of a chart link's text.
pub open spec fn chart_pieces(s: Seq<char>) -> Seq<Seq<char>> {
    split_on(replaced(s, seq!['&', 'a', 'm', 'p', ';'], seq!['&']), seq!['&'])
}

/// The parameters of a chart link's text.
pub open spec fn chart_params(s: Seq<char>) -> Seq<(Seq<char>, Seq<char>)> {
    kv_pairs(chart_pieces(s))
}

/// Which field of a chart description a parameter key sets.
#[derive(Clone, Copy, Debug, PartialEq, Eq, Structural)]
pub enum ChartParam {
    /// `type`
    Kind,
    /// `title`
    Title,
    /// `source`
    Source,
    /// `query` or `sql`
    Query,
    /// `dsl`, `pipeline` or `transform`
    Pipeline,
    /// `categories` or `cats`
    Categories,
    /// `series`
    Series,
    /// Any other key (ignored).
    Other,
}

/// The field that the key `k` sets.
pub open spec fn param_kind(k: Seq<char>) -> ChartParam {
    if k == "type"@ {
        ChartParam::Kind
    } else if k == "title"@ {
        ChartParam::Title
    } else if k == "source"@ {
        ChartParam::Source
    } else if k == "query"@ || k == "sql"@ {
        ChartParam::Query
    } else if k == "dsl"@ || k == "pipeline"@ || k == "transform"@ {
        ChartParam::Pipeline
    } else if k == "categories"@ || k == "cats"@ {
        ChartParam::Categories
    } else if k == "series"@ {
        ChartParam::Series
    } else {
        ChartParam::Other
    }
}

/// The value of the last parameter that sets the field `f`.
pub open spec fn last_param(pairs: Seq<(Seq<char>, Seq<char>)>, f: ChartParam) -> Option<Seq<char>>
    decreases pairs.len(),
{
    if pairs.len() == 0 {
        None
    } else if param_kind(pairs.last().0) == f {
        Some(pairs.last().1)
    } else {
        last_param(pairs.drop_last(), f)
    }
}

/// The trimmed pieces of `s` between commas.
pub open spec fn comma_items(s: Seq<char>) -> Seq<Seq<char>> {
    split_on(s, seq![',']).map_values(|p: Seq<char>| trimmed(p))
}

/// The series of one `series=` value: each `;`-separated `name:values` item gives its decoded, trimmed name
/// and its comma-separated, trimmed value texts.
pub open spec fn series_items(items: Seq<Seq<char>>) -> Seq<(Seq<char>, Seq<Seq<char>>)>
    decreases items.len(),
{
    if items.len() == 0 {
        Seq::empty()
    } else {
        let earlier = series_items(items.drop_last());
        match split_once_at(items.last(), ':') {
            Some((name, vals)) => earlier.push((decoded_chart_param(trimmed(name)), comma_items(vals))),
            None => earlier,
        }
    }
}

/// All series that the `series=` parameters describe, in order.
pub open spec fn all_series(pairs: Seq<(Seq<char>, Seq<char>)>) -> Seq<(Seq<char>, Seq<Seq<char>>)>
    decreases pairs.len(),
{
    if pairs.len() == 0 {
        Seq::empty()
    } else {
        let earlier = all_series(pairs.drop_last());
        if param_kind(pairs.last().0) == ChartParam::Series {
            earlier + series_items(split_on(pairs.last().1, seq![';']))
        } else {
            earlier
        }
    }
}

/// A chart link's description, as text: the chart kind, title, data source, SQL query, transform pipeline,
/// categories, and each series' name with the texts of its values (numbers are read by the caller).
#[derive(Clone, Debug)]
pub struct ChartHref {
    pub chart_type: ChartType,
    pub title: Option<String>,
    pub source: Option<String>,
    pub sql_query: Option<String>,
    pub dsl_pipeline: Option<String>,
    pub categories: Vec<String>,
    pub series: Vec<SeriesText>,
}

/// A series as text: its name and the texts of its values.
#[derive(Clone, Debug)]
pub struct SeriesText {
    pub name: String,
    pub value_texts: Vec<String>,
}

/// The view of an optional string.
pub open spec fn opt_view(o: Option<String>) -> Option<Seq<char>> {
    match o {
        Some(s) => Some(s@),
        None => None,
    }
}

/// The view of a series.
pub open spec fn series_view(s: SeriesText) -> (Seq<char>, Seq<Seq<char>>) {
    (s.name@, s.value_texts@.map_values(|v: String| v@))
}

/// `o` with `f` applied to the value it holds.
pub open spec fn map_opt(o: Option<Seq<char>>, f: spec_fn(Seq<char>) -> Seq<char>) -> Option<Seq<char>> {
    match o {
        Some(v) => Some(f(v)),
        None => None,
    }
}

/// The value with `%26` read as `&` (how a data source is written).
pub open spec fn decoded_source(v: Seq<char>) -> Seq<char> {
    replaced(v, seq!['%', '2', '6'], seq!['&'])
}

/// The trimmed texts between commas, each decoded.
fn decoded_items(v: &Vec<char>) -> (r: Vec<String>)
    ensures
        r@.map_values(|s: String| s@) == comma_items(v@).map_values(|p: Seq<char>| decoded_chart_param(p)),
{
    let commas = vec![','];
    assert(commas@ =~= seq![',']);
    let parts = split_chars(v, &commas);
    let ghost ps = parts@.map_values(|x: Vec<char>| x@);
    let mut out: Vec<String> = Vec::new();
    let mut i: usize = 0;
    while i < parts.len()
        invariant
            i <= parts@.len(),
            ps == parts@.map_values(|x: Vec<char>| x@),
            ps == split_on(v@, seq![',']),
            out@.map_values(|s: String| s@) == ps.take(i as int).map_values(|p: Seq<char>| decoded_chart_param(
                trimmed(p),
            )),
        decreases parts.len() - i,
    {
        let t = trim_chars(&parts[i]);
        let d = decode_chart_param(string_of(&t).as_str());
        let ghost before = out@.map_values(|s: String| s@);
        out.push(d);
        proof {
            assert(ps[i as int] == parts@[i as int]@);
            assert(out@.map_values(|s: String| s@) =~= before.push(d@));
            assert(ps.take(i + 1).map_values(|p: Seq<char>| decoded_chart_param(trimmed(p))) =~= ps.take(
                i as int,
            ).map_values(|p: Seq<char>| decoded_chart_param(trimmed(p))).push(decoded_chart_param(trimmed(ps[i as int]))));
        }
        i += 1;
    }
    proof {
        assert(ps.take(i as int) =~= ps);
        assert(ps.map_values(|p: Seq<char>| decoded_chart_param(trimmed(p))) =~= comma_items(v@).map_values(
            |p: Seq<char>| decoded_chart_param(p),
        ));
    }
    out
}

/// The trimmed texts between commas.
fn trimmed_items(v: &Vec<char>) -> (r: Vec<String>)
    ensures
        r@.map_values(|s: String| s@) == comma_items(v@),
{
    let commas = vec![','];
    assert(commas@ =~= seq![',']);
    let parts = split_chars(v, &commas);
    let ghost ps = parts@.map_values(|x: Vec<char>| x@);
    let mut out: Vec<String> = Vec::new();
    let mut i: usize = 0;
    while i < parts.len()
        invariant
            i <= parts@.len(),
            ps == parts@.map_values(|x: Vec<char>| x@),
            ps == split_on(v@, seq![',']),
            out@.map_values(|s: String| s@) == ps.take(i as int).map_values(|p: Seq<char>| trimmed(p)),
        decreases parts.len() - i,
    {
        let t = trim_chars(&parts[i]);
        let ghost before = out@.map_values(|s: String| s@);
        let st = string_of(&t);
        out.push(st);
        proof {
            assert(ps[i as int] == parts@[i as int]@);
            assert(out@.map_values(|s: String| s@) =~= before.push(st@));
            assert(ps.take(i + 1).map_values(|p: Seq<char>| trimmed(p)) =~= ps.take(i as int).map_values(
                |p: Seq<char>| trimmed(p),
            ).push(trimmed(ps[i as int])));
        }
        i += 1;
    }
    proof {
        assert(ps.take(i as int) =~= ps);
    }
    out
}

/// Appends the series that one `series=` value describes.
fn push_series(v: &Vec<char>, out: &mut Vec<SeriesText>)
    ensures
        final(out)@.map_values(|s: SeriesText| series_view(s)) == old(out)@.map_values(|s: SeriesText| series_view(s))
            + series_items(split_on(v@, seq![';'])),
{
    let semis = vec![';'];
    assert(semis@ =~= seq![';']);
    let items = split_chars(v, &semis);
    let ghost its = items@.map_values(|x: Vec<char>| x@);
    let ghost start = out@.map_values(|s: SeriesText| series_view(s));
    let mut i: usize = 0;
    proof {
        assert(its.take(0) =~= Seq::<Seq<char>>::empty());
        assert(start + Seq::<(Seq<char>, Seq<Seq<char>>)>::empty() =~= start);
    }
    while i < items.len()
        invariant
            i <= items@.len(),
            its == items@.map_values(|x: Vec<char>| x@),
            its == split_on(v@, seq![';']),
            start == old(out)@.map_values(|s: SeriesText| series_view(s)),
            out@.map_values(|s: SeriesText| series_view(s)) == start + series_items(its.take(i as int)),
        decreases items.len() - i,
    {
        proof {
            assert(its.take(i + 1).drop_last() =~= its.take(i as int));
            assert(its.take(i + 1).last() == items@[i as int]@);
        }
        let ghost before = out@.map_values(|s: SeriesText| series_view(s));
        match split_once_chars(&items[i], ':') {
            Some((name, vals)) => {
                let tn = trim_chars(&name);
                let n = decode_chart_param(string_of(&tn).as_str());
                let texts = trimmed_items(&vals);
                let st = SeriesText { name: n, value_texts: texts };
                out.push(st);
                proof {
                    assert(out@.map_values(|s: SeriesText| series_view(s)) =~= before.push(series_view(st)));
                }
            },
            None => {},
        }
        i += 1;
    }
    proof {
        assert(its.take(i as int) =~= its);
    }
}

/// `a` and `b` hold the same characters.
fn same_text(a: &Vec<char>, lit: &str) -> (r: bool)
    ensures
        r == (a@ == lit@),
{
    let b = chars_of(lit);
    if a.len() != b.len() {
        return false;
    }
    let mut i: usize = 0;
    let mut same = true;
    while i < a.len() && same
        invariant
            a@.len() == b@.len(),
            i <= a@.len(),
            same == (forall|j: int| 0 <= j < i ==> a@[j] == b@[j]),
        decreases a.len() - i,
    {
        if a[i] != b[i] {
            same = false;
        }
        i += 1;
    }
    proof {
        if same {
            assert(a@ =~= b@);
        } else {
            let j = choose|j: int| 0 <= j < i && a@[j] != b@[j];
            assert(a@[j] != b@[j]);
        }
    }
    same
}

/// The field that the key `k` sets.
fn param_kind_of(k: &Vec<char>) -> (r: ChartParam)
    ensures
        r == param_kind(k@),
{
    if same_text(k, "type") {
        ChartParam::Kind
    } else if same_text(k, "title") {
        ChartParam::Title
    } else if same_text(k, "source") {
        ChartParam::Source
    } else if same_text(k, "query") || same_text(k, "sql") {
        ChartParam::Query
    } else if same_text(k, "dsl") || same_text(k, "pipeline") || same_text(k, "transform") {
        ChartParam::Pipeline
    } else if same_text(k, "categories") || same_text(k, "cats") {
        ChartParam::Categories
    } else if same_text(k, "series") {
        ChartParam::Series
    } else {
        ChartParam::Other
    }
}

/// Reads the parameters of a chart link's text: `type`, `title`, `source`, `query`/`sql`,
/// `dsl`/`pipeline`/`transform` and `categories`/`cats` take the last value given (titles, queries, pipelines
/// and categories decoded; `%26` in a source read as `&`), and every `series` parameter adds its series.
pub fn parse_chart_params(chart_str: &str) -> (r: ChartHref)
    ensures
        ({
            let ps = chart_params(chart_str@);
            &&& r.chart_type == match last_param(ps, ChartParam::Kind) {
                Some(v) => chart_type_named(v),
                None => ChartType::Bar,
            }
            &&& opt_view(r.title) == map_opt(last_param(ps, ChartParam::Title), |v: Seq<char>| decoded_chart_param(v))
            &&& opt_view(r.source) == map_opt(last_param(ps, ChartParam::Source), |v: Seq<char>| decoded_source(v))
            &&& opt_view(r.sql_query) == map_opt(last_param(ps, ChartParam::Query), |v: Seq<char>| decoded_chart_param(v))
            &&& opt_view(r.dsl_pipeline) == map_opt(
                last_param(ps, ChartParam::Pipeline),
                |v: Seq<char>| decoded_chart_param(v),
            )
            &&& r.categories@.map_values(|s: String| s@) == match last_param(ps, ChartParam::Categories) {
                Some(v) => comma_items(v).map_values(|p: Seq<char>| decoded_chart_param(p)),
                None => Seq::empty(),
            }
            &&& r.series@.map_values(|s: SeriesText| series_view(s)) == all_series(ps)
        }),
{
    let v = chars_of(chart_str);
    let entity = vec!['&', 'a', 'm', 'p', ';'];
    let amp = vec!['&'];
    assert(entity@ =~= seq!['&', 'a', 'm', 'p', ';']);
    assert(amp@ =~= seq!['&']);
    let norm = replace_chars(&v, &entity, &amp);
    let pieces = split_chars(&norm, &amp);
    let ghost pcs = pieces@.map_values(|x: Vec<char>| x@);
    let mut chart_type = ChartType::Bar;
    let mut title: Option<String> = None;
    let mut source: Option<String> = None;
    let mut sql_query: Option<String> = None;
    let mut dsl_pipeline: Option<String> = None;
    let mut categories: Vec<String> = Vec::new();
    let mut series: Vec<SeriesText> = Vec::new();
    let mut i: usize = 0;
    while i < pieces.len()
        invariant
            i <= pieces@.len(),
            pcs == pieces@.map_values(|x: Vec<char>| x@),
            pcs == chart_pieces(chart_str@),
            amp@ == seq!['&'],
            chart_type == match last_param(kv_pairs(pcs.take(i as int)), ChartParam::Kind) {
                Some(v) => chart_type_named(v),
                None => ChartType::Bar,
            },
            opt_view(title) == map_opt(
                last_param(kv_pairs(pcs.take(i as int)), ChartParam::Title),
                |v: Seq<char>| decoded_chart_param(v),
            ),
            opt_view(source) == map_opt(
                last_param(kv_pairs(pcs.take(i as int)), ChartParam::Source),
                |v: Seq<char>| decoded_source(v),
            ),
            opt_view(sql_query) == map_opt(
                last_param(kv_pairs(pcs.take(i as int)), ChartParam::Query),
                |v: Seq<char>| decoded_chart_param(v),
            ),
            opt_view(dsl_pipeline) == map_opt(
                last_param(kv_pairs(pcs.take(i as int)), ChartParam::Pipeline),
                |v: Seq<char>| decoded_chart_param(v),
            ),
            categories@.map_values(|s: String| s@) == match last_param(
                kv_pairs(pcs.take(i as int)),
                ChartParam::Categories,
            ) {
                Some(v) => comma_items(v).map_values(|p: Seq<char>| decoded_chart_param(p)),
                None => Seq::empty(),
            },
            series@.map_values(|s: SeriesText| series_view(s)) == all_series(kv_pairs(pcs.take(i as int))),
        decreases pieces.len() - i,
    {
        proof {
            assert(pcs.take(i + 1).drop_last() =~= pcs.take(i as int));
            assert(pcs.take(i + 1).last() == pieces@[i as int]@);
        }
        let ghost ps_old = kv_pairs(pcs.take(i as int));
        let ghost ps_new = kv_pairs(pcs.take(i + 1));
        match split_once_chars(&pieces[i], '=') {
            Some((k0, v0)) => {
                let k = trim_chars(&k0);
                let val = trim_chars(&v0);
                let val_s = string_of(&val);
                proof {
                    assert(ps_new == ps_old.push((k@, val@)));
                    assert(ps_new.drop_last() =~= ps_old);
                    assert(ps_new.last() == (k@, val@));
                }
                match param_kind_of(&k) {
                    ChartParam::Kind => {
                        chart_type = ChartType::parse_name(val_s.as_str());
                    },
                    ChartParam::Title => {
                        title = Some(decode_chart_param(val_s.as_str()));
                    },
                    ChartParam::Source => {
                        let code = vec!['%', '2', '6'];
                        assert(code@ =~= seq!['%', '2', '6']);
                        let src = replace_chars(&val, &code, &amp);
                        source = Some(string_of(&src));
                    },
                    ChartParam::Query => {
                        sql_query = Some(decode_chart_param(val_s.as_str()));
                    },
                    ChartParam::Pipeline => {
                        dsl_pipeline = Some(decode_chart_param(val_s.as_str()));
                    },
                    ChartParam::Categories => {
                        categories = decoded_items(&val);
                    },
                    ChartParam::Series => {
                        push_series(&val, &mut series);
                    },
                    ChartParam::Other => {},
                }
            },
            None => {
                proof {
                    assert(ps_new == ps_old);
                }
            },
        }
        i += 1;
    }
    proof {
        assert(pcs.take(i as int) =~= pcs);
    }
    ChartHref { chart_type, title, source, sql_query, dsl_pipeline, categories, series }
}

} // verus!
