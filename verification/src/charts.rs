//! Chart kinds and transforms, and the text conventions of chart descriptions and inspector filters.
use vstd::prelude::*;
use crate::chars::{chars_of, string_of};
use crate::text::{has_prefix, after, trimmed, trim_chars, replaced, replace_chars, starts_with_chars, chars_after};
use crate::watch_filter::ascii_lowercase;

verus! {

/// The kind of chart drawn for a data set.
#[derive(Clone, Copy, Debug, PartialEq, Eq, Structural)]
pub enum ChartType {
    Bar,
    Line,
    Area,
    Pie,
    Donut,
    Scatter,
}

impl Default for ChartType {
    /// Bar charts are the default.
    fn default() -> (r: Self)
        ensures
            r == ChartType::Bar,
    {
        ChartType::Bar
    }
}

/// A view transform applied to chart data in the inspector.
#[derive(Clone, Copy, Debug, PartialEq, Eq, Structural)]
pub enum ChartTransform {
    /// The data as given (no transform).
    Original,
    TopK(usize),
    SortDesc,
    SortAsc,
    Cumulative,
    Percent100,
    MovingAvg(usize),
}

impl Default for ChartTransform {
    /// No transform is the default.
    fn default() -> (r: Self)
        ensures
            r == ChartTransform::Original,
    {
        ChartTransform::Original
    }
}

/// The chart kind a name denotes, ignoring ASCII case and surrounding whitespace; unknown names are bar charts.
pub open spec fn chart_type_named(s: Seq<char>) -> ChartType {
    let n = ascii_lowercase(trimmed(s));
    if n == "line"@ {
        ChartType::Line
    } else if n == "area"@ {
        ChartType::Area
    } else if n == "pie"@ {
        ChartType::Pie
    } else if n == "donut"@ {
        ChartType::Donut
    } else if n == "scatter"@ {
        ChartType::Scatter
    } else {
        ChartType::Bar
    }
}

/// The chart kind after a click on a chart's type button: bar, line, area, pie, donut, then bar again;
/// scatter goes to bar.
pub open spec fn next_chart_type_spec(t: ChartType) -> ChartType {
    match t {
        ChartType::Bar => ChartType::Line,
        ChartType::Line => ChartType::Area,
        ChartType::Area => ChartType::Pie,
        ChartType::Pie => ChartType::Donut,
        ChartType::Donut => ChartType::Bar,
        ChartType::Scatter => ChartType::Bar,
    }
}

impl ChartType {
    /// Reads a chart kind name as the chart descriptions write it.
    pub fn parse_name(s: &str) -> (r: ChartType)
        ensures
            r == chart_type_named(s@),
    {
        let v = chars_of(s);
        let t = trim_chars(&v);
        let mut n: Vec<char> = Vec::new();
        let mut i: usize = 0;
        while i < t.len()
            invariant
                i <= t@.len(),
                n@ == ascii_lowercase(t@.take(i as int)),
            decreases t.len() - i,
        {
            let c = t[i];
            let l = if 'A' <= c && c <= 'Z' { ((c as u8) + 32) as char } else { c };
            n.push(l);
            i += 1;
            proof {
                assert(n@ =~= ascii_lowercase(t@.take(i as int)));
            }
        }
        proof {
            assert(t@.take(i as int) =~= t@);
        }
        if chars_equal(&n, "line") {
            ChartType::Line
        } else if chars_equal(&n, "area") {
            ChartType::Area
        } else if chars_equal(&n, "pie") {
            ChartType::Pie
        } else if chars_equal(&n, "donut") {
            ChartType::Donut
        } else if chars_equal(&n, "scatter") {
            ChartType::Scatter
        } else {
            ChartType::Bar
        }
    }

    /// The kind a chart switches to when its type button is clicked.
    pub fn next_type(self) -> (r: ChartType)
        ensures
            r == next_chart_type_spec(self),
    {
        match self {
            ChartType::Bar => ChartType::Line,
            ChartType::Line => ChartType::Area,
            ChartType::Area => ChartType::Pie,
            ChartType::Pie => ChartType::Donut,
            ChartType::Donut => ChartType::Bar,
            ChartType::Scatter => ChartType::Bar,
        }
    }
}

/// `v` spells the text `lit`.
fn chars_equal(v: &Vec<char>, lit: &str) -> (r: bool)
    ensures
        r == (v@ == lit@),
{
    let l = chars_of(lit);
    if v.len() != l.len() {
        return false;
    }
    let r = starts_with_chars(v, &l);
    proof {
        assert(v@ =~= v@.subrange(0, l@.len() as int));
    }
    r
}

/// A chart description value: `%26` stands for `&` and `+` for a space.
pub open spec fn decoded_chart_param(s: Seq<char>) -> Seq<char> {
    replaced(replaced(s, seq!['%', '2', '6'], seq!['&']), seq!['+'], seq![' '])
}

/// Decodes a chart description value: `%26` becomes `&`, then every `+` becomes a space.
pub fn decode_chart_param(val: &str) -> (r: String)
    ensures
        r@ == decoded_chart_param(val@),
{
    let v = chars_of(val);
    let amp_code = vec!['%', '2', '6'];
    let amp = vec!['&'];
    let plus = vec!['+'];
    let space = vec![' '];
    assert(amp_code@ =~= seq!['%', '2', '6']);
    assert(amp@ =~= seq!['&']);
    assert(plus@ =~= seq!['+']);
    assert(space@ =~= seq![' ']);
    let a = replace_chars(&v, &amp_code, &amp);
    let b = replace_chars(&a, &plus, &space);
    string_of(&b)
}

/// The comparison operator and operand of an inspector filter such as `>= 150`: after trimming, the first of
/// `>=`, `<=`, `!=`, `==`, `>`, `<`, `=` that begins the query, and the trimmed rest.
pub open spec fn filter_condition(q: Seq<char>) -> Option<(Seq<char>, Seq<char>)> {
    let t = trimmed(q);
    if has_prefix(t, seq!['>', '=']) {
        Some((seq!['>', '='], trimmed(after(t, 2))))
    } else if has_prefix(t, seq!['<', '=']) {
        Some((seq!['<', '='], trimmed(after(t, 2))))
    } else if has_prefix(t, seq!['!', '=']) {
        Some((seq!['!', '='], trimmed(after(t, 2))))
    } else if has_prefix(t, seq!['=', '=']) {
        Some((seq!['=', '='], trimmed(after(t, 2))))
    } else if has_prefix(t, seq!['>']) {
        Some((seq!['>'], trimmed(after(t, 1))))
    } else if has_prefix(t, seq!['<']) {
        Some((seq!['<'], trimmed(after(t, 1))))
    } else if has_prefix(t, seq!['=']) {
        Some((seq!['='], trimmed(after(t, 1))))
    } else {
        None
    }
}

/// Splits an inspector filter query into its comparison operator and operand; `None` when the query does not
/// start with a comparison.
pub fn parse_filter_condition(q: &str) -> (r: Option<(&'static str, String)>)
    ensures
        match filter_condition(q@) {
            Some((op, rest)) => r matches Some((o, s)) && o@ == op && s@ == rest,
            None => r is None,
        },
{
    let v = chars_of(q);
    let t = trim_chars(&v);
    let ge = vec!['>', '='];
    let le = vec!['<', '='];
    let ne = vec!['!', '='];
    let eq2 = vec!['=', '='];
    let gt = vec!['>'];
    let lt = vec!['<'];
    let eq = vec!['='];
    assert(ge@ =~= seq!['>', '=']);
    assert(le@ =~= seq!['<', '=']);
    assert(ne@ =~= seq!['!', '=']);
    assert(eq2@ =~= seq!['=', '=']);
    assert(gt@ =~= seq!['>']);
    assert(lt@ =~= seq!['<']);
    assert(eq@ =~= seq!['=']);
    let (op, k): (&'static str, usize) = if starts_with_chars(&t, &ge) {
        (">=", 2)
    } else if starts_with_chars(&t, &le) {
        ("<=", 2)
    } else if starts_with_chars(&t, &ne) {
        ("!=", 2)
    } else if starts_with_chars(&t, &eq2) {
        ("==", 2)
    } else if starts_with_chars(&t, &gt) {
        (">", 1)
    } else if starts_with_chars(&t, &lt) {
        ("<", 1)
    } else if starts_with_chars(&t, &eq) {
        ("=", 1)
    } else {
        return None;
    };
    proof {
        reveal_strlit(">=");
        reveal_strlit("<=");
        reveal_strlit("!=");
        reveal_strlit("==");
        reveal_strlit(">");
        reveal_strlit("<");
        reveal_strlit("=");
    }
    let rest = chars_after(&t, k);
    let rest_t = trim_chars(&rest);
    Some((op, string_of(&rest_t)))
}

} // verus!
