//! The chart inspector's interaction state: chart kind, transform and number format, hidden series, filter
//! and sorting, with the notices each change announces. The data values themselves are handled by the caller.
use vstd::prelude::*;
use std::collections::HashSet;
use crate::chars::{chars_of, string_of};
use crate::text::{append_chars, decimal_text, decimal_chars, has_infix, contains_chars};
use crate::commands::{lower_text, to_lowercase};
use crate::charts::{ChartType, ChartTransform, next_chart_type_spec};

verus! {

broadcast use {
    vstd::std_specs::hash::group_hash_axioms,
    vstd::std_specs::hash::axiom_usize_obeys_hash_table_key_model,
    vstd::std_specs::hash::axiom_random_state_builds_valid_hashers,
};

/// How the inspector formats numbers.
#[derive(Clone, Copy, Debug, PartialEq, Eq, Structural)]
pub enum NumberFormat {
    Auto,
    Currency,
    Percentage,
    Compact,
    Scientific,
    Integer,
    Standard,
}

/// The format after `f` in the cycle Auto, Currency, Percentage, Compact, Scientific, Integer, Standard.
pub open spec fn next_format_spec(f: NumberFormat) -> NumberFormat {
    match f {
        NumberFormat::Auto => NumberFormat::Currency,
        NumberFormat::Currency => NumberFormat::Percentage,
        NumberFormat::Percentage => NumberFormat::Compact,
        NumberFormat::Compact => NumberFormat::Scientific,
        NumberFormat::Scientific => NumberFormat::Integer,
        NumberFormat::Integer => NumberFormat::Standard,
        NumberFormat::Standard => NumberFormat::Auto,
    }
}

/// The notice that announces the format `f`.
pub open spec fn format_notice(f: NumberFormat) -> Seq<char> {
    match f {
        NumberFormat::Auto => "Format: Auto"@,
        NumberFormat::Currency => "Format: Currency ($)"@,
        NumberFormat::Percentage => "Format: Percent (%)"@,
        NumberFormat::Compact => "Format: Compact (K/M/B)"@,
        NumberFormat::Scientific => "Format: Scientific"@,
        NumberFormat::Integer => "Format: Integer"@,
        NumberFormat::Standard => "Format: Standard"@,
    }
}

/// The notice that announces switching to the transform `t`.
pub open spec fn transform_notice(t: ChartTransform) -> Seq<char> {
    match t {
        ChartTransform::Original => "Original Data"@,
        ChartTransform::TopK(k) => "Top "@ + decimal_text(k as nat) + " by Total"@,
        ChartTransform::SortDesc => "Sorted Descending (Max First)"@,
        ChartTransform::SortAsc => "Sorted Ascending (Min First)"@,
        ChartTransform::Cumulative => "Cumulative Running Sum"@,
        ChartTransform::Percent100 => "100% Share Normalized"@,
        ChartTransform::MovingAvg(w) => "Moving Average (MA"@ + decimal_text(w as nat) + ")"@,
    }
}

/// The inspector's interaction state.
pub struct InspectorState {
    pub active_type: ChartType,
    pub active_transform: ChartTransform,
    pub format: NumberFormat,
    pub hidden_series: HashSet<usize>,
    pub hovered_category: Option<usize>,
    pub hovered_series: Option<usize>,
    pub table_scroll: usize,
    /// The latest notice shown to the presenter (its time is kept by the caller).
    pub toast: Option<String>,
    pub search_query: String,
    pub search_active: bool,
    pub sort_column: Option<usize>,
    pub sort_ascending: bool,
    pub marquee_range: Option<(usize, usize)>,
    pub marquee_drag_start: Option<usize>,
}

/// The series `series_count` visible series of a chart with hidden set `hidden` can be told apart: every hidden
/// index is a series and at least one series stays visible.
pub open spec fn visibility_ok(hidden: Set<usize>, series_count: int) -> bool {
    &&& hidden.finite()
    &&& forall|s: usize| hidden.contains(s) ==> s < series_count
    &&& series_count >= 1 ==> hidden.len() < series_count
}

/// The hidden set after toggling series `s`: shown again if hidden; hidden if that leaves another series
/// visible; unchanged for an index that is not a series.
pub open spec fn toggled(hidden: Set<usize>, series_count: int, s: usize) -> Set<usize> {
    if s < series_count {
        if hidden.contains(s) {
            hidden.remove(s)
        } else if hidden.len() + 1 < series_count {
            hidden.insert(s)
        } else {
            hidden
        }
    } else {
        hidden
    }
}

impl InspectorState {
    /// A fresh inspector showing the chart as the kind `initial_type`.
    pub fn new(initial_type: ChartType) -> (r: Self)
        ensures
            r.active_type == initial_type,
            r.active_transform == ChartTransform::Original,
            r.format == NumberFormat::Auto,
            r.hidden_series@ == Set::<usize>::empty(),
            r.hidden_series@.finite(),
            r.hovered_category is None,
            r.hovered_series is None,
            r.table_scroll == 0,
            r.toast is None,
            r.search_query@ == Seq::<char>::empty(),
            !r.search_active,
            r.sort_column is None,
            r.sort_ascending,
            r.marquee_range is None,
            r.marquee_drag_start is None,
    {
        InspectorState {
            active_type: initial_type,
            active_transform: ChartTransform::Original,
            format: NumberFormat::Auto,
            hidden_series: HashSet::new(),
            hovered_category: None,
            hovered_series: None,
            table_scroll: 0,
            toast: None,
            search_query: String::new(),
            search_active: false,
            sort_column: None,
            sort_ascending: true,
            marquee_range: None,
            marquee_drag_start: None,
        }
    }

    /// Clears the search and the marquee selection, scrolls the table back to the top and says so.
    pub fn clear_filter(&mut self)
        ensures
            final(self).hidden_series@.finite(),
            final(self).search_query@ == Seq::<char>::empty(),
            !final(self).search_active,
            final(self).marquee_range is None,
            final(self).marquee_drag_start is None,
            final(self).table_scroll == 0,
            final(self).toast matches Some(t) && t@ == "Filter Cleared"@,
            final(self).active_type == old(self).active_type,
            final(self).active_transform == old(self).active_transform,
            final(self).format == old(self).format,
            final(self).hidden_series@ == old(self).hidden_series@,
            final(self).sort_column == old(self).sort_column,
            final(self).sort_ascending == old(self).sort_ascending,
    {
        proof {
            lemma_hash_set_finite(&self.hidden_series);
        }
        self.search_query = String::new();
        self.search_active = false;
        self.marquee_range = None;
        self.marquee_drag_start = None;
        self.table_scroll = 0;
        self.toast = Some("Filter Cleared".to_string());
    }

    /// Switches to the next number format and announces it.
    pub fn cycle_format(&mut self)
        ensures
            final(self).hidden_series@.finite(),
            final(self).format == next_format_spec(old(self).format),
            final(self).toast matches Some(t) && t@ == format_notice(final(self).format),
            final(self).active_type == old(self).active_type,
            final(self).active_transform == old(self).active_transform,
            final(self).hidden_series@ == old(self).hidden_series@,
    {
        proof {
            lemma_hash_set_finite(&self.hidden_series);
        }
        let f = match self.format {
            NumberFormat::Auto => NumberFormat::Currency,
            NumberFormat::Currency => NumberFormat::Percentage,
            NumberFormat::Percentage => NumberFormat::Compact,
            NumberFormat::Compact => NumberFormat::Scientific,
            NumberFormat::Scientific => NumberFormat::Integer,
            NumberFormat::Integer => NumberFormat::Standard,
            NumberFormat::Standard => NumberFormat::Auto,
        };
        self.format = f;
        let name = match f {
            NumberFormat::Auto => "Format: Auto",
            NumberFormat::Currency => "Format: Currency ($)",
            NumberFormat::Percentage => "Format: Percent (%)",
            NumberFormat::Compact => "Format: Compact (K/M/B)",
            NumberFormat::Scientific => "Format: Scientific",
            NumberFormat::Integer => "Format: Integer",
            NumberFormat::Standard => "Format: Standard",
        };
        self.toast = Some(name.to_string());
    }

    /// Shows the chart as the next kind in the type cycle.
    pub fn cycle_type(&mut self)
        ensures
            final(self).hidden_series@.finite(),
            final(self).active_type == next_chart_type_spec(old(self).active_type),
            final(self).active_transform == old(self).active_transform,
            final(self).format == old(self).format,
            final(self).hidden_series@ == old(self).hidden_series@,
    {
        proof {
            lemma_hash_set_finite(&self.hidden_series);
        }
        self.active_type = self.active_type.next_type();
    }

    /// Hides or shows series `s_idx` of a chart with `series_count` series, never hiding the last visible one.
    pub fn toggle_series(&mut self, s_idx: usize, series_count: usize)
        ensures
            final(self).hidden_series@.finite(),
            final(self).hidden_series@ == toggled(old(self).hidden_series@, series_count as int, s_idx),
            (forall|s: usize| old(self).hidden_series@.contains(s) ==> s < series_count) && (series_count >= 1
                ==> old(self).hidden_series@.len() < series_count) ==> visibility_ok(
                final(self).hidden_series@,
                series_count as int,
            ),
            final(self).active_type == old(self).active_type,
            final(self).active_transform == old(self).active_transform,
            final(self).format == old(self).format,
    {
        proof {
            lemma_hash_set_finite(&self.hidden_series);
        }
        proof {
            if visibility_ok(self.hidden_series@, series_count as int) {
                lemma_toggle_keeps_visible(self.hidden_series@, series_count as int, s_idx);
            }
        }
        if s_idx < series_count {
            if self.hidden_series.contains(&s_idx) {
                self.hidden_series.remove(&s_idx);
                proof {
                    assert(self.hidden_series@ =~= old(self).hidden_series@.remove(s_idx));
                }
            } else {
                let n = self.hidden_series.len();
                if n < series_count && n + 1 < series_count {
                    self.hidden_series.insert(s_idx);
                }
            }
        }
    }

    /// Switches to the transform `t`, or back to the original data when `t` is already active; returns whether
    /// the original data is to be shown again, and announces the change.
    pub fn set_transform(&mut self, t: ChartTransform) -> (reset: bool)
        ensures
            final(self).hidden_series@.finite(),
            reset == (old(self).active_transform == t),
            reset ==> final(self).active_transform == ChartTransform::Original && (final(self).toast matches Some(m)
                && m@ == "Reset to Original Data"@),
            !reset ==> final(self).active_transform == t && (final(self).toast matches Some(m) && m@
                == transform_notice(t)),
            final(self).active_type == old(self).active_type,
            final(self).format == old(self).format,
            final(self).hidden_series@ == old(self).hidden_series@,
    {
        proof {
            lemma_hash_set_finite(&self.hidden_series);
        }
        if self.active_transform == t {
            self.active_transform = ChartTransform::Original;
            self.toast = Some("Reset to Original Data".to_string());
            true
        } else {
            self.active_transform = t;
            let msg = match t {
                ChartTransform::Original => "Original Data".to_string(),
                ChartTransform::TopK(k) => {
                    let mut m = chars_of("Top ");
                    append_chars(&mut m, &decimal_chars(k));
                    append_chars(&mut m, &chars_of(" by Total"));
                    string_of(&m)
                },
                ChartTransform::SortDesc => "Sorted Descending (Max First)".to_string(),
                ChartTransform::SortAsc => "Sorted Ascending (Min First)".to_string(),
                ChartTransform::Cumulative => "Cumulative Running Sum".to_string(),
                ChartTransform::Percent100 => "100% Share Normalized".to_string(),
                ChartTransform::MovingAvg(w) => {
                    let mut m = chars_of("Moving Average (MA");
                    append_chars(&mut m, &decimal_chars(w));
                    append_chars(&mut m, &chars_of(")"));
                    string_of(&m)
                },
            };
            self.toast = Some(msg);
            false
        }
    }

    /// Sorts the table by column `col` (0 the categories, `k` the `k`-th series, whose name is `series_name`
    /// when it exists): the same column again flips the direction, a new column sorts ascending; announces it.
    pub fn sort_by_column(&mut self, col: usize, series_name: Option<&str>)
        ensures
            final(self).hidden_series@.finite(),
            final(self).sort_column == Some(col),
            final(self).sort_ascending == if old(self).sort_column == Some(col) {
                !old(self).sort_ascending
            } else {
                true
            },
            !final(self).search_active,
            final(self).toast matches Some(m) && m@ == "Sorted by "@ + (if col == 0 {
                "Category"@
            } else {
                match series_name {
                    Some(n) => n@,
                    None => "Series"@,
                }
            }) + " "@ + (if final(self).sort_ascending { "Ascending"@ } else { "Descending"@ }),
            final(self).active_type == old(self).active_type,
            final(self).hidden_series@ == old(self).hidden_series@,
    {
        proof {
            lemma_hash_set_finite(&self.hidden_series);
        }
        self.search_active = false;
        if self.sort_column == Some(col) {
            self.sort_ascending = !self.sort_ascending;
        } else {
            self.sort_column = Some(col);
            self.sort_ascending = true;
        }
        let mut m = chars_of("Sorted by ");
        if col == 0 {
            append_chars(&mut m, &chars_of("Category"));
        } else {
            match series_name {
                Some(n) => append_chars(&mut m, &chars_of(n)),
                None => append_chars(&mut m, &chars_of("Series")),
            }
        }
        append_chars(&mut m, &chars_of(" "));
        if self.sort_ascending {
            append_chars(&mut m, &chars_of("Ascending"));
        } else {
            append_chars(&mut m, &chars_of("Descending"));
        }
        self.toast = Some(string_of(&m));
    }

    /// Scrolls the table by `delta` rows, down to at most `max_scroll` and up to the top.
    pub fn scroll_table(&mut self, delta: isize, max_scroll: usize)
        ensures
            final(self).hidden_series@.finite(),
            final(self).table_scroll == if delta > 0 {
                if old(self).table_scroll + delta < max_scroll {
                    old(self).table_scroll + delta
                } else {
                    max_scroll as int
                }
            } else if old(self).table_scroll + delta > 0 {
                old(self).table_scroll + delta
            } else {
                0
            },
            final(self).active_type == old(self).active_type,
            final(self).hidden_series@ == old(self).hidden_series@,
    {
        proof {
            lemma_hash_set_finite(&self.hidden_series);
        }
        if delta > 0 {
            let d = delta as usize;
            let s = self.table_scroll;
            self.table_scroll = if d < max_scroll && s < max_scroll - d { s + d } else { max_scroll };
        } else {
            let d: usize = if delta == isize::MIN { (isize::MAX as usize) + 1 } else { (-delta) as usize };
            self.table_scroll = if self.table_scroll > d { self.table_scroll - d } else { 0 };
        }
    }
}

/// A key pressed in the chart inspector while its search box is closed.
#[derive(Clone, Copy, Debug, PartialEq, Eq, Structural)]
pub enum InspectorKey {
    /// Escape: clears an active filter, else closes the inspector.
    Escape,
    /// `/`: opens the search box.
    Search,
    /// F.
    CycleFormat,
    /// X.
    ClearFilter,
    /// Tab.
    CycleType,
    /// A digit key 1 to 9 (top row or keypad): shows or hides that series.
    Digit(u8),
    /// C or E.
    Export,
    Up,
    Down,
    /// O, T, S, A, U, P or M: a transform preset.
    Preset(ChartTransform),
    Other,
}

/// What an inspector key asks of the player.
#[derive(Clone, Copy, Debug, PartialEq, Eq, Structural)]
pub enum InspectorRequest {
    Stay,
    Close,
    ExportCsv,
}

impl InspectorState {
    /// Applies a key pressed while the search box is closed, for a chart with `series_count` series whose table
    /// scrolls at most `max_scroll` rows.
    pub fn apply_key(&mut self, k: InspectorKey, series_count: usize, max_scroll: usize) -> (r: InspectorRequest)
        ensures
            final(self).hidden_series@.finite(),
            match k {
                InspectorKey::Escape => if old(self).search_query@.len() > 0 || old(self).marquee_range is Some {
                    &&& r == InspectorRequest::Stay
                    &&& final(self).search_query@ == Seq::<char>::empty()
                    &&& final(self).marquee_range is None
                    &&& final(self).table_scroll == 0
                    &&& final(self).toast matches Some(t) && t@ == "Filter Cleared"@
                    &&& final(self).hidden_series@ == old(self).hidden_series@
                    &&& final(self).active_type == old(self).active_type
                    &&& final(self).active_transform == old(self).active_transform
                } else {
                    r == InspectorRequest::Close && *final(self) == *old(self)
                },
                InspectorKey::Search => {
                    &&& r == InspectorRequest::Stay
                    &&& final(self).search_active
                    &&& final(self).search_query == old(self).search_query
                    &&& final(self).hidden_series == old(self).hidden_series
                },
                InspectorKey::CycleFormat => r == InspectorRequest::Stay && final(self).format == next_format_spec(
                    old(self).format,
                ) && final(self).hidden_series@ == old(self).hidden_series@,
                InspectorKey::ClearFilter => {
                    &&& r == InspectorRequest::Stay
                    &&& final(self).search_query@ == Seq::<char>::empty()
                    &&& final(self).marquee_range is None
                    &&& final(self).table_scroll == 0
                    &&& final(self).hidden_series@ == old(self).hidden_series@
                },
                InspectorKey::CycleType => r == InspectorRequest::Stay && final(self).active_type
                    == next_chart_type_spec(old(self).active_type) && final(self).hidden_series@
                    == old(self).hidden_series@,
                InspectorKey::Digit(d) => r == InspectorRequest::Stay && final(self).hidden_series@ == if 1 <= d
                    <= 9 {
                    toggled(old(self).hidden_series@, series_count as int, (d - 1) as usize)
                } else {
                    old(self).hidden_series@
                },
                InspectorKey::Export => r == InspectorRequest::ExportCsv && *final(self) == *old(self),
                InspectorKey::Up => r == InspectorRequest::Stay && final(self).table_scroll == (if old(
                    self,
                ).table_scroll > 0 {
                    old(self).table_scroll - 1
                } else {
                    0
                }),
                InspectorKey::Down => r == InspectorRequest::Stay && final(self).table_scroll == (if old(
                    self,
                ).table_scroll + 1 < max_scroll {
                    old(self).table_scroll + 1
                } else {
                    max_scroll as int
                }),
                InspectorKey::Preset(t) => r == InspectorRequest::Stay && final(self).active_transform == (if old(
                    self,
                ).active_transform == t {
                    ChartTransform::Original
                } else {
                    t
                }),
                InspectorKey::Other => r == InspectorRequest::Stay && *final(self) == *old(self),
            },
    {
        proof {
            lemma_hash_set_finite(&self.hidden_series);
        }
        match k {
            InspectorKey::Escape => {
                if chars_of(self.search_query.as_str()).len() > 0 || self.marquee_range.is_some() {
                    self.clear_filter();
                    InspectorRequest::Stay
                } else {
                    InspectorRequest::Close
                }
            },
            InspectorKey::Search => {
                self.search_active = true;
                InspectorRequest::Stay
            },
            InspectorKey::CycleFormat => {
                self.cycle_format();
                InspectorRequest::Stay
            },
            InspectorKey::ClearFilter => {
                self.clear_filter();
                InspectorRequest::Stay
            },
            InspectorKey::CycleType => {
                self.cycle_type();
                InspectorRequest::Stay
            },
            InspectorKey::Digit(d) => {
                if 1 <= d && d <= 9 {
                    self.toggle_series((d - 1) as usize, series_count);
                }
                InspectorRequest::Stay
            },
            InspectorKey::Export => InspectorRequest::ExportCsv,
            InspectorKey::Up => {
                self.scroll_table(-1, max_scroll);
                InspectorRequest::Stay
            },
            InspectorKey::Down => {
                self.scroll_table(1, max_scroll);
                InspectorRequest::Stay
            },
            InspectorKey::Preset(t) => {
                self.set_transform(t);
                InspectorRequest::Stay
            },
            InspectorKey::Other => InspectorRequest::Stay,
        }
    }
}

/// The set a hash set holds is finite: it is the set of the keys its iterator yields.
pub proof fn lemma_hash_set_finite(h: &HashSet<usize>)
    ensures
        h@.finite(),
{
    broadcast use vstd::std_specs::hash::axiom_spec_hash_keys_iter, vstd::seq_lib::seq_to_set_is_finite;

    let it = vstd::std_specs::hash::spec_hash_keys_iter(h);
    let keys = vstd::std_specs::iter::IteratorSpec::remaining(&it).unref();
    assert(keys.to_set() == h@);
    assert(keys.to_set().finite());
}

/// Toggling a series keeps the hidden set well formed: only series are hidden, and one always stays visible.
pub proof fn lemma_toggle_keeps_visible(hidden: Set<usize>, series_count: int, s: usize)
    requires
        visibility_ok(hidden, series_count),
    ensures
        visibility_ok(toggled(hidden, series_count, s), series_count),
{
    if s < series_count && !hidden.contains(s) && hidden.len() + 1 < series_count {
        assert(hidden.insert(s).len() == hidden.len() + 1);
    }
}

/// Toggling the same series twice restores the hidden set, when the first toggle changed it.
pub proof fn lemma_toggle_twice(hidden: Set<usize>, series_count: int, s: usize)
    requires
        visibility_ok(hidden, series_count),
        toggled(hidden, series_count, s) != hidden,
    ensures
        toggled(toggled(hidden, series_count, s), series_count, s) == hidden,
{
    if hidden.contains(s) {
        assert(hidden.remove(s).len() == hidden.len() - 1);
        assert(hidden.remove(s).insert(s) =~= hidden);
    } else {
        assert(hidden.insert(s).remove(s) =~= hidden);
    }
}

/// Seven format changes come back to the starting format.
pub proof fn lemma_format_cycle(f: NumberFormat)
    ensures
        next_format_spec(
            next_format_spec(
                next_format_spec(next_format_spec(next_format_spec(next_format_spec(next_format_spec(f))))),
            ),
        ) == f,
{
}

/// A text search finds a row when one of its cell texts contains the query, both lower-cased.
pub open spec fn row_text_hit(query: Seq<char>, cells: Seq<Seq<char>>) -> bool {
    exists|j: int| 0 <= j < cells.len() && has_infix(lower_text(#[trigger] cells[j]), lower_text(query))
}

/// Whether the text search `query` finds a row whose cells (its category and its shown values) read `cells`.
pub fn row_matches_text(query: &str, cells: &Vec<String>) -> (r: bool)
    ensures
        r == row_text_hit(query@, cells@.map_values(|c: String| c@)),
{
    let ghost cv = cells@.map_values(|c: String| c@);
    let q = chars_of(to_lowercase(query).as_str());
    let mut j: usize = 0;
    while j < cells.len()
        invariant
            j <= cells@.len(),
            cv == cells@.map_values(|c: String| c@),
            q@ == lower_text(query@),
            forall|k: int| 0 <= k < j ==> !has_infix(lower_text(#[trigger] cv[k]), q@),
        decreases cells.len() - j,
    {
        let l = chars_of(to_lowercase(cells[j].as_str()).as_str());
        assert(cells@[j as int]@ == cv[j as int]);
        if contains_chars(&l, &q) {
            return true;
        }
        j += 1;
    }
    false
}

/// The categories `0..total` that lie in the marquee selection `range` (its ends in either order), in order;
/// all of them when there is no selection.
pub fn marquee_indices(total: usize, range: Option<(usize, usize)>) -> (r: Vec<usize>)
    ensures
        match range {
            None => r@ == Seq::new(total as nat, |i: int| i as usize),
            Some((a, b)) => {
                let lo = if a < b { a } else { b };
                let hi = if a < b { b } else { a };
                r@ == Seq::new(total as nat, |i: int| i as usize).filter(|i: usize| lo <= i && i <= hi)
            },
        },
{
    let (lo, hi) = match range {
        Some((a, b)) => if a < b { (a, b) } else { (b, a) },
        None => (0, usize::MAX),
    };
    let ghost all = Seq::new(total as nat, |i: int| i as usize);
    let mut out: Vec<usize> = Vec::new();
    proof {
        reveal(Seq::filter);
        assert(all.take(0) =~= Seq::<usize>::empty());
    }
    let mut i: usize = 0;
    while i < total
        invariant
            i <= total,
            all == Seq::new(total as nat, |i: int| i as usize),
            out@ == all.take(i as int).filter(|k: usize| lo <= k && k <= hi),
            range is None ==> lo == 0 && hi == usize::MAX && out@ == all.take(i as int),
            range matches Some((a, b)) ==> lo == (if a < b { a } else { b }) && hi == (if a < b { b } else { a }),
        decreases total - i,
    {
        proof {
            assert(all.take(i + 1).drop_last() =~= all.take(i as int));
            assert(all.take(i + 1).last() == i);
            assert(all.take(i as int).push(i) =~= all.take(i + 1));
        }
        let ghost before = out@;
        if lo <= i && i <= hi {
            out.push(i);
        }
        proof {
            reveal(Seq::filter);
            let p = |k: usize| lo <= k && k <= hi;
            let t = all.take(i + 1);
            assert(t.len() > 0);
            assert(t.filter(p) == (if p(t.last()) { t.drop_last().filter(p).push(t.last()) } else { t.drop_last().filter(p) }));
            assert(out@ == t.filter(p));
        }
        i += 1;
    }
    proof {
        assert(all.take(i as int) =~= all);
    }
    out
}

} // verus!
