use cargo_slide::charts::{parse_filter_condition, ChartTransform, ChartType};
use cargo_slide::inspector::{marquee_indices, row_matches_text, InspectorKey, InspectorRequest, InspectorState, NumberFormat};

#[test]
fn test_inspector_controls() {
    let mut st = InspectorState::new(ChartType::Bar);
    assert_eq!(st.active_transform, ChartTransform::Original);
    assert!(st.sort_ascending);
    st.toggle_series(0, 2);
    assert!(st.hidden_series.contains(&0));
    // The last visible series cannot be hidden.
    st.toggle_series(1, 2);
    assert!(!st.hidden_series.contains(&1));
    st.toggle_series(0, 2);
    assert!(st.hidden_series.is_empty());
    st.toggle_series(5, 2);
    assert!(st.hidden_series.is_empty());

    assert!(!st.set_transform(ChartTransform::TopK(5)));
    assert_eq!(st.toast.as_deref(), Some("Top 5 by Total"));
    assert!(st.set_transform(ChartTransform::TopK(5)));
    assert_eq!(st.active_transform, ChartTransform::Original);
    assert_eq!(st.toast.as_deref(), Some("Reset to Original Data"));
    assert!(!st.set_transform(ChartTransform::MovingAvg(3)));
    assert_eq!(st.toast.as_deref(), Some("Moving Average (MA3)"));

    st.cycle_format();
    assert_eq!(st.format, NumberFormat::Currency);
    assert_eq!(st.toast.as_deref(), Some("Format: Currency ($)"));
    st.cycle_type();
    assert_eq!(st.active_type, ChartType::Line);

    st.sort_by_column(0, None);
    assert_eq!(st.toast.as_deref(), Some("Sorted by Category Ascending"));
    st.sort_by_column(0, None);
    assert!(!st.sort_ascending);
    assert_eq!(st.toast.as_deref(), Some("Sorted by Category Descending"));
    st.sort_by_column(2, Some("Profit"));
    assert_eq!(st.toast.as_deref(), Some("Sorted by Profit Ascending"));

    st.scroll_table(5, 3);
    assert_eq!(st.table_scroll, 3);
    st.scroll_table(-2, 3);
    assert_eq!(st.table_scroll, 1);
    st.scroll_table(-9, 3);
    assert_eq!(st.table_scroll, 0);

    st.search_query = "> 150".to_string();
    st.marquee_range = Some((1, 2));
    st.clear_filter();
    assert!(st.search_query.is_empty() && st.marquee_range.is_none());
    assert_eq!(st.toast.as_deref(), Some("Filter Cleared"));
}

#[test]
fn marquee_selection() {
    assert_eq!(marquee_indices(5, None), vec![0, 1, 2, 3, 4]);
    assert_eq!(marquee_indices(5, Some((3, 1))), vec![1, 2, 3]);
    assert_eq!(marquee_indices(3, Some((2, 9))), vec![2]);
    assert_eq!(marquee_indices(0, Some((0, 0))), Vec::<usize>::new());
}

#[test]
fn inspector_keys() {
    let mut st = InspectorState::new(ChartType::Bar);
    assert_eq!(st.apply_key(InspectorKey::CycleType, 3, 10), InspectorRequest::Stay);
    assert_eq!(st.active_type, ChartType::Line);
    st.apply_key(InspectorKey::CycleFormat, 3, 10);
    assert_eq!(st.format, NumberFormat::Currency);
    st.apply_key(InspectorKey::Digit(2), 3, 10);
    assert!(st.hidden_series.contains(&1));
    st.apply_key(InspectorKey::Digit(0), 3, 10);
    assert_eq!(st.hidden_series.len(), 1);
    st.apply_key(InspectorKey::Down, 3, 2);
    st.apply_key(InspectorKey::Down, 3, 2);
    st.apply_key(InspectorKey::Down, 3, 2);
    assert_eq!(st.table_scroll, 2);
    st.apply_key(InspectorKey::Up, 3, 2);
    assert_eq!(st.table_scroll, 1);
    st.apply_key(InspectorKey::Preset(ChartTransform::TopK(5)), 3, 2);
    assert_eq!(st.active_transform, ChartTransform::TopK(5));
    st.apply_key(InspectorKey::Preset(ChartTransform::TopK(5)), 3, 2);
    assert_eq!(st.active_transform, ChartTransform::Original);
    assert_eq!(st.apply_key(InspectorKey::Export, 3, 2), InspectorRequest::ExportCsv);
    // Escape clears an active search first, then closes.
    st.apply_key(InspectorKey::Search, 3, 2);
    assert!(st.search_active);
    st.search_query.push_str(">50");
    assert_eq!(st.apply_key(InspectorKey::Escape, 3, 2), InspectorRequest::Stay);
    assert!(st.search_query.is_empty());
    assert_eq!(st.toast.as_deref(), Some("Filter Cleared"));
    assert_eq!(st.apply_key(InspectorKey::Escape, 3, 2), InspectorRequest::Close);
}

/// The categories of the sample chart kept by the inspector's search `query`, sorted as the state says, with the
/// library deciding the comparison and the marquee rows.
fn filtered(st: &InspectorState, categories: &[&str], series: &[Vec<f64>]) -> Vec<usize> {
    let mut rows = marquee_indices(categories.len(), st.marquee_range);
    let q = st.search_query.trim().to_string();
    if !q.is_empty() {
        match parse_filter_condition(&q) {
            Some((op, num)) => {
                let t: f64 = num.parse().unwrap();
                rows.retain(|&i| {
                    series.iter().enumerate().filter(|(s, _)| !st.hidden_series.contains(s)).any(|(_, v)| match op {
                        ">" => v[i] > t,
                        ">=" => v[i] >= t,
                        "<" => v[i] < t,
                        "<=" => v[i] <= t,
                        _ => (v[i] - t).abs() < 1e-6,
                    })
                });
            },
            None => rows.retain(|&i| categories[i].to_lowercase().contains(&q.to_lowercase())),
        }
    }
    if st.sort_column == Some(0) {
        rows.sort_by(|&a, &b| if st.sort_ascending { categories[a].cmp(categories[b]) } else { categories[b].cmp(categories[a]) });
    }
    rows
}

#[test]
fn test_chart_inspector_state() {
    let categories = ["Q1", "Q2", "Q3", "Q4"];
    let series = vec![vec![120.0, 200.0, 150.0, 310.0], vec![40.0, 80.0, 60.0, 140.0]];
    let mut inspector = InspectorState::new(ChartType::Bar);

    assert_eq!(inspector.active_type, ChartType::Bar);
    inspector.cycle_type();
    assert_eq!(inspector.active_type, ChartType::Line);
    inspector.cycle_type();
    assert_eq!(inspector.active_type, ChartType::Area);

    // Toggle series
    inspector.toggle_series(1, 2);
    assert!(inspector.hidden_series.contains(&1));
    inspector.toggle_series(1, 2);
    assert!(!inspector.hidden_series.contains(&1));

    // Format cycle
    inspector.cycle_format();
    assert_eq!(inspector.format, NumberFormat::Currency);

    // Filter by numeric query "> 150": Revenue has 120, 200, 150, 310, so Q2 and Q4 match.
    inspector.search_query = "> 150".into();
    assert_eq!(parse_filter_condition("> 150"), Some((">", "150".to_string())));
    assert_eq!(filtered(&inspector, &categories, &series), vec![1, 3]);

    // Filter by text query "Q1"
    inspector.search_query = "q1".into();
    assert_eq!(parse_filter_condition("q1"), None);
    assert_eq!(filtered(&inspector, &categories, &series), vec![0]);

    // Sorting by category descending
    inspector.search_query.clear();
    inspector.sort_column = Some(0);
    inspector.sort_ascending = false;
    assert_eq!(filtered(&inspector, &categories, &series), vec![3, 2, 1, 0]);

    // Clear filter
    inspector.clear_filter();
    assert!(inspector.search_query.is_empty());
    assert_eq!(filtered(&inspector, &categories, &series).len(), 4);

    // Toast
    assert!(inspector.toast.is_some());
}

#[test]
fn text_search_matches_any_cell_ignoring_case() {
    let cells = vec!["Rust".to_string(), "12.5".to_string()];
    assert!(row_matches_text("rus", &cells));
    assert!(row_matches_text("RUST", &cells));
    assert!(row_matches_text("2.5", &cells));
    assert!(!row_matches_text("go", &cells));
    assert!(!row_matches_text("x", &Vec::new()));
}
