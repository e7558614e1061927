use cargo_slide::charts::ChartTransform;
use cargo_slide::dsl::{
    category_matches, create_table_sql, filter_value, insert_row_sql, parse_dsl, series_selected, sort_key,
    sql_column_name, transform_dsl, DslStage, RowValue, SortKey,
};

fn one(dsl: &str) -> DslStage {
    let mut v = parse_dsl(dsl).expect("pipeline parses");
    assert_eq!(v.len(), 1, "{dsl}");
    v.remove(0)
}

#[test]
fn pipeline_stages_in_order() {
    let v = parse_dsl("filter fps >= 30 | sort desc | limit 3").unwrap();
    assert_eq!(v.len(), 3);
    assert!(matches!(&v[0], DslStage::Filter { column, op, value } if column == "fps" && op == ">=" && value == "30"));
    assert!(matches!(&v[1], DslStage::Sort { column: None, descending: true }));
    assert!(matches!(&v[2], DslStage::Limit(3)));
}

#[test]
fn filter_needs_three_arguments() {
    match parse_dsl("sort desc | filter fps | limit 2") {
        Err(m) => assert_eq!(m, "Invalid filter syntax 'filter fps': expected 'filter <col> <op> <val>'"),
        Ok(_) => panic!("a short filter is refused"),
    }
    assert!(matches!(one("where title == Hello  World"), DslStage::Filter { value, .. } if value == "Hello World"));
}

#[test]
fn sort_stage_forms() {
    assert!(matches!(one("sort"), DslStage::Sort { column: None, descending: true }));
    assert!(matches!(one("ORDER asc"), DslStage::Sort { column: None, descending: false }));
    assert!(matches!(one("sort FPS"), DslStage::Sort { column: Some(c), descending: false } if c == "FPS"));
    assert!(matches!(one("sort FPS DESC"), DslStage::Sort { column: Some(c), descending: true } if c == "FPS"));
    assert!(matches!(one("sort FPS up"), DslStage::Sort { descending: false, .. }));
}

#[test]
fn row_count_stages() {
    assert_eq!(parse_dsl("limit").unwrap().len(), 0);
    assert!(matches!(one("limit x"), DslStage::Limit(5)));
    assert!(matches!(one("head 2"), DslStage::Limit(2)));
    assert!(matches!(one("tail 4"), DslStage::Tail(4)));
    assert!(matches!(one("top_k"), DslStage::TopK(5)));
    assert!(matches!(one("top_k 3"), DslStage::TopK(3)));
    assert!(matches!(one("ma"), DslStage::Smooth(3)));
    assert!(matches!(one("smooth 7"), DslStage::Smooth(7)));
}

#[test]
fn other_stages() {
    assert!(matches!(one("cumsum"), DslStage::Cumulative));
    assert!(matches!(one("Share"), DslStage::Percent));
    match one("select FPS, Memory_MB") {
        DslStage::Select(w) => assert_eq!(w, vec!["fps".to_string(), "memory_mb".to_string()]),
        _ => panic!("select stage"),
    }
    assert_eq!(parse_dsl("unknown 1 |  | ").unwrap().len(), 0);
    assert_eq!(parse_dsl("").unwrap().len(), 0);
}

#[test]
fn readme_arrow_pipeline() {
    let v = parse_dsl("source -> filter(fps >= 30) -> select(Framework, FPS)").unwrap();
    assert_eq!(v.len(), 2);
    assert!(matches!(&v[0], DslStage::Filter { column, op, value } if column == "fps" && op == ">=" && value == "30"));
    match &v[1] {
        DslStage::Select(w) => assert_eq!(w, &vec!["framework".to_string(), "fps".to_string()]),
        _ => panic!("select stage"),
    }
    assert!(series_selected("fps", &vec!["framework".to_string(), "fps".to_string()]));
}

#[test]
fn arrows_and_bars_mix() {
    let v = parse_dsl("sort(desc) | limit(2) -> cumsum").unwrap();
    assert_eq!(v.len(), 3);
    assert!(matches!(&v[0], DslStage::Sort { column: None, descending: true }));
    assert!(matches!(&v[1], DslStage::Limit(2)));
    assert!(matches!(&v[2], DslStage::Cumulative));
    assert_eq!(parse_dsl("source").unwrap().len(), 0);
    match parse_dsl("source -> filter(fps)") {
        Err(m) => assert_eq!(m, "Invalid filter syntax 'filter(fps)': expected 'filter <col> <op> <val>'"),
        Ok(_) => panic!("a short filter is refused"),
    }
    assert!(matches!(one("where title == Foo(bar)"), DslStage::Filter { value, .. } if value == "Foo(bar)"));
}

#[test]
fn transform_presets() {
    assert_eq!(transform_dsl(ChartTransform::TopK(5)), Some("top_k 5".to_string()));
    assert_eq!(transform_dsl(ChartTransform::MovingAvg(3)), Some("smooth 3".to_string()));
    assert_eq!(transform_dsl(ChartTransform::SortAsc), Some("sort asc".to_string()));
    assert_eq!(transform_dsl(ChartTransform::Percent100), Some("percent".to_string()));
    assert_eq!(transform_dsl(ChartTransform::Original), None);
}

#[test]
fn query_table_statements() {
    assert_eq!(sql_column_name("Memory MB", 0), "Memory_MB");
    assert_eq!(sql_column_name("9lives", 2), "col_2_9lives");
    assert_eq!(sql_column_name("", 1), "col_1_");
    assert_eq!(sql_column_name("Zoë", 0), "Zo_");
    let cols = vec!["a".to_string(), "b".to_string()];
    assert_eq!(create_table_sql(&cols), "CREATE TABLE data (id INTEGER PRIMARY KEY, category TEXT, \"a\" REAL, \"b\" REAL)");
    assert_eq!(insert_row_sql(&cols), "INSERT INTO data (id, category, \"a\", \"b\") VALUES (?1, ?2, ?3, ?4)");
    assert_eq!(insert_row_sql(&Vec::new()), "INSERT INTO data (id, category) VALUES (?1, ?2)");
}

#[test]
fn row_value_and_sort_key_resolution() {
    let names = vec!["FPS".to_string(), "Mem".to_string()];
    assert_eq!(filter_value("CAT", &names), RowValue::Category);
    assert_eq!(filter_value("Sum", &names), RowValue::Total);
    assert_eq!(filter_value("fps", &names), RowValue::Series(0));
    assert_eq!(filter_value("zzz", &names), RowValue::FirstSeries);
    assert_eq!(sort_key(None, &names), SortKey::Total);
    assert_eq!(sort_key(Some("category"), &names), SortKey::Category);
    assert_eq!(sort_key(Some("MEM"), &names), SortKey::Series(1));
    assert_eq!(sort_key(Some("total"), &names), SortKey::Total);
}

#[test]
fn category_and_series_filters() {
    assert!(category_matches("==", "Rust", "rust"));
    assert!(!category_matches("!=", "Rust", "RUST"));
    assert!(category_matches("contains", "Cargo Slide", "slide"));
    assert!(!category_matches("contains", "Cargo", "slide"));
    assert!(category_matches(">", "anything", "5"));
    assert!(series_selected("Memory_MB", &vec!["mem".to_string()]));
    assert!(!series_selected("FPS", &vec!["mem".to_string()]));
}
