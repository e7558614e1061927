use cargo_slide::chart_href::parse_chart_params;
use cargo_slide::charts::ChartType;
use cargo_slide::commands::{check_new_project, export_plan, standalone_binary_name, svg_page_file, ExportPlan};
use cargo_slide::compile::{chart_sources, data_format, DataFormat};
use cargo_slide::hrefs::{
    classify_href, href_payload_text, parse_audio_query, parse_step_query, step_sequence, transition_name, HrefKind,
};
use cargo_slide::navigation::max_step;

#[test]
fn svg_link_kinds() {
    assert_eq!(classify_href("#transition:glitch"), HrefKind::Transition);
    assert_eq!(classify_href("step:2?effect=slide-up"), HrefKind::Step);
    assert_eq!(classify_href("video:assets/demo.mp4"), HrefKind::Video);
    assert_eq!(classify_href("#audio:ambient.mp3"), HrefKind::Audio);
    assert_eq!(classify_href("chart:type=bar"), HrefKind::Chart);
    assert_eq!(classify_href("https://rust-lang.org"), HrefKind::Link);
    assert_eq!(transition_name("#transition: cube "), Some("cube".to_string()));
    assert_eq!(transition_name("step:1"), None);
}

#[test]
fn step_and_audio_queries() {
    assert_eq!(parse_step_query("2?effect=slide-up"), (2, "slide-up".to_string()));
    assert_eq!(parse_step_query("3"), (3, "fade-in".to_string()));
    assert_eq!(parse_step_query("x?effect=a;effect=glitch"), (1, "glitch".to_string()));
    let a = parse_audio_query("ambient.mp3?autoplay=true&loop=1;volume=0.5&vol=x");
    assert_eq!(a.source, "ambient.mp3");
    assert!(a.autoplay && a.loop_audio);
    assert_eq!(a.volume_texts, vec!["0.5".to_string(), "x".to_string()]);
    let b = parse_audio_query("theme.ogg");
    assert_eq!(b.source, "theme.ogg");
    assert!(!b.autoplay && !b.loop_audio && b.volume_texts.is_empty());
    let c = parse_audio_query("t.ogg?autoplay=1&autoplay=no");
    assert!(!c.autoplay);
}

#[test]
fn chart_link_parameters() {
    let h = parse_chart_params(
        "type=line&amp;title=Speed+%26+Efficiency&categories=Cat1, Cat2&series=Series A:10,20;Series B: 30 , 40&source=data.csv?query=a%26b&dsl=limit+3",
    );
    assert_eq!(h.chart_type, ChartType::Line);
    assert_eq!(h.title.as_deref(), Some("Speed & Efficiency"));
    assert_eq!(h.categories, vec!["Cat1".to_string(), "Cat2".to_string()]);
    assert_eq!(h.series.len(), 2);
    assert_eq!(h.series[0].name, "Series A");
    assert_eq!(h.series[0].value_texts, vec!["10".to_string(), "20".to_string()]);
    assert_eq!(h.series[1].name, "Series B");
    assert_eq!(h.series[1].value_texts, vec!["30".to_string(), "40".to_string()]);
    assert_eq!(h.source.as_deref(), Some("data.csv?query=a&b"));
    assert_eq!(h.dsl_pipeline.as_deref(), Some("limit 3"));
    assert_eq!(h.sql_query, None);
    let d = parse_chart_params("nonsense");
    assert_eq!(d.chart_type, ChartType::Bar);
    assert!(d.title.is_none() && d.categories.is_empty() && d.series.is_empty());
}

#[test]
fn chart_sources_in_the_presentation() {
    let src = "#chart(source: \"assets/metrics.db?query=SELECT+*+FROM+t\")\nplain line\n  #chart(source: \"data.csv\")\n";
    let found = chart_sources(src);
    assert_eq!(found.len(), 2);
    assert_eq!(found[0].path, "assets/metrics.db");
    assert_eq!(found[0].query.as_deref(), Some("SELECT * FROM t"));
    assert_eq!(found[1].path, "data.csv");
    assert!(found[1].query.is_none());
    assert_eq!(data_format("a/b.sqlite"), Some(DataFormat::Sqlite));
    assert_eq!(data_format("m.jsonl"), Some(DataFormat::Json));
    assert_eq!(data_format("x.csv"), Some(DataFormat::Csv));
    assert_eq!(data_format("x.txt"), None);
}

#[test]
fn command_outputs() {
    assert_eq!(check_new_project("talk", true), Err("Directory already exists: talk".to_string()));
    assert_eq!(check_new_project("talk", false), Ok(()));
    match export_plan("slides", "PDF", None) {
        Ok(ExportPlan::Pdf { output }) => assert_eq!(output, "slides.pdf"),
        _ => panic!("expected a PDF export"),
    }
    match export_plan("slides", "svg", Some("out".to_string())) {
        Ok(ExportPlan::Svg { dir }) => assert_eq!(dir, "out"),
        _ => panic!("expected an SVG export"),
    }
    match export_plan("slides", "Png", None) {
        Err(m) => assert_eq!(m, "Unsupported export format: png. Supported formats: pdf, svg"),
        _ => panic!("expected a refusal"),
    }
    assert_eq!(svg_page_file(12), "page-12.svg");
    assert_eq!(standalone_binary_name("slides", false), "slides-presentation");
    assert_eq!(standalone_binary_name("slides", true), "slides-presentation.exe");
    assert_eq!(max_step(&[2, 5, 1]), 5);
    assert_eq!(max_step(&[]), 0);
}

#[test]
fn steps_arranged_by_order_stably() {
    assert_eq!(step_sequence(&vec![3, 1, 2, 1]), vec![1, 3, 2, 0]);
    assert_eq!(step_sequence(&vec![]), Vec::<usize>::new());
    assert_eq!(step_sequence(&vec![5, 5, 5]), vec![0, 1, 2]);
}

#[test]
fn test_parse_chart_hotspot_with_anchor_and_escaped_entities() {
    let href = "#chart:type=bar&title=Speed+%26+Efficiency&categories=Cat1,Cat2&series=Series+A:10,20;Series+B:30,40";
    assert_eq!(classify_href(href), HrefKind::Chart);
    let h = parse_chart_params(&href_payload_text(href));
    assert_eq!(h.chart_type, ChartType::Bar);
    assert_eq!(h.title.as_deref(), Some("Speed & Efficiency"));
    assert_eq!(h.categories, vec!["Cat1", "Cat2"]);
    assert_eq!(h.series.len(), 2);
    assert_eq!(h.series[0].name, "Series A");
    assert_eq!(h.series[0].value_texts, vec!["10", "20"]);
    assert_eq!(h.series[1].name, "Series B");
    assert_eq!(h.series[1].value_texts, vec!["30", "40"]);
}
