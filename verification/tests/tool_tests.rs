use cargo_slide::charts::{decode_chart_param, parse_filter_condition, ChartTransform, ChartType};
use cargo_slide::cli::{resolve_command, strip_cargo_subcommand, Commands, LogFormat};
use cargo_slide::compile::{
    detect_overflow, overflow_message, parse_declared_slides, DeclaredSlide, SlideCompiler, SlideError,
};
use cargo_slide::ink::{render_ink_strokes, InkStroke};
use cargo_slide::marks::{draw_circle_ring, draw_glow_marker};
use cargo_slide::overlay::{draw_help_overlay, draw_page_badge};
use cargo_slide::player::{
    apply_dock_action, apply_key, initial_tools, route_click, update_volume_slider, ClickTarget, DockAction,
    PlayerConfig, PresenterKey, PresenterMode,
};

#[test]
fn chart_types_and_params() {
    assert_eq!(ChartType::parse_name("  LINE "), ChartType::Line);
    assert_eq!(ChartType::parse_name("Donut"), ChartType::Donut);
    assert_eq!(ChartType::parse_name("\tscatter\n"), ChartType::Scatter);
    assert_eq!(ChartType::parse_name("columns"), ChartType::Bar);
    assert_eq!(ChartType::parse_name("pie\u{3000}"), ChartType::Pie);
    assert_eq!(ChartType::default(), ChartType::Bar);
    assert_eq!(ChartTransform::default(), ChartTransform::Original);
    assert_eq!(ChartType::Donut.next_type(), ChartType::Bar);
    assert_eq!(ChartType::Scatter.next_type(), ChartType::Bar);
    assert_eq!(ChartType::Bar.next_type(), ChartType::Line);
    assert_eq!(decode_chart_param("R%26D+Budget"), "R&D Budget");
    assert_eq!(decode_chart_param("a%2%26b"), "a%2&b");
    assert_eq!(decode_chart_param("plain"), "plain");
}

#[test]
fn filter_conditions() {
    assert_eq!(parse_filter_condition("  >= 150 "), Some((">=", "150".to_string())));
    assert_eq!(parse_filter_condition("> 150"), Some((">", "150".to_string())));
    assert_eq!(parse_filter_condition("!=abc"), Some(("!=", "abc".to_string())));
    assert_eq!(parse_filter_condition("==  x y  "), Some(("==", "x y".to_string())));
    assert_eq!(parse_filter_condition("= 3"), Some(("=", "3".to_string())));
    assert_eq!(parse_filter_condition("<"), Some(("<", "".to_string())));
    assert_eq!(parse_filter_condition("abc"), None);
}

#[test]
fn command_line() {
    assert_eq!(LogFormat::from_str("JSON"), LogFormat::Json);
    assert_eq!(LogFormat::from_str("json"), LogFormat::Json);
    assert_eq!(LogFormat::from_str("jsonl"), LogFormat::Human);
    assert_eq!(LogFormat::from_str("human"), LogFormat::Human);
    let args = vec!["cargo-slide".to_string(), "slide".to_string(), "run".to_string()];
    assert_eq!(strip_cargo_subcommand(args), vec!["cargo-slide".to_string(), "run".to_string()]);
    let args = vec!["cargo-slide".to_string(), "run".to_string()];
    assert_eq!(strip_cargo_subcommand(args.clone()), args);
    match resolve_command(None, None) {
        Commands::Run { file, animation, watch, fullscreen } => {
            assert_eq!(file, "slides.typ");
            assert_eq!(animation, "fade");
            assert!(!watch && !fullscreen);
        },
        _ => panic!("expected run"),
    }
    let dev = Commands::Dev { file: "talk.typ".to_string(), animation: "cube".to_string(), fullscreen: true };
    match resolve_command(Some(dev), None) {
        Commands::Run { file, animation, watch, fullscreen } => {
            assert_eq!(file, "talk.typ");
            assert_eq!(animation, "cube");
            assert!(watch && fullscreen);
        },
        _ => panic!("expected run"),
    }
}

#[test]
fn compiler_handle_and_declared_slides() {
    assert!(matches!(SlideCompiler::new(None), Err(SlideError::Compilation(_))));
    let c = SlideCompiler::new(Some("/usr/bin/typst".to_string())).unwrap();
    assert_eq!(c.typst_path, "/usr/bin/typst");
    assert_eq!(SlideCompiler::with_path("typst".to_string()).typst_path, "typst");

    let src = "#import \"slide.typ\": *\r\n// #slide(title: \"Ignored\")\n#title-slide(\n  title: \"Welcome\",\n)\n#slide[\n= Body\n]\n  #slide(title: \"Overflowing Slide\")[x]\n#let slide(body) = body\n";
    let d = parse_declared_slides(src);
    assert_eq!(d.len(), 3);
    assert_eq!((d[0].line_number, d[0].title.as_str()), (3, "Welcome"));
    assert_eq!((d[1].line_number, d[1].title.as_str()), (6, "Overflowing Slide"));
    assert_eq!((d[2].line_number, d[2].title.as_str()), (9, "Overflowing Slide"));
    let plain = parse_declared_slides("#slide[\nA\n]\n#slide[\nB\n]");
    assert_eq!(plain.len(), 2);
    assert_eq!(plain[1].title, "Slide 2");
}

#[test]
fn overflow_detection() {
    let declared = vec![
        DeclaredSlide { line_number: 1, title: "One".to_string() },
        DeclaredSlide { line_number: 5, title: "Two".to_string() },
    ];
    assert!(detect_overflow(&declared, &vec![true, true]).is_none());
    assert!(detect_overflow(&vec![], &vec![true, true, false]).is_none());
    let r = detect_overflow(&declared, &vec![true, true, false]).unwrap();
    assert_eq!((r.declared_count, r.compiled_count, r.extra_pages), (2, 3, 1));
    assert_eq!((r.problem_slide, r.spillover_page), (2, 3));
    assert_eq!((r.problem_title.as_str(), r.problem_line), ("Two", 5));
    let r = detect_overflow(&declared, &vec![true, false, true]).unwrap();
    assert_eq!((r.problem_slide, r.spillover_page, r.problem_title.as_str()), (1, 2, "One"));
    let r = detect_overflow(&declared, &vec![false, false, false]).unwrap();
    assert_eq!((r.problem_slide, r.spillover_page), (2, 3));
    let msg = overflow_message(&r);
    assert!(msg.starts_with("Typst slide content overflow detected!\nThe presentation source declares 2 slide(s), but Typst compiled 3 pages (1 extra spillover page(s))."));
    assert!(msg.contains("Slide 2 (\"Two\", line 5) exceeded"));
    assert!(msg.contains("compiled page 3."));
}

#[test]
fn presenter_tools() {
    let t = initial_tools();
    assert_eq!(t.mode, PresenterMode::Normal);
    let (t2, _) = apply_key(t, PresenterKey::Laser, 5, false);
    assert_eq!(t2.mode, PresenterMode::Laser);
    let (t3, _) = apply_key(t2, PresenterKey::Laser, 5, false);
    assert_eq!(t3, t);
    let (_, req) = apply_key(t, PresenterKey::Digit(3), 5, false);
    assert_eq!(req.jump, Some(2));
    let (p, _) = apply_key(t, PresenterKey::Palette, 5, false);
    let (p2, req) = apply_key(p, PresenterKey::Digit(3), 5, false);
    assert_eq!(p2.active_color_idx, 2);
    assert_eq!(req.jump, None);
    let (_, req) = apply_key(p, PresenterKey::Digit(8), 5, false);
    assert_eq!(req.jump, Some(7));
    let (_, req) = apply_key(t, PresenterKey::End, 5, false);
    assert_eq!(req.jump, Some(4));
    let (_, req) = apply_key(t, PresenterKey::Escape, 5, true);
    assert!(req.toggle_fullscreen && !req.exit);
    let (_, req) = apply_key(t, PresenterKey::Escape, 5, false);
    assert!(req.exit);
    let (v, req) = apply_dock_action(t, DockAction::ToggleMute);
    assert!(v.volume_slider_open && !req.toggle_mute);
    let (_, req) = apply_dock_action(v, DockAction::ToggleMute);
    assert!(req.toggle_mute);
    assert_eq!(update_volume_slider(true, true, true, false, false, false), (false, false));
    assert_eq!(update_volume_slider(false, false, false, false, true, true), (true, false));
    assert_eq!(update_volume_slider(true, false, false, false, false, false), (false, false));
    assert_eq!(route_click(false, None, None, false, PresenterMode::Normal, None), ClickTarget::Advance);
    assert_eq!(route_click(false, None, None, false, PresenterMode::Pen, Some(1)), ClickTarget::Nothing);
    assert_eq!(route_click(false, Some(2), Some(DockAction::Next), false, PresenterMode::Normal, None), ClickTarget::PaletteColor(2));
    assert_eq!(route_click(true, Some(2), None, false, PresenterMode::Normal, None), ClickTarget::Inspector);
    let c = PlayerConfig::default();
    assert_eq!((c.title.as_str(), c.width, c.height, c.fullscreen, c.default_animation.as_str()), (
        "Cargo Slide Presentation",
        1280,
        720,
        false,
        "fade"
    ));
}

#[test]
fn badge_and_help_overlay() {
    let w = 200;
    let h = 60;
    let mut buf = vec![0xFF000000u32; w * h];
    draw_page_badge(&mut buf, w, h, 3, 12, 1, 2);
    // "3 / 12  [STEP 1/2]" is 18 characters: box 142 wide, 24 high, 16 pixels from the corner.
    let sx = w - (18 * 7 + 16 + 16);
    let sy = h - 40;
    assert_eq!(buf[sy * w + sx], 0xFF11151B);
    assert_eq!(buf[(sy - 1) * w + sx], 0xFF000000);
    let lit = (0..w * h).filter(|&i| buf[i] == 0xFF58A6FF).count();
    assert!(lit > 0);
    let mut big = vec![0xFF000000u32; 600 * 400];
    draw_help_overlay(&mut big, 600, 400);
    // The panel is 58 * 7 + 36 = 442 wide and 19 * 14 + 36 = 302 high, centred.
    let px = (600 - 442) / 2;
    let py = (400 - 302) / 2;
    assert_eq!(big[py * 600 + px], 0xFF58A6FF);
    assert_eq!(big[(py + 2) * 600 + px + 2], 0xFF0E121A);
    assert_eq!(big[(py - 1) * 600 + px], 0xFF000000);
}

#[test]
fn rings_markers_and_ink() {
    let mut buf = vec![0u32; 21 * 21];
    draw_circle_ring(&mut buf, 21, 21, 10, 10, 10, 0xFFFFFFFF);
    assert_eq!(buf[10 * 21], 0xFFFFFFFF);
    assert_eq!(buf[10 * 21 + 10], 0);
    let mut m = vec![0u32; 9 * 9];
    draw_glow_marker(&mut m, 9, 9, 4, 4, 0xFF00FF00);
    assert_eq!(m[4 * 9 + 4], 0xFFFFFFFF);
    assert_eq!(m[4 * 9 + 1], 0xFF00FF00);
    assert_eq!(m[0], 0);
    let mut ink = vec![0u32; 10 * 10];
    let stroke = InkStroke { points: vec![(1, 1), (8, 1)], color: 0xFFFF0000, width: 2 };
    render_ink_strokes(&mut ink, 10, 10, &[stroke]);
    assert_eq!(ink[1 * 10 + 5], 0xFFFF0000);
    assert_eq!(ink[8 * 10 + 5], 0);
}
