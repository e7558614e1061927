use cargo_slide::hrefs::{hotspot_outline_color, HrefKind};
use cargo_slide::player::{dock_actions, dock_button_style, dock_caption_text, pointer_style, DockAction, PointerStyle, PresenterMode};

#[test]
fn dock_layout_order() {
    let a = dock_actions();
    assert_eq!(a.len(), 10);
    assert_eq!(a[0], DockAction::Prev);
    assert_eq!(a[5], DockAction::TogglePalette);
    assert_eq!(a[7], DockAction::ToggleMute);
    assert_eq!(a[9], DockAction::ToggleHelp);
}

#[test]
fn dock_button_labels() {
    let s = dock_button_style(DockAction::ToggleMute, PresenterMode::Normal, false, None, false, 85, 0, false);
    assert_eq!(s.label, "85%");
    let s = dock_button_style(DockAction::ToggleMute, PresenterMode::Normal, false, None, false, 250, 0, false);
    assert_eq!(s.label, "100%");
    let s = dock_button_style(DockAction::ToggleMute, PresenterMode::Normal, false, None, true, 40, 0, false);
    assert_eq!(s.label, "MUT");
    assert_eq!(s.text_color, 0xFFf85149);
    let s = dock_button_style(DockAction::ToggleFullscreen, PresenterMode::Normal, false, None, false, 0, 0, true);
    assert_eq!(s.label, "WIN");
    let s = dock_button_style(DockAction::ToggleFullscreen, PresenterMode::Normal, false, None, false, 0, 0, false);
    assert_eq!(s.label, "FULL");
    let s = dock_button_style(DockAction::ModeLaser, PresenterMode::Normal, false, None, false, 0, 0, false);
    assert_eq!(s.label, "LSR");
}

#[test]
fn dock_button_colours() {
    // The active mode is white on blue.
    let s = dock_button_style(DockAction::ModePen, PresenterMode::Pen, false, None, false, 0, 0, false);
    assert_eq!(s.text_color, 0xFFffffff);
    assert_eq!(s.fill, Some(0xFF1f6feb));
    // A hovered inactive button is blue text on grey.
    let s = dock_button_style(DockAction::Next, PresenterMode::Pen, false, Some(DockAction::Next), false, 0, 0, false);
    assert_eq!(s.text_color, 0xFF58a6ff);
    assert_eq!(s.fill, Some(0xFF30363d));
    // The palette button shows the chosen colour, even when hovered.
    let s = dock_button_style(DockAction::TogglePalette, PresenterMode::Normal, false, Some(DockAction::TogglePalette), false, 0, 0xFF00E676, false);
    assert_eq!(s.text_color, 0xFF00E676);
    // Others are light grey with no fill.
    let s = dock_button_style(DockAction::ClearInk, PresenterMode::Normal, false, Some(DockAction::Next), false, 0, 0, false);
    assert_eq!(s.text_color, 0xFFc9d1d9);
    assert_eq!(s.fill, None);
}

#[test]
fn pointer_styles() {
    assert_eq!(pointer_style(PresenterMode::Laser, true, true), PointerStyle::Hidden);
    assert_eq!(pointer_style(PresenterMode::Pen, true, true), PointerStyle::Arrow);
    assert_eq!(pointer_style(PresenterMode::Pen, false, true), PointerStyle::Hand);
    assert_eq!(pointer_style(PresenterMode::Pen, false, false), PointerStyle::Crosshair);
    assert_eq!(pointer_style(PresenterMode::Normal, false, false), PointerStyle::Arrow);
}

#[test]
fn hotspot_outline_colours() {
    assert_eq!(hotspot_outline_color(HrefKind::Link), Some(0xFF58a6ff));
    assert_eq!(hotspot_outline_color(HrefKind::Video), Some(0xFFf0883e));
    assert_eq!(hotspot_outline_color(HrefKind::Audio), Some(0xFF3fb950));
    assert_eq!(hotspot_outline_color(HrefKind::Chart), Some(0xFF38bdf8));
    assert_eq!(hotspot_outline_color(HrefKind::Step), None);
}

#[test]
fn dock_captions_follow_full_screen() {
    assert_eq!(dock_caption_text(DockAction::ToggleFullscreen, true), "WIN");
    assert_eq!(dock_caption_text(DockAction::ToggleFullscreen, false), "FULL");
    assert_eq!(dock_caption_text(DockAction::ToggleMute, false), "VOL");
    assert_eq!(dock_caption_text(DockAction::Prev, true), "<");
}
