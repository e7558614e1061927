//! Player settings and the presenter tools' decisions: modes, dock buttons, keys and clicks.
use vstd::prelude::*;
use crate::charts::{ChartType, ChartTransform};
use crate::chars::{chars_of, string_of};
use crate::text::{decimal_text, decimal_chars, append_chars};

verus! {

/// Window and playback settings of the player.
#[derive(Clone, Debug)]
pub struct PlayerConfig {
    pub title: String,
    pub width: usize,
    pub height: usize,
    pub fullscreen: bool,
    pub default_animation: String,
}

impl Default for PlayerConfig {
    /// A 1280 by 720 window titled "Cargo Slide Presentation" with cross-fade transitions.
    fn default() -> (r: Self)
        ensures
            r.title@ == "Cargo Slide Presentation"@,
            r.width == 1280,
            r.height == 720,
            !r.fullscreen,
            r.default_animation@ == "fade"@,
    {
        PlayerConfig {
            title: "Cargo Slide Presentation".to_string(),
            width: 1280,
            height: 720,
            fullscreen: false,
            default_animation: "fade".to_string(),
        }
    }
}

/// Opens video hotspots in an external player.
#[derive(Clone, Copy, Debug, PartialEq, Eq, Structural)]
pub struct MediaPlayer;

/// The presenter's pointer tool.
#[derive(Clone, Copy, Debug, PartialEq, Eq, Structural)]
pub enum PresenterMode {
    Normal,
    Laser,
    Pen,
}

/// A button of the presenter dock.
#[derive(Clone, Copy, Debug, PartialEq, Eq, Structural)]
pub enum DockAction {
    Prev,
    Next,
    ModeNormal,
    ModeLaser,
    ModePen,
    TogglePalette,
    ClearInk,
    ToggleMute,
    ToggleFullscreen,
    ToggleHelp,
}

/// A quick action button drawn on a chart.
#[derive(Clone, Copy, Debug, PartialEq, Eq, Structural)]
pub enum ChartQuickAction {
    CycleType,
    OpenInspector,
}

/// What a click inside the chart inspector asks for.
#[derive(Clone, Copy, Debug, PartialEq, Eq, Structural)]
pub enum InspectorAction {
    Close,
    SetType(ChartType),
    SetTransform(ChartTransform),
    ToggleSeries(usize),
    ExportCsv,
    SelectCategory(usize),
    ScrollTable(isize),
    FocusSearch,
    ClearFilter,
    CycleFormat,
    /// Sort by a column: 0 is the category column, 1 and up the series.
    SortColumn(usize),
}

/// The state of the presenter tools.
#[derive(Clone, Copy, Debug, PartialEq, Eq, Structural)]
pub struct PresenterTools {
    pub mode: PresenterMode,
    pub palette_open: bool,
    pub show_help: bool,
    pub active_color_idx: usize,
    pub volume_slider_open: bool,
}

/// What a dock button, key or click asks of the rest of the player besides the tools' state.
#[derive(Clone, Copy, Debug, PartialEq, Eq, Structural)]
pub struct ToolRequests {
    pub forward: bool,
    pub backward: bool,
    pub jump: Option<usize>,
    pub clear_ink: bool,
    pub toggle_mute: bool,
    pub volume_step: i8,
    pub toggle_fullscreen: bool,
    pub exit: bool,
    pub reload: bool,
}

/// No requests.
pub open spec fn no_requests() -> ToolRequests {
    ToolRequests {
        forward: false,
        backward: false,
        jump: None,
        clear_ink: false,
        toggle_mute: false,
        volume_step: 0,
        toggle_fullscreen: false,
        exit: false,
        reload: false,
    }
}

/// The tools as they start: normal pointer, palette and help closed, cyan (entry 0) selected.
pub fn initial_tools() -> (r: PresenterTools)
    ensures
        r == (PresenterTools {
            mode: PresenterMode::Normal,
            palette_open: false,
            show_help: false,
            active_color_idx: 0,
            volume_slider_open: false,
        }),
{
    PresenterTools {
        mode: PresenterMode::Normal,
        palette_open: false,
        show_help: false,
        active_color_idx: 0,
        volume_slider_open: false,
    }
}

/// The effect of a dock button on the tools and the requests it makes.
pub open spec fn dock_spec(t: PresenterTools, a: DockAction) -> (PresenterTools, ToolRequests) {
    let n = no_requests();
    match a {
        DockAction::Prev => (t, ToolRequests { backward: true, ..n }),
        DockAction::Next => (t, ToolRequests { forward: true, ..n }),
        DockAction::ModeNormal => (PresenterTools { mode: PresenterMode::Normal, ..t }, n),
        DockAction::ModeLaser => (PresenterTools { mode: PresenterMode::Laser, ..t }, n),
        DockAction::ModePen => (PresenterTools { mode: PresenterMode::Pen, ..t }, n),
        DockAction::TogglePalette => (PresenterTools { palette_open: !t.palette_open, ..t }, n),
        DockAction::ClearInk => (t, ToolRequests { clear_ink: true, ..n }),
        DockAction::ToggleMute => if !t.volume_slider_open {
            (PresenterTools { volume_slider_open: true, ..t }, n)
        } else {
            (t, ToolRequests { toggle_mute: true, ..n })
        },
        DockAction::ToggleFullscreen => (t, ToolRequests { toggle_fullscreen: true, ..n }),
        DockAction::ToggleHelp => (PresenterTools { show_help: !t.show_help, ..t }, n),
    }
}

/// Applies a click on a dock button.
pub fn apply_dock_action(t: PresenterTools, a: DockAction) -> (r: (PresenterTools, ToolRequests))
    ensures
        r == dock_spec(t, a),
{
    let n = ToolRequests {
        forward: false,
        backward: false,
        jump: None,
        clear_ink: false,
        toggle_mute: false,
        volume_step: 0,
        toggle_fullscreen: false,
        exit: false,
        reload: false,
    };
    match a {
        DockAction::Prev => (t, ToolRequests { backward: true, ..n }),
        DockAction::Next => (t, ToolRequests { forward: true, ..n }),
        DockAction::ModeNormal => (PresenterTools { mode: PresenterMode::Normal, ..t }, n),
        DockAction::ModeLaser => (PresenterTools { mode: PresenterMode::Laser, ..t }, n),
        DockAction::ModePen => (PresenterTools { mode: PresenterMode::Pen, ..t }, n),
        DockAction::TogglePalette => (PresenterTools { palette_open: !t.palette_open, ..t }, n),
        DockAction::ClearInk => (t, ToolRequests { clear_ink: true, ..n }),
        DockAction::ToggleMute => if !t.volume_slider_open {
            (PresenterTools { volume_slider_open: true, ..t }, n)
        } else {
            (t, ToolRequests { toggle_mute: true, ..n })
        },
        DockAction::ToggleFullscreen => (t, ToolRequests { toggle_fullscreen: true, ..n }),
        DockAction::ToggleHelp => (PresenterTools { show_help: !t.show_help, ..t }, n),
    }
}

/// The pointer the window shows.
#[derive(Clone, Copy, Debug, PartialEq, Eq, Structural)]
pub enum PointerStyle {
    /// No pointer: the laser is drawn instead.
    Hidden,
    Arrow,
    /// Something under the pointer can be clicked.
    Hand,
    /// The pen is drawing.
    Crosshair,
}

/// The pointer for the current mode: hidden with the laser, an arrow over the inspector, a hand over anything
/// clickable (dock, hotspot, palette, volume slider), a crosshair with the pen, else an arrow.
pub fn pointer_style(mode: PresenterMode, inspector_open: bool, over_clickable: bool) -> (r: PointerStyle)
    ensures
        r == (if mode == PresenterMode::Laser {
            PointerStyle::Hidden
        } else if inspector_open {
            PointerStyle::Arrow
        } else if over_clickable {
            PointerStyle::Hand
        } else if mode == PresenterMode::Pen {
            PointerStyle::Crosshair
        } else {
            PointerStyle::Arrow
        }),
{
    if mode == PresenterMode::Laser {
        PointerStyle::Hidden
    } else if inspector_open {
        PointerStyle::Arrow
    } else if over_clickable {
        PointerStyle::Hand
    } else if mode == PresenterMode::Pen {
        PointerStyle::Crosshair
    } else {
        PointerStyle::Arrow
    }
}

/// The dock's buttons, left to right.
pub open spec fn dock_order() -> Seq<DockAction> {
    seq![
        DockAction::Prev,
        DockAction::Next,
        DockAction::ModeNormal,
        DockAction::ModeLaser,
        DockAction::ModePen,
        DockAction::TogglePalette,
        DockAction::ClearInk,
        DockAction::ToggleMute,
        DockAction::ToggleFullscreen,
        DockAction::ToggleHelp,
    ]
}

/// The dock's buttons in the order they are laid out.
pub fn dock_actions() -> (r: Vec<DockAction>)
    ensures
        r@ == dock_order(),
{
    let r = vec![
        DockAction::Prev,
        DockAction::Next,
        DockAction::ModeNormal,
        DockAction::ModeLaser,
        DockAction::ModePen,
        DockAction::TogglePalette,
        DockAction::ClearInk,
        DockAction::ToggleMute,
        DockAction::ToggleFullscreen,
        DockAction::ToggleHelp,
    ];
    assert(r@ =~= dock_order());
    r
}

/// The fixed caption of a dock button; the full-screen button reads `WIN` in full screen and `FULL` otherwise.
pub open spec fn dock_caption(a: DockAction, is_fullscreen: bool) -> Seq<char> {
    match a {
        DockAction::Prev => "<"@,
        DockAction::Next => ">"@,
        DockAction::ModeNormal => "PTR"@,
        DockAction::ModeLaser => "LSR"@,
        DockAction::ModePen => "PEN"@,
        DockAction::TogglePalette => "COL"@,
        DockAction::ClearInk => "CLR"@,
        DockAction::ToggleMute => "VOL"@,
        DockAction::ToggleFullscreen => if is_fullscreen { "WIN"@ } else { "FULL"@ },
        DockAction::ToggleHelp => "?"@,
    }
}

/// The fixed caption of dock button `a`.
pub fn dock_caption_text(a: DockAction, is_fullscreen: bool) -> (r: &'static str)
    ensures
        r@ == dock_caption(a, is_fullscreen),
{
    proof {
        reveal_strlit("<");
        reveal_strlit(">");
        reveal_strlit("PTR");
        reveal_strlit("LSR");
        reveal_strlit("PEN");
        reveal_strlit("COL");
        reveal_strlit("CLR");
        reveal_strlit("VOL");
        reveal_strlit("WIN");
        reveal_strlit("FULL");
        reveal_strlit("?");
    }
    match a {
        DockAction::Prev => "<",
        DockAction::Next => ">",
        DockAction::ModeNormal => "PTR",
        DockAction::ModeLaser => "LSR",
        DockAction::ModePen => "PEN",
        DockAction::TogglePalette => "COL",
        DockAction::ClearInk => "CLR",
        DockAction::ToggleMute => "VOL",
        DockAction::ToggleFullscreen => if is_fullscreen { "WIN" } else { "FULL" },
        DockAction::ToggleHelp => "?",
    }
}

/// The button shows a state that is on: the current pointer mode, or the open palette.
pub open spec fn dock_active(a: DockAction, mode: PresenterMode, palette_open: bool) -> bool {
    match a {
        DockAction::ModeNormal => mode == PresenterMode::Normal,
        DockAction::ModeLaser => mode == PresenterMode::Laser,
        DockAction::ModePen => mode == PresenterMode::Pen,
        DockAction::TogglePalette => palette_open,
        _ => false,
    }
}

/// The label a dock button shows: the volume button reads `MUT` when muted and the volume (at most 100) with a
/// percent sign otherwise; the others show their caption.
pub open spec fn dock_label(a: DockAction, is_fullscreen: bool, is_muted: bool, volume: u32) -> Seq<char> {
    if a == DockAction::ToggleMute {
        if is_muted {
            "MUT"@
        } else {
            decimal_text((if volume < 100 { volume } else { 100 }) as nat) + "%"@
        }
    } else {
        dock_caption(a, is_fullscreen)
    }
}

/// The text colour of a dock button: white when active, the chosen ink colour on the palette button, light
/// blue when hovered, red on the muted volume button, else light grey.
pub open spec fn dock_text_color(
    a: DockAction,
    active: bool,
    hovered: bool,
    is_muted: bool,
    active_color: u32,
) -> u32 {
    if active {
        0xFFffffff
    } else if a == DockAction::TogglePalette {
        active_color
    } else if hovered {
        0xFF58a6ff
    } else if a == DockAction::ToggleMute && is_muted {
        0xFFf85149
    } else {
        0xFFc9d1d9
    }
}

/// How a dock button is drawn: its label, its text colour and the fill behind it (blue when active, grey when
/// hovered, none otherwise).
#[derive(Clone, Debug)]
pub struct DockButtonStyle {
    pub label: String,
    pub text_color: u32,
    pub fill: Option<u32>,
}

/// Works out how the dock button `a` is drawn in the given presenter state.
pub fn dock_button_style(
    a: DockAction,
    mode: PresenterMode,
    palette_open: bool,
    hovered: Option<DockAction>,
    is_muted: bool,
    volume: u32,
    active_color: u32,
    is_fullscreen: bool,
) -> (r: DockButtonStyle)
    ensures
        r.label@ == dock_label(a, is_fullscreen, is_muted, volume),
        r.text_color == dock_text_color(
            a,
            dock_active(a, mode, palette_open),
            hovered == Some(a),
            is_muted,
            active_color,
        ),
        r.fill == (if dock_active(a, mode, palette_open) {
            Some(0xFF1f6febu32)
        } else if hovered == Some(a) {
            Some(0xFF30363du32)
        } else {
            None
        }),
{
    let active = match a {
        DockAction::ModeNormal => mode == PresenterMode::Normal,
        DockAction::ModeLaser => mode == PresenterMode::Laser,
        DockAction::ModePen => mode == PresenterMode::Pen,
        DockAction::TogglePalette => palette_open,
        _ => false,
    };
    let is_hovered = match hovered {
        Some(h) => h == a,
        None => false,
    };
    let label = match a {
        DockAction::Prev => "<".to_string(),
        DockAction::Next => ">".to_string(),
        DockAction::ModeNormal => "PTR".to_string(),
        DockAction::ModeLaser => "LSR".to_string(),
        DockAction::ModePen => "PEN".to_string(),
        DockAction::TogglePalette => "COL".to_string(),
        DockAction::ClearInk => "CLR".to_string(),
        DockAction::ToggleMute => if is_muted {
            "MUT".to_string()
        } else {
            let shown = if volume < 100 { volume } else { 100 };
            let mut v = decimal_chars(shown as usize);
            append_chars(&mut v, &chars_of("%"));
            string_of(&v)
        },
        DockAction::ToggleFullscreen => if is_fullscreen { "WIN".to_string() } else { "FULL".to_string() },
        DockAction::ToggleHelp => "?".to_string(),
    };
    let text_color = if active {
        0xFFffffffu32
    } else if a == DockAction::TogglePalette {
        active_color
    } else if is_hovered {
        0xFF58a6ffu32
    } else if a == DockAction::ToggleMute && is_muted {
        0xFFf85149u32
    } else {
        0xFFc9d1d9u32
    };
    let fill = if active {
        Some(0xFF1f6febu32)
    } else if is_hovered {
        Some(0xFF30363du32)
    } else {
        None
    };
    DockButtonStyle { label, text_color, fill }
}

/// A key the presenter pressed, as far as the slide view (with the inspector closed) tells keys apart.
#[derive(Clone, Copy, Debug, PartialEq, Eq, Structural)]
pub enum PresenterKey {
    /// Right, Down, Space, Page Down or Enter.
    Next,
    /// Left, Up, Backspace or Page Up.
    Prev,
    Home,
    End,
    /// A digit key 1 to 9 (top row or keypad).
    Digit(u8),
    /// F11 or F.
    Fullscreen,
    /// L.
    Laser,
    /// P.
    Pen,
    /// K.
    Palette,
    /// C or X.
    ClearInk,
    /// `=` or keypad plus.
    VolumeUp,
    /// `-` or keypad minus.
    VolumeDown,
    /// M.
    Mute,
    Escape,
    /// H or `/`.
    Help,
    /// R.
    Reload,
    /// Any other key.
    Other,
}

/// The effect of a key on the tools and the requests it makes: digits pick a palette colour while the palette is
/// open (1 to 7) and otherwise jump to that slide; Escape leaves full screen, or else exits.
pub open spec fn key_spec(t: PresenterTools, k: PresenterKey, total_slides: int, is_fullscreen: bool) -> (
    PresenterTools,
    ToolRequests,
) {
    let n = no_requests();
    match k {
        PresenterKey::Next => (t, ToolRequests { forward: true, ..n }),
        PresenterKey::Prev => (t, ToolRequests { backward: true, ..n }),
        PresenterKey::Home => (t, ToolRequests { jump: Some(0), ..n }),
        PresenterKey::End => (t, ToolRequests { jump: Some((if total_slides > 0 { total_slides - 1 } else { 0 }) as usize), ..n }),
        PresenterKey::Digit(d) => if 1 <= d <= 9 {
            if t.palette_open && d <= 7 {
                (PresenterTools { active_color_idx: (d - 1) as usize, ..t }, n)
            } else {
                (t, ToolRequests { jump: Some((d - 1) as usize), ..n })
            }
        } else {
            (t, n)
        },
        PresenterKey::Fullscreen => (t, ToolRequests { toggle_fullscreen: true, ..n }),
        PresenterKey::Laser => (
            PresenterTools {
                mode: if t.mode == PresenterMode::Laser { PresenterMode::Normal } else { PresenterMode::Laser },
                ..t
            },
            n,
        ),
        PresenterKey::Pen => (
            PresenterTools {
                mode: if t.mode == PresenterMode::Pen { PresenterMode::Normal } else { PresenterMode::Pen },
                ..t
            },
            n,
        ),
        PresenterKey::Palette => (PresenterTools { palette_open: !t.palette_open, ..t }, n),
        PresenterKey::ClearInk => (t, ToolRequests { clear_ink: true, ..n }),
        PresenterKey::VolumeUp => (t, ToolRequests { volume_step: 1, ..n }),
        PresenterKey::VolumeDown => (t, ToolRequests { volume_step: -1i8, ..n }),
        PresenterKey::Mute => (t, ToolRequests { toggle_mute: true, ..n }),
        PresenterKey::Escape => if is_fullscreen {
            (t, ToolRequests { toggle_fullscreen: true, ..n })
        } else {
            (t, ToolRequests { exit: true, ..n })
        },
        PresenterKey::Help => (PresenterTools { show_help: !t.show_help, ..t }, n),
        PresenterKey::Reload => (t, ToolRequests { reload: true, ..n }),
        PresenterKey::Other => (t, n),
    }
}

/// Applies a key press in the slide view.
pub fn apply_key(t: PresenterTools, k: PresenterKey, total_slides: usize, is_fullscreen: bool) -> (r: (
    PresenterTools,
    ToolRequests,
))
    ensures
        r == key_spec(t, k, total_slides as int, is_fullscreen),
{
    let n = ToolRequests {
        forward: false,
        backward: false,
        jump: None,
        clear_ink: false,
        toggle_mute: false,
        volume_step: 0,
        toggle_fullscreen: false,
        exit: false,
        reload: false,
    };
    match k {
        PresenterKey::Next => (t, ToolRequests { forward: true, ..n }),
        PresenterKey::Prev => (t, ToolRequests { backward: true, ..n }),
        PresenterKey::Home => (t, ToolRequests { jump: Some(0), ..n }),
        PresenterKey::End => (
            t,
            ToolRequests { jump: Some(if total_slides > 0 { total_slides - 1 } else { 0 }), ..n },
        ),
        PresenterKey::Digit(d) => if 1 <= d && d <= 9 {
            if t.palette_open && d <= 7 {
                (PresenterTools { active_color_idx: (d - 1) as usize, ..t }, n)
            } else {
                (t, ToolRequests { jump: Some((d - 1) as usize), ..n })
            }
        } else {
            (t, n)
        },
        PresenterKey::Fullscreen => (t, ToolRequests { toggle_fullscreen: true, ..n }),
        PresenterKey::Laser => (
            PresenterTools {
                mode: if t.mode == PresenterMode::Laser { PresenterMode::Normal } else { PresenterMode::Laser },
                ..t
            },
            n,
        ),
        PresenterKey::Pen => (
            PresenterTools {
                mode: if t.mode == PresenterMode::Pen { PresenterMode::Normal } else { PresenterMode::Pen },
                ..t
            },
            n,
        ),
        PresenterKey::Palette => (PresenterTools { palette_open: !t.palette_open, ..t }, n),
        PresenterKey::ClearInk => (t, ToolRequests { clear_ink: true, ..n }),
        PresenterKey::VolumeUp => (t, ToolRequests { volume_step: 1, ..n }),
        PresenterKey::VolumeDown => (t, ToolRequests { volume_step: -1, ..n }),
        PresenterKey::Mute => (t, ToolRequests { toggle_mute: true, ..n }),
        PresenterKey::Escape => if is_fullscreen {
            (t, ToolRequests { toggle_fullscreen: true, ..n })
        } else {
            (t, ToolRequests { exit: true, ..n })
        },
        PresenterKey::Help => (PresenterTools { show_help: !t.show_help, ..t }, n),
        PresenterKey::Reload => (t, ToolRequests { reload: true, ..n }),
        PresenterKey::Other => (t, n),
    }
}

/// Pressing a tool's key twice (laser, pen, palette or help) leaves the tools as they were, when the pointer
/// was in the normal mode or in the toggled tool's own mode.
pub proof fn lemma_toggle_key_twice(t: PresenterTools, k: PresenterKey, total_slides: int, is_fullscreen: bool)
    requires
        k == PresenterKey::Laser ==> t.mode != PresenterMode::Pen,
        k == PresenterKey::Pen ==> t.mode != PresenterMode::Laser,
        k == PresenterKey::Laser || k == PresenterKey::Pen || k == PresenterKey::Palette || k == PresenterKey::Help,
    ensures
        key_spec(key_spec(t, k, total_slides, is_fullscreen).0, k, total_slides, is_fullscreen).0 == t,
{
}

/// Whether the volume slider pop-up is open, and whether the thumb is still being dragged, after a frame: the
/// palette or the inspector close it; dragging or hovering the volume button opens it; leaving the hover zone
/// closes it.
pub fn update_volume_slider(
    open: bool,
    dragging: bool,
    palette_open: bool,
    inspector_open: bool,
    button_hovered: bool,
    zone_hovered: bool,
) -> (r: (bool, bool))
    ensures
        r == (if palette_open || inspector_open {
            (false, false)
        } else if dragging || button_hovered {
            (true, dragging)
        } else if open && !zone_hovered {
            (false, dragging)
        } else {
            (open, dragging)
        }),
{
    if palette_open || inspector_open {
        (false, false)
    } else if dragging || button_hovered {
        (true, dragging)
    } else if open && !zone_hovered {
        (false, dragging)
    } else {
        (open, dragging)
    }
}

/// What a left click on the slide view goes to.
#[derive(Clone, Copy, Debug, PartialEq, Eq, Structural)]
pub enum ClickTarget {
    /// The open chart inspector takes the click.
    Inspector,
    /// A palette colour is picked.
    PaletteColor(usize),
    /// A dock button is pressed.
    Dock(DockAction),
    /// The volume slider is grabbed.
    VolumeSlider,
    /// The hovered hotspot is activated.
    Hotspot(usize),
    /// The click advances the presentation.
    Advance,
    /// The pen draws; the click itself does nothing more.
    Nothing,
}

/// Where a left click goes: the inspector first, then the palette, the dock and the volume slider; in the
/// pointer and laser modes a hovered hotspot, else the click steps forward.
pub fn route_click(
    inspector_open: bool,
    palette_hit: Option<usize>,
    dock_hit: Option<DockAction>,
    in_volume_slider: bool,
    mode: PresenterMode,
    hotspot_hit: Option<usize>,
) -> (r: ClickTarget)
    ensures
        r == (if inspector_open {
            ClickTarget::Inspector
        } else if palette_hit is Some {
            ClickTarget::PaletteColor(palette_hit->0)
        } else if dock_hit is Some {
            ClickTarget::Dock(dock_hit->0)
        } else if in_volume_slider {
            ClickTarget::VolumeSlider
        } else if mode != PresenterMode::Pen {
            if hotspot_hit is Some {
                ClickTarget::Hotspot(hotspot_hit->0)
            } else {
                ClickTarget::Advance
            }
        } else {
            ClickTarget::Nothing
        }),
{
    if inspector_open {
        ClickTarget::Inspector
    } else if let Some(i) = palette_hit {
        ClickTarget::PaletteColor(i)
    } else if let Some(a) = dock_hit {
        ClickTarget::Dock(a)
    } else if in_volume_slider {
        ClickTarget::VolumeSlider
    } else if mode != PresenterMode::Pen {
        match hotspot_hit {
            Some(h) => ClickTarget::Hotspot(h),
            None => ClickTarget::Advance,
        }
    } else {
        ClickTarget::Nothing
    }
}

} // verus!
