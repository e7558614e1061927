use cargo_slide::compile::{has_slide_marker, overflow_override};
use cargo_slide::display::{parse_framebuffer_size, parse_xrandr_resolution, whitespace_words};
use cargo_slide::text::trim_chars;
use cargo_slide::hrefs::href_payload_text;

#[test]
fn link_payloads() {
    assert_eq!(href_payload_text("step:2?effect=slide-up"), "2?effect=slide-up");
    assert_eq!(href_payload_text("#video:assets/demo.mp4"), "assets/demo.mp4");
    assert_eq!(href_payload_text("audio:theme.mp3?autoplay=1"), "theme.mp3?autoplay=1");
    assert_eq!(href_payload_text("chart:type=line&title=Load"), "type=line&title=Load");
    assert_eq!(href_payload_text("transition:fade"), "fade");
    assert_eq!(href_payload_text("#page=3"), "#page=3");
    assert_eq!(href_payload_text("https://example.com"), "https://example.com");
}

#[test]
fn slide_markers_in_pages() {
    assert!(has_slide_marker("<svg><a href=\"slide-meta:Intro\"/></svg>"));
    assert!(!has_slide_marker("<svg><a href=\"slide:Intro\"/></svg>"));
    assert!(!has_slide_marker(""));
}

#[test]
fn overflow_waiver_values() {
    assert!(overflow_override(Some("1")));
    assert!(overflow_override(Some("true")));
    assert!(overflow_override(Some("TRUE")));
    assert!(overflow_override(Some("True")));
    assert!(!overflow_override(Some("yes")));
    assert!(!overflow_override(Some("0")));
    assert!(!overflow_override(Some(" 1")));
    assert!(!overflow_override(None));
}

const XRANDR: &str = "Screen 0: minimum 8 x 8, current 4480 x 1440, maximum 32767 x 32767
HDMI-1 connected 1920x1080+0+0 (normal left inverted right x axis y axis) 527mm x 296mm
   1920x1080     60.00*+
DP-1 connected primary 2560x1440+1920+0 (normal left inverted right x axis y axis) 597mm x 336mm
   2560x1440     59.95*+
DP-2 disconnected (normal left inverted right x axis y axis)
";

#[test]
fn xrandr_prefers_the_primary_output() {
    assert_eq!(parse_xrandr_resolution(XRANDR), Some((2560, 1440)));
}

#[test]
fn xrandr_falls_back_to_the_first_connected_output() {
    let text = "eDP-1 connected 1366x768+0+0 (normal) 310mm x 174mm\nHDMI-1 connected 1920x1080+1366+0 (normal)\n";
    assert_eq!(parse_xrandr_resolution(text), Some((1366, 768)));
    assert_eq!(parse_xrandr_resolution("HDMI-1 disconnected 1920x1080+0+0\n"), None);
    assert_eq!(parse_xrandr_resolution("HDMI-1 connected (normal)\n"), None);
    assert_eq!(parse_xrandr_resolution(""), None);
    // A zero size is no size.
    assert_eq!(parse_xrandr_resolution("X connected 0x1080+0+0\n"), None);
}

#[test]
fn framebuffer_virtual_size() {
    assert_eq!(parse_framebuffer_size("1920,1080\n"), Some((1920, 1080)));
    assert_eq!(parse_framebuffer_size("  800,600  "), Some((800, 600)));
    assert_eq!(parse_framebuffer_size("1920x1080"), None);
    assert_eq!(parse_framebuffer_size("0,600"), None);
    assert_eq!(parse_framebuffer_size("1920, 1080"), None);
}

#[test]
fn whitespace_as_std_reads_it() {
    let all: Vec<char> = (0u32..0x3100).filter_map(char::from_u32).collect();
    for c in all {
        let text: Vec<char> = vec!['a', c, 'b'];
        let words: Vec<String> = whitespace_words(&text).into_iter().map(|w| w.into_iter().collect()).collect();
        let s: String = text.iter().collect();
        let expected: Vec<String> = s.split_whitespace().map(String::from).collect();
        assert_eq!(words, expected, "{:?}", c);
        let padded: Vec<char> = vec![c, 'x', c];
        let t: String = trim_chars(&padded).into_iter().collect();
        assert_eq!(t, padded.iter().collect::<String>().trim(), "{:?}", c);
    }
}
