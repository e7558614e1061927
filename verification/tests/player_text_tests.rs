use cargo_slide::colors::{palette_color, palette_name, parse_hex_color};
use cargo_slide::hud::truncate_text_to_width;
use cargo_slide::links::{classify_link, clean_local_path, link_chart_payload, normalize_windows_path, url_decode, LinkAction};

#[test]
fn test_url_decode() {
    assert_eq!(url_decode("hello%20world"), "hello world");
    assert_eq!(url_decode("path%2Fto%2Ffile.pdf"), "path/to/file.pdf");
    assert_eq!(url_decode("no_percent"), "no_percent");
    assert_eq!(url_decode("%E4%BD%A0%E5%A5%BD"), "你好");
    assert_eq!(url_decode("bad%"), "bad%");
    assert_eq!(url_decode("bad%2"), "bad%2");
    assert_eq!(url_decode("bad%ZZ"), "bad%ZZ");
}

#[test]
fn test_normalize_windows_path() {
    let p = "normal/path/file.txt";
    assert_eq!(normalize_windows_path(p, false), p);
    assert_eq!(normalize_windows_path(p, true), p);
}

#[test]
fn normalize_windows_path_strips_verbatim_prefixes() {
    assert_eq!(normalize_windows_path(r"\\?\C:\decks\a.pdf", true), r"C:\decks\a.pdf");
    assert_eq!(normalize_windows_path(r"\\?\UNC\server\share\a.pdf", true), r"\\server\share\a.pdf");
    assert_eq!(normalize_windows_path(r"\\?\C:\decks\a.pdf", false), r"\\?\C:\decks\a.pdf");
}

#[test]
fn url_decode_invalid_utf8_is_replaced() {
    assert_eq!(url_decode("%FF"), "\u{FFFD}");
    assert_eq!(url_decode("caf%C3%A9"), "café");
}

#[test]
fn test_truncate_text_to_width() {
    assert_eq!(truncate_text_to_width("Short", 100), "Short");
    assert_eq!(
        truncate_text_to_width("A very long category name exceeding max width", 70),
        "A very ..."
    );
    assert_eq!(truncate_text_to_width("Tiny", 14), "Ti");
    assert_eq!(truncate_text_to_width("Zero", 0), "");
    assert_eq!(truncate_text_to_width("ExactFit", 8 * 7), "ExactFit");
}

#[test]
fn hex_colors_parse_like_from_str_radix() {
    assert_eq!(parse_hex_color("#FF0000"), 0xFFFF0000);
    assert_eq!(parse_hex_color("00ff00"), 0xFF00FF00);
    assert_eq!(parse_hex_color("##abc"), 0xFF000ABC);
    assert_eq!(parse_hex_color("#80102030"), 0x80102030);
    assert_eq!(parse_hex_color("+123456"), 0x00123456);
    assert_eq!(parse_hex_color("#xyz"), 0xFF58A6FF);
    assert_eq!(parse_hex_color(""), 0xFF58A6FF);
    assert_eq!(parse_hex_color("#123456789"), 0xFF58A6FF);
}

#[test]
fn palette_entries() {
    assert_eq!(palette_color(0), 0xFF00E5FF);
    assert_eq!(palette_color(1), 0xFFFF3366);
    assert_eq!(palette_color(6), 0xFFFF9100);
    assert_eq!(palette_name(0), "Cyan");
    assert_eq!(palette_name(5), "White");
}

#[test]
fn link_clicks_are_classified() {
    assert_eq!(classify_link("https://rust-lang.org", 5, 0), LinkAction::OpenExternal);
    assert_eq!(classify_link("mailto:someone@example.com", 5, 0), LinkAction::OpenExternal);
    assert_eq!(classify_link("#page=3", 5, 0), LinkAction::JumpTo(2));
    assert_eq!(classify_link("#slide=+2", 5, 0), LinkAction::JumpTo(1));
    assert_eq!(classify_link("#4", 5, 0), LinkAction::JumpTo(3));
    assert_eq!(classify_link("#page=1", 5, 0), LinkAction::Ignore);
    assert_eq!(classify_link("#page=9", 5, 0), LinkAction::Ignore);
    assert_eq!(classify_link("#page=x", 5, 0), LinkAction::Ignore);
    assert_eq!(classify_link("#chart:type=bar", 5, 0), LinkAction::OpenChart);
    assert_eq!(classify_link("video:clip.mp4", 5, 0), LinkAction::Ignore);
    assert_eq!(classify_link("#step:2", 5, 0), LinkAction::Ignore);
    assert_eq!(classify_link("file://docs/a.pdf", 5, 0), LinkAction::OpenLocal);
    assert_eq!(classify_link("docs/a.pdf", 5, 0), LinkAction::OpenLocal);
    assert_eq!(link_chart_payload("#chart:type=pie&title=A").as_deref(), Some("type=pie&title=A"));
    assert_eq!(link_chart_payload("https://x"), None);
}

#[test]
fn local_link_paths_are_cleaned() {
    assert_eq!(clean_local_path("file:///C:/Decks/My%20Talk.pdf"), "C:/Decks/My Talk.pdf");
    assert_eq!(clean_local_path("file://README.md"), "README.md");
    assert_eq!(clean_local_path("/home/me/a%2Bb.txt"), "/home/me/a+b.txt");
}

#[test]
fn url_decode_round_trip() {
    for text in ["a b/c?d=é&x", "你好, world", ""] {
        let upper: String = text.bytes().map(|b| format!("%{:02X}", b)).collect();
        let lower: String = text.bytes().map(|b| format!("%{:02x}", b)).collect();
        assert_eq!(url_decode(&upper), text);
        assert_eq!(url_decode(&lower), text);
    }
    assert_eq!(url_decode("%2f"), "/");
}
