use cargo_slide::svg::sanitize_svg;

#[test]
fn test_sanitize_svg_unescaped_entities() {
    let input = r#"<svg><a href="chart:type=line&source=data.csv&query=SELECT * FROM data">Link</a></svg>"#;
    let sanitized = sanitize_svg(input);
    assert!(sanitized.contains("&amp;source="));
    assert!(sanitized.contains("&amp;query="));
    let doc = roxmltree::Document::parse(&sanitized);
    assert!(doc.is_ok());
}

#[test]
fn test_sanitize_svg_already_escaped_entities() {
    let input = r#"<svg><text>Rust &amp; Typst &lt;rocks&gt; &#160; &#x20;</text></svg>"#;
    let sanitized = sanitize_svg(input);
    assert_eq!(sanitized, input);
}

#[test]
fn test_sanitize_svg_nbsp_handling() {
    let input = r#"<svg><text>Item 1&nbsp;Item 2</text></svg>"#;
    let sanitized = sanitize_svg(input);
    assert_eq!(sanitized, r#"<svg><text>Item 1&#160;Item 2</text></svg>"#);
    let doc = roxmltree::Document::parse(&sanitized);
    assert!(doc.is_ok());
}

#[test]
fn test_sanitize_svg_idempotency() {
    let input = r#"<svg><a href="https://example.com?a=1&b=2&c=3">Test</a></svg>"#;
    let pass1 = sanitize_svg(input);
    let pass2 = sanitize_svg(&pass1);
    assert_eq!(pass1, pass2);
    assert!(pass1.contains("&amp;b=2"));
    assert!(pass1.contains("&amp;c=3"));
}

#[test]
fn sanitize_keeps_unicode_named_entity_escaped() {
    // A non-ASCII alphanumeric entity name is not a known entity, so its ampersand is escaped.
    assert_eq!(sanitize_svg("a&é;b"), "a&amp;é;b");
    // An entity name longer than ten bytes is not an entity at all.
    assert_eq!(sanitize_svg("&abcdefghijk;"), "&amp;abcdefghijk;");
    assert_eq!(sanitize_svg("&#;"), "&amp;#;");
    assert_eq!(sanitize_svg("&#38;"), "&#38;");
}
