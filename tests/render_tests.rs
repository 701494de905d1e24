use curio::render::{render_content, text_of_decoded};

#[test]
fn other_formats_pass_content_through() {
    assert_eq!(render_content("<p>Hi</p>", "raw"), Some("<p>Hi</p>".to_string()));
}

#[test]
fn text_format_strips_markup() {
    let shown = render_content("<p>Hello</p>", "text").unwrap();
    assert!(shown.contains("Hello"));
    assert!(!shown.contains("<p>"));
}

#[test]
fn entities_are_decoded_before_rendering() {
    let shown = render_content("&lt;p&gt;escaped&lt;/p&gt;", "text").unwrap();
    assert!(shown.contains("escaped"));
    assert!(!shown.contains("&lt;"));
    assert!(!shown.contains("<p>"));
    let direct = text_of_decoded("<p>escaped</p>").unwrap();
    assert_eq!(shown, direct);
}
