use mdpdf::compile::{build_preamble, render_zones, substitute_tokens, CompileOptions, Zones};

fn zones(left: Option<&str>, center: Option<&str>) -> Zones<String> {
    Zones {
        left: left.map(String::from),
        center: center.map(String::from),
        right: None,
        image_height_mm: format!("{}", 8.0_f64),
        font_size: format!("{}", 8.0_f64),
    }
}

#[test]
fn page_tokens_become_typst_counters() {
    let result = substitute_tokens("{page} of {pages}", None);
    assert!(result.contains("#context counter(page).display()"));
    assert!(result.contains("#context counter(page).final().first()"));
}

#[test]
fn title_token_is_escaped() {
    // A title is document metadata a user controls; it must not be able to
    // introduce Typst markup through a header zone.
    let result = substitute_tokens("{title}", Some("#set page(width: 900cm)"));
    assert_eq!(result, "\\#set page(width: 900cm)");
}

#[test]
fn title_token_with_no_title_renders_empty() {
    assert_eq!(substitute_tokens("{title}", None), "");
}

#[test]
fn empty_band_emits_no_page_argument() {
    assert_eq!(render_zones("header", &Zones::default()), "");
}

#[test]
fn band_emits_three_columns_with_empty_cells_held() {
    // Every zone must emit a cell even when unset, or a lone right-hand
    // zone would slide into the left column.
    let rendered = render_zones("footer", &zones(None, Some("mid")));
    assert!(rendered.contains("footer: {"));
    assert!(rendered.contains("columns: (1fr, 1fr, 1fr)"));
    assert!(rendered.contains("[], [mid], [],"));
}

#[test]
fn band_constrains_image_height() {
    let rendered = render_zones("header", &zones(Some("#image(\"/assets/0.png\")"), None));
    assert!(rendered.contains("set image(height: 8mm)"));
}

#[test]
fn preamble_omits_bands_when_unconfigured() {
    let preamble = build_preamble(&CompileOptions::default());
    assert!(preamble.contains("#set page(paper: \"us-letter\", margin: 25mm)"));
    assert!(!preamble.contains("header:"));
    assert!(!preamble.contains("footer:"));
}

#[test]
fn preamble_includes_configured_band() {
    let options = CompileOptions {
        header: zones(Some("left bit"), None),
        ..CompileOptions::default()
    };
    let preamble = build_preamble(&options);
    assert!(preamble.contains("header: {"));
    assert!(preamble.contains("[left bit]"));
}

#[test]
fn document_title_quote_is_escaped() {
    let options = CompileOptions {
        title: Some("a \" b".to_string()),
        ..CompileOptions::default()
    };
    assert!(build_preamble(&options).contains("\\\""));
}
