use mdpdf::assets::{AssetRegistry, ImageContext};
use mdpdf::convert::{image_candidates, markdown_to_typst, markdown_to_typst_with_assets};

#[test]
fn test_heading() {
    let result = markdown_to_typst("# Hello World");
    assert!(result.contains("= Hello World"));
}

#[test]
fn test_bold_italic() {
    let result = markdown_to_typst("**bold** and *italic*");
    assert!(result.contains("*bold*"));
    assert!(result.contains("_italic_"));
}

#[test]
fn test_code_block() {
    let result = markdown_to_typst("```rust\nfn main() {}\n```");
    assert!(result.contains("```rust"));
    assert!(result.contains("fn main() {}"));
}

#[test]
fn test_unordered_list() {
    let result = markdown_to_typst("- one\n- two\n- three");
    assert!(result.contains("- one\n"));
    assert!(result.contains("- two\n"));
    assert!(result.contains("- three\n"));
}

#[test]
fn test_ordered_list() {
    let result = markdown_to_typst("1. first\n2. second\n3. third");
    assert!(result.contains("+ first\n"));
    assert!(result.contains("+ second\n"));
}

#[test]
fn test_nested_list() {
    let result = markdown_to_typst("- one\n  - nested\n- two");
    assert!(result.contains("- one\n"));
    assert!(result.contains("  - nested\n"));
    assert!(result.contains("- two\n"));
}

#[test]
fn test_link() {
    let result = markdown_to_typst("[click here](https://example.com)");
    assert!(result.contains("#link(\"https://example.com\")[click here]"));
}

#[test]
fn test_escape_special_chars() {
    let result = markdown_to_typst("price is $10 and 5 < 10");
    assert!(result.contains("\\$10"));
    assert!(result.contains("\\<"));
}

#[test]
fn test_table() {
    let md = "| A | B |\n|---|---|\n| 1 | 2 |";
    let result = markdown_to_typst(md);
    assert!(result.contains("#table("));
    assert!(result.contains("columns: 2"));
    assert!(result.contains("table.header([*A*], [*B*])"));
}

#[test]
fn test_task_list() {
    let md = "- [x] done\n- [ ] todo";
    let result = markdown_to_typst(md);
    assert!(result.contains("#check-done"));
    assert!(result.contains("#check-todo"));
}

#[test]
fn test_escape_brackets_in_text() {
    // Bare [ and ] in body text must be escaped so they cannot terminate
    // a surrounding Typst content block.
    let result = markdown_to_typst("an array like [1, 2, 3] here");
    assert!(result.contains("\\["));
    assert!(result.contains("\\]"));
}

#[test]
fn test_strikethrough_bracket_injection_blocked() {
    // Without escaping, the inner ] would close the #strike[...] block
    // and let "#text(fill: red)[evil]" run as Typst markup.
    let result = markdown_to_typst("~~foo ] #text(fill: red)[evil~~");
    assert!(result.contains("#strike["));
    assert!(!result.contains("] #text(fill: red)["));
    assert!(result.contains("\\]"));
    // The injected '#' must also be escaped.
    assert!(result.contains("\\#text"));
}

#[test]
fn test_table_cell_bracket_injection_blocked() {
    let md = "| A | B |\n|---|---|\n| ] #evil[ | x |";
    let result = markdown_to_typst(md);
    assert!(result.contains("\\]"));
    assert!(result.contains("\\#evil"));
}

#[test]
fn test_heading_typst_injection_blocked() {
    // A '#' in heading text must be escaped so it cannot trigger Typst
    // function calls.
    let result = markdown_to_typst("# #set page(width: 10000cm)");
    assert!(result.contains("\\#set"));
    assert!(!result.contains("= #set page"));
}

#[test]
fn test_heading_dollar_injection_blocked() {
    let result = markdown_to_typst("# price $x$");
    assert!(result.contains("\\$x\\$"));
}

#[test]
fn test_code_block_with_embedded_triple_backticks() {
    // The inner ``` must not terminate the outer raw block: the fence grows
    // to one more than the longest inner backtick run.
    let md = "````\nlet s = \"```\";\n````";
    let result = markdown_to_typst(md);
    assert!(result.contains("````"));
    assert!(result.contains("let s = \"```\";"));
}

#[test]
fn test_inline_code_plain_stays_single_backtick() {
    // Typst only reads a language tag for raw with 3+ backticks, so simple
    // inline code must stay single-backtick.
    let result = markdown_to_typst("use `let x = 5` here");
    assert!(result.contains("`let x = 5`"));
    assert!(!result.contains("```let"));
}

#[test]
fn test_inline_code_with_backticks() {
    // Inline code containing a backtick must use a longer fence and pad so
    // the boundary backtick isn't consumed by the fence.
    let result = markdown_to_typst("use `` ` `` as a quote");
    assert!(result.contains("`` ` ``"));
}

#[test]
fn test_link_url_quote_is_escaped() {
    let result = markdown_to_typst("[x](https://e.com/\"a)");
    assert!(result.contains("\\\""));
}

/// The files of a fixture directory, as the converter is told they exist.
fn fixture(dir: &str, files: &[&str]) -> Vec<String> {
    files.iter().map(|f| format!("{}/{}", dir, f)).collect()
}

fn convert_in(dir: &str, files: &[&str], markdown: &str) -> (String, AssetRegistry) {
    let mut registry = AssetRegistry::new();
    let ctx = ImageContext {
        base: Some(dir.to_string()),
        home: None,
        existing_files: fixture(dir, files),
    };
    let markup = markdown_to_typst_with_assets(markdown, &ctx, &mut registry);
    (markup, registry)
}

#[test]
fn test_image_resolves_to_virtual_path() {
    let dir = "/tmp/mdpdf-convert-resolves";
    let (result, registry) = convert_in(dir, &["logo.png"], "![ACME logo](logo.png)");

    assert!(result.contains("#image(\"/assets/0.png\", alt: \"ACME logo\")"));
    assert_eq!(registry.assets().len(), 1);
    assert_eq!(registry.assets()[0].real_path, format!("{}/logo.png", dir));
    assert!(registry.warnings().is_empty());
}

#[test]
fn test_image_alt_text_is_not_also_emitted_as_body_text() {
    // Alt text belongs in the alt: attribute; leaking it into the document
    // would print the caption next to the image.
    let (result, _) = convert_in("/tmp/mdpdf-convert-alt-once", &["logo.png"], "![only once](logo.png)");
    assert_eq!(result.matches("only once").count(), 1);
}

#[test]
fn test_repeated_image_registers_once() {
    let (result, registry) =
        convert_in("/tmp/mdpdf-convert-dedup", &["logo.png"], "![a](logo.png)\n\n![b](logo.png)");
    assert_eq!(registry.assets().len(), 1);
    assert_eq!(result.matches("/assets/0.png").count(), 2);
}

#[test]
fn test_remote_image_is_refused_not_fetched() {
    let (result, registry) =
        convert_in("/tmp/mdpdf-convert-remote", &[], "![banner](https://example.com/x.png)");

    assert!(registry.assets().is_empty());
    assert!(registry.warnings()[0].contains("remote images are not fetched"));
    // Falls back to the alt text so the document still reads sensibly.
    assert!(result.contains("banner"));
    assert!(!result.contains("#image("));
}

#[test]
fn test_missing_image_warns_and_falls_back_to_alt() {
    let (result, registry) = convert_in("/tmp/mdpdf-convert-missing", &[], "![the chart](nope.png)");

    assert!(registry.assets().is_empty());
    assert!(registry.warnings()[0].contains("image not found"));
    assert!(result.contains("the chart"));
}

#[test]
fn test_unsupported_image_format_warns() {
    let (_, registry) =
        convert_in("/tmp/mdpdf-convert-unsupported", &["diagram.bmp"], "![d](diagram.bmp)");
    assert!(registry.warnings()[0].contains("unsupported image format 'bmp'"));
}

#[test]
fn test_image_alt_text_cannot_inject_typst() {
    // Alt text reaches a Typst string literal, so a quote must be escaped
    // rather than closing the argument.
    let (result, _) =
        convert_in("/tmp/mdpdf-convert-alt-inject", &["logo.png"], "![a\") + evil(\"](logo.png)");
    assert!(result.contains("\\\""));
    assert!(!result.contains("\") + evil(\""));
}

#[test]
fn test_unresolved_image_alt_text_is_escaped() {
    // The fallback path writes alt text as body content, so it needs the
    // same escaping as any other text.
    let (result, _) =
        convert_in("/tmp/mdpdf-convert-alt-escape", &[], "![#set page(width: 900cm)](nope.png)");
    assert!(result.contains("\\#set"));
}

#[test]
fn image_candidates_are_resolved_against_the_base() {
    let found = image_candidates(
        "![a](logo.png) ![b](https://x.org/y.png) ![c](/abs/c.svg) ![d](~/pics/d.gif)",
        Some("/docs"),
        Some("/home/me"),
    );
    assert_eq!(found, vec!["/docs/logo.png", "/abs/c.svg", "/home/me/pics/d.gif"]);
}

#[test]
fn body_tokens_are_left_alone() {
    // Tokens are only substituted in bands: body text keeps them literally.
    let result = markdown_to_typst("page {page} of {pages}");
    assert!(result.contains("{page}"));
    assert!(!result.contains("counter(page)"));
}
