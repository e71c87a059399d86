use mdpdf::assets::{image_extension, plan_image, resolve_image_path, AssetRegistry, ImageContext};
use mdpdf::calendar::epoch_days_to_ymd;
use mdpdf::cli::{
    combine_documents, combined_output_path, config_start_dir, render_band, default_output_path, file_base_dir, output_needs_combine, page_paper,
    setting,
};
use mdpdf::compile::{asset_key, compile_failure, export_failure, typst_source, CompileOptions};
use mdpdf::config::{
    Band, Zone, config_dir, config_sources, find_project_config, project_config_candidates, user_config_path,
};
use mdpdf::convert::{
    block_fence_length, convert_events, inline_fence_length, longest_backtick_run,
    markdown_to_typst, Converter,
};
use mdpdf::events::{markdown_events, MdEvent, MdTag, MdTagEnd};
use mdpdf::text::{escape_typst, escape_typst_string};

fn strings(v: &[&str]) -> Vec<String> {
    v.iter().map(|s| s.to_string()).collect()
}

fn context(base: Option<&str>, home: Option<&str>, files: &[&str]) -> ImageContext {
    ImageContext {
        base: base.map(|b| b.to_string()),
        home: home.map(|h| h.to_string()),
        existing_files: strings(files),
    }
}

// --- escaping -------------------------------------------------------------

#[test]
fn markup_escape_prefixes_each_special_character() {
    assert_eq!(escape_typst("a*b_c"), "a\\*b\\_c");
    assert_eq!(escape_typst("#x[y]"), "\\#x\\[y\\]");
    assert_eq!(escape_typst("$1 < 2 @me ~ `q` \\"), "\\$1 \\< 2 \\@me \\~ \\`q\\` \\\\");
    assert_eq!(escape_typst("plain text"), "plain text");
}

#[test]
fn string_escape_handles_quotes_and_backslashes() {
    assert_eq!(escape_typst_string("say \"hi\" \\"), "say \\\"hi\\\" \\\\");
    assert_eq!(escape_typst_string("plain"), "plain");
}

// --- code fences ----------------------------------------------------------

#[test]
fn fences_outlast_backtick_runs() {
    let code: Vec<char> = "a``b`".chars().collect();
    assert_eq!(longest_backtick_run(&code), 2);
    assert_eq!(inline_fence_length(&code), 3);
    assert_eq!(block_fence_length(&code), 3);
    let long: Vec<char> = "x````y".chars().collect();
    assert_eq!(longest_backtick_run(&long), 4);
    assert_eq!(inline_fence_length(&long), 5);
    assert_eq!(block_fence_length(&long), 5);
    let none: Vec<char> = "xy".chars().collect();
    assert_eq!(inline_fence_length(&none), 1);
    assert_eq!(block_fence_length(&none), 3);
}

#[test]
fn code_block_fence_grows_past_embedded_fence() {
    let result = markdown_to_typst("````\na\n```\nb\n````");
    assert!(result.contains("````\na\n```\nb\n````\n"));
}

// --- the event stream and the converter -----------------------------------

#[test]
fn parsed_paragraph_is_three_events() {
    let events = markdown_events("hello");
    assert_eq!(events.len(), 3);
    assert!(matches!(events[0], MdEvent::Start(MdTag::Paragraph)));
    assert!(matches!(&events[1], MdEvent::Text(t) if t == "hello"));
    assert!(matches!(events[2], MdEvent::End(MdTagEnd::Paragraph)));
}

#[test]
fn converting_constructed_events() {
    let events = vec![
        MdEvent::Start(MdTag::Paragraph),
        MdEvent::Text("a*".to_string()),
        MdEvent::End(MdTagEnd::Paragraph),
    ];
    let ctx = context(None, None, &[]);
    let mut registry = AssetRegistry::new();
    assert_eq!(convert_events(events, &ctx, &mut registry), "a\\*\n");
}

#[test]
fn converter_tracks_block_quote_depth() {
    let ctx = context(None, None, &[]);
    let mut registry = AssetRegistry::new();
    let mut c = Converter::new();
    assert_eq!(c.block_quote_depth(), 0);
    c.start_tag(MdTag::BlockQuote, &ctx, &mut registry);
    c.start_tag(MdTag::BlockQuote, &ctx, &mut registry);
    assert_eq!(c.block_quote_depth(), 2);
    c.text("q");
    c.end_tag(MdTagEnd::BlockQuote);
    assert_eq!(c.block_quote_depth(), 1);
    c.end_tag(MdTagEnd::BlockQuote);
    assert_eq!(c.block_quote_depth(), 0);
    assert_eq!(
        c.output(),
        "#block(inset: (left: 12pt), stroke: (left: 2pt + luma(180)))[q]\n"
    );
}

#[test]
fn block_quote_becomes_a_block() {
    assert_eq!(
        markdown_to_typst("> quoted text"),
        "#block(inset: (left: 12pt), stroke: (left: 2pt + luma(180)))[quoted text]\n"
    );
}

#[test]
fn nested_block_quote_is_one_block() {
    let result = markdown_to_typst("> outer\n>\n> > inner");
    assert_eq!(result.matches("#block(").count(), 1);
    assert!(result.contains("outer"));
    assert!(result.contains("inner"));
}

#[test]
fn hard_break_becomes_backslash_newline() {
    assert_eq!(markdown_to_typst("a  \nb"), "a \\\nb\n");
}

#[test]
fn soft_break_stays_a_newline() {
    assert_eq!(markdown_to_typst("a\nb"), "a\nb\n");
}

#[test]
fn rule_between_paragraphs() {
    assert_eq!(
        markdown_to_typst("a\n\n---\n\nb"),
        "a\n\n#line(length: 100%, stroke: 0.5pt + luma(180))\n\nb\n"
    );
}

#[test]
fn task_markers_follow_item_markers() {
    let result = markdown_to_typst("- [x] done\n- [ ] todo");
    assert!(result.contains("- #check-done done\n"));
    assert!(result.contains("- #check-todo todo\n"));
}

#[test]
fn paragraphs_are_separated_by_a_blank_line() {
    assert_eq!(markdown_to_typst("one\n\ntwo"), "one\n\ntwo\n");
}

#[test]
fn heading_levels_map_to_equals_signs() {
    assert_eq!(markdown_to_typst("### Three"), "=== Three\n");
    assert_eq!(markdown_to_typst("###### Six"), "====== Six\n");
}

#[test]
fn table_alignment_is_listed_per_column() {
    let result = markdown_to_typst("| a | b | c |\n|:--|:-:|--:|\n| 1 | 2 | 3 |");
    assert!(result.contains("align: (left, center, right)"));
    assert!(result.contains("  [1],\n  [2],\n  [3],\n"));
    assert!(result.ends_with(")\n"));
}

#[test]
fn image_in_block_quote_registers_asset() {
    let ctx = context(Some("/doc"), None, &["/doc/a.png"]);
    let mut registry = AssetRegistry::new();
    let out = mdpdf::convert::markdown_to_typst_with_assets("> ![](a.png)", &ctx, &mut registry);
    assert!(out.contains("[#image(\"/assets/0.png\")]"));
    assert_eq!(registry.assets().len(), 1);
}

// --- image paths ----------------------------------------------------------

#[test]
fn image_plan_errors() {
    assert_eq!(plan_image("", None, None), Err("empty image path".to_string()));
    assert_eq!(plan_image("   ", None, None), Err("empty image path".to_string()));
    assert_eq!(
        plan_image("data:image/png;base64,AAAA", None, None),
        Err("data: URIs are not supported".to_string())
    );
    assert_eq!(
        plan_image("https://example.com/x.png", Some("/doc"), None),
        Err("remote images are not fetched: https://example.com/x.png".to_string())
    );
    assert_eq!(
        plan_image("~/pic.png", None, None),
        Err("cannot expand '~' in ~/pic.png: no home directory".to_string())
    );
    assert_eq!(
        plan_image("~/pic.png", None, Some("")),
        Err("cannot expand '~' in ~/pic.png: no home directory".to_string())
    );
}

#[test]
fn image_plan_paths() {
    assert_eq!(plan_image("~/pic.png", Some("/doc"), Some("/home/u")), Ok("/home/u/pic.png".to_string()));
    assert_eq!(plan_image("img/a.png", Some("/doc"), None), Ok("/doc/img/a.png".to_string()));
    assert_eq!(plan_image(" img/a.png ", Some("/doc"), None), Ok("/doc/img/a.png".to_string()));
    assert_eq!(plan_image("/abs/a.png", Some("/doc"), None), Ok("/abs/a.png".to_string()));
    assert_eq!(plan_image("a.png", None, None), Ok("a.png".to_string()));
}

#[test]
fn image_resolution_checks_existence() {
    let ctx = context(Some("/doc"), None, &["/doc/a.png"]);
    assert_eq!(resolve_image_path("a.png", &ctx), Ok("/doc/a.png".to_string()));
    assert_eq!(
        resolve_image_path("b.png", &ctx),
        Err("image not found: /doc/b.png".to_string())
    );
}

#[test]
fn image_extensions() {
    assert_eq!(image_extension("/d/LOGO.PNG"), Ok("png".to_string()));
    assert_eq!(image_extension("a.jpeg"), Ok("jpeg".to_string()));
    assert_eq!(image_extension("a.webp"), Ok("webp".to_string()));
    assert_eq!(image_extension("a"), Err("image has no file extension: a".to_string()));
    assert_eq!(image_extension(".png"), Err("image has no file extension: .png".to_string()));
    assert_eq!(
        image_extension("a.bmp"),
        Err("unsupported image format 'bmp' (a.bmp); supported: png, jpg, jpeg, gif, svg, webp"
            .to_string())
    );
}

#[test]
fn registry_gives_distinct_paths_and_reuses_files() {
    let mut r = AssetRegistry::new();
    assert_eq!(r.register("/x/a.png".to_string(), "png"), "/assets/0.png");
    assert_eq!(r.register("/x/b.jpg".to_string(), "jpg"), "/assets/1.jpg");
    assert_eq!(r.register("/x/a.png".to_string(), "png"), "/assets/0.png");
    assert_eq!(r.assets().len(), 2);
    assert_eq!(r.assets()[1].real_path, "/x/b.jpg");
    assert!(r.warnings().is_empty());
    r.warn("w".to_string());
    assert_eq!(r.warnings(), &["w".to_string()]);
}

// --- the command line -----------------------------------------------------

#[test]
fn settings_take_the_first_value_set() {
    assert_eq!(setting(Some(1), Some(2), 3), 1);
    assert_eq!(setting(None, Some(2), 3), 2);
    assert_eq!(setting(None, None, 3), 3);
}

#[test]
fn output_with_several_inputs_needs_combine() {
    assert!(output_needs_combine(true, 2, false));
    assert!(!output_needs_combine(true, 2, true));
    assert!(!output_needs_combine(false, 2, false));
    assert!(!output_needs_combine(true, 1, false));
}

#[test]
fn page_sizes() {
    assert_eq!(page_paper("A4"), ("a4".to_string(), None));
    assert_eq!(page_paper("Letter"), ("us-letter".to_string(), None));
    assert_eq!(page_paper("US-Letter"), ("us-letter".to_string(), None));
    assert_eq!(page_paper("Legal"), ("us-letter".to_string(), Some("legal".to_string())));
}

#[test]
fn default_output_paths() {
    assert_eq!(default_output_path("notes.md"), "notes.pdf");
    assert_eq!(default_output_path("dir/a.b.md"), "dir/a.b.pdf");
    assert_eq!(default_output_path("README"), "README.pdf");
    assert_eq!(default_output_path("-"), "output.pdf");
}

#[test]
fn base_directories() {
    assert_eq!(file_base_dir("docs/notes.md"), "docs");
    assert_eq!(file_base_dir("notes.md"), ".");
    assert_eq!(file_base_dir("/notes.md"), "/");
    assert_eq!(config_start_dir(&strings(&["-", "docs/a.md"])), "docs");
    assert_eq!(config_start_dir(&strings(&["-"])), ".");
    assert_eq!(config_start_dir(&strings(&[])), ".");
}

#[test]
fn combined_documents_are_separated_by_page_breaks() {
    assert_eq!(
        combine_documents(&strings(&["a\n", "b\n"])),
        "a\n\n#pagebreak(weak: true)\nb\n"
    );
    assert_eq!(combine_documents(&strings(&["only"])), "only");
    assert_eq!(combine_documents(&strings(&[])), "");
    assert_eq!(combined_output_path(None), "combined.pdf");
    assert_eq!(combined_output_path(Some("out.pdf".to_string())), "out.pdf");
}

#[test]
fn empty_band_renders_empty_zones() {
    let mut registry = AssetRegistry::new();
    let band: Band<f64> = Band::default();
    let z = render_band(&band, Some("T"), None, &strings(&[]), &mut registry, 8.0, 8.0);
    assert!(z.left.is_none() && z.center.is_none() && z.right.is_none());
    assert_eq!(z.image_height_mm, 0.0);
    assert_eq!(z.font_size, 0.0);
}

#[test]
fn band_zones_resolve_tokens_and_take_default_sizes() {
    let mut registry = AssetRegistry::new();
    let mut band: Band<f64> = Band::default();
    band.center = Some(Zone { markdown: "**{title}**".to_string(), base: "/cfg".to_string() });
    band.font_size_pt = Some(9.0);
    let z = render_band(&band, Some("T"), None, &strings(&[]), &mut registry, 8.0, 7.0);
    assert!(z.left.is_none() && z.right.is_none());
    assert!(z.center.unwrap().contains('T'));
    assert_eq!(z.image_height_mm, 8.0);
    assert_eq!(z.font_size, 9.0);
}

// --- configuration files --------------------------------------------------

#[test]
fn config_sources_in_precedence_order() {
    let all = config_sources(
        false,
        Some("u".to_string()),
        Some("p".to_string()),
        Some("e".to_string()),
    );
    let paths: Vec<&str> = all.iter().map(|s| s.path.as_str()).collect();
    let required: Vec<bool> = all.iter().map(|s| s.required).collect();
    assert_eq!(paths, vec!["u", "p", "e"]);
    assert_eq!(required, vec![false, false, true]);

    let named = config_sources(true, Some("u".to_string()), Some("p".to_string()), Some("e".to_string()));
    assert_eq!(named.len(), 1);
    assert_eq!(named[0].path, "e");
    assert!(named[0].required);

    assert!(config_sources(true, Some("u".to_string()), None, None).is_empty());
}

#[test]
fn config_directories() {
    assert_eq!(config_dir("/a/b/config.toml"), "/a/b");
    assert_eq!(config_dir("config.toml"), "");
    assert_eq!(config_dir("/"), ".");
}

#[test]
fn user_config_locations() {
    assert_eq!(
        user_config_path(false, None, Some("/x"), Some("/h")),
        Some("/x/mdpdf/config.toml".to_string())
    );
    assert_eq!(
        user_config_path(false, None, Some(""), Some("/h")),
        Some("/h/.config/mdpdf/config.toml".to_string())
    );
    assert_eq!(user_config_path(false, Some("/appdata"), None, None), None);
    assert_eq!(
        user_config_path(true, Some("/appdata"), Some("/x"), None),
        Some("/appdata/mdpdf/config.toml".to_string())
    );
    assert_eq!(user_config_path(true, None, Some("/x"), Some("/h")), None);
}

#[test]
fn project_config_search() {
    assert_eq!(
        project_config_candidates("/a/b"),
        strings(&["/a/b/.mdpdf.toml", "/a/.mdpdf.toml", "/.mdpdf.toml"])
    );
    assert_eq!(project_config_candidates("docs"), strings(&["docs/.mdpdf.toml", ".mdpdf.toml"]));
    assert_eq!(
        find_project_config("/a/b", &strings(&["/a/.mdpdf.toml"])),
        Some("/a/.mdpdf.toml".to_string())
    );
    assert_eq!(
        find_project_config("/a/b", &strings(&["/a/.mdpdf.toml", "/a/b/.mdpdf.toml"])),
        Some("/a/b/.mdpdf.toml".to_string())
    );
    assert_eq!(find_project_config("/a/b", &strings(&["/c/.mdpdf.toml"])), None);
}

// --- compilation ----------------------------------------------------------

#[test]
fn typst_source_is_preamble_then_body() {
    let options = CompileOptions::default();
    let source = typst_source("BODY", &options);
    assert!(source.starts_with("#set page(paper: \"us-letter\", margin: 25mm)\n"));
    assert!(source.contains("#set text(font: \"Inter\", size: 10pt, fill: luma(30))\n"));
    assert!(source.ends_with("\nBODY"));
}

#[test]
fn asset_keys_are_rootless() {
    assert_eq!(asset_key("/assets/0.png"), "assets/0.png");
    assert_eq!(asset_key("assets/1.svg"), "assets/1.svg");
}

#[test]
fn failure_reports() {
    assert_eq!(
        compile_failure(&strings(&["e1", "e2"])),
        "Typst compilation failed:\ne1\ne2"
    );
    assert_eq!(export_failure(&strings(&[])), "PDF export failed:\n");
}

// --- calendar -------------------------------------------------------------

#[test]
fn epoch_days_to_civil_dates() {
    assert_eq!(epoch_days_to_ymd(0), (1970, 1, 1));
    assert_eq!(epoch_days_to_ymd(-1), (1969, 12, 31));
    assert_eq!(epoch_days_to_ymd(11016), (2000, 2, 29));
    assert_eq!(epoch_days_to_ymd(19723), (2024, 1, 1));
    assert_eq!(epoch_days_to_ymd(-719468), (0, 3, 1));
}

#[test]
fn consecutive_day_counts_are_consecutive_dates() {
    assert_eq!(epoch_days_to_ymd(11016 + 1), (2000, 3, 1));
    assert_eq!(epoch_days_to_ymd(19722), (2023, 12, 31));
    assert_eq!(epoch_days_to_ymd(58), (1970, 2, 28));
    assert_eq!(epoch_days_to_ymd(59), (1970, 3, 1));
    assert_eq!(epoch_days_to_ymd(-365), (1969, 1, 1));
}
