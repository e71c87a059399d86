//! The decisions of the command-line program: which settings win, where
//! outputs and configuration are looked for, and how a configured band
//! becomes Typst zones.
use vstd::prelude::*;
use crate::text::{join, join_strings, lowered, str_eq, string_views, to_lowercase};
use crate::paths::{parent_of, path_parent, path_with_extension, with_extension_of};
use crate::assets::{AssetRegistry, ImageContext, ImageContextView, RegistryView};
use crate::events::markdown_events_spec;
use crate::convert::{markdown_to_typst_with_assets, render_spec};
use crate::compile::{substitute_tokens, substitute_tokens_spec, Zones};
use crate::config::{Band, Zone, ZoneView, zone_opt_view};

verus! {

/// A command-line value wins over a configured one, which wins over the
/// built-in default.
pub open spec fn first_set<T>(cli: Option<T>, config: Option<T>, default: T) -> T {
    match cli {
        Some(v) => v,
        None => match config {
            Some(v) => v,
            None => default,
        },
    }
}

/// The value of a setting (see `first_set`).
pub fn setting<T>(cli: Option<T>, config: Option<T>, default: T) -> (r: T)
    ensures
        r == first_set(cli, config, default),
{
    match cli {
        Some(v) => v,
        None => match config {
            Some(v) => v,
            None => default,
        },
    }
}

/// An output path with several inputs is only meaningful when they are
/// combined into one document.
pub fn output_needs_combine(has_output: bool, inputs: usize, combine: bool) -> (r: bool)
    ensures
        r == (has_output && inputs > 1 && !combine),
{
    has_output && inputs > 1 && !combine
}

/// The paper a page size names: `us-letter` for `letter` or `us-letter`,
/// `a4` for `a4`, in any case; anything else is reported and US letter is
/// used.
pub open spec fn paper_spec(size: Seq<char>) -> (Seq<char>, Option<Seq<char>>) {
    let l = lowered(size);
    if l == "letter"@ || l == "us-letter"@ {
        ("us-letter"@, None)
    } else if l == "a4"@ {
        ("a4"@, None)
    } else {
        ("us-letter"@, Some(l))
    }
}

/// The Typst paper for a page size, and the unknown size to report where it
/// names none (see `paper_spec`).
pub fn page_paper(size: &str) -> (r: (String, Option<String>))
    ensures
        (r.0@, match r.1 {
            Some(u) => Some(u@),
            None => None,
        }) == paper_spec(size@),
{
    let l = to_lowercase(size);
    if str_eq(l.as_str(), "letter") || str_eq(l.as_str(), "us-letter") {
        (String::from_str("us-letter"), None)
    } else if str_eq(l.as_str(), "a4") {
        (String::from_str("a4"), None)
    } else {
        (String::from_str("us-letter"), Some(l))
    }
}

/// Where the PDF of one input goes by default: the input with a `pdf`
/// extension, or `output.pdf` for standard input.
pub fn default_output_path(input: &str) -> (r: String)
    ensures
        r@ == if input@ == "-"@ {
            "output.pdf"@
        } else {
            with_extension_of(input@, "pdf"@)
        },
{
    if str_eq(input, "-") {
        String::from_str("output.pdf")
    } else {
        proof {
            reveal_strlit("pdf");
            assert(!"pdf"@.contains('/') && !"pdf"@.contains('\\')) by {
                assert("pdf"@[0] != '/' && "pdf"@[1] != '/' && "pdf"@[2] != '/');
                assert("pdf"@[0] != '\\' && "pdf"@[1] != '\\' && "pdf"@[2] != '\\');
            }
        }
        path_with_extension(input, "pdf")
    }
}

/// What separates two documents combined into one PDF: a page break that
/// adds no blank page.
pub open spec fn document_separator() -> Seq<char> {
    "\n#pagebreak(weak: true)\n"@
}

/// The Typst markup of several documents combined into one, each starting on
/// a new page.
pub fn combine_documents(parts: &Vec<String>) -> (r: String)
    ensures
        r@ == join(string_views(parts@), document_separator()),
{
    join_strings(parts, "\n#pagebreak(weak: true)\n")
}

/// Where a combined PDF goes: the given output, or `combined.pdf`.
pub fn combined_output_path(output: Option<String>) -> (r: String)
    ensures
        r@ == match output {
            Some(o) => o@,
            None => "combined.pdf"@,
        },
{
    match output {
        Some(o) => o,
        None => String::from_str("combined.pdf"),
    }
}

/// The directory images in a Markdown file resolve against: the file's
/// directory, or `.` where the file name has none.
pub open spec fn file_dir_spec(input: Seq<char>) -> Seq<char> {
    match parent_of(input) {
        Some(p) => if p.len() == 0 {
            "."@
        } else {
            p
        },
        None => "."@,
    }
}

/// The directory a Markdown file's images resolve against (see
/// `file_dir_spec`).
pub fn file_base_dir(input: &str) -> (r: String)
    ensures
        r@ == file_dir_spec(input@),
{
    match path_parent(input) {
        Some(p) => if p.as_str().unicode_len() == 0 {
            String::from_str(".")
        } else {
            p
        },
        None => String::from_str("."),
    }
}

/// Where the upward search for a project config starts: the directory of the
/// first input that is a file, or the working directory `.` when everything
/// comes from standard input.
pub open spec fn config_start_spec(inputs: Seq<Seq<char>>) -> Seq<char>
    decreases inputs.len(),
{
    if inputs.len() == 0 {
        "."@
    } else if inputs[0] != "-"@ {
        file_dir_spec(inputs[0])
    } else {
        config_start_spec(inputs.skip(1))
    }
}

/// Where the upward search for a project config starts (see
/// `config_start_spec`).
pub fn config_start_dir(inputs: &Vec<String>) -> (r: String)
    ensures
        r@ == config_start_spec(string_views(inputs@)),
{
    let ghost v = string_views(inputs@);
    let mut i: usize = 0;
    assert(v.skip(0) =~= v);
    while i < inputs.len()
        invariant
            i <= inputs.len(),
            v == string_views(inputs@),
            config_start_spec(v.skip(i as int)) == config_start_spec(v),
        decreases inputs.len() - i,
    {
        assert(v.skip(i as int)[0] == inputs@[i as int]@);
        assert(v.skip(i as int).skip(1) =~= v.skip(i + 1));
        if !str_eq(inputs[i].as_str(), "-") {
            return file_base_dir(inputs[i].as_str());
        }
        i += 1;
    }
    assert(v.skip(i as int).len() == 0);
    String::from_str(".")
}

/// A configured zone converted to Typst with its tokens replaced, its images
/// resolved against the directory of the file that set it; and the registry
/// after it.
pub open spec fn zone_spec(
    zone: Option<ZoneView>,
    title: Option<Seq<char>>,
    home: Option<Seq<char>>,
    existing: Seq<Seq<char>>,
    r: RegistryView,
) -> (Option<Seq<char>>, RegistryView) {
    match zone {
        None => (None, r),
        Some(z) => {
            let (m, r1) = render_spec(
                markdown_events_spec(z.markdown),
                ImageContextView { base: Some(z.base), home: home, existing_files: existing },
                r,
            );
            (Some(substitute_tokens_spec(m, title)), r1)
        },
    }
}

pub open spec fn opt_str_view(o: Option<&str>) -> Option<Seq<char>> {
    match o {
        Some(s) => Some(s@),
        None => None,
    }
}

pub open spec fn opt_string_view(o: Option<String>) -> Option<Seq<char>> {
    match o {
        Some(s) => Some(s@),
        None => None,
    }
}

fn clone_strings(v: &Vec<String>) -> (r: Vec<String>)
    ensures
        string_views(r@) == string_views(v@),
{
    let mut r: Vec<String> = Vec::new();
    let mut i: usize = 0;
    while i < v.len()
        invariant
            i <= v.len(),
            r@.len() == i,
            forall|k: int| 0 <= k < i ==> (#[trigger] r@[k])@ == v@[k]@,
        decreases v.len() - i,
    {
        r.push(v[i].clone());
        i += 1;
    }
    assert(string_views(r@) =~= string_views(v@));
    r
}

fn render_zone(
    zone: &Option<Zone>,
    title: Option<&str>,
    home: Option<&str>,
    existing: &Vec<String>,
    registry: &mut AssetRegistry,
) -> (m: Option<String>)
    ensures
        (opt_string_view(m), final(registry).view()) == zone_spec(
            zone_opt_view(*zone),
            opt_str_view(title),
            opt_str_view(home),
            string_views(existing@),
            old(registry).view(),
        ),
{
    match zone {
        None => None,
        Some(z) => {
            let ctx = ImageContext {
                base: Some(z.base.clone()),
                home: match home {
                    Some(h) => Some(h.to_owned()),
                    None => None,
                },
                existing_files: clone_strings(existing),
            };
            let markup = markdown_to_typst_with_assets(z.markdown.as_str(), &ctx, registry);
            Some(substitute_tokens(markup.as_str(), title))
        },
    }
}

/// Converts a band's zones from Markdown to Typst and resolves their tokens,
/// left, then center, then right; unset sizes take the given defaults. A band
/// with no zone gives the empty zones: no zone, and the default value of `N`
/// (zero for numbers) for both sizes.
pub fn render_band<N: Copy + Default>(
    band: &Band<N>,
    title: Option<&str>,
    home: Option<&str>,
    existing_files: &Vec<String>,
    registry: &mut AssetRegistry,
    default_image_height: N,
    default_font_size: N,
) -> (z: Zones<N>)
    ensures
        ({
            let t = opt_str_view(title);
            let h = opt_str_view(home);
            let e = string_views(existing_files@);
            let (l, r1) = zone_spec(zone_opt_view(band.left), t, h, e, old(registry).view());
            let (c, r2) = zone_spec(zone_opt_view(band.center), t, h, e, r1);
            let (r, r3) = zone_spec(zone_opt_view(band.right), t, h, e, r2);
            &&& opt_string_view(z.left) == l
            &&& opt_string_view(z.center) == c
            &&& opt_string_view(z.right) == r
            &&& final(registry).view() == r3
        }),
        band.left is None && band.center is None && band.right is None ==> {
            &&& call_ensures(N::default, (), z.image_height_mm)
            &&& call_ensures(N::default, (), z.font_size)
        },
        !(band.left is None && band.center is None && band.right is None) ==> {
            &&& z.image_height_mm == match band.image_height_mm {
                Some(v) => v,
                None => default_image_height,
            }
            &&& z.font_size == match band.font_size_pt {
                Some(v) => v,
                None => default_font_size,
            }
        },
{
    if band.is_empty() {
        return Zones {
            left: None,
            center: None,
            right: None,
            image_height_mm: N::default(),
            font_size: N::default(),
        };
    }
    let left = render_zone(&band.left, title, home, existing_files, registry);
    let center = render_zone(&band.center, title, home, existing_files, registry);
    let right = render_zone(&band.right, title, home, existing_files, registry);
    let image_height_mm = match band.image_height_mm {
        Some(v) => v,
        None => default_image_height,
    };
    let font_size = match band.font_size_pt {
        Some(v) => v,
        None => default_font_size,
    };
    Zones { left, center, right, image_height_mm, font_size }
}

} // verus!
