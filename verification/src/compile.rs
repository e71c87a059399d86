//! The Typst document around the converted Markdown: header and footer
//! bands, the page set-up preamble, and the tokens of the bands.
use vstd::prelude::*;
use crate::text::{
    contains, escape_markup, escape_quoted, join, occurs_at, replace_all, replace_str,
    string_views, trim, trim_start_char, trim_start_matches_char, trim_str,
};

verus! {

// ---------------------------------------------------------------------------
// Tokens
// ---------------------------------------------------------------------------

/// The band markup with its tokens replaced by Typst code: the page number,
/// the page count, today's date and the escaped document title (empty where
/// there is none), in that order.
pub open spec fn substitute_tokens_spec(markup: Seq<char>, title: Option<Seq<char>>) -> Seq<char> {
    let title_text = match title {
        Some(t) => escape_markup(t),
        None => seq![],
    };
    replace_all(
        replace_all(
            replace_all(
                replace_all(markup, "{page}"@, "#context counter(page).display()"@),
                "{pages}"@,
                "#context counter(page).final().first()"@,
            ),
            "{date}"@,
            "#datetime.today().display(\"[year]-[month]-[day]\")"@,
        ),
        "{title}"@,
        title_text,
    )
}

/// Replaces the header/footer tokens with Typst code (see
/// `substitute_tokens_spec`).
///
/// Runs on already-escaped converter output: only zone markup reaches this
/// function, so document text can never introduce a counter or a date.
pub fn substitute_tokens(markup: &str, title: Option<&str>) -> (r: String)
    ensures
        r@ == substitute_tokens_spec(
            markup@,
            match title {
                Some(t) => Some(t@),
                None => None,
            },
        ),
{
    proof {
        reveal_strlit("{page}");
        reveal_strlit("{pages}");
        reveal_strlit("{date}");
        reveal_strlit("{title}");
    }
    let title_text = match title {
        Some(t) => crate::text::escape_typst(t),
        None => String::new(),
    };
    let a = replace_str(markup, "{page}", "#context counter(page).display()");
    let b = replace_str(a.as_str(), "{pages}", "#context counter(page).final().first()");
    let c = replace_str(
        b.as_str(),
        "{date}",
        "#datetime.today().display(\"[year]-[month]-[day]\")",
    );
    replace_str(c.as_str(), "{title}", title_text.as_str())
}

// ---------------------------------------------------------------------------
// Header and footer bands
// ---------------------------------------------------------------------------

/// A header or footer, as three already-converted Typst markup zones. Image
/// height (mm) and font size (pt) are numbers of type `N`.
#[derive(Clone, Debug)]
pub struct Zones<N> {
    pub left: Option<String>,
    pub center: Option<String>,
    pub right: Option<String>,
    pub image_height_mm: N,
    pub font_size: N,
}

impl<N> Zones<N> {
    /// Whether no zone is set.
    pub fn is_empty(&self) -> (r: bool)
        ensures
            r == (self.left is None && self.center is None && self.right is None),
    {
        self.left.is_none() && self.center.is_none() && self.right.is_none()
    }
}

impl Default for Zones<String> {
    /// No zones, with zero sizes.
    fn default() -> (z: Self)
        ensures
            z.left is None && z.center is None && z.right is None,
            z.image_height_mm@ == "0"@,
            z.font_size@ == "0"@,
    {
        Zones {
            left: None,
            center: None,
            right: None,
            image_height_mm: String::from_str("0"),
            font_size: String::from_str("0"),
        }
    }
}

pub open spec fn opt_string_view(o: Option<String>) -> Option<Seq<char>> {
    match o {
        Some(s) => Some(s@),
        None => None,
    }
}

/// One zone's grid cell: its trimmed markup in a content block, or an empty
/// block where the zone is unset, so every zone keeps its column.
pub open spec fn zone_cell(zone: Option<Seq<char>>) -> Seq<char> {
    match zone {
        Some(m) => "["@ + trim(m) + "]"@,
        None => "[]"@,
    }
}

/// A band as the `slot` argument of `#set page`: a three-column grid holding
/// the left, center and right zones; nothing where no zone is set.
pub open spec fn render_zones_spec(
    slot: Seq<char>,
    left: Option<Seq<char>>,
    center: Option<Seq<char>>,
    right: Option<Seq<char>>,
    image_height: Seq<char>,
    font_size: Seq<char>,
) -> Seq<char> {
    if left is None && center is None && right is None {
        seq![]
    } else {
        ",\n  "@ + slot + ": {\n"@ + "    set image(height: "@ + image_height + "mm)\n"@
            + "    set text(size: "@ + font_size + "pt, fill: luma(110))\n"@ + "    grid(\n"@
            + "      columns: (1fr, 1fr, 1fr),\n"@
            + "      align: (left + horizon, center + horizon, right + horizon),\n"@ + "      "@
            + zone_cell(left) + ", "@ + zone_cell(center) + ", "@ + zone_cell(right) + ",\n"@
            + "    )\n"@ + "  }"@
    }
}

pub open spec fn zones_markup(slot: Seq<char>, z: Zones<String>) -> Seq<char> {
    render_zones_spec(
        slot,
        opt_string_view(z.left),
        opt_string_view(z.center),
        opt_string_view(z.right),
        z.image_height_mm@,
        z.font_size@,
    )
}

fn zone_cell_string(zone: &Option<String>) -> (r: String)
    ensures
        r@ == zone_cell(opt_string_view(*zone)),
{
    match zone {
        Some(markup) => {
            let mut c = String::from_str("[");
            let t = trim_str(markup.as_str());
            c.append(t.as_str());
            c.append("]");
            c
        },
        None => String::from_str("[]"),
    }
}

/// Renders one band as a three-column grid, so the left, center and right
/// zones hold their positions however much each holds (see
/// `render_zones_spec`). The sizes are given as decimal text.
pub fn render_zones(slot: &str, zones: &Zones<String>) -> (r: String)
    ensures
        r@ == zones_markup(slot@, *zones),
{
    if zones.is_empty() {
        return String::new();
    }
    let mut r = String::from_str(",\n  ");
    r.append(slot);
    r.append(": {\n");
    r.append("    set image(height: ");
    r.append(zones.image_height_mm.as_str());
    r.append("mm)\n");
    r.append("    set text(size: ");
    r.append(zones.font_size.as_str());
    r.append("pt, fill: luma(110))\n");
    r.append("    grid(\n");
    r.append("      columns: (1fr, 1fr, 1fr),\n");
    r.append("      align: (left + horizon, center + horizon, right + horizon),\n");
    r.append("      ");
    r.append(zone_cell_string(&zones.left).as_str());
    r.append(", ");
    r.append(zone_cell_string(&zones.center).as_str());
    r.append(", ");
    r.append(zone_cell_string(&zones.right).as_str());
    r.append(",\n");
    r.append("    )\n");
    r.append("  }");
    r
}

// ---------------------------------------------------------------------------
// The preamble
// ---------------------------------------------------------------------------

/// Page set-up and styling for a render. Margin (mm) and font size (pt) are
/// numbers of type `N`.
#[derive(Clone, Debug)]
pub struct CompileOptions<N> {
    pub page_size: String,
    pub margin_mm: N,
    pub font_size: N,
    pub title: Option<String>,
    pub header: Zones<N>,
    pub footer: Zones<N>,
}

impl Default for CompileOptions<String> {
    /// US letter, 25 mm margins, 10 pt text, no title and no bands.
    fn default() -> (o: Self)
        ensures
            o.page_size@ == "us-letter"@,
            o.margin_mm@ == "25"@,
            o.font_size@ == "10"@,
            o.title is None,
            o.header.left is None && o.header.center is None && o.header.right is None,
            o.footer.left is None && o.footer.center is None && o.footer.right is None,
    {
        CompileOptions {
            page_size: String::from_str("us-letter"),
            margin_mm: String::from_str("25"),
            font_size: String::from_str("10"),
            title: None,
            header: Zones::default(),
            footer: Zones::default(),
        }
    }
}

/// The styling that follows the page and text set-up in every preamble:
/// paragraph spacing, heading sizes, raw text, links and the task list boxes.
pub open spec fn preamble_styles() -> Seq<char> {
    "#set par(justify: true, leading: 0.65em, spacing: 0.65em)\n\n#show heading.where(level: 1): set text(size: 21pt, weight: \"bold\")\n#show heading.where(level: 2): set text(size: 17pt, weight: \"bold\")\n#show heading.where(level: 3): set text(size: 14pt, weight: \"bold\")\n#show heading.where(level: 4): set text(size: 12pt, weight: \"bold\")\n#show heading.where(level: 5): set text(size: 11pt, weight: \"bold\")\n#show heading.where(level: 6): set text(size: 11pt, weight: \"bold\")\n\n#show heading: it => {\n  v(0.4em)\n  it\n  v(0.2em)\n}\n\n#show raw.where(block: true): it => {\n  set text(font: \"JetBrains Mono\", size: 8pt)\n  block(\n    fill: luma(246),\n    inset: 10pt,\n    radius: 4pt,\n    width: 100%,\n    it,\n  )\n}\n\n#show raw.where(block: false): it => {\n  set text(font: \"JetBrains Mono\", size: 9pt)\n  box(\n    fill: luma(240),\n    inset: (x: 3pt, y: 1pt),\n    radius: 2pt,\n    it,\n  )\n}\n\n#show link: it => {\n  set text(fill: rgb(\"#2563eb\"))\n  underline(offset: 2pt, stroke: 0.5pt + rgb(\"#93b4f5\"), it)\n}\n\n#let check-done = box(width: 10pt, height: 10pt, stroke: 0.5pt + luma(160), radius: 2pt, fill: rgb(\"#e8f5e9\"), align(center + horizon, text(size: 7pt, fill: rgb(\"#2e7d32\"), weight: \"bold\", \"\u{2713}\")))\n#let check-todo = box(width: 10pt, height: 10pt, stroke: 0.5pt + luma(160), radius: 2pt)\n"@
}

/// The document title as Typst metadata, where there is one.
pub open spec fn title_line(title: Option<Seq<char>>) -> Seq<char> {
    match title {
        Some(t) => "#set document(title: \""@ + escape_quoted(t) + "\")\n"@,
        None => seq![],
    }
}

/// The Typst preamble for a render: the title, the page with its bands, the
/// text set-up, then the fixed styles.
pub open spec fn preamble_spec(o: CompileOptions<String>) -> Seq<char> {
    title_line(opt_string_view(o.title)) + "#set page(paper: \""@ + o.page_size@ + "\", margin: "@
        + o.margin_mm@ + "mm"@ + zones_markup("header"@, o.header) + zones_markup(
        "footer"@,
        o.footer,
    ) + ")\n#set text(font: \"Inter\", size: "@ + o.font_size@ + "pt, fill: luma(30))\n"@
        + preamble_styles()
}

/// Builds the Typst preamble (see `preamble_spec`).
pub fn build_preamble(options: &CompileOptions<String>) -> (r: String)
    ensures
        r@ == preamble_spec(*options),
{
    let mut r = match &options.title {
        Some(t) => {
            let mut l = String::from_str("#set document(title: \"");
            let e = crate::text::escape_typst_string(t.as_str());
            l.append(e.as_str());
            l.append("\")\n");
            l
        },
        None => String::new(),
    };
    r.append("#set page(paper: \"");
    r.append(options.page_size.as_str());
    r.append("\", margin: ");
    r.append(options.margin_mm.as_str());
    r.append("mm");
    let h = render_zones("header", &options.header);
    r.append(h.as_str());
    let f = render_zones("footer", &options.footer);
    r.append(f.as_str());
    r.append(")\n#set text(font: \"Inter\", size: ");
    r.append(options.font_size.as_str());
    r.append("pt, fill: luma(30))\n");
    r.append("#set par(justify: true, leading: 0.65em, spacing: 0.65em)\n\n#show heading.where(level: 1): set text(size: 21pt, weight: \"bold\")\n#show heading.where(level: 2): set text(size: 17pt, weight: \"bold\")\n#show heading.where(level: 3): set text(size: 14pt, weight: \"bold\")\n#show heading.where(level: 4): set text(size: 12pt, weight: \"bold\")\n#show heading.where(level: 5): set text(size: 11pt, weight: \"bold\")\n#show heading.where(level: 6): set text(size: 11pt, weight: \"bold\")\n\n#show heading: it => {\n  v(0.4em)\n  it\n  v(0.2em)\n}\n\n#show raw.where(block: true): it => {\n  set text(font: \"JetBrains Mono\", size: 8pt)\n  block(\n    fill: luma(246),\n    inset: 10pt,\n    radius: 4pt,\n    width: 100%,\n    it,\n  )\n}\n\n#show raw.where(block: false): it => {\n  set text(font: \"JetBrains Mono\", size: 9pt)\n  box(\n    fill: luma(240),\n    inset: (x: 3pt, y: 1pt),\n    radius: 2pt,\n    it,\n  )\n}\n\n#show link: it => {\n  set text(fill: rgb(\"#2563eb\"))\n  underline(offset: 2pt, stroke: 0.5pt + rgb(\"#93b4f5\"), it)\n}\n\n#let check-done = box(width: 10pt, height: 10pt, stroke: 0.5pt + luma(160), radius: 2pt, fill: rgb(\"#e8f5e9\"), align(center + horizon, text(size: 7pt, fill: rgb(\"#2e7d32\"), weight: \"bold\", \"\u{2713}\")))\n#let check-todo = box(width: 10pt, height: 10pt, stroke: 0.5pt + luma(160), radius: 2pt)\n");
    r
}

/// The complete Typst source of a render: the preamble, then the body.
pub fn typst_source(body: &str, options: &CompileOptions<String>) -> (r: String)
    ensures
        r@ == preamble_spec(*options) + "\n"@ + body@,
{
    let mut r = build_preamble(options);
    r.append("\n");
    r.append(body);
    r
}

/// The key an asset's bytes are served under: its virtual path without the
/// leading `/`, as a rootless virtual path yields it.
pub fn asset_key(virtual_path: &str) -> (r: String)
    ensures
        r@ == trim_start_char(virtual_path@, '/'),
{
    trim_start_matches_char(virtual_path, '/')
}

/// The report of a failed step: what failed, then each diagnostic on a line
/// of its own.
pub open spec fn failure_report(what: Seq<char>, messages: Seq<Seq<char>>) -> Seq<char> {
    what + ":\n"@ + join(messages, "\n"@)
}

/// The report of a failed Typst compilation.
pub fn compile_failure(messages: &Vec<String>) -> (r: String)
    ensures
        r@ == failure_report("Typst compilation failed"@, string_views(messages@)),
{
    let mut r = String::from_str("Typst compilation failed");
    r.append(":\n");
    r.append(crate::text::join_strings(messages, "\n").as_str());
    r
}

/// The report of a failed PDF export.
pub fn export_failure(messages: &Vec<String>) -> (r: String)
    ensures
        r@ == failure_report("PDF export failed"@, string_views(messages@)),
{
    let mut r = String::from_str("PDF export failed");
    r.append(":\n");
    r.append(crate::text::join_strings(messages, "\n").as_str());
    r
}

// ---------------------------------------------------------------------------
// Laws of tokens, bands and the preamble
// ---------------------------------------------------------------------------

/// A text occurs wherever it is written in.
proof fn lemma_contains_middle(a: Seq<char>, p: Seq<char>, b: Seq<char>)
    ensures
        contains(a + p + b, p),
{
    assert((a + p + b).subrange(a.len() as int, (a.len() + p.len()) as int) =~= p);
    assert(occurs_at(a + p + b, p, a.len() as int));
}

/// Text without `{` passes through a replacement of a `{`-token unchanged.
proof fn lemma_replace_skips_plain(x: Seq<char>, y: Seq<char>, p: Seq<char>, r: Seq<char>)
    requires
        p.len() > 0,
        p[0] == '{',
        !x.contains('{'),
    ensures
        replace_all(x + y, p, r) == x + replace_all(y, p, r),
    decreases x.len(),
{
    if x.len() == 0 {
        assert(x + y =~= y);
        assert(x + replace_all(y, p, r) =~= replace_all(y, p, r));
    } else {
        let s = x + y;
        assert(s[0] == x[0]);
        assert(x[0] != '{');
        if occurs_at(s, p, 0) {
            assert(s.subrange(0, p.len() as int)[0] == s[0]);
        }
        assert(s.skip(1) =~= x.skip(1) + y);
        assert forall|i: int| 0 <= i < x.skip(1).len() implies x.skip(1)[i] != '{' by {
            assert(x.skip(1)[i] == x[i + 1]);
        }
        lemma_replace_skips_plain(x.skip(1), y, p, r);
        assert(seq![x[0]] + (x.skip(1) + replace_all(y, p, r)) =~= x + replace_all(y, p, r));
    }
}

/// A token is replaced where it stands.
proof fn lemma_replace_token(p: Seq<char>, y: Seq<char>, r: Seq<char>)
    requires
        p.len() > 0,
    ensures
        replace_all(p + y, p, r) == r + replace_all(y, p, r),
{
    assert((p + y).subrange(0, p.len() as int) =~= p);
    assert((p + y).skip(p.len() as int) =~= y);
}

/// A different token, which differs from `p` at some place both reach and
/// has no `{` after its first character, is kept where it stands.
proof fn lemma_replace_other_token(q: Seq<char>, y: Seq<char>, p: Seq<char>, r: Seq<char>, k: int)
    requires
        p.len() > 0,
        p[0] == '{',
        q.len() > 0,
        q[0] == '{',
        !q.skip(1).contains('{'),
        0 <= k < q.len(),
        k < p.len(),
        q[k] != p[k],
    ensures
        replace_all(q + y, p, r) == q + replace_all(y, p, r),
{
    let s = q + y;
    if occurs_at(s, p, 0) {
        assert(s.subrange(0, p.len() as int)[k] == s[k]);
    }
    assert(s.skip(1) =~= q.skip(1) + y);
    lemma_replace_skips_plain(q.skip(1), y, p, r);
    assert(seq![q[0]] + (q.skip(1) + replace_all(y, p, r)) =~= q + replace_all(y, p, r));
}

/// What a band token stands for: the page number, the page count, today's
/// date as year-month-day, or the escaped title (nothing without a title).
pub open spec fn token_value(token: Seq<char>, title: Option<Seq<char>>) -> Seq<char> {
    if token == "{page}"@ {
        "#context counter(page).display()"@
    } else if token == "{pages}"@ {
        "#context counter(page).final().first()"@
    } else if token == "{date}"@ {
        "#datetime.today().display(\"[year]-[month]-[day]\")"@
    } else {
        match title {
            Some(t) => escape_markup(t),
            None => seq![],
        }
    }
}

/// Each band token is replaced where it stands by what it stands for, and
/// the text before it (which opens no token) is kept: `{page}` becomes the
/// page counter, `{pages}` the final page count, `{date}` today's date as
/// `[year]-[month]-[day]`, and `{title}` the escaped title.
pub proof fn law_tokens_replaced(
    before: Seq<char>,
    token: Seq<char>,
    after: Seq<char>,
    title: Option<Seq<char>>,
)
    requires
        !before.contains('{'),
        token == "{page}"@ || token == "{pages}"@ || token == "{date}"@ || token == "{title}"@,
    ensures
        substitute_tokens_spec(before + token + after, title) == before + token_value(token, title)
            + substitute_tokens_spec(after, title),
{
    reveal_strlit("{page}");
    reveal_strlit("{pages}");
    reveal_strlit("{date}");
    reveal_strlit("{title}");
    reveal_strlit("#context counter(page).display()");
    reveal_strlit("#context counter(page).final().first()");
    reveal_strlit("#datetime.today().display(\"[year]-[month]-[day]\")");
    let pg = "{page}"@;
    let pgs = "{pages}"@;
    let dt = "{date}"@;
    let tt = "{title}"@;
    let r1 = "#context counter(page).display()"@;
    let r2 = "#context counter(page).final().first()"@;
    let r3 = "#datetime.today().display(\"[year]-[month]-[day]\")"@;
    let rt = match title {
        Some(t) => escape_markup(t),
        None => seq![],
    };
    assert(!r1.contains('{'));
    assert(!r2.contains('{'));
    assert(!r3.contains('{'));
    assert(!pg.skip(1).contains('{'));
    assert(!pgs.skip(1).contains('{'));
    assert(!dt.skip(1).contains('{'));
    assert(!tt.skip(1).contains('{'));
    let m = before + token + after;
    assert(m =~= before + (token + after));
    let b1 = replace_all(after, pg, r1);
    let b2 = replace_all(b1, pgs, r2);
    let b3 = replace_all(b2, dt, r3);
    let b4 = replace_all(b3, tt, rt);
    assert(b4 == substitute_tokens_spec(after, title));
    // Each replacement passes over the plain text before the token.
    lemma_replace_skips_plain(before, token + after, pg, r1);
    if token == pg {
        lemma_replace_token(pg, after, r1);
        let x = before + r1;
        assert(replace_all(m, pg, r1) =~= x + b1);
        assert(!x.contains('{')) by {
            assert forall|i: int| 0 <= i < x.len() implies x[i] != '{' by {
                if i < before.len() {
                    assert(x[i] == before[i]);
                } else {
                    assert(x[i] == r1[i - before.len()]);
                }
            }
        }
        lemma_replace_skips_plain(x, b1, pgs, r2);
        lemma_replace_skips_plain(x, b2, dt, r3);
        lemma_replace_skips_plain(x, b3, tt, rt);
        assert(x + b4 =~= before + token_value(token, title) + b4);
    } else {
        // The token survives the replacements of the tokens before it.
        assert(token.len() > 0 && token[0] == '{');
        assert(!token.skip(1).contains('{'));
        if token == pgs {
            lemma_replace_other_token(pgs, after, pg, r1, 5);
        } else if token == dt {
            lemma_replace_other_token(dt, after, pg, r1, 1);
        } else {
            lemma_replace_other_token(tt, after, pg, r1, 1);
        }
        let m1 = before + (token + b1);
        assert(replace_all(m, pg, r1) =~= m1);
        lemma_replace_skips_plain(before, token + b1, pgs, r2);
        if token == pgs {
            lemma_replace_token(pgs, b1, r2);
            let x = before + r2;
            assert(!x.contains('{')) by {
                assert forall|i: int| 0 <= i < x.len() implies x[i] != '{' by {
                    if i < before.len() {
                        assert(x[i] == before[i]);
                    } else {
                        assert(x[i] == r2[i - before.len()]);
                    }
                }
            }
            assert(replace_all(m1, pgs, r2) =~= x + b2);
            lemma_replace_skips_plain(x, b2, dt, r3);
            lemma_replace_skips_plain(x, b3, tt, rt);
            assert(x + b4 =~= before + token_value(token, title) + b4);
        } else {
            if token == dt {
                lemma_replace_other_token(dt, b1, pgs, r2, 1);
            } else {
                lemma_replace_other_token(tt, b1, pgs, r2, 1);
            }
            let m2 = before + (token + b2);
            assert(replace_all(m1, pgs, r2) =~= m2);
            lemma_replace_skips_plain(before, token + b2, dt, r3);
            if token == dt {
                lemma_replace_token(dt, b2, r3);
                let x = before + r3;
                assert(!x.contains('{')) by {
                    assert forall|i: int| 0 <= i < x.len() implies x[i] != '{' by {
                        if i < before.len() {
                            assert(x[i] == before[i]);
                        } else {
                            assert(x[i] == r3[i - before.len()]);
                        }
                    }
                }
                assert(replace_all(m2, dt, r3) =~= x + b3);
                lemma_replace_skips_plain(x, b3, tt, rt);
                assert(x + b4 =~= before + token_value(token, title) + b4);
            } else {
                lemma_replace_other_token(tt, b2, dt, r3, 1);
                let m3 = before + (tt + b3);
                assert(replace_all(m2, dt, r3) =~= m3);
                lemma_replace_skips_plain(before, tt + b3, tt, rt);
                lemma_replace_token(tt, b3, rt);
                assert(replace_all(m3, tt, rt) =~= before + rt + b4);
            }
        }
    }
}

/// A band's grid holds its zones in order, each in its own column: the cell
/// of the left zone, then the center, then the right, each the zone's
/// trimmed markup in brackets or an empty `[]`. A band with no zone makes no
/// markup at all.
pub proof fn law_band_cells_in_order(slot: Seq<char>, z: Zones<String>)
    ensures
        (z.left is None && z.center is None && z.right is None) ==> zones_markup(slot, z) == Seq::<
            char,
        >::empty(),
        !(z.left is None && z.center is None && z.right is None) ==> contains(
            zones_markup(slot, z),
            "      "@ + match z.left {
                Some(m) => "["@ + trim(m@) + "]"@,
                None => "[]"@,
            } + ", "@ + match z.center {
                Some(m) => "["@ + trim(m@) + "]"@,
                None => "[]"@,
            } + ", "@ + match z.right {
                Some(m) => "["@ + trim(m@) + "]"@,
                None => "[]"@,
            } + ",\n"@,
        ),
{
    if !(z.left is None && z.center is None && z.right is None) {
        let row = "      "@ + zone_cell(opt_string_view(z.left)) + ", "@ + zone_cell(
            opt_string_view(z.center),
        ) + ", "@ + zone_cell(opt_string_view(z.right)) + ",\n"@;
        let a = ",\n  "@ + slot + ": {\n"@ + "    set image(height: "@ + z.image_height_mm@
            + "mm)\n"@ + "    set text(size: "@ + z.font_size@ + "pt, fill: luma(110))\n"@
            + "    grid(\n"@ + "      columns: (1fr, 1fr, 1fr),\n"@
            + "      align: (left + horizon, center + horizon, right + horizon),\n"@;
        let b = "    )\n"@ + "  }"@;
        assert(zones_markup(slot, z) =~= a + row + b);
        lemma_contains_middle(a, row, b);
    }
}

/// A band with a zone opens with its slot: `,`, a new line, two spaces,
/// then the slot name and `: {`.
proof fn lemma_band_opens(slot: Seq<char>, z: Zones<String>)
    requires
        !(z.left is None && z.center is None && z.right is None),
    ensures
        zones_markup(slot, z) == ",\n  "@ + (slot + ": {"@) + zones_markup(slot, z).skip(
            (4 + slot.len() + 3) as int,
        ),
{
    reveal_strlit(",\n  ");
    reveal_strlit(": {\n");
    reveal_strlit(": {");
    let m = zones_markup(slot, z);
    let rest = "    set image(height: "@ + z.image_height_mm@ + "mm)\n"@ + "    set text(size: "@
        + z.font_size@ + "pt, fill: luma(110))\n"@ + "    grid(\n"@
        + "      columns: (1fr, 1fr, 1fr),\n"@
        + "      align: (left + horizon, center + horizon, right + horizon),\n"@ + "      "@
        + zone_cell(opt_string_view(z.left)) + ", "@ + zone_cell(opt_string_view(z.center))
        + ", "@ + zone_cell(opt_string_view(z.right)) + ",\n"@ + "    )\n"@ + "  }"@;
    assert(m =~= ",\n  "@ + slot + ": {\n"@ + rest);
    assert(m =~= ",\n  "@ + (slot + ": {"@) + (seq!['\n'] + rest));
    assert(m.skip((4 + slot.len() + 3) as int) =~= seq!['\n'] + rest);
}

/// The preamble's `#set page` call holds the header band followed by the
/// footer band, so a band that has a zone is always set: the preamble
/// names `header: {` whenever a header zone is set and `footer: {` whenever
/// a footer zone is.
#[verifier::rlimit(50)]
pub proof fn law_preamble_holds_bands(o: CompileOptions<String>)
    ensures
        contains(
            preamble_spec(o),
            zones_markup("header"@, o.header) + zones_markup("footer"@, o.footer),
        ),
        !(o.header.left is None && o.header.center is None && o.header.right is None) ==> contains(
            preamble_spec(o),
            "header: {"@,
        ),
        !(o.footer.left is None && o.footer.center is None && o.footer.right is None) ==> contains(
            preamble_spec(o),
            "footer: {"@,
        ),
{
    let h = zones_markup("header"@, o.header);
    let f = zones_markup("footer"@, o.footer);
    let pre = title_line(opt_string_view(o.title)) + "#set page(paper: \""@ + o.page_size@
        + "\", margin: "@ + o.margin_mm@ + "mm"@;
    let post = ")\n#set text(font: \"Inter\", size: "@ + o.font_size@ + "pt, fill: luma(30))\n"@
        + preamble_styles();
    let whole = preamble_spec(o);
    assert(whole =~= pre + (h + f) + post);
    lemma_contains_middle(pre, h + f, post);
    if !(o.header.left is None && o.header.center is None && o.header.right is None) {
        reveal_strlit("header: {");
        reveal_strlit("header");
        reveal_strlit(": {");
        assert("header"@ + ": {"@ =~= "header: {"@);
        lemma_band_opens("header"@, o.header);
        let rest = h.skip(13);
        assert(h =~= ",\n  "@ + "header: {"@ + rest);
        assert(whole =~= (pre + ",\n  "@) + "header: {"@ + (rest + f + post));
        lemma_contains_middle(pre + ",\n  "@, "header: {"@, rest + f + post);
    }
    if !(o.footer.left is None && o.footer.center is None && o.footer.right is None) {
        reveal_strlit("footer: {");
        reveal_strlit("footer");
        reveal_strlit(": {");
        assert("footer"@ + ": {"@ =~= "footer: {"@);
        lemma_band_opens("footer"@, o.footer);
        let rest = f.skip(13);
        assert(f =~= ",\n  "@ + "footer: {"@ + rest);
        assert(whole =~= (pre + h + ",\n  "@) + "footer: {"@ + (rest + post));
        lemma_contains_middle(pre + h + ",\n  "@, "footer: {"@, rest + post);
    }
}

} // verus!
