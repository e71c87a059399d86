//! The Markdown to Typst converter: a state machine over Markdown events
//! that writes Typst markup, resolving images against an [`ImageContext`] and
//! registering them in an [`AssetRegistry`].
use vstd::prelude::*;
use crate::text::{
    append_str, escape_markup, escape_markup_chars, escape_quoted, escape_quoted_chars, chars_of,
    decimal, decimal_string, join, string_views, push_char, repeat_char, repeat_char_string,
    repeat_seq, repeat_str, starts_with, string_of, trim, trim_chars, trim_end_char,
    trim_end_matches_chars,
};
use crate::events::{
    events_view, level_number, markdown_events, markdown_events_spec, Alignment, EventView,
    HeadingLevel, MdEvent, MdTag, MdTagEnd, TagView,
};
use crate::assets::{
    image_extension, image_extension_spec, register_spec, resolve_image_path, resolve_image_spec,
    AssetRegistry, ImageContext, ImageContextView, RegistryView,
};

verus! {

// ---------------------------------------------------------------------------
// Fences for raw text
// ---------------------------------------------------------------------------

/// The number of backticks at the end of a text.
pub open spec fn trailing_backticks(s: Seq<char>) -> nat
    decreases s.len(),
{
    if s.len() > 0 && s.last() == '`' {
        trailing_backticks(s.drop_last()) + 1
    } else {
        0
    }
}

/// The length of the longest run of backticks in a text.
pub open spec fn max_backtick_run(s: Seq<char>) -> nat
    decreases s.len(),
{
    if s.len() == 0 {
        0
    } else {
        let m = max_backtick_run(s.drop_last());
        let t = trailing_backticks(s);
        if m >= t {
            m
        } else {
            t
        }
    }
}

/// One more than `n`, as far as a `usize` reaches.
pub open spec fn succ_capped(n: nat) -> nat {
    if n < usize::MAX {
        n + 1
    } else {
        usize::MAX as nat
    }
}

/// The number of backticks fencing inline raw text: one more than the
/// longest backtick run of the content, so the content cannot end it.
pub open spec fn inline_fence_len(s: Seq<char>) -> nat {
    succ_capped(max_backtick_run(s))
}

/// The number of backticks fencing a raw block: at least three, so Typst reads
/// the language tag, and more only where the content holds a run of three
/// or more.
pub open spec fn block_fence_len(s: Seq<char>) -> nat {
    let n = succ_capped(max_backtick_run(s));
    if n >= 3 {
        n
    } else {
        3
    }
}

proof fn lemma_trailing_le(s: Seq<char>)
    ensures
        trailing_backticks(s) <= s.len(),
        trailing_backticks(s) <= max_backtick_run(s),
        max_backtick_run(s) <= s.len(),
    decreases s.len(),
{
    if s.len() > 0 {
        lemma_trailing_le(s.drop_last());
    }
}

proof fn lemma_run_bounded(s: Seq<char>, i: int, k: int)
    requires
        0 <= i,
        i + k <= s.len(),
        0 <= k,
        forall|j: int| i <= j < i + k ==> #[trigger] s[j] == '`',
    ensures
        k <= max_backtick_run(s),
    decreases s.len(),
{
    if k > 0 {
        if i + k == s.len() {
            lemma_trailing_ge(s, k);
            lemma_trailing_le(s);
        } else {
            assert forall|j: int| i <= j < i + k implies #[trigger] s.drop_last()[j] == '`' by {
                assert(s.drop_last()[j] == s[j]);
            }
            lemma_run_bounded(s.drop_last(), i, k);
        }
    }
}

proof fn lemma_trailing_ge(s: Seq<char>, k: int)
    requires
        0 <= k <= s.len(),
        forall|j: int| s.len() - k <= j < s.len() ==> #[trigger] s[j] == '`',
    ensures
        trailing_backticks(s) >= k,
    decreases k,
{
    if k > 0 {
        assert(s[s.len() - 1] == '`');
        assert forall|j: int| s.drop_last().len() - (k - 1) <= j < s.drop_last().len() implies #[trigger] s.drop_last()[j]
            == '`' by {
            assert(s.drop_last()[j] == s[j]);
        }
        lemma_trailing_ge(s.drop_last(), k - 1);
    }
}

/// Content cannot hold the fence around it: no run of backticks in a text is
/// as long as the fence built from it, inline or block.
pub proof fn law_fence_outlasts_content(s: Seq<char>, i: int, k: int)
    requires
        s.len() < usize::MAX,
        0 <= i,
        i + k <= s.len(),
        forall|j: int| i <= j < i + k ==> #[trigger] s[j] == '`',
    ensures
        k < inline_fence_len(s),
        k < block_fence_len(s),
        inline_fence_len(s) >= 1,
        block_fence_len(s) >= 3,
{
    lemma_trailing_le(s);
    if k > 0 {
        lemma_run_bounded(s, i, k);
    }
}

/// Counts the longest run of backticks (see `max_backtick_run`).
pub fn longest_backtick_run(v: &[char]) -> (m: usize)
    ensures
        m == max_backtick_run(v@),
{
    let mut max_run: usize = 0;
    let mut cur: usize = 0;
    let mut i: usize = 0;
    while i < v.len()
        invariant
            i <= v.len(),
            cur == trailing_backticks(v@.take(i as int)),
            max_run == max_backtick_run(v@.take(i as int)),
            cur <= i,
        decreases v.len() - i,
    {
        assert(v@.take(i + 1).drop_last() =~= v@.take(i as int));
        if v[i] == '`' {
            cur += 1;
            if cur > max_run {
                max_run = cur;
            }
        } else {
            cur = 0;
        }
        i += 1;
    }
    assert(v@.take(v@.len() as int) =~= v@);
    max_run
}

fn succ_capped_exec(n: usize) -> (r: usize)
    ensures
        r == succ_capped(n as nat),
{
    if n < usize::MAX {
        n + 1
    } else {
        n
    }
}

/// The fence length for inline raw text (see `inline_fence_len`).
pub fn inline_fence_length(v: &[char]) -> (n: usize)
    ensures
        n == inline_fence_len(v@),
{
    succ_capped_exec(longest_backtick_run(v))
}

/// The fence length for a raw block (see `block_fence_len`).
pub fn block_fence_length(v: &[char]) -> (n: usize)
    ensures
        n == block_fence_len(v@),
{
    let n = succ_capped_exec(longest_backtick_run(v));
    if n >= 3 {
        n
    } else {
        3
    }
}

// ---------------------------------------------------------------------------
// The converter's state
// ---------------------------------------------------------------------------

#[derive(Clone, Copy, PartialEq, Eq, Structural)]
pub enum ListKind {
    Unordered,
    Ordered,
}

#[derive(Clone, Copy, PartialEq, Eq, Structural)]
pub enum InlineStyle {
    Emphasis,
    Strong,
    Strikethrough,
}

/// The converter's state, as a value.
pub struct ConvState {
    pub in_image: bool,
    pub image_alt: Seq<char>,
    pub image_vpath: Option<Seq<char>>,
    pub output: Seq<char>,
    pub list_stack: Seq<ListKind>,
    pub in_code_block: bool,
    pub code_block_lang: Option<Seq<char>>,
    pub code_block_buf: Seq<char>,
    pub in_table: bool,
    pub table_alignments: Seq<Alignment>,
    pub table_row_cells: Seq<Seq<char>>,
    pub current_cell: Seq<char>,
    pub in_table_head: bool,
    pub needs_paragraph_break: bool,
    pub inline_stack: Seq<InlineStyle>,
    pub in_block_quote: bool,
    pub block_quote_buf: Seq<char>,
    pub in_block_quote_depth: nat,
    pub last_item_marker_end: Option<nat>,
}

/// The state before any event.
pub open spec fn initial_state() -> ConvState {
    ConvState {
        in_image: false,
        image_alt: seq![],
        image_vpath: None,
        output: seq![],
        list_stack: seq![],
        in_code_block: false,
        code_block_lang: None,
        code_block_buf: seq![],
        in_table: false,
        table_alignments: seq![],
        table_row_cells: seq![],
        current_cell: seq![],
        in_table_head: false,
        needs_paragraph_break: false,
        inline_stack: seq![],
        in_block_quote: false,
        block_quote_buf: seq![],
        in_block_quote_depth: 0,
        last_item_marker_end: None,
    }
}

pub open spec fn opt_view(o: Option<String>) -> Option<Seq<char>> {
    match o {
        Some(s) => Some(s@),
        None => None,
    }
}

pub open spec fn opt_nat(o: Option<usize>) -> Option<nat> {
    match o {
        Some(n) => Some(n as nat),
        None => None,
    }
}

/// Converts Markdown events to Typst markup. The markup goes to `output`,
/// except while a block quote, a table cell, a code block or an image's alt
/// text is being collected.
pub struct Converter {
    in_image: bool,
    image_alt: Vec<char>,
    image_vpath: Option<String>,
    output: Vec<char>,
    list_stack: Vec<ListKind>,
    in_code_block: bool,
    code_block_lang: Option<String>,
    code_block_buf: Vec<char>,
    in_table: bool,
    table_alignments: Vec<Alignment>,
    table_row_cells: Vec<Vec<char>>,
    current_cell: Vec<char>,
    in_table_head: bool,
    needs_paragraph_break: bool,
    inline_stack: Vec<InlineStyle>,
    in_block_quote: bool,
    block_quote_buf: Vec<char>,
    in_block_quote_depth: usize,
    last_item_marker_end: Option<usize>,
}

impl View for Converter {
    type V = ConvState;

    closed spec fn view(&self) -> ConvState {
        ConvState {
            in_image: self.in_image,
            image_alt: self.image_alt@,
            image_vpath: opt_view(self.image_vpath),
            output: self.output@,
            list_stack: self.list_stack@,
            in_code_block: self.in_code_block,
            code_block_lang: opt_view(self.code_block_lang),
            code_block_buf: self.code_block_buf@,
            in_table: self.in_table,
            table_alignments: self.table_alignments@,
            table_row_cells: self.table_row_cells@.map_values(|c: Vec<char>| c@),
            current_cell: self.current_cell@,
            in_table_head: self.in_table_head,
            needs_paragraph_break: self.needs_paragraph_break,
            inline_stack: self.inline_stack@,
            in_block_quote: self.in_block_quote,
            block_quote_buf: self.block_quote_buf@,
            in_block_quote_depth: self.in_block_quote_depth as nat,
            last_item_marker_end: opt_nat(self.last_item_marker_end),
        }
    }
}

// ---------------------------------------------------------------------------
// Where markup goes
// ---------------------------------------------------------------------------

/// Writes markup to wherever text is being collected: the code block, the
/// table cell, the block quote, or else the output.
pub open spec fn push_text(s: ConvState, t: Seq<char>) -> ConvState {
    if s.in_code_block {
        ConvState { code_block_buf: s.code_block_buf + t, ..s }
    } else if s.in_table {
        ConvState { current_cell: s.current_cell + t, ..s }
    } else if s.in_block_quote {
        ConvState { block_quote_buf: s.block_quote_buf + t, ..s }
    } else {
        ConvState { output: s.output + t, ..s }
    }
}

/// The buffer that block-level markup goes to: the block quote being
/// collected, or else the output.
pub open spec fn active_buf(s: ConvState) -> Seq<char> {
    if s.in_block_quote {
        s.block_quote_buf
    } else {
        s.output
    }
}

pub open spec fn append_active(s: ConvState, t: Seq<char>) -> ConvState {
    if s.in_block_quote {
        ConvState { block_quote_buf: s.block_quote_buf + t, ..s }
    } else {
        ConvState { output: s.output + t, ..s }
    }
}

/// Ends the active buffer's line, unless it already ends in one.
pub open spec fn ensure_newline(s: ConvState) -> ConvState {
    let b = active_buf(s);
    if b.len() > 0 && b.last() == '\n' {
        s
    } else {
        append_active(s, seq!['\n'])
    }
}

/// A blank line before a block, where a block came before it.
pub open spec fn paragraph_break(s: ConvState) -> ConvState {
    if s.needs_paragraph_break {
        push_text(s, seq!['\n'])
    } else {
        s
    }
}

pub open spec fn with_break_needed(s: ConvState) -> ConvState {
    ConvState { needs_paragraph_break: true, ..s }
}

// ---------------------------------------------------------------------------
// What each event does
// ---------------------------------------------------------------------------

/// A heading's marker: one `=` per level and a space.
pub open spec fn heading_marker(l: HeadingLevel) -> Seq<char> {
    repeat_char('=', level_number(l)) + seq![' ']
}

pub open spec fn alignment_name(a: Alignment) -> Seq<char> {
    match a {
        Alignment::Left => "left"@,
        Alignment::Center => "center"@,
        Alignment::Right => "right"@,
        Alignment::Unspecified => "left"@,
    }
}

pub open spec fn alignment_names(aligns: Seq<Alignment>) -> Seq<Seq<char>> {
    aligns.map_values(|a: Alignment| alignment_name(a))
}

/// The opening of a table: its column count and the alignment of each column.
pub open spec fn table_open_markup(aligns: Seq<Alignment>) -> Seq<char> {
    "#table(\n  columns: "@ + decimal(aligns.len()) + ",\n  align: ("@ + join(
        alignment_names(aligns),
        ", "@,
    ) + "),\n  stroke: 0.5pt + luma(200),\n  inset: 8pt,\n"@
}

/// A list item's marker: indented two spaces per enclosing list, `+` in an
/// ordered list and `-` otherwise.
pub open spec fn item_marker(stack: Seq<ListKind>) -> Seq<char> {
    let depth: nat = if stack.len() > 0 {
        (stack.len() - 1) as nat
    } else {
        0
    };
    let marker = if stack.len() > 0 && stack.last() == ListKind::Ordered {
        "+ "@
    } else {
        "- "@
    };
    repeat_seq("  "@, depth) + marker
}

/// A list item is marked by its own list, the innermost one: `+ ` when that
/// list is ordered and `- ` when it is not, whatever lists enclose it, after
/// two spaces for each enclosing list. The item starts on a line of its own
/// and changes nothing else.
pub proof fn law_item_marker_of_innermost_list(
    s: ConvState,
    r: RegistryView,
    ctx: ImageContextView,
    outer: Seq<ListKind>,
    innermost: ListKind,
)
    requires
        s.list_stack == outer.push(innermost),
    ensures
        ({
            let (s2, r2) = start_tag_spec(s, r, TagView::Item, ctx);
            let line_start = repeat_seq("  "@, outer.len()) + if innermost == ListKind::Ordered {
                "+ "@
            } else {
                "- "@
            };
            &&& r2 == r
            &&& ConvState { last_item_marker_end: None, ..s2 } == ConvState {
                last_item_marker_end: None,
                ..push_text(ensure_newline(s), line_start)
            }
        }),
{
    assert(outer.push(innermost).last() == innermost);
}

/// A fenced code block's language: its info string, trimmed, when that is
/// not empty.
pub open spec fn code_language(info: Option<Seq<char>>) -> Option<Seq<char>> {
    match info {
        Some(i) => if trim(i).len() == 0 {
            None
        } else {
            Some(trim(i))
        },
        None => None,
    }
}

/// The link's opening: a `#link` call with the escaped destination.
pub open spec fn link_open_markup(dest: Seq<char>) -> Seq<char> {
    "#link(\""@ + escape_quoted(dest) + "\")["@
}

/// An image starts collecting its alt text; its destination is resolved,
/// checked and registered, or the reason it cannot be used is recorded.
pub open spec fn image_start(
    s: ConvState,
    r: RegistryView,
    dest: Seq<char>,
    ctx: ImageContextView,
) -> (ConvState, RegistryView) {
    let s1 = ConvState { in_image: true, image_alt: seq![], ..s };
    match resolve_image_spec(dest, ctx) {
        Ok(path) => match image_extension_spec(path) {
            Ok(ext) => {
                let (r1, v) = register_spec(r, path, ext);
                (ConvState { image_vpath: Some(v), ..s1 }, r1)
            },
            Err(reason) => (
                ConvState { image_vpath: None, ..s1 },
                RegistryView { warnings: r.warnings.push(reason), ..r },
            ),
        },
        Err(reason) => (
            ConvState { image_vpath: None, ..s1 },
            RegistryView { warnings: r.warnings.push(reason), ..r },
        ),
    }
}

/// What an opening tag does.
pub open spec fn start_tag_spec(
    s: ConvState,
    r: RegistryView,
    tag: TagView,
    ctx: ImageContextView,
) -> (ConvState, RegistryView) {
    match tag {
        TagView::Paragraph => (
            if s.needs_paragraph_break && s.list_stack.len() == 0 {
                push_text(s, seq!['\n'])
            } else {
                s
            },
            r,
        ),
        TagView::Heading(l) => (push_text(paragraph_break(s), heading_marker(l)), r),
        TagView::BlockQuote => (
            if s.in_block_quote {
                ConvState { in_block_quote_depth: s.in_block_quote_depth + 1, ..s }
            } else {
                let s1 = if s.needs_paragraph_break {
                    ConvState { output: s.output.push('\n'), ..s }
                } else {
                    s
                };
                ConvState {
                    in_block_quote: true,
                    in_block_quote_depth: 1,
                    block_quote_buf: seq![],
                    ..s1
                }
            },
            r,
        ),
        TagView::CodeBlock(info) => {
            let s1 = if s.needs_paragraph_break && !s.in_block_quote {
                ConvState { output: s.output.push('\n'), ..s }
            } else {
                s
            };
            (
                ConvState {
                    in_code_block: true,
                    code_block_buf: seq![],
                    code_block_lang: code_language(info),
                    ..s1
                },
                r,
            )
        },
        TagView::List(ordered) => {
            let s1 = if s.list_stack.len() == 0 && s.needs_paragraph_break {
                push_text(s, seq!['\n'])
            } else {
                s
            };
            let kind = if ordered {
                ListKind::Ordered
            } else {
                ListKind::Unordered
            };
            (ConvState { list_stack: s1.list_stack.push(kind), ..s1 }, r)
        },
        TagView::Item => {
            let s1 = ensure_newline(s);
            let s2 = push_text(s1, item_marker(s1.list_stack));
            (ConvState { last_item_marker_end: Some(active_buf(s2).len()), ..s2 }, r)
        },
        TagView::Emphasis => (
            push_text(
                ConvState { inline_stack: s.inline_stack.push(InlineStyle::Emphasis), ..s },
                "_"@,
            ),
            r,
        ),
        TagView::Strong => (
            push_text(ConvState { inline_stack: s.inline_stack.push(InlineStyle::Strong), ..s }, "*"@),
            r,
        ),
        TagView::Strikethrough => (
            push_text(
                ConvState { inline_stack: s.inline_stack.push(InlineStyle::Strikethrough), ..s },
                "#strike["@,
            ),
            r,
        ),
        TagView::Link(dest) => (push_text(s, link_open_markup(dest)), r),
        TagView::Image(dest) => image_start(s, r, dest, ctx),
        TagView::Table(aligns) => {
            let s1 = paragraph_break(s);
            let s2 = ConvState {
                in_table: true,
                table_alignments: aligns,
                table_row_cells: seq![],
                ..s1
            };
            (append_active(s2, table_open_markup(aligns)), r)
        },
        TagView::TableHead => (
            ConvState { in_table_head: true, table_row_cells: seq![], ..s },
            r,
        ),
        TagView::TableRow => (ConvState { table_row_cells: seq![], ..s }, r),
        TagView::TableCell => (ConvState { current_cell: seq![], ..s }, r),
        TagView::Other => (s, r),
    }
}

/// A block quote's markup around its trimmed content.
pub open spec fn block_quote_markup(content: Seq<char>) -> Seq<char> {
    "#block(inset: (left: 12pt), stroke: (left: 2pt + luma(180)))["@ + trim(content) + "]\n"@
}

/// A raw block: the code without its trailing newlines, fenced by backticks
/// that the code cannot hold, with the language after the opening fence.
pub open spec fn code_block_markup(code: Seq<char>, lang: Option<Seq<char>>) -> Seq<char> {
    let body = trim_end_char(code, '\n');
    let fence = repeat_char('`', block_fence_len(body));
    let tag = match lang {
        Some(l) => l,
        None => seq![],
    };
    fence + tag + seq!['\n'] + body + seq!['\n'] + fence + seq!['\n']
}

/// A table's header row: each cell trimmed and in bold.
pub open spec fn header_cells(cells: Seq<Seq<char>>) -> Seq<Seq<char>> {
    cells.map_values(|c: Seq<char>| "[*"@ + trim(c) + "*]"@)
}

pub open spec fn header_markup(cells: Seq<Seq<char>>) -> Seq<char> {
    "  table.header("@ + join(header_cells(cells), ", "@) + "),\n"@
}

/// A table's body row: each cell trimmed, on a line of its own.
pub open spec fn row_markup(cells: Seq<Seq<char>>) -> Seq<char>
    decreases cells.len(),
{
    if cells.len() == 0 {
        seq![]
    } else {
        row_markup(cells.drop_last()) + "  ["@ + trim(cells.last()) + "],\n"@
    }
}

/// An image with a virtual path: an `#image` call, with the alt text as a
/// string argument where there is one.
pub open spec fn image_markup(vpath: Seq<char>, alt: Seq<char>) -> Seq<char> {
    if alt.len() == 0 {
        "#image(\""@ + vpath + "\")"@
    } else {
        "#image(\""@ + vpath + "\", alt: \""@ + escape_quoted(alt) + "\")"@
    }
}

/// What a closing tag does.
pub open spec fn end_tag_spec(s: ConvState, tag: MdTagEnd) -> ConvState {
    match tag {
        MdTagEnd::Paragraph => with_break_needed(push_text(s, seq!['\n'])),
        MdTagEnd::Heading => with_break_needed(push_text(s, seq!['\n'])),
        MdTagEnd::BlockQuote => if s.in_block_quote_depth > 1 {
            ConvState { in_block_quote_depth: (s.in_block_quote_depth - 1) as nat, ..s }
        } else {
            ConvState {
                in_block_quote: false,
                in_block_quote_depth: 0,
                block_quote_buf: seq![],
                output: s.output + block_quote_markup(s.block_quote_buf),
                needs_paragraph_break: true,
                ..s
            }
        },
        MdTagEnd::CodeBlock => {
            let s1 = ConvState {
                in_code_block: false,
                code_block_buf: seq![],
                code_block_lang: None,
                ..s
            };
            with_break_needed(
                append_active(s1, code_block_markup(s.code_block_buf, s.code_block_lang)),
            )
        },
        MdTagEnd::List => {
            let stack = if s.list_stack.len() > 0 {
                s.list_stack.drop_last()
            } else {
                s.list_stack
            };
            ConvState {
                list_stack: stack,
                needs_paragraph_break: if stack.len() == 0 {
                    true
                } else {
                    s.needs_paragraph_break
                },
                ..s
            }
        },
        MdTagEnd::Item => ensure_newline(s),
        MdTagEnd::Emphasis => push_text(pop_style(s), "_"@),
        MdTagEnd::Strong => push_text(pop_style(s), "*"@),
        MdTagEnd::Strikethrough => push_text(pop_style(s), "]"@),
        MdTagEnd::Link => push_text(s, "]"@),
        MdTagEnd::Image => {
            let s1 = ConvState { in_image: false, image_alt: seq![], image_vpath: None, ..s };
            match s.image_vpath {
                Some(v) => push_text(s1, image_markup(v, s.image_alt)),
                None => if s.image_alt.len() > 0 {
                    push_text(s1, escape_markup(s.image_alt))
                } else {
                    s1
                },
            }
        },
        MdTagEnd::Table => with_break_needed(
            append_active(ConvState { in_table: false, ..s }, ")\n"@),
        ),
        MdTagEnd::TableHead => {
            let s1 = append_active(
                ConvState { in_table_head: false, ..s },
                header_markup(s.table_row_cells),
            );
            ConvState { table_row_cells: seq![], ..s1 }
        },
        MdTagEnd::TableRow => {
            let s1 = if !s.in_table_head {
                append_active(s, row_markup(s.table_row_cells))
            } else {
                s
            };
            ConvState { table_row_cells: seq![], ..s1 }
        },
        MdTagEnd::TableCell => ConvState {
            table_row_cells: s.table_row_cells.push(s.current_cell),
            current_cell: seq![],
            ..s
        },
        MdTagEnd::Other => s,
    }
}

pub open spec fn pop_style(s: ConvState) -> ConvState {
    ConvState {
        inline_stack: if s.inline_stack.len() > 0 {
            s.inline_stack.drop_last()
        } else {
            s.inline_stack
        },
        ..s
    }
}

/// Text goes to the alt text inside an image, verbatim into a code block,
/// and escaped everywhere else.
pub open spec fn text_spec(s: ConvState, t: Seq<char>) -> ConvState {
    if s.in_image {
        ConvState { image_alt: s.image_alt + t, ..s }
    } else if s.in_code_block {
        ConvState { code_block_buf: s.code_block_buf + t, ..s }
    } else {
        push_text(s, escape_markup(t))
    }
}

/// Inline code: fenced by backticks it cannot hold, with a space between
/// fence and code where the code starts or ends with a backtick.
pub open spec fn inline_code_markup(c: Seq<char>) -> Seq<char> {
    let fence = repeat_char('`', inline_fence_len(c));
    let pad_left = if c.len() > 0 && c[0] == '`' {
        seq![' ']
    } else {
        seq![]
    };
    let pad_right = if c.len() > 0 && c.last() == '`' {
        seq![' ']
    } else {
        seq![]
    };
    fence + pad_left + c + pad_right + fence
}

/// The marker of a task list item.
pub open spec fn task_symbol(checked: bool) -> Seq<char> {
    if checked {
        "#check-done "@
    } else {
        "#check-todo "@
    }
}

pub open spec fn insert_at(b: Seq<char>, pos: nat, t: Seq<char>) -> Seq<char> {
    b.take(pos as int) + t + b.skip(pos as int)
}

/// A task marker goes right after the marker of the item it belongs to.
pub open spec fn task_marker_spec(s: ConvState, checked: bool) -> ConvState {
    match s.last_item_marker_end {
        Some(pos) => {
            let s1 = ConvState { last_item_marker_end: None, ..s };
            if pos <= active_buf(s1).len() {
                if s1.in_block_quote {
                    ConvState {
                        block_quote_buf: insert_at(s1.block_quote_buf, pos, task_symbol(checked)),
                        ..s1
                    }
                } else {
                    ConvState { output: insert_at(s1.output, pos, task_symbol(checked)), ..s1 }
                }
            } else {
                s1
            }
        },
        None => s,
    }
}

pub open spec fn rule_markup() -> Seq<char> {
    "#line(length: 100%, stroke: 0.5pt + luma(180))\n"@
}

/// What one event does to the converter and the registry.
pub open spec fn event_spec(
    s: ConvState,
    r: RegistryView,
    ev: EventView,
    ctx: ImageContextView,
) -> (ConvState, RegistryView) {
    match ev {
        EventView::Start(tag) => start_tag_spec(s, r, tag, ctx),
        EventView::End(tag) => (end_tag_spec(s, tag), r),
        EventView::Text(t) => (text_spec(s, t), r),
        EventView::Code(c) => (push_text(s, inline_code_markup(c)), r),
        EventView::SoftBreak => (
            if s.in_code_block {
                ConvState { code_block_buf: s.code_block_buf.push('\n'), ..s }
            } else {
                push_text(s, seq!['\n'])
            },
            r,
        ),
        EventView::HardBreak => (push_text(s, " \\\n"@), r),
        EventView::Rule => (with_break_needed(push_text(paragraph_break(s), rule_markup())), r),
        EventView::TaskListMarker(checked) => (task_marker_spec(s, checked), r),
        EventView::Other => (s, r),
    }
}

/// The state and registry after a sequence of events.
pub open spec fn run_events(
    s: ConvState,
    r: RegistryView,
    evs: Seq<EventView>,
    ctx: ImageContextView,
) -> (ConvState, RegistryView)
    decreases evs.len(),
{
    if evs.len() == 0 {
        (s, r)
    } else {
        let (s1, r1) = run_events(s, r, evs.drop_last(), ctx);
        event_spec(s1, r1, evs.last(), ctx)
    }
}

/// The markup a sequence of events converts to, and the registry after it.
pub open spec fn render_spec(
    evs: Seq<EventView>,
    ctx: ImageContextView,
    r: RegistryView,
) -> (Seq<char>, RegistryView) {
    let (s, r1) = run_events(initial_state(), r, evs, ctx);
    (s.output, r1)
}

// ---------------------------------------------------------------------------
// The converter
// ---------------------------------------------------------------------------

/// Moves a buffer's contents out, leaving it empty.
fn take_chars(v: &mut Vec<char>) -> (r: Vec<char>)
    ensures
        r@ == old(v)@,
        final(v)@ == Seq::<char>::empty(),
{
    let mut r: Vec<char> = Vec::new();
    r.append(v);
    r
}

/// Concatenates character buffers.
fn cat(a: Vec<char>, b: Vec<char>) -> (r: Vec<char>)
    ensures
        r@ == a@ + b@,
{
    let mut a = a;
    let mut b = b;
    a.append(&mut b);
    a
}

fn chars_lit(s: &str) -> (r: Vec<char>)
    ensures
        r@ == s@,
{
    chars_of(s)
}

fn insert_chars(b: &Vec<char>, pos: usize, t: &str) -> (r: Vec<char>)
    requires
        pos <= b@.len(),
    ensures
        r@ == insert_at(b@, pos as nat, t@),
{
    let mut r: Vec<char> = Vec::new();
    let mut i: usize = 0;
    while i < pos
        invariant
            i <= pos <= b.len(),
            r@ == b@.take(i as int),
        decreases pos - i,
    {
        r.push(b[i]);
        assert(b@.take(i + 1) =~= b@.take(i as int).push(b@[i as int]));
        i += 1;
    }
    append_str(&mut r, t);
    let mut k: usize = pos;
    while k < b.len()
        invariant
            pos <= k <= b.len(),
            r@ == b@.take(pos as int) + t@ + b@.subrange(pos as int, k as int),
        decreases b.len() - k,
    {
        r.push(b[k]);
        assert(b@.subrange(pos as int, k + 1) =~= b@.subrange(pos as int, k as int).push(
            b@[k as int],
        ));
        k += 1;
    }
    assert(b@.subrange(pos as int, b@.len() as int) =~= b@.skip(pos as int));
    r
}

impl Converter {
    /// A converter that has seen no event.
    pub fn new() -> (c: Self)
        ensures
            c@ == initial_state(),
    {
        let c = Converter {
            in_image: false,
            image_alt: Vec::new(),
            image_vpath: None,
            output: Vec::new(),
            list_stack: Vec::new(),
            in_code_block: false,
            code_block_lang: None,
            code_block_buf: Vec::new(),
            in_table: false,
            table_alignments: Vec::new(),
            table_row_cells: Vec::new(),
            current_cell: Vec::new(),
            in_table_head: false,
            needs_paragraph_break: false,
            inline_stack: Vec::new(),
            in_block_quote: false,
            block_quote_buf: Vec::new(),
            in_block_quote_depth: 0,
            last_item_marker_end: None,
        };
        assert(c.table_row_cells@.map_values(|v: Vec<char>| v@) =~= Seq::<Seq<char>>::empty());
        c
    }

    /// The markup written so far.
    pub fn output(&self) -> (r: String)
        ensures
            r@ == self@.output,
    {
        string_of(self.output.as_slice())
    }

    /// The nesting depth of block quotes.
    pub fn block_quote_depth(&self) -> (d: usize)
        ensures
            d == self@.in_block_quote_depth,
    {
        self.in_block_quote_depth
    }

    fn push_chars(&mut self, t: Vec<char>)
        ensures
            final(self)@ == push_text(old(self)@, t@),
    {
        let mut t = t;
        if self.in_code_block {
            self.code_block_buf.append(&mut t);
        } else if self.in_table {
            self.current_cell.append(&mut t);
        } else if self.in_block_quote {
            self.block_quote_buf.append(&mut t);
        } else {
            self.output.append(&mut t);
        }
    }

    fn push(&mut self, s: &str)
        ensures
            final(self)@ == push_text(old(self)@, s@),
    {
        self.push_chars(chars_of(s));
    }

    fn push_newline(&mut self)
        ensures
            final(self)@ == push_text(old(self)@, seq!['\n']),
    {
        let mut v: Vec<char> = Vec::new();
        v.push('\n');
        self.push_chars(v);
    }

    fn append_active(&mut self, t: Vec<char>)
        ensures
            final(self)@ == append_active(old(self)@, t@),
    {
        let mut t = t;
        if self.in_block_quote {
            self.block_quote_buf.append(&mut t);
        } else {
            self.output.append(&mut t);
        }
    }

    fn active_len(&self) -> (n: usize)
        ensures
            n == active_buf(self@).len(),
    {
        if self.in_block_quote {
            self.block_quote_buf.len()
        } else {
            self.output.len()
        }
    }

    fn ensure_newline(&mut self)
        ensures
            final(self)@ == ensure_newline(old(self)@),
    {
        let ends = if self.in_block_quote {
            self.block_quote_buf.len() > 0 && self.block_quote_buf[self.block_quote_buf.len() - 1]
                == '\n'
        } else {
            self.output.len() > 0 && self.output[self.output.len() - 1] == '\n'
        };
        if !ends {
            let mut v: Vec<char> = Vec::new();
            v.push('\n');
            self.append_active(v);
        }
    }

    fn paragraph_break(&mut self)
        ensures
            final(self)@ == paragraph_break(old(self)@),
    {
        if self.needs_paragraph_break {
            self.push_newline();
        }
    }

    // ----- opening tags -----

    fn heading_start(&mut self, level: HeadingLevel)
        ensures
            final(self)@ == push_text(paragraph_break(old(self)@), heading_marker(level)),
    {
        self.paragraph_break();
        let n: usize = match level {
            HeadingLevel::H1 => 1,
            HeadingLevel::H2 => 2,
            HeadingLevel::H3 => 3,
            HeadingLevel::H4 => 4,
            HeadingLevel::H5 => 5,
            HeadingLevel::H6 => 6,
        };
        assert(n as nat == level_number(level));
        let mut marker = repeat_char_string('=', n);
        push_char(&mut marker, ' ');
        assert(marker@ =~= heading_marker(level));
        self.push_chars(chars_of(marker.as_str()));
    }

    fn block_quote_start(&mut self)
        requires
            old(self)@.in_block_quote_depth < usize::MAX,
        ensures
            (final(self)@, RegistryView { assets: seq![], warnings: seq![] }) == start_tag_spec(
                old(self)@,
                RegistryView { assets: seq![], warnings: seq![] },
                TagView::BlockQuote,
                ImageContextView { base: None, home: None, existing_files: seq![] },
            ),
    {
        if self.in_block_quote {
            self.in_block_quote_depth = self.in_block_quote_depth + 1;
        } else {
            if self.needs_paragraph_break {
                self.output.push('\n');
            }
            self.in_block_quote = true;
            self.in_block_quote_depth = 1;
            self.block_quote_buf.clear();
        }
    }

    fn code_block_start(&mut self, info: Option<String>)
        ensures
            final(self)@ == ({
                let s = old(self)@;
                let s1 = if s.needs_paragraph_break && !s.in_block_quote {
                    ConvState { output: s.output.push('\n'), ..s }
                } else {
                    s
                };
                ConvState {
                    in_code_block: true,
                    code_block_buf: seq![],
                    code_block_lang: code_language(opt_view(info)),
                    ..s1
                }
            }),
    {
        if self.needs_paragraph_break && !self.in_block_quote {
            self.output.push('\n');
        }
        self.in_code_block = true;
        self.code_block_buf.clear();
        self.code_block_lang = match info {
            Some(i) => {
                let t = crate::text::trim_str(i.as_str());
                if t.as_str().unicode_len() == 0 {
                    None
                } else {
                    Some(t)
                }
            },
            None => None,
        };
    }

    fn list_start(&mut self, ordered: bool)
        ensures
            (final(self)@, RegistryView { assets: seq![], warnings: seq![] }) == start_tag_spec(
                old(self)@,
                RegistryView { assets: seq![], warnings: seq![] },
                TagView::List(ordered),
                ImageContextView { base: None, home: None, existing_files: seq![] },
            ),
    {
        if self.list_stack.len() == 0 && self.needs_paragraph_break {
            self.push_newline();
        }
        if ordered {
            self.list_stack.push(ListKind::Ordered);
        } else {
            self.list_stack.push(ListKind::Unordered);
        }
    }

    fn item_start(&mut self)
        ensures
            (final(self)@, RegistryView { assets: seq![], warnings: seq![] }) == start_tag_spec(
                old(self)@,
                RegistryView { assets: seq![], warnings: seq![] },
                TagView::Item,
                ImageContextView { base: None, home: None, existing_files: seq![] },
            ),
    {
        self.ensure_newline();
        let len = self.list_stack.len();
        let depth: usize = if len > 0 {
            len - 1
        } else {
            0
        };
        let mut marker = repeat_str("  ", depth);
        if len > 0 && self.list_stack[len - 1] == ListKind::Ordered {
            marker.append("+ ");
        } else {
            marker.append("- ");
        }
        self.push_chars(chars_of(marker.as_str()));
        let n = self.active_len();
        self.last_item_marker_end = Some(n);
    }

    fn style_start(&mut self, style: InlineStyle, marker: &str)
        ensures
            final(self)@ == push_text(
                ConvState { inline_stack: old(self)@.inline_stack.push(style), ..old(self)@ },
                marker@,
            ),
    {
        self.inline_stack.push(style);
        self.push(marker);
    }

    fn link_start(&mut self, dest: String)
        ensures
            final(self)@ == push_text(old(self)@, link_open_markup(dest@)),
    {
        let mut m = String::from_str("#link(\"");
        let e = crate::text::escape_typst_string(dest.as_str());
        m.append(e.as_str());
        m.append("\")[");
        self.push_chars(chars_of(m.as_str()));
    }

    fn image_start(&mut self, dest: String, ctx: &ImageContext, registry: &mut AssetRegistry)
        ensures
            (final(self)@, final(registry).view()) == image_start(
                old(self)@,
                old(registry).view(),
                dest@,
                ctx@,
            ),
    {
        self.in_image = true;
        self.image_alt.clear();
        let resolved = resolve_image_path(dest.as_str(), ctx);
        match resolved {
            Ok(path) => {
                let ext = image_extension(path.as_str());
                match ext {
                    Ok(e) => {
                        let v = registry.register(path, e.as_str());
                        self.image_vpath = Some(v);
                    },
                    Err(reason) => {
                        registry.warn(reason);
                        self.image_vpath = None;
                    },
                }
            },
            Err(reason) => {
                registry.warn(reason);
                self.image_vpath = None;
            },
        }
    }

    fn table_start(&mut self, aligns: Vec<Alignment>)
        ensures
            (final(self)@, RegistryView { assets: seq![], warnings: seq![] }) == start_tag_spec(
                old(self)@,
                RegistryView { assets: seq![], warnings: seq![] },
                TagView::Table(aligns@),
                ImageContextView { base: None, home: None, existing_files: seq![] },
            ),
    {
        self.paragraph_break();
        let mut names: Vec<String> = Vec::new();
        let mut i: usize = 0;
        while i < aligns.len()
            invariant
                i <= aligns.len(),
                names@.len() == i,
                forall|k: int| 0 <= k < i ==> (#[trigger] names@[k])@ == alignment_name(aligns@[k]),
            decreases aligns.len() - i,
        {
            let name = match aligns[i] {
                Alignment::Left => String::from_str("left"),
                Alignment::Center => String::from_str("center"),
                Alignment::Right => String::from_str("right"),
                Alignment::Unspecified => String::from_str("left"),
            };
            names.push(name);
            i += 1;
        }
        assert(string_views(names@) =~= alignment_names(aligns@));
        let mut header = String::from_str("#table(\n  columns: ");
        let n = decimal_string(aligns.len());
        header.append(n.as_str());
        header.append(",\n  align: (");
        let joined = crate::text::join_strings(&names, ", ");
        header.append(joined.as_str());
        header.append("),\n  stroke: 0.5pt + luma(200),\n  inset: 8pt,\n");
        self.in_table = true;
        self.table_alignments = aligns;
        self.table_row_cells = Vec::new();
        assert(self.table_row_cells@.map_values(|c: Vec<char>| c@) =~= Seq::<Seq<char>>::empty());
        self.append_active(chars_of(header.as_str()));
    }

    /// Handles an opening tag (see `start_tag_spec`).
    pub fn start_tag(&mut self, tag: MdTag, ctx: &ImageContext, registry: &mut AssetRegistry)
        requires
            old(self)@.in_block_quote_depth < usize::MAX,
        ensures
            (final(self)@, final(registry).view()) == start_tag_spec(
                old(self)@,
                old(registry).view(),
                tag@,
                ctx@,
            ),
    {
        match tag {
            MdTag::Paragraph => {
                if self.needs_paragraph_break && self.list_stack.len() == 0 {
                    self.push_newline();
                }
            },
            MdTag::Heading(level) => self.heading_start(level),
            MdTag::BlockQuote => self.block_quote_start(),
            MdTag::CodeBlock(info) => self.code_block_start(info),
            MdTag::List(ordered) => self.list_start(ordered),
            MdTag::Item => self.item_start(),
            MdTag::Emphasis => self.style_start(InlineStyle::Emphasis, "_"),
            MdTag::Strong => self.style_start(InlineStyle::Strong, "*"),
            MdTag::Strikethrough => self.style_start(InlineStyle::Strikethrough, "#strike["),
            MdTag::Link(dest) => self.link_start(dest),
            MdTag::Image(dest) => self.image_start(dest, ctx, registry),
            MdTag::Table(aligns) => self.table_start(aligns),
            MdTag::TableHead => {
                self.in_table_head = true;
                self.table_row_cells = Vec::new();
                assert(self.table_row_cells@.map_values(|c: Vec<char>| c@) =~= Seq::<Seq<char>>::empty());
            },
            MdTag::TableRow => {
                self.table_row_cells = Vec::new();
                assert(self.table_row_cells@.map_values(|c: Vec<char>| c@) =~= Seq::<Seq<char>>::empty());
            },
            MdTag::TableCell => {
                self.current_cell.clear();
            },
            MdTag::Other => {},
        }
    }

    // ----- closing tags -----

    fn block_quote_end(&mut self)
        ensures
            final(self)@ == end_tag_spec(old(self)@, MdTagEnd::BlockQuote),
    {
        if self.in_block_quote_depth > 1 {
            self.in_block_quote_depth = self.in_block_quote_depth - 1;
        } else {
            self.in_block_quote = false;
            self.in_block_quote_depth = 0;
            let content = take_chars(&mut self.block_quote_buf);
            let trimmed = trim_chars(content.as_slice());
            let m = cat(
                cat(chars_lit("#block(inset: (left: 12pt), stroke: (left: 2pt + luma(180)))["), trimmed),
                chars_lit("]\n"),
            );
            self.output.append(&mut m.clone());
            self.needs_paragraph_break = true;
        }
    }

    fn code_block_end(&mut self)
        ensures
            final(self)@ == end_tag_spec(old(self)@, MdTagEnd::CodeBlock),
    {
        self.in_code_block = false;
        let code = take_chars(&mut self.code_block_buf);
        let lang = self.code_block_lang.take();
        let body = trim_end_matches_chars(code.as_slice(), '\n');
        let fence = repeat_char_string('`', block_fence_length(body.as_slice()));
        let fence_chars = chars_of(fence.as_str());
        let tag = match lang {
            Some(l) => chars_of(l.as_str()),
            None => Vec::new(),
        };
        let mut nl: Vec<char> = Vec::new();
        nl.push('\n');
        let rendered = cat(
            cat(cat(cat(cat(fence_chars.clone(), tag), nl.clone()), body), nl.clone()),
            cat(fence_chars, nl),
        );
        proof {
            let c = old(self)@.code_block_buf;
            assert(rendered@ =~= code_block_markup(c, old(self)@.code_block_lang));
        }
        self.append_active(rendered);
        self.needs_paragraph_break = true;
    }

    fn list_end(&mut self)
        ensures
            final(self)@ == end_tag_spec(old(self)@, MdTagEnd::List),
    {
        self.list_stack.pop();
        if self.list_stack.len() == 0 {
            self.needs_paragraph_break = true;
        }
    }

    fn style_end(&mut self, marker: &str)
        ensures
            final(self)@ == push_text(pop_style(old(self)@), marker@),
    {
        self.inline_stack.pop();
        self.push(marker);
    }

    fn image_end(&mut self)
        ensures
            final(self)@ == end_tag_spec(old(self)@, MdTagEnd::Image),
    {
        self.in_image = false;
        let alt = take_chars(&mut self.image_alt);
        let vpath = self.image_vpath.take();
        match vpath {
            Some(v) => {
                let rendered = if alt.len() == 0 {
                    let mut m = String::from_str("#image(\"");
                    m.append(v.as_str());
                    m.append("\")");
                    chars_of(m.as_str())
                } else {
                    let mut m = String::from_str("#image(\"");
                    m.append(v.as_str());
                    m.append("\", alt: \"");
                    let e = string_of(escape_quoted_chars(alt.as_slice()).as_slice());
                    m.append(e.as_str());
                    m.append("\")");
                    chars_of(m.as_str())
                };
                self.push_chars(rendered);
            },
            None => {
                if alt.len() > 0 {
                    self.push_chars(escape_markup_chars(alt.as_slice()));
                }
            },
        }
    }

    fn table_end(&mut self)
        ensures
            final(self)@ == end_tag_spec(old(self)@, MdTagEnd::Table),
    {
        self.in_table = false;
        self.append_active(chars_lit(")\n"));
        self.needs_paragraph_break = true;
    }

    fn table_head_end(&mut self)
        ensures
            final(self)@ == end_tag_spec(old(self)@, MdTagEnd::TableHead),
    {
        self.in_table_head = false;
        let ghost cells = old(self)@.table_row_cells;
        let mut parts: Vec<String> = Vec::new();
        let mut i: usize = 0;
        while i < self.table_row_cells.len()
            invariant
                self@.table_row_cells == cells,
                i <= cells.len(),
                parts@.len() == i,
                forall|k: int| 0 <= k < i ==> (#[trigger] parts@[k])@ == header_cells(cells)[k],
            decreases self.table_row_cells.len() - i,
        {
            let t = trim_chars(self.table_row_cells[i].as_slice());
            assert(self.table_row_cells@[i as int]@ == cells[i as int]);
            let mut p = String::from_str("[*");
            p.append(string_of(t.as_slice()).as_str());
            p.append("*]");
            parts.push(p);
            i += 1;
        }
        assert(string_views(parts@) =~= header_cells(cells));
        let mut line = String::from_str("  table.header(");
        let j = crate::text::join_strings(&parts, ", ");
        line.append(j.as_str());
        line.append("),\n");
        self.append_active(chars_of(line.as_str()));
        self.table_row_cells = Vec::new();
        assert(self.table_row_cells@.map_values(|c: Vec<char>| c@) =~= Seq::<Seq<char>>::empty());
    }

    fn table_row_end(&mut self)
        ensures
            final(self)@ == end_tag_spec(old(self)@, MdTagEnd::TableRow),
    {
        if !self.in_table_head {
            let ghost cells = old(self)@.table_row_cells;
            let mut rows: Vec<char> = Vec::new();
            let mut i: usize = 0;
            while i < self.table_row_cells.len()
                invariant
                    self@.table_row_cells == cells,
                    self@ == old(self)@,
                    i <= cells.len(),
                    rows@ == row_markup(cells.take(i as int)),
                decreases self.table_row_cells.len() - i,
            {
                let t = trim_chars(self.table_row_cells[i].as_slice());
                assert(self.table_row_cells@[i as int]@ == cells[i as int]);
                assert(cells.take(i + 1).drop_last() =~= cells.take(i as int));
                let piece = cat(cat(chars_lit("  ["), t), chars_lit("],\n"));
                rows = cat(rows, piece);
                i += 1;
            }
            assert(cells.take(cells.len() as int) =~= cells);
            self.append_active(rows);
        }
        self.table_row_cells = Vec::new();
        assert(self.table_row_cells@.map_values(|c: Vec<char>| c@) =~= Seq::<Seq<char>>::empty());
    }

    fn table_cell_end(&mut self)
        ensures
            final(self)@ == end_tag_spec(old(self)@, MdTagEnd::TableCell),
    {
        let cell = take_chars(&mut self.current_cell);
        let ghost before = self.table_row_cells@;
        self.table_row_cells.push(cell);
        assert(self.table_row_cells@.map_values(|c: Vec<char>| c@) =~= before.map_values(
            |c: Vec<char>| c@,
        ).push(cell@));
    }

    /// Handles a closing tag (see `end_tag_spec`).
    pub fn end_tag(&mut self, tag: MdTagEnd)
        ensures
            final(self)@ == end_tag_spec(old(self)@, tag),
    {
        match tag {
            MdTagEnd::Paragraph | MdTagEnd::Heading => {
                self.push_newline();
                self.needs_paragraph_break = true;
            },
            MdTagEnd::BlockQuote => self.block_quote_end(),
            MdTagEnd::CodeBlock => self.code_block_end(),
            MdTagEnd::List => self.list_end(),
            MdTagEnd::Item => self.ensure_newline(),
            MdTagEnd::Emphasis => self.style_end("_"),
            MdTagEnd::Strong => self.style_end("*"),
            MdTagEnd::Strikethrough => self.style_end("]"),
            MdTagEnd::Link => self.push("]"),
            MdTagEnd::Image => self.image_end(),
            MdTagEnd::Table => self.table_end(),
            MdTagEnd::TableHead => self.table_head_end(),
            MdTagEnd::TableRow => self.table_row_end(),
            MdTagEnd::TableCell => self.table_cell_end(),
            MdTagEnd::Other => {},
        }
    }

    // ----- other events -----

    /// Handles a text node (see `text_spec`).
    pub fn text(&mut self, text: &str)
        ensures
            final(self)@ == text_spec(old(self)@, text@),
    {
        if self.in_image {
            append_str(&mut self.image_alt, text);
        } else if self.in_code_block {
            append_str(&mut self.code_block_buf, text);
        } else {
            let v = chars_of(text);
            self.push_chars(escape_markup_chars(v.as_slice()));
        }
    }

    /// Handles inline code (see `inline_code_markup`).
    pub fn inline_code(&mut self, code: &str)
        ensures
            final(self)@ == push_text(old(self)@, inline_code_markup(code@)),
    {
        let v = chars_of(code);
        let fence = chars_of(repeat_char_string('`', inline_fence_length(v.as_slice())).as_str());
        let mut pad_left: Vec<char> = Vec::new();
        if v.len() > 0 && v[0] == '`' {
            pad_left.push(' ');
        }
        let mut pad_right: Vec<char> = Vec::new();
        if v.len() > 0 && v[v.len() - 1] == '`' {
            pad_right.push(' ');
        }
        let m = cat(cat(cat(cat(fence.clone(), pad_left), v), pad_right), fence);
        assert(m@ =~= inline_code_markup(code@));
        self.push_chars(m);
    }

    fn soft_break(&mut self)
        ensures
            (final(self)@, RegistryView { assets: seq![], warnings: seq![] }) == event_spec(
                old(self)@,
                RegistryView { assets: seq![], warnings: seq![] },
                EventView::SoftBreak,
                ImageContextView { base: None, home: None, existing_files: seq![] },
            ),
    {
        if self.in_code_block {
            self.code_block_buf.push('\n');
        } else {
            self.push_newline();
        }
    }

    fn rule(&mut self)
        ensures
            final(self)@ == with_break_needed(push_text(paragraph_break(old(self)@), rule_markup())),
    {
        self.paragraph_break();
        self.push("#line(length: 100%, stroke: 0.5pt + luma(180))\n");
        self.needs_paragraph_break = true;
    }

    /// Handles a task list marker (see `task_marker_spec`).
    pub fn task_list_marker(&mut self, checked: bool)
        ensures
            final(self)@ == task_marker_spec(old(self)@, checked),
    {
        let symbol = if checked {
            "#check-done "
        } else {
            "#check-todo "
        };
        match self.last_item_marker_end.take() {
            Some(pos) => {
                if self.in_block_quote {
                    if pos <= self.block_quote_buf.len() {
                        self.block_quote_buf = insert_chars(&self.block_quote_buf, pos, symbol);
                    }
                } else {
                    if pos <= self.output.len() {
                        self.output = insert_chars(&self.output, pos, symbol);
                    }
                }
            },
            None => {},
        }
    }

    /// Handles one event (see `event_spec`).
    pub fn process_event(&mut self, event: MdEvent, ctx: &ImageContext, registry: &mut AssetRegistry)
        requires
            old(self)@.in_block_quote_depth < usize::MAX,
        ensures
            (final(self)@, final(registry).view()) == event_spec(
                old(self)@,
                old(registry).view(),
                event@,
                ctx@,
            ),
    {
        match event {
            MdEvent::Start(tag) => self.start_tag(tag, ctx, registry),
            MdEvent::End(tag) => self.end_tag(tag),
            MdEvent::Text(text) => self.text(text.as_str()),
            MdEvent::Code(code) => self.inline_code(code.as_str()),
            MdEvent::SoftBreak => self.soft_break(),
            MdEvent::HardBreak => self.push(" \\\n"),
            MdEvent::Rule => self.rule(),
            MdEvent::TaskListMarker(checked) => self.task_list_marker(checked),
            MdEvent::Other => {},
        }
    }
}

/// Each event deepens block quotes by at most one level.
proof fn lemma_depth_step(s: ConvState, r: RegistryView, ev: EventView, ctx: ImageContextView)
    ensures
        event_spec(s, r, ev, ctx).0.in_block_quote_depth <= s.in_block_quote_depth + 1,
{
}

/// Converts a sequence of Markdown events to Typst markup (see `render_spec`).
pub fn convert_events(events: Vec<MdEvent>, ctx: &ImageContext, registry: &mut AssetRegistry) -> (out: String)
    ensures
        (out@, final(registry).view()) == render_spec(events_view(events@), ctx@, old(registry).view()),
{
    let ghost evs = events_view(events@);
    let ghost r0 = registry.view();
    let mut conv = Converter::new();
    let n = events.len();
    for event in it: events
        invariant
            n == evs.len(),
            evs == events_view(it.seq()),
            (conv@, registry.view()) == run_events(initial_state(), r0, evs.take(it.index() as int), ctx@),
            conv@.in_block_quote_depth <= it.index(),
            it.index() <= evs.len(),
            evs.len() == it.seq().len(),
    {
        proof {
            lemma_depth_step(conv@, registry.view(), event@, ctx@);
            assert(evs.take(it.index() + 1).drop_last() =~= evs.take(it.index() as int));
            assert(evs.take(it.index() + 1).last() == event@);
        }
        conv.process_event(event, ctx, registry);
    }
    assert(evs.take(evs.len() as int) =~= evs);
    conv.output()
}

/// Converts Markdown to Typst markup, resolving image references against
/// the context (the directory the Markdown came from, the home directory and
/// the files that exist) and registering them in the registry.
pub fn markdown_to_typst_with_assets(
    markdown: &str,
    ctx: &ImageContext,
    registry: &mut AssetRegistry,
) -> (out: String)
    ensures
        (out@, final(registry).view()) == render_spec(
            markdown_events_spec(markdown@),
            ctx@,
            old(registry).view(),
        ),
{
    let events = markdown_events(markdown);
    convert_events(events, ctx, registry)
}

/// The context with no base directory, no home directory and no files: no
/// image reference resolves in it.
pub open spec fn no_image_context() -> ImageContextView {
    ImageContextView { base: None, home: None, existing_files: seq![] }
}

/// Converts Markdown with no base directory, so relative image paths do not
/// resolve.
pub fn markdown_to_typst(markdown: &str) -> (out: String)
    ensures
        out@ == render_spec(
            markdown_events_spec(markdown@),
            no_image_context(),
            RegistryView { assets: seq![], warnings: seq![] },
        ).0,
{
    let mut registry = AssetRegistry::new();
    let ctx = ImageContext { base: None, home: None, existing_files: Vec::new() };
    assert(ctx@.existing_files =~= Seq::<Seq<char>>::empty());
    assert(registry.view().assets =~= Seq::<crate::assets::AssetView>::empty());
    assert(registry.view().warnings =~= Seq::<Seq<char>>::empty());
    markdown_to_typst_with_assets(markdown, &ctx, &mut registry)
}

/// The files that the images of a sequence of events stand for, in order,
/// before they are checked on disk: one per image whose destination is
/// usable.
pub open spec fn image_candidates_spec(
    evs: Seq<EventView>,
    base: Option<Seq<char>>,
    home: Option<Seq<char>>,
) -> Seq<Seq<char>>
    decreases evs.len(),
{
    if evs.len() == 0 {
        seq![]
    } else {
        let rest = image_candidates_spec(evs.drop_last(), base, home);
        match evs.last() {
            EventView::Start(TagView::Image(dest)) => match crate::assets::plan_image_path(
                dest,
                base,
                home,
            ) {
                Ok(p) => rest.push(p),
                Err(_) => rest,
            },
            _ => rest,
        }
    }
}

/// The files that a Markdown text's images stand for, to be checked on disk
/// before converting (see `image_candidates_spec`).
pub fn image_candidates(markdown: &str, base: Option<&str>, home: Option<&str>) -> (r: Vec<String>)
    ensures
        string_views(r@) == image_candidates_spec(
            markdown_events_spec(markdown@),
            match base {
                Some(b) => Some(b@),
                None => None,
            },
            match home {
                Some(h) => Some(h@),
                None => None,
            },
        ),
{
    let events = markdown_events(markdown);
    let ghost evs = events_view(events@);
    let ghost bv = match base {
        Some(b) => Some(b@),
        None => None,
    };
    let ghost hv = match home {
        Some(h) => Some(h@),
        None => None,
    };
    let mut r: Vec<String> = Vec::new();
    let mut i: usize = 0;
    while i < events.len()
        invariant
            i <= events.len(),
            evs == events_view(events@),
            bv == match base {
                Some(b) => Some(b@),
                None => None,
            },
            hv == match home {
                Some(h) => Some(h@),
                None => None,
            },
            string_views(r@) == image_candidates_spec(evs.take(i as int), bv, hv),
        decreases events.len() - i,
    {
        assert(evs.take(i + 1).drop_last() =~= evs.take(i as int));
        assert(evs.take(i + 1).last() == events@[i as int]@);
        match &events[i] {
            MdEvent::Start(MdTag::Image(dest)) => {
                if let Ok(p) = crate::assets::plan_image(dest.as_str(), base, home) {
                    let ghost before = r@;
                    r.push(p);
                    assert(string_views(r@) =~= string_views(before).push(p@));
                }
            },
            _ => {},
        }
        i += 1;
    }
    assert(evs.take(evs.len() as int) =~= evs);
    r
}

// ---------------------------------------------------------------------------
// Laws of the conversion
// ---------------------------------------------------------------------------

/// Document text cannot break out of the markup it is written into: outside
/// an image and a code block, a text node adds exactly its escaped form, in
/// which no character starts Typst syntax and which reads back as the text.
pub proof fn law_body_text_is_inert(s: ConvState, t: Seq<char>)
    requires
        !s.in_image,
        !s.in_code_block,
    ensures
        text_spec(s, t) == push_text(s, escape_markup(t)),
        crate::text::markup_inert(escape_markup(t)),
        crate::text::unescape(escape_markup(t)) == t,
{
    crate::text::law_escape_markup_inert_and_faithful(t);
}

/// Alt text belongs to the image: text inside an image goes to its alt text
/// only, and never to the document, a block quote, a cell or a code block.
pub proof fn law_alt_text_stays_in_alt(s: ConvState, t: Seq<char>)
    requires
        s.in_image,
    ensures
        text_spec(s, t).image_alt == s.image_alt + t,
        text_spec(s, t).output == s.output,
        text_spec(s, t).block_quote_buf == s.block_quote_buf,
        text_spec(s, t).current_cell == s.current_cell,
        text_spec(s, t).code_block_buf == s.code_block_buf,
{
}

/// The registry only grows, and a conversion registers no file but those
/// among the files that exist: no other path ever reaches the compiler.
pub proof fn law_registered_images_exist(
    s: ConvState,
    r: RegistryView,
    evs: Seq<EventView>,
    ctx: ImageContextView,
)
    ensures
        ({
            let r1 = run_events(s, r, evs, ctx).1;
            &&& r1.assets.len() >= r.assets.len()
            &&& r1.assets.subrange(0, r.assets.len() as int) == r.assets
            &&& forall|i: int|
                r.assets.len() <= i < r1.assets.len() ==> ctx.existing_files.contains(
                    #[trigger] r1.assets[i].real_path,
                )
        }),
    decreases evs.len(),
{
    if evs.len() > 0 {
        law_registered_images_exist(s, r, evs.drop_last(), ctx);
        let (s1, r1) = run_events(s, r, evs.drop_last(), ctx);
        let r2 = run_events(s, r, evs, ctx).1;
        assert(r2 == event_spec(s1, r1, evs.last(), ctx).1);
        match evs.last() {
            EventView::Start(TagView::Image(dest)) => {
                match resolve_image_spec(dest, ctx) {
                    Ok(path) => {
                        match image_extension_spec(path) {
                            Ok(ext) => {
                                crate::assets::lemma_register_keeps(r1, path, ext);
                                assert(ctx.existing_files.contains(path));
                            },
                            Err(_) => {},
                        }
                    },
                    Err(_) => {},
                }
            },
            _ => {},
        }
        assert(r2.assets.subrange(0, r.assets.len() as int) =~= r.assets);
    } else {
        assert(r.assets.subrange(0, r.assets.len() as int) =~= r.assets);
    }
}

/// Remote and `data:` images are refused rather than fetched: such an image
/// registers nothing and records why.
pub proof fn law_remote_images_refused(
    s: ConvState,
    r: RegistryView,
    dest: Seq<char>,
    ctx: ImageContextView,
)
    requires
        crate::text::contains(trim(dest), "://"@) || starts_with(trim(dest), "data:"@),
    ensures
        image_start(s, r, dest, ctx).1.assets == r.assets,
        image_start(s, r, dest, ctx).1.warnings.len() == r.warnings.len() + 1,
        image_start(s, r, dest, ctx).0.image_vpath is None,
{
    reveal_strlit("data:");
    reveal_strlit("://");
    assert(trim(dest).len() > 0) by {
        if crate::text::contains(trim(dest), "://"@) {
            let i = choose|i: int| crate::text::occurs_at(trim(dest), "://"@, i);
        }
    }
}

/// Whether the block quote flag and depth agree.
pub open spec fn quote_depth_consistent(s: ConvState) -> bool {
    s.in_block_quote <==> s.in_block_quote_depth > 0
}

/// In every state a conversion reaches, the converter is inside a block
/// quote exactly when the quote depth is positive.
pub proof fn law_quote_depth_consistent(r: RegistryView, evs: Seq<EventView>, ctx: ImageContextView)
    ensures
        quote_depth_consistent(run_events(initial_state(), r, evs, ctx).0),
    decreases evs.len(),
{
    if evs.len() > 0 {
        law_quote_depth_consistent(r, evs.drop_last(), ctx);
    }
}

/// A broken image reference never fails a conversion: an image whose
/// destination does not resolve to a usable file registers nothing and
/// renders as its escaped alt text.
pub proof fn law_broken_image_falls_back_to_alt(
    s: ConvState,
    r: RegistryView,
    dest: Seq<char>,
    alt: Seq<char>,
    ctx: ImageContextView,
)
    requires
        !s.in_image,
        !s.in_code_block,
        alt.len() > 0,
        match resolve_image_spec(dest, ctx) {
            Err(_) => true,
            Ok(p) => image_extension_spec(p) is Err,
        },
    ensures
        ({
            let (s1, r1) = event_spec(s, r, EventView::Start(TagView::Image(dest)), ctx);
            let (s2, r2) = event_spec(s1, r1, EventView::Text(alt), ctx);
            let (s3, r3) = event_spec(s2, r2, EventView::End(MdTagEnd::Image), ctx);
            &&& r3.assets == r.assets
            &&& r3.warnings.len() == r.warnings.len() + 1
            &&& s3 == push_text(
                ConvState { in_image: false, image_alt: seq![], image_vpath: None, ..s },
                escape_markup(alt),
            )
        }),
{
    let (s1, r1) = event_spec(s, r, EventView::Start(TagView::Image(dest)), ctx);
    let (s2, r2) = event_spec(s1, r1, EventView::Text(alt), ctx);
    assert(s2.image_alt =~= alt);
}

/// An image that resolves renders as an `#image` call on the virtual path it
/// was registered under (never a path from the document), with its alt text
/// as an escaped string argument and nowhere else.
pub proof fn law_resolved_image_renders_call(
    s: ConvState,
    r: RegistryView,
    dest: Seq<char>,
    alt: Seq<char>,
    ctx: ImageContextView,
)
    requires
        !s.in_image,
        !s.in_code_block,
        crate::assets::registry_wf(r),
        match resolve_image_spec(dest, ctx) {
            Err(_) => false,
            Ok(p) => image_extension_spec(p) is Ok,
        },
    ensures
        ({
            let (s1, r1) = event_spec(s, r, EventView::Start(TagView::Image(dest)), ctx);
            let (s2, r2) = event_spec(s1, r1, EventView::Text(alt), ctx);
            let (s3, r3) = event_spec(s2, r2, EventView::End(MdTagEnd::Image), ctx);
            &&& s1.image_vpath is Some
            &&& exists|i: int|
                0 <= i < r3.assets.len() && #[trigger] r3.assets[i].virtual_path
                    == s1.image_vpath->0
            &&& s3 == push_text(
                ConvState { in_image: false, image_alt: seq![], image_vpath: None, ..s },
                image_markup(s1.image_vpath->0, alt),
            )
        }),
{
    let path = resolve_image_spec(dest, ctx)->Ok_0;
    let ext = image_extension_spec(path)->Ok_0;
    crate::assets::lemma_asset_index_pub(r.assets, path);
    let (s1, r1) = event_spec(s, r, EventView::Start(TagView::Image(dest)), ctx);
    let (s2, r2) = event_spec(s1, r1, EventView::Text(alt), ctx);
    let (s3, r3) = event_spec(s2, r2, EventView::End(MdTagEnd::Image), ctx);
    assert(s2.image_alt =~= alt);
    assert(r3 == r1);
    assert(s1.image_vpath is Some);
    assert(s2.image_vpath == s1.image_vpath);
    assert(s3 == push_text(
        ConvState { in_image: false, image_alt: seq![], image_vpath: None, ..s },
        image_markup(s1.image_vpath->0, alt),
    ));
    match crate::assets::asset_index(r.assets, path) {
        Some(i) => {
            assert(r1.assets[i].virtual_path == s1.image_vpath->0);
        },
        None => {
            let n = r.assets.len() as int;
            assert(r1.assets[n].virtual_path == s1.image_vpath->0);
        },
    }
}

} // verus!
