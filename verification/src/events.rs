//! The Markdown event stream that the converter consumes. Parsing is
//! pulldown-cmark's; each parser event arrives here as plain text (its tag's
//! debug name, or the text it carries) and is classified into this crate's
//! own event type.
use vstd::prelude::*;
use pulldown_cmark::{CodeBlockKind, Event, Options, Parser, Tag};
use crate::text::{starts_with, str_eq, str_starts_with};

verus! {

/// Column alignment of a table.
#[derive(Clone, Copy, PartialEq, Eq, Structural, Debug)]
pub enum Alignment {
    Unspecified,
    Left,
    Center,
    Right,
}

/// Level of a heading, from 1 to 6.
#[derive(Clone, Copy, PartialEq, Eq, Structural, Debug)]
pub enum HeadingLevel {
    H1,
    H2,
    H3,
    H4,
    H5,
    H6,
}

/// The number of a heading level.
pub open spec fn level_number(l: HeadingLevel) -> nat {
    match l {
        HeadingLevel::H1 => 1,
        HeadingLevel::H2 => 2,
        HeadingLevel::H3 => 3,
        HeadingLevel::H4 => 4,
        HeadingLevel::H5 => 5,
        HeadingLevel::H6 => 6,
    }
}

/// An opening tag.
#[derive(Debug)]
pub enum MdTag {
    Paragraph,
    Heading(HeadingLevel),
    BlockQuote,
    /// A code block: `Some(info)` when fenced, `None` when indented.
    CodeBlock(Option<String>),
    /// A list; `true` when it is ordered.
    List(bool),
    Item,
    Emphasis,
    Strong,
    Strikethrough,
    /// A link with its destination.
    Link(String),
    /// An image with its destination.
    Image(String),
    Table(Vec<Alignment>),
    TableHead,
    TableRow,
    TableCell,
    /// Any tag the converter does not render.
    Other,
}

/// A closing tag.
#[derive(Clone, Copy, PartialEq, Eq, Structural, Debug)]
pub enum MdTagEnd {
    Paragraph,
    Heading,
    BlockQuote,
    CodeBlock,
    List,
    Item,
    Emphasis,
    Strong,
    Strikethrough,
    Link,
    Image,
    Table,
    TableHead,
    TableRow,
    TableCell,
    Other,
}

/// One Markdown event.
#[derive(Debug)]
pub enum MdEvent {
    Start(MdTag),
    End(MdTagEnd),
    Text(String),
    Code(String),
    SoftBreak,
    HardBreak,
    Rule,
    TaskListMarker(bool),
    /// Any event the converter does not render.
    Other,
}

pub enum TagView {
    Paragraph,
    Heading(HeadingLevel),
    BlockQuote,
    CodeBlock(Option<Seq<char>>),
    List(bool),
    Item,
    Emphasis,
    Strong,
    Strikethrough,
    Link(Seq<char>),
    Image(Seq<char>),
    Table(Seq<Alignment>),
    TableHead,
    TableRow,
    TableCell,
    Other,
}

pub enum EventView {
    Start(TagView),
    End(MdTagEnd),
    Text(Seq<char>),
    Code(Seq<char>),
    SoftBreak,
    HardBreak,
    Rule,
    TaskListMarker(bool),
    Other,
}

impl View for MdTag {
    type V = TagView;

    open spec fn view(&self) -> TagView {
        match self {
            MdTag::Paragraph => TagView::Paragraph,
            MdTag::Heading(l) => TagView::Heading(*l),
            MdTag::BlockQuote => TagView::BlockQuote,
            MdTag::CodeBlock(info) => TagView::CodeBlock(
                match info {
                    Some(i) => Some(i@),
                    None => None,
                },
            ),
            MdTag::List(ordered) => TagView::List(*ordered),
            MdTag::Item => TagView::Item,
            MdTag::Emphasis => TagView::Emphasis,
            MdTag::Strong => TagView::Strong,
            MdTag::Strikethrough => TagView::Strikethrough,
            MdTag::Link(d) => TagView::Link(d@),
            MdTag::Image(d) => TagView::Image(d@),
            MdTag::Table(a) => TagView::Table(a@),
            MdTag::TableHead => TagView::TableHead,
            MdTag::TableRow => TagView::TableRow,
            MdTag::TableCell => TagView::TableCell,
            MdTag::Other => TagView::Other,
        }
    }
}

impl View for MdEvent {
    type V = EventView;

    open spec fn view(&self) -> EventView {
        match self {
            MdEvent::Start(t) => EventView::Start(t@),
            MdEvent::End(t) => EventView::End(*t),
            MdEvent::Text(t) => EventView::Text(t@),
            MdEvent::Code(c) => EventView::Code(c@),
            MdEvent::SoftBreak => EventView::SoftBreak,
            MdEvent::HardBreak => EventView::HardBreak,
            MdEvent::Rule => EventView::Rule,
            MdEvent::TaskListMarker(b) => EventView::TaskListMarker(*b),
            MdEvent::Other => EventView::Other,
        }
    }
}

/// The views of a list of events.
pub open spec fn events_view(events: Seq<MdEvent>) -> Seq<EventView> {
    events.map_values(|e: MdEvent| e@)
}

// ---------------------------------------------------------------------------
// The parser's events as plain text
// ---------------------------------------------------------------------------

/// One event of pulldown-cmark's parser as plain text: an opening or closing
/// tag by its debug name, the start of a fenced code block, a link or an
/// image with the text it carries, a text or code node with its text, and
/// any other event by its debug name.
pub enum RawEvent {
    Start(String),
    End(String),
    FencedCode(String),
    Link(String),
    Image(String),
    Text(String),
    Code(String),
    Other(String),
}

pub enum RawEventView {
    Start(Seq<char>),
    End(Seq<char>),
    FencedCode(Seq<char>),
    Link(Seq<char>),
    Image(Seq<char>),
    Text(Seq<char>),
    Code(Seq<char>),
    Other(Seq<char>),
}

impl View for RawEvent {
    type V = RawEventView;

    open spec fn view(&self) -> RawEventView {
        match self {
            RawEvent::Start(s) => RawEventView::Start(s@),
            RawEvent::End(s) => RawEventView::End(s@),
            RawEvent::FencedCode(s) => RawEventView::FencedCode(s@),
            RawEvent::Link(s) => RawEventView::Link(s@),
            RawEvent::Image(s) => RawEventView::Image(s@),
            RawEvent::Text(s) => RawEventView::Text(s@),
            RawEvent::Code(s) => RawEventView::Code(s@),
            RawEvent::Other(s) => RawEventView::Other(s@),
        }
    }
}

/// The Markdown extensions the converter renders, as pulldown-cmark option
/// bits: tables, strikethrough, task lists and the GitHub-flavoured blocks.
pub const MARKDOWN_OPTIONS: u32 = 2 | 8 | 16 | 2048;

/// What pulldown-cmark's parser yields for a Markdown text under the given
/// option bits, each event as plain text.
pub uninterp spec fn parsed_events(markdown: Seq<char>, options: u32) -> Seq<RawEventView>;

/// Runs pulldown-cmark's `Parser::new_ext` over the text with the given
/// option bits and hands each event over as plain text. The events are a
/// function of the text and the options alone.
#[verifier::external_body]
fn parse_markdown(markdown: &str, options: u32) -> (events: Vec<RawEvent>)
    ensures
        events@.map_values(|e: RawEvent| e@) == parsed_events(markdown@, options),
{
    Parser::new_ext(markdown, Options::from_bits_truncate(options)).map(|event| match event {
        Event::Start(Tag::CodeBlock(CodeBlockKind::Fenced(info))) => RawEvent::FencedCode(info.into_string()),
        Event::Start(Tag::Link { dest_url, .. }) => RawEvent::Link(dest_url.into_string()),
        Event::Start(Tag::Image { dest_url, .. }) => RawEvent::Image(dest_url.into_string()),
        Event::Start(tag) => RawEvent::Start(format!("{:?}", tag)),
        Event::End(tag) => RawEvent::End(format!("{:?}", tag)),
        Event::Text(text) => RawEvent::Text(text.into_string()),
        Event::Code(code) => RawEvent::Code(code.into_string()),
        other => RawEvent::Other(format!("{:?}", other)),
    }).collect()
}

// ---------------------------------------------------------------------------
// Classifying the parser's events
// ---------------------------------------------------------------------------

/// The column alignments named in a table tag's debug name, in order: each
/// alignment's name is the only capitalised word of its kind there.
pub open spec fn alignments_named(n: Seq<char>) -> Seq<Alignment>
    decreases n.len(),
{
    if n.len() == 0 {
        seq![]
    } else {
        alignments_named(n.drop_last()) + if n.last() == 'N' {
            seq![Alignment::Unspecified]
        } else if n.last() == 'L' {
            seq![Alignment::Left]
        } else if n.last() == 'C' {
            seq![Alignment::Center]
        } else if n.last() == 'R' {
            seq![Alignment::Right]
        } else {
            seq![]
        }
    }
}

/// The opening tag that a tag's debug name stands for.
pub open spec fn start_tag_named(n: Seq<char>) -> TagView {
    if n == "Paragraph"@ {
        TagView::Paragraph
    } else if starts_with(n, "Heading { level: H1"@) {
        TagView::Heading(HeadingLevel::H1)
    } else if starts_with(n, "Heading { level: H2"@) {
        TagView::Heading(HeadingLevel::H2)
    } else if starts_with(n, "Heading { level: H3"@) {
        TagView::Heading(HeadingLevel::H3)
    } else if starts_with(n, "Heading { level: H4"@) {
        TagView::Heading(HeadingLevel::H4)
    } else if starts_with(n, "Heading { level: H5"@) {
        TagView::Heading(HeadingLevel::H5)
    } else if starts_with(n, "Heading { level: H6"@) {
        TagView::Heading(HeadingLevel::H6)
    } else if starts_with(n, "BlockQuote"@) {
        TagView::BlockQuote
    } else if n == "CodeBlock(Indented)"@ {
        TagView::CodeBlock(None)
    } else if starts_with(n, "List(Some"@) {
        TagView::List(true)
    } else if n == "List(None)"@ {
        TagView::List(false)
    } else if n == "Item"@ {
        TagView::Item
    } else if starts_with(n, "Table(["@) {
        TagView::Table(alignments_named(n))
    } else if n == "TableHead"@ {
        TagView::TableHead
    } else if n == "TableRow"@ {
        TagView::TableRow
    } else if n == "TableCell"@ {
        TagView::TableCell
    } else if n == "Emphasis"@ {
        TagView::Emphasis
    } else if n == "Strong"@ {
        TagView::Strong
    } else if n == "Strikethrough"@ {
        TagView::Strikethrough
    } else {
        TagView::Other
    }
}

/// The closing tag that a tag's debug name stands for.
pub open spec fn end_tag_named(n: Seq<char>) -> MdTagEnd {
    if n == "Paragraph"@ {
        MdTagEnd::Paragraph
    } else if starts_with(n, "Heading("@) {
        MdTagEnd::Heading
    } else if starts_with(n, "BlockQuote"@) {
        MdTagEnd::BlockQuote
    } else if n == "CodeBlock"@ {
        MdTagEnd::CodeBlock
    } else if starts_with(n, "List("@) {
        MdTagEnd::List
    } else if n == "Item"@ {
        MdTagEnd::Item
    } else if n == "Table"@ {
        MdTagEnd::Table
    } else if n == "TableHead"@ {
        MdTagEnd::TableHead
    } else if n == "TableRow"@ {
        MdTagEnd::TableRow
    } else if n == "TableCell"@ {
        MdTagEnd::TableCell
    } else if n == "Emphasis"@ {
        MdTagEnd::Emphasis
    } else if n == "Strong"@ {
        MdTagEnd::Strong
    } else if n == "Strikethrough"@ {
        MdTagEnd::Strikethrough
    } else if n == "Link"@ {
        MdTagEnd::Link
    } else if n == "Image"@ {
        MdTagEnd::Image
    } else {
        MdTagEnd::Other
    }
}

/// The event that any other event's debug name stands for.
pub open spec fn other_event_named(n: Seq<char>) -> EventView {
    if n == "SoftBreak"@ {
        EventView::SoftBreak
    } else if n == "HardBreak"@ {
        EventView::HardBreak
    } else if n == "Rule"@ {
        EventView::Rule
    } else if n == "TaskListMarker(true)"@ {
        EventView::TaskListMarker(true)
    } else if n == "TaskListMarker(false)"@ {
        EventView::TaskListMarker(false)
    } else {
        EventView::Other
    }
}

/// The event a parser event stands for.
pub open spec fn classify_spec(r: RawEventView) -> EventView {
    match r {
        RawEventView::Start(n) => EventView::Start(start_tag_named(n)),
        RawEventView::End(n) => EventView::End(end_tag_named(n)),
        RawEventView::FencedCode(info) => EventView::Start(TagView::CodeBlock(Some(info))),
        RawEventView::Link(d) => EventView::Start(TagView::Link(d)),
        RawEventView::Image(d) => EventView::Start(TagView::Image(d)),
        RawEventView::Text(t) => EventView::Text(t),
        RawEventView::Code(c) => EventView::Code(c),
        RawEventView::Other(n) => other_event_named(n),
    }
}

/// The events of a Markdown text, as the converter sees them.
pub open spec fn markdown_events_spec(markdown: Seq<char>) -> Seq<EventView> {
    parsed_events(markdown, MARKDOWN_OPTIONS).map_values(|r: RawEventView| classify_spec(r))
}

fn alignments_in(n: &str) -> (r: Vec<Alignment>)
    ensures
        r@ == alignments_named(n@),
{
    let mut r: Vec<Alignment> = Vec::new();
    for c in it: n.chars()
        invariant
            it.seq() == n@,
            r@ == alignments_named(n@.take(it.index() as int)),
    {
        assert(n@.take(it.index() + 1).drop_last() =~= n@.take(it.index() as int));
        if c == 'N' {
            r.push(Alignment::Unspecified);
        } else if c == 'L' {
            r.push(Alignment::Left);
        } else if c == 'C' {
            r.push(Alignment::Center);
        } else if c == 'R' {
            r.push(Alignment::Right);
        }
        assert(r@ =~= alignments_named(n@.take(it.index() + 1)));
    }
    assert(n@.take(n@.len() as int) =~= n@);
    r
}

fn start_tag_from_name(n: &str) -> (t: MdTag)
    ensures
        t@ == start_tag_named(n@),
{
    if str_eq(n, "Paragraph") {
        MdTag::Paragraph
    } else if str_starts_with(n, "Heading { level: H1") {
        MdTag::Heading(HeadingLevel::H1)
    } else if str_starts_with(n, "Heading { level: H2") {
        MdTag::Heading(HeadingLevel::H2)
    } else if str_starts_with(n, "Heading { level: H3") {
        MdTag::Heading(HeadingLevel::H3)
    } else if str_starts_with(n, "Heading { level: H4") {
        MdTag::Heading(HeadingLevel::H4)
    } else if str_starts_with(n, "Heading { level: H5") {
        MdTag::Heading(HeadingLevel::H5)
    } else if str_starts_with(n, "Heading { level: H6") {
        MdTag::Heading(HeadingLevel::H6)
    } else if str_starts_with(n, "BlockQuote") {
        MdTag::BlockQuote
    } else if str_eq(n, "CodeBlock(Indented)") {
        MdTag::CodeBlock(None)
    } else if str_starts_with(n, "List(Some") {
        MdTag::List(true)
    } else if str_eq(n, "List(None)") {
        MdTag::List(false)
    } else if str_eq(n, "Item") {
        MdTag::Item
    } else if str_starts_with(n, "Table([") {
        MdTag::Table(alignments_in(n))
    } else if str_eq(n, "TableHead") {
        MdTag::TableHead
    } else if str_eq(n, "TableRow") {
        MdTag::TableRow
    } else if str_eq(n, "TableCell") {
        MdTag::TableCell
    } else if str_eq(n, "Emphasis") {
        MdTag::Emphasis
    } else if str_eq(n, "Strong") {
        MdTag::Strong
    } else if str_eq(n, "Strikethrough") {
        MdTag::Strikethrough
    } else {
        MdTag::Other
    }
}

fn end_tag_from_name(n: &str) -> (t: MdTagEnd)
    ensures
        t == end_tag_named(n@),
{
    if str_eq(n, "Paragraph") {
        MdTagEnd::Paragraph
    } else if str_starts_with(n, "Heading(") {
        MdTagEnd::Heading
    } else if str_starts_with(n, "BlockQuote") {
        MdTagEnd::BlockQuote
    } else if str_eq(n, "CodeBlock") {
        MdTagEnd::CodeBlock
    } else if str_starts_with(n, "List(") {
        MdTagEnd::List
    } else if str_eq(n, "Item") {
        MdTagEnd::Item
    } else if str_eq(n, "Table") {
        MdTagEnd::Table
    } else if str_eq(n, "TableHead") {
        MdTagEnd::TableHead
    } else if str_eq(n, "TableRow") {
        MdTagEnd::TableRow
    } else if str_eq(n, "TableCell") {
        MdTagEnd::TableCell
    } else if str_eq(n, "Emphasis") {
        MdTagEnd::Emphasis
    } else if str_eq(n, "Strong") {
        MdTagEnd::Strong
    } else if str_eq(n, "Strikethrough") {
        MdTagEnd::Strikethrough
    } else if str_eq(n, "Link") {
        MdTagEnd::Link
    } else if str_eq(n, "Image") {
        MdTagEnd::Image
    } else {
        MdTagEnd::Other
    }
}

fn other_event_from_name(n: &str) -> (e: MdEvent)
    ensures
        e@ == other_event_named(n@),
{
    if str_eq(n, "SoftBreak") {
        MdEvent::SoftBreak
    } else if str_eq(n, "HardBreak") {
        MdEvent::HardBreak
    } else if str_eq(n, "Rule") {
        MdEvent::Rule
    } else if str_eq(n, "TaskListMarker(true)") {
        MdEvent::TaskListMarker(true)
    } else if str_eq(n, "TaskListMarker(false)") {
        MdEvent::TaskListMarker(false)
    } else {
        MdEvent::Other
    }
}

/// The event a parser event stands for (see `classify_spec`).
pub fn classify(r: RawEvent) -> (e: MdEvent)
    ensures
        e@ == classify_spec(r@),
{
    match r {
        RawEvent::Start(n) => MdEvent::Start(start_tag_from_name(n.as_str())),
        RawEvent::End(n) => MdEvent::End(end_tag_from_name(n.as_str())),
        RawEvent::FencedCode(info) => MdEvent::Start(MdTag::CodeBlock(Some(info))),
        RawEvent::Link(d) => MdEvent::Start(MdTag::Link(d)),
        RawEvent::Image(d) => MdEvent::Start(MdTag::Image(d)),
        RawEvent::Text(t) => MdEvent::Text(t),
        RawEvent::Code(c) => MdEvent::Code(c),
        RawEvent::Other(n) => other_event_from_name(n.as_str()),
    }
}

/// The events of a Markdown text, with the tables, strikethrough, task lists
/// and GitHub-flavoured blocks extensions, as the converter sees them.
pub fn markdown_events(markdown: &str) -> (events: Vec<MdEvent>)
    ensures
        events_view(events@) == markdown_events_spec(markdown@),
{
    let raw = parse_markdown(markdown, MARKDOWN_OPTIONS);
    let ghost raw_seq = raw@;
    let mut events: Vec<MdEvent> = Vec::new();
    for r in it: raw
        invariant
            it.seq() == raw_seq,
            raw_seq.map_values(|e: RawEvent| e@) == parsed_events(markdown@, MARKDOWN_OPTIONS),
            events@.len() == it.index(),
            forall|i: int| 0 <= i < events@.len() ==> (#[trigger] events@[i])@ == classify_spec(raw_seq[i]@),
    {
        let e = classify(r);
        events.push(e);
    }
    assert(events_view(events@) =~= markdown_events_spec(markdown@));
    events
}

} // verus!
