//! Markdown to a flat list of drawable blocks.
//!
//! `pulldown-cmark` parses; what is written here is the walk over its event stream. Parsing
//! produces a flat [`Block`] list first, and a front end draws that. A flat list with an
//! explicit `indent` handles nesting without recursion and can be tested without a UI.

use vstd::prelude::*;
use crate::text::{chars_of, decimal, push_decimal, push_str, string_of};
use pulldown_cmark::{CodeBlockKind, Event, Options, Parser, Tag, TagEnd};

verus! {

/// A run of text with one style.
#[derive(Debug, Clone, PartialEq, Eq, Default)]
pub struct Span {
    /// The text itself.
    pub text: String,
    /// Rendered bold.
    pub strong: bool,
    /// Rendered italic.
    pub emphasis: bool,
    /// Rendered as inline code.
    pub code: bool,
    /// Where this points, if it is a link.
    pub link: Option<String>,
}

/// One drawable block.
#[derive(Debug, Clone, PartialEq, Eq)]
pub enum Block {
    /// A heading, `level` 1-6.
    Heading {
        /// How large, 1 being largest.
        level: u8,
        /// Its content.
        spans: Vec<Span>,
    },
    /// A run of prose.
    Paragraph {
        /// Its content.
        spans: Vec<Span>,
        /// Nesting depth, in list levels.
        indent: u8,
    },
    /// One item of a list.
    ListItem {
        /// The bullet or number already resolved to text, so drawing needs no counter.
        marker: String,
        /// Its content.
        spans: Vec<Span>,
        /// Nesting depth.
        indent: u8,
    },
    /// A fenced or indented code block.
    Code {
        /// The code, newlines intact.
        text: String,
        /// The info string, when the fence carried one.
        language: Option<String>,
    },
    /// A quoted passage.
    Quote {
        /// Its content.
        spans: Vec<Span>,
    },
    /// One row of a table.
    ///
    /// Rows rather than a table object: these documents use tables as reference material read
    /// top to bottom, and a flat row list draws correctly however ragged the source is.
    TableRow {
        /// The cells, left to right.
        cells: Vec<Vec<Span>>,
        /// Whether this is the header row.
        header: bool,
    },
    /// A horizontal rule.
    Rule,
}

/// The opening of an element, as far as the walk tells elements apart.
#[derive(Debug, Clone, PartialEq, Eq)]
pub enum MdTag {
    /// A heading of the given level.
    Heading(u8),
    /// A list, numbered from the given start or bulleted.
    List(Option<u64>),
    /// A quoted passage.
    BlockQuote,
    /// A code block: the fence's info string, or `None` for an indented block.
    CodeBlock(Option<String>),
    /// Bold text.
    Strong,
    /// Italic text.
    Emphasis,
    /// A link to the given destination.
    Link(String),
    /// The header row of a table.
    TableHead,
    /// Any other element.
    Other,
}

/// The end of an element, as far as the walk tells elements apart.
#[derive(Debug, Clone, Copy, PartialEq, Eq)]
pub enum MdTagEnd {
    Heading,
    Paragraph,
    Item,
    List,
    BlockQuote,
    CodeBlock,
    Strong,
    Emphasis,
    Link,
    TableCell,
    TableHead,
    TableRow,
    /// Any other element.
    Other,
}

/// One event of a parse, as far as the walk tells events apart.
#[derive(Debug, Clone, PartialEq, Eq)]
pub enum MdEvent {
    Start(MdTag),
    End(MdTagEnd),
    /// A text node.
    Text(String),
    /// An inline code node.
    Code(String),
    SoftBreak,
    HardBreak,
    Rule,
    /// Html, footnotes, task markers, math and the rest, which these documents do not use.
    Other,
}

/// What a [`Span`] holds, as plain values.
#[verifier::ext_equal]
pub struct SpanView {
    pub text: Seq<char>,
    pub strong: bool,
    pub emphasis: bool,
    pub code: bool,
    pub link: Option<Seq<char>>,
}

/// What a [`Block`] holds, as plain values.
#[verifier::ext_equal]
pub enum BlockView {
    Heading { level: u8, spans: Seq<SpanView> },
    Paragraph { spans: Seq<SpanView>, indent: u8 },
    ListItem { marker: Seq<char>, spans: Seq<SpanView>, indent: u8 },
    Code { text: Seq<char>, language: Option<Seq<char>> },
    Quote { spans: Seq<SpanView> },
    TableRow { cells: Seq<Seq<SpanView>>, header: bool },
    Rule,
}

/// What an [`MdTag`] holds, as plain values.
#[verifier::ext_equal]
pub enum MdTagView {
    Heading(u8),
    List(Option<u64>),
    BlockQuote,
    CodeBlock(Option<Seq<char>>),
    Strong,
    Emphasis,
    Link(Seq<char>),
    TableHead,
    Other,
}

/// What an [`MdEvent`] holds, as plain values.
#[verifier::ext_equal]
pub enum MdEventView {
    Start(MdTagView),
    End(MdTagEnd),
    Text(Seq<char>),
    Code(Seq<char>),
    SoftBreak,
    HardBreak,
    Rule,
    Other,
}

/// The text of an optional string.
pub open spec fn opt_text(o: Option<String>) -> Option<Seq<char>> {
    match o {
        Some(s) => Some(s@),
        None => None,
    }
}

impl View for Span {
    type V = SpanView;

    open spec fn view(&self) -> SpanView {
        SpanView {
            text: self.text@,
            strong: self.strong,
            emphasis: self.emphasis,
            code: self.code,
            link: opt_text(self.link),
        }
    }
}

/// The views of a list of spans.
pub open spec fn spans_view(spans: Seq<Span>) -> Seq<SpanView> {
    spans.map_values(|s: Span| s@)
}

/// The views of a list of cells.
pub open spec fn cells_view(cells: Seq<Vec<Span>>) -> Seq<Seq<SpanView>> {
    cells.map_values(|c: Vec<Span>| spans_view(c@))
}

impl View for Block {
    type V = BlockView;

    open spec fn view(&self) -> BlockView {
        match self {
            Block::Heading { level, spans } => BlockView::Heading {
                level: *level,
                spans: spans_view(spans@),
            },
            Block::Paragraph { spans, indent } => BlockView::Paragraph {
                spans: spans_view(spans@),
                indent: *indent,
            },
            Block::ListItem { marker, spans, indent } => BlockView::ListItem {
                marker: marker@,
                spans: spans_view(spans@),
                indent: *indent,
            },
            Block::Code { text, language } => BlockView::Code {
                text: text@,
                language: opt_text(*language),
            },
            Block::Quote { spans } => BlockView::Quote { spans: spans_view(spans@) },
            Block::TableRow { cells, header } => BlockView::TableRow {
                cells: cells_view(cells@),
                header: *header,
            },
            Block::Rule => BlockView::Rule,
        }
    }
}

/// The views of a list of blocks.
pub open spec fn blocks_view(blocks: Seq<Block>) -> Seq<BlockView> {
    blocks.map_values(|b: Block| b@)
}

impl View for MdTag {
    type V = MdTagView;

    open spec fn view(&self) -> MdTagView {
        match self {
            MdTag::Heading(level) => MdTagView::Heading(*level),
            MdTag::List(first) => MdTagView::List(*first),
            MdTag::BlockQuote => MdTagView::BlockQuote,
            MdTag::CodeBlock(info) => MdTagView::CodeBlock(opt_text(*info)),
            MdTag::Strong => MdTagView::Strong,
            MdTag::Emphasis => MdTagView::Emphasis,
            MdTag::Link(dest) => MdTagView::Link(dest@),
            MdTag::TableHead => MdTagView::TableHead,
            MdTag::Other => MdTagView::Other,
        }
    }
}

impl View for MdEvent {
    type V = MdEventView;

    open spec fn view(&self) -> MdEventView {
        match self {
            MdEvent::Start(tag) => MdEventView::Start(tag@),
            MdEvent::End(tag) => MdEventView::End(*tag),
            MdEvent::Text(t) => MdEventView::Text(t@),
            MdEvent::Code(t) => MdEventView::Code(t@),
            MdEvent::SoftBreak => MdEventView::SoftBreak,
            MdEvent::HardBreak => MdEventView::HardBreak,
            MdEvent::Rule => MdEventView::Rule,
            MdEvent::Other => MdEventView::Other,
        }
    }
}

/// The views of a list of events.
pub open spec fn events_view(events: Seq<MdEvent>) -> Seq<MdEventView> {
    events.map_values(|e: MdEvent| e@)
}

/// A plain run of `text`.
pub open spec fn plain_view(text: Seq<char>) -> SpanView {
    SpanView { text, strong: false, emphasis: false, code: false, link: None }
}

impl Span {
    /// A plain run of text.
    pub fn plain(text: &str) -> (s: Self)
        ensures
            s@ == plain_view(text@),
    {
        Span { text: text.to_owned(), strong: false, emphasis: false, code: false, link: None }
    }

    /// This span with its text replaced by `text`.
    fn with_text(&self, text: String) -> (s: Self)
        ensures
            s@ == (SpanView { text: text@, ..self@ }),
    {
        let link = match &self.link {
            Some(l) => Some(l.clone()),
            None => None,
        };
        Span { text, strong: self.strong, emphasis: self.emphasis, code: self.code, link }
    }
}

/// The state a walk over the event stream carries.
#[verifier::ext_equal]
pub struct WalkView {
    /// The blocks emitted so far.
    pub blocks: Seq<BlockView>,
    /// Inline content accumulated since the last block ended.
    pub spans: Seq<SpanView>,
    /// The styles currently open, applied to each new run of text.
    pub style: SpanView,
    /// How many list levels deep.
    pub indent: u8,
    /// One counter per list level, `None` for a bulleted list.
    pub counters: Seq<Option<u64>>,
    /// The code block being collected, if inside one.
    pub code: Option<(Seq<char>, Option<Seq<char>>)>,
    /// The heading being collected, if inside one.
    pub heading: Option<u8>,
    pub in_quote: bool,
    pub in_header_row: bool,
    /// Cells of the table row being collected.
    pub cells: Seq<Seq<SpanView>>,
}

/// The state before any event.
pub open spec fn walk_start() -> WalkView {
    WalkView {
        blocks: Seq::empty(),
        spans: Seq::empty(),
        style: plain_view(Seq::empty()),
        indent: 0,
        counters: Seq::empty(),
        code: None,
        heading: None,
        in_quote: false,
        in_header_row: false,
        cells: Seq::empty(),
    }
}

/// `n + 1`, or 255 at most.
pub open spec fn up(n: u8) -> u8 {
    if n == 255 {
        255
    } else {
        (n + 1) as u8
    }
}

/// `n - 1`, or 0 at least.
pub open spec fn down(n: u8) -> u8 {
    if n == 0 {
        0
    } else {
        (n - 1) as u8
    }
}

/// `t` without the newlines at its end.
pub open spec fn without_trailing_newlines(t: Seq<char>) -> Seq<char>
    decreases t.len(),
{
    if t.len() > 0 && t.last() == '\n' {
        without_trailing_newlines(t.drop_last())
    } else {
        t
    }
}

/// The marker for the next item at the innermost level: its number and a dot in a numbered
/// list, a bullet otherwise.
pub open spec fn marker_of(counters: Seq<Option<u64>>) -> Seq<char> {
    if counters.len() > 0 && counters.last() is Some {
        decimal(counters.last()->0 as nat) + "."@
    } else {
        seq!['\u{2022}']
    }
}

/// The counters once the innermost numbered level has counted an item.
pub open spec fn counted(counters: Seq<Option<u64>>) -> Seq<Option<u64>> {
    if counters.len() > 0 && counters.last() is Some {
        counters.update(
            counters.len() - 1,
            Some(((counters.last()->0 + 1) % 0x1_0000_0000_0000_0000) as u64),
        )
    } else {
        counters
    }
}

/// The pending inline content, emitted as a list item at the current depth.
pub open spec fn flush_item(w: WalkView) -> WalkView {
    if w.spans.len() == 0 {
        w
    } else {
        WalkView {
            blocks: w.blocks.push(
                BlockView::ListItem {
                    marker: marker_of(w.counters),
                    spans: w.spans,
                    indent: down(w.indent),
                },
            ),
            spans: Seq::empty(),
            counters: counted(w.counters),
            ..w
        }
    }
}

/// The collected cells, emitted as one row.
pub open spec fn push_row(w: WalkView, header: bool) -> WalkView {
    WalkView {
        blocks: w.blocks.push(BlockView::TableRow { cells: w.cells, header }),
        cells: Seq::empty(),
        ..w
    }
}

/// The language a code block's info string gives: the string, unless it is empty.
pub open spec fn language_of(info: Option<Seq<char>>) -> Option<Seq<char>> {
    match info {
        Some(i) => if i.len() > 0 {
            Some(i)
        } else {
            None
        },
        None => None,
    }
}

/// The walk after an element opens.
pub open spec fn start_step(w: WalkView, tag: MdTagView) -> WalkView {
    match tag {
        MdTagView::Heading(level) => WalkView { heading: Some(level), ..w },
        MdTagView::List(first) => {
            let w = if w.indent > 0 {
                flush_item(w)
            } else {
                w
            };
            WalkView { indent: up(w.indent), counters: w.counters.push(first), ..w }
        },
        MdTagView::BlockQuote => WalkView { in_quote: true, ..w },
        MdTagView::CodeBlock(info) => WalkView {
            code: Some((Seq::empty(), language_of(info))),
            ..w
        },
        MdTagView::Strong => WalkView { style: SpanView { strong: true, ..w.style }, ..w },
        MdTagView::Emphasis => WalkView { style: SpanView { emphasis: true, ..w.style }, ..w },
        MdTagView::Link(dest) => WalkView { style: SpanView { link: Some(dest), ..w.style }, ..w },
        MdTagView::TableHead => WalkView { in_header_row: true, ..w },
        MdTagView::Other => w,
    }
}

/// The walk after an element closes.
pub open spec fn end_step(w: WalkView, tag: MdTagEnd) -> WalkView {
    match tag {
        MdTagEnd::Heading => match w.heading {
            Some(level) => WalkView {
                blocks: w.blocks.push(BlockView::Heading { level, spans: w.spans }),
                spans: Seq::empty(),
                heading: None,
                ..w
            },
            None => w,
        },
        MdTagEnd::Paragraph => if w.spans.len() == 0 {
            w
        } else if w.in_quote {
            WalkView {
                blocks: w.blocks.push(BlockView::Quote { spans: w.spans }),
                spans: Seq::empty(),
                ..w
            }
        } else {
            WalkView {
                blocks: w.blocks.push(BlockView::Paragraph { spans: w.spans, indent: w.indent }),
                spans: Seq::empty(),
                ..w
            }
        },
        MdTagEnd::Item => flush_item(w),
        MdTagEnd::List => WalkView {
            indent: down(w.indent),
            counters: if w.counters.len() > 0 {
                w.counters.drop_last()
            } else {
                w.counters
            },
            ..w
        },
        MdTagEnd::BlockQuote => WalkView { in_quote: false, ..w },
        MdTagEnd::CodeBlock => match w.code {
            Some((text, language)) => WalkView {
                blocks: w.blocks.push(
                    BlockView::Code { text: without_trailing_newlines(text), language },
                ),
                code: None,
                ..w
            },
            None => w,
        },
        MdTagEnd::Strong => WalkView { style: SpanView { strong: false, ..w.style }, ..w },
        MdTagEnd::Emphasis => WalkView { style: SpanView { emphasis: false, ..w.style }, ..w },
        MdTagEnd::Link => WalkView { style: SpanView { link: None, ..w.style }, ..w },
        MdTagEnd::TableCell => WalkView {
            cells: w.cells.push(w.spans),
            spans: Seq::empty(),
            ..w
        },
        MdTagEnd::TableHead => WalkView { in_header_row: false, ..push_row(w, true) },
        MdTagEnd::TableRow => push_row(w, w.in_header_row),
        MdTagEnd::Other => w,
    }
}

/// The walk after one event.
pub open spec fn step(w: WalkView, event: MdEventView) -> WalkView {
    match event {
        MdEventView::Start(tag) => start_step(w, tag),
        MdEventView::End(tag) => end_step(w, tag),
        MdEventView::Text(text) => match w.code {
            Some((body, language)) => WalkView { code: Some((body + text, language)), ..w },
            None => WalkView { spans: w.spans.push(SpanView { text, ..w.style }), ..w },
        },
        MdEventView::Code(text) => WalkView {
            spans: w.spans.push(SpanView { text, code: true, ..w.style }),
            ..w
        },
        MdEventView::SoftBreak => WalkView { spans: w.spans.push(plain_view(seq![' '])), ..w },
        MdEventView::HardBreak => WalkView { spans: w.spans.push(plain_view(seq!['\n'])), ..w },
        MdEventView::Rule => WalkView { blocks: w.blocks.push(BlockView::Rule), ..w },
        MdEventView::Other => w,
    }
}

/// The walk after a run of events.
pub open spec fn walk_over(w: WalkView, events: Seq<MdEventView>) -> WalkView
    decreases events.len(),
{
    if events.len() == 0 {
        w
    } else {
        walk_over(step(w, events[0]), events.drop_first())
    }
}

/// The state of a walk over the event stream.
///
/// A struct rather than a pile of locals in one long loop: what goes wrong in an event-driven
/// renderer is layout state nobody can see.
pub struct Walker {
    blocks: Vec<Block>,
    spans: Vec<Span>,
    style: Span,
    indent: u8,
    counters: Vec<Option<u64>>,
    code: Option<(String, Option<String>)>,
    heading: Option<u8>,
    in_quote: bool,
    in_header_row: bool,
    cells: Vec<Vec<Span>>,
}

/// The view of a code block being collected.
pub open spec fn code_view(code: Option<(String, Option<String>)>) -> Option<
    (Seq<char>, Option<Seq<char>>),
> {
    match code {
        Some((text, language)) => Some((text@, opt_text(language))),
        None => None,
    }
}

impl View for Walker {
    type V = WalkView;

    closed spec fn view(&self) -> WalkView {
        WalkView {
            blocks: blocks_view(self.blocks@),
            spans: spans_view(self.spans@),
            style: self.style@,
            indent: self.indent,
            counters: self.counters@,
            code: code_view(self.code),
            heading: self.heading,
            in_quote: self.in_quote,
            in_header_row: self.in_header_row,
            cells: cells_view(self.cells@),
        }
    }
}

/// `t` without the newlines at its end.
fn trim_trailing_newlines(t: &str) -> (r: String)
    ensures
        r@ == without_trailing_newlines(t@),
{
    let v = chars_of(t);
    let mut j: usize = v.len();
    assert(v@.subrange(0, v@.len() as int) == v@);
    while j > 0 && v[j - 1] == '\n'
        invariant
            j <= v@.len(),
            without_trailing_newlines(v@) == without_trailing_newlines(v@.subrange(0, j as int)),
        decreases j,
    {
        assert(v@.subrange(0, j as int).drop_last() == v@.subrange(0, j - 1));
        j = j - 1;
    }
    string_of(v.as_slice().split_at(j).0)
}

impl Walker {
    /// A walk before any event.
    pub fn new() -> (w: Walker)
        ensures
            w@ == walk_start(),
    {
        let w = Walker {
            blocks: Vec::new(),
            spans: Vec::new(),
            style: Span::plain(""),
            indent: 0,
            counters: Vec::new(),
            code: None,
            heading: None,
            in_quote: false,
            in_header_row: false,
            cells: Vec::new(),
        };
        proof {
            reveal_strlit("");
            assert(""@ =~= Seq::<char>::empty());
        }
        assert(w@.blocks =~= Seq::empty());
        assert(w@.spans =~= Seq::empty());
        assert(w@.cells =~= Seq::empty());
        w
    }

    /// The blocks emitted so far, leaving none behind.
    pub fn into_blocks(self) -> (blocks: Vec<Block>)
        ensures
            blocks_view(blocks@) == self@.blocks,
    {
        self.blocks
    }

    /// Takes the accumulated inline content, leaving the buffer empty.
    fn take(&mut self) -> (spans: Vec<Span>)
        ensures
            spans_view(spans@) == old(self)@.spans,
            final(self)@ == (WalkView { spans: Seq::empty(), ..old(self)@ }),
    {
        let mut spans: Vec<Span> = Vec::new();
        std::mem::swap(&mut spans, &mut self.spans);
        assert(self@.spans =~= Seq::empty());
        spans
    }

    /// The bullet or number for the next item at the innermost level, counting the item.
    fn next_marker(&mut self) -> (marker: String)
        ensures
            marker@ == marker_of(old(self)@.counters),
            final(self)@ == (WalkView { counters: counted(old(self)@.counters), ..old(self)@ }),
    {
        let k = self.counters.len();
        if k > 0 {
            if let Some(n) = self.counters[k - 1] {
                let mut out: Vec<char> = Vec::new();
                push_decimal(&mut out, n);
                push_str(&mut out, ".");
                let next: u64 = if n == 0xffff_ffff_ffff_ffff {
                    0
                } else {
                    n + 1
                };
                self.counters.set(k - 1, Some(next));
                return string_of(out.as_slice());
            }
        }
        let mut out: Vec<char> = Vec::new();
        out.push('\u{2022}');
        string_of(out.as_slice())
    }

    /// Emits whatever inline content is pending as a list item at the current depth.
    fn flush_item(&mut self)
        ensures
            final(self)@ == flush_item(old(self)@),
    {
        let spans = self.take();
        if spans.len() == 0 {
            assert(old(self)@.spans.len() == 0);
            assert(self@ == old(self)@);
            return;
        }
        let marker = self.next_marker();
        let indent = if self.indent == 0 {
            0
        } else {
            self.indent - 1
        };
        self.blocks.push(Block::ListItem { marker, spans, indent });
        assert(self@.blocks =~= flush_item(old(self)@).blocks);
    }

    /// Emits the collected cells as one row.
    fn push_row(&mut self, header: bool)
        ensures
            final(self)@ == push_row(old(self)@, header),
    {
        let mut cells: Vec<Vec<Span>> = Vec::new();
        std::mem::swap(&mut cells, &mut self.cells);
        self.blocks.push(Block::TableRow { cells, header });
        assert(self@.blocks =~= push_row(old(self)@, header).blocks);
        assert(self@.cells =~= Seq::empty());
    }

    /// Takes one event of the stream.
    pub fn event(&mut self, event: MdEvent)
        ensures
            final(self)@ == step(old(self)@, event@),
    {
        match event {
            MdEvent::Start(tag) => self.start(tag),
            MdEvent::End(tag) => self.end(tag),
            MdEvent::Text(text) => {
                let code = self.code.take();
                match code {
                    Some((mut body, language)) => {
                        body.append(text.as_str());
                        self.code = Some((body, language));
                    },
                    None => {
                        let span = self.style.with_text(text);
                        self.spans.push(span);
                        assert(self@.spans =~= step(old(self)@, event@).spans);
                    },
                }
            },
            MdEvent::Code(text) => {
                let mut span = self.style.with_text(text);
                span.code = true;
                self.spans.push(span);
                assert(self@.spans =~= step(old(self)@, event@).spans);
            },
            MdEvent::SoftBreak => {
                self.spans.push(Span::plain(" "));
                proof {
                    reveal_strlit(" ");
                    assert(" "@ =~= seq![' ']);
                }
                assert(self@.spans =~= step(old(self)@, event@).spans);
            },
            MdEvent::HardBreak => {
                self.spans.push(Span::plain("\n"));
                proof {
                    reveal_strlit("\n");
                    assert("\n"@ =~= seq!['\n']);
                }
                assert(self@.spans =~= step(old(self)@, event@).spans);
            },
            MdEvent::Rule => {
                self.blocks.push(Block::Rule);
                assert(self@.blocks =~= step(old(self)@, event@).blocks);
            },
            MdEvent::Other => {},
        }
    }

    fn start(&mut self, tag: MdTag)
        ensures
            final(self)@ == start_step(old(self)@, tag@),
    {
        match tag {
            MdTag::Heading(level) => self.heading = Some(level),
            MdTag::List(first) => {
                // A tight list holds its item text directly, with no paragraph around it, so
                // there is no end-of-paragraph to flush the parent item before a nested list
                // starts. Without this the parent's own text is swallowed into the first child.
                if self.indent > 0 {
                    self.flush_item();
                }
                self.indent = if self.indent == 255 {
                    255
                } else {
                    self.indent + 1
                };
                self.counters.push(first);
            },
            MdTag::BlockQuote => self.in_quote = true,
            MdTag::CodeBlock(info) => {
                let language = match info {
                    Some(i) => if i.as_str().is_empty() {
                        None
                    } else {
                        Some(i)
                    },
                    None => None,
                };
                self.code = Some((String::new(), language));
            },
            MdTag::Strong => self.style.strong = true,
            MdTag::Emphasis => self.style.emphasis = true,
            MdTag::Link(dest) => self.style.link = Some(dest),
            MdTag::TableHead => self.in_header_row = true,
            MdTag::Other => {},
        }
    }

    fn end(&mut self, tag: MdTagEnd)
        ensures
            final(self)@ == end_step(old(self)@, tag),
    {
        match tag {
            MdTagEnd::Heading => {
                if let Some(level) = self.heading {
                    self.heading = None;
                    let spans = self.take();
                    self.blocks.push(Block::Heading { level, spans });
                    assert(self@.blocks =~= end_step(old(self)@, tag).blocks);
                }
            },
            MdTagEnd::Paragraph => {
                let spans = self.take();
                if spans.len() == 0 {
                    assert(self@ == old(self)@);
                    return;
                }
                let indent = self.indent;
                if self.in_quote {
                    self.blocks.push(Block::Quote { spans });
                } else {
                    self.blocks.push(Block::Paragraph { spans, indent });
                }
                assert(self@.blocks =~= end_step(old(self)@, tag).blocks);
            },
            MdTagEnd::Item => self.flush_item(),
            MdTagEnd::List => {
                self.indent = if self.indent == 0 {
                    0
                } else {
                    self.indent - 1
                };
                self.counters.pop();
                assert(self@.counters =~= end_step(old(self)@, tag).counters);
            },
            MdTagEnd::BlockQuote => self.in_quote = false,
            MdTagEnd::CodeBlock => {
                let code = self.code.take();
                if let Some((text, language)) = code {
                    // The fence's own trailing newline is not part of the code, and leaving
                    // it draws an empty final line inside the frame.
                    let text = trim_trailing_newlines(text.as_str());
                    self.blocks.push(Block::Code { text, language });
                    assert(self@.blocks =~= end_step(old(self)@, tag).blocks);
                }
            },
            MdTagEnd::Strong => self.style.strong = false,
            MdTagEnd::Emphasis => self.style.emphasis = false,
            MdTagEnd::Link => self.style.link = None,
            MdTagEnd::TableCell => {
                let cell = self.take();
                self.cells.push(cell);
                assert(self@.cells =~= end_step(old(self)@, tag).cells);
            },
            MdTagEnd::TableHead => {
                self.push_row(true);
                self.in_header_row = false;
            },
            MdTagEnd::TableRow => {
                let header = self.in_header_row;
                self.push_row(header);
            },
            MdTagEnd::Other => {},
        }
    }
}

/// The blocks a stream of events makes.
pub fn walk(events: Vec<MdEvent>) -> (blocks: Vec<Block>)
    ensures
        blocks_view(blocks@) == walk_over(walk_start(), events_view(events@)).blocks,
{
    let ghost all = events_view(events@);
    let mut events = events;
    let mut walker = Walker::new();
    let mut i: usize = 0;
    assert(all.skip(0) == all);
    while i < events.len()
        invariant
            i <= events@.len() == all.len(),
            forall|k: int| i <= k < all.len() ==> #[trigger] events@[k]@ == all[k],
            walk_over(walk_start(), all) == walk_over(walker@, all.skip(i as int)),
        decreases all.len() - i,
    {
        let mut event = MdEvent::Other;
        events.set_and_swap(i, &mut event);
        assert(all.skip(i as int).drop_first() == all.skip(i + 1));
        assert(all.skip(i as int)[0] == event@);
        walker.event(event);
        i = i + 1;
    }
    walker.into_blocks()
}

/// `pulldown_cmark::Event`, carried through the conversion below without being looked into.
#[verifier::external_type_specification]
#[verifier::external_body]
pub struct ExEvent<'a>(Event<'a>);

/// `pulldown_cmark::Tag`, carried through the conversion below without being looked into.
#[verifier::external_type_specification]
#[verifier::external_body]
pub struct ExTag<'a>(Tag<'a>);

/// `pulldown_cmark::TagEnd`, carried through the conversion below without being looked into.
#[verifier::external_type_specification]
#[verifier::external_body]
pub struct ExTagEnd(TagEnd);

/// The events `pulldown_cmark` produces for `source`, with its tables and strikethrough
/// extensions enabled or not as asked, as the walk tells them apart.
pub uninterp spec fn markdown_events_of(
    source: Seq<char>,
    tables: bool,
    strikethrough: bool,
) -> Seq<MdEventView>;

/// Runs `pulldown_cmark::Parser::new_ext` over `source` with the tables and strikethrough
/// extensions set as asked, and converts each event. Claimed of it: the result is a function
/// of these arguments alone, and a heading's level is 1 to 6, which is what `HeadingLevel`'s
/// six variants (`H1 = 1` to `H6`) convert to. Nothing is claimed of which events come for
/// which text.
#[verifier::external_body]
fn parse_events(source: &str, tables: bool, strikethrough: bool) -> (events: Vec<MdEvent>)
    ensures
        events_view(events@) == markdown_events_of(source@, tables, strikethrough),
        forall|i: int|
            0 <= i < events@.len() ==> heading_in_range(#[trigger] events_view(events@)[i]),
{
    let mut options = Options::empty();
    options.set(Options::ENABLE_TABLES, tables);
    options.set(Options::ENABLE_STRIKETHROUGH, strikethrough);
    let mut events = Vec::new();
    for event in Parser::new_ext(source, options) {
        events.push(event_value(event));
    }
    events
}

/// Converts one `pulldown_cmark::Event`, keeping the variants the walk tells apart.
#[verifier::external_body]
fn event_value(event: Event<'_>) -> MdEvent {
    match event {
        Event::Start(tag) => MdEvent::Start(tag_value(tag)),
        Event::End(tag) => MdEvent::End(tag_end_value(tag)),
        Event::Text(text) => MdEvent::Text(text.to_string()),
        Event::Code(text) => MdEvent::Code(text.to_string()),
        Event::SoftBreak => MdEvent::SoftBreak,
        Event::HardBreak => MdEvent::HardBreak,
        Event::Rule => MdEvent::Rule,
        _ => MdEvent::Other,
    }
}

/// Converts one `pulldown_cmark::Tag`, keeping the variants the walk tells apart.
#[verifier::external_body]
fn tag_value(tag: Tag<'_>) -> MdTag {
    match tag {
        Tag::Heading { level, .. } => MdTag::Heading(level as u8),
        Tag::List(first) => MdTag::List(first),
        Tag::BlockQuote(_) => MdTag::BlockQuote,
        Tag::CodeBlock(CodeBlockKind::Fenced(info)) => MdTag::CodeBlock(Some(info.to_string())),
        Tag::CodeBlock(CodeBlockKind::Indented) => MdTag::CodeBlock(None),
        Tag::Strong => MdTag::Strong,
        Tag::Emphasis => MdTag::Emphasis,
        Tag::Link { dest_url, .. } => MdTag::Link(dest_url.to_string()),
        Tag::TableHead => MdTag::TableHead,
        _ => MdTag::Other,
    }
}

/// Converts one `pulldown_cmark::TagEnd`, keeping the variants the walk tells apart.
#[verifier::external_body]
fn tag_end_value(tag: TagEnd) -> MdTagEnd {
    match tag {
        TagEnd::Heading(_) => MdTagEnd::Heading,
        TagEnd::Paragraph => MdTagEnd::Paragraph,
        TagEnd::Item => MdTagEnd::Item,
        TagEnd::List(_) => MdTagEnd::List,
        TagEnd::BlockQuote(_) => MdTagEnd::BlockQuote,
        TagEnd::CodeBlock => MdTagEnd::CodeBlock,
        TagEnd::Strong => MdTagEnd::Strong,
        TagEnd::Emphasis => MdTagEnd::Emphasis,
        TagEnd::Link => MdTagEnd::Link,
        TagEnd::TableCell => MdTagEnd::TableCell,
        TagEnd::TableHead => MdTagEnd::TableHead,
        TagEnd::TableRow => MdTagEnd::TableRow,
        _ => MdTagEnd::Other,
    }
}

/// Whether an event opening a heading gives it a level from 1 to 6.
pub open spec fn heading_in_range(event: MdEventView) -> bool {
    match event {
        MdEventView::Start(MdTagView::Heading(level)) => 1 <= level <= 6,
        _ => true,
    }
}

/// The blocks the markdown `source` makes.
///
/// Tables and strikethrough are enabled because these documents use them; everything else is
/// `CommonMark`.
pub fn parse(source: &str) -> (blocks: Vec<Block>)
    ensures
        blocks_view(blocks@) == walk_over(
            walk_start(),
            markdown_events_of(source@, true, true),
        ).blocks,
        forall|i: int| 0 <= i < blocks@.len() ==> well_formed_block(#[trigger] blocks@[i]@),
{
    let events = parse_events(source, true, true);
    proof {
        blocks_are_well_formed(events_view(events@));
    }
    let blocks = walk(events);
    assert forall|i: int| 0 <= i < blocks@.len() implies well_formed_block(
        #[trigger] blocks@[i]@,
    ) by {
        assert(blocks_view(blocks@)[i] == blocks@[i]@);
    }
    blocks
}

/// What every block of a parse satisfies: a heading's level is 1 to 6, and a code block does
/// not end with a newline.
pub open spec fn well_formed_block(block: BlockView) -> bool {
    match block {
        BlockView::Heading { level, .. } => 1 <= level <= 6,
        BlockView::Code { text, .. } => !(text.len() > 0 && text.last() == '\n'),
        _ => true,
    }
}

/// A walk whose blocks are well formed and whose open heading, if any, has a level from 1 to
/// 6.
pub open spec fn well_formed_walk(w: WalkView) -> bool {
    &&& forall|i: int| 0 <= i < w.blocks.len() ==> well_formed_block(#[trigger] w.blocks[i])
    &&& (w.heading matches Some(level) ==> 1 <= level <= 6)
}

/// Dropping the newlines at the end leaves none there.
proof fn no_trailing_newline_is_left(t: Seq<char>)
    ensures
        ({
            let r = without_trailing_newlines(t);
            !(r.len() > 0 && r.last() == '\n')
        }),
    decreases t.len(),
{
    if t.len() > 0 && t.last() == '\n' {
        no_trailing_newline_is_left(t.drop_last());
    }
}

/// One event keeps a walk well formed, as long as a heading it opens has a level from 1 to 6.
proof fn a_step_keeps_the_walk_well_formed(w: WalkView, event: MdEventView)
    requires
        well_formed_walk(w),
        heading_in_range(event),
    ensures
        well_formed_walk(step(w, event)),
        step(w, event).blocks.len() >= w.blocks.len(),
        step(w, event).blocks.subrange(0, w.blocks.len() as int) == w.blocks,
{
    let next = step(w, event);
    if let Some((text, _)) = w.code {
        no_trailing_newline_is_left(text);
    }
    assert forall|i: int| 0 <= i < next.blocks.len() implies well_formed_block(
        #[trigger] next.blocks[i],
    ) by {
        if i < w.blocks.len() {
            assert(next.blocks[i] == w.blocks[i]);
        }
    }
    assert(next.blocks.subrange(0, w.blocks.len() as int) =~= w.blocks);
}

/// Walking only ever appends blocks: what a walk has emitted stays, in order, and only
/// well-formed blocks are added when the headings opened have levels from 1 to 6.
pub proof fn walking_only_appends(w: WalkView, events: Seq<MdEventView>)
    requires
        well_formed_walk(w),
        forall|i: int| 0 <= i < events.len() ==> heading_in_range(#[trigger] events[i]),
    ensures
        well_formed_walk(walk_over(w, events)),
        walk_over(w, events).blocks.len() >= w.blocks.len(),
        walk_over(w, events).blocks.subrange(0, w.blocks.len() as int) == w.blocks,
    decreases events.len(),
{
    if events.len() > 0 {
        assert(heading_in_range(events[0]));
        a_step_keeps_the_walk_well_formed(w, events[0]);
        let next = step(w, events[0]);
        assert forall|i: int| 0 <= i < events.drop_first().len() implies heading_in_range(
            #[trigger] events.drop_first()[i],
        ) by {
            assert(events.drop_first()[i] == events[i + 1]);
        }
        walking_only_appends(next, events.drop_first());
        let last = walk_over(next, events.drop_first());
        assert(last.blocks.subrange(0, w.blocks.len() as int) =~= last.blocks.subrange(
            0,
            next.blocks.len() as int,
        ).subrange(0, w.blocks.len() as int));
    }
}

/// Every block a walk from the start makes is well formed, when the headings opened have
/// levels from 1 to 6.
pub proof fn blocks_are_well_formed(events: Seq<MdEventView>)
    requires
        forall|i: int| 0 <= i < events.len() ==> heading_in_range(#[trigger] events[i]),
    ensures
        forall|i: int|
            0 <= i < walk_over(walk_start(), events).blocks.len() ==> well_formed_block(
                #[trigger] walk_over(walk_start(), events).blocks[i],
            ),
{
    walking_only_appends(walk_start(), events);
}

/// Walking two runs of events one after the other is walking the first, then the second.
pub proof fn walking_in_two_runs(w: WalkView, first: Seq<MdEventView>, second: Seq<MdEventView>)
    ensures
        walk_over(w, first + second) == walk_over(walk_over(w, first), second),
    decreases first.len(),
{
    if first.len() > 0 {
        assert((first + second)[0] == first[0]);
        assert((first + second).drop_first() == first.drop_first() + second);
        walking_in_two_runs(step(w, first[0]), first.drop_first(), second);
    } else {
        assert(first + second == second);
    }
}

/// Whether an event opens or closes a list.
pub open spec fn touches_lists(event: MdEventView) -> bool {
    ||| event matches MdEventView::Start(MdTagView::List(_))
    ||| event matches MdEventView::End(MdTagEnd::List)
}

/// An event that neither opens nor closes a list moves at most the innermost counter.
proof fn only_the_innermost_count_moves(w: WalkView, event: MdEventView)
    requires
        w.counters.len() > 0,
        !touches_lists(event),
    ensures
        step(w, event).counters.len() == w.counters.len(),
        step(w, event).counters.drop_last() == w.counters.drop_last(),
{
    let next = step(w, event);
    assert(counted(w.counters).drop_last() =~= w.counters.drop_last());
    assert(next.counters == w.counters || next.counters == counted(w.counters));
}

/// Inside one list level, events that open and close no list move only that level's
/// counter.
proof fn inside_a_list_only_its_count_moves(w: WalkView, inner: Seq<MdEventView>)
    requires
        w.counters.len() > 0,
        forall|i: int| 0 <= i < inner.len() ==> !touches_lists(#[trigger] inner[i]),
    ensures
        walk_over(w, inner).counters.len() == w.counters.len(),
        walk_over(w, inner).counters.drop_last() == w.counters.drop_last(),
    decreases inner.len(),
{
    if inner.len() > 0 {
        assert(!touches_lists(inner[0]));
        only_the_innermost_count_moves(w, inner[0]);
        assert forall|i: int| 0 <= i < inner.drop_first().len() implies !touches_lists(
            #[trigger] inner.drop_first()[i],
        ) by {
            assert(inner.drop_first()[i] == inner[i + 1]);
        }
        inside_a_list_only_its_count_moves(step(w, inner[0]), inner.drop_first());
    }
}

/// A nested list neither restarts nor advances the count of the list around it: once a list
/// with no list inside it has opened and closed, the counters are those from before it
/// opened, with the parent item counted when the list opened inside an item.
pub proof fn a_nested_list_leaves_the_outer_count_alone(
    w: WalkView,
    first: Option<u64>,
    inner: Seq<MdEventView>,
)
    requires
        forall|i: int| 0 <= i < inner.len() ==> !touches_lists(#[trigger] inner[i]),
    ensures
        walk_over(
            w,
            seq![MdEventView::Start(MdTagView::List(first))] + inner + seq![
                MdEventView::End(MdTagEnd::List),
            ],
        ).counters == (if w.indent > 0 {
            flush_item(w).counters
        } else {
            w.counters
        }),
{
    let open = seq![MdEventView::Start(MdTagView::List(first))];
    let close = seq![MdEventView::End(MdTagEnd::List)];
    walking_in_two_runs(w, open + inner, close);
    walking_in_two_runs(w, open, inner);
    let opened = step(w, open[0]);
    assert(open[0] == MdEventView::Start(MdTagView::List(first)));
    assert(open.drop_first() =~= Seq::<MdEventView>::empty());
    assert(walk_over(w, open) == walk_over(opened, open.drop_first()));
    assert(walk_over(w, open) == opened);
    inside_a_list_only_its_count_moves(opened, inner);
    let inside = walk_over(opened, inner);
    assert(close.drop_first() =~= Seq::<MdEventView>::empty());
    assert(walk_over(inside, close) == walk_over(step(inside, close[0]), close.drop_first()));
    assert(step(inside, close[0]).counters =~= inside.counters.drop_last());
    assert(opened.counters.drop_last() =~= (if w.indent > 0 {
        flush_item(w).counters
    } else {
        w.counters
    }));
}

/// Whether an event opens a link.
pub open spec fn opens_a_link(event: MdEventView) -> bool {
    event matches MdEventView::Start(MdTagView::Link(_))
}

/// Closing a link ends it: after the link's end event, no style carries a destination, and
/// text that follows is a span with no link.
pub proof fn closing_a_link_ends_it(w: WalkView, text: Seq<char>)
    ensures
        step(w, MdEventView::End(MdTagEnd::Link)).style.link is None,
        ({
            let closed = step(w, MdEventView::End(MdTagEnd::Link));
            let after = step(closed, MdEventView::Text(text));
            w.code is None ==> {
                &&& after.spans.len() == w.spans.len() + 1
                &&& after.spans.last().text == text
                &&& after.spans.last().link is None
            }
        }),
{
}

/// Once a link has closed, nothing that follows is linked until another link opens: after
/// any run of events that opens no link, the style carries no destination, so text and code
/// events then make spans with no link.
pub proof fn no_text_is_linked_until_a_link_opens(w: WalkView, events: Seq<MdEventView>)
    requires
        w.style.link is None,
        forall|i: int| 0 <= i < events.len() ==> !opens_a_link(#[trigger] events[i]),
    ensures
        walk_over(w, events).style.link is None,
    decreases events.len(),
{
    if events.len() > 0 {
        assert(!opens_a_link(events[0]));
        let next = step(w, events[0]);
        assert(next.style.link is None);
        assert forall|i: int| 0 <= i < events.drop_first().len() implies !opens_a_link(
            #[trigger] events.drop_first()[i],
        ) by {
            assert(events.drop_first()[i] == events[i + 1]);
        }
        no_text_is_linked_until_a_link_opens(next, events.drop_first());
    }
}

/// A link's text carries its destination, and closing it ends it: in the events of
/// `[text](dest)` followed by more text, the link text is a span linking to `dest` and the
/// text after it is a span with no link, whatever style was open before.
pub proof fn a_link_covers_its_own_text_only(
    w: WalkView,
    dest: Seq<char>,
    inside: Seq<char>,
    after: Seq<char>,
)
    requires
        w.code is None,
    ensures
        ({
            let events = seq![
                MdEventView::Start(MdTagView::Link(dest)),
                MdEventView::Text(inside),
                MdEventView::End(MdTagEnd::Link),
                MdEventView::Text(after),
            ];
            let end = walk_over(w, events);
            &&& end.spans.len() == w.spans.len() + 2
            &&& end.spans[w.spans.len() as int].text == inside
            &&& end.spans[w.spans.len() as int].link == Some(dest)
            &&& end.spans[w.spans.len() as int + 1].text == after
            &&& end.spans[w.spans.len() as int + 1].link is None
        }),
{
    let events = seq![
        MdEventView::Start(MdTagView::Link(dest)),
        MdEventView::Text(inside),
        MdEventView::End(MdTagEnd::Link),
        MdEventView::Text(after),
    ];
    let w1 = step(w, events[0]);
    let w2 = step(w1, events[1]);
    let w3 = step(w2, events[2]);
    let w4 = step(w3, events[3]);
    assert(events.drop_first().drop_first().drop_first().drop_first() =~= Seq::<
        MdEventView,
    >::empty());
    assert(walk_over(w, events) == walk_over(w1, events.drop_first()));
    assert(events.drop_first()[0] == events[1]);
    assert(walk_over(w1, events.drop_first()) == walk_over(w2, events.drop_first().drop_first()));
    assert(events.drop_first().drop_first()[0] == events[2]);
    assert(walk_over(w2, events.drop_first().drop_first()) == walk_over(
        w3,
        events.drop_first().drop_first().drop_first(),
    ));
    assert(events.drop_first().drop_first().drop_first()[0] == events[3]);
    assert(walk_over(w3, events.drop_first().drop_first().drop_first()) == walk_over(
        w4,
        events.drop_first().drop_first().drop_first().drop_first(),
    ));
    assert(walk_over(w, events) == w4);
}

} // verus!
