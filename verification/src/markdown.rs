//! Markdown documents as headings, paragraphs, quotes, list items, code
//! blocks and rules, read from pulldown-cmark's event stream.
use vstd::prelude::*;
use pulldown_cmark::{DefaultBrokenLinkCallback, Event, Parser, TagEnd};
use crate::block::{view_blocks, Block, BlockView};
use crate::text::{chars_of, extend_chars, string_of, trim, trimmed};

verus! {

/// The block-level element that a start or end event belongs to.
#[derive(Debug, Clone, Copy, PartialEq, Eq, Structural)]
pub enum MdBlock {
    Paragraph,
    /// A heading, with its level (1 to 6).
    Heading(u8),
    Quote,
    Code,
    Item,
    Other,
}

/// One Markdown event: the start or end of a block-level element, text,
/// inline code, a soft or hard line break, a thematic break, or any other
/// event (HTML, math, footnote references, task-list markers).
#[derive(Debug, Clone, PartialEq)]
pub enum MdEvent {
    Start(MdBlock),
    End(MdBlock),
    Text(String),
    Code(String),
    SoftBreak,
    HardBreak,
    Rule,
    Other,
}

/// The value of an [`MdEvent`].
pub enum MdEventView {
    Start(MdBlock),
    End(MdBlock),
    Text(Seq<char>),
    Code(Seq<char>),
    SoftBreak,
    HardBreak,
    Rule,
    Other,
}

impl View for MdEvent {
    type V = MdEventView;

    open spec fn view(&self) -> MdEventView {
        match self {
            MdEvent::Start(b) => MdEventView::Start(*b),
            MdEvent::End(b) => MdEventView::End(*b),
            MdEvent::Text(t) => MdEventView::Text(t@),
            MdEvent::Code(t) => MdEventView::Code(t@),
            MdEvent::SoftBreak => MdEventView::SoftBreak,
            MdEvent::HardBreak => MdEventView::HardBreak,
            MdEvent::Rule => MdEventView::Rule,
            MdEvent::Other => MdEventView::Other,
        }
    }
}

/// The values of a sequence of events.
pub open spec fn view_events(es: Seq<MdEvent>) -> Seq<MdEventView> {
    es.map_values(|e: MdEvent| e@)
}

#[verifier::external_type_specification]
#[verifier::external_body]
#[verifier::reject_recursive_types(F)]
pub struct ExParser<'input, F>(Parser<'input, F>);

#[verifier::external_type_specification]
#[verifier::external_body]
pub struct ExDefaultBrokenLinkCallback(DefaultBrokenLinkCallback);

/// The events that pulldown-cmark's `Parser::new` yields for a text.
pub uninterp spec fn markdown_events(src: Seq<char>) -> Seq<MdEventView>;

/// The events that a parser has still to yield.
pub uninterp spec fn pending_events(parser: Parser) -> Seq<MdEventView>;

/// Starts pulldown-cmark's parser on `src`, with no extensions enabled.
/// Trusted: the parser will yield [`markdown_events`] of the text.
#[verifier::external_body]
fn markdown_parser(src: &str) -> (parser: Parser<'_>)
    ensures
        pending_events(parser) == markdown_events(src@),
{
    Parser::new(src)
}

/// The parser's next event, through pulldown-cmark's `Iterator::next`, each
/// kind of event as the [`MdEvent`] of the same name; a start or end tag by the
/// element it belongs to (through `Tag::to_end`), tags of other elements as
/// `MdBlock::Other`; HTML, math, footnote references and task-list markers as
/// `MdEvent::Other`. Trusted: the first pending event is yielded and removed;
/// with none left, `None` comes back and none are left (the parser is a
/// `FusedIterator`).
#[verifier::external_body]
fn next_markdown_event(parser: &mut Parser<'_>) -> (e: Option<MdEvent>)
    ensures
        pending_events(*old(parser)).len() == 0 ==> e is None && pending_events(*final(parser)).len() == 0,
        pending_events(*old(parser)).len() > 0 ==> (e matches Some(ev) && ev@ == pending_events(
            *old(parser),
        )[0] && pending_events(*final(parser)) == pending_events(*old(parser)).drop_first()),
{
    let block = |end: TagEnd| match end {
        TagEnd::Paragraph => MdBlock::Paragraph, TagEnd::Heading(level) => MdBlock::Heading(level as u8),
        TagEnd::BlockQuote => MdBlock::Quote, TagEnd::CodeBlock => MdBlock::Code, TagEnd::Item => MdBlock::Item,
        _ => MdBlock::Other,
    };
    Some(match parser.next()? {
        Event::Start(tag) => MdEvent::Start(block(tag.to_end())), Event::End(tag) => MdEvent::End(block(tag)),
        Event::Text(text) => MdEvent::Text(text.into_string()), Event::Code(code) => MdEvent::Code(code.into_string()),
        Event::SoftBreak => MdEvent::SoftBreak, Event::HardBreak => MdEvent::HardBreak,
        Event::Rule => MdEvent::Rule, _ => MdEvent::Other,
    })
}

/// What the block extraction remembers between events.
pub struct MdState {
    /// Text gathered since the last block boundary.
    pub buf: Seq<char>,
    /// The level of the heading being read, if any.
    pub heading: Option<u8>,
    pub in_quote: bool,
    pub in_item: bool,
}

pub open spec fn md_initial() -> MdState {
    MdState { buf: seq![], heading: None, in_quote: false, in_item: false }
}

/// The heading block for a level: levels 1 and 2 keep theirs, any other level
/// (or none) becomes a third-level heading.
pub open spec fn heading_block(level: Option<u8>, t: Seq<char>) -> BlockView {
    match level {
        Some(l) => if l == 1 {
            BlockView::H1(t)
        } else if l == 2 {
            BlockView::H2(t)
        } else {
            BlockView::H3(t)
        },
        None => BlockView::H3(t),
    }
}

/// One event's effect: the next state and the blocks it completes.
pub open spec fn md_step(s: MdState, e: MdEventView) -> (MdState, Seq<BlockView>) {
    let cleared = MdState { buf: seq![], ..s };
    let outside = !s.in_quote && !s.in_item;
    match e {
        MdEventView::Start(b) => match b {
            MdBlock::Code => (cleared, seq![]),
            MdBlock::Heading(l) => (MdState { heading: Some(l), ..cleared }, seq![]),
            MdBlock::Quote => (MdState { in_quote: true, ..cleared }, seq![]),
            MdBlock::Item => (MdState { in_item: true, ..cleared }, seq![]),
            MdBlock::Paragraph => (if outside { cleared } else { s }, seq![]),
            MdBlock::Other => (s, seq![]),
        },
        MdEventView::End(b) => match b {
            MdBlock::Code => (cleared, seq![BlockView::CodeBlock(trim(s.buf))]),
            MdBlock::Heading(_) => (
                MdState { heading: None, ..cleared },
                seq![heading_block(s.heading, trim(s.buf))],
            ),
            MdBlock::Quote => (MdState { in_quote: false, ..cleared }, seq![BlockView::Quote(trim(s.buf))]),
            MdBlock::Item => (MdState { in_item: false, ..cleared }, seq![BlockView::ListItem(trim(s.buf))]),
            MdBlock::Paragraph => if outside {
                (cleared, if trim(s.buf).len() > 0 { seq![BlockView::Paragraph(trim(s.buf))] } else { seq![] })
            } else {
                (s, seq![])
            },
            MdBlock::Other => (s, seq![]),
        },
        MdEventView::Text(t) | MdEventView::Code(t) => (MdState { buf: s.buf + t, ..s }, seq![]),
        MdEventView::SoftBreak | MdEventView::HardBreak => (MdState { buf: s.buf.push(' '), ..s }, seq![]),
        MdEventView::Rule => (s, seq![BlockView::Hr]),
        MdEventView::Other => (s, seq![]),
    }
}

/// The state after a sequence of events and the blocks they complete.
pub open spec fn md_run(events: Seq<MdEventView>) -> (MdState, Seq<BlockView>)
    decreases events.len(),
{
    if events.len() == 0 {
        (md_initial(), seq![])
    } else {
        let (s, out) = md_run(events.drop_last());
        let (s2, more) = md_step(s, events.last());
        (s2, out + more)
    }
}

/// The blocks of a Markdown event stream.
pub open spec fn markdown_blocks(events: Seq<MdEventView>) -> Seq<BlockView> {
    md_run(events).1
}

fn heading_of(level: Option<u8>, t: Vec<char>) -> (b: Block)
    ensures
        b@ == heading_block(level, t@),
{
    let s = string_of(&t);
    match level {
        Some(1) => Block::H1(s),
        Some(2) => Block::H2(s),
        _ => Block::H3(s),
    }
}

/// Reads a Markdown event stream into blocks: see [`markdown_blocks`].
pub fn blocks_from_events(events: &Vec<MdEvent>) -> (blocks: Vec<Block>)
    ensures
        view_blocks(blocks@) == markdown_blocks(view_events(events@)),
{
    let ghost evs = view_events(events@);
    let mut blocks: Vec<Block> = Vec::new();
    let mut buf: Vec<char> = Vec::new();
    let mut heading: Option<u8> = None;
    let mut in_quote = false;
    let mut in_item = false;
    let mut i: usize = 0;
    while i < events.len()
        invariant
            i <= events.len(),
            evs == view_events(events@),
            md_run(evs.take(i as int)) == (
                MdState { buf: buf@, heading, in_quote, in_item },
                view_blocks(blocks@),
            ),
        decreases events.len() - i,
    {
        let ghost s = MdState { buf: buf@, heading, in_quote, in_item };
        let ghost before = blocks@;
        proof {
            assert(evs.take(i + 1).drop_last() =~= evs.take(i as int));
            assert(evs.take(i + 1).last() == events@[i as int]@);
        }
        let ghost step = md_step(s, events@[i as int]@);
        match &events[i] {
            MdEvent::Start(b) => match b {
                MdBlock::Code => {
                    buf = Vec::new();
                },
                MdBlock::Heading(l) => {
                    heading = Some(*l);
                    buf = Vec::new();
                },
                MdBlock::Quote => {
                    in_quote = true;
                    buf = Vec::new();
                },
                MdBlock::Item => {
                    in_item = true;
                    buf = Vec::new();
                },
                MdBlock::Paragraph => {
                    if !in_quote && !in_item {
                        buf = Vec::new();
                    }
                },
                MdBlock::Other => {},
            },
            MdEvent::End(b) => match b {
                MdBlock::Code => {
                    blocks.push(Block::CodeBlock(string_of(&trimmed(&buf))));
                    buf = Vec::new();
                },
                MdBlock::Heading(_) => {
                    blocks.push(heading_of(heading, trimmed(&buf)));
                    heading = None;
                    buf = Vec::new();
                },
                MdBlock::Quote => {
                    blocks.push(Block::Quote(string_of(&trimmed(&buf))));
                    in_quote = false;
                    buf = Vec::new();
                },
                MdBlock::Item => {
                    blocks.push(Block::ListItem(string_of(&trimmed(&buf))));
                    in_item = false;
                    buf = Vec::new();
                },
                MdBlock::Paragraph => {
                    if !in_quote && !in_item {
                        let t = trimmed(&buf);
                        if t.len() > 0 {
                            blocks.push(Block::Paragraph(string_of(&t)));
                        }
                        buf = Vec::new();
                    }
                },
                MdBlock::Other => {},
            },
            MdEvent::Text(t) | MdEvent::Code(t) => {
                extend_chars(&mut buf, &chars_of(t.as_str()));
            },
            MdEvent::SoftBreak | MdEvent::HardBreak => {
                buf.push(' ');
            },
            MdEvent::Rule => {
                blocks.push(Block::Hr);
            },
            MdEvent::Other => {},
        }
        proof {
            assert(buf@ == step.0.buf);
            assert(view_blocks(blocks@) =~= view_blocks(before) + step.1);
        }
        i = i + 1;
    }
    assert(evs.take(events.len() as int) =~= evs);
    blocks
}

/// All events of a parser, in order.
fn drain_events(parser: &mut Parser<'_>) -> (events: Vec<MdEvent>)
    ensures
        view_events(events@) == pending_events(*old(parser)),
{
    let ghost all = pending_events(*parser);
    let mut events: Vec<MdEvent> = Vec::new();
    loop
        invariant
            all == view_events(events@) + pending_events(*parser),
            all == pending_events(*old(parser)),
        decreases pending_events(*parser).len(),
    {
        let ghost before = events@;
        let ghost rest = pending_events(*parser);
        match next_markdown_event(parser) {
            None => {
                assert(view_events(events@) + pending_events(*parser) =~= view_events(events@));
                return events;
            },
            Some(e) => {
                events.push(e);
                assert(view_events(events@) =~= view_events(before).push(e@));
                assert(rest =~= seq![e@] + rest.drop_first());
            },
        }
    }
}

/// Reads a Markdown text into blocks: the blocks of the events that
/// pulldown-cmark yields for it (see [`markdown_blocks`]).
pub fn parse_markdown(src: &str) -> (blocks: Vec<Block>)
    ensures
        view_blocks(blocks@) == markdown_blocks(markdown_events(src@)),
{
    let mut parser = markdown_parser(src);
    let events = drain_events(&mut parser);
    blocks_from_events(&events)
}

} // verus!
