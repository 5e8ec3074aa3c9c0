//! Reading markdown source with pulldown-cmark: each parser event becomes
//! the library's `MdEvent`, which `Markdown::render_events` renders.
use vstd::prelude::*;
use pulldown_cmark::{Event, Options, Parser, Tag, TagEnd};
use crate::renderables::markdown::{md_events_ok, render_events_spec, Markdown, MdAlignment, MdEvent, MdTag, MdTagEnd};
use crate::segment::{segs_model, Segment};

verus! {

/// A pulldown-cmark parser event.
#[verifier::external_type_specification]
#[verifier::external_body]
pub struct ExCmarkEvent<'a>(Event<'a>);

/// The events, converted by `md_event_of`, that pulldown-cmark's parser gives
/// for a source text with strikethrough, tables and footnotes enabled.
pub uninterp spec fn cmark_events(source: Seq<char>) -> Seq<MdEvent>;

/// Tells a pulldown-cmark event apart: a text, code, break or rule event as
/// the library's event (any other kind as `Other`), else whether it starts
/// (`true`) or ends (`false`) an element. Nothing is stated: the event is
/// opaque here.
#[verifier::external_body]
fn plain_event(e: &Event<'_>) -> (r: Result<MdEvent, bool>) {
    match e {
        Event::Start(_) => Err(true),
        Event::End(_) => Err(false),
        Event::Text(t) => Ok(MdEvent::Text(t.to_string())),
        Event::Code(c) => Ok(MdEvent::Code(c.to_string())),
        Event::SoftBreak => Ok(MdEvent::SoftBreak),
        Event::HardBreak => Ok(MdEvent::HardBreak),
        Event::Rule => Ok(MdEvent::Rule),
        _ => Ok(MdEvent::Other),
    }
}

/// The start of a block element (paragraph, heading with its level, quote,
/// code block, list with its start, item, table head), or `None`. Nothing is
/// stated: the event is opaque here.
#[verifier::external_body]
fn block_start(e: &Event<'_>) -> (r: Option<MdTag>) {
    match e {
        Event::Start(Tag::Paragraph) => Some(MdTag::Paragraph),
        Event::Start(Tag::Heading { level, .. }) => Some(MdTag::Heading(*level as u8)),
        Event::Start(Tag::BlockQuote) => Some(MdTag::BlockQuote),
        Event::Start(Tag::CodeBlock(_)) => Some(MdTag::CodeBlock),
        Event::Start(Tag::List(n)) => Some(MdTag::List(*n)),
        Event::Start(Tag::Item) => Some(MdTag::Item),
        Event::Start(Tag::TableHead) => Some(MdTag::TableHead),
        _ => None,
    }
}

/// The start of a row, cell, emphasis, strong, struck-through or link (with
/// its destination) element, or `None`. Nothing is stated: the event is
/// opaque here.
#[verifier::external_body]
fn inline_start(e: &Event<'_>) -> (r: Option<MdTag>) {
    match e {
        Event::Start(Tag::TableRow) => Some(MdTag::TableRow),
        Event::Start(Tag::TableCell) => Some(MdTag::TableCell),
        Event::Start(Tag::Emphasis) => Some(MdTag::Emphasis),
        Event::Start(Tag::Strong) => Some(MdTag::Strong),
        Event::Start(Tag::Strikethrough) => Some(MdTag::Strikethrough),
        Event::Start(Tag::Link { dest_url, .. }) => Some(MdTag::Link(dest_url.to_string())),
        _ => None,
    }
}

/// The column alignments of a table start, each as its position in
/// pulldown-cmark's `Alignment` (none, left, center, right), or `None`.
/// Nothing is stated: the event is opaque here.
#[verifier::external_body]
fn table_start(e: &Event<'_>) -> (r: Option<Vec<u8>>) {
    match e {
        Event::Start(Tag::Table(a)) => Some(a.iter().map(|x| *x as u8).collect()),
        _ => None,
    }
}

/// The end of a paragraph, heading, quote, code block, list, item or table,
/// or `None`. Nothing is stated: the event is opaque here.
#[verifier::external_body]
fn block_end(e: &Event<'_>) -> (r: Option<MdTagEnd>) {
    match e {
        Event::End(TagEnd::Paragraph) => Some(MdTagEnd::Paragraph),
        Event::End(TagEnd::Heading(_)) => Some(MdTagEnd::Heading),
        Event::End(TagEnd::BlockQuote) => Some(MdTagEnd::BlockQuote),
        Event::End(TagEnd::CodeBlock) => Some(MdTagEnd::CodeBlock),
        Event::End(TagEnd::List(_)) => Some(MdTagEnd::List),
        Event::End(TagEnd::Item) => Some(MdTagEnd::Item),
        Event::End(TagEnd::Table) => Some(MdTagEnd::Table),
        _ => None,
    }
}

/// The end of a table head, row, cell, emphasis, strong, struck-through or
/// link element, or `None`. Nothing is stated: the event is opaque here.
#[verifier::external_body]
fn inline_end(e: &Event<'_>) -> (r: Option<MdTagEnd>) {
    match e {
        Event::End(TagEnd::TableHead) => Some(MdTagEnd::TableHead),
        Event::End(TagEnd::TableRow) => Some(MdTagEnd::TableRow),
        Event::End(TagEnd::TableCell) => Some(MdTagEnd::TableCell),
        Event::End(TagEnd::Emphasis) => Some(MdTagEnd::Emphasis),
        Event::End(TagEnd::Strong) => Some(MdTagEnd::Strong),
        Event::End(TagEnd::Strikethrough) => Some(MdTagEnd::Strikethrough),
        Event::End(TagEnd::Link) => Some(MdTagEnd::Link),
        _ => None,
    }
}

/// The alignment at a position of pulldown-cmark's `Alignment`.
pub open spec fn alignment_at(k: u8) -> MdAlignment {
    if k == 1 {
        MdAlignment::Left
    } else if k == 2 {
        MdAlignment::Center
    } else if k == 3 {
        MdAlignment::Right
    } else {
        MdAlignment::Unaligned
    }
}

/// The alignments at positions (see `alignment_at`).
fn alignments(v: &Vec<u8>) -> (r: Vec<MdAlignment>)
    ensures
        r@ == v@.map_values(|k: u8| alignment_at(k)),
{
    let mut r: Vec<MdAlignment> = Vec::new();
    let mut i: usize = 0;
    while i < v.len()
        invariant
            i <= v@.len(),
            r@ == v@.take(i as int).map_values(|k: u8| alignment_at(k)),
        decreases v.len() - i,
    {
        let a = if v[i] == 1 {
            MdAlignment::Left
        } else if v[i] == 2 {
            MdAlignment::Center
        } else if v[i] == 3 {
            MdAlignment::Right
        } else {
            MdAlignment::Unaligned
        };
        r.push(a);
        assert(v@.take(i + 1) =~= v@.take(i as int).push(v@[i as int]));
        assert(r@ =~= v@.take(i + 1).map_values(|k: u8| alignment_at(k)));
        i += 1;
    }
    assert(v@.take(v@.len() as int) =~= v@);
    r
}

/// The library's event for a pulldown-cmark event: text, code, breaks and
/// rules as they are; the starts and ends of the elements the renderer knows;
/// `Other` for the rest.
fn md_event_of(e: &Event<'_>) -> (r: MdEvent) {
    match plain_event(e) {
        Ok(m) => m,
        Err(starts) => {
            if starts {
                match block_start(e) {
                    Some(t) => MdEvent::Start(t),
                    None => match inline_start(e) {
                        Some(t) => MdEvent::Start(t),
                        None => match table_start(e) {
                            Some(a) => MdEvent::Start(MdTag::Table(alignments(&a))),
                            None => MdEvent::Start(MdTag::Other),
                        },
                    },
                }
            } else {
                match block_end(e) {
                    Some(t) => MdEvent::End(t),
                    None => match inline_end(e) {
                        Some(t) => MdEvent::End(t),
                        None => MdEvent::End(MdTagEnd::Other),
                    },
                }
            }
        },
    }
}

/// Calls pulldown-cmark's `Parser::new_ext` on the source with
/// strikethrough, tables and footnotes enabled, converting each event with
/// `md_event_of`; the result is named by `cmark_events`.
#[verifier::external_body]
fn parse_events(source: &str) -> (r: Vec<MdEvent>)
    ensures
        r@ == cmark_events(source@),
{
    let options = Options::ENABLE_STRIKETHROUGH | Options::ENABLE_TABLES | Options::ENABLE_FOOTNOTES;
    Parser::new_ext(source, options).map(|e| md_event_of(&e)).collect()
}

impl Markdown {
    /// Render the document: its source read into events (see
    /// `cmark_events`), then rendered (see `render_events_spec`); `None`
    /// where a list number or a table width would overflow. The width is not
    /// used: tables take the width their cells need.
    pub fn render(&self, _max_width: usize) -> (r: Option<Vec<Segment>>)
        ensures
            r is Some <==> md_events_ok(self@, cmark_events(self@.source)),
            r matches Some(v) ==> segs_model(v@) == render_events_spec(self@, cmark_events(self@.source)),
    {
        let events = parse_events(self.source());
        self.checked_render_events(&events)
    }
}

} // verus!
