use crate::events::{AlertKind, Alignment, LinkKind, MdEvent, MdTag, MdTagEnd};
use pulldown_cmark::{BlockQuoteKind, CodeBlockKind, Event, LinkType, Options, Parser, Tag, TagEnd};
use std::ops::Range;
use vstd::prelude::*;

verus! {

#[verifier::external_type_specification]
#[verifier::external_body]
pub struct ExEvent<'a>(pulldown_cmark::Event<'a>);

#[verifier::external_type_specification]
#[verifier::external_body]
pub struct ExTag<'a>(pulldown_cmark::Tag<'a>);

#[verifier::external_type_specification]
#[verifier::external_body]
pub struct ExTagEnd(pulldown_cmark::TagEnd);

#[verifier::external_type_specification]
#[verifier::external_body]
pub struct ExBlockQuoteKind(pulldown_cmark::BlockQuoteKind);

#[verifier::external_type_specification]
#[verifier::external_body]
pub struct ExLinkType(pulldown_cmark::LinkType);

/// The events, with the source range of each, that pulldown-cmark's
/// `Parser::new_ext` emits for a document with strikethrough, footnotes,
/// tables, task lists, math and GitHub alerts enabled, converted one for one
/// (a heading's level as its number, a link's type as its kind, the elements
/// of the extensions that are not enabled as `Disabled`).
pub uninterp spec fn markdown_events(source: Seq<char>) -> Seq<(MdEvent, Range<usize>)>;

/// Parses a document with pulldown-cmark's `Parser::new_ext` and
/// `into_offset_iter`, with the extensions of GitHub flavored Markdown that
/// the preview renders, converting each event. The events depend on the
/// document alone; which events a document gives is named, not stated.
#[verifier::external_body]
pub fn parse_markdown(source: &str) -> (ev: Vec<(MdEvent, Range<usize>)>)
    ensures
        ev@ == markdown_events(source@),
{
    let options = Options::ENABLE_STRIKETHROUGH | Options::ENABLE_FOOTNOTES | Options::ENABLE_TABLES
        | Options::ENABLE_TASKLISTS | Options::ENABLE_MATH | Options::ENABLE_GFM;
    let mut ev = Vec::new();
    for (e, r) in Parser::new_ext(source, options).into_offset_iter() {
        ev.push((md_event(e), r));
    }
    ev
}

/// Converts a pulldown-cmark event, one variant to its namesake, for
/// `parse_markdown`.
#[verifier::external_body]
fn md_event(e: Event) -> MdEvent {
    match e {
        Event::Start(t) => MdEvent::Start(md_tag(t)),
        Event::End(t) => MdEvent::End(md_tag_end(t)),
        Event::Text(t) => MdEvent::Text(t.into()),
        Event::Code(t) => MdEvent::Code(t.into()),
        Event::Html(t) => MdEvent::Html(t.into()),
        Event::InlineHtml(t) => MdEvent::InlineHtml(t.into()),
        Event::DisplayMath(t) => MdEvent::DisplayMath(t.into()),
        Event::InlineMath(t) => MdEvent::InlineMath(t.into()),
        Event::SoftBreak => MdEvent::SoftBreak,
        Event::HardBreak => MdEvent::HardBreak,
        e => md_other_event(e),
    }
}

/// Converts a footnote reference, a task list marker or a rule, for
/// `md_event`, which converts the other events.
#[verifier::external_body]
fn md_other_event(e: Event) -> MdEvent {
    match e {
        Event::FootnoteReference(t) => MdEvent::FootnoteReference(t.into()),
        Event::TaskListMarker(c) => MdEvent::TaskListMarker(c),
        Event::Rule => MdEvent::Rule,
        e => md_event(e),
    }
}

/// Converts the start of a block element that holds data, for `md_event`.
#[verifier::external_body]
fn md_tag(t: Tag) -> MdTag {
    match t {
        Tag::Heading { level, id, .. } => MdTag::Heading(level as u8, id.map(|i| i.into())),
        Tag::BlockQuote(k) => MdTag::BlockQuote(k.map(md_alert)),
        Tag::CodeBlock(CodeBlockKind::Fenced(i)) => MdTag::CodeBlock(Some(i.into())),
        Tag::CodeBlock(CodeBlockKind::Indented) => MdTag::CodeBlock(None),
        Tag::List(n) => MdTag::List(n),
        t => md_table_tag(t),
    }
}

/// Converts the start of a table with the alignment of each column, for
/// `md_tag`.
#[verifier::external_body]
fn md_table_tag(t: Tag) -> MdTag {
    match t {
        Tag::Table(a) => MdTag::Table(a.into_iter().map(|a| match a {
            pulldown_cmark::Alignment::None => Alignment::Unset,
            pulldown_cmark::Alignment::Left => Alignment::Left,
            pulldown_cmark::Alignment::Center => Alignment::Center,
            pulldown_cmark::Alignment::Right => Alignment::Right,
        }).collect()),
        t => md_link_tag(t),
    }
}

/// Converts the start of a link, an image or a footnote definition, for
/// `md_table_tag`.
#[verifier::external_body]
fn md_link_tag(t: Tag) -> MdTag {
    match t {
        Tag::Link { link_type, dest_url, title, .. } => MdTag::Link(md_link_kind(link_type), dest_url.into(), title.into()),
        Tag::Image { dest_url, title, .. } => MdTag::Image(dest_url.into(), title.into()),
        Tag::FootnoteDefinition(n) => MdTag::FootnoteDefinition(n.into()),
        t => md_plain_tag(t),
    }
}

/// Converts the start of an element that holds no data; the elements of
/// the extensions that are not enabled become `Disabled`. For `md_link_tag`.
#[verifier::external_body]
fn md_plain_tag(t: Tag) -> MdTag {
    match t {
        Tag::Paragraph => MdTag::Paragraph,
        Tag::TableHead => MdTag::TableHead,
        Tag::TableRow => MdTag::TableRow,
        Tag::TableCell => MdTag::TableCell,
        Tag::Item => MdTag::Item,
        Tag::Emphasis => MdTag::Emphasis,
        Tag::Strong => MdTag::Strong,
        Tag::Strikethrough => MdTag::Strikethrough,
        Tag::HtmlBlock => MdTag::HtmlBlock,
        _ => MdTag::Disabled,
    }
}

/// Converts the end of an element, for `md_event`.
#[verifier::external_body]
fn md_tag_end(t: TagEnd) -> MdTagEnd {
    match t {
        TagEnd::Paragraph => MdTagEnd::Paragraph,
        TagEnd::Heading(_) => MdTagEnd::Heading,
        TagEnd::Table => MdTagEnd::Table,
        TagEnd::TableHead => MdTagEnd::TableHead,
        TagEnd::TableRow => MdTagEnd::TableRow,
        TagEnd::TableCell => MdTagEnd::TableCell,
        TagEnd::BlockQuote(_) => MdTagEnd::BlockQuote,
        TagEnd::CodeBlock => MdTagEnd::CodeBlock,
        TagEnd::List(_) => MdTagEnd::List,
        t => md_inline_tag_end(t),
    }
}

/// Converts the end of an inline element, a footnote definition or an HTML
/// block; the elements of the extensions that are not enabled become
/// `Disabled`. For `md_tag_end`.
#[verifier::external_body]
fn md_inline_tag_end(t: TagEnd) -> MdTagEnd {
    match t {
        TagEnd::Item => MdTagEnd::Item,
        TagEnd::Emphasis => MdTagEnd::Emphasis,
        TagEnd::Strong => MdTagEnd::Strong,
        TagEnd::Strikethrough => MdTagEnd::Strikethrough,
        TagEnd::Link => MdTagEnd::Link,
        TagEnd::Image => MdTagEnd::Image,
        TagEnd::HtmlBlock => MdTagEnd::HtmlBlock,
        TagEnd::FootnoteDefinition => MdTagEnd::FootnoteDefinition,
        _ => MdTagEnd::Disabled,
    }
}

/// Converts the kind of an alert, for `md_tag`.
#[verifier::external_body]
fn md_alert(k: BlockQuoteKind) -> AlertKind {
    match k {
        BlockQuoteKind::Note => AlertKind::Note,
        BlockQuoteKind::Tip => AlertKind::Tip,
        BlockQuoteKind::Important => AlertKind::Important,
        BlockQuoteKind::Warning => AlertKind::Warning,
        BlockQuoteKind::Caution => AlertKind::Caution,
    }
}

/// Converts the type of a link to the kinds that the preview tells apart,
/// for `md_link_tag`.
#[verifier::external_body]
fn md_link_kind(t: LinkType) -> LinkKind {
    match t {
        LinkType::Autolink => LinkKind::Autolink,
        LinkType::Email => LinkKind::Email,
        _ => LinkKind::Other,
    }
}

} // verus!
