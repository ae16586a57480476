use vstd::prelude::*;

verus! {
/// The start of an element: `{"t":"`.
pub open spec fn lit_tag_open() -> Seq<u8> {
    seq![123u8, 34u8, 116u8, 34u8, 58u8, 34u8]
}
/// Writes the start of an element: `{"t":"`.
pub fn write_tag_open(out: &mut Vec<u8>)
    ensures
        final(out)@ == old(out)@ + lit_tag_open(),
{
    out.extend_from_slice(&[123u8, 34u8, 116u8, 34u8, 58u8, 34u8]);
}
/// A double quote.
pub open spec fn lit_quote() -> Seq<u8> {
    seq![34u8]
}
/// Writes a double quote.
pub fn write_quote(out: &mut Vec<u8>)
    ensures
        final(out)@ == old(out)@ + lit_quote(),
{
    out.extend_from_slice(&[34u8]);
}
/// A comma.
pub open spec fn lit_comma() -> Seq<u8> {
    seq![44u8]
}
/// Writes a comma.
pub fn write_comma(out: &mut Vec<u8>)
    ensures
        final(out)@ == old(out)@ + lit_comma(),
{
    out.extend_from_slice(&[44u8]);
}
/// A closing brace.
pub open spec fn lit_close_brace() -> Seq<u8> {
    seq![125u8]
}
/// Writes a closing brace.
pub fn write_close_brace(out: &mut Vec<u8>)
    ensures
        final(out)@ == old(out)@ + lit_close_brace(),
{
    out.extend_from_slice(&[125u8]);
}
/// An opening bracket.
pub open spec fn lit_open_bracket() -> Seq<u8> {
    seq![91u8]
}
/// Writes an opening bracket.
pub fn write_open_bracket(out: &mut Vec<u8>)
    ensures
        final(out)@ == old(out)@ + lit_open_bracket(),
{
    out.extend_from_slice(&[91u8]);
}
/// A closing bracket.
pub open spec fn lit_close_bracket() -> Seq<u8> {
    seq![93u8]
}
/// Writes a closing bracket.
pub fn write_close_bracket(out: &mut Vec<u8>)
    ensures
        final(out)@ == old(out)@ + lit_close_bracket(),
{
    out.extend_from_slice(&[93u8]);
}
/// The end of an element's children and of the element: `]}`.
pub open spec fn lit_tag_end() -> Seq<u8> {
    seq![93u8, 125u8]
}
/// Writes the end of an element's children and of the element: `]}`.
pub fn write_tag_end(out: &mut Vec<u8>)
    ensures
        final(out)@ == old(out)@ + lit_tag_end(),
{
    out.extend_from_slice(&[93u8, 125u8]);
}
/// The start of an element's children: `,"c":[`.
pub open spec fn lit_children_begin() -> Seq<u8> {
    seq![44u8, 34u8, 99u8, 34u8, 58u8, 91u8]
}
/// Writes the start of an element's children: `,"c":[`.
pub fn write_children_begin(out: &mut Vec<u8>)
    ensures
        final(out)@ == old(out)@ + lit_children_begin(),
{
    out.extend_from_slice(&[44u8, 34u8, 99u8, 34u8, 58u8, 91u8]);
}
/// The heading level attribute: `,"level":`.
pub open spec fn lit_level() -> Seq<u8> {
    seq![44u8, 34u8, 108u8, 101u8, 118u8, 101u8, 108u8, 34u8, 58u8]
}
/// Writes the heading level attribute: `,"level":`.
pub fn write_level(out: &mut Vec<u8>)
    ensures
        final(out)@ == old(out)@ + lit_level(),
{
    out.extend_from_slice(&[44u8, 34u8, 108u8, 101u8, 118u8, 101u8, 108u8, 34u8, 58u8]);
}
/// The column alignments of a table: `,"align":[`.
pub open spec fn lit_align() -> Seq<u8> {
    seq![44u8, 34u8, 97u8, 108u8, 105u8, 103u8, 110u8, 34u8, 58u8, 91u8]
}
/// Writes the column alignments of a table: `,"align":[`.
pub fn write_align(out: &mut Vec<u8>)
    ensures
        final(out)@ == old(out)@ + lit_align(),
{
    out.extend_from_slice(&[44u8, 34u8, 97u8, 108u8, 105u8, 103u8, 110u8, 34u8, 58u8, 91u8]);
}
/// `null`.
pub open spec fn lit_null() -> Seq<u8> {
    seq![110u8, 117u8, 108u8, 108u8]
}
/// Writes `null`.
pub fn write_null(out: &mut Vec<u8>)
    ensures
        final(out)@ == old(out)@ + lit_null(),
{
    out.extend_from_slice(&[110u8, 117u8, 108u8, 108u8]);
}
/// `"left"`.
pub open spec fn lit_left() -> Seq<u8> {
    seq![34u8, 108u8, 101u8, 102u8, 116u8, 34u8]
}
/// Writes `"left"`.
pub fn write_left(out: &mut Vec<u8>)
    ensures
        final(out)@ == old(out)@ + lit_left(),
{
    out.extend_from_slice(&[34u8, 108u8, 101u8, 102u8, 116u8, 34u8]);
}
/// `"center"`.
pub open spec fn lit_center() -> Seq<u8> {
    seq![34u8, 99u8, 101u8, 110u8, 116u8, 101u8, 114u8, 34u8]
}
/// Writes `"center"`.
pub fn write_center(out: &mut Vec<u8>)
    ensures
        final(out)@ == old(out)@ + lit_center(),
{
    out.extend_from_slice(&[34u8, 99u8, 101u8, 110u8, 116u8, 101u8, 114u8, 34u8]);
}
/// `"right"`.
pub open spec fn lit_right() -> Seq<u8> {
    seq![34u8, 114u8, 105u8, 103u8, 104u8, 116u8, 34u8]
}
/// Writes `"right"`.
pub fn write_right(out: &mut Vec<u8>)
    ensures
        final(out)@ == old(out)@ + lit_right(),
{
    out.extend_from_slice(&[34u8, 114u8, 105u8, 103u8, 104u8, 116u8, 34u8]);
}
/// The kind attribute of an alert: `,"kind":"`.
pub open spec fn lit_kind() -> Seq<u8> {
    seq![44u8, 34u8, 107u8, 105u8, 110u8, 100u8, 34u8, 58u8, 34u8]
}
/// Writes the kind attribute of an alert: `,"kind":"`.
pub fn write_kind(out: &mut Vec<u8>)
    ensures
        final(out)@ == old(out)@ + lit_kind(),
{
    out.extend_from_slice(&[44u8, 34u8, 107u8, 105u8, 110u8, 100u8, 34u8, 58u8, 34u8]);
}
/// The language attribute of a code block: `,"lang":`.
pub open spec fn lit_lang() -> Seq<u8> {
    seq![44u8, 34u8, 108u8, 97u8, 110u8, 103u8, 34u8, 58u8]
}
/// Writes the language attribute of a code block: `,"lang":`.
pub fn write_lang(out: &mut Vec<u8>)
    ensures
        final(out)@ == old(out)@ + lit_lang(),
{
    out.extend_from_slice(&[44u8, 34u8, 108u8, 97u8, 110u8, 103u8, 34u8, 58u8]);
}
/// The start attribute of an ordered list: `,"start":`.
pub open spec fn lit_start() -> Seq<u8> {
    seq![44u8, 34u8, 115u8, 116u8, 97u8, 114u8, 116u8, 34u8, 58u8]
}
/// Writes the start attribute of an ordered list: `,"start":`.
pub fn write_start(out: &mut Vec<u8>)
    ensures
        final(out)@ == old(out)@ + lit_start(),
{
    out.extend_from_slice(&[44u8, 34u8, 115u8, 116u8, 97u8, 114u8, 116u8, 34u8, 58u8]);
}
/// The link target attribute: `,"href":`.
pub open spec fn lit_href() -> Seq<u8> {
    seq![44u8, 34u8, 104u8, 114u8, 101u8, 102u8, 34u8, 58u8]
}
/// Writes the link target attribute: `,"href":`.
pub fn write_href(out: &mut Vec<u8>)
    ensures
        final(out)@ == old(out)@ + lit_href(),
{
    out.extend_from_slice(&[44u8, 34u8, 104u8, 114u8, 101u8, 102u8, 34u8, 58u8]);
}
/// The start of an e-mail link target: `"mailto:`.
pub open spec fn lit_mailto() -> Seq<u8> {
    seq![34u8, 109u8, 97u8, 105u8, 108u8, 116u8, 111u8, 58u8]
}
/// Writes the start of an e-mail link target: `"mailto:`.
pub fn write_mailto(out: &mut Vec<u8>)
    ensures
        final(out)@ == old(out)@ + lit_mailto(),
{
    out.extend_from_slice(&[34u8, 109u8, 97u8, 105u8, 108u8, 116u8, 111u8, 58u8]);
}
/// The title attribute: `,"title":`.
pub open spec fn lit_title() -> Seq<u8> {
    seq![44u8, 34u8, 116u8, 105u8, 116u8, 108u8, 101u8, 34u8, 58u8]
}
/// Writes the title attribute: `,"title":`.
pub fn write_title(out: &mut Vec<u8>)
    ensures
        final(out)@ == old(out)@ + lit_title(),
{
    out.extend_from_slice(&[44u8, 34u8, 116u8, 105u8, 116u8, 108u8, 101u8, 34u8, 58u8]);
}
/// The image source attribute: `,"src":`.
pub open spec fn lit_src() -> Seq<u8> {
    seq![44u8, 34u8, 115u8, 114u8, 99u8, 34u8, 58u8]
}
/// Writes the image source attribute: `,"src":`.
pub fn write_src(out: &mut Vec<u8>)
    ensures
        final(out)@ == old(out)@ + lit_src(),
{
    out.extend_from_slice(&[44u8, 34u8, 115u8, 114u8, 99u8, 34u8, 58u8]);
}
/// The start of raw HTML: `,"raw":"`.
pub open spec fn lit_raw() -> Seq<u8> {
    seq![44u8, 34u8, 114u8, 97u8, 119u8, 34u8, 58u8, 34u8]
}
/// Writes the start of raw HTML: `,"raw":"`.
pub fn write_raw(out: &mut Vec<u8>)
    ensures
        final(out)@ == old(out)@ + lit_raw(),
{
    out.extend_from_slice(&[44u8, 34u8, 114u8, 97u8, 119u8, 34u8, 58u8, 34u8]);
}
/// The end of raw HTML: `"}`.
pub open spec fn lit_raw_end() -> Seq<u8> {
    seq![34u8, 125u8]
}
/// Writes the end of raw HTML: `"}`.
pub fn write_raw_end(out: &mut Vec<u8>)
    ensures
        final(out)@ == old(out)@ + lit_raw_end(),
{
    out.extend_from_slice(&[34u8, 125u8]);
}
/// The name attribute: `,"name":`.
pub open spec fn lit_name() -> Seq<u8> {
    seq![44u8, 34u8, 110u8, 97u8, 109u8, 101u8, 34u8, 58u8]
}
/// Writes the name attribute: `,"name":`.
pub fn write_name(out: &mut Vec<u8>)
    ensures
        final(out)@ == old(out)@ + lit_name(),
{
    out.extend_from_slice(&[44u8, 34u8, 110u8, 97u8, 109u8, 101u8, 34u8, 58u8]);
}
/// The id attribute: `,"id":`.
pub open spec fn lit_id() -> Seq<u8> {
    seq![44u8, 34u8, 105u8, 100u8, 34u8, 58u8]
}
/// Writes the id attribute: `,"id":`.
pub fn write_id(out: &mut Vec<u8>)
    ensures
        final(out)@ == old(out)@ + lit_id(),
{
    out.extend_from_slice(&[44u8, 34u8, 105u8, 100u8, 34u8, 58u8]);
}
/// A checked task list marker: `,"checked":true}`.
pub open spec fn lit_checked_true() -> Seq<u8> {
    seq![44u8, 34u8, 99u8, 104u8, 101u8, 99u8, 107u8, 101u8, 100u8, 34u8, 58u8, 116u8, 114u8, 117u8, 101u8, 125u8]
}
/// Writes a checked task list marker: `,"checked":true}`.
pub fn write_checked_true(out: &mut Vec<u8>)
    ensures
        final(out)@ == old(out)@ + lit_checked_true(),
{
    out.extend_from_slice(&[44u8, 34u8, 99u8, 104u8, 101u8, 99u8, 107u8, 101u8, 100u8, 34u8, 58u8, 116u8, 114u8, 117u8, 101u8, 125u8]);
}
/// An unchecked task list marker: `,"checked":false}`.
pub open spec fn lit_checked_false() -> Seq<u8> {
    seq![44u8, 34u8, 99u8, 104u8, 101u8, 99u8, 107u8, 101u8, 100u8, 34u8, 58u8, 102u8, 97u8, 108u8, 115u8, 101u8, 125u8]
}
/// Writes an unchecked task list marker: `,"checked":false}`.
pub fn write_checked_false(out: &mut Vec<u8>)
    ensures
        final(out)@ == old(out)@ + lit_checked_false(),
{
    out.extend_from_slice(&[44u8, 34u8, 99u8, 104u8, 101u8, 99u8, 107u8, 101u8, 100u8, 34u8, 58u8, 102u8, 97u8, 108u8, 115u8, 101u8, 125u8]);
}
/// Display math: `,"inline":false,"expr":`.
pub open spec fn lit_display_math() -> Seq<u8> {
    seq![44u8, 34u8, 105u8, 110u8, 108u8, 105u8, 110u8, 101u8, 34u8, 58u8, 102u8, 97u8, 108u8, 115u8, 101u8, 44u8, 34u8, 101u8, 120u8, 112u8, 114u8, 34u8, 58u8]
}
/// Writes display math: `,"inline":false,"expr":`.
pub fn write_display_math(out: &mut Vec<u8>)
    ensures
        final(out)@ == old(out)@ + lit_display_math(),
{
    out.extend_from_slice(&[44u8, 34u8, 105u8, 110u8, 108u8, 105u8, 110u8, 101u8, 34u8, 58u8, 102u8, 97u8, 108u8, 115u8, 101u8, 44u8, 34u8, 101u8, 120u8, 112u8, 114u8, 34u8, 58u8]);
}
/// Inline math: `,"inline":true,"expr":`.
pub open spec fn lit_inline_math() -> Seq<u8> {
    seq![44u8, 34u8, 105u8, 110u8, 108u8, 105u8, 110u8, 101u8, 34u8, 58u8, 116u8, 114u8, 117u8, 101u8, 44u8, 34u8, 101u8, 120u8, 112u8, 114u8, 34u8, 58u8]
}
/// Writes inline math: `,"inline":true,"expr":`.
pub fn write_inline_math(out: &mut Vec<u8>)
    ensures
        final(out)@ == old(out)@ + lit_inline_math(),
{
    out.extend_from_slice(&[44u8, 34u8, 105u8, 110u8, 108u8, 105u8, 110u8, 101u8, 34u8, 58u8, 116u8, 114u8, 117u8, 101u8, 44u8, 34u8, 101u8, 120u8, 112u8, 114u8, 34u8, 58u8]);
}
/// An automatic link: `,"auto":true,"href":`.
pub open spec fn lit_autolink() -> Seq<u8> {
    seq![44u8, 34u8, 97u8, 117u8, 116u8, 111u8, 34u8, 58u8, 116u8, 114u8, 117u8, 101u8, 44u8, 34u8, 104u8, 114u8, 101u8, 102u8, 34u8, 58u8]
}
/// Writes an automatic link: `,"auto":true,"href":`.
pub fn write_autolink(out: &mut Vec<u8>)
    ensures
        final(out)@ == old(out)@ + lit_autolink(),
{
    out.extend_from_slice(&[44u8, 34u8, 97u8, 117u8, 116u8, 111u8, 34u8, 58u8, 116u8, 114u8, 117u8, 101u8, 44u8, 34u8, 104u8, 114u8, 101u8, 102u8, 34u8, 58u8]);
}
/// A slash.
pub open spec fn lit_slash() -> Seq<u8> {
    seq![47u8]
}
/// Writes a slash.
pub fn write_slash(out: &mut Vec<u8>)
    ensures
        final(out)@ == old(out)@ + lit_slash(),
{
    out.extend_from_slice(&[47u8]);
}
/// The start of the render tree message.
pub open spec fn lit_message_begin() -> Seq<u8> {
    seq![74u8, 83u8, 79u8, 78u8, 46u8, 112u8, 97u8, 114u8, 115u8, 101u8, 40u8, 39u8, 123u8, 34u8, 107u8, 105u8, 110u8, 100u8, 34u8, 58u8, 34u8, 114u8, 101u8, 110u8, 100u8, 101u8, 114u8, 95u8, 116u8, 114u8, 101u8, 101u8, 34u8, 44u8, 34u8, 116u8, 114u8, 101u8, 101u8, 34u8, 58u8]
}
/// Writes the start of the render tree message.
pub fn write_message_begin(out: &mut Vec<u8>)
    ensures
        final(out)@ == old(out)@ + lit_message_begin(),
{
    out.extend_from_slice(&[74u8, 83u8, 79u8, 78u8, 46u8, 112u8, 97u8, 114u8, 115u8, 101u8, 40u8, 39u8, 123u8, 34u8, 107u8, 105u8, 110u8, 100u8, 34u8, 58u8, 34u8, 114u8, 101u8, 110u8, 100u8, 101u8, 114u8, 95u8, 116u8, 114u8, 101u8, 101u8, 34u8, 44u8, 34u8, 116u8, 114u8, 101u8, 101u8, 34u8, 58u8]);
}
/// The end of the render tree message.
pub open spec fn lit_message_end() -> Seq<u8> {
    seq![125u8, 39u8, 41u8]
}
/// Writes the end of the render tree message.
pub fn write_message_end(out: &mut Vec<u8>)
    ensures
        final(out)@ == old(out)@ + lit_message_end(),
{
    out.extend_from_slice(&[125u8, 39u8, 41u8]);
}
/// The elements of the render tree.
#[derive(Clone, Copy, PartialEq, Eq, Structural, Debug)]
pub enum Element {
    P,
    H,
    Table,
    Thead,
    Tr,
    Tbody,
    Th,
    Td,
    Blockquote,
    Alert,
    Pre,
    Code,
    Ol,
    Ul,
    TaskList,
    Li,
    Em,
    Strong,
    Del,
    A,
    Img,
    Html,
    FnDef,
    Br,
    Hr,
    FnRef,
    Checkbox,
    Math,
    Emoji,
    Modified,
    Match,
    MatchCurrent,
    MatchStart,
    MatchCurrentStart,
}

/// The name of an element as it is written.
pub open spec fn element_name(e: Element) -> Seq<u8> {
    match e {
        Element::P => seq![112u8],
        Element::H => seq![104u8],
        Element::Table => seq![116u8, 97u8, 98u8, 108u8, 101u8],
        Element::Thead => seq![116u8, 104u8, 101u8, 97u8, 100u8],
        Element::Tr => seq![116u8, 114u8],
        Element::Tbody => seq![116u8, 98u8, 111u8, 100u8, 121u8],
        Element::Th => seq![116u8, 104u8],
        Element::Td => seq![116u8, 100u8],
        Element::Blockquote => seq![98u8, 108u8, 111u8, 99u8, 107u8, 113u8, 117u8, 111u8, 116u8, 101u8],
        Element::Alert => seq![97u8, 108u8, 101u8, 114u8, 116u8],
        Element::Pre => seq![112u8, 114u8, 101u8],
        Element::Code => seq![99u8, 111u8, 100u8, 101u8],
        Element::Ol => seq![111u8, 108u8],
        Element::Ul => seq![117u8, 108u8],
        Element::TaskList => seq![116u8, 97u8, 115u8, 107u8, 45u8, 108u8, 105u8, 115u8, 116u8],
        Element::Li => seq![108u8, 105u8],
        Element::Em => seq![101u8, 109u8],
        Element::Strong => seq![115u8, 116u8, 114u8, 111u8, 110u8, 103u8],
        Element::Del => seq![100u8, 101u8, 108u8],
        Element::A => seq![97u8],
        Element::Img => seq![105u8, 109u8, 103u8],
        Element::Html => seq![104u8, 116u8, 109u8, 108u8],
        Element::FnDef => seq![102u8, 110u8, 45u8, 100u8, 101u8, 102u8],
        Element::Br => seq![98u8, 114u8],
        Element::Hr => seq![104u8, 114u8],
        Element::FnRef => seq![102u8, 110u8, 45u8, 114u8, 101u8, 102u8],
        Element::Checkbox => seq![99u8, 104u8, 101u8, 99u8, 107u8, 98u8, 111u8, 120u8],
        Element::Math => seq![109u8, 97u8, 116u8, 104u8],
        Element::Emoji => seq![101u8, 109u8, 111u8, 106u8, 105u8],
        Element::Modified => seq![109u8, 111u8, 100u8, 105u8, 102u8, 105u8, 101u8, 100u8],
        Element::Match => seq![109u8, 97u8, 116u8, 99u8, 104u8],
        Element::MatchCurrent => seq![109u8, 97u8, 116u8, 99u8, 104u8, 45u8, 99u8, 117u8, 114u8, 114u8, 101u8, 110u8, 116u8],
        Element::MatchStart => seq![109u8, 97u8, 116u8, 99u8, 104u8, 45u8, 115u8, 116u8, 97u8, 114u8, 116u8],
        Element::MatchCurrentStart => seq![109u8, 97u8, 116u8, 99u8, 104u8, 45u8, 99u8, 117u8, 114u8, 114u8, 101u8, 110u8, 116u8, 45u8, 115u8, 116u8, 97u8, 114u8, 116u8],
    }
}

/// Writes the name of an element.
pub fn write_element_name(out: &mut Vec<u8>, e: Element)
    ensures
        final(out)@ == old(out)@ + element_name(e),
{
    match e {
        Element::P => out.extend_from_slice(&[112u8]),
        Element::H => out.extend_from_slice(&[104u8]),
        Element::Table => out.extend_from_slice(&[116u8, 97u8, 98u8, 108u8, 101u8]),
        Element::Thead => out.extend_from_slice(&[116u8, 104u8, 101u8, 97u8, 100u8]),
        Element::Tr => out.extend_from_slice(&[116u8, 114u8]),
        Element::Tbody => out.extend_from_slice(&[116u8, 98u8, 111u8, 100u8, 121u8]),
        Element::Th => out.extend_from_slice(&[116u8, 104u8]),
        Element::Td => out.extend_from_slice(&[116u8, 100u8]),
        Element::Blockquote => out.extend_from_slice(&[98u8, 108u8, 111u8, 99u8, 107u8, 113u8, 117u8, 111u8, 116u8, 101u8]),
        Element::Alert => out.extend_from_slice(&[97u8, 108u8, 101u8, 114u8, 116u8]),
        Element::Pre => out.extend_from_slice(&[112u8, 114u8, 101u8]),
        Element::Code => out.extend_from_slice(&[99u8, 111u8, 100u8, 101u8]),
        Element::Ol => out.extend_from_slice(&[111u8, 108u8]),
        Element::Ul => out.extend_from_slice(&[117u8, 108u8]),
        Element::TaskList => out.extend_from_slice(&[116u8, 97u8, 115u8, 107u8, 45u8, 108u8, 105u8, 115u8, 116u8]),
        Element::Li => out.extend_from_slice(&[108u8, 105u8]),
        Element::Em => out.extend_from_slice(&[101u8, 109u8]),
        Element::Strong => out.extend_from_slice(&[115u8, 116u8, 114u8, 111u8, 110u8, 103u8]),
        Element::Del => out.extend_from_slice(&[100u8, 101u8, 108u8]),
        Element::A => out.extend_from_slice(&[97u8]),
        Element::Img => out.extend_from_slice(&[105u8, 109u8, 103u8]),
        Element::Html => out.extend_from_slice(&[104u8, 116u8, 109u8, 108u8]),
        Element::FnDef => out.extend_from_slice(&[102u8, 110u8, 45u8, 100u8, 101u8, 102u8]),
        Element::Br => out.extend_from_slice(&[98u8, 114u8]),
        Element::Hr => out.extend_from_slice(&[104u8, 114u8]),
        Element::FnRef => out.extend_from_slice(&[102u8, 110u8, 45u8, 114u8, 101u8, 102u8]),
        Element::Checkbox => out.extend_from_slice(&[99u8, 104u8, 101u8, 99u8, 107u8, 98u8, 111u8, 120u8]),
        Element::Math => out.extend_from_slice(&[109u8, 97u8, 116u8, 104u8]),
        Element::Emoji => out.extend_from_slice(&[101u8, 109u8, 111u8, 106u8, 105u8]),
        Element::Modified => out.extend_from_slice(&[109u8, 111u8, 100u8, 105u8, 102u8, 105u8, 101u8, 100u8]),
        Element::Match => out.extend_from_slice(&[109u8, 97u8, 116u8, 99u8, 104u8]),
        Element::MatchCurrent => out.extend_from_slice(&[109u8, 97u8, 116u8, 99u8, 104u8, 45u8, 99u8, 117u8, 114u8, 114u8, 101u8, 110u8, 116u8]),
        Element::MatchStart => out.extend_from_slice(&[109u8, 97u8, 116u8, 99u8, 104u8, 45u8, 115u8, 116u8, 97u8, 114u8, 116u8]),
        Element::MatchCurrentStart => out.extend_from_slice(&[109u8, 97u8, 116u8, 99u8, 104u8, 45u8, 99u8, 117u8, 114u8, 114u8, 101u8, 110u8, 116u8, 45u8, 115u8, 116u8, 97u8, 114u8, 116u8]),
    }
}

} // verus!

verus! {

/// The decimal digits of a number.
pub open spec fn decimal(n: nat) -> Seq<u8>
    decreases n,
{
    if n < 10 {
        seq![(48 + n) as u8]
    } else {
        decimal(n / 10) + seq![(48 + n % 10) as u8]
    }
}

/// Writes a number in decimal.
pub fn write_decimal(out: &mut Vec<u8>, n: u64)
    ensures
        final(out)@ == old(out)@ + decimal(n as nat),
    decreases n,
{
    if n >= 10 {
        write_decimal(out, n / 10);
    }
    let d = (n % 10) as u8;
    out.push(48 + d);
}

} // verus!
