//! The closed set of structural markdown constructs and the output tags they
//! are produced as. Each construct has exactly one production rule, realised
//! in `MdContext::el_with_attributes`.

use vstd::prelude::*;

verus! {

/// Every structural markdown construct the protocol can be asked to emit.
/// An ordered list carries its numeric start offset; a heading carries its
/// level, which callers must keep within 1 through 6.
#[derive(Clone, Copy, Debug, PartialEq, Eq, Structural)]
pub enum HtmlElement {
    Div,
    Span,
    Paragraph,
    BlockQuote,
    Ul,
    Ol(u64),
    Li,
    Heading(u8),
    Table,
    Thead,
    Trow,
    Tcell,
    Italics,
    Bold,
    StrikeThrough,
    Pre,
    Code,
}

/// The output tag of a produced structural node. An ordered list keeps its
/// start offset on the tag; each heading level has a tag of its own.
#[derive(Clone, Copy, Debug, PartialEq, Eq, Structural)]
pub enum Tag {
    Div,
    Span,
    P,
    Blockquote,
    Ul,
    Ol(u64),
    Li,
    H1,
    H2,
    H3,
    H4,
    H5,
    H6,
    Table,
    Thead,
    Tr,
    Td,
    I,
    B,
    S,
    Pre,
    Code,
}

/// The tag a heading of level `level` is produced as.
pub open spec fn spec_heading_tag(level: u8) -> Tag {
    if level == 1 {
        Tag::H1
    } else if level == 2 {
        Tag::H2
    } else if level == 3 {
        Tag::H3
    } else if level == 4 {
        Tag::H4
    } else if level == 5 {
        Tag::H5
    } else {
        Tag::H6
    }
}

/// Whether `e` is a construct the protocol accepts: heading levels outside
/// 1 through 6 are a caller bug, not a recoverable condition.
pub open spec fn spec_element_ok(e: HtmlElement) -> bool {
    match e {
        HtmlElement::Heading(l) => 1 <= l <= 6,
        _ => true,
    }
}

/// The output tag of each accepted construct.
pub open spec fn spec_tag_of(e: HtmlElement) -> Tag {
    match e {
        HtmlElement::Div => Tag::Div,
        HtmlElement::Span => Tag::Span,
        HtmlElement::Paragraph => Tag::P,
        HtmlElement::BlockQuote => Tag::Blockquote,
        HtmlElement::Ul => Tag::Ul,
        HtmlElement::Ol(start) => Tag::Ol(start),
        HtmlElement::Li => Tag::Li,
        HtmlElement::Heading(l) => spec_heading_tag(l),
        HtmlElement::Table => Tag::Table,
        HtmlElement::Thead => Tag::Thead,
        HtmlElement::Trow => Tag::Tr,
        HtmlElement::Tcell => Tag::Td,
        HtmlElement::Italics => Tag::I,
        HtmlElement::Bold => Tag::B,
        HtmlElement::StrikeThrough => Tag::S,
        HtmlElement::Pre => Tag::Pre,
        HtmlElement::Code => Tag::Code,
    }
}

/// The single routing point from constructs to output tags.
pub fn tag_of(e: HtmlElement) -> (t: Tag)
    requires
        spec_element_ok(e),
    ensures
        t == spec_tag_of(e),
{
    match e {
        HtmlElement::Div => Tag::Div,
        HtmlElement::Span => Tag::Span,
        HtmlElement::Paragraph => Tag::P,
        HtmlElement::BlockQuote => Tag::Blockquote,
        HtmlElement::Ul => Tag::Ul,
        HtmlElement::Ol(start) => Tag::Ol(start),
        HtmlElement::Li => Tag::Li,
        HtmlElement::Heading(l) => {
            if l == 1 {
                Tag::H1
            } else if l == 2 {
                Tag::H2
            } else if l == 3 {
                Tag::H3
            } else if l == 4 {
                Tag::H4
            } else if l == 5 {
                Tag::H5
            } else {
                Tag::H6
            }
        },
        HtmlElement::Table => Tag::Table,
        HtmlElement::Thead => Tag::Thead,
        HtmlElement::Trow => Tag::Tr,
        HtmlElement::Tcell => Tag::Td,
        HtmlElement::Italics => Tag::I,
        HtmlElement::Bold => Tag::B,
        HtmlElement::StrikeThrough => Tag::S,
        HtmlElement::Pre => Tag::Pre,
        HtmlElement::Code => Tag::Code,
    }
}

/// Heading levels route injectively: no two levels in 1 through 6 share an
/// output tag, so no two heading levels collapse into the same structural
/// node.
pub proof fn lemma_heading_tags_distinct(a: u8, b: u8)
    requires
        1 <= a <= 6,
        1 <= b <= 6,
        a != b,
    ensures
        spec_heading_tag(a) != spec_heading_tag(b),
        spec_tag_of(HtmlElement::Heading(a)) != spec_tag_of(HtmlElement::Heading(b)),
{
}

} // verus!
