//! The concrete view tree the protocol produces. The markdown engine only
//! ever builds, nests and concatenates these values; a host toolkit walks the
//! finished tree and mounts it however it likes.

use vstd::prelude::*;

use crate::kinds::Tag;
use crate::range::SourceRange;

verus! {

/// An interaction handler attached to an emitted node. It records the exact
/// source span of the construct that produced the node, and whether event
/// propagation must stop before the interaction is forwarded to the host's
/// current click callback.
#[derive(Clone, Copy, Debug, PartialEq, Eq, Structural)]
pub struct MdHandler {
    pub position: SourceRange,
    pub stop_propagation: bool,
}

/// Class names, optional inline style and optional interaction handler for a
/// node about to be produced.
#[derive(Clone, Debug)]
pub struct ElementAttributes {
    pub classes: Vec<String>,
    pub style: Option<String>,
    pub on_click: Option<MdHandler>,
}

impl Default for ElementAttributes {
    /// Empty classes, no style, no handler.
    fn default() -> (r: ElementAttributes)
        ensures
            r.classes@ == Seq::<String>::empty(),
            r.style is None,
            r.on_click is None,
    {
        ElementAttributes { classes: Vec::new(), style: None, on_click: None }
    }
}

/// A renderable node or fragment. Structural nodes carry their output tag,
/// the class string already joined with single spaces, the style string and
/// an optional handler; a fragment is a bare concatenation of its children.
#[derive(Debug, PartialEq)]
pub enum Element {
    Node { tag: Tag, class: String, style: String, on_click: Option<MdHandler>, child: Box<Element> },
    Fragment(Vec<Element>),
    Text(String),
    RawHtml { html: String, class: String, style: String, on_click: Option<MdHandler> },
    Link { href: String, child: Box<Element> },
    Image { src: String, alt: String },
    Checkbox { checked: bool, class: String, style: String, on_click: Option<MdHandler> },
    Rule { class: String, style: String, on_click: Option<MdHandler> },
    Break,
}

/// View-level model of a rendered tree: strings by their character
/// sequences, nested views as sequences. Contracts that fix a whole tree
/// speak of this model, since the text values inside a built tree are only
/// known by their views.
pub enum VModel {
    Node { tag: Tag, class: Seq<char>, style: Seq<char>, on_click: Option<MdHandler>, children: Seq<VModel> },
    Fragment(Seq<VModel>),
    Text(Seq<char>),
    RawHtml { html: Seq<char>, class: Seq<char>, style: Seq<char>, on_click: Option<MdHandler> },
    Link { href: Seq<char>, children: Seq<VModel> },
    Image { src: Seq<char>, alt: Seq<char> },
    Checkbox { checked: bool, class: Seq<char>, style: Seq<char>, on_click: Option<MdHandler> },
    Rule { class: Seq<char>, style: Seq<char>, on_click: Option<MdHandler> },
    Break,
}

/// The view `e` is exactly the tree the model `m` describes: same shape,
/// same tags, handlers and flags, and text fields agreeing as character
/// sequences. A `Node` or `Link` model carries its single child as a
/// one-element sequence.
pub open spec fn matches_model(e: Element, m: VModel) -> bool
    decreases e,
{
    match e {
        Element::Node { tag, class, style, on_click, child } => m matches VModel::Node {
            tag: t2,
            class: c2,
            style: s2,
            on_click: o2,
            children: ch2,
        } && t2 == tag && c2 == class@ && s2 == style@ && o2 == on_click && ch2.len() == 1
            && matches_model(*child, ch2[0]),
        Element::Fragment(v) => m matches VModel::Fragment(ms) && ms.len() == v@.len() && (forall|
            i: int,
        |
            0 <= i < v@.len() ==> matches_model(#[trigger] v@[i], ms[i])),
        Element::Text(t) => m == VModel::Text(t@),
        Element::RawHtml { html, class, style, on_click } => m matches VModel::RawHtml {
            html: h2,
            class: c2,
            style: s2,
            on_click: o2,
        } && h2 == html@ && c2 == class@ && s2 == style@ && o2 == on_click,
        Element::Link { href, child } => m matches VModel::Link { href: h2, children: ch2 } && h2
            == href@ && ch2.len() == 1 && matches_model(*child, ch2[0]),
        Element::Image { src, alt } => m == (VModel::Image { src: src@, alt: alt@ }),
        Element::Checkbox { checked, class, style, on_click } => m matches VModel::Checkbox {
            checked: k2,
            class: c2,
            style: s2,
            on_click: o2,
        } && k2 == checked && c2 == class@ && s2 == style@ && o2 == on_click,
        Element::Rule { class, style, on_click } => m matches VModel::Rule {
            class: c2,
            style: s2,
            on_click: o2,
        } && c2 == class@ && s2 == style@ && o2 == on_click,
        Element::Break => m == VModel::Break,
    }
}

/// Whether an optional handler's range lies inside a source of length
/// `source_len`.
pub open spec fn handler_within(h: Option<MdHandler>, source_len: nat) -> bool {
    match h {
        Some(handler) => handler.position.within(source_len),
        None => true,
    }
}

/// Every interaction handler reachable in the view carries a source range
/// that lies inside a source of length `source_len`.
pub open spec fn handlers_within(v: Element, source_len: nat) -> bool
    decreases v,
{
    match v {
        Element::Node { on_click, child, .. } => handler_within(on_click, source_len)
            && handlers_within(*child, source_len),
        Element::Fragment(children) => forall|i: int|
            0 <= i < children@.len() ==> handlers_within(#[trigger] children@[i], source_len),
        Element::Text(_) => true,
        Element::RawHtml { on_click, .. } => handler_within(on_click, source_len),
        Element::Link { child, .. } => handlers_within(*child, source_len),
        Element::Image { .. } => true,
        Element::Checkbox { on_click, .. } => handler_within(on_click, source_len),
        Element::Rule { on_click, .. } => handler_within(on_click, source_len),
        Element::Break => true,
    }
}

} // verus!
