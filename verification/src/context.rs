//! The rendering context: the single seam between a markdown event stream
//! and view construction. One production rule per structural construct, plus
//! the side channels (frontmatter capture, external resources, debug traces)
//! and the dispatch seams for custom components and link overrides.

use std::rc::Rc;

use vstd::prelude::*;

use crate::element::{Element, ElementAttributes, MdHandler};
use crate::kinds::{spec_element_ok, spec_tag_of, tag_of, HtmlElement};
use crate::props::{ComponentCreationError, MdComponentProps};
use crate::range::SourceRange;
use crate::registry::CustomComponents;

verus! {

/// Debug trace lines accumulated for the last render pass.
#[derive(Clone, Debug)]
pub struct EventInfo(pub Vec<String>);

/// An interaction event attributed to markdown source: the raw platform
/// event together with the source range of the construct that was rendered
/// into the node the interaction hit.
#[derive(Debug)]
pub struct MarkdownMouseEvent<E> {
    /// The original platform event, passed through opaquely.
    pub mouse_event: E,
    /// The corresponding range in the markdown source.
    pub position: SourceRange,
}

/// A link occurrence handed to the link-override callback: target, optional
/// title and the already-rendered child view.
#[derive(Debug)]
pub struct LinkDescription {
    pub url: String,
    pub title: Option<String>,
    pub content: Element,
}

/// Parser-facing configuration, read once per render pass.
#[derive(Debug)]
pub struct MarkdownProps {
    pub hard_line_breaks: bool,
    pub wikilinks: bool,
    pub parse_options: Option<u64>,
    pub theme: Option<String>,
}

/// A stylesheet-like resource the pass asked the host to mount.
#[derive(Debug)]
pub struct MountedResource {
    pub rel: String,
    pub href: String,
    pub integrity: String,
    pub crossorigin: String,
}

/// Everything a render pass is configured with: the markdown source, the
/// render options, the component registry and the optional link-override
/// callback. The host's click callback is read at interaction time, not at
/// render time, so it is host-owned state and no field here.
#[derive(Debug)]
pub struct MdProps<F, L> {
    /// The markdown source text.
    pub src: String,
    /// Callback overriding default link rendering, shared by reference count.
    pub render_links: Option<Rc<L>>,
    /// Name of the syntax-highlighting theme.
    pub theme: Option<String>,
    /// Whether wikilink syntax is enabled.
    pub wikilinks: bool,
    /// Whether soft breaks become hard breaks.
    pub hard_line_breaks: bool,
    /// Passthrough options for the external parser.
    pub parse_options: Option<u64>,
    /// The registered custom components.
    pub components: CustomComponents<F>,
}

impl<F, L> MdProps<F, L> {
    /// Cheap change-detection equality. Any disagreement of the
    /// configuration values forces inequality; callbacks and registries
    /// compare by shared identity on top of that, so the result may still be
    /// false for two structurally identical configurations, but when it is
    /// true, every configuration value agrees.
    pub fn props_eq(&self, other: &MdProps<F, L>) -> (r: bool)
        ensures
            r ==> self.src@ == other.src@,
            r ==> (self.theme is Some <==> other.theme is Some),
            r ==> (self.theme matches Some(a) ==> other.theme matches Some(b) && a@ == b@),
            r ==> self.wikilinks == other.wikilinks,
            r ==> self.hard_line_breaks == other.hard_line_breaks,
            r ==> self.parse_options == other.parse_options,
            r ==> self.components.entries() == other.components.entries(),
            r ==> (self.render_links is Some <==> other.render_links is Some),
            self.src@ != other.src@ ==> !r,
            (self.theme is Some) != (other.theme is Some) ==> !r,
            (self.theme matches Some(a) && other.theme matches Some(b) && a@ != b@) ==> !r,
            self.wikilinks != other.wikilinks ==> !r,
            self.hard_line_breaks != other.hard_line_breaks ==> !r,
            self.parse_options != other.parse_options ==> !r,
            (self.render_links is Some) != (other.render_links is Some) ==> !r,
    {
        let src_eq = crate::parse::str_eq(self.src.as_str(), other.src.as_str());
        let theme_eq = match (&self.theme, &other.theme) {
            (Some(a), Some(b)) => crate::parse::str_eq(a.as_str(), b.as_str()),
            (None, None) => true,
            _ => false,
        };
        let links_eq = match (&self.render_links, &other.render_links) {
            (Some(a), Some(b)) => crate::registry::rc_ptr_eq(a, b),
            (None, None) => true,
            _ => false,
        };
        let options_eq = match (&self.parse_options, &other.parse_options) {
            (Some(a), Some(b)) => *a == *b,
            (None, None) => true,
            _ => false,
        };
        src_eq && theme_eq && links_eq && options_eq && self.wikilinks == other.wikilinks
            && self.hard_line_breaks == other.hard_line_breaks && self.components.ptr_eq(
            &other.components,
        )
    }
}

/// The style string of an optional inline style.
pub open spec fn spec_style(o: Option<String>) -> Seq<char> {
    match o {
        Some(s) => s@,
        None => Seq::<char>::empty(),
    }
}

/// Class names joined with single spaces.
pub open spec fn spec_join_classes(s: Seq<Seq<char>>) -> Seq<char>
    decreases s.len(),
{
    if s.len() == 0 {
        Seq::<char>::empty()
    } else if s.len() == 1 {
        s[0]
    } else {
        spec_join_classes(s.drop_last()) + seq![' '] + s.last()
    }
}

/// Joins class names with single spaces.
pub fn join_classes(classes: &Vec<String>) -> (r: String)
    ensures
        r@ == spec_join_classes(classes@.map_values(|c: String| c@)),
{
    let ghost views = classes@.map_values(|c: String| c@);
    let mut r = String::new();
    let n = classes.len();
    let mut i: usize = 0;
    while i < n
        invariant
            0 <= i <= n,
            n == classes@.len(),
            views == classes@.map_values(|c: String| c@),
            r@ == spec_join_classes(views.subrange(0, i as int)),
        decreases n - i,
    {
        if i > 0 {
            r.append(" ");
            proof {
                reveal_strlit(" ");
                assert(" "@ =~= seq![' ']);
            }
        }
        r.append(classes[i].as_str());
        proof {
            assert(views.subrange(0, i + 1).drop_last() =~= views.subrange(0, i as int));
            assert(views.subrange(0, i + 1).last() == views[i as int]);
            assert(views[i as int] == classes@[i as int]@);
            if i == 0 {
                assert(r@ =~= views.subrange(0, 1)[0]);
            }
        }
        i += 1;
    }
    proof {
        assert(views.subrange(0, n as int) =~= views);
    }
    r
}

/// The rendering context of one pass: the configuration it reads, and the
/// side-channel state it writes (captured frontmatter, mounted resources,
/// debug traces).
#[derive(Debug)]
pub struct MdContext<F, L> {
    pub props: MdProps<F, L>,
    /// The frontmatter text captured last; capturing again overwrites it.
    pub frontmatter: Option<String>,
    /// Trace lines of the last render pass.
    pub debug: EventInfo,
    /// Resources the pass asked the host to mount, oldest first.
    pub resources: Vec<MountedResource>,
}

impl<F, L> MdContext<F, L> {
    /// The length of the markdown source this context renders.
    pub open spec fn source_len(&self) -> nat {
        self.props.src@.len()
    }

    /// A fresh context around the given configuration, with every side
    /// channel empty.
    pub fn new(props: MdProps<F, L>) -> (r: MdContext<F, L>)
        ensures
            r.props == props,
            r.frontmatter is None,
            r.debug.0@ == Seq::<String>::empty(),
            r.resources@ == Seq::<MountedResource>::empty(),
    {
        MdContext { props, frontmatter: None, debug: EventInfo(Vec::new()), resources: Vec::new() }
    }

    /// The single production rule for structural nodes: wraps `inside` in
    /// the construct `e`, applying classes, style and handler. A heading
    /// level outside 1 through 6 is a caller bug, excluded by contract.
    pub fn el_with_attributes(&self, e: HtmlElement, inside: Element, attributes: ElementAttributes)
        -> (r: Element)
        requires
            spec_element_ok(e),
        ensures
            r matches Element::Node { tag, class, style, on_click, child } && tag == spec_tag_of(e)
                && class@ == spec_join_classes(attributes.classes@.map_values(|c: String| c@))
                && style@ == spec_style(attributes.style) && on_click == attributes.on_click && *child
                == inside,
    {
        let class = join_classes(&attributes.classes);
        let style = match attributes.style {
            Some(s) => s,
            None => String::new(),
        };
        Element::Node { tag: tag_of(e), class, style, on_click: attributes.on_click, child: Box::new(inside) }
    }

    /// A span carrying raw, already-sanitized inline HTML.
    pub fn el_span_with_inner_html(&self, inner_html: String, attributes: ElementAttributes) -> (r:
        Element)
        ensures
            r matches Element::RawHtml { html, class, style, on_click } && html == inner_html
                && class@ == spec_join_classes(attributes.classes@.map_values(|c: String| c@))
                && style@ == spec_style(attributes.style) && on_click == attributes.on_click,
    {
        let class = join_classes(&attributes.classes);
        let style = match attributes.style {
            Some(s) => s,
            None => String::new(),
        };
        Element::RawHtml { html: inner_html, class, style, on_click: attributes.on_click }
    }

    /// A horizontal rule.
    pub fn el_hr(&self, attributes: ElementAttributes) -> (r: Element)
        ensures
            r matches Element::Rule { class, style, on_click } && class@ == spec_join_classes(
                attributes.classes@.map_values(|c: String| c@),
            ) && style@ == spec_style(attributes.style) && on_click == attributes.on_click,
    {
        let class = join_classes(&attributes.classes);
        let style = match attributes.style {
            Some(s) => s,
            None => String::new(),
        };
        Element::Rule { class, style, on_click: attributes.on_click }
    }

    /// A hard line break.
    pub fn el_br(&self) -> (r: Element)
        ensures
            r == Element::Break,
    {
        Element::Break
    }

    /// Concatenates already-rendered children into one view with no wrapping
    /// element, in order; an empty list gives an empty, childless fragment.
    pub fn el_fragment(&self, children: Vec<Element>) -> (r: Element)
        ensures
            r == Element::Fragment(children),
    {
        Element::Fragment(children)
    }

    /// A link around already-rendered children.
    pub fn el_a(&self, children: Element, href: String) -> (r: Element)
        ensures
            r matches Element::Link { href: h, child } && h == href && *child == children,
    {
        Element::Link { href, child: Box::new(children) }
    }

    /// An image.
    pub fn el_img(&self, src: String, alt: String) -> (r: Element)
        ensures
            r matches Element::Image { src: s, alt: a } && s == src && a == alt,
    {
        Element::Image { src, alt }
    }

    /// A plain text run.
    pub fn el_text(&self, text: String) -> (r: Element)
        ensures
            r == Element::Text(text),
    {
        Element::Text(text)
    }

    /// A checkbox.
    pub fn el_input_checkbox(&self, checked: bool, attributes: ElementAttributes) -> (r: Element)
        ensures
            r matches Element::Checkbox { checked: c, class, style, on_click } && c == checked
                && class@ == spec_join_classes(attributes.classes@.map_values(|cl: String| cl@))
                && style@ == spec_style(attributes.style) && on_click == attributes.on_click,
    {
        let class = join_classes(&attributes.classes);
        let style = match attributes.style {
            Some(s) => s,
            None => String::new(),
        };
        Element::Checkbox { checked, class, style, on_click: attributes.on_click }
    }

    /// Asks the host to mount a stylesheet-like external resource. Best
    /// effort: the request is recorded for the host and never fails the
    /// pass.
    pub fn mount_dynamic_link(&mut self, rel: &str, href: &str, integrity: &str, crossorigin: &str)
        ensures
            final(self).resources@.len() == old(self).resources@.len() + 1,
            final(self).resources@.subrange(0, old(self).resources@.len() as int) == old(
                self,
            ).resources@,
            final(self).resources@.last().rel@ == rel@,
            final(self).resources@.last().href@ == href@,
            final(self).resources@.last().integrity@ == integrity@,
            final(self).resources@.last().crossorigin@ == crossorigin@,
            final(self).props == old(self).props,
            final(self).frontmatter == old(self).frontmatter,
            final(self).debug == old(self).debug,
    {
        let record = MountedResource {
            rel: rel.to_owned(),
            href: href.to_owned(),
            integrity: integrity.to_owned(),
            crossorigin: crossorigin.to_owned(),
        };
        self.resources.push(record);
        proof {
            assert(final (self).resources@.subrange(0, old(self).resources@.len() as int)
                =~= old(self).resources@);
        }
    }

    /// The render options of the current pass.
    pub fn props(&self) -> (r: MarkdownProps)
        ensures
            r.hard_line_breaks == self.props.hard_line_breaks,
            r.wikilinks == self.props.wikilinks,
            r.parse_options == self.props.parse_options,
            r.theme == self.props.theme,
    {
        let theme = match &self.props.theme {
            Some(t) => Some(t.clone()),
            None => None,
        };
        let parse_options = match &self.props.parse_options {
            Some(o) => Some(*o),
            None => None,
        };
        MarkdownProps {
            hard_line_breaks: self.props.hard_line_breaks,
            wikilinks: self.props.wikilinks,
            parse_options,
            theme,
        }
    }

    /// An interaction handler carrying the source span of the construct
    /// being rendered. The span must lie inside this context's source.
    pub fn make_md_handler(&self, position: SourceRange, stop_propagation: bool) -> (r: MdHandler)
        requires
            position.within(self.source_len()),
        ensures
            r.position == position,
            r.stop_propagation == stop_propagation,
            r.position.within(self.source_len()),
    {
        MdHandler { position, stop_propagation }
    }

    /// Packages a raw platform event and a handler into one attributed
    /// event, and says whether propagation must stop before the host's
    /// current click callback is invoked.
    pub fn call_handler<E>(handler: &MdHandler, event: E) -> (r: (MarkdownMouseEvent<E>, bool))
        ensures
            r.0.position == handler.position,
            r.0.mouse_event == event,
            r.1 == handler.stop_propagation,
    {
        (MarkdownMouseEvent { mouse_event: event, position: handler.position }, handler
            .stop_propagation)
    }

    /// Captures frontmatter text for the host. One-shot per pass in intent,
    /// but capturing again simply overwrites: only the last captured value
    /// stays visible.
    pub fn set_frontmatter(&mut self, frontmatter: String)
        ensures
            final(self).frontmatter == Some(frontmatter),
            final(self).props == old(self).props,
            final(self).debug == old(self).debug,
            final(self).resources == old(self).resources,
    {
        self.frontmatter = Some(frontmatter);
    }

    /// Replaces the trace of the last render pass.
    pub fn send_debug_info(&mut self, info: Vec<String>)
        ensures
            final(self).debug.0 == info,
            final(self).props == old(self).props,
            final(self).frontmatter == old(self).frontmatter,
            final(self).resources == old(self).resources,
    {
        self.debug = EventInfo(info);
    }

    /// Whether a link-override callback is installed.
    pub fn has_custom_links(&self) -> (r: bool)
        ensures
            r == (self.props.render_links is Some),
    {
        self.props.render_links.is_some()
    }

    /// Whether a component is registered under `name`.
    pub fn has_custom_component(&self, name: &str) -> (r: bool)
        ensures
            r == (self.props.components.spec_get(name@) is Some),
    {
        self.props.components.contains(name)
    }
}

impl<F, L: Fn(LinkDescription) -> Result<Element, String>> MdContext<F, L> {
    /// Renders a link through the installed override callback. Callers must
    /// first check `has_custom_links`; the callback's failure is a
    /// pass-aborting string error.
    pub fn render_links(&self, link: LinkDescription) -> (r: Result<Element, String>)
        requires
            self.props.render_links is Some,
            call_requires(*self.props.render_links->Some_0, (link,)),
        ensures
            call_ensures(*self.props.render_links->Some_0, (link,), r),
    {
        match &self.props.render_links {
            Some(f) => (&**f)(link),
            None => unreached(),
        }
    }
}

impl<F: Fn(MdComponentProps) -> Result<Element, ComponentCreationError>, L> MdContext<F, L> {
    /// Invokes the component registered under `name` on the occurrence's
    /// props, propagating its result unchanged. Callers must first check
    /// `has_custom_component`; `crate::registry::dispatch_component` is the
    /// total variant that turns an unknown name into an error.
    pub fn render_custom_component(&self, name: &str, input: MdComponentProps) -> (r: Result<
        Element,
        ComponentCreationError,
    >)
        requires
            self.props.components.spec_get(name@) is Some,
            call_requires(self.props.components.spec_get(name@)->Some_0, (input,)),
        ensures
            call_ensures(self.props.components.spec_get(name@)->Some_0, (input,), r),
    {
        match self.props.components.lookup(name) {
            Some(f) => f(input),
            None => unreached(),
        }
    }
}

} // verus!
