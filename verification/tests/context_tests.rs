use std::rc::Rc;

use markdown_core::context::{LinkDescription, MdContext, MdProps};
use markdown_core::element::{Element, ElementAttributes, MdHandler};
use markdown_core::kinds::{HtmlElement, Tag};
use markdown_core::props::{ComponentCreationError, MdComponentProps};
use markdown_core::range::SourceRange;
use markdown_core::registry::CustomComponents;

type Comp = fn(MdComponentProps) -> Result<Element, ComponentCreationError>;
type Link = fn(LinkDescription) -> Result<Element, String>;

fn plain_props(src: &str) -> MdProps<Comp, Link> {
    MdProps {
        src: src.to_string(),
        render_links: None,
        theme: None,
        wikilinks: false,
        hard_line_breaks: false,
        parse_options: None,
        components: CustomComponents::default(),
    }
}

fn ctx(src: &str) -> MdContext<Comp, Link> {
    MdContext::new(plain_props(src))
}

fn no_attrs() -> ElementAttributes {
    ElementAttributes { classes: Vec::new(), style: None, on_click: None }
}

fn tag_of_heading(c: &MdContext<Comp, Link>, level: u8) -> Tag {
    let el = c.el_with_attributes(
        HtmlElement::Heading(level),
        Element::Fragment(Vec::new()),
        no_attrs(),
    );
    match el {
        Element::Node { tag, .. } => tag,
        other => panic!("expected a structural node, got {:?}", other),
    }
}

#[test]
fn heading_levels_route_to_distinct_tags() {
    let c = ctx("# h");
    let tags: Vec<Tag> = (1u8..=6u8).map(|l| tag_of_heading(&c, l)).collect();
    for i in 0..tags.len() {
        for j in 0..tags.len() {
            if i != j {
                assert_ne!(tags[i], tags[j], "levels {} and {} collapsed", i + 1, j + 1);
            }
        }
    }
    assert_eq!(tags[0], Tag::H1);
    assert_eq!(tags[5], Tag::H6);
}

#[test]
fn fragment_of_nothing_is_empty_and_childless() {
    let c = ctx("");
    assert_eq!(c.el_fragment(Vec::new()), Element::Fragment(Vec::new()));
}

#[test]
fn fragment_keeps_children_in_order() {
    let c = ctx("");
    let a = Element::Text("a".to_string());
    let b = Element::Text("b".to_string());
    let out = c.el_fragment(vec![a, b]);
    assert_eq!(
        out,
        Element::Fragment(vec![
            Element::Text("a".to_string()),
            Element::Text("b".to_string())
        ])
    );
}

#[test]
fn classes_join_with_single_spaces_and_style_defaults_empty() {
    let c = ctx("x");
    let attrs = ElementAttributes {
        classes: vec!["a".to_string(), "b".to_string(), "c".to_string()],
        style: None,
        on_click: None,
    };
    let el = c.el_with_attributes(HtmlElement::Div, Element::Break, attrs);
    match el {
        Element::Node { tag, class, style, on_click, child } => {
            assert_eq!(tag, Tag::Div);
            assert_eq!(class, "a b c".to_string());
            assert_eq!(style, "".to_string());
            assert_eq!(on_click, None);
            assert_eq!(*child, Element::Break);
        },
        other => panic!("expected a node, got {:?}", other),
    }
}

#[test]
fn ordered_list_tag_keeps_its_start_offset() {
    let c = ctx("x");
    let el = c.el_with_attributes(HtmlElement::Ol(4), Element::Fragment(Vec::new()), no_attrs());
    match el {
        Element::Node { tag, .. } => assert_eq!(tag, Tag::Ol(4)),
        other => panic!("expected a node, got {:?}", other),
    }
}

#[test]
fn handler_carries_exact_source_range_and_attribution() {
    let c = ctx("hello world");
    let range = SourceRange { start: 2, end: 7 };
    let h = c.make_md_handler(range, true);
    assert_eq!(h.position, range);
    assert!(h.stop_propagation);
    let (event, stop) = MdContext::<Comp, Link>::call_handler(&h, "raw-click");
    assert_eq!(event.position, SourceRange { start: 2, end: 7 });
    assert_eq!(event.mouse_event, "raw-click");
    assert!(stop);
}

#[test]
fn frontmatter_capture_is_last_write_wins() {
    let mut c = ctx("x");
    assert_eq!(c.frontmatter, None);
    c.set_frontmatter("first".to_string());
    c.set_frontmatter("second".to_string());
    assert_eq!(c.frontmatter, Some("second".to_string()));
}

#[test]
fn mount_dynamic_link_records_the_request() {
    let mut c = ctx("x");
    c.mount_dynamic_link("stylesheet", "https://example.invalid/hl.css", "sha", "anonymous");
    assert_eq!(c.resources.len(), 1);
    assert_eq!(c.resources[0].rel, "stylesheet".to_string());
    assert_eq!(c.resources[0].href, "https://example.invalid/hl.css".to_string());
    assert_eq!(c.resources[0].integrity, "sha".to_string());
    assert_eq!(c.resources[0].crossorigin, "anonymous".to_string());
}

#[test]
fn send_debug_info_replaces_trace() {
    let mut c = ctx("x");
    c.send_debug_info(vec!["line".to_string()]);
    assert_eq!(c.debug.0, vec!["line".to_string()]);
}

#[test]
fn props_reads_back_configuration() {
    let mut p = plain_props("src text");
    p.hard_line_breaks = true;
    p.theme = Some("ocean".to_string());
    p.parse_options = Some(3);
    let c = MdContext::new(p);
    let read = c.props();
    assert!(read.hard_line_breaks);
    assert!(!read.wikilinks);
    assert_eq!(read.theme, Some("ocean".to_string()));
    assert_eq!(read.parse_options, Some(3));
}

#[test]
fn simple_view_constructors() {
    let c = ctx("x");
    assert_eq!(c.el_br(), Element::Break);
    assert_eq!(c.el_text("t".to_string()), Element::Text("t".to_string()));
    assert_eq!(
        c.el_img("s.png".to_string(), "alt".to_string()),
        Element::Image { src: "s.png".to_string(), alt: "alt".to_string() }
    );
    let link = c.el_a(Element::Text("t".to_string()), "u".to_string());
    assert_eq!(
        link,
        Element::Link { href: "u".to_string(), child: Box::new(Element::Text("t".to_string())) }
    );
    let span = c.el_span_with_inner_html("<b>raw</b>".to_string(), no_attrs());
    match span {
        Element::RawHtml { html, .. } => assert_eq!(html, "<b>raw</b>".to_string()),
        other => panic!("expected raw html, got {:?}", other),
    }
    let cb = c.el_input_checkbox(true, no_attrs());
    match cb {
        Element::Checkbox { checked, .. } => assert!(checked),
        other => panic!("expected a checkbox, got {:?}", other),
    }
    let hr = c.el_hr(no_attrs());
    match hr {
        Element::Rule { on_click, .. } => assert_eq!(on_click, None::<MdHandler>),
        other => panic!("expected a rule, got {:?}", other),
    }
}

#[test]
fn render_custom_component_invokes_registered_function() {
    fn hello(_p: MdComponentProps) -> Result<Element, ComponentCreationError> {
        Ok(Element::Text("hello".to_string()))
    }
    let mut p = plain_props("x");
    p.components = CustomComponents::new(vec![("Hello".to_string(), hello as Comp)]);
    let c = MdContext::new(p);
    assert!(c.has_custom_component("Hello"));
    assert!(!c.has_custom_component("Other"));
    let out = c.render_custom_component("Hello", MdComponentProps::new(Vec::new(), None));
    assert_eq!(out, Ok(Element::Text("hello".to_string())));
}

#[test]
fn render_links_uses_the_override() {
    fn upper(l: LinkDescription) -> Result<Element, String> {
        Ok(Element::Link { href: l.url, child: Box::new(Element::Text("custom".to_string())) })
    }
    let mut p = plain_props("x");
    p.render_links = Some(Rc::new(upper as Link));
    let c = MdContext::new(p);
    assert!(c.has_custom_links());
    let out = c.render_links(LinkDescription {
        url: "u".to_string(),
        title: None,
        content: Element::Break,
    });
    assert_eq!(
        out,
        Ok(Element::Link { href: "u".to_string(), child: Box::new(Element::Text("custom".to_string())) })
    );
}

#[test]
fn props_eq_is_identity_based_for_registries() {
    let reg = CustomComponents::<Comp>::new(Vec::new());
    let a = MdProps::<Comp, Link> {
        src: "s".to_string(),
        render_links: None,
        theme: None,
        wikilinks: false,
        hard_line_breaks: false,
        parse_options: None,
        components: reg.clone(),
    };
    let b = MdProps::<Comp, Link> {
        src: "s".to_string(),
        render_links: None,
        theme: None,
        wikilinks: false,
        hard_line_breaks: false,
        parse_options: None,
        components: reg,
    };
    assert!(a.props_eq(&b));
    let c = MdProps::<Comp, Link> {
        src: "s".to_string(),
        render_links: None,
        theme: None,
        wikilinks: false,
        hard_line_breaks: false,
        parse_options: None,
        components: CustomComponents::new(Vec::new()),
    };
    assert!(!a.props_eq(&c), "separately built registries keep props unequal");
    let mut d = plain_props("other");
    d.components = a.components.clone();
    assert!(!a.props_eq(&d));
}
