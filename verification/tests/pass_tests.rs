use std::rc::Rc;

use markdown_core::context::{LinkDescription, MdContext, MdProps};
use markdown_core::element::Element;
use markdown_core::kinds::{HtmlElement, Tag};
use markdown_core::pass::{render_events, MdEvent, RenderError};
use markdown_core::props::{ComponentCreationError, MdComponentProps};
use markdown_core::range::SourceRange;
use markdown_core::registry::CustomComponents;

type Comp = fn(MdComponentProps) -> Result<Element, ComponentCreationError>;
type Link = fn(LinkDescription) -> Result<Element, String>;

fn counter(props: MdComponentProps) -> Result<Element, ComponentCreationError> {
    let initial = props.get_optional_i64("initial")?;
    Ok(Element::Text(format!("counter:{}", initial.unwrap_or(0))))
}

fn echo_children(props: MdComponentProps) -> Result<Element, ComponentCreationError> {
    match props.children {
        Some(view) => Ok(view),
        None => Ok(Element::Fragment(Vec::new())),
    }
}

fn registry() -> CustomComponents<Comp> {
    CustomComponents::new(vec![
        ("Counter".to_string(), counter as Comp),
        ("Echo".to_string(), echo_children as Comp),
    ])
}

fn props(src: &str) -> MdProps<Comp, Link> {
    MdProps {
        src: src.to_string(),
        render_links: None,
        theme: None,
        wikilinks: false,
        hard_line_breaks: false,
        parse_options: None,
        components: registry(),
    }
}

fn rng(start: usize, end: usize) -> SourceRange {
    SourceRange { start, end }
}

fn render(src: &str, events: Vec<MdEvent>) -> (Result<Element, RenderError>, MdContext<Comp, Link>) {
    let mut ctx = MdContext::new(props(src));
    let out = render_events(&mut ctx, events);
    (out, ctx)
}

#[test]
fn counter_with_initial_five_renders_five() {
    let src = "<Counter initial=\"5\"/>";
    let events = vec![MdEvent::Html(src.to_string(), rng(0, src.len()))];
    let (out, _) = render(src, events);
    assert_eq!(
        out,
        Ok(Element::Fragment(vec![Element::Text("counter:5".to_string())]))
    );
}

#[test]
fn counter_with_malformed_initial_fails_the_pass() {
    let src = "<Counter initial=\"a\"/>";
    let events = vec![MdEvent::Html(src.to_string(), rng(0, src.len()))];
    let (out, _) = render(src, events);
    assert_eq!(
        out,
        Err(RenderError::Component(ComponentCreationError::AttributeParseError(
            "initial".to_string(),
            "a".to_string()
        )))
    );
}

#[test]
fn counter_without_initial_defaults_to_zero() {
    let src = "<Counter/>";
    let events = vec![MdEvent::Html(src.to_string(), rng(0, src.len()))];
    let (out, _) = render(src, events);
    assert_eq!(
        out,
        Ok(Element::Fragment(vec![Element::Text("counter:0".to_string())]))
    );
}

#[test]
fn unregistered_component_fails_with_unknown_component() {
    let src = "<Nope a=\"1\"/>";
    let events = vec![
        MdEvent::Text("before".to_string(), rng(0, 0)),
        MdEvent::Html(src.to_string(), rng(0, src.len())),
    ];
    let (out, _) = render(src, events);
    assert_eq!(
        out,
        Err(RenderError::Component(ComponentCreationError::UnknownComponent(
            "Nope".to_string()
        )))
    );
}

#[test]
fn component_receives_attributes_in_source_order_and_rendered_children() {
    let src = "<Echo a=\"1\" b=\"2\">hi</Echo>";
    let events = vec![
        MdEvent::BeginComponent(
            "Echo".to_string(),
            vec![("a".to_string(), "1".to_string()), ("b".to_string(), "2".to_string())],
            rng(0, src.len()),
        ),
        MdEvent::Text("hi".to_string(), rng(20, 22)),
        MdEvent::End,
    ];
    let (out, _) = render(src, events);
    assert_eq!(
        out,
        Ok(Element::Fragment(vec![Element::Fragment(vec![Element::Text("hi".to_string())])]))
    );
}

#[test]
fn lowercase_and_incomplete_tags_stay_raw_html() {
    let src = "<br/> and <em>x";
    let events = vec![
        MdEvent::Html("<br/>".to_string(), rng(0, 5)),
        MdEvent::Html("<em>x".to_string(), rng(10, 15)),
    ];
    let (out, _) = render(src, events);
    match out.expect("raw html never fails the pass") {
        Element::Fragment(children) => {
            assert_eq!(children.len(), 2);
            match &children[0] {
                Element::RawHtml { html, .. } => assert_eq!(html, "<br/>"),
                other => panic!("expected raw html, got {:?}", other),
            }
            match &children[1] {
                Element::RawHtml { html, .. } => assert_eq!(html, "<em>x"),
                other => panic!("expected raw html, got {:?}", other),
            }
        },
        other => panic!("expected a fragment, got {:?}", other),
    }
}

#[test]
fn heading_event_renders_node_with_level_tag_and_source_range() {
    let src = "## title";
    let events = vec![
        MdEvent::Begin(HtmlElement::Heading(2), rng(0, 8)),
        MdEvent::Text("title".to_string(), rng(3, 8)),
        MdEvent::End,
    ];
    let (out, _) = render(src, events);
    match out.expect("pass succeeds") {
        Element::Fragment(children) => match &children[0] {
            Element::Node { tag, on_click, child, .. } => {
                assert_eq!(*tag, Tag::H2);
                let handler = on_click.expect("interactive node carries a handler");
                assert_eq!(handler.position, rng(0, 8));
                assert!(handler.position.start <= handler.position.end);
                assert!(handler.position.end <= src.len());
                assert_eq!(
                    **child,
                    Element::Fragment(vec![Element::Text("title".to_string())])
                );
            },
            other => panic!("expected a node, got {:?}", other),
        },
        other => panic!("expected a fragment, got {:?}", other),
    }
}

#[test]
fn soft_breaks_follow_the_hard_line_breaks_option() {
    let src = "a\nb";
    let events = vec![MdEvent::SoftBreak];
    let (out, _) = render(src, events);
    assert_eq!(out, Ok(Element::Fragment(vec![Element::Text("\n".to_string())])));

    let mut p = props(src);
    p.hard_line_breaks = true;
    let mut ctx = MdContext::new(p);
    let out = render_events(&mut ctx, vec![MdEvent::SoftBreak]);
    assert_eq!(out, Ok(Element::Fragment(vec![Element::Break])));
}

#[test]
fn frontmatter_captured_twice_keeps_only_the_second_value() {
    let src = "doc";
    let events = vec![
        MdEvent::Frontmatter("one: 1".to_string()),
        MdEvent::Text("x".to_string(), rng(0, 1)),
        MdEvent::Frontmatter("two: 2".to_string()),
    ];
    let (out, ctx) = render(src, events);
    assert!(out.is_ok());
    assert_eq!(ctx.frontmatter, Some("two: 2".to_string()));
}

#[test]
fn default_link_rendering_wraps_children() {
    let src = "[t](u)";
    let events = vec![
        MdEvent::BeginLink("u".to_string(), None, rng(0, 6)),
        MdEvent::Text("t".to_string(), rng(1, 2)),
        MdEvent::End,
    ];
    let (out, _) = render(src, events);
    assert_eq!(
        out,
        Ok(Element::Fragment(vec![Element::Link {
            href: "u".to_string(),
            child: Box::new(Element::Fragment(vec![Element::Text("t".to_string())])),
        }]))
    );
}

#[test]
fn link_override_replaces_default_rendering_and_can_fail() {
    fn ok_override(l: LinkDescription) -> Result<Element, String> {
        Ok(Element::Text(format!("link:{}", l.url)))
    }
    fn bad_override(_l: LinkDescription) -> Result<Element, String> {
        Err("no links allowed".to_string())
    }
    let src = "[t](u)";
    let events = || vec![
        MdEvent::BeginLink("u".to_string(), Some("title".to_string()), rng(0, 6)),
        MdEvent::Text("t".to_string(), rng(1, 2)),
        MdEvent::End,
    ];

    let mut p = props(src);
    p.render_links = Some(Rc::new(ok_override as Link));
    let mut ctx = MdContext::new(p);
    let out = render_events(&mut ctx, events());
    assert_eq!(
        out,
        Ok(Element::Fragment(vec![Element::Text("link:u".to_string())]))
    );

    let mut p = props(src);
    p.render_links = Some(Rc::new(bad_override as Link));
    let mut ctx = MdContext::new(p);
    let out = render_events(&mut ctx, events());
    assert_eq!(out, Err(RenderError::LinkOverride("no links allowed".to_string())));
}

#[test]
fn nested_structure_is_built_post_order() {
    let src = "- item";
    let events = vec![
        MdEvent::Begin(HtmlElement::Ul, rng(0, 6)),
        MdEvent::Begin(HtmlElement::Li, rng(0, 6)),
        MdEvent::Text("item".to_string(), rng(2, 6)),
        MdEvent::End,
        MdEvent::End,
    ];
    let (out, _) = render(src, events);
    match out.expect("pass succeeds") {
        Element::Fragment(children) => match &children[0] {
            Element::Node { tag: Tag::Ul, child, .. } => match &**child {
                Element::Fragment(inner) => match &inner[0] {
                    Element::Node { tag: Tag::Li, .. } => {},
                    other => panic!("expected a list item, got {:?}", other),
                },
                other => panic!("expected a fragment, got {:?}", other),
            },
            other => panic!("expected a list, got {:?}", other),
        },
        other => panic!("expected a fragment, got {:?}", other),
    }
}

#[test]
fn leaf_events_render_their_nodes() {
    let src = "![alt](s) --- `c` [ ]";
    let events = vec![
        MdEvent::Image("s".to_string(), "alt".to_string(), rng(0, 9)),
        MdEvent::Rule(rng(10, 13)),
        MdEvent::Code("c".to_string(), rng(14, 17)),
        MdEvent::Checkbox(false, rng(18, 21)),
        MdEvent::HardBreak,
    ];
    let (out, _) = render(src, events);
    match out.expect("pass succeeds") {
        Element::Fragment(children) => {
            assert_eq!(children.len(), 5);
            assert_eq!(
                children[0],
                Element::Image { src: "s".to_string(), alt: "alt".to_string() }
            );
            match &children[1] {
                Element::Rule { on_click, .. } => {
                    assert_eq!(on_click.expect("rule is interactive").position, rng(10, 13));
                },
                other => panic!("expected a rule, got {:?}", other),
            }
            match &children[2] {
                Element::Node { tag: Tag::Code, on_click, .. } => {
                    assert_eq!(on_click.expect("code is interactive").position, rng(14, 17));
                },
                other => panic!("expected inline code, got {:?}", other),
            }
            match &children[3] {
                Element::Checkbox { checked, .. } => assert!(!checked),
                other => panic!("expected a checkbox, got {:?}", other),
            }
            assert_eq!(children[4], Element::Break);
        },
        other => panic!("expected a fragment, got {:?}", other),
    }
}
