//! The render pass: folds the external parser's event stream into one view
//! tree, strictly post-order, dispatching custom components and link
//! overrides on the way. A single failed dispatch aborts the whole pass;
//! there is no partial output.

use vstd::prelude::*;

use crate::context::{LinkDescription, MdContext, MdProps};
use crate::element::{matches_model, handlers_within, Element, ElementAttributes, MdHandler, VModel};
use crate::kinds::{spec_element_ok, spec_tag_of, HtmlElement, Tag};
use crate::props::{ComponentCreationError, MdComponentProps};
use crate::range::SourceRange;
use crate::registry::{dispatch_component, spec_lookup, CustomComponents};
use crate::tag::{attr_views, is_upper, parse_component_tag, spec_parse_tag, ComponentTag, TagKind};

verus! {

/// One event of the external markdown parser, with source positions where
/// the pass attributes interaction to them. `Begin` opens a structural
/// construct, `BeginLink` a link, `BeginComponent` a child-bearing custom
/// component occurrence; a single `End` closes the innermost open construct.
#[derive(Debug)]
pub enum MdEvent {
    Begin(HtmlElement, SourceRange),
    BeginLink(String, Option<String>, SourceRange),
    BeginComponent(String, Vec<(String, String)>, SourceRange),
    End,
    Text(String, SourceRange),
    Code(String, SourceRange),
    Html(String, SourceRange),
    Image(String, String, SourceRange),
    Rule(SourceRange),
    SoftBreak,
    HardBreak,
    Checkbox(bool, SourceRange),
    Frontmatter(String),
}

/// A failure that aborts the whole pass.
#[derive(Debug, PartialEq, Eq)]
pub enum RenderError {
    /// Custom-component dispatch failed: unknown name, or the registered
    /// function itself failed.
    Component(ComponentCreationError),
    /// The link-override callback failed, on its own coarser channel.
    LinkOverride(String),
}

/// A construct opened and not yet closed, with its children rendered so far.
enum Frame {
    El(HtmlElement, SourceRange),
    Link(String, Option<String>),
    Component(String, Vec<(String, String)>),
}

struct OpenFrame {
    frame: Frame,
    children: Vec<Element>,
}

/// An event is well formed when its heading level is legal and the source
/// ranges the pass will attribute interactions to lie inside the source.
pub open spec fn event_wf(e: MdEvent, source_len: nat) -> bool {
    match e {
        MdEvent::Begin(el, r) => spec_element_ok(el) && r.within(source_len),
        MdEvent::Code(_, r) => r.within(source_len),
        MdEvent::Rule(r) => r.within(source_len),
        MdEvent::Checkbox(_, r) => r.within(source_len),
        _ => true,
    }
}

/// Every event of the stream is well formed.
pub open spec fn events_wf(s: Seq<MdEvent>, source_len: nat) -> bool {
    forall|i: int| 0 <= i < s.len() ==> event_wf(#[trigger] s[i], source_len)
}

/// Nesting contribution of one event.
pub open spec fn delta(e: MdEvent) -> int {
    match e {
        MdEvent::Begin(_, _) => 1,
        MdEvent::BeginLink(_, _, _) => 1,
        MdEvent::BeginComponent(_, _, _) => 1,
        MdEvent::End => -1,
        _ => 0,
    }
}

/// Net nesting depth of an event sequence.
pub open spec fn net(s: Seq<MdEvent>) -> int
    decreases s.len(),
{
    if s.len() == 0 {
        0
    } else {
        net(s.drop_last()) + delta(s.last())
    }
}

/// Every construct that is opened is closed, and no close arrives without a
/// matching open. A stream that breaks this is a bug in the producing
/// parser, excluded by contract.
pub open spec fn balanced(s: Seq<MdEvent>) -> bool {
    net(s) == 0 && forall|j: int| 0 <= j <= s.len() ==> net(#[trigger] s.subrange(0, j)) >= 0
}

/// The frontmatter visible after the events ran, starting from `init`: the
/// last captured value wins.
pub open spec fn last_frontmatter(s: Seq<MdEvent>, init: Option<String>) -> Option<String>
    decreases s.len(),
{
    if s.len() == 0 {
        init
    } else {
        match s.last() {
            MdEvent::Frontmatter(t) => Option::Some(t),
            _ => last_frontmatter(s.drop_last(), init),
        }
    }
}

/// Whether one event can make the pass fail: custom-component dispatch, a
/// raw HTML span (it may hold a component occurrence), or a link when an
/// override that may fail is installed.
pub open spec fn event_can_fail(e: MdEvent, has_link_override: bool) -> bool {
    match e {
        MdEvent::BeginComponent(_, _, _) => true,
        MdEvent::Html(_, _) => true,
        MdEvent::BeginLink(_, _, _) => has_link_override,
        _ => false,
    }
}

/// The stream holds a child-bearing occurrence named `n` with exactly
/// these raw attribute texts, in source order.
pub open spec fn component_occurrence_in(
    s: Seq<MdEvent>,
    n: Seq<char>,
    at: Seq<(Seq<char>, Seq<char>)>,
) -> bool {
    exists|k: int|
        0 <= k < s.len() && (match #[trigger] s[k] {
            MdEvent::BeginComponent(nm, a, _) => nm@ == n && attr_views(a@) == at,
            _ => false,
        })
}

/// Dispatching one occurrence named `n` with the raw attribute texts `at`
/// can produce `e`: the name is unregistered and `e` says so, or the
/// registered function itself fails with `e` on props carrying exactly
/// those attributes (and no children, for a self-closing occurrence).
pub open spec fn occurrence_error<F: Fn(MdComponentProps) -> Result<
    Element,
    ComponentCreationError,
>>(
    components: CustomComponents<F>,
    n: Seq<char>,
    at: Seq<(Seq<char>, Seq<char>)>,
    self_closing: bool,
    e: ComponentCreationError,
) -> bool {
    ||| (components.spec_get(n) is None && (e matches ComponentCreationError::UnknownComponent(m)
        && m@ == n))
    ||| (components.spec_get(n) matches Option::Some(f) && exists|p: MdComponentProps|
        attr_views(p.attributes@) == at && (self_closing ==> p.children is None)
            && #[trigger] call_ensures(f, (p,), Result::<Element, ComponentCreationError>::Err(e)))
}

/// The component error `e` is one that dispatching an occurrence of this
/// stream against `components` can produce: a `BeginComponent` occurrence,
/// or a raw HTML span spelling one self-closing capitalized tag, whose
/// dispatch with exactly the occurrence's attributes can end in `e`.
pub open spec fn component_error_matches<F: Fn(MdComponentProps) -> Result<
    Element,
    ComponentCreationError,
>>(s: Seq<MdEvent>, components: CustomComponents<F>, e: ComponentCreationError) -> bool {
    exists|k: int|
        0 <= k < s.len() && (match #[trigger] s[k] {
            MdEvent::BeginComponent(nm, a, _) => occurrence_error(
                components,
                nm@,
                attr_views(a@),
                false,
                e,
            ),
            MdEvent::Html(t, _) => spec_parse_tag(t@) matches Some(g) && g.2
                == TagKind::SelfClosing && g.0.len() > 0 && is_upper(g.0[0]) && occurrence_error(
                components,
                g.0,
                g.1,
                true,
                e,
            ),
            _ => false,
        })
}

/// The message is one the installed link override can itself return.
pub open spec fn link_error_matches<F, L: Fn(LinkDescription) -> Result<Element, String>>(
    props: MdProps<F, L>,
    msg: String,
) -> bool {
    match props.render_links {
        Option::Some(f) => exists|l: LinkDescription|
            #[trigger] call_ensures(*f, (l,), Result::<Element, String>::Err(msg)),
        Option::None => false,
    }
}

/// Some event of the stream can make the pass fail; on a stream without one
/// the pass owes success.
pub open spec fn some_can_fail(s: Seq<MdEvent>, has_link_override: bool) -> bool {
    exists|k: int| 0 <= k < s.len() && event_can_fail(#[trigger] s[k], has_link_override)
}

/// Every registered component function may be invoked on any props.
pub open spec fn components_callable<F: Fn(MdComponentProps) -> Result<
    Element,
    ComponentCreationError,
>>(entries: Seq<(String, F)>) -> bool {
    forall|i: int, p: MdComponentProps|
        0 <= i < entries.len() ==> #[trigger] call_requires(entries[i].1, (p,))
}

/// The link override, if installed, may be invoked on any link.
pub open spec fn links_callable<F, L: Fn(LinkDescription) -> Result<Element, String>>(
    props: MdProps<F, L>,
) -> bool {
    match props.render_links {
        Option::Some(f) => forall|l: LinkDescription| #[trigger] call_requires(*f, (l,)),
        Option::None => true,
    }
}

/// Every view a registered component can return keeps its handlers inside
/// the source.
pub open spec fn components_clean<F: Fn(MdComponentProps) -> Result<
    Element,
    ComponentCreationError,
>>(entries: Seq<(String, F)>, source_len: nat) -> bool {
    forall|i: int, p: MdComponentProps, res: Result<Element, ComponentCreationError>|
        (0 <= i < entries.len() && #[trigger] call_ensures(entries[i].1, (p,), res)) ==> (
        res matches Ok(v) ==> handlers_within(v, source_len))
}

/// Every view the link override can return keeps its handlers inside the
/// source.
pub open spec fn links_clean<F, L: Fn(LinkDescription) -> Result<Element, String>>(
    props: MdProps<F, L>,
    source_len: nat,
) -> bool {
    match props.render_links {
        Option::Some(f) => forall|l: LinkDescription, res: Result<Element, String>|
            #[trigger] call_ensures(*f, (l,), res) ==> (res matches Ok(v) ==> handlers_within(
                v,
                source_len,
            )),
        Option::None => true,
    }
}

/// A construct opened and not yet closed, in the view-level model.
pub enum SpecFrameKind {
    El(HtmlElement, SourceRange),
    Link(Seq<char>, Option<Seq<char>>),
}

pub struct SpecFrame {
    pub kind: SpecFrameKind,
    pub children: Seq<VModel>,
}

/// The handler the pass attaches to the construct at `r`.
pub open spec fn handler_for(r: SourceRange) -> MdHandler {
    MdHandler { position: r, stop_propagation: false }
}

/// Appends a finished view model to the innermost open construct, or to the
/// root when none is open.
pub open spec fn spec_push(st: (Seq<SpecFrame>, Seq<VModel>), m: VModel) -> (
    Seq<SpecFrame>,
    Seq<VModel>,
) {
    if st.0.len() == 0 {
        (st.0, st.1.push(m))
    } else {
        (
            st.0.update(
                st.0.len() - 1,
                SpecFrame { kind: st.0.last().kind, children: st.0.last().children.push(m) },
            ),
            st.1,
        )
    }
}

pub open spec fn spec_open(st: (Seq<SpecFrame>, Seq<VModel>), kind: SpecFrameKind) -> (
    Seq<SpecFrame>,
    Seq<VModel>,
) {
    (st.0.push(SpecFrame { kind, children: Seq::empty() }), st.1)
}

/// Closes the innermost open construct: its children become one fragment
/// wrapped by the construct's node, a link rendering by the default rule.
pub open spec fn spec_close(st: (Seq<SpecFrame>, Seq<VModel>)) -> (Seq<SpecFrame>, Seq<VModel>) {
    if st.0.len() == 0 {
        st
    } else {
        let f = st.0.last();
        let m = match f.kind {
            SpecFrameKind::El(e, r) => VModel::Node {
                tag: spec_tag_of(e),
                class: Seq::empty(),
                style: Seq::empty(),
                on_click: Some(handler_for(r)),
                children: seq![VModel::Fragment(f.children)],
            },
            SpecFrameKind::Link(u, _) => VModel::Link {
                href: u,
                children: seq![VModel::Fragment(f.children)],
            },
        };
        spec_push((st.0.drop_last(), st.1), m)
    }
}

/// What one event contributes to the model, on streams where no event can
/// fail: there every step is deterministic, links render by the default
/// rule and no dispatch occurs, so dispatching events leave the model
/// unchanged here.
pub open spec fn spec_step(st: (Seq<SpecFrame>, Seq<VModel>), e: MdEvent, hard: bool) -> (
    Seq<SpecFrame>,
    Seq<VModel>,
) {
    match e {
        MdEvent::Begin(el, r) => spec_open(st, SpecFrameKind::El(el, r)),
        MdEvent::BeginLink(u, t, _) => spec_open(
            st,
            SpecFrameKind::Link(
                u@,
                match t {
                    Some(x) => Some(x@),
                    None => None,
                },
            ),
        ),
        MdEvent::BeginComponent(_, _, _) => st,
        MdEvent::End => spec_close(st),
        MdEvent::Text(s, _) => spec_push(st, VModel::Text(s@)),
        MdEvent::Code(s, r) => spec_push(
            st,
            VModel::Node {
                tag: Tag::Code,
                class: Seq::empty(),
                style: Seq::empty(),
                on_click: Some(handler_for(r)),
                children: seq![VModel::Text(s@)],
            },
        ),
        MdEvent::Html(_, _) => st,
        MdEvent::Image(src, alt, _) => spec_push(st, VModel::Image { src: src@, alt: alt@ }),
        MdEvent::Rule(r) => spec_push(
            st,
            VModel::Rule {
                class: Seq::empty(),
                style: Seq::empty(),
                on_click: Some(handler_for(r)),
            },
        ),
        MdEvent::SoftBreak => spec_push(
            st,
            if hard {
                VModel::Break
            } else {
                VModel::Text("\n"@)
            },
        ),
        MdEvent::HardBreak => spec_push(st, VModel::Break),
        MdEvent::Checkbox(b, r) => spec_push(
            st,
            VModel::Checkbox {
                checked: b,
                class: Seq::empty(),
                style: Seq::empty(),
                on_click: Some(handler_for(r)),
            },
        ),
        MdEvent::Frontmatter(_) => st,
    }
}

/// The model state after the whole stream: open constructs, and the views
/// already finished at the root.
pub open spec fn spec_pass(events: Seq<MdEvent>, hard: bool) -> (Seq<SpecFrame>, Seq<VModel>)
    decreases events.len(),
{
    if events.len() == 0 {
        (Seq::<SpecFrame>::empty(), Seq::<VModel>::empty())
    } else {
        spec_step(spec_pass(events.drop_last(), hard), events.last(), hard)
    }
}

/// The views of `s` are exactly the models of `ms`, in order.
pub open spec fn views_match(s: Seq<Element>, ms: Seq<VModel>) -> bool {
    s.len() == ms.len() && (forall|i: int|
        0 <= i < s.len() ==> matches_model(#[trigger] s[i], ms[i]))
}

spec fn frame_kind_matches(f: Frame, k: SpecFrameKind) -> bool {
    match f {
        Frame::El(e, r) => k == SpecFrameKind::El(e, r),
        Frame::Link(u, t) => k matches SpecFrameKind::Link(u2, t2) && u2 == u@ && (match t {
            Some(a) => t2 matches Some(b) && b == a@,
            None => t2 is None,
        }),
        Frame::Component(_, _) => false,
    }
}

spec fn stacks_match(s: Seq<OpenFrame>, ms: Seq<SpecFrame>) -> bool {
    s.len() == ms.len() && (forall|j: int|
        0 <= j < s.len() ==> (frame_kind_matches((#[trigger] s[j]).frame, ms[j].kind)
            && views_match(s[j].children@, ms[j].children)))
}

/// Every handler in every view of `s` lies inside the source.
pub open spec fn views_within(s: Seq<Element>, source_len: nat) -> bool {
    forall|k: int| 0 <= k < s.len() ==> handlers_within(#[trigger] s[k], source_len)
}

spec fn frame_wf(f: Frame, source_len: nat) -> bool {
    match f {
        Frame::El(e, r) => spec_element_ok(e) && r.within(source_len),
        _ => true,
    }
}

spec fn stack_ok(s: Seq<OpenFrame>, source_len: nat) -> bool {
    forall|j: int| 0 <= j < s.len() ==> frame_wf((#[trigger] s[j]).frame, source_len)
}

spec fn stack_children_within(s: Seq<OpenFrame>, source_len: nat) -> bool {
    forall|j: int| 0 <= j < s.len() ==> views_within((#[trigger] s[j]).children@, source_len)
}

spec fn has_component_frame(s: Seq<OpenFrame>) -> bool {
    exists|j: int| 0 <= j < s.len() && (#[trigger] s[j]).frame matches Frame::Component(_, _)
}

spec fn has_link_frame(s: Seq<OpenFrame>) -> bool {
    exists|j: int| 0 <= j < s.len() && (#[trigger] s[j]).frame matches Frame::Link(_, _)
}

/// The function registered under a name occurs among the entries.
proof fn lemma_lookup_in_entries<F>(s: Seq<(String, F)>, name: Seq<char>)
    ensures
        spec_lookup(s, name) matches Option::Some(f) ==> exists|i: int|
            0 <= i < s.len() && #[trigger] s[i].1 == f,
    decreases s.len(),
{
    if s.len() > 0 {
        if s.last().0@ == name {
            assert(s[s.len() - 1].1 == spec_lookup(s, name)->Some_0);
        } else {
            lemma_lookup_in_entries(s.drop_last(), name);
            match spec_lookup(s, name) {
                Option::Some(f) => {
                    let i = choose|i: int|
                        0 <= i < s.drop_last().len() && #[trigger] s.drop_last()[i].1 == f;
                    assert(s[i].1 == f);
                },
                Option::None => {},
            }
        }
    }
}

/// Appends a rendered view to the innermost open construct, or to the root
/// when none is open.
fn push_child(
    stack: &mut Vec<OpenFrame>,
    top: &mut Vec<Element>,
    el: Element,
    Ghost(sl): Ghost<nat>,
    Ghost(cl): Ghost<bool>,
)
    requires
        cl ==> views_within(old(top)@, sl) && stack_children_within(old(stack)@, sl)
            && handlers_within(el, sl),
    ensures
        old(stack)@.len() == 0 ==> final(stack)@ == old(stack)@ && final(top)@ == old(top)@.push(el),
        old(stack)@.len() > 0 ==> final(top)@ == old(top)@
            && final(stack)@.len() == old(stack)@.len()
            && (forall|j: int| 0 <= j < old(stack)@.len() - 1 ==> final(stack)@[j] == old(stack)@[j])
            && final(stack)@.last().frame == old(stack)@.last().frame
            && final(stack)@.last().children@ == old(stack)@.last().children@.push(el),
        cl ==> views_within(final(top)@, sl) && stack_children_within(final(stack)@, sl),
{
    let ghost gel = el;
    if stack.len() == 0 {
        top.push(el);
        proof {
            if cl {
                assert forall|k: int| 0 <= k < top@.len() implies handlers_within(
                    #[trigger] top@[k],
                    sl,
                ) by {
                    if k < old(top)@.len() {
                        assert(top@[k] == old(top)@[k]);
                    } else {
                        assert(top@[k] == gel);
                    }
                }
            }
        }
    } else {
        match stack.pop() {
            Some(mut f) => {
                f.children.push(el);
                stack.push(f);
            },
            None => unreached(),
        }
        proof {
            if cl {
                assert forall|j: int| 0 <= j < stack@.len() implies views_within(
                    (#[trigger] stack@[j]).children@,
                    sl,
                ) by {
                    if j < old(stack)@.len() - 1 {
                        assert(stack@[j] == old(stack)@[j]);
                        assert(views_within(old(stack)@[j].children@, sl));
                    } else {
                        let oc = old(stack)@.last().children@;
                        assert(views_within(oc, sl));
                        assert(stack@[j].children@ == oc.push(gel));
                        assert forall|k: int| 0 <= k < stack@[j].children@.len() implies
                            handlers_within(#[trigger] stack@[j].children@[k], sl) by {
                            if k < oc.len() {
                                assert(stack@[j].children@[k] == oc[k]);
                            } else {
                                assert(stack@[j].children@[k] == gel);
                            }
                        }
                    }
                }
            }
        }
    }
}

/// Appending a finished view to the pass state keeps the state matching
/// the model state, when the view matches the appended model.
proof fn lemma_push_matches(
    os: Seq<OpenFrame>,
    ns: Seq<OpenFrame>,
    ot: Seq<Element>,
    nt: Seq<Element>,
    sst: (Seq<SpecFrame>, Seq<VModel>),
    el: Element,
    m: VModel,
)
    requires
        stacks_match(os, sst.0),
        views_match(ot, sst.1),
        matches_model(el, m),
        os.len() == 0 ==> ns == os && nt == ot.push(el),
        os.len() > 0 ==> nt == ot && ns.len() == os.len() && (forall|j: int|
            0 <= j < os.len() - 1 ==> ns[j] == os[j]) && ns.last().frame == os.last().frame
            && ns.last().children@ == os.last().children@.push(el),
    ensures
        stacks_match(ns, spec_push(sst, m).0),
        views_match(nt, spec_push(sst, m).1),
{
    if os.len() == 0 {
        let nms = spec_push(sst, m).1;
        assert forall|i: int| 0 <= i < nt.len() implies matches_model(#[trigger] nt[i], nms[i]) by {
            if i < ot.len() {
                assert(nt[i] == ot[i]);
                assert(matches_model(ot[i], sst.1[i]));
            } else {
                assert(nt[i] == el);
            }
        }
    } else {
        let nms = spec_push(sst, m).0;
        assert forall|j: int|
            0 <= j < ns.len() implies (frame_kind_matches((#[trigger] ns[j]).frame, nms[j].kind)
                && views_match(ns[j].children@, nms[j].children)) by {
            assert(frame_kind_matches(os[j].frame, sst.0[j].kind));
            assert(views_match(os[j].children@, sst.0[j].children));
            if j < os.len() - 1 {
                assert(ns[j] == os[j]);
                assert(nms[j] == sst.0[j]);
            } else {
                assert(ns[j].frame == os[os.len() - 1].frame);
                assert(nms[j].kind == sst.0[sst.0.len() - 1].kind);
                let oc = os[os.len() - 1].children@;
                let omc = sst.0[sst.0.len() - 1].children;
                assert(ns[j].children@ == oc.push(el));
                assert(nms[j].children == omc.push(m));
                assert forall|i: int|
                    0 <= i < ns[j].children@.len() implies matches_model(
                    #[trigger] ns[j].children@[i],
                    nms[j].children[i],
                ) by {
                    if i < oc.len() {
                        assert(ns[j].children@[i] == oc[i]);
                        assert(nms[j].children[i] == omc[i]);
                        assert(matches_model(oc[i], omc[i]));
                    } else {
                        assert(ns[j].children@[i] == el);
                        assert(nms[j].children[i] == m);
                    }
                }
            }
        }
    }
}

/// Runs one render pass over the parser's events. Children are always fully
/// rendered before their parent is produced; custom components and link
/// overrides are dispatched in place; frontmatter capture is last-write-
/// wins; the first dispatch failure aborts the pass with no partial output.
///
/// The returned tree keeps every interaction handler's source range inside
/// the source, provided the registered components and the link override do
/// the same for the views they return.
#[verifier::rlimit(100)]
pub fn render_events<
    F: Fn(MdComponentProps) -> Result<Element, ComponentCreationError>,
    L: Fn(LinkDescription) -> Result<Element, String>,
>(ctx: &mut MdContext<F, L>, events: Vec<MdEvent>) -> (r: Result<Element, RenderError>)
    requires
        events_wf(events@, old(ctx).source_len()),
        balanced(events@),
        components_callable(old(ctx).props.components.entries()),
        links_callable(old(ctx).props),
    ensures
        final(ctx).props == old(ctx).props,
        final(ctx).debug == old(ctx).debug,
        final(ctx).resources == old(ctx).resources,
        r is Ok ==> final(ctx).frontmatter == last_frontmatter(events@, old(ctx).frontmatter),
        !some_can_fail(events@, old(ctx).props.render_links is Some) ==> r is Ok,
        r matches Err(RenderError::Component(e)) ==> component_error_matches(
            events@,
            old(ctx).props.components,
            e,
        ),
        (r is Err && r->Err_0 is LinkOverride) ==> link_error_matches(
            old(ctx).props,
            r->Err_0->LinkOverride_0,
        ),
        (components_clean(old(ctx).props.components.entries(), old(ctx).source_len())
            && links_clean(old(ctx).props, old(ctx).source_len())) ==> (r matches Ok(root)
            ==> handlers_within(root, old(ctx).source_len())),
        !some_can_fail(events@, old(ctx).props.render_links is Some) ==> (r matches Ok(root)
            && root matches Element::Fragment(children) && views_match(
            children@,
            spec_pass(events@, old(ctx).props.hard_line_breaks).1,
        )),
{
    let ghost len = old(ctx).source_len();
    let ghost over = old(ctx).props.render_links is Some;
    let ghost clean = components_clean(old(ctx).props.components.entries(), len) && links_clean(
        old(ctx).props,
        len,
    );
    let ghost pure = !some_can_fail(events@, over);
    let ghost hard = old(ctx).props.hard_line_breaks;
    let n = events.len();
    let mut stack: Vec<OpenFrame> = Vec::new();
    let mut top: Vec<Element> = Vec::new();
    let mut i: usize = 0;
    proof {
        assert(events@.subrange(0, 0) =~= Seq::<MdEvent>::empty());
    }
    while i < n
        invariant
            0 <= i <= n,
            n == events@.len(),
            events_wf(events@, len),
            balanced(events@),
            components_callable(ctx.props.components.entries()),
            links_callable(ctx.props),
            len == old(ctx).source_len(),
            over == (old(ctx).props.render_links is Some),
            clean == (components_clean(old(ctx).props.components.entries(), len) && links_clean(
                old(ctx).props,
                len,
            )),
            ctx.props == old(ctx).props,
            ctx.debug == old(ctx).debug,
            ctx.resources == old(ctx).resources,
            ctx.frontmatter == last_frontmatter(
                events@.subrange(0, i as int),
                old(ctx).frontmatter,
            ),
            stack@.len() == net(events@.subrange(0, i as int)),
            stack_ok(stack@, len),
            clean ==> views_within(top@, len),
            clean ==> stack_children_within(stack@, len),
            has_component_frame(stack@) ==> some_can_fail(events@, over),
            forall|j: int|
                0 <= j < stack@.len() ==> ((#[trigger] stack@[j]).frame matches Frame::Component(
                    nm,
                    at,
                ) ==> component_occurrence_in(events@, nm@, attr_views(at@))),
            (over && has_link_frame(stack@)) ==> some_can_fail(events@, over),
            pure == !some_can_fail(events@, over),
            hard == old(ctx).props.hard_line_breaks,
            pure ==> stacks_match(stack@, spec_pass(events@.subrange(0, i as int), hard).0),
            pure ==> views_match(top@, spec_pass(events@.subrange(0, i as int), hard).1),
        decreases n - i,
    {
        proof {
            assert(events@.subrange(0, i + 1).drop_last() =~= events@.subrange(0, i as int));
            assert(events@.subrange(0, i + 1).last() == events@[i as int]);
            assert(net(events@.subrange(0, i + 1)) >= 0);
            assert(event_wf(events@[i as int], len));
            assert(spec_pass(events@.subrange(0, i + 1), hard) == spec_step(
                spec_pass(events@.subrange(0, i as int), hard),
                events@[i as int],
                hard,
            ));
        }
        match &events[i] {
            MdEvent::Begin(e, rng) => {
                let ghost ps = stack@;
                stack.push(OpenFrame { frame: Frame::El(*e, *rng), children: Vec::new() });
                proof {
                    if pure {
                        let sst = spec_pass(events@.subrange(0, i as int), hard);
                        let nms = spec_open(sst, SpecFrameKind::El(*e, *rng)).0;
                        assert forall|j: int|
                            0 <= j < stack@.len() implies (frame_kind_matches(
                            (#[trigger] stack@[j]).frame,
                            nms[j].kind,
                        ) && views_match(stack@[j].children@, nms[j].children)) by {
                            if j < ps.len() {
                                assert(stack@[j] == ps[j]);
                                assert(nms[j] == sst.0[j]);
                                assert(frame_kind_matches(ps[j].frame, sst.0[j].kind));
                                assert(views_match(ps[j].children@, sst.0[j].children));
                            } else {
                                assert(stack@[j].frame == Frame::El(*e, *rng));
                                assert(stack@[j].children@.len() == 0);
                                assert(nms[j].children.len() == 0);
                            }
                        }
                    }
                }
            },
            MdEvent::BeginLink(url, title, _) => {
                let t = match title {
                    Some(t) => Some(t.clone()),
                    None => None,
                };
                let ghost ps = stack@;
                let ghost gt = t;
                stack.push(OpenFrame { frame: Frame::Link(url.clone(), t), children: Vec::new() });
                proof {
                    if over {
                        assert(event_can_fail(events@[i as int], over));
                    }
                    if pure {
                        let sst = spec_pass(events@.subrange(0, i as int), hard);
                        let kind = SpecFrameKind::Link(
                            url@,
                            match gt {
                                Some(x) => Some(x@),
                                None => None,
                            },
                        );
                        let nms = spec_open(sst, kind).0;
                        assert forall|j: int|
                            0 <= j < stack@.len() implies (frame_kind_matches(
                            (#[trigger] stack@[j]).frame,
                            nms[j].kind,
                        ) && views_match(stack@[j].children@, nms[j].children)) by {
                            if j < ps.len() {
                                assert(stack@[j] == ps[j]);
                                assert(nms[j] == sst.0[j]);
                                assert(frame_kind_matches(ps[j].frame, sst.0[j].kind));
                                assert(views_match(ps[j].children@, sst.0[j].children));
                            } else {
                                assert(stack@[j].frame == Frame::Link(*url, gt));
                                assert(stack@[j].children@.len() == 0);
                                assert(nms[j].children.len() == 0);
                            }
                        }
                        assert(spec_step(sst, events@[i as int], hard) == spec_open(sst, kind));
                    }
                }
            },
            MdEvent::BeginComponent(name, attrs, _) => {
                let mut a: Vec<(String, String)> = Vec::new();
                let m = attrs.len();
                let mut k: usize = 0;
                while k < m
                    invariant
                        0 <= k <= m,
                        m == attrs@.len(),
                        a@ == attrs@.subrange(0, k as int),
                    decreases m - k,
                {
                    a.push((attrs[k].0.clone(), attrs[k].1.clone()));
                    proof {
                        assert(a@ =~= attrs@.subrange(0, k + 1));
                    }
                    k += 1;
                }
                proof {
                    assert(a@ =~= attrs@);
                }
                stack.push(OpenFrame { frame: Frame::Component(name.clone(), a), children: Vec::new() });
                proof {
                    assert(event_can_fail(events@[i as int], over));
                    assert(some_can_fail(events@, over));
                    assert(component_occurrence_in(events@, name@, attr_views(a@)));
                }
            },
            MdEvent::End => {
                let ghost prestack = stack@;
                let fr = match stack.pop() {
                    Some(f) => f,
                    None => unreached(),
                };
                proof {
                    if clean {
                        assert(views_within(prestack[prestack.len() - 1].children@, len));
                        assert forall|j: int| 0 <= j < stack@.len() implies views_within(
                            (#[trigger] stack@[j]).children@,
                            len,
                        ) by {
                            assert(stack@[j] == prestack[j]);
                        }
                    }
                }
                let OpenFrame { frame, children } = fr;
                match frame {
                    Frame::El(e, rng) => {
                        let handler = ctx.make_md_handler(rng, false);
                        let attrs = ElementAttributes {
                            classes: Vec::new(),
                            style: None,
                            on_click: Some(handler),
                        };
                        let ghost kids = children@;
                        let inside = ctx.el_fragment(children);
                        let el = ctx.el_with_attributes(e, inside, attrs);
                        proof {
                            if clean {
                                assert(views_within(kids, len));
                                assert(handlers_within(inside, len));
                                assert(handlers_within(el, len));
                            }
                        }
                        let ghost gel = el;
                        let ghost ps = stack@;
                        let ghost pt = top@;
                        push_child(&mut stack, &mut top, el, Ghost(len), Ghost(clean));
                        proof {
                            if pure {
                                let sst = spec_pass(events@.subrange(0, i as int), hard);
                                assert(frame_kind_matches(
                                    prestack[prestack.len() - 1].frame,
                                    sst.0[sst.0.len() - 1].kind,
                                ));
                                assert(views_match(
                                    prestack[prestack.len() - 1].children@,
                                    sst.0[sst.0.len() - 1].children,
                                ));
                                assert(prestack[prestack.len() - 1].frame == Frame::El(e, rng));
                                assert(sst.0[sst.0.len() - 1].kind == SpecFrameKind::El(e, rng));
                                let mf = sst.0[sst.0.len() - 1];
                                let m = VModel::Node {
                                    tag: spec_tag_of(e),
                                    class: Seq::<char>::empty(),
                                    style: Seq::<char>::empty(),
                                    on_click: Some(handler_for(rng)),
                                    children: seq![VModel::Fragment(mf.children)],
                                };
                                assert(matches_model(inside, VModel::Fragment(mf.children)));
                                assert(matches_model(gel, m));
                                assert forall|j: int|
                                    0 <= j < ps.len() implies (frame_kind_matches(
                                    (#[trigger] ps[j]).frame,
                                    sst.0.drop_last()[j].kind,
                                ) && views_match(ps[j].children@, sst.0.drop_last()[j].children)) by {
                                    assert(ps[j] == prestack[j]);
                                    assert(sst.0.drop_last()[j] == sst.0[j]);
                                    assert(frame_kind_matches(prestack[j].frame, sst.0[j].kind));
                                    assert(views_match(prestack[j].children@, sst.0[j].children));
                                }
                                lemma_push_matches(
                                    ps,
                                    stack@,
                                    pt,
                                    top@,
                                    (sst.0.drop_last(), sst.1),
                                    gel,
                                    m,
                                );
                                assert(spec_step(sst, events@[i as int], hard) == spec_push(
                                    (sst.0.drop_last(), sst.1),
                                    m,
                                ));
                            }
                        }
                    },
                    Frame::Link(url, title) => {
                        let ghost gurl = url;
                        let ghost gtitle = title;
                        let ghost kids = children@;
                        let content = ctx.el_fragment(children);
                        proof {
                            if clean {
                                assert(views_within(kids, len));
                                assert(handlers_within(content, len));
                            }
                        }
                        if ctx.has_custom_links() {
                            proof {
                                if pure {
                                    assert(prestack[prestack.len() - 1].frame == Frame::Link(
                                        gurl,
                                        gtitle,
                                    ));
                                    assert(has_link_frame(prestack));
                                    assert(false);
                                }
                            }
                            let link = LinkDescription { url, title, content };
                            let ghost glink = link;
                            let res = ctx.render_links(link);
                            match res {
                                Ok(el) => {
                                    proof {
                                        if clean {
                                            assert(handlers_within(el, len));
                                        }
                                    }
                                    push_child(&mut stack, &mut top, el, Ghost(len), Ghost(clean));
                                },
                                Err(msg) => {
                                    proof {
                                        assert(call_ensures(
                                            *ctx.props.render_links->Some_0,
                                            (glink,),
                                            Result::<Element, String>::Err(msg),
                                        ));
                                        assert(link_error_matches(ctx.props, msg));
                                        assert(ctx.props == old(ctx).props);
                                    }
                                    return Err(RenderError::LinkOverride(msg));
                                },
                            }
                        } else {
                            let el = ctx.el_a(content, url);
                            proof {
                                if clean {
                                    assert(handlers_within(el, len));
                                }
                            }
                            let ghost gel = el;
                            let ghost ps = stack@;
                            let ghost pt = top@;
                            push_child(&mut stack, &mut top, el, Ghost(len), Ghost(clean));
                            proof {
                                if pure {
                                    let sst = spec_pass(events@.subrange(0, i as int), hard);
                                    assert(frame_kind_matches(
                                        prestack[prestack.len() - 1].frame,
                                        sst.0[sst.0.len() - 1].kind,
                                    ));
                                    assert(views_match(
                                        prestack[prestack.len() - 1].children@,
                                        sst.0[sst.0.len() - 1].children,
                                    ));
                                    assert(prestack[prestack.len() - 1].frame == Frame::Link(
                                        gurl,
                                        gtitle,
                                    ));
                                    let mf = sst.0[sst.0.len() - 1];
                                    assert(mf.kind matches SpecFrameKind::Link(u2, _) && u2
                                        == gurl@);
                                    let m = VModel::Link {
                                        href: gurl@,
                                        children: seq![VModel::Fragment(mf.children)],
                                    };
                                    assert(matches_model(content, VModel::Fragment(mf.children)));
                                    assert(matches_model(gel, m));
                                    assert forall|j: int|
                                        0 <= j < ps.len() implies (frame_kind_matches(
                                        (#[trigger] ps[j]).frame,
                                        sst.0.drop_last()[j].kind,
                                    ) && views_match(
                                        ps[j].children@,
                                        sst.0.drop_last()[j].children,
                                    )) by {
                                        assert(ps[j] == prestack[j]);
                                        assert(sst.0.drop_last()[j] == sst.0[j]);
                                        assert(frame_kind_matches(prestack[j].frame, sst.0[j].kind));
                                        assert(views_match(prestack[j].children@, sst.0[j].children));
                                    }
                                    lemma_push_matches(
                                        ps,
                                        stack@,
                                        pt,
                                        top@,
                                        (sst.0.drop_last(), sst.1),
                                        gel,
                                        m,
                                    );
                                    assert(spec_step(sst, events@[i as int], hard) == spec_push(
                                        (sst.0.drop_last(), sst.1),
                                        m,
                                    ));
                                }
                            }
                        }
                    },
                    Frame::Component(name, attrs) => {
                        proof {
                            if pure {
                                assert(prestack[prestack.len() - 1].frame == frame);
                                assert(has_component_frame(prestack));
                                assert(false);
                            }
                        }
                        let kids = if children.len() == 0 {
                            None
                        } else {
                            Some(ctx.el_fragment(children))
                        };
                        let props = MdComponentProps::new(attrs, kids);
                        proof {
                            lemma_lookup_in_entries(ctx.props.components.entries(), name@);
                            match ctx.props.components.spec_get(name@) {
                                Option::Some(f) => {
                                    let w = choose|w: int|
                                        0 <= w < ctx.props.components.entries().len()
                                            && #[trigger] ctx.props.components.entries()[w].1 == f;
                                    assert(call_requires(
                                        ctx.props.components.entries()[w].1,
                                        (props,),
                                    ));
                                },
                                Option::None => {},
                            }
                        }
                        let ghost gprops = props;
                        let res = dispatch_component(&ctx.props.components, name.as_str(), props);
                        match res {
                            Ok(el) => {
                                proof {
                                    if clean {
                                        let f = ctx.props.components.spec_get(name@)->Some_0;
                                        let w = choose|w: int|
                                            0 <= w < ctx.props.components.entries().len()
                                                && #[trigger] ctx.props.components.entries()[w].1
                                                == f;
                                        assert(call_ensures(
                                            ctx.props.components.entries()[w].1,
                                            (gprops,),
                                            Result::<Element, ComponentCreationError>::Ok(el),
                                        ));
                                        assert(handlers_within(el, len));
                                    }
                                }
                                push_child(&mut stack, &mut top, el, Ghost(len), Ghost(clean));
                            },
                            Err(e) => {
                                proof {
                                    assert(prestack[prestack.len() - 1].frame == frame);
                                    assert(component_occurrence_in(
                                        events@,
                                        name@,
                                        attr_views(attrs@),
                                    ));
                                    assert(gprops.attributes == attrs);
                                    match ctx.props.components.spec_get(name@) {
                                        Option::Some(f) => {
                                            assert(attr_views(gprops.attributes@) == attr_views(
                                                attrs@,
                                            ));
                                            assert(call_ensures(
                                                f,
                                                (gprops,),
                                                Result::<Element, ComponentCreationError>::Err(e),
                                            ));
                                        },
                                        Option::None => {},
                                    }
                                    assert(occurrence_error(
                                        ctx.props.components,
                                        name@,
                                        attr_views(attrs@),
                                        false,
                                        e,
                                    ));
                                    let k = choose|k: int|
                                        0 <= k < events@.len() && (match #[trigger] events@[k] {
                                            MdEvent::BeginComponent(nm, a2, _) => nm@ == name@
                                                && attr_views(a2@) == attr_views(attrs@),
                                            _ => false,
                                        });
                                    assert(component_error_matches(
                                        events@,
                                        old(ctx).props.components,
                                        e,
                                    ));
                                }
                                return Err(RenderError::Component(e));
                            },
                        }
                    },
                }
            },
            MdEvent::Text(t, _) => {
                let el = ctx.el_text(t.clone());
                let ghost gel = el;
                let ghost ps = stack@;
                let ghost pt = top@;
                push_child(&mut stack, &mut top, el, Ghost(len), Ghost(clean));
                proof {
                    if pure {
                        let sst = spec_pass(events@.subrange(0, i as int), hard);
                        assert(matches_model(gel, VModel::Text(t@)));
                        lemma_push_matches(ps, stack@, pt, top@, sst, gel, VModel::Text(t@));
                        assert(spec_step(sst, events@[i as int], hard) == spec_push(
                            sst,
                            VModel::Text(t@),
                        ));
                    }
                }
            },
            MdEvent::Code(t, rng) => {
                let handler = ctx.make_md_handler(*rng, false);
                let attrs = ElementAttributes {
                    classes: Vec::new(),
                    style: None,
                    on_click: Some(handler),
                };
                let inner = ctx.el_text(t.clone());
                let el = ctx.el_with_attributes(HtmlElement::Code, inner, attrs);
                proof {
                    if clean {
                        assert(handlers_within(inner, len));
                        assert(handlers_within(el, len));
                    }
                }
                let ghost gel = el;
                let ghost ps = stack@;
                let ghost pt = top@;
                push_child(&mut stack, &mut top, el, Ghost(len), Ghost(clean));
                proof {
                    if pure {
                        let sst = spec_pass(events@.subrange(0, i as int), hard);
                        let m = VModel::Node {
                            tag: Tag::Code,
                            class: Seq::<char>::empty(),
                            style: Seq::<char>::empty(),
                            on_click: Some(handler_for(*rng)),
                            children: seq![VModel::Text(t@)],
                        };
                        assert(matches_model(inner, VModel::Text(t@)));
                        assert(matches_model(gel, m));
                        lemma_push_matches(ps, stack@, pt, top@, sst, gel, m);
                        assert(spec_step(sst, events@[i as int], hard) == spec_push(sst, m));
                    }
                }
            },
            MdEvent::Html(t, _) => {
                proof {
                    assert(event_can_fail(events@[i as int], over));
                    assert(some_can_fail(events@, over));
                }
                let parsed = parse_component_tag(t.as_str());
                let is_comp = match &parsed {
                    Some(tag) => match tag.kind {
                        TagKind::SelfClosing => {
                            let c = tag.name.as_str().get_char(0) as u32;
                            65 <= c && c <= 90
                        },
                        _ => false,
                    },
                    None => false,
                };
                if is_comp {
                    let tag = match parsed {
                        Some(tag) => tag,
                        None => unreached(),
                    };
                    let ComponentTag { name, attributes, kind: _ } = tag;
                    let props = MdComponentProps::new(attributes, None);
                    proof {
                        lemma_lookup_in_entries(ctx.props.components.entries(), name@);
                        match ctx.props.components.spec_get(name@) {
                            Option::Some(f) => {
                                let w = choose|w: int|
                                    0 <= w < ctx.props.components.entries().len()
                                        && #[trigger] ctx.props.components.entries()[w].1 == f;
                                assert(call_requires(
                                    ctx.props.components.entries()[w].1,
                                    (props,),
                                ));
                            },
                            Option::None => {},
                        }
                    }
                    let ghost gprops = props;
                    let ghost gname = name@;
                    let res = dispatch_component(&ctx.props.components, name.as_str(), props);
                    match res {
                        Ok(el) => {
                            proof {
                                if clean {
                                    let f = ctx.props.components.spec_get(gname)->Some_0;
                                    let w = choose|w: int|
                                        0 <= w < ctx.props.components.entries().len()
                                            && #[trigger] ctx.props.components.entries()[w].1 == f;
                                    assert(call_ensures(
                                        ctx.props.components.entries()[w].1,
                                        (gprops,),
                                        Result::<Element, ComponentCreationError>::Ok(el),
                                    ));
                                    assert(handlers_within(el, len));
                                }
                            }
                            push_child(&mut stack, &mut top, el, Ghost(len), Ghost(clean));
                        },
                        Err(e) => {
                            proof {
                                assert(event_can_fail(events@[i as int], over));
                                let g = spec_parse_tag(t@)->Some_0;
                                assert(g.0 == gname);
                                assert(g.2 == TagKind::SelfClosing);
                                assert(g.0.len() > 0 && is_upper(g.0[0]));
                                assert(gprops.children is None);
                                match ctx.props.components.spec_get(gname) {
                                    Option::Some(f) => {
                                        assert(attr_views(gprops.attributes@) == g.1);
                                        assert(call_ensures(
                                            f,
                                            (gprops,),
                                            Result::<Element, ComponentCreationError>::Err(e),
                                        ));
                                    },
                                    Option::None => {},
                                }
                                assert(occurrence_error(
                                    ctx.props.components,
                                    g.0,
                                    g.1,
                                    true,
                                    e,
                                ));
                                assert(component_error_matches(
                                    events@,
                                    old(ctx).props.components,
                                    e,
                                ));
                            }
                            return Err(RenderError::Component(e));
                        },
                    }
                } else {
                    let attrs = ElementAttributes { classes: Vec::new(), style: None, on_click: None };
                    let el = ctx.el_span_with_inner_html(t.clone(), attrs);
                    push_child(&mut stack, &mut top, el, Ghost(len), Ghost(clean));
                }
            },
            MdEvent::Image(src, alt, _) => {
                let el = ctx.el_img(src.clone(), alt.clone());
                let ghost gel = el;
                let ghost ps = stack@;
                let ghost pt = top@;
                push_child(&mut stack, &mut top, el, Ghost(len), Ghost(clean));
                proof {
                    if pure {
                        let sst = spec_pass(events@.subrange(0, i as int), hard);
                        let m = VModel::Image { src: src@, alt: alt@ };
                        assert(matches_model(gel, m));
                        lemma_push_matches(ps, stack@, pt, top@, sst, gel, m);
                        assert(spec_step(sst, events@[i as int], hard) == spec_push(sst, m));
                    }
                }
            },
            MdEvent::Rule(rng) => {
                let handler = ctx.make_md_handler(*rng, false);
                let attrs = ElementAttributes {
                    classes: Vec::new(),
                    style: None,
                    on_click: Some(handler),
                };
                let el = ctx.el_hr(attrs);
                let ghost gel = el;
                let ghost ps = stack@;
                let ghost pt = top@;
                push_child(&mut stack, &mut top, el, Ghost(len), Ghost(clean));
                proof {
                    if pure {
                        let sst = spec_pass(events@.subrange(0, i as int), hard);
                        let m = VModel::Rule {
                            class: Seq::<char>::empty(),
                            style: Seq::<char>::empty(),
                            on_click: Some(handler_for(*rng)),
                        };
                        assert(matches_model(gel, m));
                        lemma_push_matches(ps, stack@, pt, top@, sst, gel, m);
                        assert(spec_step(sst, events@[i as int], hard) == spec_push(sst, m));
                    }
                }
            },
            MdEvent::SoftBreak => {
                let el = if ctx.props.hard_line_breaks {
                    ctx.el_br()
                } else {
                    ctx.el_text("\n".to_owned())
                };
                let ghost gel = el;
                let ghost ps = stack@;
                let ghost pt = top@;
                push_child(&mut stack, &mut top, el, Ghost(len), Ghost(clean));
                proof {
                    if pure {
                        let sst = spec_pass(events@.subrange(0, i as int), hard);
                        let m = if hard {
                            VModel::Break
                        } else {
                            VModel::Text("\n"@)
                        };
                        assert(ctx.props.hard_line_breaks == hard);
                        assert(matches_model(gel, m));
                        lemma_push_matches(ps, stack@, pt, top@, sst, gel, m);
                        assert(spec_step(sst, events@[i as int], hard) == spec_push(sst, m));
                    }
                }
            },
            MdEvent::HardBreak => {
                let el = ctx.el_br();
                let ghost gel = el;
                let ghost ps = stack@;
                let ghost pt = top@;
                push_child(&mut stack, &mut top, el, Ghost(len), Ghost(clean));
                proof {
                    if pure {
                        let sst = spec_pass(events@.subrange(0, i as int), hard);
                        assert(matches_model(gel, VModel::Break));
                        lemma_push_matches(ps, stack@, pt, top@, sst, gel, VModel::Break);
                        assert(spec_step(sst, events@[i as int], hard) == spec_push(
                            sst,
                            VModel::Break,
                        ));
                    }
                }
            },
            MdEvent::Checkbox(checked, rng) => {
                let handler = ctx.make_md_handler(*rng, false);
                let attrs = ElementAttributes {
                    classes: Vec::new(),
                    style: None,
                    on_click: Some(handler),
                };
                let el = ctx.el_input_checkbox(*checked, attrs);
                let ghost gel = el;
                let ghost ps = stack@;
                let ghost pt = top@;
                push_child(&mut stack, &mut top, el, Ghost(len), Ghost(clean));
                proof {
                    if pure {
                        let sst = spec_pass(events@.subrange(0, i as int), hard);
                        let m = VModel::Checkbox {
                            checked: *checked,
                            class: Seq::<char>::empty(),
                            style: Seq::<char>::empty(),
                            on_click: Some(handler_for(*rng)),
                        };
                        assert(matches_model(gel, m));
                        lemma_push_matches(ps, stack@, pt, top@, sst, gel, m);
                        assert(spec_step(sst, events@[i as int], hard) == spec_push(sst, m));
                    }
                }
            },
            MdEvent::Frontmatter(t) => {
                ctx.set_frontmatter(t.clone());
            },
        }
        i += 1;
    }
    proof {
        assert(events@.subrange(0, n as int) =~= events@);
        assert(stack@.len() == 0);
    }
    let ghost gtop = top@;
    let root = ctx.el_fragment(top);
    proof {
        if pure {
            assert(spec_pass(events@.subrange(0, n as int), hard) == spec_pass(events@, hard));
            assert(views_match(gtop, spec_pass(events@, hard).1));
        }
    }
    Ok(root)
}

} // verus!
