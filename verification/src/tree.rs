//! The component tree and its two engines.  Each node owns one layout
//! strategy, one interaction widget, an ordered child list, and the
//! children's last-resolved boxes.  `measure` is the bottom-up negotiation
//! pass, `layout` the top-down placement pass, and `dispatch` the top-down
//! event pass: the node's own handler runs first, the event is hit-test
//! split over the last-resolved boxes, and events raised along the way land
//! in a side queue for redelivery from the root on the next cycle — never
//! synchronously.

use vstd::prelude::*;
use crate::constraint::{Area, SizeRequest};
use crate::event::{
    spec_event_sub, Event, InputFieldEvent, MouseState, SelectableEvent, ShowKeyboard,
};
use crate::field::InputField;
use crate::fsm::{spec_step, ButtonFsm, Slider, TapGesture, TapOutcome, Toggle};
use crate::linear::{Axis, Linear};
use crate::overlay::Stack;
use crate::scroll::{clamp_scroll, ScrollRegion};
use crate::select::{spec_apply_select, Selectable};
use crate::wrap::WrapFlow;

verus! {

/// The layout strategy a node owns.
#[derive(Clone, Copy, Debug)]
pub enum Strategy {
    Overlay(Stack),
    Sequence(Linear),
    Flow(WrapFlow),
    Region(ScrollRegion),
}

/// The interaction behaviour a node owns.  A `Passive` node only lays its
/// children out and forwards events.
#[derive(Clone, Copy, Debug)]
pub enum Widget {
    Passive,
    Button(ButtonFsm),
    Field(InputField),
    Chooser(Selectable),
    Switch(Toggle),
    Knob(Slider),
    Tap(TapGesture),
}

/// One node of the component tree.  The `tag` is the application's handle
/// for this node, reported back when its widget fires.
#[derive(Debug)]
pub struct Node {
    pub tag: u64,
    pub strategy: Strategy,
    pub widget: Widget,
    pub children: Vec<Node>,
    pub areas: Vec<Area>,
}

/// The size range node `n` negotiates, bottom-up: its strategy's rule
/// applied to its children's negotiated ranges.
pub open spec fn spec_request(n: Node) -> SizeRequest
    decreases n, 1int,
{
    match n.strategy {
        Strategy::Overlay(s) => s.spec_request(requests_of(n.children@)),
        Strategy::Sequence(l) => l.spec_request(requests_of(n.children@)),
        Strategy::Flow(w) => w.spec_request(requests_of(n.children@)),
        Strategy::Region(r) => r.spec_request(requests_of(n.children@)),
    }
}

/// The negotiated ranges of a list of nodes, in order.
pub open spec fn requests_of(ns: Seq<Node>) -> Seq<SizeRequest>
    decreases ns, 0int,
{
    if ns.len() == 0 {
        Seq::empty()
    } else {
        seq![spec_request(ns.first())] + requests_of(ns.drop_first())
    }
}

/// `requests_of` is the pointwise image of `spec_request`.
pub proof fn lemma_requests_of(ns: Seq<Node>)
    ensures
        requests_of(ns).len() == ns.len(),
        forall|i: int| 0 <= i < ns.len() ==> requests_of(ns)[i] == spec_request(ns[i]),
    decreases ns.len(),
{
    if ns.len() > 0 {
        lemma_requests_of(ns.drop_first());
    }
}

/// A node's configuration is sound: every custom sizing rule names an
/// existing child and yields an ordered range for the children it will see,
/// recursively.  Violating this is the fatal construction-time error.
pub open spec fn wf(n: Node) -> bool
    decreases n, 1int,
{
    &&& wf_all(n.children@)
    &&& match n.strategy {
        Strategy::Overlay(s) => Stack::axis_rule_ok(
            s.2,
            requests_of(n.children@).map_values(|c: SizeRequest| (c.min_width, c.max_width)),
        ) && Stack::axis_rule_ok(
            s.3,
            requests_of(n.children@).map_values(|c: SizeRequest| (c.min_height, c.max_height)),
        ),
        Strategy::Sequence(l) => l.rule_ok(requests_of(n.children@)),
        _ => true,
    }
}

/// Every node of a list is well-formed.
pub open spec fn wf_all(ns: Seq<Node>) -> bool
    decreases ns, 0int,
{
    ns.len() == 0 || (wf(ns.first()) && wf_all(ns.drop_first()))
}

/// Extracts one node's well-formedness from a list's.
pub proof fn lemma_wf_all_index(ns: Seq<Node>, i: int)
    requires
        wf_all(ns),
        0 <= i < ns.len(),
    ensures
        wf(ns[i]),
    decreases i,
{
    if i > 0 {
        lemma_wf_all_index(ns.drop_first(), i - 1);
    }
}

/// Rebuilds a list's well-formedness from its nodes'.
pub proof fn lemma_wf_all_build(ns: Seq<Node>)
    requires
        forall|i: int| 0 <= i < ns.len() ==> wf(#[trigger] ns[i]),
    ensures
        wf_all(ns),
    decreases ns.len(),
{
    if ns.len() > 0 {
        assert(forall|i: int|
            0 <= i < ns.drop_first().len() ==> wf(#[trigger] ns.drop_first()[i]));
        lemma_wf_all_build(ns.drop_first());
    }
}

/// What one event does to a node's strategy: a scroll region follows scroll
/// adjustments and wheel input on its axis; everything else is inert.
pub open spec fn spec_strategy_step(s: Strategy, e: Event) -> Strategy {
    match s {
        Strategy::Region(r) => {
            let delta: Option<i32> = match e {
                Event::AdjustScroll(d) => Option::Some(d),
                Event::Mouse(m) => match (m.state, m.position) {
                    (MouseState::Scroll(dx, dy), Option::Some(_)) => Option::Some(
                        match r.axis {
                            Axis::Horizontal => dx,
                            Axis::Vertical => dy,
                        },
                    ),
                    _ => Option::None,
                },
                _ => Option::None,
            };
            match delta {
                Option::Some(d) => Strategy::Region(
                    ScrollRegion {
                        offset: clamp_scroll(
                            if r.offset + d < 0 {
                                0
                            } else {
                                r.offset + d
                            },
                            r.content as int,
                            r.viewport as int,
                        ) as u32,
                        ..r
                    },
                ),
                Option::None => s,
            }
        },
        _ => s,
    }
}

/// What one event does to a node's widget: the next widget state, the event
/// handed on to the children (if any), the events raised into the side
/// queue, and whether the widget's callback fires.
pub open spec fn spec_widget_step(w: Widget, e: Event) -> (Widget, Option<Event>, Seq<Event>, bool) {
    match w {
        Widget::Passive => (w, Option::Some(e), Seq::empty(), false),
        Widget::Button(f) => match e {
            Event::Mouse(m) => {
                let (s2, fired) = spec_step(f.state, m, f.mobile);
                (
                    Widget::Button(ButtonFsm { state: s2, mobile: f.mobile }),
                    Option::Some(e),
                    Seq::empty(),
                    fired,
                )
            },
            _ => (w, Option::Some(e), Seq::empty(), false),
        },
        Widget::Field(fl) => match e {
            Event::Mouse(m) => {
                let (s2, kb, bc) = crate::field::spec_field_step(
                    fl.state,
                    fl.has_error,
                    fl.mobile,
                    fl.id,
                    m,
                );
                let q0: Seq<Event> = if kb {
                    seq![Event::ShowKeyboard(ShowKeyboard(true))]
                } else {
                    Seq::empty()
                };
                let q: Seq<Event> = match bc {
                    Option::Some(ev) => q0.push(Event::InputField(ev)),
                    Option::None => q0,
                };
                (
                    Widget::Field(InputField { state: s2, ..fl }),
                    Option::Some(e),
                    q,
                    false,
                )
            },
            Event::InputField(ev) => (
                Widget::Field(InputField { state: fl.spec_apply_focus(ev), ..fl }),
                Option::Some(e),
                Seq::empty(),
                false,
            ),
            _ => (w, Option::Some(e), Seq::empty(), false),
        },
        Widget::Chooser(sel) => match e {
            Event::Mouse(m) => if m.state is Pressed && m.position is Some {
                (
                    w,
                    Option::None,
                    seq![Event::Selectable(SelectableEvent(sel.id, sel.group))],
                    false,
                )
            } else {
                (w, Option::None, Seq::empty(), false)
            },
            Event::Selectable(ev) => (
                Widget::Chooser(spec_apply_select(sel, ev)),
                Option::None,
                Seq::empty(),
                ev.1 == sel.group && ev.0 == sel.id,
            ),
            _ => (w, Option::None, Seq::empty(), false),
        },
        Widget::Switch(t) => match e {
            Event::Mouse(m) => if m.state is Pressed && m.position is Some {
                (Widget::Switch(Toggle { on: !t.on }), Option::None, Seq::empty(), true)
            } else {
                (w, Option::None, Seq::empty(), false)
            },
            _ => (w, Option::None, Seq::empty(), false),
        },
        Widget::Knob(sl) => match e {
            Event::Slider(se) => {
                let x = match se {
                    crate::event::SliderEvent::Start(x) => x,
                    crate::event::SliderEvent::Moved(x) => x,
                };
                (
                    Widget::Knob(
                        Slider {
                            value: crate::fsm::clamp_track(x as int, sl.track as int) as u32,
                            track: sl.track,
                        },
                    ),
                    Option::Some(e),
                    Seq::empty(),
                    true,
                )
            },
            _ => (w, Option::Some(e), Seq::empty(), false),
        },
        Widget::Tap(g) => match e {
            Event::Mouse(m) => {
                let (g2, out) = match (m.state, m.position) {
                    (MouseState::Pressed, Option::Some(p)) => (
                        TapGesture { press_at: p },
                        TapOutcome::Swallow,
                    ),
                    (MouseState::Released, Option::Some(p)) => (
                        g,
                        crate::fsm::spec_tap_outcome(g.press_at, p),
                    ),
                    _ => (g, TapOutcome::Pass),
                };
                let pass = match out {
                    TapOutcome::Swallow => Option::None,
                    TapOutcome::Reemit(p) => Option::Some(
                        Event::Mouse(
                            crate::event::MouseEvent {
                                state: MouseState::Pressed,
                                position: Option::Some(p),
                            },
                        ),
                    ),
                    TapOutcome::Pass => Option::Some(e),
                };
                (Widget::Tap(g2), pass, Seq::empty(), false)
            },
            _ => (w, Option::Some(e), Seq::empty(), false),
        },
    }
}

/// The sub-event child `i` receives when `pe` is handed down: hit-test split
/// over the last-resolved boxes; a child with no resolved box yet receives
/// nothing.
pub open spec fn spec_sub_event(pe: Event, areas: Seq<Area>, i: int) -> Option<Event> {
    if i < areas.len() {
        spec_event_sub(pe, areas, i)
    } else {
        Option::None
    }
}

/// The mathematical shape of a node, over which the engines' contracts
/// speak.
#[verifier::ext_equal]
pub struct NodeView {
    pub tag: u64,
    pub strategy: Strategy,
    pub widget: Widget,
    pub children: Seq<NodeView>,
    pub areas: Seq<Area>,
}

impl Node {
    /// The node as a mathematical tree.
    pub open spec fn view(self) -> NodeView
        decreases self, 1int,
    {
        NodeView {
            tag: self.tag,
            strategy: self.strategy,
            widget: self.widget,
            children: views_of(self.children@),
            areas: self.areas@,
        }
    }
}

/// The views of a list of nodes, in order.
pub open spec fn views_of(ns: Seq<Node>) -> Seq<NodeView>
    decreases ns, 0int,
{
    if ns.len() == 0 {
        Seq::empty()
    } else {
        seq![ns.first().view()] + views_of(ns.drop_first())
    }
}

/// `views_of` is the pointwise image of `view`.
pub proof fn lemma_views_of(ns: Seq<Node>)
    ensures
        views_of(ns).len() == ns.len(),
        forall|i: int| 0 <= i < ns.len() ==> views_of(ns)[i] == ns[i].view(),
    decreases ns.len(),
{
    if ns.len() > 0 {
        lemma_views_of(ns.drop_first());
    }
}

/// Appending a node appends its view.
proof fn lemma_views_snoc(ns: Seq<Node>, x: Node)
    ensures
        views_of(ns.push(x)) == views_of(ns).push(x.view()),
    decreases ns.len(),
{
    if ns.len() == 0 {
        assert(ns.push(x).drop_first() =~= Seq::<Node>::empty());
        assert(ns.push(x).first() == x);
        assert(views_of(Seq::<Node>::empty()) == Seq::<NodeView>::empty());
        assert(views_of(ns.push(x)) =~= views_of(ns).push(x.view()));
    } else {
        assert(ns.push(x).drop_first() =~= ns.drop_first().push(x));
        assert(ns.push(x).first() == ns.first());
        lemma_views_snoc(ns.drop_first(), x);
        assert(views_of(ns.push(x)) =~= views_of(ns).push(x.view()));
    }
}

/// What one delivery does to a whole subtree: the new tree, the events its
/// handlers raised into the side queue (top-down, own handler first), and
/// the tags of the widgets that fired, in the same order.
pub open spec fn spec_dispatch(v: NodeView, e: Event) -> (NodeView, Seq<Event>, Seq<u64>)
    decreases v, 1int,
{
    let step = spec_widget_step(v.widget, e);
    let s2 = spec_strategy_step(v.strategy, e);
    let own_fired: Seq<u64> = if step.3 {
        seq![v.tag]
    } else {
        Seq::empty()
    };
    match step.1 {
        Option::None => (
            NodeView { strategy: s2, widget: step.0, ..v },
            step.2,
            own_fired,
        ),
        Option::Some(pe) => {
            let kids = spec_dispatch_kids(v.children, v.areas, pe, 0);
            (
                NodeView { strategy: s2, widget: step.0, children: kids.0, ..v },
                step.2 + kids.1,
                own_fired + kids.2,
            )
        },
    }
}

/// One delivery over a child list starting at slot `i0`: each child gets its
/// hit-tested sub-event, or stays untouched when none reaches it.
pub open spec fn spec_dispatch_kids(
    ns: Seq<NodeView>,
    areas: Seq<Area>,
    pe: Event,
    i0: int,
) -> (Seq<NodeView>, Seq<Event>, Seq<u64>)
    decreases ns, 0int,
{
    if ns.len() == 0 {
        (Seq::empty(), Seq::empty(), Seq::empty())
    } else {
        let head = match spec_sub_event(pe, areas, i0) {
            Option::Some(se) => spec_dispatch(ns.first(), se),
            Option::None => (ns.first(), Seq::<Event>::empty(), Seq::<u64>::empty()),
        };
        let rest = spec_dispatch_kids(ns.drop_first(), areas, pe, i0 + 1);
        (seq![head.0] + rest.0, head.1 + rest.1, head.2 + rest.2)
    }
}

/// Extending the processed prefix by one child appends exactly that child's
/// contribution.
proof fn lemma_dispatch_kids_snoc(
    ns: Seq<NodeView>,
    areas: Seq<Area>,
    pe: Event,
    i0: int,
    x: NodeView,
)
    ensures
        ({
            let pre = spec_dispatch_kids(ns, areas, pe, i0);
            let head = match spec_sub_event(pe, areas, i0 + ns.len()) {
                Option::Some(se) => spec_dispatch(x, se),
                Option::None => (x, Seq::<Event>::empty(), Seq::<u64>::empty()),
            };
            spec_dispatch_kids(ns.push(x), areas, pe, i0) == (
                pre.0.push(head.0),
                pre.1 + head.1,
                pre.2 + head.2,
            )
        }),
    decreases ns.len(),
{
    let pre = spec_dispatch_kids(ns, areas, pe, i0);
    let head = match spec_sub_event(pe, areas, i0 + ns.len()) {
        Option::Some(se) => spec_dispatch(x, se),
        Option::None => (x, Seq::<Event>::empty(), Seq::<u64>::empty()),
    };
    if ns.len() == 0 {
        assert(ns.push(x).drop_first() =~= Seq::<NodeView>::empty());
        assert(ns.push(x).first() == x);
        assert(spec_dispatch_kids(Seq::<NodeView>::empty(), areas, pe, i0 + 1) == (
            Seq::<NodeView>::empty(),
            Seq::<Event>::empty(),
            Seq::<u64>::empty(),
        ));
        assert(spec_dispatch_kids(ns.push(x), areas, pe, i0).0 =~= pre.0.push(head.0));
        assert(spec_dispatch_kids(ns.push(x), areas, pe, i0).1 =~= pre.1 + head.1);
        assert(spec_dispatch_kids(ns.push(x), areas, pe, i0).2 =~= pre.2 + head.2);
    } else {
        assert(ns.push(x).drop_first() =~= ns.drop_first().push(x));
        assert(ns.push(x).first() == ns.first());
        lemma_dispatch_kids_snoc(ns.drop_first(), areas, pe, i0 + 1, x);
        assert(spec_dispatch_kids(ns.push(x), areas, pe, i0).0 =~= pre.0.push(head.0));
        assert(spec_dispatch_kids(ns.push(x), areas, pe, i0).1 =~= pre.1 + head.1);
        assert(spec_dispatch_kids(ns.push(x), areas, pe, i0).2 =~= pre.2 + head.2);
    }
}

/// What one whole tick does to a subtree: every event of the tick delivered
/// in order; the raised events and fired tags accumulate in order.
pub open spec fn spec_cycle(v: NodeView, evs: Seq<Event>) -> (NodeView, Seq<Event>, Seq<u64>)
    decreases evs.len(),
{
    if evs.len() == 0 {
        (v, Seq::empty(), Seq::empty())
    } else {
        let pre = spec_cycle(v, evs.drop_last());
        let d = spec_dispatch(pre.0, evs.last());
        (d.0, pre.1 + d.1, pre.2 + d.2)
    }
}

/// One step of a node's own strategy, executable form.
fn strategy_step(s: Strategy, e: &Event) -> (r: Strategy)
    ensures
        r == spec_strategy_step(s, *e),
{
    match s {
        Strategy::Region(mut reg) => {
            let delta: Option<i32> = match e {
                Event::AdjustScroll(d) => Option::Some(*d),
                Event::Mouse(m) => match (m.state, m.position) {
                    (MouseState::Scroll(dx, dy), Option::Some(_)) => Option::Some(
                        match reg.axis {
                            Axis::Horizontal => dx,
                            Axis::Vertical => dy,
                        },
                    ),
                    _ => Option::None,
                },
                _ => Option::None,
            };
            match delta {
                Option::Some(d) => {
                    reg.adjust_scroll(d);
                    Strategy::Region(reg)
                },
                Option::None => Strategy::Region(reg),
            }
        },
        _ => s,
    }
}

/// One step of a node's own widget, executable form.
fn widget_step(w: Widget, e: &Event) -> (r: (Widget, Option<Event>, Vec<Event>, bool))
    ensures
        (r.0, r.1, r.2@, r.3) == spec_widget_step(w, *e),
{
    match w {
        Widget::Passive => (w, Option::Some(*e), Vec::new(), false),
        Widget::Button(mut f) => match e {
            Event::Mouse(m) => {
                let fired = f.handle(m);
                (Widget::Button(f), Option::Some(*e), Vec::new(), fired)
            },
            _ => (w, Option::Some(*e), Vec::new(), false),
        },
        Widget::Field(mut fl) => match e {
            Event::Mouse(m) => {
                let (kb, bc) = fl.handle(m);
                let mut q: Vec<Event> = Vec::new();
                if kb {
                    q.push(Event::ShowKeyboard(ShowKeyboard(true)));
                }
                if let Option::Some(ev) = bc {
                    q.push(Event::InputField(ev));
                }
                (Widget::Field(fl), Option::Some(*e), q, false)
            },
            Event::InputField(ev) => {
                fl.apply_focus(ev);
                (Widget::Field(fl), Option::Some(*e), Vec::new(), false)
            },
            _ => (w, Option::Some(*e), Vec::new(), false),
        },
        Widget::Chooser(mut sel) => match e {
            Event::Mouse(m) => {
                if matches!(m.state, MouseState::Pressed) && m.position.is_some() {
                    let mut q: Vec<Event> = Vec::new();
                    q.push(Event::Selectable(SelectableEvent(sel.id, sel.group)));
                    (w, Option::None, q, false)
                } else {
                    (w, Option::None, Vec::new(), false)
                }
            },
            Event::Selectable(ev) => {
                let fired = ev.1.raw == sel.group.raw && ev.0.raw == sel.id.raw;
                sel.apply(ev);
                (Widget::Chooser(sel), Option::None, Vec::new(), fired)
            },
            _ => (w, Option::None, Vec::new(), false),
        },
        Widget::Switch(t) => match e {
            Event::Mouse(m) => {
                if matches!(m.state, MouseState::Pressed) && m.position.is_some() {
                    (Widget::Switch(Toggle { on: !t.on }), Option::None, Vec::new(), true)
                } else {
                    (w, Option::None, Vec::new(), false)
                }
            },
            _ => (w, Option::None, Vec::new(), false),
        },
        Widget::Knob(mut sl) => match e {
            Event::Slider(se) => {
                let _ = sl.handle(se);
                (Widget::Knob(sl), Option::Some(*e), Vec::new(), true)
            },
            _ => (w, Option::Some(*e), Vec::new(), false),
        },
        Widget::Tap(mut g) => match e {
            Event::Mouse(m) => {
                let out = g.handle(m);
                let pass = match out {
                    TapOutcome::Swallow => Option::None,
                    TapOutcome::Reemit(p) => Option::Some(
                        Event::Mouse(
                            crate::event::MouseEvent {
                                state: MouseState::Pressed,
                                position: Option::Some(p),
                            },
                        ),
                    ),
                    TapOutcome::Pass => Option::Some(*e),
                };
                (Widget::Tap(g), pass, Vec::new(), false)
            },
            _ => (w, Option::Some(*e), Vec::new(), false),
        },
    }
}

/// Delivers one event to a node and, through the hit-test split, to its
/// descendants.  The node's own handler runs first; events it raises are
/// queued for the next cycle, never delivered synchronously; when its widget
/// fires, the node's tag is appended to `fired` before any descendant's.
/// The whole outcome is `spec_dispatch` of the tree: the queue receives the
/// raised events and nothing else, `fired` receives the tags of exactly the
/// widgets whose step fired, in delivery order, and the tree's shape and
/// last-resolved boxes are untouched.
#[verifier::loop_isolation(false)]
pub fn dispatch(n: Node, e: &Event, queue: &mut Vec<Event>, fired: &mut Vec<u64>) -> (r: Node)
    ensures
        r.view() == spec_dispatch(n.view(), *e).0,
        final(queue)@ == old(queue)@ + spec_dispatch(n.view(), *e).1,
        final(fired)@ == old(fired)@ + spec_dispatch(n.view(), *e).2,
        r.tag == n.tag,
        r.areas@ == n.areas@,
        r.strategy == spec_strategy_step(n.strategy, *e),
        r.widget == spec_widget_step(n.widget, *e).0,
        r.children@.len() == n.children@.len(),
        forall|i: int| 0 <= i < r.children@.len() ==> (#[trigger] r.children@[i]).tag
            == n.children@[i].tag,
        spec_widget_step(n.widget, *e).3 ==> final(fired)@.len() > old(fired)@.len() && final(fired)@[old(fired)@.len() as int] == n.tag,
        forall|i: int| 0 <= i < r.children@.len() ==> (#[trigger] r.children@[i]).widget == (
        match spec_widget_step(n.widget, *e).1 {
            Option::Some(pe) => match spec_sub_event(pe, n.areas@, i) {
                Option::Some(se) => spec_widget_step(n.children@[i].widget, se).0,
                Option::None => n.children@[i].widget,
            },
            Option::None => n.children@[i].widget,
        }),
    decreases n,
{
    let ghost n0 = n;
    let Node { tag, strategy, widget, mut children, areas } = n;
    let strategy2 = strategy_step(strategy, e);
    let (widget2, pass, emits, f) = widget_step(widget, e);
    let ghost step = spec_widget_step(n0.widget, *e);
    let ghost own_fired: Seq<u64> = if f {
        seq![n0.tag]
    } else {
        Seq::empty()
    };
    if f {
        fired.push(tag);
    }
    proof {
        assert(fired@ =~= old(fired)@ + own_fired);
    }
    let mut k: usize = 0;
    proof {
        assert(queue@ =~= old(queue)@ + emits@.subrange(0, 0));
    }
    while k < emits.len()
        invariant
            k <= emits@.len(),
            queue@ == old(queue)@ + emits@.subrange(0, k as int),
            fired@ == old(fired)@ + own_fired,
        decreases emits@.len() - k,
    {
        let ev = emits[k];
        queue.push(ev);
        proof {
            assert(queue@ =~= old(queue)@ + emits@.subrange(0, k + 1));
        }
        k = k + 1;
    }
    proof {
        assert(emits@.subrange(0, emits@.len() as int) =~= emits@);
        lemma_views_of(n0.children@);
    }
    let ghost kid_views = views_of(n0.children@);
    let mut new_children: Vec<Node> = Vec::new();
    match pass {
        Option::None => {
            new_children = children;
        },
        Option::Some(pe) => {
            let subs = pe.split(&areas);
            let mut i: usize = 0;
            let count: usize = children.len();
            let ghost total = n0.children@.len();
            proof {
                assert(kid_views.subrange(0, 0) =~= Seq::<NodeView>::empty());
            }
            while children.len() > 0
                invariant
                    i + children@.len() == total,
                    total == n0.children@.len(),
                    total == count,
                    children@ =~= n0.children@.subrange(i as int, total as int),
                    new_children@.len() == i,
                    subs@.len() == n0.areas@.len(),
                    forall|j: int| 0 <= j < subs@.len() ==> subs@[j] == spec_event_sub(
                        pe,
                        n0.areas@,
                        j,
                    ),
                    spec_widget_step(n0.widget, *e).1 == Option::Some(pe),
                    step == spec_widget_step(n0.widget, *e),
                    kid_views == views_of(n0.children@),
                    forall|j: int| 0 <= j < i ==> (#[trigger] new_children@[j]).tag
                        == n0.children@[j].tag,
                    forall|j: int| 0 <= j < i ==> (#[trigger] new_children@[j]).widget == (
                    match spec_sub_event(pe, n0.areas@, j) {
                        Option::Some(se) => spec_widget_step(n0.children@[j].widget, se).0,
                        Option::None => n0.children@[j].widget,
                    }),
                    views_of(new_children@) == spec_dispatch_kids(
                        kid_views.subrange(0, i as int),
                        n0.areas@,
                        pe,
                        0,
                    ).0,
                    queue@ == old(queue)@ + step.2 + spec_dispatch_kids(
                        kid_views.subrange(0, i as int),
                        n0.areas@,
                        pe,
                        0,
                    ).1,
                    fired@ == old(fired)@ + own_fired + spec_dispatch_kids(
                        kid_views.subrange(0, i as int),
                        n0.areas@,
                        pe,
                        0,
                    ).2,
                decreases children@.len(),
            {
                let c = children.remove(0);
                proof {
                    assert(c == n0.children@[i as int]);
                    assert(decreases_to!(n0 => n0.children));
                    assert(decreases_to!(n0.children => n0.children@));
                    assert(decreases_to!(n0.children@ => n0.children@[i as int]));
                    assert(decreases_to!(n0 => n0.children@[i as int]));
                    assert(decreases_to!(n0 => c));
                }
                let sub: Option<Event> = if i < subs.len() {
                    subs[i]
                } else {
                    Option::None
                };
                proof {
                    assert(sub == spec_sub_event(pe, n0.areas@, i as int));
                    lemma_dispatch_kids_snoc(
                        kid_views.subrange(0, i as int),
                        n0.areas@,
                        pe,
                        0,
                        c.view(),
                    );
                    assert(kid_views.subrange(0, i + 1) =~= kid_views.subrange(
                        0,
                        i as int,
                    ).push(c.view()));
                }
                let c2 = match sub {
                    Option::Some(se) => dispatch(c, &se, queue, fired),
                    Option::None => c,
                };
                proof {
                    lemma_views_snoc(new_children@, c2);
                    assert(queue@ =~= old(queue)@ + step.2 + spec_dispatch_kids(
                        kid_views.subrange(0, i + 1),
                        n0.areas@,
                        pe,
                        0,
                    ).1);
                    assert(fired@ =~= old(fired)@ + own_fired + spec_dispatch_kids(
                        kid_views.subrange(0, i + 1),
                        n0.areas@,
                        pe,
                        0,
                    ).2);
                }
                new_children.push(c2);
                i = i + 1;
            }
            proof {
                assert(kid_views.subrange(0, total as int) =~= kid_views);
            }
        },
    }
    let r = Node { tag, strategy: strategy2, widget: widget2, children: new_children, areas };
    proof {
        lemma_views_of(r.children@);
        assert(r.view() =~= spec_dispatch(n0.view(), *e).0);
        assert(queue@ =~= old(queue)@ + spec_dispatch(n0.view(), *e).1);
        assert(fired@ =~= old(fired)@ + spec_dispatch(n0.view(), *e).2);
    }
    r
}

/// Asks every child for its negotiated range, in order: the recursive half
/// of the bottom-up pass.
#[verifier::loop_isolation(false)]
fn measure_kids(n: &Node) -> (r: Vec<SizeRequest>)
    requires
        wf(*n),
    ensures
        r@.len() == n.children@.len(),
        forall|i: int| 0 <= i < r@.len() ==> r@[i] == requests_of(n.children@)[i],
        forall|i: int| 0 <= i < r@.len() ==> (#[trigger] r@[i]).wf(),
        r@ == requests_of(n.children@),
    decreases *n, 0int,
{
    let mut reqs: Vec<SizeRequest> = Vec::new();
    let mut i: usize = 0;
    proof {
        lemma_requests_of(n.children@);
    }
    while i < n.children.len()
        invariant
            i <= n.children@.len(),
            reqs@.len() == i,
            forall|j: int| 0 <= j < i ==> reqs@[j] == spec_request(n.children@[j]),
            forall|j: int| 0 <= j < i ==> (#[trigger] reqs@[j]).wf(),
        decreases n.children@.len() - i,
    {
        proof {
            lemma_wf_all_index(n.children@, i as int);
            assert(decreases_to!(*n => n.children));
            assert(decreases_to!(n.children => n.children@));
            assert(decreases_to!(n.children@ => n.children@[i as int]));
            assert(decreases_to!(*n => n.children@[i as int]));
        }
        let c = &n.children[i];
        let r = measure(c);
        reqs.push(r);
        i = i + 1;
    }
    proof {
        assert(reqs@ =~= requests_of(n.children@));
    }
    reqs
}

/// The bottom-up negotiation pass: computes this node's own size range from
/// its children's, depth first.
#[verifier::loop_isolation(false)]
pub fn measure(n: &Node) -> (r: SizeRequest)
    requires
        wf(*n),
    ensures
        r == spec_request(*n),
        r.wf(),
    decreases *n, 1int,
{
    let reqs = measure_kids(n);
    match &n.strategy {
        Strategy::Overlay(s) => s.request_size(&reqs),
        Strategy::Sequence(l) => l.request_size(&reqs),
        Strategy::Flow(w) => w.request_size(&reqs),
        Strategy::Region(reg) => reg.request_size(&reqs),
    }
}

/// The box child `i` of node `n` is granted when `n` is granted `allotted`:
/// what `n`'s own strategy dictates.
pub open spec fn spec_child_box(n: Node, allotted: (u32, u32), i: int) -> Area {
    match n.strategy {
        Strategy::Overlay(s) => s.spec_child_area(allotted, requests_of(n.children@)[i]),
        Strategy::Sequence(l) => l.spec_child_area(allotted, requests_of(n.children@), i),
        Strategy::Flow(w) => crate::wrap::spec_wrap_area(w, allotted, requests_of(n.children@), i),
        Strategy::Region(r) => r.spec_child_area(allotted, requests_of(n.children@), i),
    }
}

/// The top-down placement pass: given the box this node was granted, place
/// every child exactly where the node's strategy dictates, record those
/// boxes for hit-testing, and recurse into each child with its own box.
/// The negotiated ranges are untouched, so resolving again with the same
/// granted box yields the same geometry: the resolver is deterministic and
/// idempotent.
#[verifier::loop_isolation(false)]
pub fn layout(n: Node, allotted: (u32, u32)) -> (r: Node)
    requires
        wf(n),
    ensures
        r.tag == n.tag,
        r.widget == n.widget,
        r.children@.len() == n.children@.len(),
        r.areas@.len() == n.children@.len(),
        forall|i: int| 0 <= i < r.areas@.len() ==> r.areas@[i] == spec_child_box(n, allotted, i),
        forall|i: int| 0 <= i < r.areas@.len() ==> (#[trigger] r.areas@[i]).within(allotted),
        forall|i: int| 0 <= i < r.children@.len() ==> spec_request(#[trigger] r.children@[i])
            == spec_request(n.children@[i]),
        spec_request(r) == spec_request(n),
        wf(r),
        forall|a2: (u32, u32), i: int| #[trigger] spec_child_box(r, a2, i) == spec_child_box(
            n,
            a2,
            i,
        ),
    decreases n, 2int,
{
    let ghost n0 = n;
    let reqs = measure_kids(&n);
    let Node { tag, strategy, widget, mut children, areas: _ } = n;
    let (strategy2, new_areas): (Strategy, Vec<Area>) = match strategy {
        Strategy::Overlay(s) => {
            let a = s.build(allotted, &reqs);
            (Strategy::Overlay(s), a)
        },
        Strategy::Sequence(l) => {
            let a = l.build(allotted, &reqs);
            (Strategy::Sequence(l), a)
        },
        Strategy::Flow(w) => {
            let a = w.build(allotted, &reqs);
            (Strategy::Flow(w), a)
        },
        Strategy::Region(mut reg) => {
            let a = reg.build(allotted, &reqs);
            (Strategy::Region(reg), a)
        },
    };
    let mut new_children: Vec<Node> = Vec::new();
    let mut i: usize = 0;
    let count: usize = children.len();
    let ghost total = n0.children@.len();
    while children.len() > 0
        invariant
            i + children@.len() == total,
            total == count,
            children@ =~= n0.children@.subrange(i as int, total as int),
            new_children@.len() == i,
            new_areas@.len() == total,
            forall|j: int| 0 <= j < total ==> new_areas@[j] == spec_child_box(n0, allotted, j),
            forall|j: int| 0 <= j < i ==> (#[trigger] new_children@[j]).tag
                == n0.children@[j].tag,
            forall|j: int| 0 <= j < i ==> spec_request(#[trigger] new_children@[j])
                == spec_request(n0.children@[j]),
            forall|j: int| 0 <= j < i ==> wf(#[trigger] new_children@[j]),
        decreases children@.len(),
    {
        let c = children.remove(0);
        proof {
            assert(c == n0.children@[i as int]);
            lemma_wf_all_index(n0.children@, i as int);
            assert(decreases_to!(n0 => n0.children));
            assert(decreases_to!(n0.children => n0.children@));
            assert(decreases_to!(n0.children@ => n0.children@[i as int]));
            assert(decreases_to!(n0 => n0.children@[i as int]));
            assert(decreases_to!(n0 => c));
        }
        let granted = new_areas[i].size;
        let c2 = layout(c, granted);
        new_children.push(c2);
        i = i + 1;
    }
    let r = Node { tag, strategy: strategy2, widget, children: new_children, areas: new_areas };
    proof {
        lemma_requests_of(n0.children@);
        lemma_requests_of(r.children@);
        assert(requests_of(r.children@) =~= requests_of(n0.children@));
        assert forall|j: int| 0 <= j < r.children@.len() implies wf(#[trigger] r.children@[j]) by {
        }
        lemma_wf_all_build(r.children@);
        assert(requests_of(r.children@).map_values(|c: SizeRequest| (c.min_width, c.max_width))
            =~= requests_of(n0.children@).map_values(|c: SizeRequest| (c.min_width, c.max_width)));
        assert(requests_of(r.children@).map_values(|c: SizeRequest| (c.min_height, c.max_height))
            =~= requests_of(n0.children@).map_values(
            |c: SizeRequest| (c.min_height, c.max_height),
        ));
    }
    r
}

/// Runs one delivery cycle: every event of this tick is dispatched from the
/// root in order, and the events their handlers raised come back as the
/// queue for the next tick — a handler's events are invisible to the tree
/// until then.  The whole outcome is `spec_cycle` of the tree: the resolved
/// boxes are untouched, the returned queue holds exactly the raised events,
/// and `fired` grows by exactly the tags of the widgets that fired, in
/// order.
pub fn run_cycle(root: Node, events: &Vec<Event>, fired: &mut Vec<u64>) -> (r: (Node, Vec<Event>))
    ensures
        r.0.view() == spec_cycle(root.view(), events@).0,
        r.1@ == spec_cycle(root.view(), events@).1,
        final(fired)@ == old(fired)@ + spec_cycle(root.view(), events@).2,
        r.0.tag == root.tag,
        r.0.children@.len() == root.children@.len(),
        r.0.areas@ == root.areas@,
{
    let mut node = root;
    let mut next: Vec<Event> = Vec::new();
    let mut i: usize = 0;
    let ghost t = root.tag;
    let ghost m = root.children@.len();
    let ghost bs = root.areas@;
    proof {
        assert(events@.subrange(0, 0) =~= Seq::<Event>::empty());
        assert(next@ =~= spec_cycle(root.view(), events@.subrange(0, 0)).1);
        assert(fired@ =~= old(fired)@ + spec_cycle(root.view(), events@.subrange(0, 0)).2);
    }
    while i < events.len()
        invariant
            i <= events@.len(),
            node.tag == t,
            node.children@.len() == m,
            node.areas@ == bs,
            node.view() == spec_cycle(root.view(), events@.subrange(0, i as int)).0,
            next@ == spec_cycle(root.view(), events@.subrange(0, i as int)).1,
            fired@ == old(fired)@ + spec_cycle(root.view(), events@.subrange(0, i as int)).2,
        decreases events@.len() - i,
    {
        let e = events[i];
        node = dispatch(node, &e, &mut next, fired);
        proof {
            let pre = events@.subrange(0, i as int);
            let post = events@.subrange(0, i + 1);
            assert(post.drop_last() =~= pre);
            assert(post.last() == events@[i as int]);
            assert(next@ =~= spec_cycle(root.view(), post).1);
            assert(fired@ =~= old(fired)@ + spec_cycle(root.view(), post).2);
        }
        i = i + 1;
    }
    proof {
        assert(events@.subrange(0, events@.len() as int) =~= events@);
    }
    (node, next)
}

} // verus!
