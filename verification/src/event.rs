//! The event model: an immutable, tagged value with an optional pointer
//! position, and the hit-test split that turns one event into one sub-event
//! slot per child, in declaration order.

use vstd::prelude::*;
use crate::constraint::Area;
use crate::ids::ElementID;

verus! {

/// What the pointer did.
#[derive(Clone, Copy, Debug, PartialEq, Eq, Structural)]
pub enum MouseState {
    Pressed,
    Released,
    Moved,
    Scroll(i32, i32),
}

/// A spatial event.  The position is present exactly when the pointer is
/// over the receiver, in the receiver's own coordinate space.
#[derive(Clone, Copy, Debug, PartialEq)]
pub struct MouseEvent {
    pub state: MouseState,
    pub position: Option<(u32, u32)>,
}

/// A named non-character key the text editor reacts to.
#[derive(Clone, Copy, Debug, PartialEq, Eq, Structural)]
pub enum NamedKey {
    Enter,
    Space,
    Backspace,
    Delete,
}

/// A key press payload.
#[derive(Clone, Copy, Debug, PartialEq, Eq, Structural)]
pub enum Key {
    Character(char),
    Named(NamedKey),
}

/// Whether a key went down or up.
#[derive(Clone, Copy, Debug, PartialEq, Eq, Structural)]
pub enum KeyboardState {
    Pressed,
    Released,
}

/// A keyboard event.
#[derive(Clone, Copy, Debug, PartialEq, Eq, Structural)]
pub struct KeyboardEvent {
    pub key: Key,
    pub state: KeyboardState,
}

/// Asks the platform shell to show or hide the software keyboard.
#[derive(Clone, Copy, Debug, PartialEq, Eq, Structural)]
pub struct ShowKeyboard(pub bool);

/// Raised by an input field's trailing icon button.
#[derive(Clone, Copy, Debug, PartialEq, Eq, Structural)]
pub enum TextInputEvent {
    Submit,
}

/// A selection broadcast: (chosen identity, group identity).  Every member
/// of the group compares the chosen identity against its own.
#[derive(Clone, Copy, Debug, PartialEq, Eq, Structural)]
pub struct SelectableEvent(pub ElementID, pub ElementID);

/// A slider gesture, as the platform's drag recogniser reports it: the
/// pointer's track coordinate at the start of a drag or during one.
#[derive(Clone, Copy, Debug, PartialEq, Eq, Structural)]
pub enum SliderEvent {
    Start(u32),
    Moved(u32),
}

/// Focus broadcasts for input fields.
#[derive(Clone, Copy, Debug, PartialEq, Eq, Structural)]
pub enum InputFieldEvent {
    Select(ElementID),
    Deselect(ElementID),
}

/// One event value, as delivered through the tree.
#[derive(Clone, Copy, Debug, PartialEq)]
pub enum Event {
    Mouse(MouseEvent),
    Keyboard(KeyboardEvent),
    /// The periodic frame tick; non-spatial, broadcast to every child.
    Tick,
    ShowKeyboard(ShowKeyboard),
    TextInput(TextInputEvent),
    Selectable(SelectableEvent),
    InputField(InputFieldEvent),
    Slider(SliderEvent),
    /// Moves the enclosing scroll region by a signed amount.
    AdjustScroll(i32),
}

/// The pointer position `p` (in the parent's space) falls inside `a`: its
/// translation into the child's local space lies within
/// `[0, width) x [0, height)`.
pub open spec fn area_contains(a: Area, p: (u32, u32)) -> bool {
    &&& a.offset.0 <= p.0 < a.offset.0 + a.size.0
    &&& a.offset.1 <= p.1 < a.offset.1 + a.size.1
}

/// A later-declared sibling's box also contains the point: the topmost one
/// occludes this child for presses.
pub open spec fn occluded(areas: Seq<Area>, i: int, p: (u32, u32)) -> bool {
    exists|j: int| i < j < areas.len() && area_contains(#[trigger] areas[j], p)
}

/// The last-declared (topmost) child whose box contains `p`, if any: the one
/// a press at `p` goes to.
pub open spec fn last_hit(areas: Seq<Area>, p: (u32, u32)) -> Option<int>
    decreases areas.len(),
{
    if areas.len() == 0 {
        Option::None
    } else if area_contains(areas.last(), p) {
        Option::Some(areas.len() - 1)
    } else {
        last_hit(areas.drop_last(), p)
    }
}

/// The topmost hit is exactly the contained, unoccluded child.
pub proof fn lemma_last_hit(areas: Seq<Area>, p: (u32, u32))
    ensures
        match last_hit(areas, p) {
            Option::Some(k) => 0 <= k < areas.len() && area_contains(areas[k], p) && !occluded(
                areas,
                k,
                p,
            ),
            Option::None => forall|i: int|
                0 <= i < areas.len() ==> !area_contains(#[trigger] areas[i], p),
        },
        forall|i: int|
            0 <= i < areas.len() && area_contains(#[trigger] areas[i], p) && !occluded(areas, i, p)
                ==> last_hit(areas, p) == Option::Some(i),
    decreases areas.len(),
{
    if areas.len() > 0 {
        let pre = areas.drop_last();
        lemma_last_hit(pre, p);
        assert forall|i: int| 0 <= i < pre.len() implies (occluded(pre, i, p) <==> (occluded(
            areas,
            i,
            p,
        ) && !area_contains(areas.last(), p)) || (exists|j: int|
            i < j < pre.len() && area_contains(#[trigger] areas[j], p))) by {
            assert(forall|j: int| 0 <= j < pre.len() ==> pre[j] == areas[j]);
        }
        assert(forall|j: int| 0 <= j < pre.len() ==> pre[j] == areas[j]);
        if area_contains(areas.last(), p) {
            assert(!occluded(areas, areas.len() - 1, p));
            assert forall|i: int|
                0 <= i < areas.len() && area_contains(#[trigger] areas[i], p) && !occluded(
                    areas,
                    i,
                    p,
                ) implies last_hit(areas, p) == Option::Some(i) by {
                if i < areas.len() - 1 {
                    assert(occluded(areas, i, p));
                }
            }
        }
    }
}

/// The translation of `p` into the child's local space.
pub open spec fn spec_translated(m: MouseEvent, a: Area, p: (u32, u32)) -> MouseEvent {
    MouseEvent {
        state: m.state,
        position: Option::Some(((p.0 - a.offset.0) as u32, (p.1 - a.offset.1) as u32)),
    }
}

/// What child `i` receives of a spatial event, given every sibling's box.
/// A position-bearing press goes to the topmost containing child alone —
/// overlap is resolved by declaration order, the last-declared child wins —
/// and to nobody else.  Other contained pointers arrive translated into the
/// child's space; pointers elsewhere arrive position-cleared, so the child
/// can leave Hover or Pressed.
pub open spec fn spec_mouse_sub(m: MouseEvent, areas: Seq<Area>, i: int) -> Option<MouseEvent> {
    match (m.state, m.position) {
        (MouseState::Pressed, Option::Some(p)) => if last_hit(areas, p) == Option::Some(i) {
            Option::Some(spec_translated(m, areas[i], p))
        } else {
            Option::None
        },
        (MouseState::Pressed, Option::None) => Option::None,
        (_, Option::Some(p)) => if area_contains(areas[i], p) {
            Option::Some(spec_translated(m, areas[i], p))
        } else {
            Option::Some(MouseEvent { state: m.state, position: Option::None })
        },
        (_, Option::None) => Option::Some(MouseEvent { state: m.state, position: Option::None }),
    }
}

/// What child `i` receives of any event: the hit-tested copy for spatial
/// events, the unchanged value for the rest.
pub open spec fn spec_event_sub(e: Event, areas: Seq<Area>, i: int) -> Option<Event> {
    match e {
        Event::Mouse(m) => match spec_mouse_sub(m, areas, i) {
            Option::Some(m2) => Option::Some(Event::Mouse(m2)),
            Option::None => Option::None,
        },
        _ => Option::Some(e),
    }
}

/// The hit-test law for presses: a pointer press at `p` reaches child `i`
/// (non-`None`, position intact) exactly when `p`, translated into the
/// child's local space, lies within `[0, width) x [0, height)` of the
/// child's box and no later-declared sibling's box also contains `p` —
/// overlap resolves by declaration order, topmost child wins, never an
/// error.
pub proof fn lemma_press_reaches_iff(e: MouseEvent, areas: Seq<Area>, i: int, p: (u32, u32))
    requires
        e.state is Pressed,
        e.position == Option::Some(p),
        0 <= i < areas.len(),
    ensures
        spec_mouse_sub(e, areas, i) is Some <==> area_contains(areas[i], p) && !occluded(
            areas,
            i,
            p,
        ),
        area_contains(areas[i], p) && !occluded(areas, i, p) ==> spec_mouse_sub(e, areas, i)
            == Option::Some(spec_translated(e, areas[i], p)),
{
    lemma_last_hit(areas, p);
}

/// Splits a spatial event into per-child sub-events, one slot per child in
/// declaration order.
pub fn split_mouse(e: &MouseEvent, areas: &Vec<Area>) -> (r: Vec<Option<MouseEvent>>)
    ensures
        r@.len() == areas@.len(),
        forall|i: int| 0 <= i < r@.len() ==> r@[i] == spec_mouse_sub(*e, areas@, i),
{
    let winner: Option<usize> = find_press_target(e, areas);
    let mut out: Vec<Option<MouseEvent>> = Vec::new();
    let mut i: usize = 0;
    while i < areas.len()
        invariant
            i <= areas@.len(),
            out@.len() == i,
            forall|j: int| 0 <= j < i ==> out@[j] == spec_mouse_sub(*e, areas@, j),
            match (e.state, e.position) {
                (MouseState::Pressed, Option::Some(p)) => match winner {
                    Option::Some(k) => k < areas@.len() && last_hit(areas@, p) == Option::Some(
                        k as int,
                    ),
                    Option::None => last_hit(areas@, p) is None,
                },
                _ => true,
            },
        decreases areas@.len() - i,
    {
        let a = areas[i];
        let sub = match e.position {
            Option::Some(p) => {
                if matches!(e.state, MouseState::Pressed) {
                    if winner == Option::Some(i) {
                        proof {
                            lemma_last_hit(areas@, p);
                        }
                        Option::Some(
                            MouseEvent {
                                state: e.state,
                                position: Option::Some((p.0 - a.offset.0, p.1 - a.offset.1)),
                            },
                        )
                    } else {
                        Option::None
                    }
                } else {
                    let inside = a.offset.0 <= p.0 && p.0 - a.offset.0 < a.size.0 && a.offset.1
                        <= p.1 && p.1 - a.offset.1 < a.size.1;
                    if inside {
                        Option::Some(
                            MouseEvent {
                                state: e.state,
                                position: Option::Some((p.0 - a.offset.0, p.1 - a.offset.1)),
                            },
                        )
                    } else {
                        Option::Some(MouseEvent { state: e.state, position: Option::None })
                    }
                }
            },
            Option::None => if matches!(e.state, MouseState::Pressed) {
                Option::None
            } else {
                Option::Some(MouseEvent { state: e.state, position: Option::None })
            },
        };
        out.push(sub);
        i = i + 1;
    }
    out
}

/// The index a position-bearing press goes to: the topmost child whose box
/// contains the pointer.
fn find_press_target(e: &MouseEvent, areas: &Vec<Area>) -> (r: Option<usize>)
    ensures
        match (e.state, e.position) {
            (MouseState::Pressed, Option::Some(p)) => match r {
                Option::Some(k) => k < areas@.len() && last_hit(areas@, p) == Option::Some(
                    k as int,
                ),
                Option::None => last_hit(areas@, p) is None,
            },
            _ => true,
        },
{
    let mut w: Option<usize> = Option::None;
    if let Option::Some(p) = e.position {
        if matches!(e.state, MouseState::Pressed) {
            let mut i: usize = 0;
            proof {
                assert(areas@.subrange(0, 0) =~= Seq::<Area>::empty());
            }
            while i < areas.len()
                invariant
                    i <= areas@.len(),
                    e.position == Option::Some(p),
                    match w {
                        Option::Some(k) => k < i && last_hit(areas@.subrange(0, i as int), p)
                            == Option::Some(k as int),
                        Option::None => last_hit(areas@.subrange(0, i as int), p) is None,
                    },
                decreases areas@.len() - i,
            {
                let a = areas[i];
                let inside = a.offset.0 <= p.0 && p.0 - a.offset.0 < a.size.0 && a.offset.1 <= p.1
                    && p.1 - a.offset.1 < a.size.1;
                proof {
                    let pre = areas@.subrange(0, i as int);
                    let post = areas@.subrange(0, i + 1);
                    assert(post.drop_last() =~= pre);
                    assert(post.last() == areas@[i as int]);
                }
                if inside {
                    w = Option::Some(i);
                }
                i = i + 1;
            }
            proof {
                assert(areas@.subrange(0, areas@.len() as int) =~= areas@);
            }
        }
    }
    w
}

impl Event {
    /// Distributes this event over the children's last-resolved boxes: one
    /// slot per child, hit-tested for spatial events, unchanged for the
    /// rest.
    pub fn split(&self, areas: &Vec<Area>) -> (r: Vec<Option<Event>>)
        ensures
            r@.len() == areas@.len(),
            forall|i: int| 0 <= i < r@.len() ==> r@[i] == spec_event_sub(*self, areas@, i),
    {
        match self {
            Event::Mouse(m) => {
                let subs = split_mouse(m, areas);
                let mut out: Vec<Option<Event>> = Vec::new();
                let mut i: usize = 0;
                while i < subs.len()
                    invariant
                        i <= subs@.len(),
                        out@.len() == i,
                        subs@.len() == areas@.len(),
                        forall|j: int| 0 <= j < subs@.len() ==> subs@[j] == spec_mouse_sub(
                            *m,
                            areas@,
                            j,
                        ),
                        *self == Event::Mouse(*m),
                        forall|j: int| 0 <= j < i ==> out@[j] == spec_event_sub(*self, areas@, j),
                    decreases subs@.len() - i,
                {
                    let sub = match subs[i] {
                        Option::Some(m2) => Option::Some(Event::Mouse(m2)),
                        Option::None => Option::None,
                    };
                    out.push(sub);
                    i = i + 1;
                }
                out
            },
            _ => {
                let mut out: Vec<Option<Event>> = Vec::new();
                let mut i: usize = 0;
                while i < areas.len()
                    invariant
                        i <= areas@.len(),
                        out@.len() == i,
                        !(*self is Mouse),
                        forall|j: int| 0 <= j < i ==> out@[j] == spec_event_sub(*self, areas@, j),
                    decreases areas@.len() - i,
                {
                    out.push(Option::Some(*self));
                    i = i + 1;
                }
                out
            },
        }
    }
}

} // verus!
