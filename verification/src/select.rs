//! Selection groups: mutual exclusion by broadcast and identity comparison,
//! with no shared owning collection.  Clicking a member broadcasts (its
//! identity, its group identity); every member of that group then sets its
//! own flag by comparing identities.

use vstd::prelude::*;
use crate::event::{MouseEvent, MouseState, SelectableEvent};
use crate::ids::ElementID;

verus! {

/// One member of a selection group.
#[derive(Clone, Copy, Debug)]
pub struct Selectable {
    pub id: ElementID,
    pub group: ElementID,
    pub selected: bool,
}

/// What one member looks like after a selection broadcast: members of the
/// named group compare identities; everyone else is untouched.
pub open spec fn spec_apply_select(m: Selectable, ev: SelectableEvent) -> Selectable {
    if m.group == ev.1 {
        Selectable { id: m.id, group: m.group, selected: m.id == ev.0 }
    } else {
        m
    }
}

impl Selectable {
    /// A member with a fresh identity in the given group.
    pub fn new(is_selected: bool, group: ElementID) -> (r: Selectable)
        ensures
            r.group == group,
            r.selected == is_selected,
    {
        Selectable { id: ElementID::new(), group, selected: is_selected }
    }

    /// A member with a caller-chosen identity, for deterministic wiring.
    pub fn with_id(id: ElementID, group: ElementID, is_selected: bool) -> (r: Selectable)
        ensures
            r == (Selectable { id, group, selected: is_selected }),
    {
        Selectable { id, group, selected: is_selected }
    }

    /// Feeds one pointer event through.  A press inside bounds is the
    /// activation: the callback fires and this broadcast goes out to the
    /// whole tree.
    pub fn handle(&self, e: &MouseEvent) -> (r: Option<SelectableEvent>)
        ensures
            e.state is Pressed && e.position is Some ==> r == Option::Some(
                SelectableEvent(self.id, self.group),
            ),
            !(e.state is Pressed && e.position is Some) ==> r is None,
    {
        if matches!(e.state, MouseState::Pressed) && e.position.is_some() {
            Option::Some(SelectableEvent(self.id, self.group))
        } else {
            Option::None
        }
    }

    /// Receives a selection broadcast: members of the named group set their
    /// flag to "the chosen identity is mine"; other groups ignore it.
    pub fn apply(&mut self, ev: &SelectableEvent)
        ensures
            *final(self) == spec_apply_select(*old(self), *ev),
    {
        if self.group.raw == ev.1.raw {
            self.selected = self.id.raw == ev.0.raw;
        }
    }
}

/// Delivers one selection broadcast to every member of a list, as the
/// dispatch pass does when the event fans out.
pub fn broadcast_select(members: &mut Vec<Selectable>, ev: &SelectableEvent)
    ensures
        final(members)@.len() == old(members)@.len(),
        forall|i: int| 0 <= i < final(members)@.len() ==> final(members)@[i] == spec_apply_select(
            old(members)@[i],
            *ev,
        ),
{
    let mut i: usize = 0;
    while i < members.len()
        invariant
            i <= members@.len(),
            members@.len() == old(members)@.len(),
            forall|j: int| 0 <= j < i ==> members@[j] == spec_apply_select(old(members)@[j], *ev),
            forall|j: int| i <= j < members@.len() ==> members@[j] == old(members)@[j],
        decreases members@.len() - i,
    {
        let group_hit = members[i].group.raw == ev.1.raw;
        if group_hit {
            let chosen = members[i].id.raw == ev.0.raw;
            let m = members[i];
            members.set(i, Selectable { id: m.id, group: m.group, selected: chosen });
        }
        i = i + 1;
    }
}

/// How many members of group `g` in the list are selected.
pub open spec fn sel_count(ms: Seq<Selectable>, g: ElementID) -> int
    decreases ms.len(),
{
    if ms.len() == 0 {
        0
    } else {
        sel_count(ms.drop_last(), g) + if ms.last().group == g && ms.last().selected {
            1int
        } else {
            0int
        }
    }
}

/// How many members of group `g` carry identity `ident`.
pub open spec fn match_count(ms: Seq<Selectable>, g: ElementID, ident: ElementID) -> int
    decreases ms.len(),
{
    if ms.len() == 0 {
        0
    } else {
        match_count(ms.drop_last(), g, ident) + if ms.last().group == g && ms.last().id == ident {
            1int
        } else {
            0int
        }
    }
}

/// Identities are unique within group `g`.
pub open spec fn ids_unique(ms: Seq<Selectable>, g: ElementID) -> bool {
    forall|i: int, j: int|
        0 <= i < j < ms.len() && ms[i].group == g && ms[j].group == g ==> ms[i].id != ms[j].id
}

/// After a broadcast, a member of the group is selected exactly when it
/// carries the chosen identity.
proof fn lemma_count_after(ms: Seq<Selectable>, ev: SelectableEvent)
    ensures
        sel_count(ms.map_values(|m: Selectable| spec_apply_select(m, ev)), ev.1) == match_count(
            ms,
            ev.1,
            ev.0,
        ),
    decreases ms.len(),
{
    let after = ms.map_values(|m: Selectable| spec_apply_select(m, ev));
    if ms.len() > 0 {
        assert(after.drop_last() =~= ms.drop_last().map_values(
            |m: Selectable| spec_apply_select(m, ev),
        ));
        assert(after.last() == spec_apply_select(ms.last(), ev));
        lemma_count_after(ms.drop_last(), ev);
    }
}

/// A list with no member matching (group, identity) has a zero match count.
proof fn lemma_match_count_zero(ms: Seq<Selectable>, g: ElementID, ident: ElementID)
    requires
        forall|i: int| 0 <= i < ms.len() ==> !((#[trigger] ms[i]).group == g && ms[i].id == ident),
    ensures
        match_count(ms, g, ident) == 0,
    decreases ms.len(),
{
    if ms.len() > 0 {
        lemma_match_count_zero(ms.drop_last(), g, ident);
    }
}

/// With identities unique in the group and the chosen identity present, the
/// match count is exactly one.
proof fn lemma_match_count_one(ms: Seq<Selectable>, g: ElementID, ident: ElementID, w: int)
    requires
        ids_unique(ms, g),
        0 <= w < ms.len(),
        ms[w].group == g,
        ms[w].id == ident,
    ensures
        match_count(ms, g, ident) == 1,
    decreases ms.len(),
{
    let last = ms.last();
    if w == ms.len() - 1 {
        assert forall|i: int| 0 <= i < ms.drop_last().len() implies !((#[trigger] ms.drop_last()[i]).group
            == g && ms.drop_last()[i].id == ident) by {
            assert(ms[i] == ms.drop_last()[i]);
        }
        lemma_match_count_zero(ms.drop_last(), g, ident);
    } else {
        assert(!(last.group == g && last.id == ident));
        assert(ms.drop_last()[w] == ms[w]);
        assert(ids_unique(ms.drop_last(), g)) by {
            assert forall|i: int, j: int|
                0 <= i < j < ms.drop_last().len() && ms.drop_last()[i].group == g
                    && ms.drop_last()[j].group == g implies ms.drop_last()[i].id != ms.drop_last()[j].id by {
                assert(ms[i] == ms.drop_last()[i]);
                assert(ms[j] == ms.drop_last()[j]);
            }
        }
        lemma_match_count_one(ms.drop_last(), g, ident, w);
    }
}

/// Selection mutual exclusivity: after a broadcast for group `g` choosing an
/// identity that exactly one member of `g` carries (identities being unique
/// within the group), exactly one member of `g` is selected — that one.
pub proof fn lemma_selection_exclusive(ms: Seq<Selectable>, ev: SelectableEvent, w: int)
    requires
        ids_unique(ms, ev.1),
        0 <= w < ms.len(),
        ms[w].group == ev.1,
        ms[w].id == ev.0,
    ensures
        sel_count(ms.map_values(|m: Selectable| spec_apply_select(m, ev)), ev.1) == 1,
        forall|i: int| 0 <= i < ms.len() ==> (spec_apply_select(#[trigger] ms[i], ev).group == ev.1
            && spec_apply_select(ms[i], ev).selected <==> ms[i].group == ev.1 && ms[i].id == ev.0),
{
    lemma_count_after(ms, ev);
    lemma_match_count_one(ms, ev.1, ev.0, w);
}

/// A radio-style column: one selection group, at most one member selected.
#[derive(Clone, Debug)]
pub struct RadioSelector {
    pub items: Vec<Selectable>,
}

impl RadioSelector {
    /// A group of `count` members with fresh identities, the one at `index`
    /// initially selected.
    pub fn new(count: usize, index: usize) -> (r: RadioSelector)
        ensures
            r.items@.len() == count,
            forall|i: int| 0 <= i < count ==> (#[trigger] r.items@[i]).selected == (i
                == index as int),
            forall|i: int, j: int| 0 <= i < count && 0 <= j < count ==> r.items@[i].group
                == r.items@[j].group,
    {
        let group = ElementID::new();
        let mut items: Vec<Selectable> = Vec::new();
        let mut i: usize = 0;
        while i < count
            invariant
                i <= count,
                items@.len() == i,
                forall|j: int| 0 <= j < i ==> (#[trigger] items@[j]).selected == (j
                    == index as int),
                forall|j: int| 0 <= j < i ==> (#[trigger] items@[j]).group == group,
            decreases count - i,
        {
            items.push(Selectable::new(i == index, group));
            i = i + 1;
        }
        RadioSelector { items }
    }

    /// Receives a selection broadcast for the whole column.
    pub fn apply(&mut self, ev: &SelectableEvent)
        ensures
            final(self).items@.len() == old(self).items@.len(),
            forall|i: int| 0 <= i < final(self).items@.len() ==> final(self).items@[i]
                == spec_apply_select(old(self).items@[i], *ev),
    {
        broadcast_select(&mut self.items, ev);
    }
}

} // verus!
