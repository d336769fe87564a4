//! Navigator wiring: the selection entries behind a navigation bar.  Every
//! entry joins one shared selection group with the first root active; the
//! desktop bar additionally partitions entries into a top column (icon
//! entries) and a bottom column (avatar entries), keeping declaration order
//! within each.

use vstd::prelude::*;
use crate::ids::ElementID;
use crate::select::Selectable;

verus! {

/// The positions in `bs` holding `want`, in order.
pub open spec fn indices_of(bs: Seq<bool>, want: bool) -> Seq<int>
    decreases bs.len(),
{
    if bs.len() == 0 {
        Seq::empty()
    } else if bs.last() == want {
        indices_of(bs.drop_last(), want).push(bs.len() - 1)
    } else {
        indices_of(bs.drop_last(), want)
    }
}

/// A navigation bar's selection entries, and how the desktop bar splits
/// them into its two columns.
#[derive(Debug)]
pub struct NavigatorWiring {
    pub buttons: Vec<Selectable>,
    pub top: Vec<usize>,
    pub bottom: Vec<usize>,
}

/// Wires a desktop navigator from the roots' avatar flags: one selection
/// entry per root in a single fresh group, the first root selected, icon
/// entries listed for the top column and avatar entries for the bottom,
/// each in declaration order.
pub fn desktop_navigator(has_avatar: &Vec<bool>) -> (r: NavigatorWiring)
    ensures
        r.buttons@.len() == has_avatar@.len(),
        forall|i: int, j: int| 0 <= i < r.buttons@.len() && 0 <= j < r.buttons@.len()
            ==> r.buttons@[i].group == r.buttons@[j].group,
        forall|i: int| 0 <= i < r.buttons@.len() ==> (#[trigger] r.buttons@[i]).selected == (i
            == 0),
        r.top@.map_values(|v: usize| v as int) == indices_of(has_avatar@, false),
        r.bottom@.map_values(|v: usize| v as int) == indices_of(has_avatar@, true),
{
    let group = ElementID::new();
    let mut buttons: Vec<Selectable> = Vec::new();
    let mut top: Vec<usize> = Vec::new();
    let mut bottom: Vec<usize> = Vec::new();
    let mut i: usize = 0;
    proof {
        assert(has_avatar@.subrange(0, 0) =~= Seq::<bool>::empty());
    }
    while i < has_avatar.len()
        invariant
            i <= has_avatar@.len(),
            buttons@.len() == i,
            forall|j: int| 0 <= j < i ==> (#[trigger] buttons@[j]).group == group,
            forall|j: int| 0 <= j < i ==> (#[trigger] buttons@[j]).selected == (j == 0),
            top@.map_values(|v: usize| v as int) == indices_of(
                has_avatar@.subrange(0, i as int),
                false,
            ),
            bottom@.map_values(|v: usize| v as int) == indices_of(
                has_avatar@.subrange(0, i as int),
                true,
            ),
        decreases has_avatar@.len() - i,
    {
        buttons.push(Selectable::new(i == 0, group));
        let ghost pre = has_avatar@.subrange(0, i as int);
        let ghost post = has_avatar@.subrange(0, i + 1);
        if has_avatar[i] {
            bottom.push(i);
        } else {
            top.push(i);
        }
        proof {
            assert(post.drop_last() =~= pre);
            assert(post.last() == has_avatar@[i as int]);
            if has_avatar@[i as int] {
                assert(bottom@.map_values(|v: usize| v as int) =~= indices_of(post, true));
                assert(top@.map_values(|v: usize| v as int) =~= indices_of(post, false));
            } else {
                assert(top@.map_values(|v: usize| v as int) =~= indices_of(post, false));
                assert(bottom@.map_values(|v: usize| v as int) =~= indices_of(post, true));
            }
        }
        i = i + 1;
    }
    proof {
        assert(has_avatar@.subrange(0, has_avatar@.len() as int) =~= has_avatar@);
    }
    NavigatorWiring { buttons, top, bottom }
}

} // verus!
