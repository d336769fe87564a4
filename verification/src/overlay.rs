//! The overlay strategy: all children share the allotted box, each aligned
//! independently on each axis.  `Stack` is the configurable form (alignment,
//! per-axis size override, padding); `DefaultStack` is the bare form that
//! hugs its children.

use vstd::prelude::*;
use crate::constraint::{clamp_dim, dim_add, dim_sub, sat_add, sat_sub, Area, SizeRequest, DIM_MAX};
use crate::custom::CustomRule;

verus! {

/// How a child is placed along one axis of the space left to it.
#[derive(Clone, Copy, Debug, PartialEq, Eq, Structural)]
pub enum Offset {
    /// Flush with the leading edge.
    Start,
    /// Centred in the remaining space.
    Center,
    /// Flush with the trailing edge.
    End,
    /// At a fixed distance from the leading edge (pulled in when it would
    /// overhang).
    Static(u32),
}

/// Space reserved inside a node's box: (left, top, right, bottom).
#[derive(Clone, Copy, Debug, PartialEq, Eq, Structural)]
pub struct Padding(pub u32, pub u32, pub u32, pub u32);

impl Padding {
    /// Uniform padding on all four sides.
    pub fn new(v: u32) -> (r: Padding)
        ensures
            r == (Padding(v, v, v, v)),
    {
        Padding(v, v, v, v)
    }

    /// No padding.
    pub fn none() -> (r: Padding)
        ensures
            r == (Padding(0, 0, 0, 0)),
    {
        Padding(0, 0, 0, 0)
    }
}

/// A node's own size rule on one axis.
#[derive(Clone, Copy, Debug, PartialEq, Eq, Structural)]
pub enum Size {
    /// Hug: the range the children negotiated, plus padding.
    Fit,
    /// Accept anything: `[0, DIM_MAX]`.
    Fill,
    /// Exactly this many units.
    Static(u32),
    /// A custom rule over the children's (min, max) pairs.
    Custom(CustomRule),
}

/// Where an aligned child starts along one axis, given `avail` units of space
/// and a child of `size` units.  A child at least as large as the space sits
/// at the leading edge.
pub open spec fn spec_align(off: Offset, avail: int, size: int) -> int {
    if size >= avail {
        0
    } else {
        match off {
            Offset::Start => 0,
            Offset::Center => (avail - size) / 2,
            Offset::End => avail - size,
            Offset::Static(v) => if v > avail - size {
                avail - size
            } else {
                v as int
            },
        }
    }
}

/// Alignment keeps the child inside the available space.
pub proof fn lemma_align_within(off: Offset, avail: int, size: int)
    requires
        0 <= size,
        0 <= avail,
    ensures
        0 <= spec_align(off, avail, size),
        size < avail ==> spec_align(off, avail, size) + size <= avail,
{
}

/// Executable form of `spec_align`.
pub fn align_offset(off: Offset, avail: u32, size: u32) -> (r: u32)
    ensures
        r == spec_align(off, avail as int, size as int),
{
    if size >= avail {
        0
    } else {
        let room = avail - size;
        match off {
            Offset::Start => 0,
            Offset::Center => room / 2,
            Offset::End => room,
            Offset::Static(v) => if v > room {
                room
            } else {
                v
            },
        }
    }
}

/// One axis of an overlaid child's box: offset and size along that axis.
/// The child is clamped into its own range, clipped to the available space,
/// aligned there, and finally pulled in so the box never leaves the parent.
pub open spec fn spec_overlay_axis(
    off: Offset,
    pad_start: int,
    pad_end: int,
    child_min: int,
    child_max: int,
    total: int,
) -> (int, int) {
    let avail = sat_sub(total, pad_start + pad_end);
    let fitted = clamp_dim(child_min, child_max, avail);
    let size = if fitted > avail {
        avail
    } else {
        fitted
    };
    let start = sat_add(pad_start, spec_align(off, avail, size));
    if start + size > total {
        (total - size, size)
    } else {
        (start, size)
    }
}

/// The overlaid box stays inside the parent on this axis.
pub proof fn lemma_overlay_axis_within(
    off: Offset,
    pad_start: int,
    pad_end: int,
    child_min: int,
    child_max: int,
    total: int,
)
    requires
        0 <= pad_start,
        0 <= pad_end,
        0 <= child_min,
        0 <= child_max,
        0 <= total,
    ensures
        0 <= spec_overlay_axis(off, pad_start, pad_end, child_min, child_max, total).0,
        0 <= spec_overlay_axis(off, pad_start, pad_end, child_min, child_max, total).1,
        spec_overlay_axis(off, pad_start, pad_end, child_min, child_max, total).0
            + spec_overlay_axis(off, pad_start, pad_end, child_min, child_max, total).1 <= total,
{
    let avail = sat_sub(total, pad_start + pad_end);
    let fitted = clamp_dim(child_min, child_max, avail);
    let size = if fitted > avail {
        avail
    } else {
        fitted
    };
    lemma_align_within(off, avail, size);
}

/// Executable form of `spec_overlay_axis`.
pub fn overlay_axis(off: Offset, pad_start: u32, pad_end: u32, child_min: u32, child_max: u32, total: u32) -> (r: (
    u32,
    u32,
))
    ensures
        (r.0 as int, r.1 as int) == spec_overlay_axis(
            off,
            pad_start as int,
            pad_end as int,
            child_min as int,
            child_max as int,
            total as int,
        ),
        r.0 + r.1 <= total,
{
    proof {
        lemma_overlay_axis_within(
            off,
            pad_start as int,
            pad_end as int,
            child_min as int,
            child_max as int,
            total as int,
        );
    }
    let avail = dim_sub(total, dim_add(pad_start, pad_end));
    let fitted = {
        let lifted = if avail < child_min {
            child_min
        } else {
            avail
        };
        if lifted > child_max {
            child_max
        } else {
            lifted
        }
    };
    let size = if fitted > avail {
        avail
    } else {
        fitted
    };
    let start = dim_add(pad_start, align_offset(off, avail, size));
    if start > total - size {
        (total - size, size)
    } else {
        (start, size)
    }
}

/// Componentwise maximum of a prefix of size requests, the overlay's
/// negotiated base: large enough for every child.
pub open spec fn max_fold(children: Seq<SizeRequest>) -> SizeRequest
    decreases children.len(),
{
    if children.len() == 0 {
        SizeRequest { min_width: 0, min_height: 0, max_width: 0, max_height: 0 }
    } else {
        max_fold(children.drop_last()).spec_max(children.last())
    }
}

/// Componentwise maximum of a whole list, executable form.
pub fn fold_requests(children: &Vec<SizeRequest>) -> (r: SizeRequest)
    requires
        forall|i: int| 0 <= i < children@.len() ==> (#[trigger] children@[i]).wf(),
    ensures
        r == max_fold(children@),
        r.wf(),
{
    let mut acc = SizeRequest::new(0, 0, 0, 0);
    let mut i: usize = 0;
    proof {
        assert(children@.subrange(0, 0) =~= Seq::<SizeRequest>::empty());
    }
    while i < children.len()
        invariant
            i <= children@.len(),
            forall|j: int| 0 <= j < children@.len() ==> (#[trigger] children@[j]).wf(),
            acc == max_fold(children@.subrange(0, i as int)),
            acc.wf(),
        decreases children@.len() - i,
    {
        let c = children[i];
        acc = acc.max(&c);
        proof {
            assert(children@.subrange(0, i + 1).drop_last() =~= children@.subrange(0, i as int));
            assert(children@.subrange(0, i + 1).last() == children@[i as int]);
        }
        i = i + 1;
    }
    proof {
        assert(children@.subrange(0, children@.len() as int) =~= children@);
    }
    acc
}

/// The configurable overlay strategy: horizontal and vertical alignment, one
/// size rule per axis, and padding.
#[derive(Clone, Copy, Debug)]
pub struct Stack(pub Offset, pub Offset, pub Size, pub Size, pub Padding);

impl Stack {
    /// Start-aligned, hugging, unpadded.
    pub fn default() -> (r: Stack)
        ensures
            r == (Stack(Offset::Start, Offset::Start, Size::Fit, Size::Fit, Padding(0, 0, 0, 0))),
    {
        Stack(Offset::Start, Offset::Start, Size::Fit, Size::Fit, Padding(0, 0, 0, 0))
    }

    /// The custom rule on this axis is applicable: its child index exists and
    /// it yields an ordered range.
    pub open spec fn axis_rule_ok(size: Size, pairs: Seq<(u32, u32)>) -> bool {
        size matches Size::Custom(rule) ==> rule.child() < pairs.len() && rule.spec_ordered(
            pairs[rule.child() as int].0,
            pairs[rule.child() as int].1,
        )
    }

    /// One axis of the stack's own request.
    pub open spec fn spec_axis_request(
        size: Size,
        base_min: int,
        base_max: int,
        pad_start: int,
        pad_end: int,
        pairs: Seq<(u32, u32)>,
    ) -> (u32, u32) {
        match size {
            Size::Fit => (
                sat_add(base_min, pad_start + pad_end) as u32,
                sat_add(base_max, pad_start + pad_end) as u32,
            ),
            Size::Fill => (0u32, DIM_MAX),
            Size::Static(v) => (v, v),
            Size::Custom(rule) => rule.spec_apply(
                pairs[rule.child() as int].0,
                pairs[rule.child() as int].1,
            ),
        }
    }

    /// The stack's own request: the componentwise maximum of the children
    /// plus padding, overridden per axis by the size rule.
    pub open spec fn spec_request(self, children: Seq<SizeRequest>) -> SizeRequest {
        let base = max_fold(children);
        let w = Stack::spec_axis_request(
            self.2,
            base.min_width as int,
            base.max_width as int,
            self.4.0 as int,
            self.4.2 as int,
            children.map_values(|c: SizeRequest| (c.min_width, c.max_width)),
        );
        let h = Stack::spec_axis_request(
            self.3,
            base.min_height as int,
            base.max_height as int,
            self.4.1 as int,
            self.4.3 as int,
            children.map_values(|c: SizeRequest| (c.min_height, c.max_height)),
        );
        SizeRequest { min_width: w.0, min_height: h.0, max_width: w.1, max_height: h.1 }
    }

    /// Negotiates the stack's own size range from its children's.
    pub fn request_size(&self, children: &Vec<SizeRequest>) -> (r: SizeRequest)
        requires
            forall|i: int| 0 <= i < children@.len() ==> (#[trigger] children@[i]).wf(),
            Stack::axis_rule_ok(
                self.2,
                children@.map_values(|c: SizeRequest| (c.min_width, c.max_width)),
            ),
            Stack::axis_rule_ok(
                self.3,
                children@.map_values(|c: SizeRequest| (c.min_height, c.max_height)),
            ),
        ensures
            r == self.spec_request(children@),
            r.wf(),
    {
        let base = fold_requests(children);
        let ghost wpairs = children@.map_values(|c: SizeRequest| (c.min_width, c.max_width));
        let ghost hpairs = children@.map_values(|c: SizeRequest| (c.min_height, c.max_height));
        let (min_width, max_width) = match &self.2 {
            Size::Fit => (
                dim_add(base.min_width(), dim_add(self.4.0, self.4.2)),
                dim_add(base.max_width(), dim_add(self.4.0, self.4.2)),
            ),
            Size::Fill => (0u32, DIM_MAX),
            Size::Static(v) => (*v, *v),
            Size::Custom(rule) => {
                let mut pairs: Vec<(u32, u32)> = Vec::new();
                let mut i: usize = 0;
                while i < children.len()
                    invariant
                        i <= children@.len(),
                        pairs@ =~= wpairs.subrange(0, i as int),
                        wpairs == children@.map_values(|c: SizeRequest| (c.min_width, c.max_width)),
                    decreases children@.len() - i,
                {
                    let c = children[i];
                    pairs.push((c.min_width(), c.max_width()));
                    i = i + 1;
                }
                proof {
                    assert(pairs@ =~= wpairs);
                }
                rule.apply(&pairs)
            },
        };
        let (min_height, max_height) = match &self.3 {
            Size::Fit => (
                dim_add(base.min_height(), dim_add(self.4.1, self.4.3)),
                dim_add(base.max_height(), dim_add(self.4.1, self.4.3)),
            ),
            Size::Fill => (0u32, DIM_MAX),
            Size::Static(v) => (*v, *v),
            Size::Custom(rule) => {
                let mut pairs: Vec<(u32, u32)> = Vec::new();
                let mut i: usize = 0;
                while i < children.len()
                    invariant
                        i <= children@.len(),
                        pairs@ =~= hpairs.subrange(0, i as int),
                        hpairs == children@.map_values(
                            |c: SizeRequest| (c.min_height, c.max_height),
                        ),
                    decreases children@.len() - i,
                {
                    let c = children[i];
                    pairs.push((c.min_height(), c.max_height()));
                    i = i + 1;
                }
                proof {
                    assert(pairs@ =~= hpairs);
                }
                rule.apply(&pairs)
            },
        };
        SizeRequest { min_width, min_height, max_width, max_height }
    }

    /// The box an overlaid child with request `c` receives inside `allotted`.
    pub open spec fn spec_child_area(self, allotted: (u32, u32), c: SizeRequest) -> Area {
        let w = spec_overlay_axis(
            self.0,
            self.4.0 as int,
            self.4.2 as int,
            c.min_width as int,
            c.max_width as int,
            allotted.0 as int,
        );
        let h = spec_overlay_axis(
            self.1,
            self.4.1 as int,
            self.4.3 as int,
            c.min_height as int,
            c.max_height as int,
            allotted.1 as int,
        );
        Area { offset: (w.0 as u32, h.0 as u32), size: (w.1 as u32, h.1 as u32) }
    }

    /// Places every child in the shared allotted box: one `Area` per child,
    /// in order, each inside the box.
    pub fn build(&self, allotted: (u32, u32), children: &Vec<SizeRequest>) -> (r: Vec<Area>)
        ensures
            r@.len() == children@.len(),
            forall|i: int| 0 <= i < r@.len() ==> r@[i] == self.spec_child_area(
                allotted,
                children@[i],
            ),
            forall|i: int| 0 <= i < r@.len() ==> (#[trigger] r@[i]).within(allotted),
    {
        let mut out: Vec<Area> = Vec::new();
        let mut i: usize = 0;
        while i < children.len()
            invariant
                i <= children@.len(),
                out@.len() == i,
                forall|j: int| 0 <= j < i ==> out@[j] == self.spec_child_area(
                    allotted,
                    children@[j],
                ),
                forall|j: int| 0 <= j < i ==> (#[trigger] out@[j]).within(allotted),
            decreases children@.len() - i,
        {
            let c = children[i];
            let (x, w) = overlay_axis(
                self.0,
                self.4.0,
                self.4.2,
                c.min_width,
                c.max_width,
                allotted.0,
            );
            let (y, h) = overlay_axis(
                self.1,
                self.4.1,
                self.4.3,
                c.min_height,
                c.max_height,
                allotted.1,
            );
            out.push(Area { offset: (x, y), size: (w, h) });
            i = i + 1;
        }
        out
    }
}

/// The bare overlay: every child starts at the origin of the allotted box and
/// is clamped into it; the node's own request is the componentwise maximum of
/// its children's.
#[derive(Clone, Copy, Debug)]
pub struct DefaultStack;

impl DefaultStack {
    /// Negotiates the stack's request: the componentwise maximum of the
    /// children's.  An overlay with nothing to overlay asks for the neutral
    /// zero range; negotiation never fails.
    pub fn request_size(&self, children: &Vec<SizeRequest>) -> (r: SizeRequest)
        requires
            forall|i: int| 0 <= i < children@.len() ==> (#[trigger] children@[i]).wf(),
        ensures
            r == max_fold(children@),
            r.wf(),
    {
        fold_requests(children)
    }

    /// Places every child at the origin, clamped into its range and clipped
    /// to the allotted box.
    pub fn build(&self, allotted: (u32, u32), children: &Vec<SizeRequest>) -> (r: Vec<Area>)
        ensures
            r@.len() == children@.len(),
            forall|i: int| 0 <= i < r@.len() ==> r@[i] == (Stack(
                Offset::Start,
                Offset::Start,
                Size::Fit,
                Size::Fit,
                Padding(0, 0, 0, 0),
            )).spec_child_area(allotted, children@[i]),
            forall|i: int| 0 <= i < r@.len() ==> (#[trigger] r@[i]).within(allotted),
    {
        Stack::default().build(allotted, children)
    }
}

} // verus!
