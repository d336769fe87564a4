//! The sequential strategy: children placed one after another along a main
//! axis with fixed spacing and padding.  A child whose main-axis max is
//! unbounded is a "fill" child and receives an equal share of the space left
//! after the hugged children; every other child hugs its own requested size.
//! The cross axis behaves like a one-child overlay per child.

use vstd::prelude::*;
use crate::constraint::{dim_add, dim_sub, sat_add, sat_sub, Area, SizeRequest, DIM_MAX};
use crate::overlay::{max_fold, fold_requests, overlay_axis, spec_overlay_axis, Offset, Padding, Size};

verus! {

/// The direction children are laid out in.
#[derive(Clone, Copy, Debug, PartialEq, Eq, Structural)]
pub enum Axis {
    Horizontal,
    Vertical,
}

/// Caps a dimension sum at the saturation bound.
pub open spec fn cap(x: int) -> int {
    if x > DIM_MAX { DIM_MAX as int } else { x }
}

/// A child's main-axis minimum.
pub open spec fn main_min(c: SizeRequest, axis: Axis) -> u32 {
    match axis {
        Axis::Horizontal => c.min_width,
        Axis::Vertical => c.min_height,
    }
}

/// A child's main-axis maximum.
pub open spec fn main_max(c: SizeRequest, axis: Axis) -> u32 {
    match axis {
        Axis::Horizontal => c.max_width,
        Axis::Vertical => c.max_height,
    }
}

/// A child's cross-axis minimum.
pub open spec fn cross_min(c: SizeRequest, axis: Axis) -> u32 {
    match axis {
        Axis::Horizontal => c.min_height,
        Axis::Vertical => c.min_width,
    }
}

/// A child's cross-axis maximum.
pub open spec fn cross_max(c: SizeRequest, axis: Axis) -> u32 {
    match axis {
        Axis::Horizontal => c.max_height,
        Axis::Vertical => c.max_width,
    }
}

/// A fill child: unbounded on the main axis, so it shares the leftover space.
pub open spec fn is_fill(c: SizeRequest, axis: Axis) -> bool {
    main_max(c, axis) == DIM_MAX
}

/// Saturating sum of the hugged (non-fill) children's main maxima over a
/// prefix is built from this unsaturated sum.
pub open spec fn hug_sum(cs: Seq<SizeRequest>, axis: Axis) -> int
    decreases cs.len(),
{
    if cs.len() == 0 {
        0
    } else {
        hug_sum(cs.drop_last(), axis) + if is_fill(cs.last(), axis) {
            0
        } else {
            main_max(cs.last(), axis) as int
        }
    }
}

/// Unsaturated sum of all children's main minima.
pub open spec fn min_sum(cs: Seq<SizeRequest>, axis: Axis) -> int
    decreases cs.len(),
{
    if cs.len() == 0 {
        0
    } else {
        min_sum(cs.drop_last(), axis) + main_min(cs.last(), axis) as int
    }
}

/// Unsaturated sum of all children's main maxima (saturates naturally once a
/// fill child contributes `DIM_MAX`).
pub open spec fn max_sum(cs: Seq<SizeRequest>, axis: Axis) -> int
    decreases cs.len(),
{
    if cs.len() == 0 {
        0
    } else {
        max_sum(cs.drop_last(), axis) + main_max(cs.last(), axis) as int
    }
}

/// How many of the first `i` children are fill children.
pub open spec fn fills_before(cs: Seq<SizeRequest>, axis: Axis, i: int) -> int
    decreases i,
{
    if i <= 0 {
        0
    } else {
        fills_before(cs, axis, i - 1) + if is_fill(cs[i - 1], axis) {
            1int
        } else {
            0int
        }
    }
}

/// The number of fill children in the whole list.
pub open spec fn fill_count(cs: Seq<SizeRequest>, axis: Axis) -> int {
    fills_before(cs, axis, cs.len() as int)
}

/// The prefix fill count grows by at most one per child.
pub proof fn lemma_fills_mono(cs: Seq<SizeRequest>, axis: Axis, i: int, j: int)
    requires
        0 <= i <= j,
    ensures
        fills_before(cs, axis, i) <= fills_before(cs, axis, j),
        fills_before(cs, axis, j) - fills_before(cs, axis, i) <= j - i,
    decreases j - i,
{
    if i < j {
        lemma_fills_mono(cs, axis, i, j - 1);
    }
}

/// Total spacing consumed by `n` children: one gap per adjacent pair, capped.
pub open spec fn spacing_total(spacing: int, n: int) -> int {
    if n <= 1 {
        0
    } else {
        cap(spacing * (n - 1))
    }
}

/// The space left on the main axis for the fill children.
pub open spec fn spec_remaining(self_: Linear, allotted_main: int, cs: Seq<SizeRequest>) -> int {
    let pad = pad_main_start(self_) + pad_main_end(self_);
    let budget = sat_sub(allotted_main, pad);
    sat_sub(
        budget,
        sat_add(spacing_total(self_.spacing as int, cs.len() as int), cap(hug_sum(cs, self_.axis))),
    )
}

/// Padding before the first child on the main axis.
pub open spec fn pad_main_start(l: Linear) -> int {
    match l.axis {
        Axis::Horizontal => l.padding.0 as int,
        Axis::Vertical => l.padding.1 as int,
    }
}

/// Padding after the last child on the main axis.
pub open spec fn pad_main_end(l: Linear) -> int {
    match l.axis {
        Axis::Horizontal => l.padding.2 as int,
        Axis::Vertical => l.padding.3 as int,
    }
}

/// Padding before a child on the cross axis.
pub open spec fn pad_cross_start(l: Linear) -> int {
    match l.axis {
        Axis::Horizontal => l.padding.1 as int,
        Axis::Vertical => l.padding.0 as int,
    }
}

/// Padding after a child on the cross axis.
pub open spec fn pad_cross_end(l: Linear) -> int {
    match l.axis {
        Axis::Horizontal => l.padding.3 as int,
        Axis::Vertical => l.padding.2 as int,
    }
}

/// Child `i`'s main-axis size before clipping: its fair share of the
/// remaining space if it fills (the first `rem % nf` fill children absorb the
/// rounding), its own requested maximum if it hugs.
pub open spec fn child_main(cs: Seq<SizeRequest>, axis: Axis, i: int, rem: int, nf: int) -> int {
    if is_fill(cs[i], axis) {
        rem / nf + if fills_before(cs, axis, i) < rem % nf {
            1int
        } else {
            0int
        }
    } else {
        main_max(cs[i], axis) as int
    }
}

/// Where child `i` starts on the main axis before clipping: padding plus the
/// sizes and gaps of everything before it (saturating).
pub open spec fn main_offset(
    cs: Seq<SizeRequest>,
    axis: Axis,
    i: int,
    pad_start: int,
    spacing: int,
    rem: int,
    nf: int,
) -> int
    decreases i,
{
    if i <= 0 {
        pad_start
    } else {
        sat_add(
            main_offset(cs, axis, i - 1, pad_start, spacing, rem, nf),
            sat_add(child_main(cs, axis, i - 1, rem, nf), spacing),
        )
    }
}

/// The sequential strategy: a main axis, one gap width, a cross-axis
/// alignment, a main-axis size rule for the node itself, and padding.
#[derive(Clone, Copy, Debug)]
pub struct Linear {
    pub axis: Axis,
    pub spacing: u32,
    pub cross_align: Offset,
    pub main_size: Size,
    pub padding: Padding,
}

impl Linear {
    /// A horizontal sequence.
    pub fn row(spacing: u32, cross_align: Offset, main_size: Size, padding: Padding) -> (r: Linear)
        ensures
            r == (Linear { axis: Axis::Horizontal, spacing, cross_align, main_size, padding }),
    {
        Linear { axis: Axis::Horizontal, spacing, cross_align, main_size, padding }
    }

    /// A vertical sequence.
    pub fn column(spacing: u32, cross_align: Offset, main_size: Size, padding: Padding) -> (r:
        Linear)
        ensures
            r == (Linear { axis: Axis::Vertical, spacing, cross_align, main_size, padding }),
    {
        Linear { axis: Axis::Vertical, spacing, cross_align, main_size, padding }
    }

    /// The main-axis (min, max) pair of the node's own request before the
    /// size rule: sums of the children's bounds plus spacing and padding.
    pub open spec fn spec_main_request(self, cs: Seq<SizeRequest>) -> (u32, u32) {
        let pad = pad_main_start(self) + pad_main_end(self);
        let sp = spacing_total(self.spacing as int, cs.len() as int);
        (
            cap(cap(min_sum(cs, self.axis)) + sp + pad) as u32,
            cap(cap(max_sum(cs, self.axis)) + sp + pad) as u32,
        )
    }

    /// The cross-axis (min, max) pair of the node's own request: the largest
    /// child plus padding.
    pub open spec fn spec_cross_request(self, cs: Seq<SizeRequest>) -> (u32, u32) {
        let pad = pad_cross_start(self) + pad_cross_end(self);
        let base = max_fold(cs);
        (
            cap(cross_min(base, self.axis) + pad) as u32,
            cap(cross_max(base, self.axis) + pad) as u32,
        )
    }

    /// The node's own request: summed main axis (overridable by the size
    /// rule), hugged cross axis.
    pub open spec fn spec_request(self, cs: Seq<SizeRequest>) -> SizeRequest {
        let m = match self.main_size {
            Size::Fit => self.spec_main_request(cs),
            Size::Fill => (0u32, DIM_MAX),
            Size::Static(v) => (v, v),
            Size::Custom(rule) => rule.spec_apply(
                main_min(cs[rule.child() as int], self.axis),
                main_max(cs[rule.child() as int], self.axis),
            ),
        };
        let c = self.spec_cross_request(cs);
        match self.axis {
            Axis::Horizontal => SizeRequest {
                min_width: m.0,
                max_width: m.1,
                min_height: c.0,
                max_height: c.1,
            },
            Axis::Vertical => SizeRequest {
                min_width: c.0,
                max_width: c.1,
                min_height: m.0,
                max_height: m.1,
            },
        }
    }

    /// The custom main-axis rule, when present, is applicable to these
    /// children.
    pub open spec fn rule_ok(self, cs: Seq<SizeRequest>) -> bool {
        self.main_size matches Size::Custom(rule) ==> rule.child() < cs.len()
            && rule.spec_ordered(
            main_min(cs[rule.child() as int], self.axis),
            main_max(cs[rule.child() as int], self.axis),
        )
    }

    /// Child `i`'s resolved box inside `allotted`: the sequential position
    /// and size on the main axis, clipped to the box, and overlay placement
    /// on the cross axis.
    pub open spec fn spec_child_area(self, allotted: (u32, u32), cs: Seq<SizeRequest>, i: int) -> Area {
        let am = match self.axis {
            Axis::Horizontal => allotted.0 as int,
            Axis::Vertical => allotted.1 as int,
        };
        let ac = match self.axis {
            Axis::Horizontal => allotted.1 as u32,
            Axis::Vertical => allotted.0 as u32,
        };
        let rem = spec_remaining(self, am, cs);
        let nf = fill_count(cs, self.axis);
        let o = main_offset(
            cs,
            self.axis,
            i,
            pad_main_start(self),
            self.spacing as int,
            rem,
            nf,
        );
        let m = child_main(cs, self.axis, i, rem, nf);
        let off = if o > am {
            am
        } else {
            o
        };
        let size = if m > am - off {
            am - off
        } else {
            m
        };
        let cr = spec_overlay_axis(
            self.cross_align,
            pad_cross_start(self),
            pad_cross_end(self),
            cross_min(cs[i], self.axis) as int,
            cross_max(cs[i], self.axis) as int,
            ac as int,
        );
        match self.axis {
            Axis::Horizontal => Area {
                offset: (off as u32, cr.0 as u32),
                size: (size as u32, cr.1 as u32),
            },
            Axis::Vertical => Area {
                offset: (cr.0 as u32, off as u32),
                size: (cr.1 as u32, size as u32),
            },
        }
    }
}

/// Saturating sum of the hugged children's main maxima, executable form.
fn hug_sum_exec(children: &Vec<SizeRequest>, axis: Axis) -> (r: u32)
    ensures
        r as int == cap(hug_sum(children@, axis)),
{
    let mut acc: u32 = 0;
    let mut i: usize = 0;
    proof {
        assert(children@.subrange(0, 0) =~= Seq::<SizeRequest>::empty());
    }
    while i < children.len()
        invariant
            i <= children@.len(),
            acc as int == cap(hug_sum(children@.subrange(0, i as int), axis)),
        decreases children@.len() - i,
    {
        let c = children[i];
        let m = match axis {
            Axis::Horizontal => c.max_width,
            Axis::Vertical => c.max_height,
        };
        if m != DIM_MAX {
            acc = dim_add(acc, m);
        }
        proof {
            let pre = children@.subrange(0, i as int);
            let post = children@.subrange(0, i + 1);
            assert(post.drop_last() =~= pre);
            assert(post.last() == children@[i as int]);
            assert(hug_sum(pre, axis) >= 0) by {
                lemma_hug_sum_nonneg(pre, axis);
            }
        }
        i = i + 1;
    }
    proof {
        assert(children@.subrange(0, children@.len() as int) =~= children@);
    }
    acc
}

/// The hug sum of any list is non-negative.
pub proof fn lemma_hug_sum_nonneg(cs: Seq<SizeRequest>, axis: Axis)
    ensures
        hug_sum(cs, axis) >= 0,
    decreases cs.len(),
{
    if cs.len() > 0 {
        lemma_hug_sum_nonneg(cs.drop_last(), axis);
    }
}

/// The min sum of any list is non-negative.
pub proof fn lemma_min_sum_nonneg(cs: Seq<SizeRequest>, axis: Axis)
    ensures
        min_sum(cs, axis) >= 0,
    decreases cs.len(),
{
    if cs.len() > 0 {
        lemma_min_sum_nonneg(cs.drop_last(), axis);
    }
}

/// The max sum of any list is non-negative and dominates the min sum of a
/// well-formed list.
pub proof fn lemma_max_sum_nonneg(cs: Seq<SizeRequest>, axis: Axis)
    ensures
        max_sum(cs, axis) >= 0,
    decreases cs.len(),
{
    if cs.len() > 0 {
        lemma_max_sum_nonneg(cs.drop_last(), axis);
    }
}

/// For well-formed children the summed minima never exceed the summed maxima.
pub proof fn lemma_sums_ordered(cs: Seq<SizeRequest>, axis: Axis)
    requires
        forall|i: int| 0 <= i < cs.len() ==> (#[trigger] cs[i]).wf(),
    ensures
        min_sum(cs, axis) <= max_sum(cs, axis),
    decreases cs.len(),
{
    if cs.len() > 0 {
        assert(cs.drop_last() =~= cs.subrange(0, cs.len() - 1));
        assert(forall|i: int|
            0 <= i < cs.drop_last().len() ==> (#[trigger] cs.drop_last()[i]).wf());
        lemma_sums_ordered(cs.drop_last(), axis);
        assert(cs.last().wf());
    }
}

/// Saturating sum of all children's main minima, executable form.
fn min_sum_exec(children: &Vec<SizeRequest>, axis: Axis) -> (r: u32)
    ensures
        r as int == cap(min_sum(children@, axis)),
{
    let mut acc: u32 = 0;
    let mut i: usize = 0;
    proof {
        assert(children@.subrange(0, 0) =~= Seq::<SizeRequest>::empty());
    }
    while i < children.len()
        invariant
            i <= children@.len(),
            acc as int == cap(min_sum(children@.subrange(0, i as int), axis)),
        decreases children@.len() - i,
    {
        let c = children[i];
        let m = match axis {
            Axis::Horizontal => c.min_width,
            Axis::Vertical => c.min_height,
        };
        acc = dim_add(acc, m);
        proof {
            let pre = children@.subrange(0, i as int);
            let post = children@.subrange(0, i + 1);
            assert(post.drop_last() =~= pre);
            assert(post.last() == children@[i as int]);
            lemma_min_sum_nonneg(pre, axis);
        }
        i = i + 1;
    }
    proof {
        assert(children@.subrange(0, children@.len() as int) =~= children@);
    }
    acc
}

/// Saturating sum of all children's main maxima, executable form.
fn max_sum_exec(children: &Vec<SizeRequest>, axis: Axis) -> (r: u32)
    ensures
        r as int == cap(max_sum(children@, axis)),
{
    let mut acc: u32 = 0;
    let mut i: usize = 0;
    proof {
        assert(children@.subrange(0, 0) =~= Seq::<SizeRequest>::empty());
    }
    while i < children.len()
        invariant
            i <= children@.len(),
            acc as int == cap(max_sum(children@.subrange(0, i as int), axis)),
        decreases children@.len() - i,
    {
        let c = children[i];
        let m = match axis {
            Axis::Horizontal => c.max_width,
            Axis::Vertical => c.max_height,
        };
        acc = dim_add(acc, m);
        proof {
            let pre = children@.subrange(0, i as int);
            let post = children@.subrange(0, i + 1);
            assert(post.drop_last() =~= pre);
            assert(post.last() == children@[i as int]);
            lemma_max_sum_nonneg(pre, axis);
        }
        i = i + 1;
    }
    proof {
        assert(children@.subrange(0, children@.len() as int) =~= children@);
    }
    acc
}

/// How many fill children the list holds, executable form.
fn fill_count_exec(children: &Vec<SizeRequest>, axis: Axis) -> (r: usize)
    ensures
        r as int == fill_count(children@, axis),
        r <= children@.len(),
{
    let mut acc: usize = 0;
    let mut i: usize = 0;
    while i < children.len()
        invariant
            i <= children@.len(),
            acc as int == fills_before(children@, axis, i as int),
            acc <= i,
        decreases children@.len() - i,
    {
        let c = children[i];
        let m = match axis {
            Axis::Horizontal => c.max_width,
            Axis::Vertical => c.max_height,
        };
        if m == DIM_MAX {
            acc = acc + 1;
        }
        i = i + 1;
    }
    acc
}

/// Total spacing consumed by `n` children, executable form.
fn spacing_total_exec(spacing: u32, n: usize) -> (r: u32)
    ensures
        r as int == spacing_total(spacing as int, n as int),
{
    if n <= 1 || spacing == 0 {
        proof {
            if n > 1 {
                assert(spacing == 0 ==> spacing as int * (n - 1) as int == 0) by (nonlinear_arith);
            }
        }
        0
    } else if n - 1 > DIM_MAX as usize {
        proof {
            assert(spacing as int >= 1 && (n - 1) as int >= 0 ==> spacing as int * (n - 1) as int
                >= (n - 1) as int) by (nonlinear_arith);
        }
        DIM_MAX
    } else {
        let gaps: u64 = (n - 1) as u64;
        proof {
            assert(spacing as int <= DIM_MAX && gaps as int <= DIM_MAX ==> spacing as int
                * gaps as int <= DIM_MAX as int * DIM_MAX as int) by (nonlinear_arith);
        }
        let product: u64 = spacing as u64 * gaps;
        if product > DIM_MAX as u64 {
            DIM_MAX
        } else {
            product as u32
        }
    }
}

impl Linear {
    /// Negotiates the node's own size range from its children's.
    pub fn request_size(&self, children: &Vec<SizeRequest>) -> (r: SizeRequest)
        requires
            forall|i: int| 0 <= i < children@.len() ==> (#[trigger] children@[i]).wf(),
            self.rule_ok(children@),
        ensures
            r == self.spec_request(children@),
            r.wf(),
    {
        let pad_ms = match self.axis {
            Axis::Horizontal => self.padding.0,
            Axis::Vertical => self.padding.1,
        };
        let pad_me = match self.axis {
            Axis::Horizontal => self.padding.2,
            Axis::Vertical => self.padding.3,
        };
        let pad_cs = match self.axis {
            Axis::Horizontal => self.padding.1,
            Axis::Vertical => self.padding.0,
        };
        let pad_ce = match self.axis {
            Axis::Horizontal => self.padding.3,
            Axis::Vertical => self.padding.2,
        };
        let sp = spacing_total_exec(self.spacing, children.len());
        let pad_main = dim_add(pad_ms, pad_me);
        let (m_lo, m_hi) = match &self.main_size {
            Size::Fit => {
                let lo = dim_add(dim_add(min_sum_exec(children, self.axis), sp), pad_main);
                let hi = dim_add(dim_add(max_sum_exec(children, self.axis), sp), pad_main);
                proof {
                    lemma_min_sum_nonneg(children@, self.axis);
                    lemma_max_sum_nonneg(children@, self.axis);
                }
                (lo, hi)
            },
            Size::Fill => (0u32, DIM_MAX),
            Size::Static(v) => (*v, *v),
            Size::Custom(rule) => {
                let mut pairs: Vec<(u32, u32)> = Vec::new();
                let ghost mpairs = children@.map_values(
                    |c: SizeRequest| (main_min(c, self.axis), main_max(c, self.axis)),
                );
                let mut i: usize = 0;
                while i < children.len()
                    invariant
                        i <= children@.len(),
                        pairs@ =~= mpairs.subrange(0, i as int),
                        mpairs == children@.map_values(
                            |c: SizeRequest| (main_min(c, self.axis), main_max(c, self.axis)),
                        ),
                    decreases children@.len() - i,
                {
                    let c = children[i];
                    let pair = match self.axis {
                        Axis::Horizontal => (c.min_width, c.max_width),
                        Axis::Vertical => (c.min_height, c.max_height),
                    };
                    pairs.push(pair);
                    i = i + 1;
                }
                proof {
                    assert(pairs@ =~= mpairs);
                }
                rule.apply(&pairs)
            },
        };
        let base = fold_requests(children);
        let pad_cross = dim_add(pad_cs, pad_ce);
        let (c_lo, c_hi) = match self.axis {
            Axis::Horizontal => (
                dim_add(base.min_height, pad_cross),
                dim_add(base.max_height, pad_cross),
            ),
            Axis::Vertical => (dim_add(base.min_width, pad_cross), dim_add(base.max_width, pad_cross)),
        };
        proof {
            lemma_sums_ordered(children@, self.axis);
        }
        match self.axis {
            Axis::Horizontal => SizeRequest {
                min_width: m_lo,
                max_width: m_hi,
                min_height: c_lo,
                max_height: c_hi,
            },
            Axis::Vertical => SizeRequest {
                min_width: c_lo,
                max_width: c_hi,
                min_height: m_lo,
                max_height: m_hi,
            },
        }
    }

    /// Places the children sequentially inside `allotted`: one `Area` per
    /// child, in declaration order, each inside the box.
    pub fn build(&self, allotted: (u32, u32), children: &Vec<SizeRequest>) -> (r: Vec<Area>)
        ensures
            r@.len() == children@.len(),
            forall|i: int| 0 <= i < r@.len() ==> r@[i] == self.spec_child_area(
                allotted,
                children@,
                i,
            ),
            forall|i: int| 0 <= i < r@.len() ==> (#[trigger] r@[i]).within(allotted),
    {
        let (am, ac) = match self.axis {
            Axis::Horizontal => (allotted.0, allotted.1),
            Axis::Vertical => (allotted.1, allotted.0),
        };
        let pad_ms = match self.axis {
            Axis::Horizontal => self.padding.0,
            Axis::Vertical => self.padding.1,
        };
        let pad_me = match self.axis {
            Axis::Horizontal => self.padding.2,
            Axis::Vertical => self.padding.3,
        };
        let pad_cs = match self.axis {
            Axis::Horizontal => self.padding.1,
            Axis::Vertical => self.padding.0,
        };
        let pad_ce = match self.axis {
            Axis::Horizontal => self.padding.3,
            Axis::Vertical => self.padding.2,
        };
        let budget = dim_sub(am, dim_add(pad_ms, pad_me));
        let hug = hug_sum_exec(children, self.axis);
        let sp = spacing_total_exec(self.spacing, children.len());
        let remaining = dim_sub(budget, dim_add(sp, hug));
        let nf = fill_count_exec(children, self.axis);
        let ghost rem_g: int = remaining as int;
        let ghost nf_g: int = nf as int;
        proof {
            assert(rem_g == spec_remaining(*self, am as int, children@));
        }
        let mut out: Vec<Area> = Vec::new();
        let mut cum: u32 = pad_ms;
        let mut k: usize = 0;
        let mut i: usize = 0;
        while i < children.len()
            invariant
                i <= children@.len(),
                out@.len() == i,
                k as int == fills_before(children@, self.axis, i as int),
                k <= i,
                nf as int == fill_count(children@, self.axis),
                nf <= children@.len(),
                rem_g == remaining as int,
                nf_g == nf as int,
                rem_g == spec_remaining(*self, am as int, children@),
                cum as int == main_offset(
                    children@,
                    self.axis,
                    i as int,
                    pad_ms as int,
                    self.spacing as int,
                    rem_g,
                    nf_g,
                ),
                forall|j: int| 0 <= j < i ==> out@[j] == self.spec_child_area(
                    allotted,
                    children@,
                    j,
                ),
                forall|j: int| 0 <= j < i ==> (#[trigger] out@[j]).within(allotted),
                (am, ac) == match self.axis {
                    Axis::Horizontal => (allotted.0, allotted.1),
                    Axis::Vertical => (allotted.1, allotted.0),
                },
                pad_ms as int == pad_main_start(*self),
                pad_cs as int == pad_cross_start(*self),
                pad_ce as int == pad_cross_end(*self),
            decreases children@.len() - i,
        {
            let c = children[i];
            let cmax = match self.axis {
                Axis::Horizontal => c.max_width,
                Axis::Vertical => c.max_height,
            };
            let m: u32 = if cmax == DIM_MAX {
                proof {
                    assert(fills_before(children@, self.axis, i + 1) == fills_before(
                        children@,
                        self.axis,
                        i as int,
                    ) + 1);
                    lemma_fills_mono(children@, self.axis, i + 1, children@.len() as int);
                    assert(nf >= 1);
                }
                let base_us: usize = remaining as usize / nf;
                let extra: usize = remaining as usize % nf;
                proof {
                    assert(nf_g >= 1 && remaining as int >= 0 ==> 0 <= remaining as int / nf_g
                        <= remaining as int) by (nonlinear_arith);
                    assert(nf_g >= 1 && remaining as int >= 0 ==> 0 <= remaining as int % nf_g
                        <= remaining as int) by (nonlinear_arith);
                    assert(nf_g == 1 ==> remaining as int % nf_g == 0) by (nonlinear_arith);
                    assert(nf_g >= 2 && remaining as int <= DIM_MAX ==> remaining as int / nf_g + 1
                        <= DIM_MAX) by (nonlinear_arith);
                }
                let base: u32 = base_us as u32;
                if k < extra {
                    k = k + 1;
                    base + 1
                } else {
                    k = k + 1;
                    base
                }
            } else {
                cmax
            };
            proof {
                assert(m as int == child_main(children@, self.axis, i as int, rem_g, nf_g));
            }
            let (cy, ch) = overlay_axis(
                self.cross_align,
                pad_cs,
                pad_ce,
                match self.axis {
                    Axis::Horizontal => c.min_height,
                    Axis::Vertical => c.min_width,
                },
                match self.axis {
                    Axis::Horizontal => c.max_height,
                    Axis::Vertical => c.max_width,
                },
                ac,
            );
            let off = if cum > am {
                am
            } else {
                cum
            };
            let size = if m > am - off {
                am - off
            } else {
                m
            };
            let area = match self.axis {
                Axis::Horizontal => Area { offset: (off, cy), size: (size, ch) },
                Axis::Vertical => Area { offset: (cy, off), size: (ch, size) },
            };
            proof {
                assert(area == self.spec_child_area(allotted, children@, i as int));
                assert(area.within(allotted));
            }
            out.push(area);
            cum = dim_add(cum, dim_add(m, self.spacing));
            i = i + 1;
        }
        out
    }
}

/// Sum of the main-axis sizes the first `i` children were actually built
/// with.
pub open spec fn built_main_sum(l: Linear, allotted: (u32, u32), cs: Seq<SizeRequest>, i: int) -> int
    decreases i,
{
    if i <= 0 {
        0
    } else {
        built_main_sum(l, allotted, cs, i - 1) + match l.axis {
            Axis::Horizontal => l.spec_child_area(allotted, cs, i - 1).size.0 as int,
            Axis::Vertical => l.spec_child_area(allotted, cs, i - 1).size.1 as int,
        }
    }
}

/// The prefix-count of fill children only reads the prefix.
proof fn lemma_fills_prefix(cs: Seq<SizeRequest>, cs2: Seq<SizeRequest>, axis: Axis, i: int)
    requires
        0 <= i <= cs.len(),
        i <= cs2.len(),
        forall|j: int| 0 <= j < i ==> cs[j] == cs2[j],
    ensures
        fills_before(cs, axis, i) == fills_before(cs2, axis, i),
    decreases i,
{
    if i > 0 {
        lemma_fills_prefix(cs, cs2, axis, i - 1);
    }
}

/// In a list without fill children, no child is a fill child.
proof fn lemma_no_fill(cs: Seq<SizeRequest>, axis: Axis, i: int)
    requires
        fill_count(cs, axis) == 0,
        0 <= i < cs.len(),
    ensures
        !is_fill(cs[i], axis),
{
    lemma_fills_mono(cs, axis, 0, i);
    lemma_fills_mono(cs, axis, i + 1, cs.len() as int);
    assert(fills_before(cs, axis, i + 1) == fills_before(cs, axis, i) + if is_fill(cs[i], axis) {
        1int
    } else {
        0int
    });
}

/// Without fill children the hugged sum is the whole max sum.
proof fn lemma_hug_eq_max(cs: Seq<SizeRequest>, axis: Axis)
    requires
        fill_count(cs, axis) == 0,
    ensures
        hug_sum(cs, axis) == max_sum(cs, axis),
    decreases cs.len(),
{
    if cs.len() > 0 {
        let pre = cs.drop_last();
        lemma_fills_prefix(cs, pre, axis, cs.len() - 1);
        lemma_fills_mono(cs, axis, cs.len() - 1, cs.len() as int);
        assert(fills_before(cs, axis, cs.len() as int) == fills_before(cs, axis, cs.len() - 1)
            + if is_fill(cs[cs.len() - 1], axis) {
            1int
        } else {
            0int
        });
        lemma_no_fill(cs, axis, cs.len() - 1);
        lemma_hug_eq_max(pre, axis);
    }
}

/// Extending a prefix by one child adds that child's max to the prefix sum.
proof fn lemma_max_sum_prefix_step(cs: Seq<SizeRequest>, axis: Axis, i: int)
    requires
        0 < i <= cs.len(),
    ensures
        max_sum(cs.subrange(0, i), axis) == max_sum(cs.subrange(0, i - 1), axis) + main_max(
            cs[i - 1],
            axis,
        ) as int,
{
    assert(cs.subrange(0, i).drop_last() =~= cs.subrange(0, i - 1));
    assert(cs.subrange(0, i).last() == cs[i - 1]);
}

/// Prefix max sums are non-negative and bounded by the whole sum.
proof fn lemma_max_sum_prefix_le(cs: Seq<SizeRequest>, axis: Axis, i: int)
    requires
        0 <= i <= cs.len(),
    ensures
        0 <= max_sum(cs.subrange(0, i), axis) <= max_sum(cs, axis),
    decreases cs.len() - i,
{
    if i == cs.len() {
        assert(cs.subrange(0, i) =~= cs);
        lemma_max_sum_nonneg(cs, axis);
    } else {
        lemma_max_sum_prefix_step(cs, axis, i + 1);
        lemma_max_sum_prefix_le(cs, axis, i + 1);
        lemma_max_sum_nonneg(cs.subrange(0, i), axis);
    }
}

/// Total spacing consumed by `n` children, uncapped.
pub open spec fn gaps_total(spacing: int, n: int) -> int {
    if n <= 1 {
        0
    } else {
        spacing * (n - 1)
    }
}

/// Basic bounds on the uncapped gap total, and its agreement with the capped
/// one when it fits.
pub proof fn lemma_gaps_total(spacing: int, n: int)
    requires
        spacing >= 0,
    ensures
        gaps_total(spacing, n) >= 0,
        n >= 2 ==> spacing <= gaps_total(spacing, n),
        gaps_total(spacing, n) <= DIM_MAX ==> spacing_total(spacing, n) == gaps_total(spacing, n),
{
    assert(n >= 2 && spacing >= 0 ==> 0 <= spacing * (n - 1) && spacing <= spacing * (n - 1))
        by (nonlinear_arith);
}

/// Nothing saturates in a hug-only sequence whose total fits: the hypotheses
/// shared by the lemmas below.
pub open spec fn hug_fits(l: Linear, cs: Seq<SizeRequest>) -> bool {
    &&& l.main_size is Fit
    &&& fill_count(cs, l.axis) == 0
    &&& cs.len() >= 1
    &&& pad_main_start(l) + pad_main_end(l) + gaps_total(l.spacing as int, cs.len() as int)
        + max_sum(cs, l.axis) <= DIM_MAX
}

/// The main-axis space granted equals the node's own negotiated maximum.
pub open spec fn granted_own_max(l: Linear, allotted: (u32, u32), cs: Seq<SizeRequest>) -> bool {
    (match l.axis {
        Axis::Horizontal => allotted.0,
        Axis::Vertical => allotted.1,
    }) == main_max(l.spec_request(cs), l.axis)
}

/// Where each hugged child starts when nothing saturates: padding, the maxima
/// before it, and one gap per predecessor.
proof fn lemma_hug_offset(l: Linear, cs: Seq<SizeRequest>, i: int, rem: int, nf: int)
    requires
        hug_fits(l, cs),
        0 <= i < cs.len(),
    ensures
        main_offset(cs, l.axis, i, pad_main_start(l), l.spacing as int, rem, nf)
            == pad_main_start(l) + max_sum(cs.subrange(0, i), l.axis) + i * l.spacing as int,
        pad_main_start(l) + max_sum(cs.subrange(0, i), l.axis) + i * l.spacing as int <= DIM_MAX,
    decreases i,
{
    let axis = l.axis;
    let n = cs.len() as int;
    let sp: int = l.spacing as int;
    lemma_max_sum_prefix_le(cs, axis, i);
    lemma_gaps_total(sp, n);
    assert(0 <= i <= n - 1 && sp >= 0 && n >= 2 ==> 0 <= i * sp && i * sp <= sp * (n - 1))
        by (nonlinear_arith);
    assert(i == 0 ==> i * sp == 0) by (nonlinear_arith);
    if i == 0 {
        assert(cs.subrange(0, 0) =~= Seq::<SizeRequest>::empty());
    } else {
        lemma_hug_offset(l, cs, i - 1, rem, nf);
        lemma_no_fill(cs, axis, i - 1);
        lemma_max_sum_prefix_step(cs, axis, i);
        lemma_max_sum_prefix_le(cs, axis, i - 1);
        assert((i - 1) * sp + sp == i * sp) by (nonlinear_arith);
        assert(0 <= i - 1 <= n - 1 && sp >= 0 && n >= 2 ==> 0 <= (i - 1) * sp && (i - 1) * sp
            <= sp * (n - 1)) by (nonlinear_arith);
    }
}

/// One hugged child's built box: exactly its requested main size, when the
/// node is granted its own negotiated maximum and nothing saturates.
proof fn lemma_hug_child_size(l: Linear, allotted: (u32, u32), cs: Seq<SizeRequest>, i: int)
    requires
        hug_fits(l, cs),
        granted_own_max(l, allotted, cs),
        0 <= i < cs.len(),
    ensures
        (match l.axis {
            Axis::Horizontal => l.spec_child_area(allotted, cs, i).size.0,
            Axis::Vertical => l.spec_child_area(allotted, cs, i).size.1,
        }) as int == main_max(cs[i], l.axis) as int,
        (match l.axis {
            Axis::Horizontal => l.spec_child_area(allotted, cs, i).offset.0,
            Axis::Vertical => l.spec_child_area(allotted, cs, i).offset.1,
        }) as int == pad_main_start(l) + max_sum(cs.subrange(0, i), l.axis) + i
            * l.spacing as int,
{
    let axis = l.axis;
    let n = cs.len() as int;
    let sp: int = l.spacing as int;
    let pad = pad_main_start(l) + pad_main_end(l);
    let am: int = match axis {
        Axis::Horizontal => allotted.0 as int,
        Axis::Vertical => allotted.1 as int,
    };
    lemma_max_sum_nonneg(cs, axis);
    lemma_gaps_total(sp, n);
    assert(spacing_total(sp, n) == gaps_total(sp, n));
    assert(am == pad + spacing_total(sp, n) + max_sum(cs, axis));
    lemma_hug_eq_max(cs, axis);
    let rem = spec_remaining(l, am, cs);
    let nf = fill_count(cs, axis);
    assert(rem == 0);
    lemma_no_fill(cs, axis, i);
    lemma_hug_offset(l, cs, i, rem, nf);
    lemma_max_sum_prefix_step(cs, axis, i + 1);
    lemma_max_sum_prefix_le(cs, axis, i + 1);
    lemma_max_sum_prefix_le(cs, axis, i);
    assert(0 <= i <= n - 1 && sp >= 0 && n >= 2 ==> 0 <= i * sp && i * sp <= sp * (n - 1))
        by (nonlinear_arith);
    assert(i == 0 ==> i * sp == 0) by (nonlinear_arith);
    let off = main_offset(cs, axis, i, pad_main_start(l), sp, rem, nf);
    assert(off + main_max(cs[i], axis) <= am);
}

/// The built main sizes of a hug-only prefix sum to the prefix's max sum.
proof fn lemma_built_prefix(l: Linear, allotted: (u32, u32), cs: Seq<SizeRequest>, i: int)
    requires
        hug_fits(l, cs),
        granted_own_max(l, allotted, cs),
        0 <= i <= cs.len(),
    ensures
        built_main_sum(l, allotted, cs, i) == max_sum(cs.subrange(0, i), l.axis),
    decreases i,
{
    if i == 0 {
        assert(cs.subrange(0, 0) =~= Seq::<SizeRequest>::empty());
    } else {
        lemma_built_prefix(l, allotted, cs, i - 1);
        lemma_hug_child_size(l, allotted, cs, i - 1);
        lemma_max_sum_prefix_step(cs, l.axis, i);
    }
}

/// The sequential law for hugged children: when every child hugs, the node is
/// granted its own negotiated main size, and nothing saturates, each child is
/// built at exactly its requested main size, and those sizes plus the total
/// spacing and padding add up to exactly the granted main size.
pub proof fn lemma_hug_sequence_exact(l: Linear, allotted: (u32, u32), cs: Seq<SizeRequest>)
    requires
        hug_fits(l, cs),
        granted_own_max(l, allotted, cs),
    ensures
        forall|i: int| 0 <= i < cs.len() ==> (match l.axis {
            Axis::Horizontal => l.spec_child_area(allotted, cs, i).size.0,
            Axis::Vertical => l.spec_child_area(allotted, cs, i).size.1,
        }) as int == main_max(cs[i], l.axis) as int,
        built_main_sum(l, allotted, cs, cs.len() as int) + spacing_total(
            l.spacing as int,
            cs.len() as int,
        ) + pad_main_start(l) + pad_main_end(l) == (match l.axis {
            Axis::Horizontal => allotted.0,
            Axis::Vertical => allotted.1,
        }) as int,
{
    let axis = l.axis;
    let n = cs.len() as int;
    lemma_max_sum_nonneg(cs, axis);
    lemma_gaps_total(l.spacing as int, n);
    assert(spacing_total(l.spacing as int, n) == gaps_total(l.spacing as int, n));
    assert forall|i: int| 0 <= i < n implies (match axis {
        Axis::Horizontal => l.spec_child_area(allotted, cs, i).size.0,
        Axis::Vertical => l.spec_child_area(allotted, cs, i).size.1,
    }) as int == main_max(cs[i], axis) as int by {
        lemma_hug_child_size(l, allotted, cs, i);
    }
    lemma_built_prefix(l, allotted, cs, n);
    assert(cs.subrange(0, n) =~= cs);
}

/// Sum of the main-axis shares handed to the fill children among the first
/// `i`, before boundary clipping.
pub open spec fn fill_share_sum(cs: Seq<SizeRequest>, axis: Axis, i: int, rem: int, nf: int) -> int
    decreases i,
{
    if i <= 0 {
        0
    } else {
        fill_share_sum(cs, axis, i - 1, rem, nf) + if is_fill(cs[i - 1], axis) {
            child_main(cs, axis, i - 1, rem, nf)
        } else {
            0int
        }
    }
}

/// The running share sum of a prefix: each fill child seen so far
/// contributed its quotient, and the first `rem % nf` of them one extra
/// unit.
proof fn lemma_fill_share_prefix(cs: Seq<SizeRequest>, axis: Axis, i: int, rem: int, nf: int)
    requires
        0 <= i <= cs.len(),
        nf >= 1,
        rem >= 0,
    ensures
        fill_share_sum(cs, axis, i, rem, nf) == fills_before(cs, axis, i) * (rem / nf) + (
        if fills_before(cs, axis, i) < rem % nf {
            fills_before(cs, axis, i)
        } else {
            rem % nf
        }),
    decreases i,
{
    assert(0 <= rem % nf < nf) by (nonlinear_arith)
        requires
            nf >= 1,
            rem >= 0,
    ;
    if i > 0 {
        lemma_fill_share_prefix(cs, axis, i - 1, rem, nf);
        lemma_fills_mono(cs, axis, 0, i - 1);
        let k = fills_before(cs, axis, i - 1);
        if is_fill(cs[i - 1], axis) {
            assert((k + 1) * (rem / nf) == k * (rem / nf) + rem / nf) by (nonlinear_arith);
        }
    }
}

/// The fill-split law: the shares of the `nf` fill children differ from
/// `rem / nf` by at most one unit — exactly the first `rem % nf` of them
/// carry the extra unit — and together they consume exactly `rem`, the
/// space left on the main axis after padding, spacing and the hugged
/// children.  `spec_child_area` sizes every fill child by exactly its
/// share before boundary clipping.
pub proof fn lemma_fill_split(cs: Seq<SizeRequest>, axis: Axis, rem: int, nf: int)
    requires
        nf == fill_count(cs, axis),
        nf >= 1,
        rem >= 0,
    ensures
        forall|i: int| 0 <= i < cs.len() && is_fill(#[trigger] cs[i], axis) ==> rem / nf
            <= child_main(cs, axis, i, rem, nf) <= rem / nf + 1,
        forall|i: int| 0 <= i < cs.len() && is_fill(#[trigger] cs[i], axis) ==> child_main(
            cs,
            axis,
            i,
            rem,
            nf,
        ) == rem / nf + if fills_before(cs, axis, i) < rem % nf {
            1int
        } else {
            0int
        },
        fill_share_sum(cs, axis, cs.len() as int, rem, nf) == rem,
{
    lemma_fill_share_prefix(cs, axis, cs.len() as int, rem, nf);
    assert(0 <= rem % nf < nf) by (nonlinear_arith)
        requires
            nf >= 1,
            rem >= 0,
    ;
    assert(nf * (rem / nf) + rem % nf == rem) by (nonlinear_arith)
        requires
            nf >= 1,
    ;
}

} // verus!
