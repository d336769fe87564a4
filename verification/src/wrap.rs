//! The wrapping strategy: children flow left to right at their requested
//! sizes and wrap to a new line when the next child would overrun the
//! allotted width, with independent item spacing and row spacing.

use vstd::prelude::*;
use crate::constraint::{dim_add, dim_sub, sat_add, sat_sub, Area, SizeRequest, DIM_MAX};
use crate::linear::cap;
use crate::overlay::Padding;

verus! {

/// The wrapping strategy: spacing between items on a line, spacing between
/// lines, and padding round the whole flow.
#[derive(Clone, Copy, Debug)]
pub struct WrapFlow {
    pub item_spacing: u32,
    pub row_spacing: u32,
    pub padding: Padding,
}

/// The width a child occupies on a line: its requested maximum, where a
/// fill child takes the whole line.
pub open spec fn wrap_w(c: SizeRequest, avail: int) -> int {
    if c.max_width == DIM_MAX || c.max_width > avail {
        avail
    } else {
        c.max_width as int
    }
}

/// The height a child occupies: its requested maximum.
pub open spec fn wrap_h(c: SizeRequest) -> int {
    c.max_height as int
}

/// The flow cursor before child `i` is placed: pen x, pen y, and the height
/// of the current line so far.  All arithmetic saturates.
pub open spec fn wrap_state(w: WrapFlow, cs: Seq<SizeRequest>, avail: int, i: int) -> (
    int,
    int,
    int,
)
    decreases i,
{
    if i <= 0 {
        (0, 0, 0)
    } else {
        let (x, y, rh) = wrap_state(w, cs, avail, i - 1);
        let cw = wrap_w(cs[i - 1], avail);
        let ch = wrap_h(cs[i - 1]);
        if x > 0 && x + cw > avail {
            (sat_add(cw, w.item_spacing as int), sat_add(y, sat_add(rh, w.row_spacing as int)), ch)
        } else {
            (
                sat_add(x, sat_add(cw, w.item_spacing as int)),
                y,
                if ch > rh {
                    ch
                } else {
                    rh
                },
            )
        }
    }
}

/// Where child `i` is placed, before padding and clipping: the cursor it
/// was placed at, or the head of a fresh line if it wrapped.
pub open spec fn wrap_place(w: WrapFlow, cs: Seq<SizeRequest>, avail: int, i: int) -> (int, int) {
    let (x, y, rh) = wrap_state(w, cs, avail, i);
    let cw = wrap_w(cs[i], avail);
    if x > 0 && x + cw > avail {
        (0, sat_add(y, sat_add(rh, w.row_spacing as int)))
    } else {
        (x, y)
    }
}

/// Child `i`'s resolved box inside `allotted`: its flow position, shifted by
/// the padding and clipped so the box never leaves the parent.
pub open spec fn spec_wrap_area(w: WrapFlow, allotted: (u32, u32), cs: Seq<SizeRequest>, i: int) -> Area {
    let avail = sat_sub(allotted.0 as int, w.padding.0 + w.padding.2);
    let (px, py) = wrap_place(w, cs, avail, i);
    let cw = wrap_w(cs[i], avail);
    let ch = wrap_h(cs[i]);
    let ox0 = sat_add(w.padding.0 as int, px);
    let oy0 = sat_add(w.padding.1 as int, py);
    let ox = if ox0 > allotted.0 as int {
        allotted.0 as int
    } else {
        ox0
    };
    let oy = if oy0 > allotted.1 as int {
        allotted.1 as int
    } else {
        oy0
    };
    let sw = if cw > allotted.0 as int - ox {
        allotted.0 as int - ox
    } else {
        cw
    };
    let sh = if ch > allotted.1 as int - oy {
        allotted.1 as int - oy
    } else {
        ch
    };
    Area { offset: (ox as u32, oy as u32), size: (sw as u32, sh as u32) }
}

impl WrapFlow {
    /// A flow with the given spacings and no padding.
    pub fn new(item_spacing: u32, row_spacing: u32) -> (r: WrapFlow)
        ensures
            r == (WrapFlow { item_spacing, row_spacing, padding: Padding(0, 0, 0, 0) }),
    {
        WrapFlow { item_spacing, row_spacing, padding: Padding(0, 0, 0, 0) }
    }

    /// The flow's own request: wide enough for its widest child up to one
    /// full line of everything, tall enough for its tallest child up to
    /// every child on its own line.
    pub open spec fn spec_request(self, cs: Seq<SizeRequest>) -> SizeRequest {
        let base = crate::overlay::max_fold(cs);
        SizeRequest {
            min_width: cap(base.min_width as int + self.padding.0 + self.padding.2) as u32,
            max_width: DIM_MAX,
            min_height: cap(base.min_height as int + self.padding.1 + self.padding.3) as u32,
            max_height: DIM_MAX,
        }
    }

    /// Negotiates the flow's own size range from its children's.
    pub fn request_size(&self, children: &Vec<SizeRequest>) -> (r: SizeRequest)
        requires
            forall|i: int| 0 <= i < children@.len() ==> (#[trigger] children@[i]).wf(),
        ensures
            r == self.spec_request(children@),
            r.wf(),
    {
        let base = crate::overlay::fold_requests(children);
        SizeRequest {
            min_width: dim_add(base.min_width, dim_add(self.padding.0, self.padding.2)),
            max_width: DIM_MAX,
            min_height: dim_add(base.min_height, dim_add(self.padding.1, self.padding.3)),
            max_height: DIM_MAX,
        }
    }

    /// Flows the children into the allotted box: one `Area` per child, in
    /// declaration order, each inside the box.
    pub fn build(&self, allotted: (u32, u32), children: &Vec<SizeRequest>) -> (r: Vec<Area>)
        ensures
            r@.len() == children@.len(),
            forall|i: int| 0 <= i < r@.len() ==> r@[i] == spec_wrap_area(
                *self,
                allotted,
                children@,
                i,
            ),
            forall|i: int| 0 <= i < r@.len() ==> (#[trigger] r@[i]).within(allotted),
    {
        let avail = dim_sub(allotted.0, dim_add(self.padding.0, self.padding.2));
        let mut out: Vec<Area> = Vec::new();
        let mut x: u32 = 0;
        let mut y: u32 = 0;
        let mut rh: u32 = 0;
        let mut i: usize = 0;
        while i < children.len()
            invariant
                i <= children@.len(),
                out@.len() == i,
                avail as int == sat_sub(allotted.0 as int, self.padding.0 + self.padding.2),
                (x as int, y as int, rh as int) == wrap_state(
                    *self,
                    children@,
                    avail as int,
                    i as int,
                ),
                forall|j: int| 0 <= j < i ==> out@[j] == spec_wrap_area(
                    *self,
                    allotted,
                    children@,
                    j,
                ),
                forall|j: int| 0 <= j < i ==> (#[trigger] out@[j]).within(allotted),
            decreases children@.len() - i,
        {
            let c = children[i];
            let cw: u32 = if c.max_width == DIM_MAX || c.max_width > avail {
                avail
            } else {
                c.max_width
            };
            let ch: u32 = c.max_height;
            let wrapped = x > 0 && (x > avail || cw > avail - x);
            let (px, py): (u32, u32) = if wrapped {
                (0, dim_add(y, dim_add(rh, self.row_spacing)))
            } else {
                (x, y)
            };
            let ox0 = dim_add(self.padding.0, px);
            let oy0 = dim_add(self.padding.1, py);
            let ox = if ox0 > allotted.0 {
                allotted.0
            } else {
                ox0
            };
            let oy = if oy0 > allotted.1 {
                allotted.1
            } else {
                oy0
            };
            let sw = if cw > allotted.0 - ox {
                allotted.0 - ox
            } else {
                cw
            };
            let sh = if ch > allotted.1 - oy {
                allotted.1 - oy
            } else {
                ch
            };
            let area = Area { offset: (ox, oy), size: (sw, sh) };
            proof {
                assert(area == spec_wrap_area(*self, allotted, children@, i as int));
                assert(area.within(allotted));
            }
            out.push(area);
            if wrapped {
                x = dim_add(cw, self.item_spacing);
                y = dim_add(y, dim_add(rh, self.row_spacing));
                rh = ch;
            } else {
                x = dim_add(x, dim_add(cw, self.item_spacing));
                rh = if ch > rh {
                    ch
                } else {
                    rh
                };
            }
            i = i + 1;
        }
        out
    }
}

} // verus!
