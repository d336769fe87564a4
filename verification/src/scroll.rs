//! The clipped, scrolling strategy: children are laid out at their requested
//! main-axis length, the box clips to the viewport, and a scroll offset
//! selects which part of the content shows.  The offset is clamped into
//! `[0, content - viewport]` by every operation that touches it.

use vstd::prelude::*;
use crate::constraint::{dim_add, dim_sub, sat_sub, Area, SizeRequest, DIM_MAX};
use crate::linear::{cross_max, cross_min, main_max, Axis};
use crate::overlay::{overlay_axis, spec_overlay_axis, Offset, Padding};

verus! {

/// Where a fresh scroll region starts: at the top, or pinned to the end of
/// the content.
#[derive(Clone, Copy, Debug, PartialEq, Eq, Structural)]
pub enum ScrollAnchor {
    Start,
    End,
}

/// The largest admissible scroll offset: how far the content overhangs the
/// viewport.
pub open spec fn max_scroll(content: int, viewport: int) -> int {
    sat_sub(content, viewport)
}

/// What every offset-touching operation enforces: the requested offset,
/// clamped into `[0, max_scroll]`.
pub open spec fn clamp_scroll(x: int, content: int, viewport: int) -> int {
    if x > max_scroll(content, viewport) {
        max_scroll(content, viewport)
    } else {
        x
    }
}

/// Clamping a clamped offset changes nothing: `set_scroll` is idempotent.
pub proof fn lemma_clamp_scroll_idempotent(x: int, content: int, viewport: int)
    ensures
        clamp_scroll(clamp_scroll(x, content, viewport), content, viewport) == clamp_scroll(
            x,
            content,
            viewport,
        ),
{
}

/// A clamped offset lies in `[0, max_scroll]`.
pub proof fn lemma_clamp_scroll_range(x: int, content: int, viewport: int)
    requires
        x >= 0,
        content >= 0,
    ensures
        0 <= clamp_scroll(x, content, viewport) <= max_scroll(content, viewport),
{
}

/// The scrolling strategy.  `content` and `viewport` describe the main axis
/// as of the last `build`; the offset is re-clamped against them whenever
/// either they or it change.
#[derive(Clone, Copy, Debug)]
pub struct ScrollRegion {
    pub axis: Axis,
    pub cross_align: Offset,
    pub padding: Padding,
    pub offset: u32,
    pub content: u32,
    pub viewport: u32,
}

impl ScrollRegion {
    /// The offset is admissible for the last-seen content and viewport.
    pub open spec fn inv(self) -> bool {
        self.offset as int <= max_scroll(self.content as int, self.viewport as int)
    }

    /// A fresh region: anchored at the start (offset zero) or at the end
    /// (offset clamps to the bottom of whatever content arrives).
    pub fn new(axis: Axis, cross_align: Offset, padding: Padding, anchor: ScrollAnchor) -> (r:
        ScrollRegion)
        ensures
            r.axis == axis && r.cross_align == cross_align && r.padding == padding,
            r.content == 0 && r.viewport == 0,
            anchor is Start ==> r.offset == 0,
            anchor is End ==> r.offset == DIM_MAX,
            anchor is Start ==> r.inv(),
    {
        let offset = match anchor {
            ScrollAnchor::Start => 0,
            ScrollAnchor::End => DIM_MAX,
        };
        ScrollRegion { axis, cross_align, padding, offset, content: 0, viewport: 0 }
    }

    /// Jumps to an absolute offset, clamped into the admissible range.
    /// Repeating the same call changes nothing.
    pub fn set_scroll(&mut self, x: u32)
        ensures
            final(self).offset as int == clamp_scroll(
                x as int,
                old(self).content as int,
                old(self).viewport as int,
            ),
            final(self).inv(),
            final(self).axis == old(self).axis && final(self).cross_align == old(self).cross_align
                && final(self).padding == old(self).padding && final(self).content == old(
                self,
            ).content && final(self).viewport == old(self).viewport,
    {
        let limit = dim_sub(self.content, self.viewport);
        self.offset = if x > limit {
            limit
        } else {
            x
        };
    }

    /// Moves the offset by a signed amount, clamped into the admissible
    /// range.
    pub fn adjust_scroll(&mut self, delta: i32)
        ensures
            final(self).offset as int == clamp_scroll(
                if old(self).offset + delta < 0 {
                    0
                } else {
                    old(self).offset + delta
                },
                old(self).content as int,
                old(self).viewport as int,
            ),
            final(self).inv(),
            final(self).axis == old(self).axis && final(self).cross_align == old(self).cross_align
                && final(self).padding == old(self).padding && final(self).content == old(
                self,
            ).content && final(self).viewport == old(self).viewport,
    {
        let target: u32 = if delta >= 0 {
            let d = delta as u32;
            dim_add(self.offset, d)
        } else {
            let d = if delta == i32::MIN {
                0x8000_0000u32
            } else {
                (-delta) as u32
            };
            dim_sub(self.offset, d)
        };
        proof {
            if delta >= 0 {
                assert(target as int == crate::constraint::sat_add(
                    old(self).offset as int,
                    delta as int,
                ));
            }
        }
        let limit = dim_sub(self.content, self.viewport);
        self.offset = if target > limit {
            limit
        } else {
            target
        };
    }

    /// The region's own request: accept anything on the scroll axis, hug the
    /// largest child (plus padding) on the cross axis.
    pub open spec fn spec_request(self, cs: Seq<SizeRequest>) -> SizeRequest {
        let base = crate::overlay::max_fold(cs);
        let c_lo = crate::linear::cap(
            cross_min(base, self.axis) as int + pad_cross(self),
        ) as u32;
        let c_hi = crate::linear::cap(
            cross_max(base, self.axis) as int + pad_cross(self),
        ) as u32;
        match self.axis {
            Axis::Horizontal => SizeRequest {
                min_width: 0,
                max_width: DIM_MAX,
                min_height: c_lo,
                max_height: c_hi,
            },
            Axis::Vertical => SizeRequest {
                min_width: c_lo,
                max_width: c_hi,
                min_height: 0,
                max_height: DIM_MAX,
            },
        }
    }

    /// Negotiates the region's own size range from its children's.
    pub fn request_size(&self, children: &Vec<SizeRequest>) -> (r: SizeRequest)
        requires
            forall|i: int| 0 <= i < children@.len() ==> (#[trigger] children@[i]).wf(),
        ensures
            r == self.spec_request(children@),
            r.wf(),
    {
        let base = crate::overlay::fold_requests(children);
        let pad = match self.axis {
            Axis::Horizontal => dim_add(self.padding.1, self.padding.3),
            Axis::Vertical => dim_add(self.padding.0, self.padding.2),
        };
        let (c_lo, c_hi) = match self.axis {
            Axis::Horizontal => (dim_add(base.min_height, pad), dim_add(base.max_height, pad)),
            Axis::Vertical => (dim_add(base.min_width, pad), dim_add(base.max_width, pad)),
        };
        match self.axis {
            Axis::Horizontal => SizeRequest {
                min_width: 0,
                max_width: DIM_MAX,
                min_height: c_lo,
                max_height: c_hi,
            },
            Axis::Vertical => SizeRequest {
                min_width: c_lo,
                max_width: c_hi,
                min_height: 0,
                max_height: DIM_MAX,
            },
        }
    }

    /// A child's contribution to the content length: its requested main
    /// maximum, or the viewport itself for a fill child.
    pub open spec fn spec_content_of(c: SizeRequest, axis: Axis, viewport: int) -> int {
        if main_max(c, axis) == DIM_MAX {
            viewport
        } else {
            main_max(c, axis) as int
        }
    }

    /// The content length of the whole child list: the longest child.
    pub open spec fn spec_content(cs: Seq<SizeRequest>, axis: Axis, viewport: int) -> int
        decreases cs.len(),
    {
        if cs.len() == 0 {
            0
        } else {
            let rest = ScrollRegion::spec_content(cs.drop_last(), axis, viewport);
            let last = ScrollRegion::spec_content_of(cs.last(), axis, viewport);
            if last > rest {
                last
            } else {
                rest
            }
        }
    }

    /// The box child `i` shows through: clipped to the viewport on the
    /// scroll axis, overlaid on the cross axis.
    pub open spec fn spec_child_area(self, allotted: (u32, u32), cs: Seq<SizeRequest>, i: int) -> Area {
        let (am, ac) = match self.axis {
            Axis::Horizontal => (allotted.0 as int, allotted.1 as int),
            Axis::Vertical => (allotted.1 as int, allotted.0 as int),
        };
        let viewport = sat_sub(am, pad_main(self));
        let len = ScrollRegion::spec_content_of(cs[i], self.axis, viewport);
        let size = if len > viewport {
            viewport
        } else {
            len
        };
        let start = if pad_main_start_s(self) + size > am {
            am - size
        } else {
            pad_main_start_s(self)
        };
        let cr = spec_overlay_axis(
            self.cross_align,
            pad_cross_start_s(self),
            pad_cross_end_s(self),
            cross_min(cs[i], self.axis) as int,
            cross_max(cs[i], self.axis) as int,
            ac,
        );
        match self.axis {
            Axis::Horizontal => Area {
                offset: (start as u32, cr.0 as u32),
                size: (size as u32, cr.1 as u32),
            },
            Axis::Vertical => Area {
                offset: (cr.0 as u32, start as u32),
                size: (cr.1 as u32, size as u32),
            },
        }
    }

    /// Lays the children out through the viewport, records the content and
    /// viewport lengths, and re-clamps the offset against them, so the
    /// admissible-range invariant holds from here on.
    pub fn build(&mut self, allotted: (u32, u32), children: &Vec<SizeRequest>) -> (r: Vec<Area>)
        ensures
            r@.len() == children@.len(),
            forall|i: int| 0 <= i < r@.len() ==> r@[i] == old(self).spec_child_area(
                allotted,
                children@,
                i,
            ),
            forall|i: int| 0 <= i < r@.len() ==> (#[trigger] r@[i]).within(allotted),
            final(self).viewport as int == sat_sub(
                (match old(self).axis {
                    Axis::Horizontal => allotted.0,
                    Axis::Vertical => allotted.1,
                }) as int,
                pad_main(*old(self)),
            ),
            final(self).content as int == ScrollRegion::spec_content(
                children@,
                old(self).axis,
                final(self).viewport as int,
            ),
            final(self).offset as int == clamp_scroll(
                old(self).offset as int,
                final(self).content as int,
                final(self).viewport as int,
            ),
            final(self).inv(),
            final(self).axis == old(self).axis && final(self).cross_align == old(
                self,
            ).cross_align && final(self).padding == old(self).padding,
    {
        let (am, ac) = match self.axis {
            Axis::Horizontal => (allotted.0, allotted.1),
            Axis::Vertical => (allotted.1, allotted.0),
        };
        let (pad_ms, pad_me, pad_cs_, pad_ce) = match self.axis {
            Axis::Horizontal => (self.padding.0, self.padding.2, self.padding.1, self.padding.3),
            Axis::Vertical => (self.padding.1, self.padding.3, self.padding.0, self.padding.2),
        };
        let viewport = dim_sub(am, dim_add(pad_ms, pad_me));
        let mut content: u32 = 0;
        let mut out: Vec<Area> = Vec::new();
        let mut i: usize = 0;
        proof {
            assert(children@.subrange(0, 0) =~= Seq::<SizeRequest>::empty());
        }
        while i < children.len()
            invariant
                i <= children@.len(),
                out@.len() == i,
                content as int == ScrollRegion::spec_content(
                    children@.subrange(0, i as int),
                    self.axis,
                    viewport as int,
                ),
                content <= DIM_MAX,
                forall|j: int| 0 <= j < i ==> out@[j] == self.spec_child_area(
                    allotted,
                    children@,
                    j,
                ),
                forall|j: int| 0 <= j < i ==> (#[trigger] out@[j]).within(allotted),
                (am, ac) == match self.axis {
                    Axis::Horizontal => (allotted.0, allotted.1),
                    Axis::Vertical => (allotted.1, allotted.0),
                },
                (pad_ms, pad_me, pad_cs_, pad_ce) == match self.axis {
                    Axis::Horizontal => (
                        self.padding.0,
                        self.padding.2,
                        self.padding.1,
                        self.padding.3,
                    ),
                    Axis::Vertical => (
                        self.padding.1,
                        self.padding.3,
                        self.padding.0,
                        self.padding.2,
                    ),
                },
                viewport as int == sat_sub(am as int, pad_main(*self)),
                self == old(self),
            decreases children@.len() - i,
        {
            let c = children[i];
            let cmax = match self.axis {
                Axis::Horizontal => c.max_width,
                Axis::Vertical => c.max_height,
            };
            let len: u32 = if cmax == DIM_MAX {
                viewport
            } else {
                cmax
            };
            let size = if len > viewport {
                viewport
            } else {
                len
            };
            let start = if pad_ms > am - size {
                am - size
            } else {
                pad_ms
            };
            let (cy, ch) = overlay_axis(
                self.cross_align,
                pad_cs_,
                pad_ce,
                match self.axis {
                    Axis::Horizontal => c.min_height,
                    Axis::Vertical => c.min_width,
                },
                match self.axis {
                    Axis::Horizontal => c.max_height,
                    Axis::Vertical => c.max_width,
                },
                ac,
            );
            let area = match self.axis {
                Axis::Horizontal => Area { offset: (start, cy), size: (size, ch) },
                Axis::Vertical => Area { offset: (cy, start), size: (ch, size) },
            };
            if len > content {
                content = len;
            }
            proof {
                let pre = children@.subrange(0, i as int);
                let post = children@.subrange(0, i + 1);
                assert(post.drop_last() =~= pre);
                assert(post.last() == children@[i as int]);
                assert(area == self.spec_child_area(allotted, children@, i as int));
                assert(area.within(allotted));
            }
            out.push(area);
            i = i + 1;
        }
        proof {
            assert(children@.subrange(0, children@.len() as int) =~= children@);
        }
        self.content = content;
        self.viewport = viewport;
        let limit = dim_sub(content, viewport);
        if self.offset > limit {
            self.offset = limit;
        }
        out
    }
}

/// Main-axis padding of a scroll region, both ends.
pub open spec fn pad_main(s: ScrollRegion) -> int {
    pad_main_start_s(s) + pad_main_end_s(s)
}

/// Main-axis padding before the content.
pub open spec fn pad_main_start_s(s: ScrollRegion) -> int {
    match s.axis {
        Axis::Horizontal => s.padding.0 as int,
        Axis::Vertical => s.padding.1 as int,
    }
}

/// Main-axis padding after the content.
pub open spec fn pad_main_end_s(s: ScrollRegion) -> int {
    match s.axis {
        Axis::Horizontal => s.padding.2 as int,
        Axis::Vertical => s.padding.3 as int,
    }
}

/// Cross-axis padding, both ends.
pub open spec fn pad_cross(s: ScrollRegion) -> int {
    pad_cross_start_s(s) + pad_cross_end_s(s)
}

/// Cross-axis padding before the content.
pub open spec fn pad_cross_start_s(s: ScrollRegion) -> int {
    match s.axis {
        Axis::Horizontal => s.padding.1 as int,
        Axis::Vertical => s.padding.0 as int,
    }
}

/// Cross-axis padding after the content.
pub open spec fn pad_cross_end_s(s: ScrollRegion) -> int {
    match s.axis {
        Axis::Horizontal => s.padding.3 as int,
        Axis::Vertical => s.padding.2 as int,
    }
}

} // verus!
