//! Size negotiation values: a `SizeRequest` is the [min, max] range a node may
//! occupy on each axis, and an `Area` is a resolved (offset, size) box in the
//! parent's coordinate space.
//!
//! All dimensions are integer layout units.  `DIM_MAX` stands for an unbounded
//! axis (the "fill" bound); arithmetic on dimensions saturates there, so an
//! overflowing request degrades to "unbounded" instead of wrapping.

use vstd::prelude::*;

verus! {

/// The largest representable dimension; a max bound of `DIM_MAX` means the
/// axis is unbounded ("fill").
pub const DIM_MAX: u32 = 0xFFFF_FFFF;

/// Saturating addition of two dimensions.
pub open spec fn sat_add(a: int, b: int) -> int {
    if a + b > DIM_MAX { DIM_MAX as int } else { a + b }
}

/// Saturating subtraction of two dimensions (floors at zero).
pub open spec fn sat_sub(a: int, b: int) -> int {
    if a - b < 0 { 0 } else { a - b }
}

/// Projection of `v` into the range `[lo, hi]`; when `lo > hi` the upper
/// bound wins, matching `hi.min(lo.max(v))`.
pub open spec fn clamp_dim(lo: int, hi: int, v: int) -> int {
    if (if v < lo { lo } else { v }) > hi { hi } else if v < lo { lo } else { v }
}

/// Saturating addition, executable form.
pub fn dim_add(a: u32, b: u32) -> (r: u32)
    ensures
        r == sat_add(a as int, b as int),
{
    if a > DIM_MAX - b {
        DIM_MAX
    } else {
        a + b
    }
}

/// Saturating subtraction, executable form.
pub fn dim_sub(a: u32, b: u32) -> (r: u32)
    ensures
        r == sat_sub(a as int, b as int),
{
    if a < b {
        0
    } else {
        a - b
    }
}

/// The allowed size range of a node: `[min, max]` per axis.
///
/// Well-formed requests satisfy `min <= max` on both axes; constructing a
/// request that violates this is a configuration error, so `new` refuses it
/// up front.
#[derive(Clone, Copy, Debug, PartialEq, Eq, Structural)]
pub struct SizeRequest {
    pub min_width: u32,
    pub min_height: u32,
    pub max_width: u32,
    pub max_height: u32,
}

impl SizeRequest {
    /// Both axes ordered: the invariant every constructor establishes.
    pub open spec fn wf(self) -> bool {
        self.min_width <= self.max_width && self.min_height <= self.max_height
    }

    pub open spec fn spec_min_width(self) -> u32 {
        self.min_width
    }

    pub open spec fn spec_min_height(self) -> u32 {
        self.min_height
    }

    pub open spec fn spec_max_width(self) -> u32 {
        self.max_width
    }

    pub open spec fn spec_max_height(self) -> u32 {
        self.max_height
    }

    pub fn min_width(&self) -> (r: u32)
        ensures
            r == self.spec_min_width(),
    {
        self.min_width
    }

    pub fn min_height(&self) -> (r: u32)
        ensures
            r == self.spec_min_height(),
    {
        self.min_height
    }

    pub fn max_width(&self) -> (r: u32)
        ensures
            r == self.spec_max_width(),
    {
        self.max_width
    }

    pub fn max_height(&self) -> (r: u32)
        ensures
            r == self.spec_max_height(),
    {
        self.max_height
    }

    /// Builds a request from explicit bounds.  An inverted range (min above
    /// max on either axis) is a fatal configuration error, so it is excluded
    /// here rather than detected at run time.
    pub fn new(min_width: u32, min_height: u32, max_width: u32, max_height: u32) -> (r:
        SizeRequest)
        requires
            min_width <= max_width,
            min_height <= max_height,
        ensures
            r == (SizeRequest { min_width, min_height, max_width, max_height }),
            r.wf(),
    {
        SizeRequest { min_width, min_height, max_width, max_height }
    }

    /// The request of a node that must be exactly `size`.
    pub fn fixed(size: (u32, u32)) -> (r: SizeRequest)
        ensures
            r.spec_min_width() == size.0 && r.spec_max_width() == size.0,
            r.spec_min_height() == size.1 && r.spec_max_height() == size.1,
            r.wf(),
    {
        SizeRequest { min_width: size.0, min_height: size.1, max_width: size.0, max_height: size.1 }
    }

    /// The request of a node that accepts any size: `[0, DIM_MAX]` per axis.
    pub fn fill() -> (r: SizeRequest)
        ensures
            r.spec_min_width() == 0 && r.spec_max_width() == DIM_MAX,
            r.spec_min_height() == 0 && r.spec_max_height() == DIM_MAX,
            r.wf(),
    {
        SizeRequest { min_width: 0, min_height: 0, max_width: DIM_MAX, max_height: DIM_MAX }
    }

    /// What `get` returns: `size` projected into the request's range on each
    /// axis.
    pub open spec fn spec_get(self, size: (u32, u32)) -> (u32, u32) {
        (
            clamp_dim(self.min_width as int, self.max_width as int, size.0 as int) as u32,
            clamp_dim(self.min_height as int, self.max_height as int, size.1 as int) as u32,
        )
    }

    /// Projects an arbitrary size into this request's range (the upper bound
    /// wins over the lower one, though well-formed requests never need that).
    pub fn get(&self, size: (u32, u32)) -> (r: (u32, u32))
        ensures
            r == self.spec_get(size),
    {
        let w = if size.0 < self.min_width {
            self.min_width
        } else {
            size.0
        };
        let h = if size.1 < self.min_height {
            self.min_height
        } else {
            size.1
        };
        (
            if w > self.max_width {
                self.max_width
            } else {
                w
            },
            if h > self.max_height {
                self.max_height
            } else {
                h
            },
        )
    }

    /// Widens the request by `w` units on the horizontal axis (both bounds,
    /// saturating).
    pub fn add_width(&self, w: u32) -> (r: SizeRequest)
        requires
            self.wf(),
        ensures
            r.spec_min_width() == sat_add(self.spec_min_width() as int, w as int),
            r.spec_max_width() == sat_add(self.spec_max_width() as int, w as int),
            r.spec_min_height() == self.spec_min_height(),
            r.spec_max_height() == self.spec_max_height(),
            r.wf(),
    {
        SizeRequest {
            min_width: dim_add(self.min_width, w),
            min_height: self.min_height,
            max_width: dim_add(self.max_width, w),
            max_height: self.max_height,
        }
    }

    /// Widens the request by `h` units on the vertical axis (both bounds,
    /// saturating).
    pub fn add_height(&self, h: u32) -> (r: SizeRequest)
        requires
            self.wf(),
        ensures
            r.spec_min_width() == self.spec_min_width(),
            r.spec_max_width() == self.spec_max_width(),
            r.spec_min_height() == sat_add(self.spec_min_height() as int, h as int),
            r.spec_max_height() == sat_add(self.spec_max_height() as int, h as int),
            r.wf(),
    {
        SizeRequest {
            min_width: self.min_width,
            min_height: dim_add(self.min_height, h),
            max_width: self.max_width,
            max_height: dim_add(self.max_height, h),
        }
    }

    /// Widens the request by `w` horizontally and `h` vertically.
    pub fn add(&self, w: u32, h: u32) -> (r: SizeRequest)
        requires
            self.wf(),
        ensures
            r.spec_min_width() == sat_add(self.spec_min_width() as int, w as int),
            r.spec_max_width() == sat_add(self.spec_max_width() as int, w as int),
            r.spec_min_height() == sat_add(self.spec_min_height() as int, h as int),
            r.spec_max_height() == sat_add(self.spec_max_height() as int, h as int),
            r.wf(),
    {
        self.add_width(w).add_height(h)
    }

    /// What `max` returns: the componentwise maximum of two requests.
    pub open spec fn spec_max(self, other: SizeRequest) -> SizeRequest {
        SizeRequest {
            min_width: if self.min_width >= other.min_width {
                self.min_width
            } else {
                other.min_width
            },
            min_height: if self.min_height >= other.min_height {
                self.min_height
            } else {
                other.min_height
            },
            max_width: if self.max_width >= other.max_width {
                self.max_width
            } else {
                other.max_width
            },
            max_height: if self.max_height >= other.max_height {
                self.max_height
            } else {
                other.max_height
            },
        }
    }

    /// Componentwise maximum: the request of a node that must be able to hold
    /// either of two overlaid children.
    pub fn max(&self, other: &SizeRequest) -> (r: SizeRequest)
        requires
            self.wf(),
            other.wf(),
        ensures
            r == self.spec_max(*other),
            r.wf(),
    {
        SizeRequest {
            min_width: if self.min_width >= other.min_width {
                self.min_width
            } else {
                other.min_width
            },
            min_height: if self.min_height >= other.min_height {
                self.min_height
            } else {
                other.min_height
            },
            max_width: if self.max_width >= other.max_width {
                self.max_width
            } else {
                other.max_width
            },
            max_height: if self.max_height >= other.max_height {
                self.max_height
            } else {
                other.max_height
            },
        }
    }
}

/// Projecting into a range is idempotent: once a size has been clamped by a
/// request, clamping it again changes nothing.  Holds for every request,
/// well-formed or not.
pub proof fn lemma_get_idempotent(c: SizeRequest, size: (u32, u32))
    ensures
        c.spec_get(c.spec_get(size)) == c.spec_get(size),
{
}

/// A child's resolved box: offset and size in the parent's coordinate space.
#[derive(Clone, Copy, Debug, PartialEq)]
pub struct Area {
    pub offset: (u32, u32),
    pub size: (u32, u32),
}

impl Area {
    /// The whole box lies inside a parent of size `allotted`.
    pub open spec fn within(self, allotted: (u32, u32)) -> bool {
        self.offset.0 + self.size.0 <= allotted.0 && self.offset.1 + self.size.1 <= allotted.1
    }
}

} // verus!
