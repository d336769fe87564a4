//! The escape hatch of size negotiation: a `CustomRule` derives one axis of a
//! node's own request from its children's resolved (min, max) pairs, for
//! sizing rules the stock strategies cannot express ("match child N", "never
//! shrink below 48", "cap at the content width").

use vstd::prelude::*;
use crate::constraint::DIM_MAX;

verus! {

/// One axis of a custom sizing rule, a pure function of the children's
/// (min, max) pairs on that axis.
#[derive(Clone, Copy, Debug, PartialEq, Eq, Structural)]
pub enum CustomRule {
    /// Adopt child `i`'s (min, max) unchanged.
    MatchChild(usize),
    /// Child `i`'s bounds, but never below `v` on either bound.
    AtLeast(usize, u32),
    /// Min is child `i`'s min capped at `v`; max is exactly `v`.
    CapAt(usize, u32),
    /// Min is child `i`'s min; max is unbounded.
    Expand(usize),
    /// Min is child `i`'s min; max is exactly `v`.
    UpTo(usize, u32),
}

impl CustomRule {
    /// The child index the rule reads.
    pub open spec fn child(self) -> usize {
        match self {
            CustomRule::MatchChild(i) => i,
            CustomRule::AtLeast(i, _) => i,
            CustomRule::CapAt(i, _) => i,
            CustomRule::Expand(i) => i,
            CustomRule::UpTo(i, _) => i,
        }
    }

    /// What `apply` returns for child bounds `(lo, hi)`.
    pub open spec fn spec_apply(self, lo: u32, hi: u32) -> (u32, u32) {
        match self {
            CustomRule::MatchChild(_) => (lo, hi),
            CustomRule::AtLeast(_, v) => (
                if lo >= v { lo } else { v },
                if hi >= v { hi } else { v },
            ),
            CustomRule::CapAt(_, v) => (if lo <= v { lo } else { v }, v),
            CustomRule::Expand(_) => (lo, DIM_MAX),
            CustomRule::UpTo(_, v) => (lo, v),
        }
    }

    /// The rule yields an ordered range whenever the child's own range is
    /// ordered — except `UpTo`, whose cap may undercut the child's min.
    pub open spec fn spec_ordered(self, lo: u32, hi: u32) -> bool {
        self.spec_apply(lo, hi).0 <= self.spec_apply(lo, hi).1
    }

    /// Applies the rule to the children's (min, max) pairs on one axis.
    /// An out-of-range child index is a configuration error, as is a rule
    /// that would produce an inverted range.
    pub fn apply(&self, pairs: &Vec<(u32, u32)>) -> (r: (u32, u32))
        requires
            self.child() < pairs@.len(),
            self.spec_ordered(pairs@[self.child() as int].0, pairs@[self.child() as int].1),
        ensures
            r == self.spec_apply(pairs@[self.child() as int].0, pairs@[self.child() as int].1),
            r.0 <= r.1,
    {
        match self {
            CustomRule::MatchChild(i) => pairs[*i],
            CustomRule::AtLeast(i, v) => {
                let (lo, hi) = pairs[*i];
                (if lo >= *v { lo } else { *v }, if hi >= *v { hi } else { *v })
            },
            CustomRule::CapAt(i, v) => {
                let (lo, _) = pairs[*i];
                (if lo <= *v { lo } else { *v }, *v)
            },
            CustomRule::Expand(i) => {
                let (lo, _) = pairs[*i];
                (lo, DIM_MAX)
            },
            CustomRule::UpTo(i, v) => {
                let (lo, _) = pairs[*i];
                (lo, *v)
            },
        }
    }
}

} // verus!
