//! Which window edges a layout element is pinned to, read from the skin's anchor names, and the
//! rule each axis follows when the window is resized.

use vstd::prelude::*;
use crate::skin::same_text;

verus! {

/// The window edges an element is pinned to (gap held constant).
#[derive(Clone, Copy, Debug, PartialEq, Eq, Structural)]
pub struct Edges {
    /// Pinned to the left edge.
    pub left: bool,
    /// Pinned to the right edge.
    pub right: bool,
    /// Pinned to the top edge.
    pub top: bool,
    /// Pinned to the bottom edge.
    pub bottom: bool,
}

/// True when `name` is among `names`.
pub open spec fn named(names: Seq<&str>, name: Seq<char>) -> bool {
    exists|i: int| 0 <= i < names.len() && #[trigger] names[i]@ == name
}

fn has_name(names: &[&str], name: &str) -> (b: bool)
    ensures
        b == named(names@, name@),
{
    let mut i: usize = 0;
    while i < names.len()
        invariant
            i <= names.len(),
            forall|j: int| 0 <= j < i ==> names@[j]@ != name@,
        decreases names.len() - i,
    {
        if same_text(names[i], name) {
            return true;
        }
        i += 1;
    }
    false
}

impl Edges {
    /// The default: pinned to the top-left, fixed size.
    pub fn top_left() -> (e: Edges)
        ensures
            e == (Edges { left: true, right: false, top: true, bottom: false }),
    {
        Edges { left: true, right: false, top: true, bottom: false }
    }

    /// Reads edge names (`"left"`, `"right"`, `"top"`, `"bottom"`); unknown names are ignored.
    pub fn from_edges(edges: &[&str]) -> (e: Edges)
        ensures
            e.left == named(edges@, "left"@),
            e.right == named(edges@, "right"@),
            e.top == named(edges@, "top"@),
            e.bottom == named(edges@, "bottom"@),
    {
        Edges {
            left: has_name(edges, "left"),
            right: has_name(edges, "right"),
            top: has_name(edges, "top"),
            bottom: has_name(edges, "bottom"),
        }
    }
}

/// How one axis of an element follows a window resize.
#[derive(Clone, Copy, Debug, PartialEq, Eq, Structural)]
pub enum AxisRule {
    /// Pinned to both edges: both gaps stay, the extent stretches with the window.
    Stretch,
    /// Pinned to the near edge (left or top): position and extent stay.
    PinNear,
    /// Pinned to the far edge (right or bottom): the element rides that edge, extent unchanged.
    PinFar,
    /// Pinned to neither: the position scales with the window, extent unchanged.
    Proportional,
}

/// The rule an axis pinned to `near` and/or `far` follows.
pub open spec fn axis_rule_spec(near: bool, far: bool) -> AxisRule {
    if near && far {
        AxisRule::Stretch
    } else if near {
        AxisRule::PinNear
    } else if far {
        AxisRule::PinFar
    } else {
        AxisRule::Proportional
    }
}

impl Edges {
    /// The rules of the horizontal (left/right) and vertical (top/bottom) axes: both edges of an
    /// axis stretch it, one edge pins it to that side, neither keeps it proportional.
    pub fn axis_rules(&self) -> (r: (AxisRule, AxisRule))
        ensures
            r.0 == axis_rule_spec(self.left, self.right),
            r.1 == axis_rule_spec(self.top, self.bottom),
    {
        (axis_rule(self.left, self.right), axis_rule(self.top, self.bottom))
    }
}

fn axis_rule(near: bool, far: bool) -> (r: AxisRule)
    ensures
        r == axis_rule_spec(near, far),
{
    if near && far {
        AxisRule::Stretch
    } else if near {
        AxisRule::PinNear
    } else if far {
        AxisRule::PinFar
    } else {
        AxisRule::Proportional
    }
}

} // verus!
