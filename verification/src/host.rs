//! The host's action allowlist: the only action names a skin may invoke.

use vstd::prelude::*;
use crate::skin::same_text;

verus! {

/// One entry in a host's action allowlist, checked before an action runs.
#[derive(Clone, Copy, Debug)]
pub struct ActionSpec {
    /// The action name, as referenced by skins.
    pub name: &'static str,
}

/// True when `action` is one of the names in `actions`.
pub open spec fn allowlisted(actions: Seq<ActionSpec>, action: Seq<char>) -> bool {
    exists|i: int| 0 <= i < actions.len() && #[trigger] actions[i].name@ == action
}

/// Whether the allowlist `actions` holds `action` (exact name match).
pub fn is_allowed(actions: &[ActionSpec], action: &str) -> (b: bool)
    ensures
        b == allowlisted(actions@, action@),
{
    let mut i: usize = 0;
    while i < actions.len()
        invariant
            i <= actions.len(),
            forall|j: int| 0 <= j < i ==> actions@[j].name@ != action@,
        decreases actions.len() - i,
    {
        if same_text(actions[i].name, action) {
            return true;
        }
        i += 1;
    }
    false
}

} // verus!
