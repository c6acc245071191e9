//! The transparent-window spike's one decision about its surface: which alpha compositing mode
//! to ask for, so that the skin's transparent pixels show the desktop behind the window.

use vstd::prelude::*;

verus! {

/// How a presented surface's alpha is composited with what lies behind the window.
#[derive(Clone, Copy, Debug, PartialEq, Eq, Structural)]
pub enum AlphaMode {
    /// Chosen by the platform.
    Auto,
    /// Alpha ignored: the window is opaque.
    Opaque,
    /// Colors are premultiplied by alpha.
    PreMultiplied,
    /// Colors are not premultiplied; the compositor multiplies.
    PostMultiplied,
    /// Inherited from the native surface.
    Inherit,
}

/// True when `mode` is among `offered`.
pub open spec fn offers(offered: Seq<AlphaMode>, mode: AlphaMode) -> bool {
    exists|i: int| 0 <= i < offered.len() && offered[i] == mode
}

/// The mode the spike asks for: premultiplied when offered, else postmultiplied when offered,
/// else the first mode offered.
pub open spec fn alpha_choice(offered: Seq<AlphaMode>) -> AlphaMode {
    if offers(offered, AlphaMode::PreMultiplied) {
        AlphaMode::PreMultiplied
    } else if offers(offered, AlphaMode::PostMultiplied) {
        AlphaMode::PostMultiplied
    } else {
        offered[0]
    }
}

fn offers_mode(offered: &Vec<AlphaMode>, mode: AlphaMode) -> (b: bool)
    ensures
        b == offers(offered@, mode),
{
    let mut i: usize = 0;
    while i < offered.len()
        invariant
            i <= offered.len(),
            forall|j: int| 0 <= j < i ==> offered@[j] != mode,
        decreases offered.len() - i,
    {
        if offered[i] == mode {
            return true;
        }
        i += 1;
    }
    false
}

/// Picks the surface alpha mode among those the adapter offers (never `Opaque` unless nothing
/// transparent is offered and it comes first): premultiplied first, then postmultiplied, else
/// the first offered.
pub fn choose_alpha_mode(offered: &Vec<AlphaMode>) -> (m: AlphaMode)
    requires
        offered.len() > 0,
    ensures
        m == alpha_choice(offered@),
        offers(offered@, m),
{
    assert(offered@[0] == offered@[0]);
    if offers_mode(offered, AlphaMode::PreMultiplied) {
        AlphaMode::PreMultiplied
    } else if offers_mode(offered, AlphaMode::PostMultiplied) {
        AlphaMode::PostMultiplied
    } else {
        offered[0]
    }
}

} // verus!
