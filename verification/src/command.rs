//! The engine's command queue payloads: a skin's source, and the commands a frame drains.

use vstd::prelude::*;
use std::rc::Rc;
use crate::asset::AssetResolver;

verus! {

/// The engine-facing payload of a skin: its Lua source, design canvas size, and asset index.
pub struct SkinSource {
    /// The skin's Lua entry source.
    pub lua_src: String,
    /// The design-resolution `(width, height)` the skin authors against.
    pub canvas: (u32, u32),
    /// Resolved asset lookup for this skin.
    pub assets: Rc<AssetResolver>,
}

impl SkinSource {
    /// Builds a source with no on-disk assets, for tests or asset-free skins.
    pub fn inline(lua_src: String, canvas: (u32, u32)) -> (s: Self)
        ensures
            s.lua_src == lua_src,
            s.canvas == canvas,
            s.assets.wf(),
            s.assets@ == Map::<Seq<char>, Seq<char>>::empty(),
    {
        SkinSource { lua_src, canvas, assets: Rc::new(AssetResolver::empty()) }
    }
}

/// A queued action for the engine to apply on the next update. `A` is the host-action argument
/// type and `H` the host type the embedder uses.
pub enum Command<A, H> {
    /// Invoke a host action (validated against the host's allowlist before dispatch).
    HostAction {
        /// The action name.
        action: String,
        /// Arguments to pass to the host.
        args: Vec<A>,
    },
    /// Replace the current skin, keeping the current host.
    Swap(SkinSource),
    /// Replace both the current host and the current skin.
    SwitchHost {
        /// The new host.
        host: H,
        /// The skin to load with the new host.
        skin: SkinSource,
    },
}

} // verus!
