//! Verified core of the carapace skin engine.

pub mod text;
pub mod hittest;
pub mod paper_view;
pub mod scene;
pub mod proto;
pub mod embed_render;
pub mod spike;
pub mod asset;
pub mod skin;
pub mod shader;
pub mod host;
pub mod command;
pub mod engine;
pub mod layout;
pub mod oneshot;
pub mod window_spike;
pub mod sandbox;
