//! The skin manifest (`skin.toml`): its fields and defaults, and the validation a parsed
//! manifest goes through before the skin loads.

use vstd::prelude::*;
use crate::asset::AssetError;
use crate::text::chars_of;

verus! {

/// The manifest schema version this engine reads.
pub const SUPPORTED_SCHEMA: u32 = 1;

/// The engine requirement a manifest must declare, compared as an exact string.
pub const SUPPORTED_ENGINE: &'static str = "^0.1";

/// The longest swap transition a manifest may ask for, in milliseconds.
pub const MAX_TRANSITION_MS: u32 = 5000;

/// The asset directory a manifest gets when it names none.
pub fn default_asset_dir() -> (s: String)
    ensures
        s@ == "assets"@,
{
    "assets".to_owned()
}

/// The transition style a manifest gets when it names none.
pub fn default_transition_kind() -> (k: TransitionKind)
    ensures
        k == TransitionKind::Crossfade,
{
    TransitionKind::Crossfade
}

/// The transition length a manifest gets when it names none, in milliseconds.
pub fn default_transition_ms() -> (ms: u32)
    ensures
        ms == 250,
{
    250
}

/// How a skin dissolves in when another skin is swapped to it.
#[derive(Debug, Clone, Copy, PartialEq, Eq, Structural)]
pub enum TransitionKind {
    /// Instant replacement.
    Cut,
    /// Alpha dissolve from the outgoing skin to this one over the duration.
    Crossfade,
}

/// The incoming skin's swap transition.
#[derive(Debug, Clone, Copy, PartialEq, Eq, Structural)]
pub struct Transition {
    /// The dissolve style.
    pub kind: TransitionKind,
    /// Dissolve duration in milliseconds (clamped to [`MAX_TRANSITION_MS`] on load).
    pub duration_ms: u32,
}

impl Default for Transition {
    /// An absent `[transition]` table: a 250 ms crossfade.
    fn default() -> (t: Self)
        ensures
            t == (Transition { kind: TransitionKind::Crossfade, duration_ms: 250 }),
    {
        Transition { kind: default_transition_kind(), duration_ms: default_transition_ms() }
    }
}

/// The skin's design-resolution size, in logical pixels.
#[derive(Debug, PartialEq, Eq, Structural)]
pub struct Canvas {
    /// Design-resolution width.
    pub width: u32,
    /// Design-resolution height.
    pub height: u32,
}

/// The parsed contents of a skin's `skin.toml`.
#[derive(Debug)]
pub struct Manifest {
    /// Manifest schema version; must equal [`SUPPORTED_SCHEMA`].
    pub schema: u32,
    /// Skin identifier.
    pub id: String,
    /// Display name.
    pub name: String,
    /// Required engine version; must equal [`SUPPORTED_ENGINE`] exactly.
    pub engine: String,
    /// Design-resolution size.
    pub canvas: Canvas,
    /// Lua entry filename, relative to the skin directory.
    pub entry: String,
    /// Assets subdirectory, relative to the skin directory; default `"assets"`.
    pub asset_dir: String,
    /// Whether the skin window should be resizable (frame-skin archetype).
    pub resizable: bool,
    /// Minimum window size in logical pixels.
    pub min_size: Option<(u32, u32)>,
    /// Maximum window size in logical pixels.
    pub max_size: Option<(u32, u32)>,
    /// How this skin dissolves in when swapped to.
    pub transition: Transition,
}

/// Declares `std::io::Error` so a skin error can carry it.
#[verifier::external_type_specification]
#[verifier::external_body]
pub struct ExIoError(std::io::Error);

/// Declares `toml::de::Error` so a skin error can carry it.
#[verifier::external_type_specification]
#[verifier::external_body]
pub struct ExTomlError(toml::de::Error);

/// Errors from loading or validating a skin directory.
#[derive(Debug)]
pub enum SkinError {
    /// Failed to read a file in the skin directory.
    Io(std::io::Error),
    /// `skin.toml` failed to parse.
    Toml(toml::de::Error),
    /// `schema` is not a version this engine supports.
    UnsupportedSchema(u32),
    /// `engine` doesn't match the required version string.
    EngineIncompat(String),
    /// Asset directory resolution failed.
    Asset(AssetError),
}

/// `m` with its transition duration capped at [`MAX_TRANSITION_MS`].
pub open spec fn clamp_transition(m: Manifest) -> Manifest {
    Manifest {
        transition: Transition {
            kind: m.transition.kind,
            duration_ms: if m.transition.duration_ms > MAX_TRANSITION_MS {
                MAX_TRANSITION_MS
            } else {
                m.transition.duration_ms
            },
        },
        ..m
    }
}

/// True when `a` and `b` hold the same characters.
pub fn same_text(a: &str, b: &str) -> (r: bool)
    ensures
        r == (a@ == b@),
{
    let x = chars_of(a);
    let y = chars_of(b);
    if x.len() != y.len() {
        assert(a@.len() != b@.len());
        return false;
    }
    let mut i: usize = 0;
    while i < x.len()
        invariant
            x@ == a@,
            y@ == b@,
            x.len() == y.len(),
            i <= x.len(),
            forall|j: int| 0 <= j < i ==> x@[j] == y@[j],
        decreases x.len() - i,
    {
        if x[i] != y[i] {
            assert(x@[i as int] != y@[i as int]);
            assert(a@ != b@);
            return false;
        }
        i += 1;
    }
    assert(x@ =~= y@);
    true
}

/// Checks a freshly parsed manifest: the schema must be [`SUPPORTED_SCHEMA`], then the engine
/// requirement must be exactly [`SUPPORTED_ENGINE`]; an accepted manifest has its transition
/// duration clamped to [`MAX_TRANSITION_MS`] and is otherwise unchanged.
pub fn validate(manifest: Manifest) -> (r: Result<Manifest, SkinError>)
    ensures
        match r {
            Err(SkinError::UnsupportedSchema(v)) => manifest.schema != SUPPORTED_SCHEMA && v
                == manifest.schema,
            Err(SkinError::EngineIncompat(e)) => manifest.schema == SUPPORTED_SCHEMA
                && manifest.engine@ != SUPPORTED_ENGINE@ && e@ == manifest.engine@,
            Ok(m) => manifest.schema == SUPPORTED_SCHEMA && manifest.engine@ == SUPPORTED_ENGINE@
                && m == clamp_transition(manifest),
            Err(_) => false,
        },
{
    let mut manifest = manifest;
    if manifest.schema != SUPPORTED_SCHEMA {
        return Err(SkinError::UnsupportedSchema(manifest.schema));
    }
    if !same_text(manifest.engine.as_str(), SUPPORTED_ENGINE) {
        return Err(SkinError::EngineIncompat(manifest.engine.clone()));
    }
    if manifest.transition.duration_ms > MAX_TRANSITION_MS {
        manifest.transition.duration_ms = MAX_TRANSITION_MS;
    }
    Ok(manifest)
}

/// Validation is stable: a manifest it accepts comes out with a transition no longer than
/// [`MAX_TRANSITION_MS`], would be accepted again, and would come out of a second validation
/// unchanged.
pub proof fn lemma_validation_is_stable(m: Manifest)
    requires
        m.schema == SUPPORTED_SCHEMA,
        m.engine@ == SUPPORTED_ENGINE@,
    ensures
        clamp_transition(m).transition.duration_ms <= MAX_TRANSITION_MS,
        clamp_transition(m).schema == SUPPORTED_SCHEMA,
        clamp_transition(m).engine@ == SUPPORTED_ENGINE@,
        clamp_transition(clamp_transition(m)) == clamp_transition(m),
        clamp_transition(m).transition.duration_ms <= m.transition.duration_ms,
{
}

/// Validation keeps a transition duration that is within the cap and cuts a longer one to the
/// cap: the duration that comes out is the smaller of the one that went in and
/// [`MAX_TRANSITION_MS`]; the transition's kind and every other field are kept.
pub proof fn lemma_clamp_keeps_short_durations(m: Manifest)
    ensures
        m.transition.duration_ms <= MAX_TRANSITION_MS ==> clamp_transition(m).transition.duration_ms
            == m.transition.duration_ms,
        m.transition.duration_ms > MAX_TRANSITION_MS ==> clamp_transition(m).transition.duration_ms
            == 5000,
        clamp_transition(m).transition.duration_ms <= m.transition.duration_ms,
        clamp_transition(m).transition.kind == m.transition.kind,
        clamp_transition(m).schema == m.schema,
        clamp_transition(m).engine == m.engine,
{
}

} // verus!
