use carapace::skin::{
    default_asset_dir, default_transition_kind, default_transition_ms, validate, Canvas, Manifest,
    SkinError, Transition, TransitionKind,
};

fn manifest(schema: u32, engine: &str, transition: Transition) -> Manifest {
    Manifest {
        schema,
        id: "x".to_string(),
        name: "x".to_string(),
        engine: engine.to_string(),
        canvas: Canvas { width: 1, height: 1 },
        entry: "s.lua".to_string(),
        asset_dir: default_asset_dir(),
        resizable: false,
        min_size: None,
        max_size: None,
        transition,
    }
}

#[test]
fn rejects_unknown_schema() {
    assert!(matches!(
        validate(manifest(2, "^0.1", Transition::default())),
        Err(SkinError::UnsupportedSchema(2))
    ));
}

#[test]
fn rejects_incompatible_engine() {
    assert!(matches!(
        validate(manifest(1, "^9.9", Transition::default())),
        Err(SkinError::EngineIncompat(e)) if e == "^9.9"
    ));
}

#[test]
fn schema_is_checked_before_engine() {
    assert!(matches!(
        validate(manifest(3, "^9.9", Transition::default())),
        Err(SkinError::UnsupportedSchema(3))
    ));
}

#[test]
fn transition_defaults_to_crossfade_250_when_absent() {
    let m = validate(manifest(1, "^0.1", Transition::default())).unwrap();
    assert_eq!(m.transition.kind, TransitionKind::Crossfade);
    assert_eq!(m.transition.duration_ms, 250);
    assert_eq!(m.asset_dir, "assets");
    assert_eq!(default_transition_kind(), TransitionKind::Crossfade);
    assert_eq!(default_transition_ms(), 250);
}

#[test]
fn transition_parses_explicit_cut() {
    let t = Transition { kind: TransitionKind::Cut, duration_ms: 100 };
    let m = validate(manifest(1, "^0.1", t)).unwrap();
    assert_eq!(m.transition.kind, TransitionKind::Cut);
    assert_eq!(m.transition.duration_ms, 100);
}

#[test]
fn transition_duration_is_clamped() {
    let t = Transition { kind: TransitionKind::Crossfade, duration_ms: 999999 };
    let m = validate(manifest(1, "^0.1", t)).unwrap();
    assert_eq!(m.transition.duration_ms, 5000);
    let edge = Transition { kind: TransitionKind::Crossfade, duration_ms: 5000 };
    assert_eq!(validate(manifest(1, "^0.1", edge)).unwrap().transition.duration_ms, 5000);
}

#[test]
fn engine_requirement_is_an_exact_string() {
    assert!(matches!(
        validate(manifest(1, "^0.1 ", Transition::default())),
        Err(SkinError::EngineIncompat(_))
    ));
    assert!(matches!(
        validate(manifest(1, "0.1", Transition::default())),
        Err(SkinError::EngineIncompat(_))
    ));
}

#[test]
fn a_validated_manifest_validates_to_itself() {
    let long = Transition { kind: TransitionKind::Cut, duration_ms: 90_000 };
    let once = validate(manifest(1, "^0.1", long)).unwrap();
    assert_eq!(once.transition, Transition { kind: TransitionKind::Cut, duration_ms: 5000 });
    let twice = validate(once).unwrap();
    assert_eq!(twice.transition, Transition { kind: TransitionKind::Cut, duration_ms: 5000 });
    assert_eq!(twice.schema, 1);
    assert_eq!(twice.engine, "^0.1");
}
