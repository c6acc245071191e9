use std::collections::hash_map::DefaultHasher;
use std::hash::{Hash, Hasher};
use carapace::shader::{compose_shader, prelude_for, shader_key, shader_outcome, SHADER_PRELUDE};

#[test]
fn generated_prelude_declares_named_uniform_fields() {
    let s = prelude_for(&["season", "temp"]);
    assert!(s.contains("struct U"));
    assert!(s.contains("time: f32"));
    assert!(s.contains("res: vec2<f32>"));
    assert!(s.contains("season: f32"));
    assert!(s.contains("temp: f32"));
    assert!(s.contains("@group(0) @binding(0) var<uniform> u: U;"));
}

#[test]
fn prelude_layout_is_exact() {
    let s = prelude_for(&["a"]);
    let expected = format!(
        "{SHADER_PRELUDE}\nstruct U {{\n    time: f32,\n    res: vec2<f32>,\n    a: f32,\n}};\n@group(0) @binding(0) var<uniform> u: U;\n"
    );
    assert_eq!(s, expected);
}

#[test]
fn uniform_referencing_fragment_validates() {
    let fragment = "@fragment fn fs(in: VsOut) -> @location(0) vec4<f32> { \
        return vec4(u.season, u.temp, u.time, 1.0); }";
    let full = compose_shader("x.wgsl", fragment, &["season", "temp"]).unwrap();
    assert!(full.ends_with(fragment));
    assert!(full.starts_with(SHADER_PRELUDE));
}

#[test]
fn shader_prim_rejects_malformed_wgsl() {
    let err = compose_shader("bad.wgsl", "this is not wgsl {{{", &[]).unwrap_err();
    assert!(err.starts_with("shader bad.wgsl: "), "{err}");
}

#[test]
fn unknown_uniform_is_rejected() {
    let fragment = "@fragment fn fs(in: VsOut) -> @location(0) vec4<f32> { return vec4(u.nope); }";
    assert!(compose_shader("x.wgsl", fragment, &[]).is_err());
}

#[test]
fn shader_outcome_names_the_source_on_failure() {
    assert_eq!(shader_outcome("a.wgsl", "FULL".to_string(), None), Ok("FULL".to_string()));
    assert_eq!(
        shader_outcome("a.wgsl", "FULL".to_string(), Some("expected ';'".to_string())),
        Err("shader a.wgsl: expected ';'".to_string())
    );
}

#[test]
fn shader_key_is_the_std_hash_of_the_text() {
    for text in ["", "fn fs_main() {}", "@fragment fn f() -> @location(0) vec4<f32> { return vec4<f32>(1.0); }"] {
        let mut h = DefaultHasher::new();
        text.hash(&mut h);
        assert_eq!(shader_key(text), h.finish());
    }
    assert_ne!(shader_key("a"), shader_key("b"));
}
