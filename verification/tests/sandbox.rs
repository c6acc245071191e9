use carapace::host::ActionSpec;
use carapace::sandbox::{host_table_names, sandbox_env, EnvBinding};

#[test]
fn sandbox_binds_primitives_then_the_fixed_names_and_nothing_else() {
    let ids = vec!["fill".to_string(), "text".to_string()];
    let env = sandbox_env(&ids);
    let names: Vec<&str> = env.iter().map(|(n, _)| n.as_str()).collect();
    assert_eq!(names, vec!["fill", "text", "host", "circle", "rect", "rounded_rect", "math"]);
    assert_eq!(env[0].1, EnvBinding::Primitive(0));
    assert_eq!(env[1].1, EnvBinding::Primitive(1));
    assert_eq!(env[2].1, EnvBinding::Host);
    assert_eq!(env[6].1, EnvBinding::Math);
    for forbidden in ["io", "os", "require", "load", "dofile", "package", "debug"] {
        assert!(!names.contains(&forbidden), "{forbidden} must not be bound");
    }
}

#[test]
fn host_table_binds_exactly_the_allowlist() {
    let actions = [ActionSpec { name: "play" }, ActionSpec { name: "pause" }];
    assert_eq!(host_table_names(&actions), vec!["play", "pause"]);
    assert!(host_table_names(&[]).is_empty());
}
