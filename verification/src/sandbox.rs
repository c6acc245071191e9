//! The capability sandbox a skin's Lua script runs in: the names its environment binds (the
//! registry's primitive constructors, the `host` table, the path helpers and `math`) and the
//! names the `host` table binds (the host's allowlist). A script reaches nothing else.

use vstd::prelude::*;
use crate::host::{ActionSpec, allowlisted};

verus! {

/// What one name of a skin's Lua environment is bound to.
#[derive(Clone, Copy, Debug, PartialEq, Eq, Structural)]
pub enum EnvBinding {
    /// The constructor of the registry's primitive at this index.
    Primitive(usize),
    /// The `host` table of allowlisted action shims.
    Host,
    /// The `circle` path helper.
    Circle,
    /// The `rect` path helper.
    Rect,
    /// The `rounded_rect` path helper.
    RoundedRect,
    /// Lua's `math` library, pure computation with no capability.
    Math,
}

/// The texts of a list of strings.
pub open spec fn texts(ids: Seq<String>) -> Seq<Seq<char>> {
    ids.map_values(|s: String| s@)
}

/// An environment's entries as plain values.
pub open spec fn env_view(env: Seq<(String, EnvBinding)>) -> Seq<(Seq<char>, EnvBinding)> {
    env.map_values(|e: (String, EnvBinding)| (e.0@, e.1))
}

/// The fixed names every environment binds after the primitives.
pub open spec fn fixed_entries() -> Seq<(Seq<char>, EnvBinding)> {
    seq![
        ("host"@, EnvBinding::Host),
        ("circle"@, EnvBinding::Circle),
        ("rect"@, EnvBinding::Rect),
        ("rounded_rect"@, EnvBinding::RoundedRect),
        ("math"@, EnvBinding::Math),
    ]
}

/// The environment for a registry whose primitive ids are `ids`, in the order the names are
/// set (a later entry under the same name replaces an earlier one): each primitive's
/// constructor under its id, then `host`, `circle`, `rect`, `rounded_rect` and `math`.
pub open spec fn env_spec(ids: Seq<Seq<char>>) -> Seq<(Seq<char>, EnvBinding)> {
    Seq::new(ids.len(), |i: int| (ids[i], EnvBinding::Primitive(i as usize))) + fixed_entries()
}

/// The entries, in order, of the environment a skin's script runs in, for a registry whose
/// primitive ids are `ids`.
pub fn sandbox_env(ids: &Vec<String>) -> (env: Vec<(String, EnvBinding)>)
    ensures
        env_view(env@) == env_spec(texts(ids@)),
{
    let mut env: Vec<(String, EnvBinding)> = Vec::new();
    let mut i: usize = 0;
    while i < ids.len()
        invariant
            i <= ids.len(),
            env_view(env@) =~= Seq::new(
                i as nat,
                |k: int| (ids@[k]@, EnvBinding::Primitive(k as usize)),
            ),
        decreases ids.len() - i,
    {
        let ghost before = env@;
        env.push((ids[i].clone(), EnvBinding::Primitive(i)));
        assert(env_view(env@) =~= env_view(before).push((ids@[i as int]@, EnvBinding::Primitive(i))));
        i += 1;
    }
    let ghost prims = env_view(env@);
    env.push(("host".to_owned(), EnvBinding::Host));
    env.push(("circle".to_owned(), EnvBinding::Circle));
    env.push(("rect".to_owned(), EnvBinding::Rect));
    env.push(("rounded_rect".to_owned(), EnvBinding::RoundedRect));
    env.push(("math".to_owned(), EnvBinding::Math));
    assert(env_view(env@) =~= prims + fixed_entries());
    assert(env_view(env@) =~= env_spec(texts(ids@)));
    env
}

/// True when `env` has an entry under `name`.
pub open spec fn binds(env: Seq<(Seq<char>, EnvBinding)>, name: Seq<char>) -> bool {
    exists|k: int| 0 <= k < env.len() && #[trigger] env[k].0 == name
}

/// A script's environment binds a name exactly when it is a primitive's id or one of `host`,
/// `circle`, `rect`, `rounded_rect` and `math`: no other global (no `io`, `os`, `require`,
/// `load` unless a primitive is so named) reaches the script.
pub proof fn lemma_env_binds_only(ids: Seq<Seq<char>>, name: Seq<char>)
    ensures
        binds(env_spec(ids), name) <==> (ids.contains(name) || name == "host"@ || name
            == "circle"@ || name == "rect"@ || name == "rounded_rect"@ || name == "math"@),
{
    let env = env_spec(ids);
    let n = ids.len() as int;
    if ids.contains(name) {
        let k = choose|k: int| 0 <= k < ids.len() && ids[k] == name;
        assert(env[k].0 == name);
    }
    if name == "host"@ {
        assert(env[n].0 == name);
    }
    if name == "circle"@ {
        assert(env[n + 1].0 == name);
    }
    if name == "rect"@ {
        assert(env[n + 2].0 == name);
    }
    if name == "rounded_rect"@ {
        assert(env[n + 3].0 == name);
    }
    if name == "math"@ {
        assert(env[n + 4].0 == name);
    }
    if binds(env, name) {
        let k = choose|k: int| 0 <= k < env.len() && #[trigger] env[k].0 == name;
        if k < n {
            assert(ids[k] == name);
        }
    }
}

/// The names the `host` table binds, in order: the host allowlist's.
pub fn host_table_names(actions: &[ActionSpec]) -> (names: Vec<&'static str>)
    ensures
        names@.len() == actions@.len(),
        forall|i: int| 0 <= i < actions@.len() ==> #[trigger] names@[i] == actions@[i].name,
{
    let mut names: Vec<&'static str> = Vec::new();
    let mut i: usize = 0;
    while i < actions.len()
        invariant
            i <= actions.len(),
            names@.len() == i,
            forall|k: int| 0 <= k < i ==> #[trigger] names@[k] == actions@[k].name,
        decreases actions.len() - i,
    {
        names.push(actions[i].name);
        i += 1;
    }
    names
}

/// The `host` table binds a name exactly when the host allowlists it: a script can ask for no
/// action the host did not declare.
pub proof fn lemma_host_table_is_allowlist(
    actions: Seq<ActionSpec>,
    names: Seq<&'static str>,
    name: Seq<char>,
)
    requires
        names.len() == actions.len(),
        forall|i: int| 0 <= i < actions.len() ==> #[trigger] names[i] == actions[i].name,
    ensures
        (exists|k: int| 0 <= k < names.len() && #[trigger] names[k]@ == name) <==> allowlisted(
            actions,
            name,
        ),
{
    if allowlisted(actions, name) {
        let i = choose|i: int| 0 <= i < actions.len() && #[trigger] actions[i].name@ == name;
        assert(names[i]@ == name);
    }
    if exists|k: int| 0 <= k < names.len() && #[trigger] names[k]@ == name {
        let k = choose|k: int| 0 <= k < names.len() && #[trigger] names[k]@ == name;
        assert(actions[k].name@ == name);
    }
}

} // verus!
