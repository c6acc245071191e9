//! The `shader{}` primitive's source assembly: a fixed fullscreen-quad vertex stage, a generated
//! uniform block with one `f32` field per named uniform, and the author's fragment stage, checked
//! by the WGSL front end when the skin loads and keyed by its hash. The front end's view of a
//! module (its global variables and their layout) is read here too.

use vstd::prelude::*;
use crate::text::{push_str, string_from_chars};
use std::collections::hash_map::DefaultHasher;
use std::hash::Hasher;
use vstd::std_specs::hash::DefaultHasherAdditionalSpecFns;
use vstd::string::StringSliceAdditionalSpecFns;
use naga::front::wgsl::parse_str;
use naga::proc::Layouter;
use naga::{AddressSpace, TypeInner};
use self::FrontEndError::{Layout, Parse};

verus! {

/// The fullscreen-quad vertex stage every `shader{}` node reuses. It declares `VsOut` (clip
/// position plus a 0..1 `uv`) for the author's fragment stage to take as input.
pub const SHADER_PRELUDE: &'static str = "// Fullscreen-quad vertex stage shared by every shader{} node.
struct VsOut {
    @builtin(position) pos: vec4<f32>,
    @location(0) uv: vec2<f32>,
};

@vertex
fn vs_main(@builtin(vertex_index) vi: u32) -> VsOut {
    var corners = array<vec2<f32>, 4>(
        vec2<f32>(-1.0, -1.0),
        vec2<f32>(1.0, -1.0),
        vec2<f32>(-1.0, 1.0),
        vec2<f32>(1.0, 1.0),
    );
    let p = corners[vi];
    var out: VsOut;
    out.pos = vec4<f32>(p, 0.0, 1.0);
    out.uv = vec2<f32>((p.x + 1.0) * 0.5, (1.0 - p.y) * 0.5);
    return out;
}
";

/// The `shader{ src, x, y, w, h, uniforms }` primitive (its Lua-facing constructor).
pub struct ShaderPrim;

/// One generated uniform field line: four spaces, the name, `: f32,` and a newline.
pub open spec fn uniform_field(name: Seq<char>) -> Seq<char> {
    "    "@ + name + ": f32,\n"@
}

/// The generated field lines for `names`, in order.
pub open spec fn uniform_fields(names: Seq<&str>) -> Seq<char>
    decreases names.len(),
{
    if names.len() == 0 {
        Seq::empty()
    } else {
        uniform_fields(names.drop_last()) + uniform_field(names.last()@)
    }
}

/// What [`prelude_for`] returns.
pub open spec fn prelude_spec(names: Seq<&str>) -> Seq<char> {
    SHADER_PRELUDE@ + "\nstruct U {\n    time: f32,\n    res: vec2<f32>,\n"@ + uniform_fields(names)
        + "};\n@group(0) @binding(0) var<uniform> u: U;\n"@
}

/// Emit the fixed WGSL prelude plus a generated `struct U` with the built-in `time`/`res`
/// fields and one named `f32` field per entry of `names`, and the `@group(0) @binding(0)`
/// uniform-buffer binding the author's fragment stage reads from.
///
/// Fields are named `f32`s rather than an `array<f32, N>`: a uniform array's element stride is
/// 16 bytes, while named `f32` fields pack tightly.
pub fn prelude_for(names: &[&str]) -> (s: String)
    ensures
        s@ == prelude_spec(names@),
{
    let mut out: Vec<char> = Vec::new();
    push_str(&mut out, SHADER_PRELUDE);
    push_str(&mut out, "\nstruct U {\n    time: f32,\n    res: vec2<f32>,\n");
    let ghost head = out@;
    let mut i: usize = 0;
    while i < names.len()
        invariant
            i <= names.len(),
            out@ == head + uniform_fields(names@.take(i as int)),
        decreases names.len() - i,
    {
        push_str(&mut out, "    ");
        push_str(&mut out, names[i]);
        push_str(&mut out, ": f32,\n");
        assert(names@.take(i + 1).drop_last() =~= names@.take(i as int));
        assert(out@ =~= head + uniform_fields(names@.take(i + 1)));
        i += 1;
    }
    assert(names@.take(names.len() as int) =~= names@);
    push_str(&mut out, "};\n@group(0) @binding(0) var<uniform> u: U;\n");
    assert(out@ =~= prelude_spec(names@));
    string_from_chars(&out)
}

/// One global variable of a WGSL module as the front end declares it, in declaration order.
#[derive(Clone, Debug)]
pub struct ShaderGlobal(
    /// Its name, if it has one.
    pub Option<String>,
    /// Whether it lives in the uniform address space.
    pub bool,
    /// Its `@group` and `@binding` indices, if it has them.
    pub Option<(u32, u32)>,
    /// The size in bytes of its type, as the layouter computes it.
    pub u32,
    /// For a struct type: each member's name and byte offset, in order.
    pub Option<Vec<(Option<String>, u32)>>,
);

/// The text of an optional string.
pub open spec fn opt_text(o: Option<String>) -> Option<Seq<char>> {
    match o {
        Some(s) => Some(s@),
        None => None,
    }
}

/// A [`ShaderGlobal`] as plain values.
pub struct ShaderGlobalView {
    pub name: Option<Seq<char>>,
    pub uniform: bool,
    pub binding: Option<(u32, u32)>,
    pub size: u32,
    pub members: Option<Seq<(Option<Seq<char>>, u32)>>,
}

impl View for ShaderGlobal {
    type V = ShaderGlobalView;

    open spec fn view(&self) -> ShaderGlobalView {
        ShaderGlobalView {
            name: opt_text(self.0),
            uniform: self.1,
            binding: self.2,
            size: self.3,
            members: match self.4 {
                Some(ms) => Some(
                    ms@.map_values(|m: (Option<String>, u32)| (opt_text(m.0), m.1)),
                ),
                None => None,
            },
        }
    }
}

/// Why the WGSL front end gave up on a source text.
#[derive(Clone, Debug)]
pub enum FrontEndError {
    /// The text does not parse; the parse error's message, and the error debug-formatted.
    Parse(String, String),
    /// A type of the parsed module cannot be laid out; the layout error, debug-formatted.
    Layout(String),
}

/// A [`FrontEndError`] as plain values.
pub enum FrontEndFailure {
    Parse(Seq<char>, Seq<char>),
    Layout(Seq<char>),
}

impl View for FrontEndError {
    type V = FrontEndFailure;

    open spec fn view(&self) -> FrontEndFailure {
        match self {
            FrontEndError::Parse(m, d) => FrontEndFailure::Parse(m@, d@),
            FrontEndError::Layout(m) => FrontEndFailure::Layout(m@),
        }
    }
}

/// The global variables of a front-end outcome as plain values.
pub open spec fn globals_view(gs: Seq<ShaderGlobal>) -> Seq<ShaderGlobalView> {
    gs.map_values(|g: ShaderGlobal| g@)
}

/// A front-end outcome as plain values.
pub open spec fn front_end_outcome(r: Result<Vec<ShaderGlobal>, FrontEndError>) -> Result<
    Seq<ShaderGlobalView>,
    FrontEndFailure,
> {
    match r {
        Ok(gs) => Ok(globals_view(gs@)),
        Err(e) => Err(e@),
    }
}

/// What `naga`'s WGSL front end makes of a source text: the module's global variables with their
/// layout, or why it gave up.
pub uninterp spec fn wgsl_front_end(src: Seq<char>) -> Result<
    Seq<ShaderGlobalView>,
    FrontEndFailure,
>;

/// The parse error's message in a front-end outcome, if the text did not parse.
pub open spec fn parse_error_of(r: Result<Seq<ShaderGlobalView>, FrontEndFailure>) -> Option<
    Seq<char>,
> {
    match r {
        Err(FrontEndFailure::Parse(m, _)) => Some(m),
        _ => None,
    }
}

/// Runs `naga`'s WGSL front end on `src`: `naga::front::wgsl::parse_str`, then
/// `naga::proc::Layouter::update` on the module, and reads each global variable's name, address
/// space, binding, layout size and struct members; a parse error gives its message and its debug
/// form. The two calls are one step here because the layouter's input, the parsed module, is a
/// value of the front end's own that no plain value stands for. The outcome is named
/// [`wgsl_front_end`].
#[verifier::external_body]
pub(crate) fn front_end(src: &str) -> (r: Result<Vec<ShaderGlobal>, FrontEndError>)
    ensures
        front_end_outcome(r) == wgsl_front_end(src@),
{
    let m = parse_str(src).map_err(|e| Parse(format!("{e}"), format!("{e:?}")))?;
    let mut l = Layouter::default();
    l.update(m.to_ctx()).map_err(|e| Layout(format!("{e:?}")))?;
    Ok(m.global_variables.iter().map(|(_, g)| ShaderGlobal(
        g.name.clone(),
        g.space == AddressSpace::Uniform,
        g.binding.map(|b| (b.group, b.binding)),
        l[g.ty].size,
        if let TypeInner::Struct { members, .. } = &m.types[g.ty].inner {
            Some(members.iter().map(|s| (s.name.clone(), s.offset)).collect())
        } else { None },
    )).collect())
}

/// The full shader text for an author's fragment stage: the prelude for `names`, a newline, and
/// the author's source.
pub open spec fn composed_spec(names: Seq<&str>, author: Seq<char>) -> Seq<char> {
    prelude_spec(names) + "\n"@ + author
}

/// What [`compose_shader`] reports for a failed parse: `shader <src>: <message>`.
pub open spec fn shader_error_text(src_name: Seq<char>, message: Seq<char>) -> Seq<char> {
    "shader "@ + src_name + ": "@ + message
}

/// What a `shader{}` node's load comes to once the front end has answered: the composed text
/// `full` when `parse_error` is `None`, else the error message naming the shader's source file.
pub fn shader_outcome(src_name: &str, full: String, parse_error: Option<String>) -> (r: Result<
    String,
    String,
>)
    ensures
        match parse_error {
            None => r == Ok::<String, String>(full),
            Some(m) => r matches Err(msg) && msg@ == shader_error_text(src_name@, m@),
        },
{
    match parse_error {
        None => Ok(full),
        Some(e) => {
            let mut msg: Vec<char> = Vec::new();
            push_str(&mut msg, "shader ");
            push_str(&mut msg, src_name);
            push_str(&mut msg, ": ");
            push_str(&mut msg, e.as_str());
            assert(msg@ =~= shader_error_text(src_name@, e@));
            Err(string_from_chars(&msg))
        },
    }
}

/// Builds the complete WGSL for a `shader{}` node (prelude for `names`, then the author's
/// fragment source) and validates it with the WGSL front end at load time, so no GPU is needed
/// to reject a bad shader. On failure the message names the shader's source file.
pub fn compose_shader(src_name: &str, author: &str, names: &[&str]) -> (r: Result<String, String>)
    ensures
        match r {
            Ok(full) => full@ == composed_spec(names@, author@) && parse_error_of(
                wgsl_front_end(full@),
            ) is None,
            Err(msg) => parse_error_of(wgsl_front_end(composed_spec(names@, author@))) matches Some(
                m,
            ) && msg@
                == shader_error_text(src_name@, m),
        },
{
    let prelude = prelude_for(names);
    let mut full: Vec<char> = Vec::new();
    push_str(&mut full, prelude.as_str());
    push_str(&mut full, "\n");
    push_str(&mut full, author);
    let full_s = string_from_chars(&full);
    assert(full_s@ =~= composed_spec(names@, author@));
    let parse_error = match front_end(full_s.as_str()) {
        Err(FrontEndError::Parse(m, _)) => Some(m),
        _ => None,
    };
    shader_outcome(src_name, full_s, parse_error)
}

/// The cache key of a composed shader text: the `DefaultHasher` digest of the text as `Hash`
/// feeds a `str` to a hasher (its UTF-8 bytes, then one `0xFF` byte). Equal texts share a
/// compiled pipeline.
pub fn shader_key(full: &str) -> (k: u64)
    ensures
        k == DefaultHasher::spec_finish(seq![full.spec_bytes(), seq![0xFFu8]]),
{
    let mut h = DefaultHasher::new();
    h.write(full.as_bytes());
    let mut end: Vec<u8> = Vec::new();
    end.push(0xFFu8);
    assert(end@ =~= seq![0xFFu8]);
    h.write(end.as_slice());
    assert(h@ =~= seq![full.spec_bytes(), seq![0xFFu8]]);
    h.finish()
}

/// The field lines of two name lists put one after the other are the first list's lines, then
/// the second's: fields come in the order of the names.
pub proof fn lemma_uniform_fields_concat(a: Seq<&str>, b: Seq<&str>)
    ensures
        uniform_fields(a + b) == uniform_fields(a) + uniform_fields(b),
    decreases b.len(),
{
    if b.len() == 0 {
        assert(a + b =~= a);
        assert(uniform_fields(a) + uniform_fields(b) =~= uniform_fields(a));
    } else {
        lemma_uniform_fields_concat(a, b.drop_last());
        assert((a + b).drop_last() =~= a + b.drop_last());
        assert((a + b).last() == b.last());
        assert(uniform_fields(a + b) =~= uniform_fields(a) + uniform_fields(b));
    }
}

/// The field of the `k`-th name comes `k`-th: after the fields of the names before it and before
/// the fields of the names after it. The first name's field opens the list.
pub proof fn lemma_uniform_field_order(names: Seq<&str>, k: int)
    requires
        0 <= k < names.len(),
    ensures
        uniform_fields(names) == uniform_fields(names.take(k)) + uniform_field(names[k]@)
            + uniform_fields(names.skip(k + 1)),
        uniform_fields(names) == uniform_field(names[0]@) + uniform_fields(names.skip(1)),
{
    let one = seq![names[k]];
    assert(names =~= names.take(k) + one + names.skip(k + 1));
    lemma_uniform_fields_concat(names.take(k) + one, names.skip(k + 1));
    lemma_uniform_fields_concat(names.take(k), one);
    assert(one.drop_last() =~= Seq::<&str>::empty());
    assert(uniform_fields(one.drop_last()) =~= Seq::<char>::empty());
    assert(one.last() == names[k]);
    assert(uniform_fields(one) =~= uniform_field(names[k]@));
    let first = seq![names[0]];
    assert(names =~= first + names.skip(1));
    lemma_uniform_fields_concat(first, names.skip(1));
    assert(first.drop_last() =~= Seq::<&str>::empty());
    assert(uniform_fields(first.drop_last()) =~= Seq::<char>::empty());
    assert(first.last() == names[0]);
    assert(uniform_fields(first) =~= uniform_field(names[0]@));
}

} // verus!
