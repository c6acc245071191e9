//! The scene's float-free vocabulary (colors, alignment, roles, provenance), the stable textual
//! summary a scene prints for snapshot tests, and the z-order rule every hit query follows.

use vstd::prelude::*;
use crate::text::{
    dec, dec_int, is_digit, lemma_dec_digits, push_i64, push_str, push_u64, string_from_chars,
};

verus! {

/// An 8-bit-per-channel RGBA color.
#[derive(Clone, Copy, Debug, PartialEq, Eq, Structural)]
pub struct Color {
    /// Red channel, 0..255.
    pub r: u8,
    /// Green channel, 0..255.
    pub g: u8,
    /// Blue channel, 0..255.
    pub b: u8,
    /// Alpha channel, 0..255 (0 = transparent, 255 = opaque).
    pub a: u8,
}

/// The text a text node draws: either a literal string or a value bound to host state.
#[derive(Clone, Debug, PartialEq, Eq)]
pub enum TextContent {
    /// A fixed, author-supplied string.
    Static(String),
    /// A key resolved against host/engine state at render time.
    Bound(String),
}

/// Direction a value fill or scrub fill grows/reads from.
#[derive(Clone, Copy, Debug, PartialEq, Eq, Structural)]
pub enum FillDir {
    /// Fills/reads left-to-right.
    Right,
    /// Fills/reads right-to-left.
    Left,
    /// Fills/reads bottom-to-top.
    Up,
    /// Fills/reads top-to-bottom.
    Down,
}

/// Horizontal text alignment.
#[derive(Clone, Copy, Debug, PartialEq, Eq, Hash, Structural)]
pub enum HAlign {
    /// Left-aligned.
    Left,
    /// Centered.
    Center,
    /// Right-aligned.
    Right,
}

/// Vertical text alignment.
#[derive(Clone, Copy, Debug, PartialEq, Eq, Hash, Structural)]
pub enum VAlign {
    /// Top-aligned.
    Top,
    /// Middle-aligned.
    Middle,
    /// Bottom-aligned.
    Bottom,
}

/// How a 9-slice frame's center region is drawn.
#[derive(Clone, Copy, Debug, PartialEq, Eq, Structural)]
pub enum FrameCenter {
    /// The center image segment is stretched to fill the remaining space.
    Stretch,
    /// The center is left empty (a hole showing whatever is behind the frame).
    Hollow,
}

/// Opaque id of a registered hotspot press handler (index into the engine's handler table).
pub type HandlerId = usize;

/// Author-declared interaction role for a hotspot, reported by hit classification so a host
/// can classify an OS event without firing the hotspot's handler. Default is `Control`.
#[derive(Clone, Copy, Debug, PartialEq, Eq, Structural)]
pub enum HotspotRole {
    /// Skin consumes the event (a button/control). Default.
    Control,
    /// Host should treat the region as window chrome (move the window).
    Drag,
    /// Event falls through to whatever is behind the skin (a deliberate hole).
    Passthrough,
}

/// Where a scene node came from in the skin source. Metadata only.
#[derive(Clone, Copy, Debug, PartialEq, Eq, Default, Structural)]
pub struct Origin {
    /// 1-based line of the primitive call in the skin's entry Lua, if known.
    pub line: Option<u32>,
    /// Monotonic index of the primitive call that emitted this node; `None` for
    /// engine-generated nodes (list rows, selection highlight).
    pub call: Option<u32>,
}

/// Coarse interaction classification of a point for a host embedder.
#[derive(Clone, Copy, Debug, PartialEq, Eq, Structural)]
pub enum HitKind {
    /// Event should fall through the skin (transparent, or a `role=passthrough` region).
    Passthrough,
    /// The skin consumes the event (a control, or opaque non-interactive skin).
    Control,
    /// Host should move the window (a `role=drag` region).
    Drag,
}

/// The shape of a gradient paint.
#[derive(Clone, Copy, Debug, PartialEq, Eq, Structural)]
pub enum GradientKind {
    /// Stops along a line.
    Linear,
    /// Stops radially outward from a center.
    Radial,
    /// Stops angularly around a center.
    Sweep,
}

/// What the summary reads of a paint: its flat color, or its gradient shape and stop count.
#[derive(Clone, Copy, Debug, PartialEq, Eq, Structural)]
pub enum PaintDigest {
    /// A single flat color.
    Solid(Color),
    /// A gradient of `kind` with `stops` color stops.
    Gradient { kind: GradientKind, stops: usize },
}

/// What the summary reads of one scene node. Geometry is already truncated to whole numbers
/// (the `as i64` the summary prints); the raw hit-test geometry is never part of it.
#[derive(Clone, Debug)]
pub enum NodeDigest {
    /// A flat or gradient polygon fill.
    Fill { paint: PaintDigest },
    /// A clickable hotspot and its handler id.
    Hotspot { on_press: HandlerId },
    /// A value-bound fill.
    ValueFill { value_key: String, direction: FillDir, color: Color },
    /// A bitmap of `width`×`height` pixels drawn at `x`,`y` with size `w`×`h`.
    Image { width: u32, height: u32, x: i64, y: i64, w: i64, h: i64 },
    /// A 9-slice frame of a `width`×`height` bitmap.
    Frame {
        width: u32,
        height: u32,
        left: i64,
        right: i64,
        top: i64,
        bottom: i64,
        center: FrameCenter,
    },
    /// A host-content region.
    View { id: String },
    /// A host-driven list and its visible row count.
    List { collection: String, count: usize },
    /// A click-to-seek bar.
    Scrub { value_key: String, on_seek: String },
    /// A GPU fragment-shader fill drawn at `x`,`y` with size `w`×`h`, fed `uniforms` named
    /// values besides the built-in time and resolution.
    Shader { x: i64, y: i64, w: i64, h: i64, uniforms: usize },
    /// A run of text.
    Text {
        content: TextContent,
        font_name: Option<String>,
        size: i64,
        halign: HAlign,
        valign: VAlign,
        paint: PaintDigest,
    },
}

/// `r,g,b,a` of a color, each in decimal.
pub open spec fn rgba_text(c: Color) -> Seq<char> {
    "rgba="@ + dec(c.r as nat) + ","@ + dec(c.g as nat) + ","@ + dec(c.b as nat) + ","@ + dec(
        c.a as nat,
    )
}

/// The summary's word for a gradient shape.
pub open spec fn gradient_word(k: GradientKind) -> Seq<char> {
    match k {
        GradientKind::Linear => "linear"@,
        GradientKind::Radial => "radial"@,
        GradientKind::Sweep => "sweep"@,
    }
}

/// The summary's words for a paint.
pub open spec fn paint_text(p: PaintDigest) -> Seq<char> {
    match p {
        PaintDigest::Solid(c) => rgba_text(c),
        PaintDigest::Gradient { kind, stops } => "gradient="@ + gradient_word(kind) + " stops="@
            + dec(stops as nat),
    }
}

/// The summary's word for a fill direction.
pub open spec fn dir_word(d: FillDir) -> Seq<char> {
    match d {
        FillDir::Right => "right"@,
        FillDir::Left => "left"@,
        FillDir::Up => "up"@,
        FillDir::Down => "down"@,
    }
}

/// The summary's word for a horizontal alignment.
pub open spec fn halign_word(h: HAlign) -> Seq<char> {
    match h {
        HAlign::Left => "left"@,
        HAlign::Center => "center"@,
        HAlign::Right => "right"@,
    }
}

/// The summary's word for a vertical alignment.
pub open spec fn valign_word(v: VAlign) -> Seq<char> {
    match v {
        VAlign::Top => "top"@,
        VAlign::Middle => "middle"@,
        VAlign::Bottom => "bottom"@,
    }
}

/// The start of a text node's line: its literal (quoted) or its bound key.
pub open spec fn text_head(content: TextContent) -> Seq<char> {
    match content {
        TextContent::Static(s) => "text \""@ + s@ + "\""@,
        TextContent::Bound(k) => "text value="@ + k@,
    }
}

/// The rest of a text node's line: font, size, alignment and paint.
pub open spec fn text_style(
    font_name: Option<String>,
    size: i64,
    halign: HAlign,
    valign: VAlign,
    paint: PaintDigest,
) -> Seq<char> {
    let font = match font_name {
        Some(f) => f@,
        None => "system"@,
    };
    " font="@ + font + " size="@ + dec_int(size as int) + " halign="@ + halign_word(halign)
        + " valign="@ + valign_word(valign) + " "@ + paint_text(paint)
}

/// The summary line of one node.
pub open spec fn node_line(n: NodeDigest) -> Seq<char> {
    match n {
        NodeDigest::Fill { paint } => "fill "@ + paint_text(paint),
        NodeDigest::Hotspot { on_press } => "hotspot handler="@ + dec(on_press as nat),
        NodeDigest::ValueFill { value_key, direction, color } => "value_fill key="@ + value_key@
            + " dir="@ + dir_word(direction) + " "@ + rgba_text(color),
        NodeDigest::Image { width, height, x, y, w, h } => "image "@ + dec(width as nat) + "x"@
            + dec(height as nat) + " at "@ + dec_int(x as int) + ","@ + dec_int(y as int)
            + " dest "@ + dec_int(w as int) + "x"@ + dec_int(h as int),
        NodeDigest::Frame { width, height, left, right, top, bottom, center } => "frame "@ + dec(
            width as nat,
        ) + "x"@ + dec(height as nat) + " slice "@ + dec_int(left as int) + ","@ + dec_int(
            right as int,
        ) + ","@ + dec_int(top as int) + ","@ + dec_int(bottom as int) + " center="@ + match center {
            FrameCenter::Stretch => "stretch"@,
            FrameCenter::Hollow => "hollow"@,
        },
        NodeDigest::View { id } => "view id="@ + id@,
        NodeDigest::List { collection, count } => "list collection="@ + collection@ + " rows="@
            + dec(count as nat),
        NodeDigest::Scrub { value_key, on_seek } => "scrub value="@ + value_key@ + " on_seek="@
            + on_seek@,
        NodeDigest::Shader { x, y, w, h, uniforms } => "shader at "@ + dec_int(x as int) + ","@
            + dec_int(y as int) + " dest "@ + dec_int(w as int) + "x"@ + dec_int(h as int)
            + " uniforms="@ + dec(uniforms as nat),
        NodeDigest::Text { content, font_name, size, halign, valign, paint } => text_head(content)
            + text_style(font_name, size, halign, valign, paint),
    }
}

/// Every node's line, each preceded by a newline.
pub open spec fn node_lines(nodes: Seq<NodeDigest>) -> Seq<char>
    decreases nodes.len(),
{
    if nodes.len() == 0 {
        Seq::empty()
    } else {
        node_lines(nodes.drop_last()) + "\n"@ + node_line(nodes.last())
    }
}

/// The whole summary: the canvas line, then one line per node in draw order.
pub open spec fn summary_spec(canvas: (u32, u32), nodes: Seq<NodeDigest>) -> Seq<char> {
    "canvas "@ + dec(canvas.0 as nat) + "x"@ + dec(canvas.1 as nat) + node_lines(nodes)
}

fn push_rgba(out: &mut Vec<char>, c: Color)
    ensures
        final(out)@ == old(out)@ + rgba_text(c),
{
    push_str(out, "rgba=");
    push_u64(out, c.r as u64);
    push_str(out, ",");
    push_u64(out, c.g as u64);
    push_str(out, ",");
    push_u64(out, c.b as u64);
    push_str(out, ",");
    push_u64(out, c.a as u64);
    assert(final(out)@ =~= old(out)@ + rgba_text(c));
}

fn push_paint(out: &mut Vec<char>, p: PaintDigest)
    ensures
        final(out)@ == old(out)@ + paint_text(p),
{
    match p {
        PaintDigest::Solid(c) => push_rgba(out, c),
        PaintDigest::Gradient { kind, stops } => {
            push_str(out, "gradient=");
            match kind {
                GradientKind::Linear => push_str(out, "linear"),
                GradientKind::Radial => push_str(out, "radial"),
                GradientKind::Sweep => push_str(out, "sweep"),
            }
            push_str(out, " stops=");
            push_u64(out, stops as u64);
            assert(final(out)@ =~= old(out)@ + paint_text(p));
        },
    }
}

#[verifier::spinoff_prover]
fn push_line_fill(out: &mut Vec<char>, n: &NodeDigest)
    requires
        n is Fill,
    ensures
        final(out)@ == old(out)@ + node_line(*n),
{
    match n {
        NodeDigest::Fill { paint } => {
            push_str(out, "fill ");
            push_paint(out, *paint);
            assert(final(out)@ =~= old(out)@ + node_line(*n));
        },
        _ => {},
    }
}

#[verifier::spinoff_prover]
fn push_line_hotspot(out: &mut Vec<char>, n: &NodeDigest)
    requires
        n is Hotspot,
    ensures
        final(out)@ == old(out)@ + node_line(*n),
{
    match n {
        NodeDigest::Hotspot { on_press } => {
            push_str(out, "hotspot handler=");
            push_u64(out, *on_press as u64);
            assert(final(out)@ =~= old(out)@ + node_line(*n));
        },
        _ => {},
    }
}

#[verifier::spinoff_prover]
fn push_line_value_fill(out: &mut Vec<char>, n: &NodeDigest)
    requires
        n is ValueFill,
    ensures
        final(out)@ == old(out)@ + node_line(*n),
{
    match n {
        NodeDigest::ValueFill { value_key, direction, color } => {
            push_str(out, "value_fill key=");
            push_str(out, value_key.as_str());
            push_str(out, " dir=");
            match direction {
                FillDir::Right => push_str(out, "right"),
                FillDir::Left => push_str(out, "left"),
                FillDir::Up => push_str(out, "up"),
                FillDir::Down => push_str(out, "down"),
            }
            push_str(out, " ");
            push_rgba(out, *color);
            assert(final(out)@ =~= old(out)@ + node_line(*n));
        },
        _ => {},
    }
}

#[verifier::spinoff_prover]
fn push_line_image(out: &mut Vec<char>, n: &NodeDigest)
    requires
        n is Image,
    ensures
        final(out)@ == old(out)@ + node_line(*n),
{
    match n {
        NodeDigest::Image { width, height, x, y, w, h } => {
            push_str(out, "image ");
            push_u64(out, *width as u64);
            push_str(out, "x");
            push_u64(out, *height as u64);
            push_str(out, " at ");
            push_i64(out, *x);
            push_str(out, ",");
            push_i64(out, *y);
            push_str(out, " dest ");
            push_i64(out, *w);
            push_str(out, "x");
            push_i64(out, *h);
            assert(final(out)@ =~= old(out)@ + node_line(*n));
        },
        _ => {},
    }
}

#[verifier::spinoff_prover]
fn push_line_frame(out: &mut Vec<char>, n: &NodeDigest)
    requires
        n is Frame,
    ensures
        final(out)@ == old(out)@ + node_line(*n),
{
    match n {
        NodeDigest::Frame { width, height, left, right, top, bottom, center } => {
            push_str(out, "frame ");
            push_u64(out, *width as u64);
            push_str(out, "x");
            push_u64(out, *height as u64);
            push_str(out, " slice ");
            push_i64(out, *left);
            push_str(out, ",");
            push_i64(out, *right);
            push_str(out, ",");
            push_i64(out, *top);
            push_str(out, ",");
            push_i64(out, *bottom);
            push_str(out, " center=");
            match center {
                FrameCenter::Stretch => push_str(out, "stretch"),
                FrameCenter::Hollow => push_str(out, "hollow"),
            }
            assert(final(out)@ =~= old(out)@ + node_line(*n));
        },
        _ => {},
    }
}

#[verifier::spinoff_prover]
fn push_line_view(out: &mut Vec<char>, n: &NodeDigest)
    requires
        n is View,
    ensures
        final(out)@ == old(out)@ + node_line(*n),
{
    match n {
        NodeDigest::View { id } => {
            push_str(out, "view id=");
            push_str(out, id.as_str());
            assert(final(out)@ =~= old(out)@ + node_line(*n));
        },
        _ => {},
    }
}

#[verifier::spinoff_prover]
fn push_line_list(out: &mut Vec<char>, n: &NodeDigest)
    requires
        n is List,
    ensures
        final(out)@ == old(out)@ + node_line(*n),
{
    match n {
        NodeDigest::List { collection, count } => {
            push_str(out, "list collection=");
            push_str(out, collection.as_str());
            push_str(out, " rows=");
            push_u64(out, *count as u64);
            assert(final(out)@ =~= old(out)@ + node_line(*n));
        },
        _ => {},
    }
}

#[verifier::spinoff_prover]
fn push_line_scrub(out: &mut Vec<char>, n: &NodeDigest)
    requires
        n is Scrub,
    ensures
        final(out)@ == old(out)@ + node_line(*n),
{
    match n {
        NodeDigest::Scrub { value_key, on_seek } => {
            push_str(out, "scrub value=");
            push_str(out, value_key.as_str());
            push_str(out, " on_seek=");
            push_str(out, on_seek.as_str());
            assert(final(out)@ =~= old(out)@ + node_line(*n));
        },
        _ => {},
    }
}

#[verifier::spinoff_prover]
fn push_line_shader(out: &mut Vec<char>, n: &NodeDigest)
    requires
        n is Shader,
    ensures
        final(out)@ == old(out)@ + node_line(*n),
{
    match n {
        NodeDigest::Shader { x, y, w, h, uniforms } => {
            push_str(out, "shader at ");
            push_i64(out, *x);
            push_str(out, ",");
            push_i64(out, *y);
            push_str(out, " dest ");
            push_i64(out, *w);
            push_str(out, "x");
            push_i64(out, *h);
            push_str(out, " uniforms=");
            push_u64(out, *uniforms as u64);
            assert(final(out)@ =~= old(out)@ + node_line(*n));
        },
        _ => {},
    }
}

fn push_text_head(out: &mut Vec<char>, content: &TextContent)
    ensures
        final(out)@ == old(out)@ + text_head(*content),
{
    match content {
        TextContent::Static(s) => {
            push_str(out, "text \"");
            push_str(out, s.as_str());
            push_str(out, "\"");
        },
        TextContent::Bound(k) => {
            push_str(out, "text value=");
            push_str(out, k.as_str());
        },
    }
    assert(final(out)@ =~= old(out)@ + text_head(*content));
}

#[verifier::spinoff_prover]
fn push_text_style(
    out: &mut Vec<char>,
    font_name: &Option<String>,
    size: i64,
    halign: HAlign,
    valign: VAlign,
    paint: PaintDigest,
)
    ensures
        final(out)@ == old(out)@ + text_style(*font_name, size, halign, valign, paint),
{
    push_str(out, " font=");
    match font_name {
        Some(f) => push_str(out, f.as_str()),
        None => push_str(out, "system"),
    }
    let ghost a = out@;
    push_str(out, " size=");
    push_i64(out, size);
    push_str(out, " halign=");
    match halign {
        HAlign::Left => push_str(out, "left"),
        HAlign::Center => push_str(out, "center"),
        HAlign::Right => push_str(out, "right"),
    }
    let ghost b = out@;
    push_str(out, " valign=");
    match valign {
        VAlign::Top => push_str(out, "top"),
        VAlign::Middle => push_str(out, "middle"),
        VAlign::Bottom => push_str(out, "bottom"),
    }
    push_str(out, " ");
    push_paint(out, paint);
    assert(final(out)@ =~= old(out)@ + text_style(*font_name, size, halign, valign, paint));
}

fn push_line_text(out: &mut Vec<char>, n: &NodeDigest)
    requires
        n is Text,
    ensures
        final(out)@ == old(out)@ + node_line(*n),
{
    match n {
        NodeDigest::Text { content, font_name, size, halign, valign, paint } => {
            push_text_head(out, content);
            push_text_style(out, font_name, *size, *halign, *valign, *paint);
            assert(final(out)@ =~= old(out)@ + node_line(*n));
        },
        _ => {},
    }
}

fn push_node_line(out: &mut Vec<char>, n: &NodeDigest)
    ensures
        final(out)@ == old(out)@ + node_line(*n),
{
    match n {
        NodeDigest::Fill { .. } => push_line_fill(out, n),
        NodeDigest::Hotspot { .. } => push_line_hotspot(out, n),
        NodeDigest::ValueFill { .. } => push_line_value_fill(out, n),
        NodeDigest::Image { .. } => push_line_image(out, n),
        NodeDigest::Frame { .. } => push_line_frame(out, n),
        NodeDigest::View { .. } => push_line_view(out, n),
        NodeDigest::List { .. } => push_line_list(out, n),
        NodeDigest::Scrub { .. } => push_line_scrub(out, n),
        NodeDigest::Shader { .. } => push_line_shader(out, n),
        NodeDigest::Text { .. } => push_line_text(out, n),
    }
}

/// A stable, domain-neutral textual summary of a scene, for snapshot tests: the canvas size,
/// then one line per node (kind, style and binding keys; never the raw hit-test geometry).
pub fn summary(canvas: (u32, u32), nodes: &Vec<NodeDigest>) -> (s: String)
    ensures
        s@ == summary_spec(canvas, nodes@),
{
    let mut out: Vec<char> = Vec::new();
    push_str(&mut out, "canvas ");
    push_u64(&mut out, canvas.0 as u64);
    push_str(&mut out, "x");
    push_u64(&mut out, canvas.1 as u64);
    let mut i: usize = 0;
    while i < nodes.len()
        invariant
            i <= nodes.len(),
            out@ == "canvas "@ + dec(canvas.0 as nat) + "x"@ + dec(canvas.1 as nat) + node_lines(
                nodes@.take(i as int),
            ),
        decreases nodes.len() - i,
    {
        let ghost before = out@;
        push_str(&mut out, "\n");
        push_node_line(&mut out, &nodes[i]);
        assert(nodes@.take(i + 1).drop_last() =~= nodes@.take(i as int));
        assert(out@ =~= before + "\n"@ + node_line(nodes@[i as int]));
        i += 1;
    }
    assert(nodes@.take(nodes.len() as int) =~= nodes@);
    string_from_chars(&out)
}

/// True when `i` is the last index of `flags` that is set.
pub open spec fn is_topmost(flags: Seq<bool>, i: int) -> bool {
    &&& 0 <= i < flags.len()
    &&& flags[i]
    &&& forall|j: int| i < j < flags.len() ==> !flags[j]
}

/// The topmost (last in draw order) node whose flag is set. Later nodes draw on top and win
/// every hit query, so this is the z-order rule `hit`, `hit_any`, `hit_row`, `hit_scrub` and
/// `pick` share once each node has been tested against the point.
pub fn topmost(flags: &Vec<bool>) -> (r: Option<usize>)
    ensures
        r matches Some(i) ==> is_topmost(flags@, i as int),
        r is None <==> forall|j: int| 0 <= j < flags.len() ==> !flags@[j],
{
    let mut i = flags.len();
    while i > 0
        invariant
            i <= flags.len(),
            forall|j: int| i <= j < flags.len() ==> !flags@[j],
        decreases i,
    {
        i -= 1;
        if flags[i] {
            return Some(i);
        }
    }
    None
}

/// What one node says about a point when classifying it for the host.
#[derive(Clone, Copy, Debug, PartialEq, Eq, Structural)]
pub enum HitProbe {
    /// The node does not take the point (not interactive there, or the point misses it).
    Miss,
    /// A hotspot whose region contains the point.
    Hotspot(HotspotRole),
    /// A list row or a scrub bar that takes the point.
    Widget,
}

/// The classification the topmost taking node gives.
pub open spec fn probe_kind(p: HitProbe) -> HitKind {
    match p {
        HitProbe::Hotspot(HotspotRole::Drag) => HitKind::Drag,
        HitProbe::Hotspot(HotspotRole::Passthrough) => HitKind::Passthrough,
        _ => HitKind::Control,
    }
}

/// True when `i` is the last node of `probes` that takes the point.
pub open spec fn is_top_probe(probes: Seq<HitProbe>, i: int) -> bool {
    &&& 0 <= i < probes.len()
    &&& probes[i] != HitProbe::Miss
    &&& forall|j: int| i < j < probes.len() ==> probes[j] == HitProbe::Miss
}

/// What [`classify_hit`] returns.
pub open spec fn classify_spec(probes: Seq<HitProbe>, covered: bool) -> HitKind {
    if exists|i: int| is_top_probe(probes, i) {
        probe_kind(probes[choose|i: int| is_top_probe(probes, i)])
    } else if covered {
        HitKind::Control
    } else {
        HitKind::Passthrough
    }
}

/// Classifies a point for a host embedder without firing any handler: the topmost node that
/// takes the point decides (a hotspot by its role, a list row or scrub as a control); when none
/// does, opaque coverage means `Control` and transparency means `Passthrough`.
pub fn classify_hit(probes: &Vec<HitProbe>, covered: bool) -> (k: HitKind)
    ensures
        k == classify_spec(probes@, covered),
{
    let mut i = probes.len();
    while i > 0
        invariant
            i <= probes.len(),
            forall|j: int| i <= j < probes.len() ==> probes@[j] == HitProbe::Miss,
        decreases i,
    {
        i -= 1;
        let p = probes[i];
        if p != HitProbe::Miss {
            assert(is_top_probe(probes@, i as int));
            proof {
                let c = choose|m: int| is_top_probe(probes@, m);
                if c < i {
                    assert(probes@[i as int] == HitProbe::Miss);
                } else if c > i {
                    assert(probes@[c] == HitProbe::Miss);
                }
            }
            return match p {
                HitProbe::Hotspot(HotspotRole::Drag) => HitKind::Drag,
                HitProbe::Hotspot(HotspotRole::Passthrough) => HitKind::Passthrough,
                _ => HitKind::Control,
            };
        }
    }
    assert(!exists|m: int| is_top_probe(probes@, m));
    if covered {
        HitKind::Control
    } else {
        HitKind::Passthrough
    }
}

/// How one `list{}` expands for a frame: the rows it shows, the row its selection highlight
/// sits behind (if any), and how many nodes expansion inserts after it.
#[derive(Clone, Copy, Debug, PartialEq, Eq, Structural)]
pub struct ListPlan {
    /// Rows shown: as many as the host has, but no more than fit.
    pub count: usize,
    /// The highlighted row, when a selection is set and names a shown row.
    pub highlight: Option<usize>,
    /// Nodes inserted after the list: the highlight bar (if any), then one text node per
    /// template cell per shown row.
    pub generated: usize,
}

/// The smaller of `a` and `b`.
pub open spec fn min_usize(a: usize, b: usize) -> usize {
    if a < b {
        a
    } else {
        b
    }
}

/// The highlighted row: the selection, when it names one of the `count` shown rows.
pub open spec fn highlight_row(selected: Option<usize>, count: usize) -> Option<usize> {
    match selected {
        Some(i) => if i < count {
            Some(i)
        } else {
            None
        },
        None => None,
    }
}

/// Plans a list's expansion: of `rows` host rows and `visible` rows that fit, it shows the
/// smaller number; a `selected` row index (the host's selection, present only when the list
/// declares both a highlight color and a selection key) is highlighted only when shown; every
/// shown row gets one node per template cell, after the highlight bar.
pub fn plan_list(rows: usize, visible: usize, cells: usize, selected: Option<usize>) -> (p: ListPlan)
    requires
        min_usize(rows, visible) * cells + 1 <= usize::MAX,
    ensures
        p.count == min_usize(rows, visible),
        p.highlight == highlight_row(selected, p.count),
        p.generated == (if p.highlight is Some {
            1int
        } else {
            0int
        }) + p.count * cells,
{
    let count = if rows < visible {
        rows
    } else {
        visible
    };
    let highlight = match selected {
        Some(i) => if i < count {
            Some(i)
        } else {
            None
        },
        None => None,
    };
    let bar: usize = if highlight.is_some() {
        1
    } else {
        0
    };
    ListPlan { count, highlight, generated: bar + count * cells }
}

/// The provenance of a node that layout expansion generates from a list declared at `list`:
/// the list's source line, and no call ordinal.
pub open spec fn generated_origin(list: Origin) -> Origin {
    Origin { line: list.line, call: None }
}

/// Origins aligned with an expanded scene: each design node keeps its origin, and the
/// `generated[i]` nodes expansion inserts right after design node `i` (a list's selection
/// highlight and row cells) carry [`generated_origin`] of it.
pub open spec fn expanded_origins_spec(origins: Seq<Origin>, generated: Seq<usize>) -> Seq<Origin>
    decreases origins.len(),
{
    if origins.len() == 0 {
        Seq::empty()
    } else {
        let n = (origins.len() - 1) as int;
        expanded_origins_spec(origins.drop_last(), generated.take(n)) + seq![origins.last()]
            + Seq::new(generated[n] as nat, |k: int| generated_origin(origins.last()))
    }
}

/// The number of nodes an expanded scene has: one per design node plus the generated ones.
pub open spec fn expanded_len(generated: Seq<usize>) -> int
    decreases generated.len(),
{
    if generated.len() == 0 {
        0
    } else {
        expanded_len(generated.drop_last()) + 1 + generated.last()
    }
}

/// Builds the origins of an expanded scene, one per output node in order: design node `i`'s
/// origin, followed by `generated[i]` copies of its line with no call ordinal.
pub fn expand_origins(origins: &Vec<Origin>, generated: &Vec<usize>) -> (out: Vec<Origin>)
    requires
        origins.len() == generated.len(),
    ensures
        out@ == expanded_origins_spec(origins@, generated@),
{
    let mut out: Vec<Origin> = Vec::new();
    let mut i: usize = 0;
    while i < origins.len()
        invariant
            origins.len() == generated.len(),
            i <= origins.len(),
            out@ == expanded_origins_spec(origins@.take(i as int), generated@.take(i as int)),
        decreases origins.len() - i,
    {
        let o = origins[i];
        let ghost before = out@;
        out.push(o);
        let g = generated[i];
        let gen = Origin { line: o.line, call: None };
        let mut k: usize = 0;
        while k < g
            invariant
                k <= g,
                gen == generated_origin(o),
                out@ == before + seq![o] + Seq::new(k as nat, |m: int| generated_origin(o)),
            decreases g - k,
        {
            out.push(gen);
            assert(out@ =~= before + seq![o] + Seq::new((k + 1) as nat, |m: int| generated_origin(o)));
            k += 1;
        }
        assert(origins@.take(i + 1).drop_last() =~= origins@.take(i as int));
        assert(generated@.take(i + 1).take(i as int) =~= generated@.take(i as int));
        i += 1;
    }
    assert(origins@.take(origins.len() as int) =~= origins@);
    assert(generated@.take(generated.len() as int) =~= generated@);
    out
}

/// Expansion keeps origins aligned with nodes: the expanded origins number exactly one per
/// design node plus one per generated node.
pub proof fn lemma_expanded_origins_len(origins: Seq<Origin>, generated: Seq<usize>)
    requires
        origins.len() == generated.len(),
    ensures
        expanded_origins_spec(origins, generated).len() == expanded_len(generated),
    decreases origins.len(),
{
    if origins.len() > 0 {
        let n = (origins.len() - 1) as int;
        assert(generated.take(n) =~= generated.drop_last());
        lemma_expanded_origins_len(origins.drop_last(), generated.take(n));
    }
}

/// Expansion never invents a call: every origin in the expanded list is either a design node's
/// origin or a generated one, which carries no call ordinal and the source line of a design node.
pub proof fn lemma_expanded_origins_provenance(origins: Seq<Origin>, generated: Seq<usize>, k: int)
    requires
        origins.len() == generated.len(),
        0 <= k < expanded_origins_spec(origins, generated).len(),
    ensures
        exists|i: int|
            0 <= i < origins.len() && (expanded_origins_spec(origins, generated)[k] == origins[i]
                || expanded_origins_spec(origins, generated)[k] == generated_origin(origins[i])),
    decreases origins.len(),
{
    let n = (origins.len() - 1) as int;
    let prev = expanded_origins_spec(origins.drop_last(), generated.take(n));
    if k < prev.len() {
        lemma_expanded_origins_provenance(origins.drop_last(), generated.take(n), k);
        let i = choose|i: int|
            0 <= i < origins.drop_last().len() && (prev[k] == origins.drop_last()[i] || prev[k]
                == generated_origin(origins.drop_last()[i]));
        assert(origins[i] == origins.drop_last()[i]);
    } else {
        assert(expanded_origins_spec(origins, generated)[k] == origins[n]
            || expanded_origins_spec(origins, generated)[k] == generated_origin(origins[n]));
    }
}

/// The pieces of `s` between its newlines, as `str::split('\n')` cuts them: one piece more than
/// `s` has newlines, the newlines themselves dropped.
pub open spec fn split_lines(s: Seq<char>) -> Seq<Seq<char>>
    decreases s.len(),
{
    if s.len() == 0 {
        seq![Seq::empty()]
    } else {
        let rest = split_lines(s.drop_first());
        if s[0] == '\n' {
            seq![Seq::<char>::empty()] + rest
        } else {
            rest.update(0, seq![s[0]] + rest[0])
        }
    }
}

/// True when `s` holds no newline.
pub open spec fn no_newline(s: Seq<char>) -> bool {
    forall|i: int| 0 <= i < s.len() ==> #[trigger] s[i] != '\n'
}

/// True when no text a node carries (keys, ids, action and collection names, literal text, font
/// name) holds a newline.
pub open spec fn digest_text_clean(n: NodeDigest) -> bool {
    match n {
        NodeDigest::ValueFill { value_key, .. } => no_newline(value_key@),
        NodeDigest::View { id } => no_newline(id@),
        NodeDigest::List { collection, .. } => no_newline(collection@),
        NodeDigest::Scrub { value_key, on_seek } => no_newline(value_key@) && no_newline(on_seek@),
        NodeDigest::Text { content, font_name, .. } => (match content {
            TextContent::Static(t) => no_newline(t@),
            TextContent::Bound(k) => no_newline(k@),
        }) && (match font_name {
            Some(f) => no_newline(f@),
            None => true,
        }),
        _ => true,
    }
}

/// The summary's first line: the canvas size.
pub open spec fn canvas_line(canvas: (u32, u32)) -> Seq<char> {
    "canvas "@ + dec(canvas.0 as nat) + "x"@ + dec(canvas.1 as nat)
}

proof fn lemma_split_nonempty(s: Seq<char>)
    ensures
        split_lines(s).len() >= 1,
    decreases s.len(),
{
    if s.len() > 0 {
        lemma_split_nonempty(s.drop_first());
    }
}

proof fn lemma_split_single(s: Seq<char>)
    requires
        no_newline(s),
    ensures
        split_lines(s) == seq![s],
    decreases s.len(),
{
    if s.len() > 0 {
        assert(s[0] != '\n');
        lemma_split_single(s.drop_first());
        assert(seq![s[0]] + s.drop_first() =~= s);
        assert(split_lines(s) =~= seq![s]);
    } else {
        assert(s =~= Seq::<char>::empty());
    }
}

proof fn lemma_split_at_newline(a: Seq<char>, b: Seq<char>)
    ensures
        split_lines(a + seq!['\n'] + b) == split_lines(a) + split_lines(b),
    decreases a.len(),
{
    let s = a + seq!['\n'] + b;
    if a.len() == 0 {
        assert(s.drop_first() =~= b);
        assert(a =~= Seq::<char>::empty());
        assert(split_lines(s) =~= split_lines(a) + split_lines(b));
    } else {
        let a1 = a.drop_first();
        assert(s.drop_first() =~= a1 + seq!['\n'] + b);
        lemma_split_at_newline(a1, b);
        lemma_split_nonempty(a1);
        assert(s[0] == a[0]);
        assert(split_lines(s) =~= split_lines(a) + split_lines(b));
    }
}

proof fn lemma_dec_clean(n: nat)
    ensures
        no_newline(dec(n)),
{
    lemma_dec_digits(n);
    assert forall|i: int| 0 <= i < dec(n).len() implies #[trigger] dec(n)[i] != '\n' by {
        assert(is_digit(dec(n)[i]));
    }
}

proof fn lemma_dec_int_clean(i: int)
    ensures
        no_newline(dec_int(i)),
{
    if i < 0 {
        lemma_dec_clean((-i) as nat);
    } else {
        lemma_dec_clean(i as nat);
    }
}

proof fn lemma_rgba_clean(c: Color)
    ensures
        no_newline(rgba_text(c)),
{
    reveal_strlit("rgba=");
    reveal_strlit(",");
    lemma_dec_clean(c.r as nat);
    lemma_dec_clean(c.g as nat);
    lemma_dec_clean(c.b as nat);
    lemma_dec_clean(c.a as nat);
}

proof fn lemma_paint_clean(p: PaintDigest)
    ensures
        no_newline(paint_text(p)),
{
    reveal_strlit("gradient=");
    reveal_strlit(" stops=");
    reveal_strlit("linear");
    reveal_strlit("radial");
    reveal_strlit("sweep");
    match p {
        PaintDigest::Solid(c) => lemma_rgba_clean(c),
        PaintDigest::Gradient { kind, stops } => lemma_dec_clean(stops as nat),
    }
}

proof fn lemma_text_clean(
    content: TextContent,
    font_name: Option<String>,
    size: i64,
    halign: HAlign,
    valign: VAlign,
    paint: PaintDigest,
)
    requires
        match content {
            TextContent::Static(t) => no_newline(t@),
            TextContent::Bound(k) => no_newline(k@),
        },
        match font_name {
            Some(f) => no_newline(f@),
            None => true,
        },
    ensures
        no_newline(text_head(content) + text_style(font_name, size, halign, valign, paint)),
{
    reveal_strlit("text \"");
    reveal_strlit("\"");
    reveal_strlit("text value=");
    reveal_strlit("system");
    reveal_strlit(" font=");
    reveal_strlit(" size=");
    reveal_strlit(" halign=");
    reveal_strlit(" valign=");
    reveal_strlit(" ");
    reveal_strlit("left");
    reveal_strlit("center");
    reveal_strlit("right");
    reveal_strlit("top");
    reveal_strlit("middle");
    reveal_strlit("bottom");
    lemma_dec_int_clean(size as int);
    lemma_paint_clean(paint);
}

/// A node's summary line holds no newline when none of its texts does.
pub proof fn lemma_node_line_clean(n: NodeDigest)
    requires
        digest_text_clean(n),
    ensures
        no_newline(node_line(n)),
{
    reveal_strlit("fill ");
    reveal_strlit("hotspot handler=");
    reveal_strlit("value_fill key=");
    reveal_strlit(" dir=");
    reveal_strlit(" ");
    reveal_strlit("right");
    reveal_strlit("left");
    reveal_strlit("up");
    reveal_strlit("down");
    reveal_strlit("image ");
    reveal_strlit("x");
    reveal_strlit(" at ");
    reveal_strlit(",");
    reveal_strlit(" dest ");
    reveal_strlit("frame ");
    reveal_strlit(" slice ");
    reveal_strlit(" center=");
    reveal_strlit("stretch");
    reveal_strlit("hollow");
    reveal_strlit("view id=");
    reveal_strlit("list collection=");
    reveal_strlit(" rows=");
    reveal_strlit("scrub value=");
    reveal_strlit(" on_seek=");
    reveal_strlit("shader at ");
    reveal_strlit(" uniforms=");
    match n {
        NodeDigest::Fill { paint } => lemma_paint_clean(paint),
        NodeDigest::Hotspot { on_press } => lemma_dec_clean(on_press as nat),
        NodeDigest::ValueFill { value_key, direction, color } => lemma_rgba_clean(color),
        NodeDigest::Image { width, height, x, y, w, h } => {
            lemma_dec_clean(width as nat);
            lemma_dec_clean(height as nat);
            lemma_dec_int_clean(x as int);
            lemma_dec_int_clean(y as int);
            lemma_dec_int_clean(w as int);
            lemma_dec_int_clean(h as int);
        },
        NodeDigest::Frame { width, height, left, right, top, bottom, center } => {
            lemma_dec_clean(width as nat);
            lemma_dec_clean(height as nat);
            lemma_dec_int_clean(left as int);
            lemma_dec_int_clean(right as int);
            lemma_dec_int_clean(top as int);
            lemma_dec_int_clean(bottom as int);
        },
        NodeDigest::View { id } => {},
        NodeDigest::List { collection, count } => lemma_dec_clean(count as nat),
        NodeDigest::Scrub { value_key, on_seek } => {},
        NodeDigest::Shader { x, y, w, h, uniforms } => {
            lemma_dec_int_clean(x as int);
            lemma_dec_int_clean(y as int);
            lemma_dec_int_clean(w as int);
            lemma_dec_int_clean(h as int);
            lemma_dec_clean(uniforms as nat);
        },
        NodeDigest::Text { content, font_name, size, halign, valign, paint } => {
            lemma_text_clean(content, font_name, size, halign, valign, paint);
        },
    }
}

proof fn lemma_lines_after(head: Seq<char>, nodes: Seq<NodeDigest>)
    requires
        no_newline(head),
        forall|i: int| 0 <= i < nodes.len() ==> digest_text_clean(#[trigger] nodes[i]),
    ensures
        split_lines(head + node_lines(nodes)) == seq![head] + nodes.map_values(
            |n: NodeDigest| node_line(n),
        ),
    decreases nodes.len(),
{
    if nodes.len() == 0 {
        assert(head + node_lines(nodes) =~= head);
        lemma_split_single(head);
        assert(seq![head] + nodes.map_values(|n: NodeDigest| node_line(n)) =~= seq![head]);
    } else {
        let init = nodes.drop_last();
        let last = nodes.last();
        assert(forall|i: int| 0 <= i < init.len() ==> init[i] == nodes[i]);
        lemma_lines_after(head, init);
        reveal_strlit("\n");
        assert(head + node_lines(nodes) =~= (head + node_lines(init)) + seq!['\n'] + node_line(
            last,
        ));
        lemma_split_at_newline(head + node_lines(init), node_line(last));
        lemma_node_line_clean(last);
        lemma_split_single(node_line(last));
        assert(seq![head] + nodes.map_values(|n: NodeDigest| node_line(n)) =~= (seq![head]
            + init.map_values(|n: NodeDigest| node_line(n))) + seq![node_line(last)]);
    }
}

/// Split at its newlines, the summary of a scene whose node texts hold no newline is the canvas
/// line followed by exactly one line per node, in draw order, each the line of that node alone.
pub proof fn lemma_summary_lines(canvas: (u32, u32), nodes: Seq<NodeDigest>)
    requires
        forall|i: int| 0 <= i < nodes.len() ==> digest_text_clean(#[trigger] nodes[i]),
    ensures
        split_lines(summary_spec(canvas, nodes)) == seq![canvas_line(canvas)] + nodes.map_values(
            |n: NodeDigest| node_line(n),
        ),
        split_lines(summary_spec(canvas, nodes)).len() == nodes.len() + 1,
{
    reveal_strlit("canvas ");
    reveal_strlit("x");
    lemma_dec_clean(canvas.0 as nat);
    lemma_dec_clean(canvas.1 as nat);
    assert(no_newline(canvas_line(canvas)));
    assert(summary_spec(canvas, nodes) =~= canvas_line(canvas) + node_lines(nodes));
    lemma_lines_after(canvas_line(canvas), nodes);
}

/// Each fill direction's word in the summary is its own lowercase name, so no two directions
/// share one.
pub proof fn lemma_dir_words(d1: FillDir, d2: FillDir)
    ensures
        dir_word(FillDir::Right) == seq!['r', 'i', 'g', 'h', 't'],
        dir_word(FillDir::Left) == seq!['l', 'e', 'f', 't'],
        dir_word(FillDir::Up) == seq!['u', 'p'],
        dir_word(FillDir::Down) == seq!['d', 'o', 'w', 'n'],
        d1 != d2 ==> dir_word(d1) != dir_word(d2),
{
    reveal_strlit("right");
    reveal_strlit("left");
    reveal_strlit("up");
    reveal_strlit("down");
    if d1 != d2 {
        let w1 = dir_word(d1);
        let w2 = dir_word(d2);
        if w1.len() == w2.len() {
            assert(w1[0] != w2[0]);
        }
    }
}

/// Each alignment's word in the summary is its own lowercase name, so no two alignments share
/// one.
pub proof fn lemma_align_words(h1: HAlign, h2: HAlign, v1: VAlign, v2: VAlign)
    ensures
        halign_word(HAlign::Left) == seq!['l', 'e', 'f', 't'],
        halign_word(HAlign::Center) == seq!['c', 'e', 'n', 't', 'e', 'r'],
        halign_word(HAlign::Right) == seq!['r', 'i', 'g', 'h', 't'],
        valign_word(VAlign::Top) == seq!['t', 'o', 'p'],
        valign_word(VAlign::Middle) == seq!['m', 'i', 'd', 'd', 'l', 'e'],
        valign_word(VAlign::Bottom) == seq!['b', 'o', 't', 't', 'o', 'm'],
        h1 != h2 ==> halign_word(h1) != halign_word(h2),
        v1 != v2 ==> valign_word(v1) != valign_word(v2),
{
    reveal_strlit("left");
    reveal_strlit("center");
    reveal_strlit("right");
    reveal_strlit("top");
    reveal_strlit("middle");
    reveal_strlit("bottom");
    if h1 != h2 && halign_word(h1).len() == halign_word(h2).len() {
        assert(halign_word(h1)[0] != halign_word(h2)[0]);
    }
    if v1 != v2 && valign_word(v1).len() == valign_word(v2).len() {
        assert(valign_word(v1)[0] != valign_word(v2)[0]);
    }
}

/// Each gradient shape's word in the summary is its own lowercase name, so no two shapes share
/// one.
pub proof fn lemma_gradient_words(k1: GradientKind, k2: GradientKind)
    ensures
        gradient_word(GradientKind::Linear) == seq!['l', 'i', 'n', 'e', 'a', 'r'],
        gradient_word(GradientKind::Radial) == seq!['r', 'a', 'd', 'i', 'a', 'l'],
        gradient_word(GradientKind::Sweep) == seq!['s', 'w', 'e', 'e', 'p'],
        k1 != k2 ==> gradient_word(k1) != gradient_word(k2),
{
    reveal_strlit("linear");
    reveal_strlit("radial");
    reveal_strlit("sweep");
    if k1 != k2 && gradient_word(k1).len() == gradient_word(k2).len() {
        assert(gradient_word(k1)[0] != gradient_word(k2)[0]);
    }
}

proof fn lemma_concat_differs(a: Seq<char>, w1: Seq<char>, w2: Seq<char>, b: Seq<char>)
    requires
        w1 != w2,
        w1.len() == w2.len() ==> w1[0] != w2[0],
        w1.len() > 0,
    ensures
        a + w1 + b != a + w2 + b,
{
    if w1.len() != w2.len() {
        assert((a + w1 + b).len() != (a + w2 + b).len());
    } else {
        assert((a + w1 + b)[a.len() as int] == w1[0]);
        assert((a + w2 + b)[a.len() as int] == w2[0]);
    }
}

/// Two value fills that differ only in direction get different summary lines: the summary tells
/// every direction apart.
pub proof fn lemma_value_fill_line_shows_direction(
    key: String,
    d1: FillDir,
    d2: FillDir,
    color: Color,
)
    requires
        d1 != d2,
    ensures
        node_line(NodeDigest::ValueFill { value_key: key, direction: d1, color })
            != node_line(NodeDigest::ValueFill { value_key: key, direction: d2, color }),
{
    lemma_dir_words(d1, d2);
    let a = "value_fill key="@ + key@ + " dir="@;
    let b = " "@ + rgba_text(color);
    let w1 = dir_word(d1);
    let w2 = dir_word(d2);
    if w1.len() == w2.len() {
        assert(w1[0] != w2[0]);
    }
    lemma_concat_differs(a, w1, w2, b);
    assert(node_line(NodeDigest::ValueFill { value_key: key, direction: d1, color }) =~= a + w1
        + b);
    assert(node_line(NodeDigest::ValueFill { value_key: key, direction: d2, color }) =~= a + w2
        + b);
}

/// Every shown row can be highlighted: a selection names the highlighted row exactly when it
/// names one of the `count` shown rows, and no row is highlighted without a selection.
pub proof fn lemma_every_shown_row_highlightable(i: usize, count: usize, selected: Option<usize>)
    ensures
        i < count ==> highlight_row(Some(i), count) == Some(i),
        i >= count ==> highlight_row(Some(i), count) is None,
        highlight_row(None, count) is None,
        highlight_row(selected, count) matches Some(h) ==> h < count && selected == Some(h),
{
}

} // verus!
