//! The proto demo's plain data (manifest, skin files, pixmap), its window blit (a
//! nearest-neighbor scale of an RGBA canvas into a `0RGB` window buffer), and the decisions its
//! window makes on each input: which skin of which demo host to show, and what to do next.

use vstd::prelude::*;
use crate::text::chars_of;

verus! {

/// The proto demo's `skin.toml`: identity, canvas size and Lua entry file.
#[derive(Debug, PartialEq, Eq)]
pub struct Manifest {
    /// Skin identifier.
    pub id: String,
    /// Display name.
    pub name: String,
    /// Canvas width.
    pub width: u32,
    /// Canvas height.
    pub height: u32,
    /// Lua entry filename, relative to the skin directory.
    pub entry: String,
}

/// A loaded proto demo skin: its manifest and its Lua source.
#[derive(Debug)]
pub struct SkinFiles {
    /// The parsed manifest.
    pub manifest: Manifest,
    /// The entry script's source.
    pub lua_src: String,
}

/// An opaque RGB color of the proto demo's vocabulary.
#[derive(Clone, Copy, Debug, PartialEq, Eq, Structural)]
pub struct Color {
    /// Red channel.
    pub r: u8,
    /// Green channel.
    pub g: u8,
    /// Blue channel.
    pub b: u8,
}

/// A rendered canvas: `width * height` RGBA8 pixels, row-major.
pub struct Pixmap {
    /// Width in pixels.
    pub width: u32,
    /// Height in pixels.
    pub height: u32,
    /// Pixel bytes, four per pixel.
    pub data: Vec<u8>,
}

/// Byte offset in the canvas of the source pixel for window pixel (`x`, `y`).
pub open spec fn source_offset(x: int, y: int, cw: int, ch: int, pw: int, ph: int) -> int {
    ((y * ch / ph) * cw + x * cw / pw) * 4
}

/// An RGB triple packed as `0RGB` in a `u32`.
pub open spec fn pack_0rgb(r: u8, g: u8, b: u8) -> u32 {
    ((r as u32) << 16u32) | ((g as u32) << 8u32) | (b as u32)
}

/// The window pixel (`x`, `y`): the nearest canvas pixel's color.
pub open spec fn window_pixel(data: Seq<u8>, x: int, y: int, cw: int, ch: int, pw: int, ph: int) -> u32 {
    let i = source_offset(x, y, cw, ch, pw, ph);
    pack_0rgb(data[i], data[i + 1], data[i + 2])
}

proof fn lemma_scaled_below(p: int, c: int, s: int)
    requires
        0 <= p < s,
        0 < c,
    ensures
        0 <= p * c / s < c,
{
    assert(p * c < s * c) by (nonlinear_arith)
        requires
            0 <= p < s,
            0 < c,
    ;
    assert(0 <= p * c) by (nonlinear_arith)
        requires
            0 <= p,
            0 < c,
    ;
    vstd::arithmetic::div_mod::lemma_multiply_divide_lt(p * c, s, c);
    vstd::arithmetic::div_mod::lemma_div_pos_is_pos(p * c, s);
}

proof fn lemma_offset_in_canvas(x: int, y: int, cw: int, ch: int, pw: int, ph: int)
    requires
        0 <= x < pw,
        0 <= y < ph,
        0 < cw,
        0 < ch,
    ensures
        0 <= source_offset(x, y, cw, ch, pw, ph),
        source_offset(x, y, cw, ch, pw, ph) + 4 <= cw * ch * 4,
{
    lemma_scaled_below(y, ch, ph);
    lemma_scaled_below(x, cw, pw);
    let sy = y * ch / ph;
    let sx = x * cw / pw;
    assert(sy * cw + sx + 1 <= cw * ch) by (nonlinear_arith)
        requires
            0 <= sy < ch,
            0 <= sx < cw,
    ;
    assert(0 <= sy * cw) by (nonlinear_arith)
        requires
            0 <= sy,
            0 < cw,
    ;
}

/// Scales a `cw`×`ch` RGBA canvas to a `pw`×`ph` window by nearest neighbor, packing each pixel
/// as `0RGB` (alpha dropped). Window pixel (`x`, `y`) is at index `y * pw + x` and takes canvas
/// pixel (`x * cw / pw`, `y * ch / ph`).
pub fn blit_nearest(data: &Vec<u8>, cw: u32, ch: u32, pw: u32, ph: u32) -> (buf: Vec<u32>)
    requires
        0 < cw,
        0 < ch,
        0 < pw,
        0 < ph,
        cw * ch * 4 <= data.len(),
        cw * ch * 4 <= u32::MAX,
        ph * ch <= u32::MAX,
        pw * cw <= u32::MAX,
        pw * ph <= u32::MAX,
    ensures
        buf.len() == pw * ph,
        forall|k: int|
            0 <= k < buf.len() ==> #[trigger] buf@[k] == window_pixel(
                data@,
                k % pw as int,
                k / pw as int,
                cw as int,
                ch as int,
                pw as int,
                ph as int,
            ),
{
    let mut buf: Vec<u32> = Vec::new();
    let mut py: u32 = 0;
    while py < ph
        invariant
            0 < cw,
            0 < ch,
            0 < pw,
            0 < ph,
            cw * ch * 4 <= data.len(),
            cw * ch * 4 <= u32::MAX,
            ph * ch <= u32::MAX,
            pw * cw <= u32::MAX,
            pw * ph <= u32::MAX,
            py <= ph,
            buf.len() == py * pw,
            forall|k: int|
                0 <= k < buf.len() ==> #[trigger] buf@[k] == window_pixel(
                    data@,
                    k % pw as int,
                    k / pw as int,
                    cw as int,
                    ch as int,
                    pw as int,
                    ph as int,
                ),
        decreases ph - py,
    {
        assert(py * ch <= ph * ch) by (nonlinear_arith)
            requires
                py <= ph,
                0 < ch,
        ;
        let sy = py * ch / ph;
        let mut px: u32 = 0;
        while px < pw
            invariant
                0 < cw,
                0 < ch,
                0 < pw,
                0 < ph,
                cw * ch * 4 <= data.len(),
                cw * ch * 4 <= u32::MAX,
                ph * ch <= u32::MAX,
                pw * cw <= u32::MAX,
                pw * ph <= u32::MAX,
                py < ph,
                px <= pw,
                sy as int == (py as int) * (ch as int) / (ph as int),
                buf.len() == py * pw + px,
                forall|k: int|
                    0 <= k < buf.len() ==> #[trigger] buf@[k] == window_pixel(
                        data@,
                        k % pw as int,
                        k / pw as int,
                        cw as int,
                        ch as int,
                        pw as int,
                        ph as int,
                    ),
            decreases pw - px,
        {
            assert(px * cw <= pw * cw) by (nonlinear_arith)
                requires
                    px <= pw,
                    0 < cw,
            ;
            let sx = px * cw / pw;
            proof {
                lemma_offset_in_canvas(px as int, py as int, cw as int, ch as int, pw as int, ph as int);
                lemma_scaled_below(py as int, ch as int, ph as int);
                lemma_scaled_below(px as int, cw as int, pw as int);
                assert(sy * cw + sx < cw * ch) by (nonlinear_arith)
                    requires
                        0 <= sy < ch,
                        0 <= sx < cw,
                ;
            }
            let i = ((sy * cw + sx) * 4) as usize;
            let (r, g, b) = (data[i] as u32, data[i + 1] as u32, data[i + 2] as u32);
            let v = (r << 16) | (g << 8) | b;
            proof {
                let k = py * pw + px;
                vstd::arithmetic::div_mod::lemma_fundamental_div_mod_converse(
                    k as int,
                    pw as int,
                    py as int,
                    px as int,
                );
                assert(py * pw + px == (py as int) * (pw as int) + (px as int));
            }
            buf.push(v);
            proof {
                assert(py * pw + px + 1 <= pw * ph) by (nonlinear_arith)
                    requires
                        py < ph,
                        px < pw,
                ;
            }
            px += 1;
        }
        assert((py + 1) * pw == py * pw + pw) by (nonlinear_arith);
        py += 1;
    }
    assert(ph * pw == pw * ph) by (nonlinear_arith);
    buf
}

/// With a window the size of the canvas, the blit copies every pixel in place: window pixel
/// (`x`, `y`) reads canvas pixel (`x`, `y`).
pub proof fn lemma_unscaled_blit_is_identity(x: int, y: int, cw: int, ch: int)
    requires
        0 <= x < cw,
        0 <= y < ch,
    ensures
        source_offset(x, y, cw, ch, cw, ch) == (y * cw + x) * 4,
{
    assert(y * ch / ch == y) by {
        vstd::arithmetic::div_mod::lemma_div_by_multiple(y, ch);
    }
    assert(x * cw / cw == x) by {
        vstd::arithmetic::div_mod::lemma_div_by_multiple(x, cw);
    }
}

/// Which of the two demo hosts runs, and which of that host's two skins is showing.
#[derive(Clone, Copy, Debug, PartialEq, Eq, Structural)]
pub struct Selection {
    /// The host: 0 is the media player, 1 the system monitor.
    pub host_index: usize,
    /// The skin of that host: 0 or 1.
    pub skin_index: usize,
}

impl Selection {
    /// Both indices name one of the two hosts and one of its two skins.
    pub open spec fn wf(self) -> bool {
        self.host_index < 2 && self.skin_index < 2
    }

    /// The window starts on the media host's first skin.
    pub fn initial() -> (s: Selection)
        ensures
            s.host_index == 0,
            s.skin_index == 0,
    {
        Selection { host_index: 0, skin_index: 0 }
    }
}

/// The skin directory, relative to the proto demo's root, for a host and one of its skins.
pub open spec fn skin_dir_spec(host_index: usize, skin_index: usize) -> Seq<char> {
    if host_index == 0 {
        if skin_index == 0 {
            "skins/media-classic"@
        } else {
            "skins/media-minimal"@
        }
    } else {
        if skin_index == 0 {
            "skins/sysmon-bars"@
        } else {
            "skins/sysmon-dial"@
        }
    }
}

/// The skin directory for `host_index` and `skin_index`: the media host has `media-classic` and
/// `media-minimal`, the system monitor `sysmon-bars` and `sysmon-dial`.
pub fn skin_dir(host_index: usize, skin_index: usize) -> (d: &'static str)
    requires
        host_index < 2,
        skin_index < 2,
    ensures
        d@ == skin_dir_spec(host_index, skin_index),
{
    if host_index == 0 {
        if skin_index == 0 {
            "skins/media-classic"
        } else {
            "skins/media-minimal"
        }
    } else {
        if skin_index == 0 {
            "skins/sysmon-bars"
        } else {
            "skins/sysmon-dial"
        }
    }
}

/// A key press, as far as the window cares.
pub enum KeyInput {
    /// The Escape key.
    Escape,
    /// The Tab key.
    Tab,
    /// A key that types this text.
    Character(String),
    /// Any other key.
    Other,
}

/// A window input the proto demo reacts to.
pub enum WindowInput {
    /// The user asked to close the window.
    CloseRequested,
    /// The window system asks for a frame.
    RedrawRequested,
    /// The cursor moved; the window keeps its position for the next click.
    CursorMoved,
    /// The left mouse button went down.
    LeftPress,
    /// A key went down.
    KeyPress(KeyInput),
    /// Anything else (other buttons, releases, focus changes).
    Other,
}

/// What the window does in answer to one input.
#[derive(Debug, PartialEq, Eq)]
pub enum WindowAction {
    /// Leave the event loop.
    Exit,
    /// Tick the host, render and present a frame.
    Redraw,
    /// Remember the cursor position.
    TrackCursor,
    /// Hit-test the click at the cursor, then request a frame.
    ClickAndRedraw,
    /// Load the skin in this directory over the running host (its state survives), then request
    /// a frame.
    SwapSkinAndRedraw {
        /// The skin directory to load.
        dir: &'static str,
    },
    /// Start a fresh engine on the other host with the skin in this directory, then request a
    /// frame.
    SwitchHostAndRedraw {
        /// The skin directory to load.
        dir: &'static str,
    },
    /// Nothing to do.
    Ignore,
}

/// True when the typed text is the letter `h` in either case.
pub open spec fn is_host_key(text: Seq<char>) -> bool {
    text == seq!['h'] || text == seq!['H']
}

/// The selection after `input`: Tab flips to the host's other skin; `h` flips to the other host,
/// on its first skin; nothing else changes it.
pub open spec fn next_selection(sel: Selection, input: WindowInput) -> Selection {
    match input {
        WindowInput::KeyPress(KeyInput::Tab) => Selection {
            host_index: sel.host_index,
            skin_index: (1 - sel.skin_index) as usize,
        },
        WindowInput::KeyPress(KeyInput::Character(t)) => if is_host_key(t@) {
            Selection { host_index: (1 - sel.host_index) as usize, skin_index: 0 }
        } else {
            sel
        },
        _ => sel,
    }
}

/// True when `a` is what the window does for `input` from `sel`.
pub open spec fn action_for(sel: Selection, input: WindowInput, a: WindowAction) -> bool {
    let next = next_selection(sel, input);
    match input {
        WindowInput::CloseRequested => a is Exit,
        WindowInput::RedrawRequested => a is Redraw,
        WindowInput::CursorMoved => a is TrackCursor,
        WindowInput::LeftPress => a is ClickAndRedraw,
        WindowInput::KeyPress(KeyInput::Escape) => a is Exit,
        WindowInput::KeyPress(KeyInput::Tab) => a matches WindowAction::SwapSkinAndRedraw { dir }
            && dir@ == skin_dir_spec(next.host_index, next.skin_index),
        WindowInput::KeyPress(KeyInput::Character(t)) => if is_host_key(t@) {
            a matches WindowAction::SwitchHostAndRedraw { dir } && dir@ == skin_dir_spec(
                next.host_index,
                0,
            )
        } else {
            a is Ignore
        },
        WindowInput::KeyPress(KeyInput::Other) => a is Ignore,
        WindowInput::Other => a is Ignore,
    }
}

/// Decides the window's answer to one input and updates the selection: close and Escape exit; a
/// redraw request draws; a cursor move is tracked; a left press clicks; Tab swaps to the host's
/// other skin; `h` or `H` switches to the other host on its first skin; anything else is ignored.
pub fn window_step(sel: &mut Selection, input: &WindowInput) -> (a: WindowAction)
    requires
        old(sel).wf(),
    ensures
        final(sel).wf(),
        *final(sel) == next_selection(*old(sel), *input),
        action_for(*old(sel), *input, a),
{
    match input {
        WindowInput::CloseRequested => WindowAction::Exit,
        WindowInput::RedrawRequested => WindowAction::Redraw,
        WindowInput::CursorMoved => WindowAction::TrackCursor,
        WindowInput::LeftPress => WindowAction::ClickAndRedraw,
        WindowInput::KeyPress(KeyInput::Escape) => WindowAction::Exit,
        WindowInput::KeyPress(KeyInput::Tab) => {
            sel.skin_index = 1 - sel.skin_index;
            WindowAction::SwapSkinAndRedraw { dir: skin_dir(sel.host_index, sel.skin_index) }
        },
        WindowInput::KeyPress(KeyInput::Character(t)) => {
            let cs = chars_of(t.as_str());
            if cs.len() == 1 && (cs[0] == 'h' || cs[0] == 'H') {
                proof {
                    assert(t@ =~= seq![cs@[0]]);
                }
                sel.host_index = 1 - sel.host_index;
                sel.skin_index = 0;
                WindowAction::SwitchHostAndRedraw { dir: skin_dir(sel.host_index, 0) }
            } else {
                proof {
                    if is_host_key(t@) {
                        assert(cs@.len() == 1 && cs@[0] == t@[0]);
                    }
                }
                WindowAction::Ignore
            }
        },
        WindowInput::KeyPress(KeyInput::Other) => WindowAction::Ignore,
        WindowInput::Other => WindowAction::Ignore,
    }
}

/// Pressing Tab twice shows the skin that was showing before, on the same host.
pub proof fn lemma_tab_twice_restores(sel: Selection)
    requires
        sel.wf(),
    ensures
        next_selection(
            next_selection(sel, WindowInput::KeyPress(KeyInput::Tab)),
            WindowInput::KeyPress(KeyInput::Tab),
        ) == sel,
{
}

/// Switching hosts always lands on the new host's first skin, and switching twice returns to the
/// host that was running.
pub proof fn lemma_host_switch_resets_skin(sel: Selection, key: String)
    requires
        sel.wf(),
        is_host_key(key@),
    ensures
        next_selection(sel, WindowInput::KeyPress(KeyInput::Character(key))).skin_index == 0,
        next_selection(sel, WindowInput::KeyPress(KeyInput::Character(key))).host_index != sel.host_index,
        next_selection(
            next_selection(sel, WindowInput::KeyPress(KeyInput::Character(key))),
            WindowInput::KeyPress(KeyInput::Character(key)),
        ).host_index == sel.host_index,
{
}

} // verus!
