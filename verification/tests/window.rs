use carapace::window_spike::{choose_alpha_mode, AlphaMode};
use carapace::proto::{skin_dir, window_step, KeyInput, Selection, WindowAction, WindowInput};

#[test]
fn tab_swaps_to_the_other_skin_and_back() {
    let mut sel = Selection::initial();
    let a = window_step(&mut sel, &WindowInput::KeyPress(KeyInput::Tab));
    assert_eq!(a, WindowAction::SwapSkinAndRedraw { dir: "skins/media-minimal" });
    assert_eq!(sel, Selection { host_index: 0, skin_index: 1 });
    let a = window_step(&mut sel, &WindowInput::KeyPress(KeyInput::Tab));
    assert_eq!(a, WindowAction::SwapSkinAndRedraw { dir: "skins/media-classic" });
    assert_eq!(sel, Selection::initial());
}

#[test]
fn h_switches_host_and_resets_skin() {
    let mut sel = Selection { host_index: 0, skin_index: 1 };
    let a = window_step(&mut sel, &WindowInput::KeyPress(KeyInput::Character("H".to_string())));
    assert_eq!(a, WindowAction::SwitchHostAndRedraw { dir: "skins/sysmon-bars" });
    assert_eq!(sel, Selection { host_index: 1, skin_index: 0 });
    let a = window_step(&mut sel, &WindowInput::KeyPress(KeyInput::Tab));
    assert_eq!(a, WindowAction::SwapSkinAndRedraw { dir: "skins/sysmon-dial" });
    let a = window_step(&mut sel, &WindowInput::KeyPress(KeyInput::Character("h".to_string())));
    assert_eq!(a, WindowAction::SwitchHostAndRedraw { dir: "skins/media-classic" });
    assert_eq!(sel, Selection::initial());
}

#[test]
fn other_text_keys_are_ignored() {
    let mut sel = Selection::initial();
    for t in ["g", "hh", "", "ĥ"] {
        let a = window_step(&mut sel, &WindowInput::KeyPress(KeyInput::Character(t.to_string())));
        assert_eq!(a, WindowAction::Ignore);
    }
    assert_eq!(window_step(&mut sel, &WindowInput::KeyPress(KeyInput::Other)), WindowAction::Ignore);
    assert_eq!(window_step(&mut sel, &WindowInput::Other), WindowAction::Ignore);
    assert_eq!(sel, Selection::initial());
}

#[test]
fn close_escape_redraw_cursor_and_click() {
    let mut sel = Selection { host_index: 1, skin_index: 1 };
    assert_eq!(window_step(&mut sel, &WindowInput::CloseRequested), WindowAction::Exit);
    assert_eq!(window_step(&mut sel, &WindowInput::KeyPress(KeyInput::Escape)), WindowAction::Exit);
    assert_eq!(window_step(&mut sel, &WindowInput::RedrawRequested), WindowAction::Redraw);
    assert_eq!(window_step(&mut sel, &WindowInput::CursorMoved), WindowAction::TrackCursor);
    assert_eq!(window_step(&mut sel, &WindowInput::LeftPress), WindowAction::ClickAndRedraw);
    assert_eq!(sel, Selection { host_index: 1, skin_index: 1 });
}

#[test]
fn skin_dirs_table() {
    assert_eq!(skin_dir(0, 0), "skins/media-classic");
    assert_eq!(skin_dir(0, 1), "skins/media-minimal");
    assert_eq!(skin_dir(1, 0), "skins/sysmon-bars");
    assert_eq!(skin_dir(1, 1), "skins/sysmon-dial");
}

#[test]
fn alpha_mode_prefers_premultiplied_then_postmultiplied() {
    let pre = vec![AlphaMode::Opaque, AlphaMode::PostMultiplied, AlphaMode::PreMultiplied];
    assert_eq!(choose_alpha_mode(&pre), AlphaMode::PreMultiplied);
    let post = vec![AlphaMode::Opaque, AlphaMode::PostMultiplied];
    assert_eq!(choose_alpha_mode(&post), AlphaMode::PostMultiplied);
    let neither = vec![AlphaMode::Inherit, AlphaMode::Opaque];
    assert_eq!(choose_alpha_mode(&neither), AlphaMode::Inherit);
}
