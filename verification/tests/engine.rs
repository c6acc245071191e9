use carapace::command::{Command, SkinSource};
use carapace::engine::{dispatch, next_update_step, Effect, PointerEvent, Running, UpdateStep};
use carapace::host::{is_allowed, ActionSpec};
use carapace::layout::{AxisRule, Edges};

const ACTIONS: &[ActionSpec] = &[ActionSpec { name: "toggle" }, ActionSpec { name: "bump" }];

#[test]
fn allowlisted_action_is_invoked_with_its_arguments() {
    let cmd: Command<f64, ()> = Command::HostAction { action: "bump".to_string(), args: vec![0.5] };
    match dispatch(cmd, ACTIONS) {
        Effect::Invoke { action, args } => {
            assert_eq!(action, "bump");
            assert_eq!(args, vec![0.5]);
        }
        _ => panic!("expected Invoke"),
    }
}

#[test]
fn extension_unregistered_action_is_dropped_not_panicked() {
    let cmd: Command<f64, ()> = Command::HostAction { action: "frobnicate".to_string(), args: vec![] };
    assert!(matches!(dispatch(cmd, ACTIONS), Effect::Drop { action } if action == "frobnicate"));
    assert!(!is_allowed(&[], "toggle"));
    assert!(is_allowed(ACTIONS, "toggle"));
    assert!(!is_allowed(ACTIONS, "toggl"));
}

#[test]
fn swap_and_switch_commands_rebuild() {
    let swap: Command<f64, u8> = Command::Swap(SkinSource::inline("a".to_string(), (10, 10)));
    assert!(matches!(dispatch(swap, ACTIONS), Effect::Rebuild(s) if s.lua_src == "a"));
    let switch: Command<f64, u8> = Command::SwitchHost {
        host: 7,
        skin: SkinSource::inline("b".to_string(), (1, 2)),
    };
    assert!(matches!(
        dispatch(switch, ACTIONS),
        Effect::Switch { host: 7, skin } if skin.lua_src == "b" && skin.canvas == (1, 2)
    ));
}

#[test]
fn failed_swap_keeps_current_scene() {
    let mut r = Running { host: "media", skin: 3usize };
    let err = r.apply_swap::<&str>(Err("not lua {{{"));
    assert_eq!(err, Some("not lua {{{"));
    assert_eq!(r.skin, 3);
    assert_eq!(r.host, "media");
}

#[test]
fn swap_preserves_state() {
    let mut r = Running { host: "media", skin: 3usize };
    assert_eq!(r.apply_swap::<()>(Ok(1)), None);
    assert_eq!(r.skin, 1);
    assert_eq!(r.host, "media", "host state survived the swap");
}

#[test]
fn snapshot_switch_host_resets() {
    let mut r = Running { host: "media", skin: 3usize };
    assert_eq!(r.apply_switch::<()>("sysmon", Ok(4)), None);
    assert_eq!((r.host, r.skin), ("sysmon", 4));
    assert_eq!(r.apply_switch("fixture", Err("bad")), Some("bad"));
    assert_eq!((r.host, r.skin), ("fixture", 4));
}

#[test]
fn pointer_press_is_the_only_event() {
    assert_eq!(PointerEvent::Press, PointerEvent::Press);
}

#[test]
fn from_edges_parses_named_anchors() {
    assert_eq!(
        Edges::from_edges(&["left", "right", "top"]),
        Edges { left: true, right: true, top: true, bottom: false }
    );
    assert_eq!(Edges::from_edges(&[]), Edges { left: false, right: false, top: false, bottom: false });
    assert_eq!(
        Edges::from_edges(&["bottom", "nope", "LEFT"]),
        Edges { left: false, right: false, top: false, bottom: true }
    );
}

#[test]
fn top_left_default_is_fixed() {
    assert_eq!(Edges::top_left(), Edges { left: true, right: false, top: true, bottom: false });
}

#[test]
fn inline_source_has_no_assets() {
    let s = SkinSource::inline("fill{}".to_string(), (300, 120));
    assert_eq!(s.canvas, (300, 120));
    assert!(s.assets.locate("anything.png").is_err());
}

#[test]
fn anchors_decide_how_each_axis_follows_a_resize() {
    assert_eq!(Edges::top_left().axis_rules(), (AxisRule::PinNear, AxisRule::PinNear));
    assert_eq!(
        Edges::from_edges(&["left", "right", "bottom"]).axis_rules(),
        (AxisRule::Stretch, AxisRule::PinFar)
    );
    assert_eq!(Edges::from_edges(&[]).axis_rules(), (AxisRule::Proportional, AxisRule::Proportional));
}

#[test]
fn update_steps_handle_commands_in_queue_order_then_tick() {
    let mut pending: Vec<Command<f64, ()>> = vec![
        Command::HostAction { action: "toggle".to_string(), args: vec![] },
        Command::HostAction { action: "nope".to_string(), args: vec![] },
        Command::HostAction { action: "bump".to_string(), args: vec![1.0] },
    ];
    assert!(matches!(next_update_step(&mut pending, ACTIONS), UpdateStep::Apply(Effect::Invoke { action, .. }) if action == "toggle"));
    assert!(matches!(next_update_step(&mut pending, ACTIONS), UpdateStep::Apply(Effect::Drop { action }) if action == "nope"));
    assert!(matches!(next_update_step(&mut pending, ACTIONS), UpdateStep::Apply(Effect::Invoke { action, args }) if action == "bump" && args == vec![1.0]));
    assert!(pending.is_empty());
    assert!(matches!(next_update_step(&mut pending, ACTIONS), UpdateStep::Tick));
    assert!(matches!(next_update_step(&mut pending, ACTIONS), UpdateStep::Tick));
}
