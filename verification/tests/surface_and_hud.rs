use std::time::Duration;

use bevy::color::Color;
use bevy::ecs::entity::Entity;
use bevy::math::{Vec2, Vec3};
use slate::bevy_slate::window::WindowLevel;
use slate::hud::gamepad::{debug_connections, GamepadCommand, GamepadEvent, MyGamepad};
use slate::hud::hud::Hud;
use slate::hud::script::{Script, ScriptError, ScriptLoader};
use slate::hud::tool::{sync_tool_position, Location};
use slate::hud::window::{WindowFactory, WindowManager};
use slate::hud::workspace::WorkspaceLightBundle;
use slate::keys::{ButtonState, KeyCode, KeyboardInput};
use slate::surface_app::surface::{
    end_selection, keybind_for, route_keybinds, start_selection, tracks_marquee, KeybindAction,
    SelectionMarquee, SelectionState, SignalChannel, SurfaceError, WindowMoveHandle,
};

fn key(key_code: KeyCode, state: ButtonState) -> KeyboardInput {
    KeyboardInput { key_code, state }
}

fn down(key_code: KeyCode) -> KeyboardInput {
    key(key_code, ButtonState::Pressed)
}

#[test]
fn alt_q_exits_on_press_and_release() {
    assert_eq!(keybind_for(true, false, false, down(KeyCode::KeyQ)), Some(KeybindAction::Exit));
    assert_eq!(
        keybind_for(true, false, false, key(KeyCode::KeyQ, ButtonState::Released)),
        Some(KeybindAction::Exit)
    );
    assert_eq!(keybind_for(false, true, false, down(KeyCode::KeyQ)), None);
}

#[test]
fn window_level_keybinds() {
    assert_eq!(
        keybind_for(true, true, false, down(KeyCode::PageUp)),
        Some(KeybindAction::SetWindowLevel(WindowLevel::AlwaysOnTop))
    );
    assert_eq!(
        keybind_for(true, true, false, down(KeyCode::PageDown)),
        Some(KeybindAction::SetWindowLevel(WindowLevel::Normal))
    );
    assert_eq!(keybind_for(true, true, false, key(KeyCode::PageUp, ButtonState::Released)), None);
    assert_eq!(keybind_for(false, true, false, down(KeyCode::PageUp)), None);
}

#[test]
fn alt_page_keys_pin_and_unpin_without_ctrl() {
    assert_eq!(
        route_keybinds(true, false, false, &vec![down(KeyCode::PageUp)]),
        vec![KeybindAction::SetWindowLevel(WindowLevel::AlwaysOnTop)]
    );
    assert_eq!(
        route_keybinds(true, false, false, &vec![down(KeyCode::PageDown)]),
        vec![KeybindAction::SetWindowLevel(WindowLevel::Normal)]
    );
    assert_eq!(keybind_for(true, false, true, key(KeyCode::PageDown, ButtonState::Released)), None);
}

#[test]
fn ui_scale_keybinds() {
    assert_eq!(keybind_for(false, true, false, down(KeyCode::Digit0)), Some(KeybindAction::ResetUiScale));
    assert_eq!(keybind_for(false, true, false, down(KeyCode::Numpad0)), Some(KeybindAction::ResetUiScale));
    assert_eq!(keybind_for(false, true, false, down(KeyCode::Minus)), Some(KeybindAction::ShrinkUiScale));
    assert_eq!(
        keybind_for(false, true, false, down(KeyCode::NumpadSubtract)),
        Some(KeybindAction::ShrinkUiScale)
    );
    assert_eq!(keybind_for(false, true, false, down(KeyCode::Equal)), Some(KeybindAction::GrowUiScale));
    assert_eq!(keybind_for(false, true, false, down(KeyCode::NumpadAdd)), Some(KeybindAction::GrowUiScale));
    assert_eq!(keybind_for(false, true, true, down(KeyCode::Equal)), None);
    assert_eq!(keybind_for(true, true, false, down(KeyCode::Equal)), None);
    assert_eq!(keybind_for(false, false, false, down(KeyCode::Equal)), None);
}

#[test]
fn keybinds_of_a_frame_in_order() {
    let events = vec![down(KeyCode::Digit0), down(KeyCode::Other), down(KeyCode::Minus), down(KeyCode::Equal)];
    assert_eq!(
        route_keybinds(false, true, false, &events),
        vec![KeybindAction::ResetUiScale, KeybindAction::ShrinkUiScale, KeybindAction::GrowUiScale]
    );
}

#[test]
fn no_exit_without_alt() {
    let events = vec![
        down(KeyCode::KeyQ),
        key(KeyCode::KeyQ, ButtonState::Released),
        down(KeyCode::PageUp),
        down(KeyCode::AltLeft),
    ];
    for ctrl in [false, true] {
        for shift in [false, true] {
            assert!(!route_keybinds(false, ctrl, shift, &events).contains(&KeybindAction::Exit));
        }
    }
}

#[test]
fn selection_starts_tracks_and_ends() {
    let mut state = SelectionState::default();
    assert!(!tracks_marquee(&state, Entity::from_raw(1)));
    start_selection(&mut state, Entity::from_raw(1), Vec2::new(3.0, 4.0));
    assert!(tracks_marquee(&state, Entity::from_raw(1)));
    assert!(!tracks_marquee(&state, Entity::from_raw(2)));
    assert_eq!(end_selection(&mut state), Some(Entity::from_raw(1)));
    assert_eq!(state.bounds, None);
    assert_eq!(state.start_pos, Some(Vec2::new(3.0, 4.0)));
    assert_eq!(end_selection(&mut state), None);
}

#[test]
fn marquee_and_move_handle() {
    assert_eq!(SelectionMarquee::new(Color::BLACK)._color, Color::BLACK);
    assert_eq!(WindowMoveHandle::_new(Some(Entity::from_raw(9)))._window, Some(Entity::from_raw(9)));
}

#[test]
fn signal_channel_hands_out_senders() {
    let mut channel = SignalChannel::new(100);
    let sender = channel.sender();
    assert_eq!(sender.max_capacity(), 100);
    assert_eq!(channel.capacity(), 100);
    assert!(channel.receiver().is_empty());
    let other = channel.sender();
    assert!(other.same_channel(&sender));
}

#[test]
fn surface_errors() {
    assert!(matches!(SurfaceError::RunFailed(3), SurfaceError::RunFailed(3)));
    assert!(matches!(SurfaceError::BootFailed, SurfaceError::BootFailed));
}

#[test]
fn hud_sync_delay_is_in_seconds() {
    let hud = Hud::new(3);
    assert_eq!(hud.sync_delay(), Duration::from_secs(3));
    assert_eq!(hud.clear_color(), Color::NONE);
}

#[test]
fn first_connected_gamepad_is_listened_to() {
    let g1 = Entity::from_raw(1);
    let g2 = Entity::from_raw(2);
    let cmds = debug_connections(&None, &vec![GamepadEvent::Connected(g1), GamepadEvent::Other]);
    assert_eq!(cmds.len(), 1);
    assert!(matches!(cmds[0], GamepadCommand::Insert(MyGamepad { gamepad }) if gamepad == g1));

    let mine = Some(MyGamepad::from(g1));
    let cmds = debug_connections(
        &mine,
        &vec![GamepadEvent::Connected(g2), GamepadEvent::Disconnected(g2), GamepadEvent::Disconnected(g1)],
    );
    assert_eq!(cmds.len(), 1);
    assert!(matches!(cmds[0], GamepadCommand::Remove));
}

#[test]
fn tools_follow_the_last_input() {
    let mut locations = vec![Location { position: Vec3::ZERO }, Location { position: Vec3::ONE }];
    sync_tool_position(&vec![Vec3::new(1.0, 2.0, 3.0), Vec3::new(4.0, 5.0, 6.0)], &mut locations);
    assert_eq!(locations[0].position, Vec3::new(4.0, 5.0, 6.0));
    assert_eq!(locations[1].position, Vec3::new(4.0, 5.0, 6.0));
    sync_tool_position(&vec![], &mut locations);
    assert_eq!(locations[1].position, Vec3::new(4.0, 5.0, 6.0));
}

#[test]
fn scripts_and_their_loader() {
    let s = Script::from(vec![1u8, 2, 3]);
    assert_eq!(s.bytes, vec![1, 2, 3]);
    let e = ScriptError::from(std::io::Error::new(std::io::ErrorKind::NotFound, "missing"));
    assert!(matches!(e, ScriptError::IoError(_)));
    assert_eq!(ScriptLoader::default().extensions(), &["ethos", "ts", "tsx"]);
}

#[test]
fn window_factory_copies_its_descriptor() {
    let factory = WindowFactory { base_window_descriptor: "main".to_string() };
    assert_eq!(factory.create_window_descriptor(), "main");
    let manager = WindowManager::new(&factory);
    assert_eq!(manager.window_factory.base_window_descriptor, "main");
}

#[test]
fn workspace_light_looks_at_its_focus() {
    let b = WorkspaceLightBundle::new(Color::WHITE, Vec3::new(0.0, 5.0, 0.0), Vec3::new(1.0, 0.0, 0.0));
    assert_eq!(b.light.color, Color::WHITE);
    assert_eq!(b.focus.center, Vec3::new(1.0, 0.0, 0.0));
}
