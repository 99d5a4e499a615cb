use std::collections::HashMap;

use bevy::ecs::entity::Entity;
use slate::bevy_slate::input::{
    text_input_capture_system, text_input_defocus_system, text_input_focus_system, FocusChange,
    FocusedInput, Interaction, TextKey, TextKeyEvent, MAX_TEXT_BYTES,
};
use slate::bevy_slate::provider::{
    consume_updates, merge_consumed, plan_update, take_batch, ConsumedUpdates, FontRegistry, SurfaceUpdate,
    UpdateStep,
};
use slate::bevy_slate::window::{
    bootstrap_new_windows, route_window_event, toggle_decorations, toggle_fullscreen,
    CompositeAlphaMode, ExitCondition, MonitorSelection, PresentMode, ScaleFactorAction,
    WindowEvent, WindowKind, WindowLevel, WindowMode, WindowPlugin, WindowPosition, WindowState,
    WindowTheme,
};

fn e(n: u32) -> Entity {
    Entity::from_raw(n)
}

fn press(key: TextKey) -> TextKeyEvent {
    TextKeyEvent { key, pressed: true }
}

#[test]
fn pressing_a_text_input_focuses_it() {
    let mut focused = FocusedInput(None);
    let changes = vec![
        FocusChange { interaction: Interaction::Hovered, text_entity: Some(e(1)) },
        FocusChange { interaction: Interaction::Pressed, text_entity: Some(e(2)) },
        FocusChange { interaction: Interaction::Pressed, text_entity: None },
        FocusChange { interaction: Interaction::Idle, text_entity: Some(e(3)) },
    ];
    text_input_focus_system(&mut focused, &changes);
    assert_eq!(focused.0, Some(e(2)));
}

#[test]
fn the_last_press_wins() {
    let mut focused = FocusedInput(Some(e(7)));
    let changes = vec![
        FocusChange { interaction: Interaction::Pressed, text_entity: Some(e(2)) },
        FocusChange { interaction: Interaction::Pressed, text_entity: Some(e(5)) },
    ];
    text_input_focus_system(&mut focused, &changes);
    assert_eq!(focused.0, Some(e(5)));
}

#[test]
fn a_click_elsewhere_drops_the_focus() {
    let mut focused = FocusedInput(Some(e(4)));
    text_input_defocus_system(true, &mut focused, &vec![Interaction::Hovered, Interaction::Idle]);
    assert_eq!(focused.0, None);

    let mut focused = FocusedInput(Some(e(4)));
    text_input_defocus_system(true, &mut focused, &vec![Interaction::Idle, Interaction::Pressed]);
    assert_eq!(focused.0, Some(e(4)));

    let mut focused = FocusedInput(Some(e(4)));
    text_input_defocus_system(false, &mut focused, &vec![]);
    assert_eq!(focused.0, Some(e(4)));
}

#[test]
fn typing_edits_the_text() {
    let mut text = String::from("ab");
    let events = vec![
        press(TextKey::Character("c".to_string())),
        press(TextKey::Space),
        press(TextKey::Character("dé".to_string())),
        TextKeyEvent { key: TextKey::Character("x".to_string()), pressed: false },
        press(TextKey::Backspace),
        press(TextKey::Other),
    ];
    text_input_capture_system(&mut text, &events);
    assert_eq!(text, "abc d");
}

#[test]
fn backspace_on_empty_text_does_nothing() {
    let mut text = String::new();
    text_input_capture_system(&mut text, &vec![press(TextKey::Backspace)]);
    assert_eq!(text, "");
}

#[test]
fn text_stays_under_the_byte_limit() {
    let mut text = "a".repeat(MAX_TEXT_BYTES - 2);
    let events = vec![
        press(TextKey::Character("b".to_string())),
        press(TextKey::Character("c".to_string())),
        press(TextKey::Space),
    ];
    text_input_capture_system(&mut text, &events);
    assert_eq!(text.len(), MAX_TEXT_BYTES - 1);
    assert!(text.ends_with('b'));
}

#[test]
fn font_registry_adds_and_finds() {
    let mut fonts: FontRegistry<u32> = FontRegistry::new();
    assert_eq!(fonts.get("serif"), None);
    fonts.add("serif", 1);
    fonts.add("mono", 2);
    assert_eq!(fonts.get("serif"), Some(1));
    assert_eq!(fonts.get("mono"), Some(2));
    fonts.add("serif", 3);
    assert_eq!(fonts.get("serif"), Some(3));
    assert_eq!(fonts.get("mono"), Some(2));
    assert_eq!(fonts.get("sans"), None);
}

#[test]
fn font_registry_with_capacity_is_empty() {
    let fonts: FontRegistry<u8> = FontRegistry::with_capacity(16);
    assert_eq!(fonts.get("anything"), None);
}

#[test]
fn consumed_updates_track_spawned_nodes() {
    let mut consumed = ConsumedUpdates::with_capacity(4);
    assert_eq!(consumed.len(), 0);
    consumed.insert(10, e(1));
    consumed.insert(11, e(2));
    consumed.insert(10, e(3));
    assert_eq!(consumed.len(), 2);
    assert!(consumed.contains(10));
    assert!(consumed.contains(11));
    assert!(!consumed.contains(12));
}

#[test]
fn surface_updates_are_planned() {
    let mut consumed = ConsumedUpdates::with_capacity(1);
    consumed.insert(5, e(9));
    let mut index = HashMap::new();
    index.insert(7u128, e(4));
    assert!(matches!(plan_update(&consumed, &index, SurfaceUpdate::Add(5)), UpdateStep::Skip));
    assert!(matches!(plan_update(&consumed, &index, SurfaceUpdate::Add(6)), UpdateStep::Spawn(6)));
    match plan_update(&consumed, &index, SurfaceUpdate::Update(7)) {
        UpdateStep::Update(id, entity) => {
            assert_eq!(id, 7);
            assert_eq!(entity, e(4));
        },
        _ => panic!("expected an update"),
    }
    assert!(matches!(
        plan_update(&consumed, &index, SurfaceUpdate::Update(8)),
        UpdateStep::Untracked(8)
    ));
    assert!(matches!(plan_update(&consumed, &index, SurfaceUpdate::Remove(7)), UpdateStep::Remove(7)));
}

#[test]
fn merged_updates_override_the_index() {
    let mut index = HashMap::new();
    index.insert(1u128, e(1));
    index.insert(2u128, e(2));
    let mut consumed = ConsumedUpdates::with_capacity(2);
    consumed.insert(2, e(20));
    consumed.insert(3, e(30));
    merge_consumed(&mut index, consumed);
    assert_eq!(index.len(), 3);
    assert_eq!(index[&1], e(1));
    assert_eq!(index[&2], e(20));
    assert_eq!(index[&3], e(30));
}

#[test]
fn standard_window_plugin() {
    let p: WindowPlugin<(u32, u32)> = WindowPlugin::new(WindowKind::Standard, "Slate".to_string(), (800, 600));
    let w = p.window_tpl.unwrap();
    assert_eq!(w.title, "Slate");
    assert_eq!(w.window_theme, Some(WindowTheme::Dark));
    assert!(w.visible);
    assert_eq!(w.present_mode, PresentMode::AutoVsync);
    assert_eq!(w.mode, WindowMode::Windowed);
    assert_eq!(w.position, WindowPosition::Centered(MonitorSelection::Current));
    assert_eq!(w.resolution, Some((800, 600)));
    assert_eq!(w.window_level, WindowLevel::Normal);
    assert!(w.decorations);
    assert!(!w.transparent);
    assert!(w.resizable);
    assert!(!w.focused);
    assert_eq!(w.canvas.as_deref(), Some("slate-surface"));
    assert!(!w.prevent_default_event_handling);
    assert!(w.fit_canvas_to_parent);
    assert_eq!(p.exit_condition, ExitCondition::DontExit);
    assert!(p.close_when_requested);
}

#[test]
fn overlay_and_wallpaper_window_plugins() {
    let o: WindowPlugin<u8> = WindowPlugin::new(WindowKind::Overlay, "o".to_string(), 1);
    let w = o.window_tpl.unwrap();
    assert_eq!(w.mode, WindowMode::BorderlessFullscreen);
    assert_eq!(w.window_level, WindowLevel::AlwaysOnTop);
    assert_eq!(w.resolution, None);
    assert!(!w.decorations && w.transparent && w.focused);

    let p: WindowPlugin<u8> = WindowPlugin::new(WindowKind::Wallpaper, "w".to_string(), 1);
    let w = p.window_tpl.unwrap();
    assert_eq!(w.mode, WindowMode::BorderlessFullscreen);
    assert_eq!(w.window_level, WindowLevel::AlwaysOnBottom);
}

#[test]
fn every_new_window_gets_a_child() {
    let spawns = bootstrap_new_windows(&vec![e(3), e(8)]);
    assert_eq!(spawns.len(), 2);
    assert_eq!(spawns[0].1.parent, e(3));
    assert_eq!(spawns[1].1.parent, e(8));
    let t = spawns[0].0;
    assert!(!t.visible && t.transparent && t.maximized);
    assert_eq!(t.mode, WindowMode::BorderlessFullscreen);
    assert_eq!(t.composite_alpha_mode, CompositeAlphaMode::Auto);
}

fn window(focused: bool) -> WindowState<f32> {
    WindowState { focused, window_level: WindowLevel::Normal, scale_factor_override: Some(1.5) }
}

#[test]
fn window_events_reach_the_focused_windows() {
    let mut windows = vec![window(true), window(false), window(true)];
    let adjust = route_window_event(&WindowEvent::<f32>::SetWindowLevel(WindowLevel::AlwaysOnTop), &mut windows);
    assert!(adjust.is_empty());
    assert_eq!(windows[0].window_level, WindowLevel::AlwaysOnTop);
    assert_eq!(windows[1].window_level, WindowLevel::Normal);
    assert_eq!(windows[2].window_level, WindowLevel::AlwaysOnTop);

    let adjust = route_window_event(&WindowEvent::SetScaleFactor(ScaleFactorAction::Adjust(0.1f32)), &mut windows);
    assert_eq!(adjust, vec![0, 2]);

    let adjust = route_window_event(&WindowEvent::<f32>::SetScaleFactor(ScaleFactorAction::Reset), &mut windows);
    assert!(adjust.is_empty());
    assert_eq!(windows[0].scale_factor_override, None);
    assert_eq!(windows[1].scale_factor_override, Some(1.5));

    let adjust = route_window_event(&WindowEvent::<f32>::Close, &mut windows);
    assert!(adjust.is_empty());
    assert_eq!(windows.len(), 3);
}

#[test]
fn decorations_and_fullscreen_toggles() {
    let mut decorations = true;
    toggle_decorations(true, &mut decorations);
    assert!(!decorations);
    toggle_decorations(false, &mut decorations);
    assert!(!decorations);

    let mut mode = WindowMode::Windowed;
    let mut decorations = true;
    toggle_fullscreen(true, true, &mut mode, &mut decorations);
    assert_eq!(mode, WindowMode::BorderlessFullscreen);
    assert!(decorations);
    toggle_fullscreen(true, false, &mut mode, &mut decorations);
    assert_eq!(mode, WindowMode::Windowed);
    toggle_fullscreen(false, true, &mut mode, &mut decorations);
    assert_eq!(mode, WindowMode::Windowed);
    assert!(!decorations);

    let mut mode = WindowMode::Fullscreen;
    toggle_fullscreen(true, false, &mut mode, &mut decorations);
    assert_eq!(mode, WindowMode::Windowed);
}

#[test]
fn a_batch_needs_a_root_and_drains_the_updates() {
    let mut updates = vec![SurfaceUpdate::Add(1), SurfaceUpdate::Remove(2)];
    assert!(take_batch(None, &mut updates).is_none());
    assert_eq!(updates, vec![SurfaceUpdate::Add(1), SurfaceUpdate::Remove(2)]);
    let (root, batch) = take_batch(Some(e(7)), &mut updates).unwrap();
    assert_eq!(root, e(7));
    assert_eq!(batch, vec![SurfaceUpdate::Add(1), SurfaceUpdate::Remove(2)]);
    assert!(updates.is_empty());
}

#[test]
fn a_batch_spawns_each_added_node_once_and_tracks_it() {
    let mut index = HashMap::new();
    index.insert(5u128, e(50));
    let mut updates = vec![
        SurfaceUpdate::Add(1),
        SurfaceUpdate::Add(2),
        SurfaceUpdate::Add(1),
        SurfaceUpdate::Update(5),
        SurfaceUpdate::Update(9),
        SurfaceUpdate::Remove(3),
    ];
    let spawned = vec![vec![(1u128, e(10)), (2u128, e(11))], vec![(2u128, e(12))], vec![], vec![], vec![], vec![]];
    let steps = consume_updates(Some(e(1)), &mut updates, &mut index, &spawned);
    assert!(updates.is_empty());
    assert_eq!(steps.len(), 6);
    assert!(matches!(steps[0], UpdateStep::Spawn(1)));
    assert!(matches!(steps[1], UpdateStep::Skip));
    assert!(matches!(steps[2], UpdateStep::Skip));
    assert!(matches!(steps[3], UpdateStep::Update(5, x) if x == e(50)));
    assert!(matches!(steps[4], UpdateStep::Untracked(9)));
    assert!(matches!(steps[5], UpdateStep::Remove(3)));
    assert_eq!(index.len(), 3);
    assert_eq!(index[&1], e(10));
    assert_eq!(index[&2], e(11));
    assert_eq!(index[&5], e(50));
}

#[test]
fn a_batch_without_a_root_changes_nothing() {
    let mut index = HashMap::new();
    let mut updates = vec![SurfaceUpdate::Add(1)];
    let steps = consume_updates(None, &mut updates, &mut index, &vec![vec![(1u128, e(10))]]);
    assert!(steps.is_empty());
    assert_eq!(updates, vec![SurfaceUpdate::Add(1)]);
    assert!(index.is_empty());
}
