use std::time::Duration;

use bevy::color::Color;
use bevy::math::{Vec2, Vec3};
use slate::bevy_slate::config::BevySlateConfig;
use slate::bevy_slate::plugin::BevySlatePlugin;
use slate::bevy_slate::reticle::{ReticleKind, ReticlePlugin, ReticlePosition, ReticleShape};
use slate::bevy_slate::terminal::{
    dispatch_events, exit_keys, log_column, stack_panels, Area, DebugPanel, TerminalAction,
    TerminalError, TerminalEventKind, TerminalPage, TerminalPlugin,
};
use slate::bevy_slate::time::{draw_events, sync_draw_timer, DrawTimer, DrawTimerFinishedEvent};
use slate::bevy_slate::webview::WebViewDisplay;
use slate::terminal::surface::TerminalKeyCode;

#[test]
fn default_config() {
    let c = BevySlateConfig::default();
    assert!(c.bevy_defaults);
    assert_eq!(c.log_filter, "");
    assert_eq!(c.asset_dir, "");
    assert_eq!(c.clear_color, Color::hsla(0.0, 0.0, 0.0, 0.0));
}

#[test]
fn config_builders_set_one_field_each() {
    let c = BevySlateConfig::default()
        .with_bevy_defaults(false)
        .with_log_filter("info".to_string())
        .with_asset_dir("assets".to_string())
        .with_clear_color(Color::WHITE);
    assert!(!c.bevy_defaults);
    assert_eq!(c.log_filter, "info");
    assert_eq!(c.asset_dir, "assets");
    assert_eq!(c.clear_color, Color::WHITE);
}

#[test]
fn plugin_keeps_its_config() {
    let p = BevySlatePlugin::new(BevySlateConfig::default().with_asset_dir("a".to_string()));
    assert_eq!(p.config.asset_dir, "a");
}

#[test]
fn reticle_defaults_and_moves() {
    let _ = ReticlePlugin::new();
    let _ = ReticlePlugin::default();
    assert_eq!(ReticleKind::default(), ReticleKind::Gizmo);
    assert_eq!(ReticleShape::default(), ReticleShape::Circle);
    let mut p = ReticlePosition::new(Vec2::new(1.0, 2.0), Vec3::new(3.0, 4.0, 5.0));
    p.move_to(Vec2::new(7.0, 8.0));
    assert_eq!(p.screen, Vec2::new(7.0, 8.0));
    assert_eq!(p.space_2d, Vec3::new(3.0, 4.0, 5.0));
}

#[test]
fn draw_timer_fires_at_once_then_waits() {
    let mut timers = vec![DrawTimer::new(Duration::from_secs(1)), DrawTimer::new(Duration::from_secs(1))];
    let events = sync_draw_timer(&mut timers, Duration::from_millis(10));
    assert_eq!(events.len(), 2);
    assert_eq!(events[0].duration(), Duration::from_millis(10));
    assert_eq!(timers[1].elapsed(), Duration::from_millis(10));
    let events = sync_draw_timer(&mut timers, Duration::from_millis(10));
    assert!(events.is_empty());
    assert_eq!(timers.len(), 2);
    assert_eq!(timers[0].elapsed(), Duration::from_millis(20));
    assert_eq!(timers[0].duration(), Duration::from_secs(1));
}

#[test]
fn draw_timer_starts_full() {
    let t = DrawTimer::new(Duration::from_millis(16));
    assert_eq!(t.duration(), Duration::from_millis(16));
    assert_eq!(t.elapsed(), Duration::from_millis(16));
}

#[test]
fn draw_timer_ticks_wrap_past_the_duration() {
    let mut t = DrawTimer::new(Duration::from_millis(100));
    assert!(t.tick(Duration::from_millis(250)));
    assert_eq!(t.elapsed(), Duration::from_millis(50));
    assert!(!t.tick(Duration::from_millis(49)));
    assert_eq!(t.elapsed(), Duration::from_millis(99));
    assert!(t.tick(Duration::from_millis(1)));
    assert_eq!(t.elapsed(), Duration::ZERO);
    let mut z = DrawTimer::new(Duration::ZERO);
    assert!(z.tick(Duration::from_millis(5)));
    assert_eq!(z.elapsed(), Duration::ZERO);
}

#[test]
fn draw_events_one_per_finished_timer() {
    let d = [Duration::from_millis(1), Duration::from_millis(2), Duration::from_millis(3)];
    let events = draw_events(&vec![true, false, true], &d.to_vec());
    assert_eq!(events.len(), 2);
    assert_eq!(events[0].duration(), Duration::from_millis(1));
    assert_eq!(events[1].duration(), Duration::from_millis(3));
    assert!(draw_events(&vec![false, false], &d[..2].to_vec()).is_empty());
}

#[test]
fn default_draw_timer_event_has_no_duration() {
    assert_eq!(DrawTimerFinishedEvent::default().duration(), Duration::ZERO);
}

#[test]
fn draw_timer_event_keeps_its_duration() {
    let e = DrawTimerFinishedEvent::new(Duration::from_millis(250));
    assert_eq!(e.duration(), Duration::from_millis(250));
}

#[test]
fn web_view_addresses() {
    let d = WebViewDisplay::new();
    assert!(d.address().is_none());
    let id = d.uuid();
    let mut d = d.with_address("https://example.com".to_string()).unwrap();
    assert_eq!(d.address().map(|a| a.as_str()), Some("https://example.com"));
    assert_eq!(d.uuid(), id);
    d.set_address("about:blank".to_string()).unwrap();
    assert_eq!(d.address().map(|a| a.as_str()), Some("about:blank"));
    d.set_bounds((0, 0, 10, 10)).unwrap();
    d.notify_parent_window_position_changed();
    assert_eq!(d.uuid(), id);
    assert_eq!(d.address().map(|a| a.as_str()), Some("about:blank"));
}

#[test]
fn two_web_views_get_different_ids() {
    assert_ne!(WebViewDisplay::new().uuid(), WebViewDisplay::new().uuid());
}

#[test]
fn terminal_events_become_actions() {
    let events = vec![
        TerminalEventKind::Ready,
        TerminalEventKind::Other,
        TerminalEventKind::Resize(80, 24),
        TerminalEventKind::Key { code: TerminalKeyCode::Char('c'), ctrl: false },
        TerminalEventKind::Key { code: TerminalKeyCode::Char('c'), ctrl: true },
        TerminalEventKind::StartupFailed,
    ];
    assert_eq!(
        dispatch_events(&events),
        vec![TerminalAction::PrintReady, TerminalAction::PrintResized(80, 24), TerminalAction::Exit]
    );
}

#[test]
fn exit_keys_count_only_with_ctrl() {
    assert_eq!(exit_keys(true, &vec![true, false, true]), 2);
    assert_eq!(exit_keys(false, &vec![true, true]), 0);
}

#[test]
fn terminal_page_and_error_conversions() {
    let page = TerminalPage::from("hello".to_string());
    assert_eq!(page._content, "hello");
    let e = TerminalError::from(std::io::Error::new(std::io::ErrorKind::Other, "boom"));
    assert!(matches!(e, TerminalError::IoError(_)));
    let _ = TerminalPlugin::new();
}

#[test]
fn debug_panel_wraps_unless_trimmed() {
    let p = DebugPanel::new("log".to_string(), true, vec![1, 2, 3]);
    assert!(!p.wrap().trim);
    assert_eq!(p.lines, vec![1, 2, 3]);
    let p = DebugPanel::new("log".to_string(), false, Vec::<u8>::new());
    assert!(p.wrap().trim);
}

#[test]
fn log_column_splits_prompt_tabs_and_stream() {
    let c = log_column(Area { x: 2, y: 1, width: 40, height: 20 });
    assert_eq!(c.prompt, Area { x: 2, y: 1, width: 40, height: 3 });
    assert_eq!(c.tabs, Area { x: 2, y: 4, width: 40, height: 17 });
    assert_eq!(c.stream, Area { x: 2, y: 6, width: 40, height: 15 });
}

#[test]
fn panels_stack_without_gaps() {
    let areas = stack_panels(Area { x: 5, y: 0, width: 30, height: 100 }, &vec![3, 0, 4]);
    assert_eq!(areas.len(), 3);
    assert_eq!(areas[0], Area { x: 5, y: 0, width: 30, height: 5 });
    assert_eq!(areas[1], Area { x: 5, y: 5, width: 30, height: 2 });
    assert_eq!(areas[2], Area { x: 5, y: 7, width: 30, height: 6 });
    for i in 0..2 {
        assert_eq!(areas[i + 1].y, areas[i].y + areas[i].height);
    }
}
