//! Windows of the Bevy runtime: the template a window plugin opens, the
//! child windows paired to new windows, the window events, and the
//! fullscreen and decoration toggles.
use vstd::prelude::*;

use bevy::ecs::entity::Entity;
use vstd::string::StringExecFns;

verus! {

/// The kinds of windows a window plugin opens.
#[derive(Default, Copy, Clone, Debug, PartialEq, Eq, Structural)]
pub enum WindowKind {
    #[default]
    Standard,
    Overlay,
    Wallpaper,
}

/// How a window occupies the screen.
#[derive(Copy, Clone, Debug, PartialEq, Eq, Structural)]
pub enum WindowMode {
    Windowed,
    BorderlessFullscreen,
    SizedFullscreen,
    Fullscreen,
}

/// Where a window stands among the other windows.
#[derive(Copy, Clone, Debug, PartialEq, Eq, Structural)]
pub enum WindowLevel {
    AlwaysOnBottom,
    Normal,
    AlwaysOnTop,
}

/// The theme of a window's decorations.
#[derive(Copy, Clone, Debug, PartialEq, Eq, Structural)]
pub enum WindowTheme {
    Light,
    Dark,
}

/// How frames are presented to a window.
#[derive(Copy, Clone, Debug, PartialEq, Eq, Structural)]
pub enum PresentMode {
    AutoVsync,
    AutoNoVsync,
    Fifo,
    FifoRelaxed,
    Immediate,
    Mailbox,
}

/// The monitor a window is placed on.
#[derive(Copy, Clone, Debug, PartialEq, Eq, Structural)]
pub enum MonitorSelection {
    Current,
    Primary,
    Index(usize),
}

/// Where a window is placed.
#[derive(Copy, Clone, Debug, PartialEq, Eq, Structural)]
pub enum WindowPosition {
    Automatic,
    Centered(MonitorSelection),
}

/// How a window's alpha channel is composited.
#[derive(Copy, Clone, Debug, PartialEq, Eq, Structural)]
pub enum CompositeAlphaMode {
    Auto,
    Opaque,
    PreMultiplied,
    PostMultiplied,
    Inherit,
}

/// When the application exits as windows close.
#[derive(Copy, Clone, Debug, PartialEq, Eq, Structural)]
pub enum ExitCondition {
    OnPrimaryClosed,
    OnAllClosed,
    DontExit,
}

/// Which title bar buttons are enabled.
#[derive(Copy, Clone, Debug, PartialEq, Eq, Structural)]
pub struct EnabledButtons {
    pub minimize: bool,
    pub maximize: bool,
    pub close: bool,
}

/// The description of the primary window a window plugin opens. `R` is
/// the size the window was asked for; `resolution` is `None` where the
/// window takes the default resolution.
pub struct WindowTemplate<R> {
    pub title: String,
    pub window_theme: Option<WindowTheme>,
    pub visible: bool,
    pub present_mode: PresentMode,
    pub mode: WindowMode,
    pub position: WindowPosition,
    pub resolution: Option<R>,
    pub window_level: WindowLevel,
    pub enabled_buttons: EnabledButtons,
    pub decorations: bool,
    pub transparent: bool,
    pub resizable: bool,
    pub focused: bool,
    pub canvas: Option<String>,
    pub prevent_default_event_handling: bool,
    pub fit_canvas_to_parent: bool,
}

/// The plugin that opens the primary window and routes window events.
pub struct WindowPlugin<R> {
    pub window_tpl: Option<WindowTemplate<R>>,
    pub close_when_requested: bool,
    pub exit_condition: ExitCondition,
}

/// The screen mode of a window of the given kind: overlays and wallpapers
/// cover the screen, standard windows are windowed.
pub open spec fn mode_of_kind(kind: WindowKind) -> WindowMode {
    match kind {
        WindowKind::Overlay => WindowMode::BorderlessFullscreen,
        WindowKind::Wallpaper => WindowMode::BorderlessFullscreen,
        _ => WindowMode::Windowed,
    }
}

/// The level of a window of the given kind: overlays stay on top,
/// wallpapers stay at the bottom.
pub open spec fn level_of_kind(kind: WindowKind) -> WindowLevel {
    match kind {
        WindowKind::Overlay => WindowLevel::AlwaysOnTop,
        WindowKind::Wallpaper => WindowLevel::AlwaysOnBottom,
        _ => WindowLevel::Normal,
    }
}

impl<R> WindowPlugin<R> {
    /// A plugin for a window of the given kind: a standard window is
    /// windowed at the requested size, decorated, opaque and not focused;
    /// an overlay or a wallpaper covers the screen at the default
    /// resolution, undecorated, transparent and focused. The plugin never
    /// exits by itself and closes windows when asked to.
    pub fn new(kind: WindowKind, title: String, size: R) -> (p: Self)
        ensures
            p.window_tpl is Some,
            p.window_tpl->0.title@ == title@,
            p.window_tpl->0.window_theme == Some(WindowTheme::Dark),
            p.window_tpl->0.visible,
            p.window_tpl->0.present_mode == PresentMode::AutoVsync,
            p.window_tpl->0.mode == mode_of_kind(kind),
            p.window_tpl->0.position == WindowPosition::Centered(MonitorSelection::Current),
            p.window_tpl->0.resolution == if kind == WindowKind::Standard {
                Some(size)
            } else {
                None
            },
            p.window_tpl->0.window_level == level_of_kind(kind),
            p.window_tpl->0.enabled_buttons == (EnabledButtons {
                minimize: true,
                maximize: true,
                close: true,
            }),
            p.window_tpl->0.decorations == (kind == WindowKind::Standard),
            p.window_tpl->0.transparent == (kind != WindowKind::Standard),
            p.window_tpl->0.resizable,
            p.window_tpl->0.focused == (kind != WindowKind::Standard),
            p.window_tpl->0.canvas is Some,
            p.window_tpl->0.canvas->0@ == "slate-surface"@,
            !p.window_tpl->0.prevent_default_event_handling,
            p.window_tpl->0.fit_canvas_to_parent,
            p.exit_condition == ExitCondition::DontExit,
            p.close_when_requested,
    {
        let standard = match kind {
            WindowKind::Standard => true,
            _ => false,
        };
        let mode = match kind {
            WindowKind::Overlay => WindowMode::BorderlessFullscreen,
            WindowKind::Wallpaper => WindowMode::BorderlessFullscreen,
            _ => WindowMode::Windowed,
        };
        let window_level = match kind {
            WindowKind::Overlay => WindowLevel::AlwaysOnTop,
            WindowKind::Wallpaper => WindowLevel::AlwaysOnBottom,
            _ => WindowLevel::Normal,
        };
        let resolution = if standard {
            Some(size)
        } else {
            None
        };
        WindowPlugin {
            window_tpl: Some(
                WindowTemplate {
                    title,
                    window_theme: Some(WindowTheme::Dark),
                    visible: true,
                    present_mode: PresentMode::AutoVsync,
                    mode,
                    position: WindowPosition::Centered(MonitorSelection::Current),
                    resolution,
                    window_level,
                    enabled_buttons: EnabledButtons { minimize: true, maximize: true, close: true },
                    decorations: standard,
                    transparent: !standard,
                    resizable: true,
                    focused: !standard,
                    canvas: Some(String::from_str("slate-surface")),
                    prevent_default_event_handling: false,
                    fit_canvas_to_parent: true,
                },
            ),
            exit_condition: ExitCondition::DontExit,
            close_when_requested: true,
        }
    }
}

//---
/// A window created as the child of another window.
#[derive(Copy, Clone, Debug)]
pub struct ChildWindow {
    pub parent: Entity,
}

/// The description of a child window: hidden until paired with its
/// parent, borderless fullscreen, transparent and maximized.
#[derive(Copy, Clone, Debug, PartialEq, Eq, Structural)]
pub struct ChildWindowTemplate {
    pub visible: bool,
    pub mode: WindowMode,
    pub composite_alpha_mode: CompositeAlphaMode,
    pub transparent: bool,
    pub maximized: bool,
}

/// The template of every child window.
pub open spec fn child_window_template() -> ChildWindowTemplate {
    ChildWindowTemplate {
        visible: false,
        mode: WindowMode::BorderlessFullscreen,
        composite_alpha_mode: CompositeAlphaMode::Auto,
        transparent: true,
        maximized: true,
    }
}

/// The child windows to spawn for windows that were just added and are
/// not child windows themselves: one per window, in order, each pointing
/// at its parent.
pub fn bootstrap_new_windows(new_windows: &Vec<Entity>) -> (spawns: Vec<(ChildWindowTemplate, ChildWindow)>)
    ensures
        spawns@.len() == new_windows@.len(),
        forall|i: int|
            0 <= i < new_windows@.len() ==> (#[trigger] spawns@[i]).0 == child_window_template()
                && spawns@[i].1.parent == new_windows@[i],
{
    let mut spawns: Vec<(ChildWindowTemplate, ChildWindow)> = Vec::new();
    let mut i: usize = 0;
    while i < new_windows.len()
        invariant
            i <= new_windows@.len(),
            spawns@.len() == i,
            forall|j: int|
                0 <= j < i ==> (#[trigger] spawns@[j]).0 == child_window_template()
                    && spawns@[j].1.parent == new_windows@[j],
        decreases new_windows@.len() - i,
    {
        let template = ChildWindowTemplate {
            visible: false,
            mode: WindowMode::BorderlessFullscreen,
            composite_alpha_mode: CompositeAlphaMode::Auto,
            transparent: true,
            maximized: true,
        };
        spawns.push((template, ChildWindow { parent: new_windows[i] }));
        i = i + 1;
    }
    spawns
}

//---
/// How a window event changes the scale factor of the focused windows.
pub enum ScaleFactorAction<A> {
    /// Drop the override: the window goes back to its own scale factor.
    Reset,
    /// Change the scale factor by the given amount.
    Adjust(A),
}

/// Requests to the windows of the application.
pub enum WindowEvent<A> {
    SetWindowLevel(WindowLevel),
    SetScaleFactor(ScaleFactorAction<A>),
    Close,
}

/// The part of a window that window events change: whether it is
/// focused, its level, and its scale factor override (`S`).
#[derive(Clone, Debug)]
pub struct WindowState<S> {
    pub focused: bool,
    pub window_level: WindowLevel,
    pub scale_factor_override: Option<S>,
}

/// The indices of the focused windows among the first `n`, in order.
pub open spec fn focused_indices<S>(windows: Seq<WindowState<S>>, n: int) -> Seq<usize>
    decreases n,
{
    if n <= 0 {
        Seq::empty()
    } else if windows[n - 1].focused {
        focused_indices(windows, n - 1).push((n - 1) as usize)
    } else {
        focused_indices(windows, n - 1)
    }
}

/// Applies a window event to the focused windows: a level request sets
/// their level; a reset of the scale factor drops their override. The
/// result lists, in order, the focused windows whose scale factor an
/// adjustment applies to (none for other events). Unfocused windows never
/// change.
pub fn route_window_event<A, S>(event: &WindowEvent<A>, windows: &mut Vec<WindowState<S>>) -> (adjust: Vec<usize>)
    ensures
        final(windows)@.len() == old(windows)@.len(),
        forall|i: int|
            0 <= i < old(windows)@.len() ==> {
                let before = #[trigger] old(windows)@[i];
                let after = final(windows)@[i];
                &&& after.focused == before.focused
                &&& after.window_level == (match event {
                    WindowEvent::SetWindowLevel(level) => if before.focused {
                        *level
                    } else {
                        before.window_level
                    },
                    _ => before.window_level,
                })
                &&& after.scale_factor_override == (match event {
                    WindowEvent::SetScaleFactor(ScaleFactorAction::Reset) => if before.focused {
                        None
                    } else {
                        before.scale_factor_override
                    },
                    _ => before.scale_factor_override,
                })
            },
        adjust@ == (match event {
            WindowEvent::SetScaleFactor(ScaleFactorAction::Adjust(_)) => focused_indices(
                old(windows)@,
                old(windows)@.len() as int,
            ),
            _ => Seq::<usize>::empty(),
        }),
{
    let ghost start = windows@;
    let mut adjust: Vec<usize> = Vec::new();
    let mut i: usize = 0;
    while i < windows.len()
        invariant
            i <= windows@.len(),
            windows@.len() == start.len(),
            start == old(windows)@,
            forall|j: int| i <= j < windows@.len() ==> #[trigger] windows@[j] == start[j],
            forall|j: int|
                0 <= j < i ==> {
                    let before = #[trigger] start[j];
                    let after = windows@[j];
                    &&& after.focused == before.focused
                    &&& after.window_level == (match event {
                        WindowEvent::SetWindowLevel(level) => if before.focused {
                            *level
                        } else {
                            before.window_level
                        },
                        _ => before.window_level,
                    })
                    &&& after.scale_factor_override == (match event {
                        WindowEvent::SetScaleFactor(ScaleFactorAction::Reset) => if before.focused {
                            None
                        } else {
                            before.scale_factor_override
                        },
                        _ => before.scale_factor_override,
                    })
                },
            adjust@ == (match event {
                WindowEvent::SetScaleFactor(ScaleFactorAction::Adjust(_)) => focused_indices(
                    start,
                    i as int,
                ),
                _ => Seq::<usize>::empty(),
            }),
        decreases windows@.len() - i,
    {
        let mut window = windows.remove(i);
        if window.focused {
            match event {
                WindowEvent::SetWindowLevel(level) => {
                    window.window_level = *level;
                },
                WindowEvent::SetScaleFactor(ScaleFactorAction::Reset) => {
                    window.scale_factor_override = None;
                },
                WindowEvent::SetScaleFactor(ScaleFactorAction::Adjust(_)) => {
                    adjust.push(i);
                },
                WindowEvent::Close => {},
            }
        }
        windows.insert(i, window);
        i = i + 1;
    }
    adjust
}

//---
/// Flips the window decorations when F10 was just pressed.
pub fn toggle_decorations(f10_just_pressed: bool, decorations: &mut bool)
    ensures
        *final(decorations) == if f10_just_pressed {
            !*old(decorations)
        } else {
            *old(decorations)
        },
{
    if f10_just_pressed {
        *decorations = !*decorations;
    }
}

/// F11 switches a windowed window to borderless fullscreen and any other
/// window back to windowed; otherwise F12 flips the decorations.
pub fn toggle_fullscreen(
    f11_just_pressed: bool,
    f12_just_pressed: bool,
    mode: &mut WindowMode,
    decorations: &mut bool,
)
    ensures
        *final(mode) == if f11_just_pressed {
            toggled_mode(*old(mode))
        } else {
            *old(mode)
        },
        *final(decorations) == if !f11_just_pressed && f12_just_pressed {
            !*old(decorations)
        } else {
            *old(decorations)
        },
{
    if f11_just_pressed {
        match *mode {
            WindowMode::Windowed => {
                *mode = WindowMode::BorderlessFullscreen;
            },
            _ => {
                *mode = WindowMode::Windowed;
            },
        }
    } else if f12_just_pressed {
        *decorations = !*decorations;
    }
}

/// The screen mode after a fullscreen toggle: windowed windows go
/// borderless fullscreen, every other window goes windowed.
pub open spec fn toggled_mode(mode: WindowMode) -> WindowMode {
    if mode == WindowMode::Windowed {
        WindowMode::BorderlessFullscreen
    } else {
        WindowMode::Windowed
    }
}

/// Two fullscreen toggles bring a windowed window back to windowed, and a
/// toggle always lands in windowed or borderless fullscreen.
pub proof fn lemma_fullscreen_toggle_round_trip(mode: WindowMode)
    ensures
        toggled_mode(toggled_mode(WindowMode::Windowed)) == WindowMode::Windowed,
        toggled_mode(mode) == WindowMode::Windowed || toggled_mode(mode)
            == WindowMode::BorderlessFullscreen,
        toggled_mode(toggled_mode(toggled_mode(mode))) == toggled_mode(mode),
{
}

} // verus!
