//! The surface application: key bindings, the selection marquee, and the
//! application's signals and errors.
use vstd::prelude::*;

use bevy::color::Color;
use bevy::ecs::entity::Entity;

use crate::outside::entity_eq;
use bevy::math::Vec2;
use tokio::sync::mpsc::Receiver;
use tokio::sync::mpsc::Sender;

use crate::bevy_slate::window::WindowLevel;
use crate::keys::{ButtonState, KeyCode, KeyboardInput};

verus! {

/// `tokio::sync::mpsc::Sender`, the sending half of a bounded channel.
#[verifier::external_type_specification]
#[verifier::external_body]
#[verifier::reject_recursive_types(T)]
pub struct ExSender<T>(Sender<T>);

/// `tokio::sync::mpsc::Receiver`, the receiving half of a bounded channel.
#[verifier::external_type_specification]
#[verifier::external_body]
#[verifier::reject_recursive_types(T)]
pub struct ExReceiver<T>(Receiver<T>);

/// The largest buffer a bounded channel takes (tokio's
/// `Semaphore::MAX_PERMITS`).
pub open spec fn max_channel_buffer() -> usize {
    (usize::MAX >> 3usize) as usize
}

/// `tokio::sync::mpsc::channel`: a bounded channel of the given capacity.
/// It panics on a capacity of zero or above `max_channel_buffer()`, which
/// `requires` leaves out. Nothing is stated of the halves.
#[verifier::external_body]
fn mpsc_channel<T>(size: usize) -> (Sender<T>, Receiver<T>)
    requires
        0 < size <= max_channel_buffer(),
{
    tokio::sync::mpsc::channel(size)
}

/// `Sender::clone`: another sender to the same channel. Nothing is stated
/// of it.
#[verifier::external_body]
fn sender_clone<T>(sender: &Sender<T>) -> Sender<T> {
    sender.clone()
}

/// A channel of signals: its sender, its receiver, and the number of
/// signals it buffers.
pub struct SignalChannel(Sender<Signal>, Receiver<Signal>, usize);

impl SignalChannel {
    /// The receiving half that the channel holds.
    pub closed spec fn held_receiver(&self) -> Receiver<Signal> {
        self.1
    }

    /// The number of signals the channel buffers, as it was made.
    pub closed spec fn capacity_of(&self) -> usize {
        self.2
    }

    /// A channel that buffers up to `size` signals.
    pub fn new(size: usize) -> (c: SignalChannel)
        requires
            0 < size <= max_channel_buffer(),
        ensures
            c.capacity_of() == size,
    {
        let (tx, rx) = mpsc_channel(size);
        SignalChannel(tx, rx, size)
    }

    /// The number of signals the channel buffers.
    pub fn capacity(&self) -> (n: usize)
        ensures
            n == self.capacity_of(),
    {
        self.2
    }

    /// Another sender to the channel; the channel itself is left as it was.
    /// Which channel the new sender sends to lives inside tokio's sender,
    /// and is not stated.
    pub fn sender(&mut self) -> (s: Sender<Signal>)
        ensures
            *final(self) == *old(self),
    {
        sender_clone(&self.0)
    }

    /// The receiver of the channel.
    pub fn receiver(&self) -> (r: &Receiver<Signal>)
        ensures
            *r == self.held_receiver(),
    {
        &self.1
    }
}

/// Signals between the application and its services.
pub enum Signal {
    /// Stop.
    Terminate,
}

/// Errors of the surface application.
#[derive(Debug)]
pub enum SurfaceError {
    /// The surface could not boot.
    BootFailed,
    /// The surface stopped with the given exit code, which is never zero.
    RunFailed(u8),
}

/// Events of the context menu.
#[derive(Copy, Clone, Debug, PartialEq, Eq, Structural)]
pub enum ContextMenuEvent {
    Show,
    Hide,
}

/// What a key binding asks the application to do.
#[derive(Copy, Clone, Debug, PartialEq, Eq, Structural)]
pub enum KeybindAction {
    /// Exit the application.
    Exit,
    /// Set the level of the focused windows.
    SetWindowLevel(WindowLevel),
    /// Set the UI scale back to 1.
    ResetUiScale,
    /// Shrink the UI scale by a tenth, if it is above one half.
    ShrinkUiScale,
    /// Grow the UI scale by a tenth, if it is below 2.
    GrowUiScale,
}

/// The action that one keyboard event triggers, given which modifiers are
/// held: `Alt+Q` exits (on press and release alike); `Alt+PageUp` pins
/// the focused windows on top and `Alt+PageDown` unpins them, with or
/// without Ctrl;
/// `Ctrl+0`, `Ctrl+-` and `Ctrl+=` (or their keypad keys, without Alt or
/// Shift) reset, shrink and grow the UI scale. All but `Alt+Q` act on
/// presses only.
pub open spec fn keybind_action(alt: bool, ctrl: bool, shift: bool, event: KeyboardInput) -> Option<KeybindAction> {
    let pressed = event.state == ButtonState::Pressed;
    let key = event.key_code;
    if key == KeyCode::KeyQ && alt {
        Some(KeybindAction::Exit)
    } else if key == KeyCode::PageUp && alt {
        if pressed {
            Some(KeybindAction::SetWindowLevel(WindowLevel::AlwaysOnTop))
        } else {
            None
        }
    } else if key == KeyCode::PageDown && alt {
        if pressed {
            Some(KeybindAction::SetWindowLevel(WindowLevel::Normal))
        } else {
            None
        }
    } else if (key == KeyCode::Digit0 || key == KeyCode::Numpad0) && !alt && ctrl && !shift {
        if pressed {
            Some(KeybindAction::ResetUiScale)
        } else {
            None
        }
    } else if (key == KeyCode::Minus || key == KeyCode::NumpadSubtract) && !alt && ctrl && !shift {
        if pressed {
            Some(KeybindAction::ShrinkUiScale)
        } else {
            None
        }
    } else if (key == KeyCode::Equal || key == KeyCode::NumpadAdd) && !alt && ctrl && !shift {
        if pressed {
            Some(KeybindAction::GrowUiScale)
        } else {
            None
        }
    } else {
        None
    }
}

/// The actions of a sequence of keyboard events, in order.
pub open spec fn keybind_actions(alt: bool, ctrl: bool, shift: bool, events: Seq<KeyboardInput>) -> Seq<KeybindAction>
    decreases events.len(),
{
    if events.len() == 0 {
        Seq::empty()
    } else {
        let prev = keybind_actions(alt, ctrl, shift, events.drop_last());
        match keybind_action(alt, ctrl, shift, events.last()) {
            Some(a) => prev.push(a),
            None => prev,
        }
    }
}

/// The action of one keyboard event under the held modifiers.
pub fn keybind_for(alt: bool, ctrl: bool, shift: bool, event: KeyboardInput) -> (a: Option<KeybindAction>)
    ensures
        a == keybind_action(alt, ctrl, shift, event),
{
    let pressed = match event.state {
        ButtonState::Pressed => true,
        ButtonState::Released => false,
    };
    let key = event.key_code;
    let scale_mods = !alt && ctrl && !shift;
    if key == KeyCode::KeyQ && alt {
        Some(KeybindAction::Exit)
    } else if key == KeyCode::PageUp && alt {
        if pressed {
            Some(KeybindAction::SetWindowLevel(WindowLevel::AlwaysOnTop))
        } else {
            None
        }
    } else if key == KeyCode::PageDown && alt {
        if pressed {
            Some(KeybindAction::SetWindowLevel(WindowLevel::Normal))
        } else {
            None
        }
    } else if (key == KeyCode::Digit0 || key == KeyCode::Numpad0) && scale_mods {
        if pressed {
            Some(KeybindAction::ResetUiScale)
        } else {
            None
        }
    } else if (key == KeyCode::Minus || key == KeyCode::NumpadSubtract) && scale_mods {
        if pressed {
            Some(KeybindAction::ShrinkUiScale)
        } else {
            None
        }
    } else if (key == KeyCode::Equal || key == KeyCode::NumpadAdd) && scale_mods {
        if pressed {
            Some(KeybindAction::GrowUiScale)
        } else {
            None
        }
    } else {
        None
    }
}

/// The actions that the keyboard events of one frame trigger, in order,
/// given which modifiers (Alt, Ctrl, Shift, either side) are held.
pub fn route_keybinds(alt: bool, ctrl: bool, shift: bool, events: &Vec<KeyboardInput>) -> (actions: Vec<KeybindAction>)
    ensures
        actions@ == keybind_actions(alt, ctrl, shift, events@),
{
    let mut actions: Vec<KeybindAction> = Vec::new();
    let mut i: usize = 0;
    while i < events.len()
        invariant
            i <= events@.len(),
            actions@ == keybind_actions(alt, ctrl, shift, events@.take(i as int)),
        decreases events@.len() - i,
    {
        assert(events@.take(i + 1).drop_last() =~= events@.take(i as int));
        assert(events@.take(i + 1).last() == events@[i as int]);
        if let Some(action) = keybind_for(alt, ctrl, shift, events[i]) {
            actions.push(action);
        }
        i = i + 1;
    }
    assert(events@.take(events@.len() as int) =~= events@);
    actions
}

/// Only `Alt+Q` exits: the events of a frame in which no Alt key is held
/// never exit the application.
pub proof fn lemma_exit_needs_alt(ctrl: bool, shift: bool, events: Seq<KeyboardInput>)
    ensures
        !keybind_actions(false, ctrl, shift, events).contains(KeybindAction::Exit),
    decreases events.len(),
{
    if events.len() > 0 {
        lemma_exit_needs_alt(ctrl, shift, events.drop_last());
        let prev = keybind_actions(false, ctrl, shift, events.drop_last());
        match keybind_action(false, ctrl, shift, events.last()) {
            Some(a) => {
                assert(prev.push(a).last() == a);
                assert forall|k: int| 0 <= k < prev.push(a).len() implies prev.push(a)[k]
                    != KeybindAction::Exit by {
                    if k < prev.len() {
                        assert(prev.push(a)[k] == prev[k]);
                    }
                }
            },
            None => {},
        }
    }
}

//---
/// The state of the selection marquee: the entity that bounds the current
/// selection, and where the selection started.
#[derive(Default)]
pub struct SelectionState {
    pub bounds: Option<Entity>,
    pub start_pos: Option<Vec2>,
}

/// The marquee that shows the current selection.
#[derive(Default, Debug, Clone, Copy)]
pub struct SelectionMarquee {
    pub _color: Color,
}

impl SelectionMarquee {
    /// A marquee of the given color.
    pub fn new(color: Color) -> (m: Self)
        ensures
            m._color == color,
    {
        SelectionMarquee { _color: color }
    }
}

/// A selection starts: its bounds are the given entity and it starts at
/// the reticle's screen position.
pub fn start_selection(state: &mut SelectionState, bounds: Entity, start_pos: Vec2)
    ensures
        final(state).bounds == Some(bounds),
        final(state).start_pos == Some(start_pos),
{
    state.bounds = Some(bounds);
    state.start_pos = Some(start_pos);
}

/// Whether a marquee whose parent is `parent` belongs to the current
/// selection.
pub fn tracks_marquee(state: &SelectionState, parent: Entity) -> (r: bool)
    ensures
        r == (state.bounds == Some(parent)),
{
    match &state.bounds {
        Some(bounds) => entity_eq(bounds, &parent),
        None => false,
    }
}

/// A selection ends: the bounds to despawn, if any, are handed back and
/// forgotten; the start position stays.
pub fn end_selection(state: &mut SelectionState) -> (despawn: Option<Entity>)
    ensures
        despawn == old(state).bounds,
        final(state).bounds is None,
        final(state).start_pos == old(state).start_pos,
{
    let despawn = state.bounds;
    state.bounds = None;
    despawn
}

//---
/// A handle that moves a window.
#[derive(Default, Debug, Clone, Copy)]
pub struct WindowMoveHandle {
    /// The window the handle is attached to.
    pub _window: Option<Entity>,
}

impl WindowMoveHandle {
    /// A handle attached to the given window.
    pub fn _new(window: Option<Entity>) -> (h: Self)
        ensures
            h._window == window,
    {
        WindowMoveHandle { _window: window }
    }
}

/// A key release triggers nothing but `Alt+Q`'s exit: every other binding,
/// the UI-scale ones among them, acts on presses only, so one keystroke
/// (press and release) acts once.
pub proof fn lemma_releases_only_exit(alt: bool, ctrl: bool, shift: bool, key: KeyCode)
    ensures
        keybind_action(alt, ctrl, shift, KeyboardInput { key_code: key, state: ButtonState::Released })
            matches Some(a) ==> a == KeybindAction::Exit && key == KeyCode::KeyQ && alt,
{
}

/// With Ctrl alone held, the UI-scale keys act exactly on their presses:
/// `0` resets, `-` shrinks and `=` grows the scale, on the main keys and the
/// keypad alike, and no other key changes the scale.
pub proof fn lemma_scale_keys(event: KeyboardInput)
    ensures
        keybind_action(false, true, false, event) == Some(KeybindAction::ResetUiScale) <==> (
        event.state == ButtonState::Pressed && (event.key_code == KeyCode::Digit0 || event.key_code
            == KeyCode::Numpad0)),
        keybind_action(false, true, false, event) == Some(KeybindAction::ShrinkUiScale) <==> (
        event.state == ButtonState::Pressed && (event.key_code == KeyCode::Minus || event.key_code
            == KeyCode::NumpadSubtract)),
        keybind_action(false, true, false, event) == Some(KeybindAction::GrowUiScale) <==> (
        event.state == ButtonState::Pressed && (event.key_code == KeyCode::Equal || event.key_code
            == KeyCode::NumpadAdd)),
{
}

/// The number of times `action` occurs in `actions`.
pub open spec fn occurrences(actions: Seq<KeybindAction>, action: KeybindAction) -> nat
    decreases actions.len(),
{
    if actions.len() == 0 {
        0
    } else {
        occurrences(actions.drop_last(), action) + if actions.last() == action {
            1nat
        } else {
            0nat
        }
    }
}

/// The number of presses of `=` or keypad `+` among `events`.
pub open spec fn grow_presses(events: Seq<KeyboardInput>) -> nat
    decreases events.len(),
{
    if events.len() == 0 {
        0
    } else {
        grow_presses(events.drop_last()) + if events.last().state == ButtonState::Pressed && (
        events.last().key_code == KeyCode::Equal || events.last().key_code == KeyCode::NumpadAdd) {
            1nat
        } else {
            0nat
        }
    }
}

/// With Ctrl alone held, a frame grows the UI scale once for each press of
/// `=` or keypad `+` among its events, and never for their releases.
pub proof fn lemma_grows_once_per_press(events: Seq<KeyboardInput>)
    ensures
        occurrences(keybind_actions(false, true, false, events), KeybindAction::GrowUiScale)
            == grow_presses(events),
    decreases events.len(),
{
    if events.len() > 0 {
        lemma_grows_once_per_press(events.drop_last());
        lemma_scale_keys(events.last());
        let prev = keybind_actions(false, true, false, events.drop_last());
        match keybind_action(false, true, false, events.last()) {
            Some(a) => {
                assert(prev.push(a).drop_last() =~= prev);
            },
            None => {},
        }
    }
}

/// `Alt+Q` exits, on press and release, with any other modifiers; nothing
/// else exits.
pub proof fn lemma_exit_key(alt: bool, ctrl: bool, shift: bool, event: KeyboardInput)
    ensures
        keybind_action(alt, ctrl, shift, event) == Some(KeybindAction::Exit) <==> (alt
            && event.key_code == KeyCode::KeyQ),
{
}

/// The window level changes only on a press of `PageUp` (on top) or
/// `PageDown` (normal) with Alt held, with or without Ctrl or Shift.
pub proof fn lemma_window_level_keys(
    alt: bool,
    ctrl: bool,
    shift: bool,
    event: KeyboardInput,
    level: WindowLevel,
)
    ensures
        keybind_action(alt, ctrl, shift, event) == Some(KeybindAction::SetWindowLevel(level)) <==> (
        alt && event.state == ButtonState::Pressed && ((event.key_code == KeyCode::PageUp && level
            == WindowLevel::AlwaysOnTop) || (event.key_code == KeyCode::PageDown && level
            == WindowLevel::Normal))),
{
}

/// The UI scale changes only with Ctrl held and neither Alt nor Shift.
pub proof fn lemma_scale_needs_ctrl_alone(alt: bool, ctrl: bool, shift: bool, event: KeyboardInput)
    ensures
        keybind_action(alt, ctrl, shift, event) matches Some(a) ==> (a == KeybindAction::ResetUiScale
            || a == KeybindAction::ShrinkUiScale || a == KeybindAction::GrowUiScale) ==> (!alt && ctrl
            && !shift),
{
}

} // verus!
