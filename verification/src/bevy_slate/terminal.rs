//! The terminal plugin of the Bevy runtime: a terminal next to the
//! application's windows, showing a log stream and debug panels.
use vstd::prelude::*;

use crate::terminal::surface::TerminalKeyCode;

verus! {

/// Runs the terminal alongside the application.
#[derive(Default, Debug)]
pub struct TerminalPlugin {}

impl TerminalPlugin {
    /// The plugin.
    pub fn new() -> (p: Self)
        ensures
            p == (TerminalPlugin {}),
    {
        TerminalPlugin {}
    }
}

/// A page of the terminal's history.
pub struct TerminalPage {
    pub _content: String,
}

impl From<String> for TerminalPage {
    /// The page with the given content.
    fn from(_content: String) -> (p: Self) {
        TerminalPage { _content }
    }
}

impl vstd::std_specs::convert::FromSpecImpl<String> for TerminalPage {
    open spec fn obeys_from_spec() -> bool {
        true
    }

    open spec fn from_spec(_content: String) -> TerminalPage {
        TerminalPage { _content }
    }
}

/// Errors of the terminal.
#[derive(Debug)]
pub enum TerminalError {
    IoError(std::io::Error),
}

impl From<std::io::Error> for TerminalError {
    /// The error for an I/O error.
    fn from(error: std::io::Error) -> (e: Self) {
        TerminalError::IoError(error)
    }
}

impl vstd::std_specs::convert::FromSpecImpl<std::io::Error> for TerminalError {
    open spec fn obeys_from_spec() -> bool {
        true
    }

    open spec fn from_spec(error: std::io::Error) -> TerminalError {
        TerminalError::IoError(error)
    }
}

/// A terminal event, as far as the plugin reads it.
#[derive(Copy, Clone, Debug, PartialEq, Eq, Structural)]
pub enum TerminalEventKind {
    /// The terminal failed to start.
    StartupFailed,
    /// The terminal is ready.
    Ready,
    /// The terminal was resized.
    Resize(u16, u16),
    /// A key was pressed, with or without Ctrl.
    Key { code: TerminalKeyCode, ctrl: bool },
    /// Any other event of the terminal backend.
    Other,
}

/// What the plugin does for a terminal event.
#[derive(Copy, Clone, Debug, PartialEq, Eq, Structural)]
pub enum TerminalAction {
    /// Print that the terminal is ready.
    PrintReady,
    /// Print the new size of the terminal.
    PrintResized(u16, u16),
    /// Exit the application.
    Exit,
}

/// The action for one terminal event: readiness and resizes are printed,
/// `Ctrl+C` exits, everything else is ignored.
pub open spec fn terminal_action(event: TerminalEventKind) -> Option<TerminalAction> {
    match event {
        TerminalEventKind::Ready => Some(TerminalAction::PrintReady),
        TerminalEventKind::Resize(width, height) => Some(TerminalAction::PrintResized(width, height)),
        TerminalEventKind::Key { code, ctrl } => if code == TerminalKeyCode::Char('c') && ctrl {
            Some(TerminalAction::Exit)
        } else {
            None
        },
        _ => None,
    }
}

/// The actions of a sequence of terminal events, in order.
pub open spec fn terminal_actions(events: Seq<TerminalEventKind>) -> Seq<TerminalAction>
    decreases events.len(),
{
    if events.len() == 0 {
        Seq::empty()
    } else {
        let prev = terminal_actions(events.drop_last());
        match terminal_action(events.last()) {
            Some(a) => prev.push(a),
            None => prev,
        }
    }
}

/// The actions for the terminal events of a frame, in order.
pub fn dispatch_events(events: &Vec<TerminalEventKind>) -> (actions: Vec<TerminalAction>)
    ensures
        actions@ == terminal_actions(events@),
{
    let mut actions: Vec<TerminalAction> = Vec::new();
    let mut i: usize = 0;
    while i < events.len()
        invariant
            i <= events@.len(),
            actions@ == terminal_actions(events@.take(i as int)),
        decreases events@.len() - i,
    {
        assert(events@.take(i + 1).drop_last() =~= events@.take(i as int));
        assert(events@.take(i + 1).last() == events@[i as int]);
        match events[i] {
            TerminalEventKind::Ready => actions.push(TerminalAction::PrintReady),
            TerminalEventKind::Resize(width, height) => actions.push(
                TerminalAction::PrintResized(width, height),
            ),
            TerminalEventKind::Key { code, ctrl } => {
                if code == TerminalKeyCode::Char('c') && ctrl {
                    actions.push(TerminalAction::Exit);
                }
            },
            _ => {},
        }
        i = i + 1;
    }
    assert(events@.take(events@.len() as int) =~= events@);
    actions
}

/// The number of pressed keyboard events among `pressed`.
pub open spec fn count_pressed(pressed: Seq<bool>) -> nat
    decreases pressed.len(),
{
    if pressed.len() == 0 {
        0
    } else {
        count_pressed(pressed.drop_last()) + if pressed.last() {
            1nat
        } else {
            0nat
        }
    }
}

/// How many exit requests the keyboard events of a frame send: one per
/// pressed key while Ctrl is held, none otherwise.
pub fn exit_keys(ctrl: bool, pressed: &Vec<bool>) -> (exits: usize)
    ensures
        exits == if ctrl {
            count_pressed(pressed@)
        } else {
            0
        },
{
    let mut exits: usize = 0;
    let mut i: usize = 0;
    while i < pressed.len()
        invariant
            i <= pressed@.len(),
            exits == if ctrl {
                count_pressed(pressed@.take(i as int))
            } else {
                0
            },
            exits <= i,
        decreases pressed@.len() - i,
    {
        assert(pressed@.take(i + 1).drop_last() =~= pressed@.take(i as int));
        assert(pressed@.take(i + 1).last() == pressed@[i as int]);
        if ctrl && pressed[i] {
            exits = exits + 1;
        }
        i = i + 1;
    }
    assert(pressed@.take(pressed@.len() as int) =~= pressed@);
    exits
}

//---
/// How a paragraph wraps.
#[derive(Copy, Clone, Debug, PartialEq, Eq, Structural)]
pub struct Wrap {
    /// Whether leading whitespace is trimmed on wrapped lines.
    pub trim: bool,
}

/// A titled panel of debug lines (`L`).
pub struct DebugPanel<L> {
    pub title: String,
    pub lines: Vec<L>,
    pub wrap: bool,
}

impl<L> DebugPanel<L> {
    /// How the panel's paragraph wraps: trimmed unless the panel wraps.
    pub fn wrap(&self) -> (w: Wrap)
        ensures
            w.trim == !self.wrap,
    {
        Wrap { trim: !self.wrap }
    }

    /// A panel with the given title, wrapping and lines.
    pub fn new(title: String, wrap: bool, lines: Vec<L>) -> (p: Self)
        ensures
            p.title == title,
            p.wrap == wrap,
            p.lines == lines,
    {
        DebugPanel { title, lines, wrap }
    }
}

//---
/// An area of the terminal, as `x`, `y`, `width`, `height`.
#[derive(Copy, Clone, Debug, PartialEq, Eq, Structural)]
pub struct Area {
    pub x: u16,
    pub y: u16,
    pub width: u16,
    pub height: u16,
}

/// The areas of the log column: the prompt (three rows at the top), the
/// level tabs below it, and the stream below the tabs.
#[derive(Copy, Clone, Debug, PartialEq, Eq, Structural)]
pub struct LogColumn {
    pub prompt: Area,
    pub tabs: Area,
    pub stream: Area,
}

/// The log column can be split: it is at least five rows high and its
/// rows can be counted from its top.
pub open spec fn log_column_fits(col: Area) -> bool {
    &&& col.height >= 5
    &&& col.y + 5 <= u16::MAX
}

/// Splits the log column into the prompt, the tabs and the stream.
pub fn log_column(col: Area) -> (c: LogColumn)
    requires
        log_column_fits(col),
    ensures
        c.prompt == (Area { x: col.x, y: col.y, width: col.width, height: 3 }),
        c.tabs == (Area { x: col.x, y: (col.y + 3) as u16, width: col.width, height: (col.height - 3) as u16 }),
        c.stream == (Area { x: col.x, y: (col.y + 5) as u16, width: col.width, height: (col.height - 5) as u16 }),
{
    LogColumn {
        prompt: Area { x: col.x, y: col.y, width: col.width, height: 3 },
        tabs: Area { x: col.x, y: col.y + 3, width: col.width, height: col.height - 3 },
        stream: Area { x: col.x, y: col.y + 5, width: col.width, height: col.height - 5 },
    }
}

/// The areas of panels stacked from the top of the screen: each panel is
/// two rows (its border) higher than its lines, and starts where the one
/// before it ends.
pub open spec fn stacked_panels(col: Area, line_counts: Seq<u16>) -> Seq<Area>
    decreases line_counts.len(),
{
    if line_counts.len() == 0 {
        Seq::empty()
    } else {
        let prev = stacked_panels(col, line_counts.drop_last());
        let top = panels_height(line_counts.drop_last());
        prev.push(
            Area { x: col.x, y: top as u16, width: col.width, height: (2 + line_counts.last()) as u16 },
        )
    }
}

/// The total height of stacked panels.
pub open spec fn panels_height(line_counts: Seq<u16>) -> nat
    decreases line_counts.len(),
{
    if line_counts.len() == 0 {
        0
    } else {
        panels_height(line_counts.drop_last()) + 2 + line_counts.last() as nat
    }
}

/// Stacks debug panels with the given numbers of lines in the debug column,
/// from the top of the screen down.
pub fn stack_panels(col: Area, line_counts: &Vec<u16>) -> (areas: Vec<Area>)
    requires
        panels_height(line_counts@) <= u16::MAX,
    ensures
        areas@ == stacked_panels(col, line_counts@),
{
    let mut areas: Vec<Area> = Vec::new();
    let mut top: u16 = 0;
    let mut i: usize = 0;
    while i < line_counts.len()
        invariant
            i <= line_counts@.len(),
            panels_height(line_counts@) <= u16::MAX,
            top == panels_height(line_counts@.take(i as int)),
            areas@ == stacked_panels(col, line_counts@.take(i as int)),
        decreases line_counts@.len() - i,
    {
        assert(line_counts@.take(i + 1).drop_last() =~= line_counts@.take(i as int));
        assert(line_counts@.take(i + 1).last() == line_counts@[i as int]);
        proof {
            lemma_panels_height_prefix(line_counts@, i as int + 1);
        }
        let height: u16 = 2 + line_counts[i];
        areas.push(Area { x: col.x, y: top, width: col.width, height });
        top = top + height;
        i = i + 1;
    }
    assert(line_counts@.take(line_counts@.len() as int) =~= line_counts@);
    areas
}

/// The panels of a prefix are no higher than all panels.
proof fn lemma_panels_height_prefix(line_counts: Seq<u16>, n: int)
    requires
        0 <= n <= line_counts.len(),
    ensures
        panels_height(line_counts.take(n)) <= panels_height(line_counts),
    decreases line_counts.len() - n,
{
    if n < line_counts.len() {
        lemma_panels_height_prefix(line_counts, n + 1);
        assert(line_counts.take(n + 1).drop_last() =~= line_counts.take(n));
    } else {
        assert(line_counts.take(n) =~= line_counts);
    }
}

/// Stacked panels do not overlap: each starts where the one before it
/// ends.
pub proof fn lemma_stacked_panels_touch(col: Area, line_counts: Seq<u16>, i: int)
    requires
        panels_height(line_counts) <= u16::MAX,
        0 <= i,
        i + 1 < line_counts.len(),
    ensures
        stacked_panels(col, line_counts).len() == line_counts.len(),
        stacked_panels(col, line_counts)[i + 1].y == stacked_panels(col, line_counts)[i].y
            + stacked_panels(col, line_counts)[i].height,
    decreases line_counts.len(),
{
    lemma_stacked_len(col, line_counts);
    let prefix = line_counts.drop_last();
    lemma_panels_height_prefix(line_counts, line_counts.len() - 1);
    assert(line_counts.take(line_counts.len() - 1) =~= prefix);
    lemma_stacked_len(col, prefix);
    if i + 1 < prefix.len() {
        lemma_stacked_panels_touch(col, prefix, i);
    } else {
        let pp = prefix.drop_last();
        lemma_panels_height_prefix(prefix, prefix.len() - 1);
        assert(prefix.take(prefix.len() - 1) =~= pp);
    }
}

proof fn lemma_stacked_len(col: Area, line_counts: Seq<u16>)
    ensures
        stacked_panels(col, line_counts).len() == line_counts.len(),
    decreases line_counts.len(),
{
    if line_counts.len() > 0 {
        lemma_stacked_len(col, line_counts.drop_last());
    }
}

/// A terminal event makes the application exit exactly when it is
/// `Ctrl+C`: no other key, with or without Ctrl, and no other event exits.
pub proof fn lemma_exit_only_on_ctrl_c(event: TerminalEventKind)
    ensures
        terminal_action(event) == Some(TerminalAction::Exit) <==> event == (TerminalEventKind::Key {
            code: TerminalKeyCode::Char('c'),
            ctrl: true,
        }),
{
}

/// The events of a frame make the application exit exactly when one of
/// them is `Ctrl+C`.
pub proof fn lemma_frame_exits_on_ctrl_c(events: Seq<TerminalEventKind>)
    ensures
        terminal_actions(events).contains(TerminalAction::Exit) <==> events.contains(
            TerminalEventKind::Key { code: TerminalKeyCode::Char('c'), ctrl: true },
        ),
    decreases events.len(),
{
    let ctrl_c = TerminalEventKind::Key { code: TerminalKeyCode::Char('c'), ctrl: true };
    if events.len() > 0 {
        let init = events.drop_last();
        lemma_frame_exits_on_ctrl_c(init);
        lemma_exit_only_on_ctrl_c(events.last());
        let prev = terminal_actions(init);
        assert(events =~= init.push(events.last()));
        if events.contains(ctrl_c) {
            let j = choose|j: int| 0 <= j < events.len() && events[j] == ctrl_c;
            if j < init.len() {
                assert(init[j] == ctrl_c);
            }
        }
        if init.contains(ctrl_c) {
            let j = choose|j: int| 0 <= j < init.len() && init[j] == ctrl_c;
            assert(events[j] == ctrl_c);
        }
        match terminal_action(events.last()) {
            Some(a) => {
                let now = prev.push(a);
                if now.contains(TerminalAction::Exit) {
                    let j = choose|j: int| 0 <= j < now.len() && now[j] == TerminalAction::Exit;
                    if j < prev.len() {
                        assert(prev[j] == TerminalAction::Exit);
                    }
                }
                if prev.contains(TerminalAction::Exit) {
                    let j = choose|j: int| 0 <= j < prev.len() && prev[j] == TerminalAction::Exit;
                    assert(now[j] == TerminalAction::Exit);
                }
                if a == TerminalAction::Exit {
                    assert(now[prev.len() as int] == TerminalAction::Exit);
                }
                if events.last() == ctrl_c {
                    assert(events[events.len() - 1] == ctrl_c);
                }
            },
            None => {
                if events.last() == ctrl_c {
                    assert(false);
                }
            },
        }
    } else {
        assert(!events.contains(ctrl_c));
        assert(!terminal_actions(events).contains(TerminalAction::Exit));
    }
}

/// Readiness is printed exactly for the ready event, and a size exactly for
/// a resize to that size.
pub proof fn lemma_printed_events(event: TerminalEventKind, width: u16, height: u16)
    ensures
        terminal_action(event) == Some(TerminalAction::PrintReady) <==> event is Ready,
        terminal_action(event) == Some(TerminalAction::PrintResized(width, height)) <==> event
            == TerminalEventKind::Resize(width, height),
{
}

} // verus!
