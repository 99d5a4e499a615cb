//! The terminal surface: how terminal events become commands, and how the
//! roots of a surface are laid out as nested element blocks.
use vstd::prelude::*;

use uuid::Uuid as UUID;

use crate::terminal::element::{
    inner_defined, inner_of_bounds, ElementBlock, ElementBlockView, Padding, Rect,
};

verus! {

/// A stack of element indices to draw, with the index being drawn.
pub struct DrawStack(pub Option<usize>, pub Vec<usize>);

/// A command for the terminal surface's run loop.
#[derive(Copy, Clone, Debug, PartialEq, Eq, Structural)]
pub enum TerminalCmd {
    /// Draw the surface; clear the screen first if `true`.
    Print(bool),
    /// Stop the run loop.
    Quit,
}

/// The code of a key event, as far as the run loop reads it.
#[derive(Copy, Clone, Debug, PartialEq, Eq, Structural)]
pub enum TerminalKeyCode {
    /// A character key.
    Char(char),
    /// Any other key.
    Other,
}

/// An input event of the terminal, as far as the run loop reads it.
#[derive(Copy, Clone, Debug, PartialEq, Eq, Structural)]
pub enum TerminalInput {
    FocusGained,
    FocusLost,
    Resize(u16, u16),
    Key { code: TerminalKeyCode, ctrl: bool, press: bool },
    Mouse,
    Paste,
}

/// The command that a terminal event asks for.
pub open spec fn command_of(input: TerminalInput) -> Option<TerminalCmd> {
    match input {
        TerminalInput::FocusGained => Some(TerminalCmd::Print(true)),
        TerminalInput::FocusLost => None,
        TerminalInput::Resize(_, _) => Some(TerminalCmd::Print(true)),
        TerminalInput::Key { code, ctrl, press } => {
            if code == TerminalKeyCode::Char('q') && press {
                Some(TerminalCmd::Quit)
            } else if code == TerminalKeyCode::Char('c') && ctrl && press {
                Some(TerminalCmd::Quit)
            } else if code == TerminalKeyCode::Char('r') && ctrl && press {
                Some(TerminalCmd::Print(true))
            } else {
                None
            }
        },
        TerminalInput::Mouse => Some(TerminalCmd::Print(false)),
        TerminalInput::Paste => Some(TerminalCmd::Print(false)),
    }
}

/// The command for a terminal event: focus and resize redraw with a clear;
/// `q`, `Ctrl+C` quit; `Ctrl+R` redraws with a clear; mouse and paste
/// events redraw without one.
pub fn command_for(input: TerminalInput) -> (cmd: Option<TerminalCmd>)
    ensures
        cmd == command_of(input),
{
    match input {
        TerminalInput::FocusGained => Some(TerminalCmd::Print(true)),
        TerminalInput::FocusLost => None,
        TerminalInput::Resize(_, _) => Some(TerminalCmd::Print(true)),
        TerminalInput::Key { code, ctrl, press } => {
            match code {
                TerminalKeyCode::Char(c) => {
                    if c == 'q' && press {
                        Some(TerminalCmd::Quit)
                    } else if c == 'c' && ctrl && press {
                        Some(TerminalCmd::Quit)
                    } else if c == 'r' && ctrl && press {
                        Some(TerminalCmd::Print(true))
                    } else {
                        None
                    }
                },
                TerminalKeyCode::Other => None,
            }
        },
        TerminalInput::Mouse => Some(TerminalCmd::Print(false)),
        TerminalInput::Paste => Some(TerminalCmd::Print(false)),
    }
}

/// What the run loop does after one event: whether it draws (and whether
/// it clears first), and whether it stops.
#[derive(Copy, Clone, Debug, PartialEq, Eq, Structural)]
pub struct LoopStep {
    pub print: Option<bool>,
    pub stop: bool,
}

/// One step of the run loop: the event's command decides whether to draw
/// and whether to stop; a loop that was stopping stays stopping.
pub fn run_loop_step(should_stop: bool, input: TerminalInput) -> (step: LoopStep)
    ensures
        step.print == (match command_of(input) {
            Some(TerminalCmd::Print(clear)) => Some(clear),
            _ => None::<bool>,
        }),
        step.stop == (should_stop || command_of(input) == Some(TerminalCmd::Quit)),
{
    match command_for(input) {
        Some(TerminalCmd::Print(should_clear)) => LoopStep { print: Some(should_clear), stop: should_stop },
        Some(TerminalCmd::Quit) => LoopStep { print: None, stop: true },
        None => LoopStep { print: None, stop: should_stop },
    }
}

//---
/// The bounds of a chain of nested blocks: the first block gets `outer`,
/// and each next block gets the inner bounds of the one before.
pub open spec fn nested_bounds(paddings: Seq<Rect<u16>>, outer: Rect<u16>) -> Seq<Rect<u16>>
    decreases paddings.len(),
{
    if paddings.len() == 0 {
        Seq::empty()
    } else {
        seq![outer] + nested_bounds(paddings.drop_first(), inner_of_bounds(outer, paddings[0]))
    }
}

/// Every block of a chain of nested blocks has defined inner bounds.
pub open spec fn nesting_defined(paddings: Seq<Rect<u16>>, outer: Rect<u16>) -> bool
    decreases paddings.len(),
{
    paddings.len() == 0 || (inner_defined(outer, paddings[0]) && nesting_defined(
        paddings.drop_first(),
        inner_of_bounds(outer, paddings[0]),
    ))
}

/// The paddings of a sequence of blocks.
pub open spec fn paddings_of(blocks: Seq<ElementBlock>) -> Seq<Rect<u16>> {
    blocks.map_values(|e: ElementBlock| e@.padding)
}

proof fn lemma_nested_bounds_len(paddings: Seq<Rect<u16>>, outer: Rect<u16>)
    ensures
        nested_bounds(paddings, outer).len() == paddings.len(),
    decreases paddings.len(),
{
    if paddings.len() > 0 {
        lemma_nested_bounds_len(paddings.drop_first(), inner_of_bounds(outer, paddings[0]));
    }
}

/// Whether a chain of blocks nested in `outer` can be laid out.
pub fn nesting_fits(blocks: &Vec<ElementBlock>, outer: Rect<u16>) -> (ok: bool)
    ensures
        ok == nesting_defined(paddings_of(blocks@), outer),
{
    let ghost ps = paddings_of(blocks@);
    let mut curr = outer;
    let mut i: usize = 0;
    assert(ps.skip(0) =~= ps);
    while i < blocks.len()
        invariant
            i <= blocks@.len(),
            ps == paddings_of(blocks@),
            ps.len() == blocks@.len(),
            nesting_defined(ps, outer) == nesting_defined(ps.skip(i as int), curr),
        decreases blocks@.len() - i,
    {
        let ghost rest = ps.skip(i as int);
        assert(rest[0] == blocks@[i as int]@.padding);
        assert(rest.drop_first() =~= ps.skip(i + 1));
        let p = blocks[i].padding();
        if !(curr.0 < 65535 - p.0 && curr.1 < 65535 - p.1 && curr.2 >= p.2 && curr.2 - p.2 >= 1
            && curr.3 >= p.3 && curr.3 - p.3 >= 1) {
            return false;
        }
        curr = Rect(curr.0 + p.0 + 1, curr.1 + p.1 + 1, curr.2 - p.2 - 1, curr.3 - p.3 - 1);
        i = i + 1;
    }
    assert(ps.skip(i as int) =~= Seq::<Rect<u16>>::empty());
    true
}

/// Lays out a chain of nested blocks: the first block gets `outer`, each
/// next block gets the inner bounds of the one before. Nothing but the
/// bounds changes.
pub fn layout_nested(blocks: &mut Vec<ElementBlock>, outer: Rect<u16>)
    requires
        nesting_defined(paddings_of(old(blocks)@), outer),
    ensures
        final(blocks)@.len() == old(blocks)@.len(),
        forall|i: int|
            0 <= i < old(blocks)@.len() ==> (#[trigger] final(blocks)@[i])@ == (ElementBlockView {
                bounds: nested_bounds(paddings_of(old(blocks)@), outer)[i],
                ..old(blocks)@[i]@
            }),
{
    let ghost ps = paddings_of(blocks@);
    let ghost expected = nested_bounds(ps, outer);
    proof {
        lemma_nested_bounds_len(ps, outer);
    }
    let mut curr = outer;
    let mut i: usize = 0;
    assert(ps.skip(0) =~= ps);
    assert(expected.skip(0) =~= expected);
    while i < blocks.len()
        invariant
            i <= blocks@.len(),
            blocks@.len() == old(blocks)@.len(),
            ps == paddings_of(old(blocks)@),
            ps.len() == blocks@.len(),
            expected == nested_bounds(ps, outer),
            expected.len() == ps.len(),
            nesting_defined(ps.skip(i as int), curr),
            nested_bounds(ps.skip(i as int), curr) =~= expected.skip(i as int),
            forall|j: int|
                0 <= j < i ==> (#[trigger] blocks@[j])@ == (ElementBlockView {
                    bounds: expected[j],
                    ..old(blocks)@[j]@
                }),
            forall|j: int| i <= j < blocks@.len() ==> (#[trigger] blocks@[j]) == old(blocks)@[j],
        decreases blocks@.len() - i,
    {
        let ghost rest = ps.skip(i as int);
        assert(rest[0] == old(blocks)@[i as int]@.padding);
        assert(rest.drop_first() =~= ps.skip(i + 1));
        assert(expected.skip(i as int)[0] == expected[i as int]);
        assert(expected.skip(i + 1) =~= expected.skip(i as int).drop_first());
        let mut block = blocks.remove(i);
        block.set_bounds(curr);
        let next = block.inner_bounds();
        blocks.insert(i, block);
        curr = next;
        i = i + 1;
    }
}

/// The blocks that the terminal surface draws for its roots: one per root,
/// in the given order, identified by the root, with a padding of one
/// column on the left and the right, nested from the whole terminal
/// inwards.
pub fn print_layout(roots: &Vec<UUID>, terminal_width: u16, terminal_height: u16) -> (blocks: Vec<ElementBlock>)
    requires
        terminal_width >= 1,
        terminal_height >= 1,
        nesting_defined(
            Seq::new(roots@.len(), |i: int| Rect(0u16, 1u16, 1u16, 0u16)),
            Rect(0u16, 0u16, (terminal_width - 1) as u16, (terminal_height - 1) as u16),
        ),
    ensures
        blocks@.len() == roots@.len(),
        forall|i: int|
            0 <= i < roots@.len() ==> (#[trigger] blocks@[i])@ == (ElementBlockView {
                uuid: Some(roots@[i]),
                bounds: nested_bounds(
                    Seq::new(roots@.len(), |k: int| Rect(0u16, 1u16, 1u16, 0u16)),
                    Rect(0u16, 0u16, (terminal_width - 1) as u16, (terminal_height - 1) as u16),
                )[i],
                padding: Rect(0u16, 1u16, 1u16, 0u16),
                alt: None,
                content: Seq::<String>::empty(),
            }),
{
    let mut blocks: Vec<ElementBlock> = Vec::new();
    let mut i: usize = 0;
    while i < roots.len()
        invariant
            i <= roots@.len(),
            blocks@.len() == i,
            forall|j: int|
                0 <= j < i ==> (#[trigger] blocks@[j])@ == (ElementBlockView {
                    uuid: Some(roots@[j]),
                    bounds: Rect(0u16, 0u16, 0u16, 0u16),
                    padding: Rect(0u16, 1u16, 1u16, 0u16),
                    alt: None,
                    content: Seq::<String>::empty(),
                }),
        decreases roots@.len() - i,
    {
        let block: ElementBlock = ElementBlock::new().with_uuid(roots[i]).with_padding(
            Padding::new(0, 1, 1, 0),
        );
        assert(block@.content =~= Seq::<String>::empty());
        blocks.push(block);
        i = i + 1;
    }
    let ghost ps = Seq::new(roots@.len(), |k: int| Rect(0u16, 1u16, 1u16, 0u16));
    assert(paddings_of(blocks@) =~= ps);
    layout_nested(&mut blocks, Rect(0, 0, terminal_width - 1, terminal_height - 1));
    blocks
}


/// Each nested block gets the inner bounds of the block before it, which
/// lie strictly inside that block's bounds.
pub proof fn lemma_nested_blocks_inside(paddings: Seq<Rect<u16>>, outer: Rect<u16>, i: int)
    requires
        nesting_defined(paddings, outer),
        0 <= i,
        i + 1 < paddings.len(),
    ensures
        nested_bounds(paddings, outer)[i + 1] == inner_of_bounds(
            nested_bounds(paddings, outer)[i],
            paddings[i],
        ),
        nested_bounds(paddings, outer)[i + 1].0 > nested_bounds(paddings, outer)[i].0,
        nested_bounds(paddings, outer)[i + 1].1 > nested_bounds(paddings, outer)[i].1,
        nested_bounds(paddings, outer)[i + 1].2 < nested_bounds(paddings, outer)[i].2,
        nested_bounds(paddings, outer)[i + 1].3 < nested_bounds(paddings, outer)[i].3,
    decreases i,
{
    let rest = paddings.drop_first();
    let next = inner_of_bounds(outer, paddings[0]);
    lemma_nested_bounds_len(rest, next);
    if i == 0 {
        assert(nested_bounds(rest, next)[0] == next);
    } else {
        lemma_nested_blocks_inside(rest, next, i - 1);
        assert(rest[i - 1] == paddings[i]);
    }
}

/// A pressed `q` quits the run loop whether Ctrl is held or not, a pressed
/// `c` quits exactly when Ctrl is held, and no other key and no release
/// quits it.
pub proof fn lemma_quit_keys(code: TerminalKeyCode, ctrl: bool, press: bool)
    ensures
        press ==> command_of(
            TerminalInput::Key { code: TerminalKeyCode::Char('q'), ctrl, press },
        ) == Some(TerminalCmd::Quit),
        command_of(TerminalInput::Key { code, ctrl, press }) == Some(TerminalCmd::Quit) <==> (press
            && (code == TerminalKeyCode::Char('q') || (code == TerminalKeyCode::Char('c') && ctrl))),
{
}

/// Only a key event can stop the run loop: focus, resize, mouse and paste
/// events never ask it to quit.
pub proof fn lemma_only_keys_quit(input: TerminalInput)
    ensures
        command_of(input) == Some(TerminalCmd::Quit) ==> input is Key,
{
}

/// The run loop redraws after clearing on focus, on a resize and on a
/// pressed `Ctrl+R`, and redraws without clearing on mouse and paste
/// events; nothing else redraws.
pub proof fn lemma_redraws(input: TerminalInput)
    ensures
        command_of(input) == Some(TerminalCmd::Print(true)) <==> (input is FocusGained
            || input is Resize || input == (TerminalInput::Key {
            code: TerminalKeyCode::Char('r'),
            ctrl: true,
            press: true,
        })),
        command_of(input) == Some(TerminalCmd::Print(false)) <==> (input is Mouse || input is Paste),
{
}

} // verus!
