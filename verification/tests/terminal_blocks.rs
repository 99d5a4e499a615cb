use slate::terminal::element::{count_decimal_digits, Cell, ElementBlock, Glyph, Rect, Size};
use slate::terminal::surface::{
    command_for, layout_nested, nesting_fits, print_layout, run_loop_step, TerminalCmd,
    TerminalInput, TerminalKeyCode,
};
use uuid::Uuid;

fn block(bounds: Rect<u16>, padding: Rect<u16>) -> ElementBlock {
    ElementBlock::new().with_bounds(bounds).with_padding(padding)
}

#[test]
fn rect_width_and_height() {
    let r = Rect::new(2u16, 3u16, 12u16, 7u16);
    assert_eq!(r.width(), 9);
    assert_eq!(r.height(), 5);
}

#[test]
fn size_new_keeps_width_then_height() {
    let s = Size::new(4u16, 9u16);
    assert_eq!((s.0, s.1), (4, 9));
}

#[test]
fn new_block_is_empty() {
    let b: ElementBlock = ElementBlock::new();
    let r = b.bounds();
    assert_eq!((r.0, r.1, r.2, r.3), (0, 0, 0, 0));
    let p = b.padding();
    assert_eq!((p.0, p.1, p.2, p.3), (0, 0, 0, 0));
    assert!(b.alt_label().is_none());
    assert!(b.content_plan().is_empty());
}

#[test]
fn size_counts_both_sides() {
    let b = block(Rect(2, 3, 12, 7), Rect(0, 0, 0, 0));
    let s = b.size();
    assert_eq!((s.0, s.1), (10, 6));
}

#[test]
fn inner_bounds_move_in_by_padding_and_border() {
    let b = block(Rect(2, 3, 12, 7), Rect(1, 1, 1, 1));
    let i = b.inner_bounds();
    assert_eq!((i.0, i.1, i.2, i.3), (4, 5, 10, 5));
    let s = b.inner_size();
    assert_eq!((s.0, s.1), (6, 2));
}

#[test]
fn inner_size_is_the_size_of_the_inner_bounds() {
    let b = block(Rect(0, 0, 20, 10), Rect(2, 3, 1, 0));
    let inner = b.inner_bounds();
    let s = b.inner_size();
    assert_eq!(s.0, inner.2 - inner.1 + 1);
    assert_eq!(s.1, inner.3 - inner.0 + 1);
}

#[test]
fn set_bounds_replaces_the_bounds_only() {
    let mut b = block(Rect(0, 0, 9, 9), Rect(1, 2, 3, 4));
    b.set_bounds(Rect(1, 1, 5, 5));
    let r = b.bounds();
    assert_eq!((r.0, r.1, r.2, r.3), (1, 1, 5, 5));
    let p = b.padding();
    assert_eq!((p.0, p.1, p.2, p.3), (1, 2, 3, 4));
}

#[test]
fn decimal_digits_of_u16() {
    assert_eq!(count_decimal_digits(0), 1);
    assert_eq!(count_decimal_digits(9), 1);
    assert_eq!(count_decimal_digits(10), 2);
    assert_eq!(count_decimal_digits(999), 3);
    assert_eq!(count_decimal_digits(65535), 5);
}

#[test]
fn border_plan_of_a_small_block() {
    let b = block(Rect(0, 0, 9, 4), Rect(0, 0, 0, 0));
    let (cells, label) = b.border_plan();
    // Ten columns on top and bottom, three rows on the left and right.
    assert_eq!(cells.len(), 2 * 10 + 2 * 3);
    assert_eq!(cells[0], Cell { col: 0, row: 0, glyph: Glyph::TopLeft });
    assert_eq!(cells[1], Cell { col: 0, row: 4, glyph: Glyph::BottomLeft });
    assert_eq!(cells[2], Cell { col: 1, row: 0, glyph: Glyph::Horizontal });
    assert_eq!(cells[18], Cell { col: 9, row: 0, glyph: Glyph::TopRight });
    assert_eq!(cells[19], Cell { col: 9, row: 4, glyph: Glyph::BottomRight });
    assert_eq!(cells[20], Cell { col: 0, row: 1, glyph: Glyph::Vertical });
    assert_eq!(cells[21], Cell { col: 9, row: 1, glyph: Glyph::Vertical });
    assert_eq!(cells[25], Cell { col: 9, row: 3, glyph: Glyph::Vertical });
    // `┄10x5┄` has six characters and ends one column left of the right side.
    assert_eq!((label.col, label.row, label.width, label.height), (2, 4, 10, 5));
}

#[test]
fn border_covers_every_outline_cell() {
    let b = block(Rect(3, 2, 14, 8), Rect(0, 0, 0, 0));
    let (cells, _) = b.border_plan();
    for col in 2..=14u16 {
        assert!(cells.iter().any(|c| c.col == col && c.row == 3));
        assert!(cells.iter().any(|c| c.col == col && c.row == 8));
    }
    for row in 3..=8u16 {
        assert!(cells.iter().any(|c| c.col == 2 && c.row == row));
        assert!(cells.iter().any(|c| c.col == 14 && c.row == row));
    }
    assert!(cells.iter().all(|c| c.row == 3 || c.row == 8 || c.col == 2 || c.col == 14));
}

#[test]
fn alt_label_is_cut_to_the_width() {
    let b = block(Rect(1, 2, 12, 5), Rect(0, 0, 0, 0)).with_alt(Some("Hello World".to_string()));
    let label = b.alt_label().unwrap();
    assert_eq!((label.col, label.row), (4, 1));
    assert_eq!(label.text, "┄Hello┄");
}

#[test]
fn short_alt_text_is_kept_whole() {
    let b = block(Rect(0, 0, 30, 5), Rect(0, 0, 0, 0)).with_alt(Some("Hi".to_string()));
    assert_eq!(b.alt_label().unwrap().text, "┄Hi┄");
}

#[test]
fn content_lines_start_inside_the_padding() {
    let lines = vec!["one".to_string(), "two".to_string(), "three".to_string()];
    let b = block(Rect(2, 3, 30, 20), Rect(1, 2, 0, 0)).with_content(&lines);
    let placements = b.content_plan();
    assert_eq!(placements.len(), 3);
    assert_eq!((placements[0].col, placements[0].row), (6, 4));
    assert_eq!((placements[2].col, placements[2].row), (6, 6));
}

#[test]
fn draw_plan_puts_the_parts_together() {
    let lines = vec!["x".to_string()];
    let b = block(Rect(0, 0, 19, 9), Rect(0, 0, 0, 0))
        .with_alt(Some("title".to_string()))
        .with_content(&lines);
    let plan = b.draw_plan();
    let (cells, label) = b.border_plan();
    assert_eq!(plan.border, cells);
    assert_eq!(plan.size_label, label);
    assert_eq!(plan.alt.unwrap().text, "┄title┄");
    assert_eq!(plan.content.len(), 1);
    assert_eq!((plan.content[0].col, plan.content[0].row), (1, 1));
}

#[test]
fn terminal_commands() {
    let key = |c: char, ctrl: bool| TerminalInput::Key { code: TerminalKeyCode::Char(c), ctrl, press: true };
    assert_eq!(command_for(key('q', false)), Some(TerminalCmd::Quit));
    assert_eq!(command_for(key('c', true)), Some(TerminalCmd::Quit));
    assert_eq!(command_for(key('c', false)), None);
    assert_eq!(command_for(key('r', true)), Some(TerminalCmd::Print(true)));
    assert_eq!(command_for(TerminalInput::Resize(80, 24)), Some(TerminalCmd::Print(true)));
    assert_eq!(command_for(TerminalInput::FocusGained), Some(TerminalCmd::Print(true)));
    assert_eq!(command_for(TerminalInput::FocusLost), None);
    assert_eq!(command_for(TerminalInput::Mouse), Some(TerminalCmd::Print(false)));
    assert_eq!(command_for(TerminalInput::Paste), Some(TerminalCmd::Print(false)));
    let released = TerminalInput::Key { code: TerminalKeyCode::Char('q'), ctrl: false, press: false };
    assert_eq!(command_for(released), None);
    let other = TerminalInput::Key { code: TerminalKeyCode::Other, ctrl: true, press: true };
    assert_eq!(command_for(other), None);
}

#[test]
fn loop_step_stops_on_quit_and_prints_on_resize() {
    let quit = TerminalInput::Key { code: TerminalKeyCode::Char('q'), ctrl: false, press: true };
    let step = run_loop_step(false, quit);
    assert!(step.stop);
    assert_eq!(step.print, None);
    let step = run_loop_step(false, TerminalInput::Resize(10, 10));
    assert!(!step.stop);
    assert_eq!(step.print, Some(true));
    let step = run_loop_step(true, TerminalInput::Mouse);
    assert!(step.stop);
    assert_eq!(step.print, Some(false));
}

#[test]
fn nested_layout_moves_each_block_inside_the_previous() {
    let mut blocks = vec![
        block(Rect(0, 0, 0, 0), Rect(0, 1, 1, 0)),
        block(Rect(0, 0, 0, 0), Rect(1, 1, 1, 1)),
        block(Rect(0, 0, 0, 0), Rect(0, 0, 0, 0)),
    ];
    let outer = Rect(0, 0, 39, 19);
    assert!(nesting_fits(&blocks, outer));
    layout_nested(&mut blocks, outer);
    let b0 = blocks[0].bounds();
    let b1 = blocks[1].bounds();
    let b2 = blocks[2].bounds();
    assert_eq!((b0.0, b0.1, b0.2, b0.3), (0, 0, 39, 19));
    assert_eq!((b1.0, b1.1, b1.2, b1.3), (1, 2, 37, 18));
    assert_eq!((b2.0, b2.1, b2.2, b2.3), (3, 4, 35, 16));
}

#[test]
fn nesting_that_does_not_fit() {
    let blocks = vec![
        block(Rect(0, 0, 0, 0), Rect(0, 0, 5, 0)),
    ];
    assert!(!nesting_fits(&blocks, Rect(0, 0, 3, 10)));
}

#[test]
fn print_layout_nests_the_roots() {
    let roots = vec![Uuid::from_u128(1), Uuid::from_u128(2)];
    let blocks = print_layout(&roots, 80, 24);
    assert_eq!(blocks.len(), 2);
    let b0 = blocks[0].bounds();
    let b1 = blocks[1].bounds();
    assert_eq!((b0.0, b0.1, b0.2, b0.3), (0, 0, 79, 23));
    assert_eq!((b1.0, b1.1, b1.2, b1.3), (1, 2, 77, 22));
    let p = blocks[1].padding();
    assert_eq!((p.0, p.1, p.2, p.3), (0, 1, 1, 0));
}
