//! Element blocks of the terminal runtime: rectangles, sizes, and the
//! geometry of a bordered, padded block of text content.
//!
//! Drawing is split in two: the functions here compute where every glyph,
//! label and line of content goes (a draw plan); the runtime around the
//! library queues the terminal commands for that plan.
use vstd::prelude::*;

use uuid::Uuid as UUID;

verus! {

/// Represents the sides of a rectangle, as `(top, left, right, bottom)`.
#[derive(Copy, Clone, Default, Debug)]
pub struct Rect<W>(pub W, pub W, pub W, pub W);

impl<W> Rect<W> {
    /// Builds a rectangle from its four sides.
    pub fn new(top: W, left: W, right: W, bottom: W) -> (r: Self)
        ensures
            r == Rect(top, left, right, bottom),
    {
        Rect(top, left, right, bottom)
    }
}

impl Rect<u16> {
    /// The horizontal distance from the left side to the right side.
    pub fn width(&self) -> (w: u16)
        requires
            self.1 <= self.2,
        ensures
            w == self.2 - self.1,
    {
        self.2 - self.1
    }

    /// The vertical distance from the top side to the bottom side.
    pub fn height(&self) -> (h: u16)
        requires
            self.0 <= self.3,
        ensures
            h == self.3 - self.0,
    {
        self.3 - self.0
    }
}

/// The outer bounds of a block.
pub type Bounds<W> = Rect<W>;

/// The border widths of a block.
pub type Border<W> = Rect<W>;

/// The margins of a block.
pub type Margin<W> = Rect<W>;

/// The paddings of a block.
pub type Padding<W> = Rect<W>;

/// A size, as `(width, height)`.
#[derive(Copy, Clone, Debug)]
pub struct Size<W>(pub W, pub W);

impl<W> Size<W> {
    /// Builds a size from a width and a height.
    pub fn new(width: W, height: W) -> (s: Self)
        ensures
            s == Size(width, height),
    {
        Size(width, height)
    }
}

//---
/// The size of a block with the given bounds is defined: its sides are
/// ordered and its width and height (sides included) fit in a `u16`.
pub open spec fn size_defined(b: Rect<u16>) -> bool {
    &&& b.1 <= b.2
    &&& b.0 <= b.3
    &&& b.2 - b.1 + 1 <= u16::MAX
    &&& b.3 - b.0 + 1 <= u16::MAX
}

/// The size of a block with the given bounds: both sides are counted.
pub open spec fn size_of_bounds(b: Rect<u16>) -> Size<u16> {
    Size((b.2 - b.1 + 1) as u16, (b.3 - b.0 + 1) as u16)
}

/// The inner bounds of a block are defined: moving each side inwards by its
/// padding and by the border stays within `u16`.
pub open spec fn inner_defined(b: Rect<u16>, p: Rect<u16>) -> bool {
    &&& b.0 + p.0 + 1 <= u16::MAX
    &&& b.1 + p.1 + 1 <= u16::MAX
    &&& b.2 >= p.2 + 1
    &&& b.3 >= p.3 + 1
}

/// The bounds inside the border and the padding of a block.
pub open spec fn inner_of_bounds(b: Rect<u16>, p: Rect<u16>) -> Rect<u16> {
    Rect(
        (b.0 + p.0 + 1) as u16,
        (b.1 + p.1 + 1) as u16,
        (b.2 - p.2 - 1) as u16,
        (b.3 - p.3 - 1) as u16,
    )
}

/// The inner size of a block is defined: its size is defined and the
/// paddings and borders fit within it.
pub open spec fn inner_size_defined(b: Rect<u16>, p: Rect<u16>) -> bool {
    &&& size_defined(b)
    &&& p.1 + p.2 <= u16::MAX
    &&& p.0 + p.3 <= u16::MAX
    &&& (b.2 - b.1 + 1) - (p.1 + p.2) >= 2
    &&& (b.3 - b.0 + 1) - (p.0 + p.3) >= 2
}

/// The size inside the border and the padding of a block.
pub open spec fn inner_size_of_bounds(b: Rect<u16>, p: Rect<u16>) -> Size<u16> {
    Size(
        ((b.2 - b.1 + 1) - (p.1 + p.2) - 2) as u16,
        ((b.3 - b.0 + 1) - (p.0 + p.3) - 2) as u16,
    )
}

//---
/// The glyphs of a block's border.
#[derive(Copy, Clone, Debug, PartialEq, Eq, Structural)]
pub enum Glyph {
    /// `┌`
    TopLeft,
    /// `┐`
    TopRight,
    /// `└`
    BottomLeft,
    /// `┘`
    BottomRight,
    /// `─`
    Horizontal,
    /// `│`
    Vertical,
}

/// One border glyph at a terminal position.
#[derive(Copy, Clone, Debug, PartialEq, Eq, Structural)]
pub struct Cell {
    pub col: u16,
    pub row: u16,
    pub glyph: Glyph,
}

/// The label that shows a block's size, as in `┄{width}x{height}┄`.
#[derive(Copy, Clone, Debug, PartialEq, Eq, Structural)]
pub struct SizeLabel {
    pub col: u16,
    pub row: u16,
    pub width: u16,
    pub height: u16,
}

/// A terminal position.
#[derive(Copy, Clone, Debug, PartialEq, Eq, Structural)]
pub struct Placement {
    pub col: u16,
    pub row: u16,
}

/// The glyph of the top border in column `col`.
pub open spec fn top_glyph(col: u16, left: u16, right: u16) -> Glyph {
    if col == left {
        Glyph::TopLeft
    } else if col == right {
        Glyph::TopRight
    } else {
        Glyph::Horizontal
    }
}

/// The glyph of the bottom border in column `col`.
pub open spec fn bottom_glyph(col: u16, left: u16, right: u16) -> Glyph {
    if col == left {
        Glyph::BottomLeft
    } else if col == right {
        Glyph::BottomRight
    } else {
        Glyph::Horizontal
    }
}

/// The top and bottom border cells, column by column from left to right:
/// the top cell of a column comes before its bottom cell.
pub open spec fn horizontal_cells(b: Rect<u16>) -> Seq<Cell> {
    Seq::new(
        (2 * (b.2 - b.1 + 1)) as nat,
        |i: int|
            {
                let col = (b.1 + i / 2) as u16;
                if i % 2 == 0 {
                    Cell { col, row: b.0, glyph: top_glyph(col, b.1, b.2) }
                } else {
                    Cell { col, row: b.3, glyph: bottom_glyph(col, b.1, b.2) }
                }
            },
    )
}

/// The number of rows strictly between the top and the bottom side.
pub open spec fn inner_rows(b: Rect<u16>) -> int {
    if b.3 >= b.0 + 2 {
        b.3 - b.0 - 1
    } else {
        0
    }
}

/// The left and right border cells, row by row from top to bottom: the
/// left cell of a row comes before its right cell.
pub open spec fn vertical_cells(b: Rect<u16>) -> Seq<Cell> {
    Seq::new(
        (2 * inner_rows(b)) as nat,
        |i: int|
            {
                let row = (b.0 + 1 + i / 2) as u16;
                if i % 2 == 0 {
                    Cell { col: b.1, row, glyph: Glyph::Vertical }
                } else {
                    Cell { col: b.2, row, glyph: Glyph::Vertical }
                }
            },
    )
}

/// All border cells of a block, in drawing order.
pub open spec fn border_cells(b: Rect<u16>) -> Seq<Cell> {
    horizontal_cells(b) + vertical_cells(b)
}

/// The number of decimal digits of `n`.
pub open spec fn decimal_digits(n: nat) -> nat
    decreases n,
{
    if n < 10 {
        1
    } else {
        1 + decimal_digits(n / 10)
    }
}

/// The number of characters of the size label of a block of the given
/// size: two `┄`, one `x` and the digits of both numbers.
pub open spec fn size_label_len(s: Size<u16>) -> nat {
    3 + decimal_digits(s.0 as nat) + decimal_digits(s.1 as nat)
}

/// The border of a block with the given bounds can be drawn: its size is
/// defined, the rows between top and bottom can be enumerated, and the
/// size label fits to the left of the right side.
pub open spec fn border_drawable(b: Rect<u16>) -> bool {
    &&& size_defined(b)
    &&& b.0 < u16::MAX
    &&& b.3 >= 1
    &&& b.2 >= 1 + size_label_len(size_of_bounds(b))
}

/// The size label of a block with the given bounds: on the bottom side,
/// ending one column left of the right side.
pub open spec fn size_label_of(b: Rect<u16>) -> SizeLabel {
    let s = size_of_bounds(b);
    SizeLabel {
        col: (b.2 - 1 - size_label_len(s)) as u16,
        row: b.3,
        width: s.0,
        height: s.1,
    }
}

/// Where the alternative text of a block goes, and the text itself.
#[derive(Clone, Debug)]
pub struct AltLabel {
    pub col: u16,
    pub row: u16,
    pub text: String,
}

/// The alternative text of a block can be drawn: its size is defined, its
/// width leaves room for the label's decorations, and the label's column
/// fits.
pub open spec fn alt_drawable(b: Rect<u16>) -> bool {
    &&& size_defined(b)
    &&& size_of_bounds(b).0 >= 6
    &&& b.1 + 2 <= u16::MAX
}

/// The text of the alternative label: the alternative text cut to at most
/// `width - 6` characters, between two `┄`.
pub open spec fn alt_text_of(alt: Seq<char>, b: Rect<u16>) -> Seq<char> {
    let max_len = size_of_bounds(b).0 - 6;
    seq!['┄'] + (if alt.len() <= max_len {
        alt
    } else {
        alt.take(max_len)
    }) + seq!['┄']
}

/// The content of a block can be drawn: its inner bounds are defined, the
/// line counter does not overflow, and every line's row fits.
pub open spec fn content_drawable(b: Rect<u16>, p: Rect<u16>, lines: nat) -> bool {
    &&& inner_defined(b, p)
    &&& lines <= u16::MAX
    &&& (lines == 0 || inner_of_bounds(b, p).0 + lines - 1 <= u16::MAX)
}

/// The positions of the content lines: one per line, starting at the
/// top-left corner of the inner bounds.
pub open spec fn content_placements(b: Rect<u16>, p: Rect<u16>, lines: nat) -> Seq<Placement> {
    let inner = inner_of_bounds(b, p);
    Seq::new(lines, |i: int| Placement { col: inner.1, row: (inner.0 + i) as u16 })
}

/// Everything the runtime draws for one block, in drawing order: the
/// border, the size label, the alternative text, then the content.
#[derive(Clone, Debug)]
pub struct DrawPlan {
    pub border: Vec<Cell>,
    pub size_label: SizeLabel,
    pub alt: Option<AltLabel>,
    pub content: Vec<Placement>,
}

//---
/// The abstract state of an element block.
pub struct ElementBlockView<C> {
    pub uuid: Option<UUID>,
    pub bounds: Bounds<u16>,
    pub padding: Padding<u16>,
    pub alt: Option<Seq<char>>,
    pub content: Seq<C>,
}

/// A bordered block of content in the terminal.
pub struct ElementBlock<C = String> {
    uuid: Option<UUID>,
    bounds: Bounds<u16>,
    padding: Padding<u16>,
    alt: Option<String>,
    content: Vec<C>,
}

impl<C> View for ElementBlock<C> {
    type V = ElementBlockView<C>;

    closed spec fn view(&self) -> ElementBlockView<C> {
        ElementBlockView {
            uuid: self.uuid,
            bounds: self.bounds,
            padding: self.padding,
            alt: match self.alt {
                Some(a) => Some(a@),
                None => None,
            },
            content: self.content@,
        }
    }
}

impl<C: Clone> ElementBlock<C> {
    /// A block with no identity, no alternative text, no content, and all
    /// bounds and paddings at zero.
    pub fn new() -> (e: Self)
        ensures
            e@.uuid is None,
            e@.bounds == Rect(0u16, 0u16, 0u16, 0u16),
            e@.padding == Rect(0u16, 0u16, 0u16, 0u16),
            e@.alt is None,
            e@.content.len() == 0,
    {
        ElementBlock {
            uuid: None,
            alt: None,
            content: Vec::new(),
            bounds: Rect::new(0, 0, 0, 0),
            padding: Rect::new(0, 0, 0, 0),
        }
    }

    /// The same block, identified by `uuid`.
    pub fn with_uuid(self, uuid: UUID) -> (e: Self)
        ensures
            e@ == (ElementBlockView { uuid: Some(uuid), ..self@ }),
    {
        let mut e = self;
        e.uuid = Some(uuid);
        e
    }

    /// The same block, with the given bounds.
    pub fn with_bounds(self, bounds: Bounds<u16>) -> (e: Self)
        ensures
            e@ == (ElementBlockView { bounds, ..self@ }),
    {
        let mut e = self;
        e.bounds = bounds;
        e
    }

    /// Sets the bounds of the block.
    pub fn set_bounds(&mut self, bounds: Bounds<u16>)
        ensures
            final(self)@ == (ElementBlockView { bounds, ..old(self)@ }),
    {
        self.bounds = bounds;
    }

    /// The same block, with the given alternative text.
    pub fn with_alt(self, alt: Option<String>) -> (e: Self)
        ensures
            e@ == (ElementBlockView {
                alt: match alt {
                    Some(a) => Some(a@),
                    None => None,
                },
                ..self@
            }),
    {
        let mut e = self;
        e.alt = alt;
        e
    }

    /// The same block, with a copy of the given lines as its content.
    pub fn with_content(self, content: &[C]) -> (e: Self)
        ensures
            e@.uuid == self@.uuid,
            e@.bounds == self@.bounds,
            e@.padding == self@.padding,
            e@.alt == self@.alt,
            e@.content.len() == content@.len(),
            forall|i: int|
                0 <= i < content@.len() ==> cloned::<C>(content@[i], #[trigger] e@.content[i]),
    {
        let mut copied: Vec<C> = Vec::new();
        let mut i: usize = 0;
        while i < content.len()
            invariant
                i <= content@.len(),
                copied@.len() == i,
                forall|j: int| 0 <= j < i ==> cloned::<C>(content@[j], #[trigger] copied@[j]),
            decreases content@.len() - i,
        {
            copied.push(content[i].clone());
            i = i + 1;
        }
        let mut e = self;
        e.content = copied;
        e
    }

    /// The same block, with the given paddings.
    pub fn with_padding(self, padding: Padding<u16>) -> (e: Self)
        ensures
            e@ == (ElementBlockView { padding, ..self@ }),
    {
        let mut e = self;
        e.padding = padding;
        e
    }
}

impl ElementBlock {
    /// The outer bounds of the block.
    pub fn bounds(&self) -> (b: Bounds<u16>)
        ensures
            b == self@.bounds,
    {
        self.bounds
    }

    /// The paddings of the block.
    pub fn padding(&self) -> (p: Padding<u16>)
        ensures
            p == self@.padding,
    {
        self.padding
    }

    /// The outer size of the block, sides included.
    pub fn size(&self) -> (s: Size<u16>)
        requires
            size_defined(self@.bounds),
        ensures
            s == size_of_bounds(self@.bounds),
    {
        Size(self.bounds.2 - self.bounds.1 + 1, self.bounds.3 - self.bounds.0 + 1)
    }

    /// The bounds inside the border and the padding.
    pub fn inner_bounds(&self) -> (b: Bounds<u16>)
        requires
            inner_defined(self@.bounds, self@.padding),
        ensures
            b == inner_of_bounds(self@.bounds, self@.padding),
    {
        Rect(
            self.bounds.0 + self.padding.0 + 1,
            self.bounds.1 + self.padding.1 + 1,
            self.bounds.2 - self.padding.2 - 1,
            self.bounds.3 - self.padding.3 - 1,
        )
    }

    /// The size inside the border and the padding.
    pub fn inner_size(&self) -> (s: Size<u16>)
        requires
            inner_size_defined(self@.bounds, self@.padding),
        ensures
            s == inner_size_of_bounds(self@.bounds, self@.padding),
    {
        Size(
            (self.bounds.2 - self.bounds.1 + 1) - (self.padding.1 + self.padding.2) - 2,
            (self.bounds.3 - self.bounds.0 + 1) - (self.padding.0 + self.padding.3) - 2,
        )
    }
}


/// A number that fits in a `u16` has at most five decimal digits.
pub proof fn lemma_u16_decimal_digits(n: nat)
    requires
        n <= u16::MAX,
    ensures
        1 <= decimal_digits(n) <= 5,
{
    reveal_with_fuel(decimal_digits, 6);
}

/// The number of decimal digits of `n`.
pub fn count_decimal_digits(n: u16) -> (d: u16)
    ensures
        d as nat == decimal_digits(n as nat),
        1 <= d <= 5,
{
    proof {
        lemma_u16_decimal_digits(n as nat);
    }
    let mut d: u16 = 1;
    let mut m: u16 = n;
    while m >= 10
        invariant
            m <= n,
            d + decimal_digits(m as nat) == decimal_digits(n as nat) + 1,
            1 <= decimal_digits(n as nat) <= 5,
            1 <= d,
        decreases m,
    {
        assert(decimal_digits(m as nat) == 1 + decimal_digits((m / 10) as nat));
        m = m / 10;
        d = d + 1;
    }
    d
}

impl ElementBlock {
    /// The border of the block, as glyphs in drawing order, and the label
    /// that shows the block's size.
    pub fn border_plan(&self) -> (r: (Vec<Cell>, SizeLabel))
        requires
            border_drawable(self@.bounds),
        ensures
            r.0@ == border_cells(self@.bounds),
            r.1 == size_label_of(self@.bounds),
    {
        let Rect(top, left, right, bottom) = self.bounds();
        let Size(width, height) = self.size();
        let ghost b = self@.bounds;
        let mut cells: Vec<Cell> = Vec::new();

        // The top and bottom borders, column by column.
        let mut col: u16 = left;
        loop
            invariant_except_break
                cells@ =~= horizontal_cells(b).take(2 * (col - left)),
            invariant
                b == Rect(top, left, right, bottom),
                size_defined(b),
                left <= col <= right,
            ensures
                cells@ =~= horizontal_cells(b),
            decreases right - col,
        {
            let top_glyph = if col == left {
                Glyph::TopLeft
            } else if col == right {
                Glyph::TopRight
            } else {
                Glyph::Horizontal
            };
            let bottom_glyph = if col == left {
                Glyph::BottomLeft
            } else if col == right {
                Glyph::BottomRight
            } else {
                Glyph::Horizontal
            };
            cells.push(Cell { col, row: top, glyph: top_glyph });
            cells.push(Cell { col, row: bottom, glyph: bottom_glyph });
            proof {
                let k = 2 * (col - left);
                assert(horizontal_cells(b)[k] == Cell { col, row: top, glyph: top_glyph });
                assert(horizontal_cells(b)[k + 1] == Cell { col, row: bottom, glyph: bottom_glyph });
                assert(cells@ =~= horizontal_cells(b).take(k + 2));
            }
            if col == right {
                assert(horizontal_cells(b).take(2 * (col - left) + 2) =~= horizontal_cells(b));
                break;
            }
            col = col + 1;
        }
        assert(cells@ =~= horizontal_cells(b));

        // The left and right borders, row by row.
        let first_row: u16 = top + 1;
        let last_row: u16 = bottom - 1;
        if first_row <= last_row {
            let mut row: u16 = first_row;
            loop
                invariant_except_break
                    cells@ =~= horizontal_cells(b) + vertical_cells(b).take(2 * (row - first_row)),
                invariant
                    b == Rect(top, left, right, bottom),
                    first_row == top + 1,
                    last_row == bottom - 1,
                    first_row <= row <= last_row,
                    inner_rows(b) == last_row - first_row + 1,
                ensures
                    cells@ =~= horizontal_cells(b) + vertical_cells(b),
                decreases last_row - row,
            {
                cells.push(Cell { col: left, row, glyph: Glyph::Vertical });
                cells.push(Cell { col: right, row, glyph: Glyph::Vertical });
                proof {
                    let k = 2 * (row - first_row);
                    assert(vertical_cells(b)[k] == Cell { col: left, row, glyph: Glyph::Vertical });
                    assert(vertical_cells(b)[k + 1] == Cell { col: right, row, glyph: Glyph::Vertical });
                    assert(vertical_cells(b).take(k + 2) =~= vertical_cells(b).take(k).push(
                        vertical_cells(b)[k],
                    ).push(vertical_cells(b)[k + 1]));
                }
                if row == last_row {
                    assert(vertical_cells(b).take(2 * (row - first_row) + 2) =~= vertical_cells(b));
                    break;
                }
                row = row + 1;
            }
        } else {
            assert(vertical_cells(b) =~= Seq::<Cell>::empty());
        }

        // The size label, one column left of the right side.
        let label_len: u16 = 3 + count_decimal_digits(width) + count_decimal_digits(height);
        let label = SizeLabel { col: right - 1 - label_len, row: bottom, width, height };
        (cells, label)
    }

    /// The alternative text of the block, if it has one, cut to fit the
    /// block's width, and where it goes: two columns right of the left side,
    /// on the top side.
    pub fn alt_label(&self) -> (r: Option<AltLabel>)
        requires
            self@.alt is Some ==> alt_drawable(self@.bounds),
        ensures
            r is Some <==> self@.alt is Some,
            r is Some ==> r->0.col == self@.bounds.1 + 2 && r->0.row == self@.bounds.0
                && r->0.text@ == alt_text_of(self@.alt->0, self@.bounds),
    {
        match &self.alt {
            Some(alt) => {
                let Rect(top, left, _, _) = self.bounds();
                let Size(width, _) = self.size();
                let max_len: usize = (width - 6) as usize;
                let alt_str: &str = alt.as_str();
                let char_count: usize = alt_str.unicode_len();
                let end: usize = if char_count <= max_len {
                    char_count
                } else {
                    max_len
                };
                let cut: &str = alt_str.substring_char(0, end);
                proof {
                    reveal_strlit("┄");
                }
                let mut text: String = String::from_str("┄");
                text.append(cut);
                text.append("┄");
                proof {
                    if alt@.len() <= max_len {
                        assert(alt@.subrange(0, end as int) =~= alt@);
                    }
                    assert(text@ =~= seq!['┄'] + cut@ + seq!['┄']);
                }
                Some(AltLabel { col: left + 2, row: top, text })
            },
            None => None,
        }
    }

    /// Where each line of content goes: line `i` starts at the left side
    /// of the inner bounds, `i` rows below its top side.
    pub fn content_plan(&self) -> (r: Vec<Placement>)
        requires
            content_drawable(self@.bounds, self@.padding, self@.content.len()),
        ensures
            r@ == content_placements(self@.bounds, self@.padding, self@.content.len()),
    {
        let Rect(top, left, _, _) = self.inner_bounds();
        let ghost expected = content_placements(self@.bounds, self@.padding, self@.content.len());
        let mut placements: Vec<Placement> = Vec::new();
        let mut line_num: u16 = 0;
        while (line_num as usize) < self.content.len()
            invariant
                line_num <= self@.content.len(),
                self@.content.len() <= u16::MAX,
                self@.content.len() == 0 || top + self@.content.len() - 1 <= u16::MAX,
                top == inner_of_bounds(self@.bounds, self@.padding).0,
                left == inner_of_bounds(self@.bounds, self@.padding).1,
                expected == content_placements(self@.bounds, self@.padding, self@.content.len()),
                placements@ =~= expected.take(line_num as int),
            decreases self@.content.len() - line_num,
        {
            placements.push(Placement { col: left, row: top + line_num });
            proof {
                assert(expected[line_num as int] == Placement { col: left, row: (top + line_num) as u16 });
            }
            line_num = line_num + 1;
            assert(placements@ =~= expected.take(line_num as int));
        }
        placements
    }

    /// Whether the whole drawing of the block can be planned: its border
    /// and size label fit, its alternative text (if it has one) fits, and
    /// its content lines fit inside its inner bounds.
    pub fn is_drawable(&self) -> (r: bool)
        ensures
            r == (border_drawable(self@.bounds) && (self@.alt is Some ==> alt_drawable(self@.bounds))
                && content_drawable(self@.bounds, self@.padding, self@.content.len())),
    {
        let b = self.bounds;
        let p = self.padding;
        if !(b.1 <= b.2 && b.0 <= b.3 && b.2 - b.1 < u16::MAX && b.3 - b.0 < u16::MAX) {
            return false;
        }
        let width: u16 = b.2 - b.1 + 1;
        let height: u16 = b.3 - b.0 + 1;
        let label_len: u32 = 3 + count_decimal_digits(width) as u32 + count_decimal_digits(height)
            as u32;
        let border = b.0 < u16::MAX && b.3 >= 1 && b.2 as u32 >= 1 + label_len;
        let alt = match &self.alt {
            Some(_) => width >= 6 && b.1 <= u16::MAX - 2,
            None => true,
        };
        let inner = (b.0 as u32) + (p.0 as u32) + 1 <= u16::MAX as u32 && (b.1 as u32) + (p.1 as u32)
            + 1 <= u16::MAX as u32 && b.2 as u32 >= p.2 as u32 + 1 && b.3 as u32 >= p.3 as u32 + 1;
        let lines = self.content.len();
        let content = inner && lines <= u16::MAX as usize && (lines == 0 || (b.0 as u64) + (p.0 as u64)
            + 1 + (lines as u64) - 1 <= u16::MAX as u64);
        border && alt && content
    }

    /// The full drawing of the block: its border, size label, alternative
    /// text and content, in the order the runtime draws them.
    pub fn draw_plan(&self) -> (r: DrawPlan)
        requires
            border_drawable(self@.bounds),
            self@.alt is Some ==> alt_drawable(self@.bounds),
            content_drawable(self@.bounds, self@.padding, self@.content.len()),
        ensures
            r.border@ == border_cells(self@.bounds),
            r.size_label == size_label_of(self@.bounds),
            r.alt is Some <==> self@.alt is Some,
            r.alt is Some ==> r.alt->0.col == self@.bounds.1 + 2 && r.alt->0.row == self@.bounds.0
                && r.alt->0.text@ == alt_text_of(self@.alt->0, self@.bounds),
            r.content@ == content_placements(self@.bounds, self@.padding, self@.content.len()),
    {
        let (border, size_label) = self.border_plan();
        let alt = self.alt_label();
        let content = self.content_plan();
        DrawPlan { border, size_label, alt, content }
    }
}


//---
/// The inner size of a block is the size of its inner bounds: their width
/// and height, sides included. When the inner size is not empty, it is
/// exactly the size of the inner bounds.
pub proof fn lemma_inner_size_is_size_of_inner_bounds(b: Rect<u16>, p: Rect<u16>)
    requires
        inner_size_defined(b, p),
    ensures
        inner_defined(b, p),
        inner_of_bounds(b, p).2 - inner_of_bounds(b, p).1 + 1 == inner_size_of_bounds(b, p).0,
        inner_of_bounds(b, p).3 - inner_of_bounds(b, p).0 + 1 == inner_size_of_bounds(b, p).1,
        inner_size_of_bounds(b, p).0 > 0 && inner_size_of_bounds(b, p).1 > 0 ==> size_defined(
            inner_of_bounds(b, p),
        ) && size_of_bounds(inner_of_bounds(b, p)) == inner_size_of_bounds(b, p),
{
}

/// The inner bounds of a block lie strictly inside its bounds.
pub proof fn lemma_inner_bounds_inside(b: Rect<u16>, p: Rect<u16>)
    requires
        inner_defined(b, p),
    ensures
        inner_of_bounds(b, p).0 > b.0,
        inner_of_bounds(b, p).1 > b.1,
        inner_of_bounds(b, p).2 < b.2,
        inner_of_bounds(b, p).3 < b.3,
{
}

/// The border of a block lies on the block's outline: every cell is within
/// the bounds and on one of the four sides.
pub proof fn lemma_border_on_outline(b: Rect<u16>, i: int)
    requires
        size_defined(b),
        0 <= i < border_cells(b).len(),
    ensures
        ({
            let c = border_cells(b)[i];
            &&& b.1 <= c.col <= b.2
            &&& b.0 <= c.row <= b.3
            &&& (c.row == b.0 || c.row == b.3 || c.col == b.1 || c.col == b.2)
        }),
{
    let h = horizontal_cells(b);
    if i >= h.len() {
        let k = i - h.len();
        assert(border_cells(b)[i] == vertical_cells(b)[k]);
    } else {
        assert(border_cells(b)[i] == h[i]);
    }
}

/// The border of a block covers the whole outline: both ends of every
/// column are drawn, with the corners at the ends of the top and bottom
/// sides, and both sides of every row strictly between top and bottom.
pub proof fn lemma_border_covers_outline(b: Rect<u16>)
    requires
        size_defined(b),
    ensures
        forall|col: u16|
            b.1 <= col <= b.2 ==> border_cells(b).contains(
                Cell { col, row: b.0, glyph: top_glyph(col, b.1, b.2) },
            ) && border_cells(b).contains(
                Cell { col, row: b.3, glyph: bottom_glyph(col, b.1, b.2) },
            ),
        forall|row: u16|
            b.0 < row < b.3 ==> border_cells(b).contains(
                Cell { col: b.1, row, glyph: Glyph::Vertical },
            ) && border_cells(b).contains(Cell { col: b.2, row, glyph: Glyph::Vertical }),
        top_glyph(b.1, b.1, b.2) == Glyph::TopLeft,
        bottom_glyph(b.1, b.1, b.2) == Glyph::BottomLeft,
        b.1 < b.2 ==> top_glyph(b.2, b.1, b.2) == Glyph::TopRight,
        b.1 < b.2 ==> bottom_glyph(b.2, b.1, b.2) == Glyph::BottomRight,
{
    let h = horizontal_cells(b);
    let v = vertical_cells(b);
    let all = border_cells(b);
    assert forall|col: u16| b.1 <= col <= b.2 implies all.contains(
        Cell { col, row: b.0, glyph: top_glyph(col, b.1, b.2) },
    ) && all.contains(Cell { col, row: b.3, glyph: bottom_glyph(col, b.1, b.2) }) by {
        let k = 2 * (col - b.1);
        assert(all[k] == h[k]);
        assert(all[k + 1] == h[k + 1]);
    }
    assert forall|row: u16| b.0 < row < b.3 implies all.contains(
        Cell { col: b.1, row, glyph: Glyph::Vertical },
    ) && all.contains(Cell { col: b.2, row, glyph: Glyph::Vertical }) by {
        let k = 2 * (row - b.0 - 1);
        assert(all[h.len() + k] == v[k]);
        assert(all[h.len() + k + 1] == v[k + 1]);
    }
}

} // verus!
