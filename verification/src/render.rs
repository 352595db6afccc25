//! Laying out an input field for drawing.
//!
//! A field is a row of cells, one per character drawn, and is measured in
//! terminal columns: a character takes as many columns as it is wide. The row
//! starts at the character on which the scroll offset of the cursor falls,
//! shows the cursor as one highlighted cell, goes on for as long as the
//! characters fit into the field's width, and is filled up with blanks. How
//! the cells reach a terminal is not this module's concern.

use crate::text::to_chars;
use crate::width::{
    cell_widths, columns, fill_stop, lemma_fill_stop, lemma_prefix_width_monotonic,
    lemma_prefix_width_step, lemma_scroll_stop, lemma_total_concat, lemma_total_of_narrow,
    lemma_total_subrange, measure, measure_char, prefix_width, scroll_stop, scroll_to, total,
    width_of_prefix,
};
use vstd::prelude::*;

verus! {

/// One cell of a field: the character drawn in it, and whether it is drawn
/// with foreground and background exchanged.
#[derive(Debug, PartialEq, Eq, Clone, Copy, Hash, Structural)]
pub struct Cell {
    pub symbol: char,
    pub inverted: bool,
}

/// A field ready to be drawn: where the terminal's cursor is moved to first,
/// and the cells drawn from there, left to right.
#[derive(Debug, PartialEq, Eq, Clone)]
pub struct Frame {
    pub column: u16,
    pub row: u16,
    pub cells: Vec<Cell>,
}

impl Cell {
    /// A cell showing `symbol`.
    pub fn new(symbol: char, inverted: bool) -> (cell: Cell)
        ensures
            cell == (Cell { symbol, inverted }),
    {
        Cell { symbol, inverted }
    }
}

/// What stands at position `i` of the text as it is drawn: the character at
/// `i`, or a blank beyond the end of the text.
pub open spec fn symbol_at(content: Seq<char>, i: int) -> char {
    if 0 <= i < content.len() {
        content[i]
    } else {
        ' '
    }
}

/// What is drawn for position `i` of the text when the cursor is drawn at
/// `at`: the symbol at `i`, highlighted if `i` is the cursor's position.
pub open spec fn cell(content: Seq<char>, at: nat, i: int) -> Cell {
    Cell { symbol: symbol_at(content, i), inverted: i == at }
}

/// A cell that fills up the field.
pub open spec fn blank() -> Cell {
    Cell { symbol: ' ', inverted: false }
}

/// The number of columns that a row of cells takes on screen.
pub open spec fn display_width(cells: Seq<Cell>) -> nat {
    total(Seq::new(cells.len(), |k: int| columns(cells[k].symbol)))
}

/// The position at which the cursor is drawn: a cursor beyond the end of the
/// text is drawn at the end.
pub open spec fn drawn_cursor(content: Seq<char>, cursor: nat) -> nat {
    if cursor <= content.len() {
        cursor
    } else {
        content.len()
    }
}

/// The number of columns that the cursor's own cell takes.
pub open spec fn cursor_columns(content: Seq<char>, cursor: nat) -> nat {
    columns(symbol_at(content, drawn_cursor(content, cursor) as int)) as nat
}

/// Whether the field has room for the cursor's cell. A field without room,
/// one of width zero or one narrower than the character under the cursor,
/// shows the cursor's cell and nothing else.
pub open spec fn cursor_fits(content: Seq<char>, cursor: nat, width: nat) -> bool {
    width >= 1 && cursor_columns(content, cursor) <= width
}

/// The index of the first character drawn: the number of characters that the
/// scroll offset of the cursor leaves to the left of the field. The viewport
/// that the offset is taken for is the field less the columns of the cursor's
/// cell, so that this cell ends inside the field.
pub open spec fn first_drawn(content: Seq<char>, cursor: nat, width: nat) -> int {
    let widths = cell_widths(content);
    let at = drawn_cursor(content, cursor) as int;
    if cursor_fits(content, cursor, width) {
        scroll_stop(
            widths,
            0,
            prefix_width(widths, at) + cursor_columns(content, cursor) - width,
        )
    } else {
        at
    }
}

/// The position just beyond the last one drawn from the text. After the
/// cursor's cell, characters are drawn for as long as they fit into the
/// field's width.
pub open spec fn end_drawn(content: Seq<char>, cursor: nat, width: nat) -> int {
    let widths = cell_widths(content);
    let at = drawn_cursor(content, cursor) as int;
    if cursor_fits(content, cursor, width) && at < content.len() {
        fill_stop(
            widths,
            at + 1,
            (prefix_width(widths, first_drawn(content, cursor, width)) + width) as int,
        )
    } else {
        at + 1
    }
}

/// The number of columns that the positions from `first_drawn` up to
/// `end_drawn` take.
pub open spec fn columns_drawn(content: Seq<char>, cursor: nat, width: nat) -> int {
    let widths = cell_widths(content);
    let first = first_drawn(content, cursor, width);
    let end = end_drawn(content, cursor, width);
    if end <= content.len() {
        prefix_width(widths, end) - prefix_width(widths, first)
    } else {
        prefix_width(widths, content.len() as int) - prefix_width(widths, first) + columns(' ')
    }
}

/// The number of blanks that fill up the field: one for each column that is
/// left of the field's width.
pub open spec fn padding(content: Seq<char>, cursor: nat, width: nat) -> nat {
    let used = columns_drawn(content, cursor, width);
    if cursor_fits(content, cursor, width) && used <= width {
        (width - used) as nat
    } else {
        0
    }
}

/// The cells for the positions from `from` up to `to` of the text, with the
/// cursor drawn at `at`.
pub open spec fn positions(content: Seq<char>, at: nat, from: int, to: int) -> Seq<Cell> {
    Seq::new((to - from) as nat, |k: int| cell(content, at, from + k))
}

/// `count` blanks.
pub open spec fn blanks(count: nat) -> Seq<Cell> {
    Seq::new(count, |k: int| blank())
}

/// The cells of the field: the positions from `first_drawn` up to
/// `end_drawn`, then the blanks that fill up the field.
pub open spec fn field(content: Seq<char>, cursor: nat, width: nat) -> Seq<Cell> {
    positions(
        content,
        drawn_cursor(content, cursor),
        first_drawn(content, cursor, width),
        end_drawn(content, cursor, width),
    ) + blanks(padding(content, cursor, width))
}

/// The cursor's position is among those drawn, and where the field has room
/// for the cursor's cell, what is drawn from the text fits into the field's
/// width.
pub proof fn lemma_cursor_in_field(content: Seq<char>, cursor: nat, width: nat)
    ensures
        0 <= first_drawn(content, cursor, width) <= drawn_cursor(content, cursor)
            < end_drawn(content, cursor, width) <= content.len() + 1,
        cursor_fits(content, cursor, width) ==> columns_drawn(content, cursor, width) <= width,
        cursor_fits(content, cursor, width) ==> prefix_width(
            cell_widths(content),
            first_drawn(content, cursor, width),
        ) <= prefix_width(cell_widths(content), drawn_cursor(content, cursor) as int) <= prefix_width(
            cell_widths(content),
            first_drawn(content, cursor, width),
        ) + width - cursor_columns(content, cursor),
        columns_drawn(content, cursor, width) >= 0,
{
    let widths = cell_widths(content);
    let len = content.len() as int;
    let at = drawn_cursor(content, cursor) as int;
    let first = first_drawn(content, cursor, width);
    let end = end_drawn(content, cursor, width);
    if cursor_fits(content, cursor, width) {
        let target = prefix_width(widths, at) + cursor_columns(content, cursor) - width;
        lemma_scroll_stop(widths, 0, target);
        if first > at {
            assert(prefix_width(widths, at) < target);
        }
        lemma_prefix_width_monotonic(widths, first, at);
        if at < len {
            lemma_prefix_width_step(widths, at);
            lemma_fill_stop(widths, at + 1, (prefix_width(widths, first) + width) as int);
            lemma_prefix_width_monotonic(widths, first, end);
        } else {
            lemma_prefix_width_monotonic(widths, first, len);
        }
    } else {
        if at < len {
            lemma_prefix_width_step(widths, at);
        }
    }
}

/// Exactly one cell of a field is highlighted, and it shows the character
/// under the cursor, or a blank when the cursor is at the end of the text.
pub proof fn lemma_one_cell_highlighted(content: Seq<char>, cursor: nat, width: nat)
    ensures
        ({
            let cells = field(content, cursor, width);
            let at = drawn_cursor(content, cursor);
            let k = at - first_drawn(content, cursor, width);
            &&& 0 <= k < cells.len()
            &&& cells[k].inverted
            &&& cells[k].symbol == symbol_at(content, at as int)
            &&& forall|j: int| 0 <= j < cells.len() && j != k ==> !cells[j].inverted
        }),
{
    lemma_cursor_in_field(content, cursor, width);
}

/// A field without room for the cursor's cell consists of that cell.
pub proof fn lemma_field_without_room(content: Seq<char>, cursor: nat, width: nat)
    requires
        !cursor_fits(content, cursor, width),
    ensures
        field(content, cursor, width) == seq![
            cell(content, drawn_cursor(content, cursor), drawn_cursor(content, cursor) as int),
        ],
{
    assert(field(content, cursor, width) =~= seq![
        cell(content, drawn_cursor(content, cursor), drawn_cursor(content, cursor) as int),
    ]);
}

/// A field stays within its width. Where the field has room for the cursor's
/// cell and a blank takes no more than one column, the cells of the field
/// take at most `width` columns together; where a blank takes exactly one
/// column, they take exactly `width` columns.
pub proof fn lemma_field_within_width(content: Seq<char>, cursor: nat, width: nat)
    requires
        cursor_fits(content, cursor, width),
        columns(' ') <= 1,
    ensures
        display_width(field(content, cursor, width)) <= width,
        columns(' ') == 1 ==> display_width(field(content, cursor, width)) == width,
{
    lemma_cursor_in_field(content, cursor, width);
    let widths = cell_widths(content);
    let len = content.len() as int;
    let first = first_drawn(content, cursor, width);
    let end = end_drawn(content, cursor, width);
    let cells = field(content, cursor, width);
    let measured = Seq::new(cells.len(), |k: int| columns(cells[k].symbol));
    let fill = Seq::new(padding(content, cursor, width), |k: int| columns(' '));
    let text_end = if end <= len {
        end
    } else {
        len
    };
    let text = widths.subrange(first, text_end);
    let beyond: Seq<usize> = if end <= len {
        seq![]
    } else {
        seq![columns(' ')]
    };
    assert(measured =~= text + beyond + fill);
    lemma_total_subrange(widths, first, text_end);
    lemma_total_concat(text, beyond);
    lemma_total_concat(text + beyond, fill);
    lemma_total_of_narrow(fill);
    if end <= len {
        assert(total(beyond) == 0);
    } else {
        assert(beyond.drop_last() =~= Seq::<usize>::empty());
        assert(total(beyond.drop_last()) == 0);
        assert(total(beyond) == columns(' '));
    }
}

/// Draws the positions from `first` up to and including the cursor's.
fn draw_up_to_cursor(chars: &Vec<char>, first: usize, at: usize) -> (cells: Vec<Cell>)
    requires
        first <= at <= chars.len(),
    ensures
        cells@ == positions(chars@, at as nat, first as int, at + 1),
{
    let mut cells: Vec<Cell> = Vec::new();
    let mut i: usize = first;
    while i < at
        invariant
            first <= i <= at <= chars.len(),
            cells.len() == i - first,
            forall|k: int| 0 <= k < cells.len() ==> cells[k] == cell(chars@, at as nat, first + k),
        decreases at - i,
    {
        cells.push(Cell::new(chars[i], false));
        i += 1;
    }
    let symbol = if at < chars.len() { chars[at] } else { ' ' };
    cells.push(Cell::new(symbol, true));
    assert(cells@ =~= positions(chars@, at as nat, first as int, at + 1));
    cells
}

/// Goes on drawing after the cursor's cell for as long as the characters fit
/// into `width` columns, of which `used` are taken. Returns the number of
/// columns taken afterwards.
fn draw_after_cursor(
    cells: &mut Vec<Cell>,
    chars: &Vec<char>,
    widths: &Vec<usize>,
    first: usize,
    at: usize,
    used: usize,
    width: usize,
) -> (taken: usize)
    requires
        first <= at < chars.len(),
        widths@ == cell_widths(chars@),
        old(cells)@ == positions(chars@, at as nat, first as int, at + 1),
        used == prefix_width(widths@, at + 1) - prefix_width(widths@, first as int),
        used <= width,
    ensures
        ({
            let end = fill_stop(
                widths@,
                at + 1,
                (prefix_width(widths@, first as int) + width) as int,
            );
            &&& final(cells)@ == positions(chars@, at as nat, first as int, end)
            &&& taken == prefix_width(widths@, end) - prefix_width(widths@, first as int)
            &&& taken <= width
        }),
{
    let len = chars.len();
    let ghost limit = (prefix_width(widths@, first as int) + width) as int;
    let mut taken: usize = used;
    let mut j: usize = at + 1;
    while j < len && widths[j] <= width - taken
        invariant
            first <= at < j <= len,
            len == chars.len(),
            len == widths.len(),
            limit == prefix_width(widths@, first as int) + width,
            taken <= width,
            taken == prefix_width(widths@, j as int) - prefix_width(widths@, first as int),
            fill_stop(widths@, j as int, limit) == fill_stop(widths@, at + 1, limit),
            cells.len() == j - first,
            forall|k: int| 0 <= k < cells.len() ==> cells[k] == cell(chars@, at as nat, first + k),
        decreases len - j,
    {
        proof {
            lemma_prefix_width_step(widths@, j as int);
        }
        cells.push(Cell::new(chars[j], false));
        taken += widths[j];
        j += 1;
    }
    proof {
        if j < len {
            lemma_prefix_width_step(widths@, j as int);
        }
        assert(cells@ =~= positions(chars@, at as nat, first as int, j as int));
    }
    taken
}

/// Appends `count` blanks.
fn fill_up(cells: &mut Vec<Cell>, count: usize)
    ensures
        final(cells)@ == old(cells)@ + blanks(count as nat),
{
    let mut filled: usize = 0;
    while filled < count
        invariant
            filled <= count,
            cells.len() == old(cells).len() + filled,
            forall|k: int| 0 <= k < old(cells).len() ==> cells[k] == old(cells)[k],
            forall|k: int| old(cells).len() <= k < cells.len() ==> cells[k] == blank(),
        decreases count - filled,
    {
        cells.push(Cell::new(' ', false));
        filled += 1;
    }
    assert(cells@ =~= old(cells)@ + blanks(count as nat));
}

/// Lays out the field for `value` with the cursor at character `cursor`, in
/// `width` columns.
///
/// Where the field has room for the cursor's cell, the cells take at most
/// `width` columns on screen.
pub fn layout(value: &str, cursor: usize, width: u16) -> (cells: Vec<Cell>)
    ensures
        cells@ == field(value@, cursor as nat, width as nat),
        cursor_fits(value@, cursor as nat, width as nat) ==> display_width(cells@) <= width,
{
    let chars = to_chars(value);
    let widths = measure(chars.as_slice());
    let len = chars.len();
    let at = if cursor < len { cursor } else { len };
    let blank_columns = measure_char(' ');
    let cursor_columns = if at < len { widths[at] } else { blank_columns };
    let width = width as usize;
    proof {
        assert(widths@.take(len as int) =~= widths@);
        lemma_prefix_width_monotonic(widths@, at as int, len as int);
        lemma_cursor_in_field(value@, cursor as nat, width as nat);
    }
    if width == 0 || cursor_columns > width {
        let cells = draw_up_to_cursor(&chars, at, at);
        proof {
            lemma_field_without_room(value@, cursor as nat, width as nat);
            assert(cells@ =~= field(value@, cursor as nat, width as nat));
        }
        return cells;
    }
    let view = width - cursor_columns;
    let column = width_of_prefix(widths.as_slice(), at);
    let target = if column > view { column - view } else { 0 };
    let (first, offset) = scroll_to(widths.as_slice(), target);
    assert(first == first_drawn(value@, cursor as nat, width as nat));
    let mut cells = draw_up_to_cursor(&chars, first, at);
    let mut used: usize = column - offset + cursor_columns;
    if at < len {
        proof {
            lemma_prefix_width_step(widths@, at as int);
        }
        used = draw_after_cursor(&mut cells, &chars, &widths, first, at, used, width);
    }
    assert(used == columns_drawn(value@, cursor as nat, width as nat)) by {
        if at < len {
            lemma_fill_stop(
                widths@,
                at + 1,
                (prefix_width(widths@, first as int) + width) as int,
            );
        }
    }
    fill_up(&mut cells, width - used);
    proof {
        lemma_field_within_width(value@, cursor as nat, width as nat);
    }
    cells
}

} // verus!
