use tui_input::render::{layout, Cell};
use tui_input::width::measure;

fn symbols(cells: &[Cell]) -> String {
    cells.iter().map(|cell| cell.symbol).collect()
}

fn highlighted(cells: &[Cell]) -> Vec<usize> {
    let mut at = Vec::new();
    for (i, cell) in cells.iter().enumerate() {
        if cell.inverted {
            at.push(i);
        }
    }
    at
}

#[test]
fn short_text_is_padded() {
    let cells = layout("abc", 3, 6);
    assert_eq!(symbols(&cells), "abc   ");
    assert_eq!(highlighted(&cells), vec![3]);
    let cells = layout("abc", 1, 6);
    assert_eq!(symbols(&cells), "abc   ");
    assert_eq!(highlighted(&cells), vec![1]);
}

#[test]
fn empty_text_shows_a_blank_cursor() {
    let cells = layout("", 0, 4);
    assert_eq!(
        cells,
        vec![
            Cell::new(' ', true),
            Cell::new(' ', false),
            Cell::new(' ', false),
            Cell::new(' ', false),
        ]
    );
}

#[test]
fn narrow_fields_still_show_the_cursor() {
    assert_eq!(layout("abc", 1, 1), vec![Cell::new('b', true)]);
    assert_eq!(layout("abc", 1, 0), vec![Cell::new('b', true)]);
    assert_eq!(layout("abc", 3, 0), vec![Cell::new(' ', true)]);
}

#[test]
fn long_text_scrolls_with_the_cursor() {
    let text = "0123456789";
    let cells = layout(text, 10, 5);
    assert_eq!(symbols(&cells), "6789 ");
    assert_eq!(highlighted(&cells), vec![4]);
    let cells = layout(text, 7, 5);
    assert_eq!(symbols(&cells), "34567");
    assert_eq!(highlighted(&cells), vec![4]);
    let cells = layout(text, 4, 5);
    assert_eq!(symbols(&cells), "01234");
    assert_eq!(highlighted(&cells), vec![4]);
    let cells = layout(text, 2, 5);
    assert_eq!(symbols(&cells), "01234");
    assert_eq!(highlighted(&cells), vec![2]);
    let cells = layout(text, 0, 5);
    assert_eq!(symbols(&cells), "01234");
    assert_eq!(highlighted(&cells), vec![0]);
}

#[test]
fn scrolling_counts_display_width() {
    let cells = layout("ＨＨＨＨ", 4, 5);
    assert_eq!(symbols(&cells), "ＨＨ ");
    assert_eq!(highlighted(&cells), vec![2]);
    let cells = layout("ＨＨＨＨ", 4, 4);
    assert_eq!(symbols(&cells), "Ｈ  ");
    assert_eq!(highlighted(&cells), vec![1]);
}

#[test]
fn wide_characters_that_do_not_fit_are_left_out() {
    assert_eq!(layout("ＨＨ", 0, 2), vec![Cell::new('Ｈ', true)]);
    assert_eq!(
        layout("ＨＨ", 0, 3),
        vec![Cell::new('Ｈ', true), Cell::new(' ', false)]
    );
    assert_eq!(
        layout("aＨ", 0, 2),
        vec![Cell::new('a', true), Cell::new(' ', false)]
    );
    assert_eq!(
        layout("aＨb", 1, 3),
        vec![Cell::new('a', false), Cell::new('Ｈ', true)]
    );
    assert_eq!(
        layout("aＨb", 1, 2),
        vec![Cell::new('Ｈ', true)]
    );
}

#[test]
fn characters_without_width_take_no_room() {
    assert_eq!(
        layout("e\u{301}x", 0, 1),
        vec![Cell::new('e', true), Cell::new('\u{301}', false)]
    );
    assert_eq!(
        layout("e\u{301}x", 2, 2),
        vec![
            Cell::new('e', false),
            Cell::new('\u{301}', false),
            Cell::new('x', true),
        ]
    );
}

#[test]
fn a_field_too_narrow_for_the_cursor_shows_the_cursor_alone() {
    assert_eq!(layout("aＨb", 1, 1), vec![Cell::new('Ｈ', true)]);
    assert_eq!(layout("aＨb", 1, 0), vec![Cell::new('Ｈ', true)]);
    assert_eq!(layout("ab", 2, 0), vec![Cell::new(' ', true)]);
}

#[test]
fn cursor_beyond_the_text_is_drawn_at_its_end() {
    assert_eq!(layout("ab", 9, 4), layout("ab", 2, 4));
}

fn columns(cells: &[Cell]) -> usize {
    let symbols: Vec<char> = cells.iter().map(|cell| cell.symbol).collect();
    measure(&symbols).iter().sum()
}

#[test]
fn a_field_takes_exactly_its_width() {
    let text = "aＨb\u{301}c ＨＨ!\u{17d8}x";
    let chars: Vec<char> = text.chars().collect();
    let widths = measure(&chars);
    for cursor in 0..=chars.len() {
        let under_cursor = if cursor < chars.len() { widths[cursor] } else { 1 };
        for width in 0..12u16 {
            let cells = layout(text, cursor, width);
            assert_eq!(highlighted(&cells).len(), 1);
            if width >= 1 && under_cursor <= usize::from(width) {
                assert_eq!(columns(&cells), usize::from(width));
            } else {
                assert_eq!(cells.len(), 1);
            }
        }
    }
}
