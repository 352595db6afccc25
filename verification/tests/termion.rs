use tui_input::backend::termion::{to_input_request, Event, EventHandler, Key};
use tui_input::render::Cell;
use tui_input::{Input, InputRequest, StateChanged};

fn key(key: Key) -> Option<InputRequest> {
    to_input_request(&Event::Key(key))
}

#[test]
fn termion_handle_tab() {
    let evt = Event::Key(Key::Char('\t'));

    let req = to_input_request(&evt);

    assert!(req.is_none());
}

#[test]
fn termion_named_keys() {
    assert_eq!(key(Key::Backspace), Some(InputRequest::DeletePrevChar));
    assert_eq!(key(Key::Delete), Some(InputRequest::DeleteNextChar));
    assert_eq!(key(Key::Left), Some(InputRequest::GoToPrevChar));
    assert_eq!(key(Key::CtrlLeft), Some(InputRequest::GoToPrevWord));
    assert_eq!(key(Key::Right), Some(InputRequest::GoToNextChar));
    assert_eq!(key(Key::CtrlRight), Some(InputRequest::GoToNextWord));
    assert_eq!(key(Key::Home), Some(InputRequest::GoToStart));
    assert_eq!(key(Key::End), Some(InputRequest::GoToEnd));
    assert_eq!(key(Key::Other), None);
    assert_eq!(to_input_request(&Event::Other), None);
}

#[test]
fn termion_control_characters() {
    assert_eq!(key(Key::Ctrl('h')), Some(InputRequest::DeletePrevChar));
    assert_eq!(key(Key::Ctrl('b')), Some(InputRequest::GoToPrevChar));
    assert_eq!(key(Key::Ctrl('f')), Some(InputRequest::GoToNextChar));
    assert_eq!(key(Key::Ctrl('u')), Some(InputRequest::DeleteLine));
    assert_eq!(key(Key::Ctrl('w')), Some(InputRequest::DeletePrevWord));
    assert_eq!(key(Key::Ctrl('k')), Some(InputRequest::DeleteTillEnd));
    assert_eq!(key(Key::Ctrl('a')), Some(InputRequest::GoToStart));
    assert_eq!(key(Key::Ctrl('e')), Some(InputRequest::GoToEnd));
    assert_eq!(key(Key::Ctrl('x')), None);
}

#[test]
fn termion_alt_characters() {
    assert_eq!(key(Key::Alt('b')), Some(InputRequest::GoToPrevWord));
    assert_eq!(key(Key::Alt('f')), Some(InputRequest::GoToNextWord));
    assert_eq!(key(Key::Alt('d')), Some(InputRequest::DeletePrevWord));
    assert_eq!(key(Key::Alt('x')), None);
}

#[test]
fn termion_characters_are_inserted() {
    assert_eq!(key(Key::Char('h')), Some(InputRequest::InsertChar('h')));
    assert_eq!(key(Key::Char('☆')), Some(InputRequest::InsertChar('☆')));
    assert_eq!(key(Key::Char(' ')), Some(InputRequest::InsertChar(' ')));
}

#[test]
fn termion_write_counts_from_one() {
    let frame = tui_input::backend::termion::write("ab", 2, (0, 0), 3);
    assert_eq!(frame.column, 1);
    assert_eq!(frame.row, 1);
    assert_eq!(
        frame.cells,
        vec![
            Cell::new('a', false),
            Cell::new('b', false),
            Cell::new(' ', true),
        ]
    );
    let frame = tui_input::backend::termion::write("ab", 0, (3, u16::MAX - 1), 1);
    assert_eq!(frame.column, 4);
    assert_eq!(frame.row, u16::MAX);
    assert_eq!(frame.cells, vec![Cell::new('a', true)]);
}

#[test]
fn termion_handle_event() {
    let mut input = Input::from("ab");
    assert_eq!(
        input.handle_event(&Event::Key(Key::Backspace)),
        Some(StateChanged {
            value: true,
            cursor: true
        })
    );
    assert_eq!(input.value(), "a");
    assert_eq!(input.cursor(), 1);
    assert_eq!(input.handle_event(&Event::Key(Key::Char('\t'))), None);
    assert_eq!(input.handle_event(&Event::Key(Key::Delete)), None);
    assert_eq!(input.handle_event(&Event::Other), None);
    assert_eq!(input.value(), "a");
    assert_eq!(input.cursor(), 1);
}
