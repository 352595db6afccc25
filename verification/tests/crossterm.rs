use tui_input::backend::crossterm::{
    to_input_request, Chord, Event, EventHandler, KeyCode, KeyEvent, KeyEventKind,
    KeyModifiers,
};
use tui_input::render::Cell;
use tui_input::{Input, InputRequest, StateChanged};

const NONE: KeyModifiers = KeyModifiers {
    shift: false,
    control: false,
    alt: false,
    super_key: false,
    hyper: false,
    meta: false,
};
const SHIFT: KeyModifiers = KeyModifiers { shift: true, ..NONE };
const CONTROL: KeyModifiers = KeyModifiers { control: true, ..NONE };
const ALT: KeyModifiers = KeyModifiers { alt: true, ..NONE };
const META: KeyModifiers = KeyModifiers { meta: true, ..NONE };

fn press(code: KeyCode, modifiers: KeyModifiers) -> Option<InputRequest> {
    to_input_request(&Event::Key(KeyEvent {
        code,
        modifiers,
        kind: KeyEventKind::Press,
    }))
}

#[test]
fn crossterm_handle_tab() {
    let evt = Event::Key(KeyEvent {
        code: KeyCode::Tab,
        modifiers: NONE,
        kind: KeyEventKind::Press,
    });

    let req = to_input_request(&evt);

    assert!(req.is_none());
}

#[test]
fn handle_repeat() {
    let evt = Event::Key(KeyEvent {
        code: KeyCode::Char('a'),
        modifiers: NONE,
        kind: KeyEventKind::Repeat,
    });

    let req = to_input_request(&evt);

    assert_eq!(req, Some(InputRequest::InsertChar('a')));
}

#[test]
fn crossterm_release_is_ignored() {
    for code in [KeyCode::Char('a'), KeyCode::Backspace, KeyCode::Left] {
        let evt = Event::Key(KeyEvent {
            code,
            modifiers: NONE,
            kind: KeyEventKind::Release,
        });
        assert_eq!(to_input_request(&evt), None);
    }
}

#[test]
fn crossterm_other_events_are_ignored() {
    assert_eq!(to_input_request(&Event::Other), None);
}

#[test]
fn crossterm_default_modifiers_are_none() {
    assert_eq!(KeyModifiers::default(), NONE);
}

#[test]
fn crossterm_chords() {
    assert_eq!(NONE.to_chord(), Chord::Plain);
    assert_eq!(SHIFT.to_chord(), Chord::Shift);
    assert_eq!(CONTROL.to_chord(), Chord::Control);
    assert_eq!(ALT.to_chord(), Chord::Alt);
    assert_eq!(META.to_chord(), Chord::Meta);
    assert_eq!(KeyModifiers { shift: true, ..CONTROL }.to_chord(), Chord::Unbound);
    assert_eq!(KeyModifiers { alt: true, ..META }.to_chord(), Chord::Unbound);
    assert_eq!(KeyModifiers { super_key: true, ..NONE }.to_chord(), Chord::Unbound);
    assert_eq!(KeyModifiers { hyper: true, ..CONTROL }.to_chord(), Chord::Unbound);
}

#[test]
fn crossterm_named_keys() {
    assert_eq!(press(KeyCode::Backspace, NONE), Some(InputRequest::DeletePrevChar));
    assert_eq!(press(KeyCode::Backspace, ALT), Some(InputRequest::DeletePrevWord));
    assert_eq!(press(KeyCode::Backspace, META), Some(InputRequest::DeletePrevWord));
    assert_eq!(press(KeyCode::Delete, NONE), Some(InputRequest::DeleteNextChar));
    assert_eq!(press(KeyCode::Delete, CONTROL), Some(InputRequest::DeleteNextWord));
    assert_eq!(press(KeyCode::Left, NONE), Some(InputRequest::GoToPrevChar));
    assert_eq!(press(KeyCode::Left, CONTROL), Some(InputRequest::GoToPrevWord));
    assert_eq!(press(KeyCode::Right, NONE), Some(InputRequest::GoToNextChar));
    assert_eq!(press(KeyCode::Right, CONTROL), Some(InputRequest::GoToNextWord));
    assert_eq!(press(KeyCode::Home, NONE), Some(InputRequest::GoToStart));
    assert_eq!(press(KeyCode::End, NONE), Some(InputRequest::GoToEnd));
    assert_eq!(press(KeyCode::Tab, SHIFT), None);
    assert_eq!(press(KeyCode::Other, NONE), None);
    assert_eq!(press(KeyCode::Home, CONTROL), None);
    assert_eq!(press(KeyCode::Backspace, CONTROL), None);
    assert_eq!(press(KeyCode::Left, SHIFT), None);
}

#[test]
fn crossterm_control_characters() {
    assert_eq!(press(KeyCode::Char('h'), CONTROL), Some(InputRequest::DeletePrevChar));
    assert_eq!(press(KeyCode::Char('b'), CONTROL), Some(InputRequest::GoToPrevChar));
    assert_eq!(press(KeyCode::Char('f'), CONTROL), Some(InputRequest::GoToNextChar));
    assert_eq!(press(KeyCode::Char('u'), CONTROL), Some(InputRequest::DeleteLine));
    assert_eq!(press(KeyCode::Char('w'), CONTROL), Some(InputRequest::DeletePrevWord));
    assert_eq!(press(KeyCode::Char('k'), CONTROL), Some(InputRequest::DeleteTillEnd));
    assert_eq!(press(KeyCode::Char('a'), CONTROL), Some(InputRequest::GoToStart));
    assert_eq!(press(KeyCode::Char('e'), CONTROL), Some(InputRequest::GoToEnd));
    assert_eq!(press(KeyCode::Char('x'), CONTROL), None);
}

#[test]
fn crossterm_alt_and_meta_characters() {
    for modifiers in [ALT, META] {
        assert_eq!(press(KeyCode::Char('b'), modifiers), Some(InputRequest::GoToPrevWord));
        assert_eq!(press(KeyCode::Char('f'), modifiers), Some(InputRequest::GoToNextWord));
        assert_eq!(press(KeyCode::Char('d'), modifiers), Some(InputRequest::DeletePrevWord));
        assert_eq!(press(KeyCode::Char('x'), modifiers), None);
    }
}

#[test]
fn crossterm_characters_are_inserted() {
    assert_eq!(press(KeyCode::Char('h'), NONE), Some(InputRequest::InsertChar('h')));
    assert_eq!(press(KeyCode::Char('H'), SHIFT), Some(InputRequest::InsertChar('H')));
    assert_eq!(press(KeyCode::Char('☆'), NONE), Some(InputRequest::InsertChar('☆')));
    assert_eq!(
        press(KeyCode::Char('a'), KeyModifiers { shift: true, ..CONTROL }),
        None
    );
    assert_eq!(
        press(KeyCode::Char('a'), KeyModifiers { super_key: true, ..NONE }),
        None
    );
}

#[test]
fn crossterm_write_starts_at_the_origin() {
    let frame = tui_input::backend::crossterm::write("ab", 1, (3, 7), 4);
    assert_eq!(frame.column, 3);
    assert_eq!(frame.row, 7);
    assert_eq!(
        frame.cells,
        vec![
            Cell::new('a', false),
            Cell::new('b', true),
            Cell::new(' ', false),
            Cell::new(' ', false),
        ]
    );
    let frame = tui_input::backend::crossterm::write("", 0, (u16::MAX, u16::MAX), 1);
    assert_eq!(frame.column, u16::MAX);
    assert_eq!(frame.row, u16::MAX);
    assert_eq!(frame.cells, vec![Cell::new(' ', true)]);
}

#[test]
fn crossterm_handle_event() {
    let mut input = Input::from("ab");
    let key = |code| {
        Event::Key(KeyEvent {
            code,
            modifiers: NONE,
            kind: KeyEventKind::Press,
        })
    };
    assert_eq!(
        input.handle_event(&key(KeyCode::Char('c'))),
        Some(StateChanged {
            value: true,
            cursor: true
        })
    );
    assert_eq!(input.value(), "abc");
    assert_eq!(input.handle_event(&key(KeyCode::Tab)), None);
    assert_eq!(input.handle_event(&key(KeyCode::End)), None);
    assert_eq!(input.handle_event(&Event::Other), None);
    assert_eq!(input.value(), "abc");
    assert_eq!(input.cursor(), 3);
    assert_eq!(
        input.handle_event(&key(KeyCode::Home)),
        Some(StateChanged {
            value: false,
            cursor: true
        })
    );
    assert_eq!(input.cursor(), 0);
}
