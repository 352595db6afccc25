//! The adapter for crossterm: key events come with a key code, a set of
//! modifiers and a kind; the cursor is addressed from zero.

use crate::backend::{alt_binding, alt_request, control_binding, control_request};
use crate::input::{apply, response, Input, InputRequest, InputResponse};
use crate::render::{cursor_fits, display_width, field, layout, Frame};
use vstd::prelude::*;

verus! {

/// The key of a key event. Keys that no request is bound to are `Other`.
#[derive(Debug, PartialEq, Eq, Clone, Copy, Hash, Structural)]
pub enum KeyCode {
    Backspace,
    Delete,
    Tab,
    Left,
    Right,
    Home,
    End,
    Char(char),
    Other,
}

/// The modifier keys held during a key event.
#[derive(Debug, PartialEq, Eq, Clone, Copy, Hash, Default, Structural)]
pub struct KeyModifiers {
    pub shift: bool,
    pub control: bool,
    pub alt: bool,
    pub super_key: bool,
    pub hyper: bool,
    pub meta: bool,
}

/// A set of modifiers as the bindings see it: a binding asks for no modifier
/// or for exactly one of shift, control, alt and meta.
#[derive(Debug, PartialEq, Eq, Clone, Copy, Hash, Structural)]
pub enum Chord {
    Plain,
    Shift,
    Control,
    Alt,
    Meta,
    Unbound,
}

impl KeyModifiers {
    /// How the bindings see this set of modifiers.
    pub open spec fn chord(self) -> Chord {
        if self.super_key || self.hyper {
            Chord::Unbound
        } else {
            match (self.shift, self.control, self.alt, self.meta) {
                (false, false, false, false) => Chord::Plain,
                (true, false, false, false) => Chord::Shift,
                (false, true, false, false) => Chord::Control,
                (false, false, true, false) => Chord::Alt,
                (false, false, false, true) => Chord::Meta,
                _ => Chord::Unbound,
            }
        }
    }

    /// Computes [`KeyModifiers::chord`].
    pub fn to_chord(&self) -> (chord: Chord)
        ensures
            chord == self.chord(),
    {
        if self.super_key || self.hyper {
            Chord::Unbound
        } else {
            match (self.shift, self.control, self.alt, self.meta) {
                (false, false, false, false) => Chord::Plain,
                (true, false, false, false) => Chord::Shift,
                (false, true, false, false) => Chord::Control,
                (false, false, true, false) => Chord::Alt,
                (false, false, false, true) => Chord::Meta,
                _ => Chord::Unbound,
            }
        }
    }
}

/// Whether a key went down, is being held, or came up.
#[derive(Debug, PartialEq, Eq, Clone, Copy, Hash, Structural)]
pub enum KeyEventKind {
    Press,
    Repeat,
    Release,
}

/// A key event.
#[derive(Debug, PartialEq, Eq, Clone, Copy, Hash, Structural)]
pub struct KeyEvent {
    pub code: KeyCode,
    pub modifiers: KeyModifiers,
    pub kind: KeyEventKind,
}

/// A terminal event. Everything but a key event is `Other`.
#[derive(Debug, PartialEq, Eq, Clone, Copy, Hash, Structural)]
pub enum Event {
    Key(KeyEvent),
    Other,
}

/// The request bound to a key with a chord of modifiers, if any.
///
/// Alt and meta are bound alike. Tab is bound to nothing. A character
/// without a binding of its own is inserted when it comes plain or shifted.
pub open spec fn binding(code: KeyCode, chord: Chord) -> Option<InputRequest> {
    match (code, chord) {
        (KeyCode::Backspace, Chord::Plain) => Some(InputRequest::DeletePrevChar),
        (KeyCode::Backspace, Chord::Alt) => Some(InputRequest::DeletePrevWord),
        (KeyCode::Backspace, Chord::Meta) => Some(InputRequest::DeletePrevWord),
        (KeyCode::Delete, Chord::Plain) => Some(InputRequest::DeleteNextChar),
        (KeyCode::Delete, Chord::Control) => Some(InputRequest::DeleteNextWord),
        (KeyCode::Left, Chord::Plain) => Some(InputRequest::GoToPrevChar),
        (KeyCode::Left, Chord::Control) => Some(InputRequest::GoToPrevWord),
        (KeyCode::Right, Chord::Plain) => Some(InputRequest::GoToNextChar),
        (KeyCode::Right, Chord::Control) => Some(InputRequest::GoToNextWord),
        (KeyCode::Home, Chord::Plain) => Some(InputRequest::GoToStart),
        (KeyCode::End, Chord::Plain) => Some(InputRequest::GoToEnd),
        (KeyCode::Char(c), Chord::Control) => control_binding(c),
        (KeyCode::Char(c), Chord::Alt) => alt_binding(c),
        (KeyCode::Char(c), Chord::Meta) => alt_binding(c),
        (KeyCode::Char(c), Chord::Plain) => Some(InputRequest::InsertChar(c)),
        (KeyCode::Char(c), Chord::Shift) => Some(InputRequest::InsertChar(c)),
        _ => None,
    }
}

/// The request that an event stands for: the binding of its key, for a key
/// that went down or is being held; nothing for any other event.
pub open spec fn request_of(evt: Event) -> Option<InputRequest> {
    match evt {
        Event::Key(key) => if key.kind == KeyEventKind::Release {
            None
        } else {
            binding(key.code, key.modifiers.chord())
        },
        Event::Other => None,
    }
}

/// Converts crossterm event into input requests.
pub fn to_input_request(evt: &Event) -> (req: Option<InputRequest>)
    ensures
        req == request_of(*evt),
{
    match evt {
        Event::Key(key) => {
            match key.kind {
                KeyEventKind::Release => None,
                _ => {
                    match (key.code, key.modifiers.to_chord()) {
                        (KeyCode::Backspace, Chord::Plain) => Some(InputRequest::DeletePrevChar),
                        (KeyCode::Backspace, Chord::Alt) => Some(InputRequest::DeletePrevWord),
                        (KeyCode::Backspace, Chord::Meta) => Some(InputRequest::DeletePrevWord),
                        (KeyCode::Delete, Chord::Plain) => Some(InputRequest::DeleteNextChar),
                        (KeyCode::Delete, Chord::Control) => Some(InputRequest::DeleteNextWord),
                        (KeyCode::Left, Chord::Plain) => Some(InputRequest::GoToPrevChar),
                        (KeyCode::Left, Chord::Control) => Some(InputRequest::GoToPrevWord),
                        (KeyCode::Right, Chord::Plain) => Some(InputRequest::GoToNextChar),
                        (KeyCode::Right, Chord::Control) => Some(InputRequest::GoToNextWord),
                        (KeyCode::Home, Chord::Plain) => Some(InputRequest::GoToStart),
                        (KeyCode::End, Chord::Plain) => Some(InputRequest::GoToEnd),
                        (KeyCode::Char(c), Chord::Control) => control_request(c),
                        (KeyCode::Char(c), Chord::Alt) => alt_request(c),
                        (KeyCode::Char(c), Chord::Meta) => alt_request(c),
                        (KeyCode::Char(c), Chord::Plain) => Some(InputRequest::InsertChar(c)),
                        (KeyCode::Char(c), Chord::Shift) => Some(InputRequest::InsertChar(c)),
                        _ => None,
                    }
                },
            }
        },
        Event::Other => None,
    }
}

/// Renders the input UI at the given position with the given width.
///
/// The frame says where the cursor is moved to before drawing, which is
/// `origin` itself, and which cells are drawn from there. The cells take at
/// most `width` columns, unless the cursor's own cell is wider than that.
pub fn write(value: &str, cursor: usize, origin: (u16, u16), width: u16) -> (frame: Frame)
    ensures
        frame.column == origin.0,
        frame.row == origin.1,
        frame.cells@ == field(value@, cursor as nat, width as nat),
        cursor_fits(value@, cursor as nat, width as nat) ==> display_width(frame.cells@) <= width,
{
    Frame { column: origin.0, row: origin.1, cells: layout(value, cursor, width) }
}

/// Import this trait to implement `Input::handle_event()` for crossterm.
pub trait EventHandler {
    /// Handle crossterm event.
    fn handle_event(&mut self, evt: &Event) -> InputResponse;
}

impl EventHandler for Input {
    /// Handle crossterm event: an event that stands for a request is handled
    /// as that request; any other event changes nothing.
    fn handle_event(&mut self, evt: &Event) -> (resp: InputResponse)
        ensures
            match request_of(*evt) {
                Some(req) => final(self)@ == apply(old(self)@, req) && resp == response(
                    old(self)@,
                    req,
                ),
                None => final(self)@ == old(self)@ && resp == None::<crate::input::StateChanged>,
            },
    {
        match to_input_request(evt) {
            Some(req) => self.handle(req),
            None => None,
        }
    }
}

} // verus!
