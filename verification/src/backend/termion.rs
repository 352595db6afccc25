//! The adapter for termion: a key event is a key, with control and alt folded
//! into the key itself; the cursor is addressed from one.

use crate::backend::{alt_binding, alt_request, control_binding, control_request};
use crate::input::{apply, response, Input, InputRequest, InputResponse};
use crate::render::{cursor_fits, display_width, field, layout, Frame};
use vstd::prelude::*;

verus! {

/// A key, as termion reports it. Keys that no request is bound to are
/// `Other`.
#[derive(Debug, PartialEq, Eq, Clone, Copy, Hash, Structural)]
pub enum Key {
    Backspace,
    Delete,
    Left,
    CtrlLeft,
    Right,
    CtrlRight,
    Home,
    End,
    /// A character typed plain or shifted.
    Char(char),
    /// A character typed with alt held.
    Alt(char),
    /// A character typed with control held.
    Ctrl(char),
    Other,
}

/// A terminal event. Everything but a key event is `Other`.
#[derive(Debug, PartialEq, Eq, Clone, Copy, Hash, Structural)]
pub enum Event {
    Key(Key),
    Other,
}

/// The request bound to a key, if any. Tab is bound to nothing; any other
/// plain character is inserted.
pub open spec fn binding(key: Key) -> Option<InputRequest> {
    match key {
        Key::Backspace => Some(InputRequest::DeletePrevChar),
        Key::Delete => Some(InputRequest::DeleteNextChar),
        Key::Left => Some(InputRequest::GoToPrevChar),
        Key::CtrlLeft => Some(InputRequest::GoToPrevWord),
        Key::Right => Some(InputRequest::GoToNextChar),
        Key::CtrlRight => Some(InputRequest::GoToNextWord),
        Key::Home => Some(InputRequest::GoToStart),
        Key::End => Some(InputRequest::GoToEnd),
        Key::Ctrl(c) => control_binding(c),
        Key::Alt(c) => alt_binding(c),
        Key::Char(c) => if c == '\t' {
            None
        } else {
            Some(InputRequest::InsertChar(c))
        },
        Key::Other => None,
    }
}

/// The request that an event stands for: the binding of its key, or nothing
/// for an event that is no key event.
pub open spec fn request_of(evt: Event) -> Option<InputRequest> {
    match evt {
        Event::Key(key) => binding(key),
        Event::Other => None,
    }
}

/// Converts termion event into input requests.
pub fn to_input_request(evt: &Event) -> (req: Option<InputRequest>)
    ensures
        req == request_of(*evt),
{
    match evt {
        Event::Key(key) => {
            match key {
                Key::Backspace => Some(InputRequest::DeletePrevChar),
                Key::Delete => Some(InputRequest::DeleteNextChar),
                Key::Left => Some(InputRequest::GoToPrevChar),
                Key::CtrlLeft => Some(InputRequest::GoToPrevWord),
                Key::Right => Some(InputRequest::GoToNextChar),
                Key::CtrlRight => Some(InputRequest::GoToNextWord),
                Key::Home => Some(InputRequest::GoToStart),
                Key::End => Some(InputRequest::GoToEnd),
                Key::Ctrl(c) => control_request(*c),
                Key::Alt(c) => alt_request(*c),
                Key::Char(c) => if *c == '\t' {
                    None
                } else {
                    Some(InputRequest::InsertChar(*c))
                },
                Key::Other => None,
            }
        },
        Event::Other => None,
    }
}

/// Renders the input UI at the given position with the given width.
///
/// The frame says where the cursor is moved to before drawing, and which
/// cells are drawn from there. Termion counts columns and rows from one, so
/// the position is one beyond `origin` in each direction. The cells take at
/// most `width` columns, unless the cursor's own cell is wider than that.
pub fn write(value: &str, cursor: usize, origin: (u16, u16), width: u16) -> (frame: Frame)
    requires
        origin.0 < u16::MAX,
        origin.1 < u16::MAX,
    ensures
        frame.column == origin.0 + 1,
        frame.row == origin.1 + 1,
        frame.cells@ == field(value@, cursor as nat, width as nat),
        cursor_fits(value@, cursor as nat, width as nat) ==> display_width(frame.cells@) <= width,
{
    Frame { column: origin.0 + 1, row: origin.1 + 1, cells: layout(value, cursor, width) }
}

/// Import this trait to implement `Input::handle_event()` for termion.
pub trait EventHandler {
    /// Handle termion event.
    fn handle_event(&mut self, evt: &Event) -> InputResponse;
}

impl EventHandler for Input {
    /// Handle termion event: an event that stands for a request is handled as
    /// that request; any other event changes nothing.
    fn handle_event(&mut self, evt: &Event) -> (resp: InputResponse)
        ensures
            match request_of(*evt) {
                Some(req) => final(self)@ == apply(old(self)@, req) && resp == response(
                    old(self)@,
                    req,
                ),
                None => final(self)@ == old(self)@ && resp == None::<crate::input::StateChanged>,
            },
    {
        match to_input_request(evt) {
            Some(req) => self.handle(req),
            None => None,
        }
    }
}

} // verus!
