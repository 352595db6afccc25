//! Adapters for terminal libraries: what a key event means as an input
//! request, and where and how a field is drawn.
//!
//! Each adapter describes the events of its terminal library by a type of its
//! own, so that the mapping can be stated and checked here; turning the
//! library's events into these types, and sending the drawn cells to the
//! terminal, is left to the caller. The bindings of characters typed with
//! control or alt held are the same for every adapter and stand here.

use crate::input::InputRequest;
use vstd::prelude::*;

pub mod crossterm;
pub mod termion;

verus! {

/// The request bound to a character typed with control held.
pub open spec fn control_binding(c: char) -> Option<InputRequest> {
    if c == 'h' {
        Some(InputRequest::DeletePrevChar)
    } else if c == 'b' {
        Some(InputRequest::GoToPrevChar)
    } else if c == 'f' {
        Some(InputRequest::GoToNextChar)
    } else if c == 'u' {
        Some(InputRequest::DeleteLine)
    } else if c == 'w' {
        Some(InputRequest::DeletePrevWord)
    } else if c == 'k' {
        Some(InputRequest::DeleteTillEnd)
    } else if c == 'a' {
        Some(InputRequest::GoToStart)
    } else if c == 'e' {
        Some(InputRequest::GoToEnd)
    } else {
        None
    }
}

/// The request bound to a character typed with alt held.
pub open spec fn alt_binding(c: char) -> Option<InputRequest> {
    if c == 'b' {
        Some(InputRequest::GoToPrevWord)
    } else if c == 'f' {
        Some(InputRequest::GoToNextWord)
    } else if c == 'd' {
        Some(InputRequest::DeletePrevWord)
    } else {
        None
    }
}

/// Looks up the request bound to `c` typed with control held.
pub fn control_request(c: char) -> (req: Option<InputRequest>)
    ensures
        req == control_binding(c),
{
    if c == 'h' {
        Some(InputRequest::DeletePrevChar)
    } else if c == 'b' {
        Some(InputRequest::GoToPrevChar)
    } else if c == 'f' {
        Some(InputRequest::GoToNextChar)
    } else if c == 'u' {
        Some(InputRequest::DeleteLine)
    } else if c == 'w' {
        Some(InputRequest::DeletePrevWord)
    } else if c == 'k' {
        Some(InputRequest::DeleteTillEnd)
    } else if c == 'a' {
        Some(InputRequest::GoToStart)
    } else if c == 'e' {
        Some(InputRequest::GoToEnd)
    } else {
        None
    }
}

/// Looks up the request bound to `c` typed with alt held.
pub fn alt_request(c: char) -> (req: Option<InputRequest>)
    ensures
        req == alt_binding(c),
{
    if c == 'b' {
        Some(InputRequest::GoToPrevWord)
    } else if c == 'f' {
        Some(InputRequest::GoToNextWord)
    } else if c == 'd' {
        Some(InputRequest::DeletePrevWord)
    } else {
        None
    }
}

} // verus!
