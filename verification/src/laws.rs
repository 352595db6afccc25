//! Properties of the editing requests, proved of [`apply`] and [`response`].
//!
//! [`Input::handle`](crate::input::Input::handle) computes exactly what those
//! two functions describe, so everything shown here holds of every buffer and
//! every request handled.

use crate::input::{apply, change, response, takes_effect, InputRequest, InputState};
use crate::word::{lemma_next_word_start_bounds, lemma_prev_word_start_bounds, word_mask};
use vstd::prelude::*;

verus! {

/// The cursor never leaves the text: whatever the request, a valid state is
/// followed by a valid state.
pub proof fn lemma_cursor_stays_in_text(s: InputState, req: InputRequest)
    requires
        s.valid(),
    ensures
        apply(s, req).valid(),
{
    let mask = word_mask(s.content);
    lemma_prev_word_start_bounds(mask, s.cursor as int);
    lemma_next_word_start_bounds(mask, s.cursor as int);
}

/// A request that takes no effect changes nothing and is answered with
/// `None`; every other request is answered with `Some`.
pub proof fn lemma_no_effect_no_change(s: InputState, req: InputRequest)
    requires
        s.valid(),
    ensures
        !takes_effect(s, req) ==> apply(s, req) == s && response(s, req).is_none(),
        takes_effect(s, req) ==> response(s, req) == Some(change(s, req)),
{
    if !takes_effect(s, req) {
        assert(apply(s, req) =~= s);
    }
}

/// At the boundaries nothing happens: going to the start at the start, going
/// to the end at the end, deleting backwards at the start and deleting
/// forwards at the end all leave the state alone and are answered with `None`.
pub proof fn lemma_idempotent_at_boundaries(s: InputState)
    requires
        s.valid(),
    ensures
        s.cursor == 0 ==> {
            &&& apply(s, InputRequest::GoToStart) == s
            &&& response(s, InputRequest::GoToStart) == None::<crate::input::StateChanged>
            &&& apply(s, InputRequest::DeletePrevChar) == s
            &&& response(s, InputRequest::DeletePrevChar) == None::<crate::input::StateChanged>
        },
        s.cursor == s.content.len() ==> {
            &&& apply(s, InputRequest::GoToEnd) == s
            &&& response(s, InputRequest::GoToEnd) == None::<crate::input::StateChanged>
            &&& apply(s, InputRequest::DeleteNextChar) == s
            &&& response(s, InputRequest::DeleteNextChar) == None::<crate::input::StateChanged>
        },
{
    if s.cursor == 0 {
        assert(apply(s, InputRequest::GoToStart) =~= s);
    }
    if s.cursor == s.content.len() {
        assert(apply(s, InputRequest::GoToEnd) =~= s);
    }
}

/// Inserting a character and then deleting the character before the cursor
/// restores both the text and the cursor.
pub proof fn lemma_insert_then_delete_prev(s: InputState, c: char)
    requires
        s.valid(),
    ensures
        apply(apply(s, InputRequest::InsertChar(c)), InputRequest::DeletePrevChar) == s,
{
    let inserted = apply(s, InputRequest::InsertChar(c));
    assert(inserted.content.remove(s.cursor as int) =~= s.content);
    assert(apply(inserted, InputRequest::DeletePrevChar) =~= s);
}

/// Insertion works on whole characters: the text grows by exactly the
/// inserted character, which stands at the old cursor position; every other
/// character is kept as it was, those before the cursor in place and those
/// after it one position later.
pub proof fn lemma_insert_keeps_characters(s: InputState, c: char)
    requires
        s.valid(),
    ensures
        ({
            let after = apply(s, InputRequest::InsertChar(c));
            &&& after.content.len() == s.content.len() + 1
            &&& after.cursor == s.cursor + 1
            &&& after.content[s.cursor as int] == c
            &&& forall|i: int| 0 <= i < s.cursor ==> after.content[i] == s.content[i]
            &&& forall|i: int|
                s.cursor <= i < s.content.len() ==> after.content[i + 1] == s.content[i]
        }),
{
}

/// Deletion works on whole characters: deleting before or after the cursor
/// removes exactly one character, the one at the deleted position; every other
/// character is kept as it was, those before it in place and those after it
/// one position earlier.
pub proof fn lemma_delete_keeps_characters(s: InputState, req: InputRequest)
    requires
        s.valid(),
        req == InputRequest::DeletePrevChar || req == InputRequest::DeleteNextChar,
        takes_effect(s, req),
    ensures
        ({
            let after = apply(s, req);
            let gone = if req == InputRequest::DeletePrevChar {
                s.cursor - 1
            } else {
                s.cursor as int
            };
            &&& after.content.len() == s.content.len() - 1
            &&& after.cursor == gone
            &&& forall|i: int| 0 <= i < gone ==> after.content[i] == s.content[i]
            &&& forall|i: int| gone <= i < after.content.len() ==> after.content[i] == s.content[i + 1]
        }),
{
}

/// What a response reports as unchanged is unchanged: without the `value`
/// flag the text is the same, without the `cursor` flag the cursor is.
pub proof fn lemma_flags_cover_changes(s: InputState, req: InputRequest)
    requires
        s.valid(),
    ensures
        response(s, req) matches Some(changed) ==> {
            &&& !changed.value ==> apply(s, req).content == s.content
            &&& !changed.cursor ==> apply(s, req).cursor == s.cursor
        },
        response(s, req).is_none() ==> apply(s, req) == s,
{
    lemma_no_effect_no_change(s, req);
}

} // verus!
