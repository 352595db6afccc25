//! The input buffer: a line of text with a cursor, and the requests that
//! change it.
//!
//! The behaviour of every request is given by two specification functions,
//! [`apply`] and [`response`], over the abstract state of a buffer: its
//! characters and its cursor. [`Input::handle`] is proved to compute exactly
//! what they say.

use crate::text::{from_chars, to_chars};
use crate::width::{
    cell_widths, measure, prefix_width, scroll_offset, scroll_to, total, width_of_prefix,
    lemma_prefix_width_monotonic, lemma_scroll_stop, scroll_stop,
};
use crate::word::{
    classify, find_next_word_start, find_prev_word_start, lemma_next_word_start_bounds,
    lemma_prev_word_start_bounds, next_word_start, prev_word_start, word_mask,
};
use vstd::prelude::*;

verus! {

/// Input requests are used to change the input state.
///
/// Different backends can be used to convert events into requests.
#[derive(Debug, PartialOrd, PartialEq, Eq, Clone, Copy, Hash, Structural)]
pub enum InputRequest {
    SetCursor(usize),
    InsertChar(char),
    GoToPrevChar,
    GoToNextChar,
    GoToPrevWord,
    GoToNextWord,
    GoToStart,
    GoToEnd,
    DeletePrevChar,
    DeleteNextChar,
    DeletePrevWord,
    DeleteNextWord,
    DeleteLine,
    DeleteTillEnd,
}

/// What a request changed: the text, the cursor, or both.
#[derive(Debug, PartialOrd, PartialEq, Eq, Clone, Copy, Hash, Structural)]
pub struct StateChanged {
    pub value: bool,
    pub cursor: bool,
}

/// The answer to a request: `None` when the request changed nothing.
pub type InputResponse = Option<StateChanged>;

/// The abstract state of an input buffer.
#[verifier::ext_equal]
pub struct InputState {
    /// The text, as a sequence of characters.
    pub content: Seq<char>,
    /// The gap in which the next character is inserted: the number of
    /// characters before it.
    pub cursor: nat,
}

impl InputState {
    /// The cursor lies within the text or at its end.
    pub open spec fn valid(self) -> bool {
        self.cursor <= self.content.len()
    }

    /// The state of a fresh buffer holding `content`: the cursor is at the end.
    pub open spec fn at_end(content: Seq<char>) -> InputState {
        InputState { content, cursor: content.len() }
    }

    /// The state of an empty buffer.
    pub open spec fn empty() -> InputState {
        InputState { content: Seq::empty(), cursor: 0 }
    }

    /// This state with the cursor moved to `cursor`.
    pub open spec fn with_cursor(self, cursor: nat) -> InputState {
        InputState { content: self.content, cursor }
    }
}

/// The position that `SetCursor(pos)` selects in a text of `len` characters.
pub open spec fn clamp_cursor(pos: nat, len: nat) -> nat {
    if pos <= len {
        pos
    } else {
        len
    }
}

/// `content` without the characters in `from..to`.
pub open spec fn without_range(content: Seq<char>, from: int, to: int) -> Seq<char> {
    content.take(from) + content.skip(to)
}

/// The state that follows `s` when `req` is handled.
pub open spec fn apply(s: InputState, req: InputRequest) -> InputState {
    let len = s.content.len();
    let mask = word_mask(s.content);
    match req {
        InputRequest::SetCursor(pos) => s.with_cursor(clamp_cursor(pos as nat, len)),
        InputRequest::InsertChar(c) => InputState {
            content: s.content.insert(s.cursor as int, c),
            cursor: s.cursor + 1,
        },
        InputRequest::GoToPrevChar => if s.cursor > 0 {
            s.with_cursor((s.cursor - 1) as nat)
        } else {
            s
        },
        InputRequest::GoToNextChar => if s.cursor < len {
            s.with_cursor(s.cursor + 1)
        } else {
            s
        },
        InputRequest::GoToPrevWord => if s.cursor > 0 {
            s.with_cursor(prev_word_start(mask, s.cursor as int) as nat)
        } else {
            s
        },
        InputRequest::GoToNextWord => if s.cursor < len {
            s.with_cursor(next_word_start(mask, s.cursor as int) as nat)
        } else {
            s
        },
        InputRequest::GoToStart => s.with_cursor(0),
        InputRequest::GoToEnd => s.with_cursor(len),
        InputRequest::DeletePrevChar => if s.cursor > 0 {
            InputState {
                content: s.content.remove(s.cursor - 1),
                cursor: (s.cursor - 1) as nat,
            }
        } else {
            s
        },
        InputRequest::DeleteNextChar => if s.cursor < len {
            InputState { content: s.content.remove(s.cursor as int), cursor: s.cursor }
        } else {
            s
        },
        InputRequest::DeletePrevWord => if s.cursor > 0 {
            let start = prev_word_start(mask, s.cursor as int);
            InputState {
                content: without_range(s.content, start, s.cursor as int),
                cursor: start as nat,
            }
        } else {
            s
        },
        InputRequest::DeleteNextWord => if s.cursor < len {
            let end = next_word_start(mask, s.cursor as int);
            InputState {
                content: without_range(s.content, s.cursor as int, end),
                cursor: s.cursor,
            }
        } else {
            s
        },
        InputRequest::DeleteLine => if len > 0 {
            InputState::empty()
        } else {
            s
        },
        InputRequest::DeleteTillEnd => InputState {
            content: s.content.take(s.cursor as int),
            cursor: s.cursor,
        },
    }
}

/// Whether `req` has an effect in state `s`. A request without effect leaves
/// the state alone and is answered with `None`.
pub open spec fn takes_effect(s: InputState, req: InputRequest) -> bool {
    let len = s.content.len();
    match req {
        InputRequest::SetCursor(pos) => clamp_cursor(pos as nat, len) != s.cursor,
        InputRequest::InsertChar(_) => true,
        InputRequest::GoToPrevChar => s.cursor > 0,
        InputRequest::GoToNextChar => s.cursor < len,
        InputRequest::GoToPrevWord => s.cursor > 0,
        InputRequest::GoToNextWord => s.cursor < len,
        InputRequest::GoToStart => s.cursor > 0,
        InputRequest::GoToEnd => s.cursor < len,
        InputRequest::DeletePrevChar => s.cursor > 0,
        InputRequest::DeleteNextChar => s.cursor < len,
        InputRequest::DeletePrevWord => s.cursor > 0,
        InputRequest::DeleteNextWord => s.cursor < len,
        InputRequest::DeleteLine => len > 0,
        InputRequest::DeleteTillEnd => true,
    }
}

/// What is reported for `req` when it takes effect in state `s`.
pub open spec fn change(s: InputState, req: InputRequest) -> StateChanged {
    match req {
        InputRequest::SetCursor(_)
        | InputRequest::GoToPrevChar
        | InputRequest::GoToNextChar
        | InputRequest::GoToPrevWord
        | InputRequest::GoToNextWord
        | InputRequest::GoToStart
        | InputRequest::GoToEnd => StateChanged { value: false, cursor: true },
        InputRequest::InsertChar(_)
        | InputRequest::DeletePrevChar
        | InputRequest::DeletePrevWord => StateChanged { value: true, cursor: true },
        InputRequest::DeleteNextChar
        | InputRequest::DeleteNextWord
        | InputRequest::DeleteTillEnd => StateChanged { value: true, cursor: false },
        InputRequest::DeleteLine => StateChanged { value: true, cursor: s.cursor != 0 },
    }
}

/// The answer to `req` in state `s`.
pub open spec fn response(s: InputState, req: InputRequest) -> InputResponse {
    if takes_effect(s, req) {
        Some(change(s, req))
    } else {
        None
    }
}

/// The display column of the cursor: the widths of the characters before it,
/// added up.
pub open spec fn visual_cursor(s: InputState) -> nat {
    prefix_width(cell_widths(s.content), s.cursor as int)
}

/// The column at which a viewport `width` cells wide starts so that the
/// cursor stays in view. The part of the text that has to scroll out is
/// `visual_cursor - width` cells (none if that is negative); the offset is the
/// first character boundary at or beyond it.
pub open spec fn visual_scroll(s: InputState, width: nat) -> nat {
    scroll_offset(cell_widths(s.content), visual_cursor(s) - width)
}

/// The scroll offset keeps the cursor in view: it is never to the right of
/// the cursor's column, and the cursor is at most `width` cells beyond it.
pub proof fn lemma_scroll_within_viewport(s: InputState, width: nat)
    requires
        s.valid(),
    ensures
        visual_scroll(s, width) <= visual_cursor(s) <= visual_scroll(s, width) + width,
{
    let widths = cell_widths(s.content);
    let target = visual_cursor(s) - width;
    let stop = scroll_stop(widths, 0, target);
    lemma_scroll_stop(widths, 0, target);
    if stop > s.cursor {
        assert(prefix_width(widths, s.cursor as int) < target);
    }
    lemma_prefix_width_monotonic(widths, stop, s.cursor as int);
}

/// The characters of `chars` outside `from..to`.
fn remove_range(chars: &Vec<char>, from: usize, to: usize) -> (rest: Vec<char>)
    requires
        from <= to <= chars.len(),
    ensures
        rest@ == without_range(chars@, from as int, to as int),
{
    let mut rest: Vec<char> = Vec::new();
    let mut i: usize = 0;
    while i < from
        invariant
            i <= from <= chars.len(),
            rest@ == chars@.take(i as int),
        decreases from - i,
    {
        rest.push(chars[i]);
        i += 1;
    }
    let mut j: usize = to;
    while j < chars.len()
        invariant
            to <= j <= chars.len(),
            rest@ == chars@.take(from as int) + chars@.subrange(to as int, j as int),
        decreases chars.len() - j,
    {
        rest.push(chars[j]);
        j += 1;
    }
    assert(chars@.subrange(to as int, chars.len() as int) =~= chars@.skip(to as int));
    rest
}

/// The input buffer with cursor support.
#[derive(Debug)]
pub struct Input {
    value: String,
    cursor: usize,
}

impl View for Input {
    type V = InputState;

    closed spec fn view(&self) -> InputState {
        InputState { content: self.value@, cursor: self.cursor as nat }
    }
}

impl Clone for Input {
    fn clone(&self) -> (copy: Self)
        ensures
            copy@ == self@,
    {
        proof {
            use_type_invariant(self);
        }
        Input { value: self.value.clone(), cursor: self.cursor }
    }
}

impl Default for Input {
    /// An empty buffer.
    fn default() -> (input: Self)
        ensures
            input@ == InputState::empty(),
    {
        Input { value: String::new(), cursor: 0 }
    }
}

impl From<String> for Input {
    /// A buffer holding `value`, with the cursor at the end.
    fn from(value: String) -> (input: Self)
        ensures
            input@ == InputState::at_end(value@),
    {
        let cursor = value.as_str().unicode_len();
        Input { value, cursor }
    }
}

impl vstd::std_specs::convert::FromSpecImpl<String> for Input {
    open spec fn obeys_from_spec() -> bool {
        true
    }

    closed spec fn from_spec(value: String) -> Input {
        Input { value, cursor: value@.len() as usize }
    }
}

impl<'a> From<&'a str> for Input {
    /// A buffer holding a copy of `value`, with the cursor at the end.
    fn from(value: &'a str) -> (input: Self)
        ensures
            input@ == InputState::at_end(value@),
    {
        Input::new(value.to_owned())
    }
}

/// The copy made of a string slice is known by its characters only, so this
/// conversion is described by the contract of `from` and not by one
/// specification value.
impl<'a> vstd::std_specs::convert::FromSpecImpl<&'a str> for Input {
    open spec fn obeys_from_spec() -> bool {
        false
    }

    closed spec fn from_spec(value: &'a str) -> Input {
        choose|input: Input| input@ == InputState::at_end(value@)
    }
}

impl From<Input> for String {
    /// The text of the buffer.
    fn from(input: Input) -> (value: String)
        ensures
            value@ == input@.content,
    {
        input.value
    }
}

impl vstd::std_specs::convert::FromSpecImpl<Input> for String {
    open spec fn obeys_from_spec() -> bool {
        true
    }

    closed spec fn from_spec(input: Input) -> String {
        input.value
    }
}

impl Input {
    #[verifier::type_invariant]
    spec fn cursor_in_text(&self) -> bool {
        self.cursor <= self.value@.len()
    }

    /// Initialize a new instance with a given value.
    /// Cursor will be set to the given value's length.
    pub fn new(value: String) -> (input: Self)
        ensures
            input@ == InputState::at_end(value@),
    {
        let len = value.as_str().unicode_len();
        Input { value, cursor: len }
    }

    /// Set the value manually.
    /// Cursor will be set to the given value's length.
    pub fn with_value(self, value: String) -> (input: Self)
        ensures
            input@ == InputState::at_end(value@),
    {
        Input::new(value)
    }

    /// Set the cursor manually.
    /// If the input is larger than the value length, it'll be auto adjusted.
    pub fn with_cursor(self, cursor: usize) -> (input: Self)
        ensures
            input@ == self@.with_cursor(clamp_cursor(cursor as nat, self@.content.len())),
            input@.valid(),
    {
        let len = self.value.as_str().unicode_len();
        let cursor = if cursor < len { cursor } else { len };
        Input { value: self.value, cursor }
    }

    /// Reset the cursor and value to default.
    pub fn reset(&mut self)
        ensures
            final(self)@ == InputState::empty(),
    {
        self.cursor = 0;
        self.value = String::new();
    }

    /// Reset the cursor and value to default, returning the previous value.
    pub fn value_and_reset(&mut self) -> (value: String)
        ensures
            value@ == old(self)@.content,
            final(self)@ == InputState::empty(),
    {
        let value = self.value.clone();
        self.reset();
        value
    }

    /// Handle request and emit response.
    ///
    /// The buffer afterwards is the one that [`apply`] describes and the
    /// answer the one that [`response`] describes. The cursor never leaves
    /// the text.
    pub fn handle(&mut self, req: InputRequest) -> (resp: InputResponse)
        ensures
            final(self)@ == apply(old(self)@, req),
            resp == response(old(self)@, req),
            final(self)@.valid(),
    {
        proof {
            use_type_invariant(&*self);
        }
        let changed = match req {
            InputRequest::SetCursor(pos) => {
                let len = self.value.as_str().unicode_len();
                let pos = if pos < len { pos } else { len };
                self.move_cursor(pos)
            },
            InputRequest::GoToPrevChar => {
                if self.cursor == 0 {
                    None
                } else {
                    self.move_cursor(self.cursor - 1)
                }
            },
            InputRequest::GoToNextChar => {
                let len = self.value.as_str().unicode_len();
                if self.cursor == len {
                    None
                } else {
                    self.move_cursor(self.cursor + 1)
                }
            },
            InputRequest::GoToPrevWord => {
                if self.cursor == 0 {
                    None
                } else {
                    let chars = to_chars(self.value.as_str());
                    let mask = classify(chars.as_slice());
                    let start = find_prev_word_start(mask.as_slice(), self.cursor);
                    proof {
                        lemma_prev_word_start_bounds(mask@, self.cursor as int);
                    }
                    self.move_cursor(start)
                }
            },
            InputRequest::GoToNextWord => {
                let chars = to_chars(self.value.as_str());
                if self.cursor == chars.len() {
                    None
                } else {
                    let mask = classify(chars.as_slice());
                    let end = find_next_word_start(mask.as_slice(), self.cursor);
                    proof {
                        lemma_next_word_start_bounds(mask@, self.cursor as int);
                    }
                    self.move_cursor(end)
                }
            },
            InputRequest::GoToStart => self.move_cursor(0),
            InputRequest::GoToEnd => {
                let len = self.value.as_str().unicode_len();
                self.move_cursor(len)
            },
            InputRequest::InsertChar(c) => {
                let mut chars = to_chars(self.value.as_str());
                chars.insert(self.cursor, c);
                assert(self.cursor < chars.len());
                let cursor = self.cursor + 1;
                self.replace(&chars, cursor);
                Some(StateChanged { value: true, cursor: true })
            },
            InputRequest::DeletePrevChar => {
                if self.cursor == 0 {
                    None
                } else {
                    let mut chars = to_chars(self.value.as_str());
                    chars.remove(self.cursor - 1);
                    let cursor = self.cursor - 1;
                    self.replace(&chars, cursor);
                    Some(StateChanged { value: true, cursor: true })
                }
            },
            InputRequest::DeleteNextChar => {
                let mut chars = to_chars(self.value.as_str());
                if self.cursor == chars.len() {
                    None
                } else {
                    chars.remove(self.cursor);
                    let cursor = self.cursor;
                    self.replace(&chars, cursor);
                    Some(StateChanged { value: true, cursor: false })
                }
            },
            InputRequest::DeletePrevWord => {
                if self.cursor == 0 {
                    None
                } else {
                    let chars = to_chars(self.value.as_str());
                    let mask = classify(chars.as_slice());
                    let start = find_prev_word_start(mask.as_slice(), self.cursor);
                    let rest = remove_range(&chars, start, self.cursor);
                    self.replace(&rest, start);
                    Some(StateChanged { value: true, cursor: true })
                }
            },
            InputRequest::DeleteNextWord => {
                let chars = to_chars(self.value.as_str());
                if self.cursor == chars.len() {
                    None
                } else {
                    let mask = classify(chars.as_slice());
                    let end = find_next_word_start(mask.as_slice(), self.cursor);
                    let rest = remove_range(&chars, self.cursor, end);
                    let cursor = self.cursor;
                    self.replace(&rest, cursor);
                    Some(StateChanged { value: true, cursor: false })
                }
            },
            InputRequest::DeleteLine => {
                if self.value.as_str().is_empty() {
                    None
                } else {
                    let moved = self.cursor != 0;
                    self.reset();
                    Some(StateChanged { value: true, cursor: moved })
                }
            },
            InputRequest::DeleteTillEnd => {
                let mut chars = to_chars(self.value.as_str());
                chars.truncate(self.cursor);
                let cursor = self.cursor;
                self.replace(&chars, cursor);
                Some(StateChanged { value: true, cursor: false })
            },
        };
        proof {
            use_type_invariant(&*self);
            assert(self@ =~= apply(old(self)@, req));
        }
        changed
    }

    /// Get the current cursor position with account for multispace characters.
    pub fn visual_cursor(&self) -> (column: usize)
        ensures
            column == visual_cursor(self@),
    {
        let widths = self.measured();
        proof {
            use_type_invariant(self);
            lemma_prefix_width_monotonic(widths@, self.cursor as int, widths.len() as int);
        }
        width_of_prefix(widths.as_slice(), self.cursor)
    }

    /// Get the scroll position with account for multispace characters.
    ///
    /// The result never exceeds the cursor's column, and the cursor is at
    /// most `width` cells to its right.
    pub fn visual_scroll(&self, width: usize) -> (offset: usize)
        ensures
            offset == visual_scroll(self@, width as nat),
            offset <= visual_cursor(self@) <= offset + width,
    {
        let widths = self.measured();
        proof {
            use_type_invariant(self);
            lemma_prefix_width_monotonic(widths@, self.cursor as int, widths.len() as int);
            lemma_scroll_within_viewport(self@, width as nat);
        }
        let column = width_of_prefix(widths.as_slice(), self.cursor);
        let target = if column > width { column - width } else { 0 };
        scroll_to(widths.as_slice(), target).1
    }

    /// The widths of the characters of the text. They add up to a `usize`,
    /// because they add up to no more than the text has bytes.
    fn measured(&self) -> (widths: Vec<usize>)
        ensures
            widths@ == cell_widths(self@.content),
            prefix_width(widths@, widths.len() as int) == total(widths@),
            total(widths@) <= usize::MAX,
    {
        let text = self.value.as_str();
        let chars = to_chars(text);
        let widths = measure(chars.as_slice());
        assert(widths@.take(widths.len() as int) =~= widths@);
        widths
    }

    /// Moves the cursor to `pos` and reports whether that changed anything.
    fn move_cursor(&mut self, pos: usize) -> (resp: InputResponse)
        requires
            pos <= old(self)@.content.len(),
        ensures
            final(self)@ == old(self)@.with_cursor(pos as nat),
            resp == if pos == old(self)@.cursor {
                None
            } else {
                Some(StateChanged { value: false, cursor: true })
            },
    {
        if self.cursor == pos {
            None
        } else {
            self.cursor = pos;
            Some(StateChanged { value: false, cursor: true })
        }
    }

    /// Replaces the text by `chars` and puts the cursor at `cursor`.
    fn replace(&mut self, chars: &Vec<char>, cursor: usize)
        requires
            cursor <= chars.len(),
        ensures
            final(self)@ == (InputState { content: chars@, cursor: cursor as nat }),
    {
        *self = Input { value: from_chars(chars), cursor };
    }

    /// The current value as an owned string.
    pub fn to_string(&self) -> (text: String)
        ensures
            text@ == self@.content,
    {
        self.value.clone()
    }

    /// Get a reference to the current value.
    pub fn value(&self) -> (value: &str)
        ensures
            value@ == self@.content,
    {
        self.value.as_str()
    }

    /// Get the current cursor placement.
    pub fn cursor(&self) -> (cursor: usize)
        ensures
            cursor == self@.cursor,
            self@.valid(),
    {
        proof {
            use_type_invariant(self);
        }
        self.cursor
    }
}

} // verus!
