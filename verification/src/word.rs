//! Word boundaries.
//!
//! A word is a maximal run of alphanumeric characters; every other character
//! is a separator. The scans in this module work on a *word mask*: one flag
//! per character, `true` where the character belongs to a word. Working on the
//! mask keeps the boundary arithmetic independent of how characters are
//! classified.

use vstd::prelude::*;

verus! {

/// Whether `c` counts as part of a word: the value of `char::is_alphanumeric`
/// on `c`, that is, whether `c` is a letter or a digit of any script.
pub uninterp spec fn is_alphanumeric(c: char) -> bool;

/// Classifies one character.
///
/// Trusted: calls `char::is_alphanumeric`, a function of the character
/// alone. The contract claims only that the result is the value that
/// [`is_alphanumeric`] names.
#[verifier::external_body]
pub(crate) fn char_is_alphanumeric(c: char) -> (b: bool)
    ensures
        b == is_alphanumeric(c),
{
    c.is_alphanumeric()
}

/// The word mask of a character sequence: flag `i` says whether character `i`
/// is alphanumeric.
pub open spec fn word_mask(content: Seq<char>) -> Seq<bool> {
    Seq::new(content.len(), |i: int| is_alphanumeric(content[i]))
}

/// The start of the run of flags equal to `kind` that ends just before `end`:
/// the least `start <= end` such that every flag in `start..end` equals `kind`.
pub open spec fn run_start(mask: Seq<bool>, end: int, kind: bool) -> int
    decreases end,
{
    if 0 < end <= mask.len() && mask[end - 1] == kind {
        run_start(mask, end - 1, kind)
    } else {
        end
    }
}

/// The end of the run of flags equal to `kind` that begins at `start`: the
/// greatest `end >= start` such that every flag in `start..end` equals `kind`.
pub open spec fn run_end(mask: Seq<bool>, start: int, kind: bool) -> int
    decreases mask.len() - start,
{
    if 0 <= start < mask.len() && mask[start] == kind {
        run_end(mask, start + 1, kind)
    } else {
        start
    }
}

/// Where a backward word motion from `cursor` lands: separators just before
/// the cursor are skipped, then the word before them; the result is the index
/// of that word's first character, or 0 when the scan reaches the start.
pub open spec fn prev_word_start(mask: Seq<bool>, cursor: int) -> int {
    run_start(mask, run_start(mask, cursor, false), true)
}

/// Where a forward word motion from `cursor` lands: the rest of the word under
/// the cursor is skipped, then the separators after it; the result is the
/// index of the next word's first character, or the length when there is no
/// further word.
pub open spec fn next_word_start(mask: Seq<bool>, cursor: int) -> int {
    run_end(mask, run_end(mask, cursor, true), false)
}

/// `run_start` yields the boundary of a maximal run: everything from the
/// result up to `end` has the given kind, and the run cannot be extended to
/// the left.
pub proof fn lemma_run_start(mask: Seq<bool>, end: int, kind: bool)
    requires
        0 <= end <= mask.len(),
    ensures
        0 <= run_start(mask, end, kind) <= end,
        forall|i: int| run_start(mask, end, kind) <= i < end ==> mask[i] == kind,
        run_start(mask, end, kind) == 0 || mask[run_start(mask, end, kind) - 1] != kind,
    decreases end,
{
    if 0 < end && mask[end - 1] == kind {
        lemma_run_start(mask, end - 1, kind);
    }
}

/// `run_end` yields the boundary of a maximal run: everything from `start` up
/// to the result has the given kind, and the run cannot be extended to the
/// right.
pub proof fn lemma_run_end(mask: Seq<bool>, start: int, kind: bool)
    requires
        0 <= start <= mask.len(),
    ensures
        start <= run_end(mask, start, kind) <= mask.len(),
        forall|i: int| start <= i < run_end(mask, start, kind) ==> mask[i] == kind,
        run_end(mask, start, kind) == mask.len() || mask[run_end(mask, start, kind)] != kind,
    decreases mask.len() - start,
{
    if start < mask.len() && mask[start] == kind {
        lemma_run_end(mask, start + 1, kind);
    }
}

/// A backward word motion stays inside the text and, from any position but
/// the start, moves strictly to the left.
pub proof fn lemma_prev_word_start_bounds(mask: Seq<bool>, cursor: int)
    requires
        0 <= cursor <= mask.len(),
    ensures
        0 <= prev_word_start(mask, cursor) <= cursor,
        cursor > 0 ==> prev_word_start(mask, cursor) < cursor,
{
    let mid = run_start(mask, cursor, false);
    lemma_run_start(mask, cursor, false);
    lemma_run_start(mask, mid, true);
}

/// A forward word motion stays inside the text and, from any position but the
/// end, moves strictly to the right.
pub proof fn lemma_next_word_start_bounds(mask: Seq<bool>, cursor: int)
    requires
        0 <= cursor <= mask.len(),
    ensures
        cursor <= next_word_start(mask, cursor) <= mask.len(),
        cursor < mask.len() ==> cursor < next_word_start(mask, cursor),
{
    let mid = run_end(mask, cursor, true);
    lemma_run_end(mask, cursor, true);
    lemma_run_end(mask, mid, false);
}

/// Computes the word mask of `chars`.
pub fn classify(chars: &[char]) -> (mask: Vec<bool>)
    ensures
        mask@ == word_mask(chars@),
{
    let mut mask: Vec<bool> = Vec::new();
    let mut i: usize = 0;
    while i < chars.len()
        invariant
            i <= chars.len(),
            mask.len() == i,
            forall|j: int| 0 <= j < i ==> mask[j] == is_alphanumeric(chars[j]),
        decreases chars.len() - i,
    {
        mask.push(char_is_alphanumeric(chars[i]));
        i += 1;
    }
    mask
}

/// Scans left from `end` over flags equal to `kind`.
fn scan_back(mask: &[bool], end: usize, kind: bool) -> (start: usize)
    requires
        end <= mask.len(),
    ensures
        start == run_start(mask@, end as int, kind),
{
    let mut start: usize = end;
    while start > 0 && mask[start - 1] == kind
        invariant
            start <= end <= mask.len(),
            run_start(mask@, start as int, kind) == run_start(mask@, end as int, kind),
        decreases start,
    {
        start -= 1;
    }
    start
}

/// Scans right from `start` over flags equal to `kind`.
fn scan_forward(mask: &[bool], start: usize, kind: bool) -> (end: usize)
    requires
        start <= mask.len(),
    ensures
        end == run_end(mask@, start as int, kind),
{
    let mut end: usize = start;
    while end < mask.len() && mask[end] == kind
        invariant
            start <= end <= mask.len(),
            run_end(mask@, end as int, kind) == run_end(mask@, start as int, kind),
        decreases mask.len() - end,
    {
        end += 1;
    }
    end
}

/// The index a backward word motion reaches from `cursor`, on the given mask.
pub fn find_prev_word_start(mask: &[bool], cursor: usize) -> (start: usize)
    requires
        cursor <= mask.len(),
    ensures
        start == prev_word_start(mask@, cursor as int),
        start <= cursor,
{
    proof {
        lemma_run_start(mask@, cursor as int, false);
        lemma_prev_word_start_bounds(mask@, cursor as int);
    }
    let mid = scan_back(mask, cursor, false);
    scan_back(mask, mid, true)
}

/// The index a forward word motion reaches from `cursor`, on the given mask.
pub fn find_next_word_start(mask: &[bool], cursor: usize) -> (end: usize)
    requires
        cursor <= mask.len(),
    ensures
        end == next_word_start(mask@, cursor as int),
        cursor <= end <= mask.len(),
{
    proof {
        lemma_run_end(mask@, cursor as int, true);
        lemma_next_word_start_bounds(mask@, cursor as int);
    }
    let mid = scan_forward(mask, cursor, true);
    scan_forward(mask, mid, false)
}

} // verus!
