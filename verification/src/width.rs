//! Display widths.
//!
//! A character occupies zero, one or more terminal cells. This module measures
//! characters, sums the widths of a prefix of the text, and finds the scroll
//! offset that keeps a given column inside a viewport. The arithmetic works on
//! a sequence of per-character widths, so that it can be stated and checked
//! without reference to any particular width table.

use vstd::prelude::*;
use vstd::utf8::{encode_scalar, encode_utf8};

verus! {

/// The width that `unicode_width::UnicodeWidthChar::width` reports for `c`:
/// the number of columns the character occupies, or `None` for a control
/// character.
pub uninterp spec fn char_width(c: char) -> Option<usize>;

/// Measures one character.
///
/// Trusted: calls `unicode_width::UnicodeWidthChar::width`, a table lookup
/// that depends on the character alone. Beyond naming the result, the contract
/// claims three facts that the lookup code shows directly: below U+00A0 a
/// character is either a control character or one column wide; no width
/// exceeds 3; and width 3 is reported for U+17D8 only.
#[verifier::external_body]
pub(crate) fn unicode_char_width(c: char) -> (w: Option<usize>)
    ensures
        w == char_width(c),
        (c as u32) < 0xA0 ==> w == None::<usize> || w == Some(1usize),
        w matches Some(n) ==> n <= 3,
        w == Some(3usize) ==> c as u32 == 0x17D8,
{
    unicode_width::UnicodeWidthChar::width(c)
}

/// The number of columns that `c` occupies on screen; control characters
/// occupy none.
pub open spec fn columns(c: char) -> usize {
    match char_width(c) {
        Some(n) => n,
        None => 0,
    }
}

/// The widths of the characters of `content`, in order.
pub open spec fn cell_widths(content: Seq<char>) -> Seq<usize> {
    Seq::new(content.len(), |i: int| columns(content[i]))
}

/// The sum of a sequence of widths.
pub open spec fn total(widths: Seq<usize>) -> nat
    decreases widths.len(),
{
    if widths.len() == 0 {
        0
    } else {
        total(widths.drop_last()) + widths.last() as nat
    }
}

/// The width of the first `n` items.
pub open spec fn prefix_width(widths: Seq<usize>, n: int) -> nat {
    total(widths.take(n))
}

/// The number of items a scroll walk consumes when it starts with `from`
/// items already consumed: it goes on while items remain and the width
/// consumed so far is below `target`.
pub open spec fn scroll_stop(widths: Seq<usize>, from: int, target: int) -> int
    decreases widths.len() - from,
{
    if 0 <= from < widths.len() && prefix_width(widths, from) < target {
        scroll_stop(widths, from + 1, target)
    } else {
        from
    }
}

/// The scroll offset for `target`: the least prefix width that is at least
/// `target`, or the whole width when no prefix reaches it. The offset always
/// falls between two items, never inside one.
pub open spec fn scroll_offset(widths: Seq<usize>, target: int) -> nat {
    prefix_width(widths, scroll_stop(widths, 0, target))
}

/// The number of items taken when a fill starts with `from` items already
/// taken: it goes on while items remain and the width up to and including the
/// next item stays within `limit`.
pub open spec fn fill_stop(widths: Seq<usize>, from: int, limit: int) -> int
    decreases widths.len() - from,
{
    if 0 <= from < widths.len() && prefix_width(widths, from + 1) <= limit {
        fill_stop(widths, from + 1, limit)
    } else {
        from
    }
}

/// Extending a prefix by one item adds that item's width.
pub proof fn lemma_prefix_width_step(widths: Seq<usize>, n: int)
    requires
        0 <= n < widths.len(),
    ensures
        prefix_width(widths, n + 1) == prefix_width(widths, n) + widths[n],
{
    assert(widths.take(n + 1).drop_last() =~= widths.take(n));
}

/// Prefix widths grow with the prefix.
pub proof fn lemma_prefix_width_monotonic(widths: Seq<usize>, m: int, n: int)
    requires
        0 <= m <= n <= widths.len(),
    ensures
        prefix_width(widths, m) <= prefix_width(widths, n),
    decreases n - m,
{
    if m < n {
        lemma_prefix_width_monotonic(widths, m, n - 1);
        lemma_prefix_width_step(widths, n - 1);
    }
}

/// What the scroll walk finds: every shorter prefix is narrower than
/// `target`, and the prefix it stops at reaches `target` unless the items ran
/// out first.
pub proof fn lemma_scroll_stop(widths: Seq<usize>, from: int, target: int)
    requires
        0 <= from <= widths.len(),
        forall|j: int| 0 <= j < from ==> prefix_width(widths, j) < target,
    ensures
        from <= scroll_stop(widths, from, target) <= widths.len(),
        forall|j: int|
            0 <= j < scroll_stop(widths, from, target) ==> prefix_width(widths, j) < target,
        scroll_stop(widths, from, target) == widths.len() || prefix_width(
            widths,
            scroll_stop(widths, from, target),
        ) >= target,
    decreases widths.len() - from,
{
    if from < widths.len() && prefix_width(widths, from) < target {
        lemma_scroll_stop(widths, from + 1, target);
    }
}

/// What a fill takes: it never goes back, what it has taken stays within
/// `limit` if what it started with did, and the next item, if there is one,
/// would go beyond `limit`.
pub proof fn lemma_fill_stop(widths: Seq<usize>, from: int, limit: int)
    requires
        0 <= from <= widths.len(),
    ensures
        from <= fill_stop(widths, from, limit) <= widths.len(),
        prefix_width(widths, from) <= limit ==> prefix_width(
            widths,
            fill_stop(widths, from, limit),
        ) <= limit,
        fill_stop(widths, from, limit) == widths.len() || prefix_width(
            widths,
            fill_stop(widths, from, limit) + 1,
        ) > limit,
    decreases widths.len() - from,
{
    if from < widths.len() && prefix_width(widths, from + 1) <= limit {
        lemma_fill_stop(widths, from + 1, limit);
    }
}

/// The sum of two sequences put together is the sum of their sums.
pub proof fn lemma_total_concat(a: Seq<usize>, b: Seq<usize>)
    ensures
        total(a + b) == total(a) + total(b),
    decreases b.len(),
{
    if b.len() == 0 {
        assert(a + b =~= a);
    } else {
        lemma_total_concat(a, b.drop_last());
        assert((a + b).drop_last() =~= a + b.drop_last());
    }
}

/// The items from `from` up to `to` are as wide as the prefix up to `to` is
/// wider than the prefix up to `from`.
pub proof fn lemma_total_subrange(widths: Seq<usize>, from: int, to: int)
    requires
        0 <= from <= to <= widths.len(),
    ensures
        total(widths.subrange(from, to)) == prefix_width(widths, to) - prefix_width(widths, from),
{
    lemma_total_concat(widths.take(from), widths.subrange(from, to));
    assert(widths.take(from) + widths.subrange(from, to) =~= widths.take(to));
}

/// Items of at most one column each are together no wider than they are
/// many; items of exactly one column each are exactly as wide.
pub proof fn lemma_total_of_narrow(widths: Seq<usize>)
    requires
        forall|i: int| 0 <= i < widths.len() ==> widths[i] <= 1,
    ensures
        total(widths) <= widths.len(),
        (forall|i: int| 0 <= i < widths.len() ==> widths[i] == 1) ==> total(widths)
            == widths.len(),
    decreases widths.len(),
{
    if widths.len() > 0 {
        lemma_total_of_narrow(widths.drop_last());
    }
}

/// The number of bytes in the UTF-8 encoding of `chars`, summed character by
/// character from the left.
spec fn encoded_len(chars: Seq<char>) -> nat
    decreases chars.len(),
{
    if chars.len() == 0 {
        0
    } else {
        encoded_len(chars.drop_last()) + encode_scalar(chars.last() as u32).len()
    }
}

/// Summed from the left or from the right, the encoded length is the same:
/// [`encoded_len`] is the length of the UTF-8 encoding.
proof fn lemma_encoded_len(chars: Seq<char>)
    ensures
        encoded_len(chars) == encode_utf8(chars).len(),
    decreases chars.len(),
{
    if chars.len() == 0 {
    } else if chars.len() == 1 {
        assert(chars.drop_last().len() == 0);
        assert(chars.drop_first().len() == 0);
        assert(encode_utf8(chars.drop_first()).len() == 0);
        assert(encoded_len(chars.drop_last()) == 0);
    } else {
        let rest = chars.drop_first();
        lemma_encoded_len(rest);
        lemma_encoded_len(rest.drop_last());
        lemma_encoded_len(chars.drop_last());
        assert(chars.drop_last().drop_first() =~= rest.drop_last());
        assert(chars.drop_last()[0] == chars[0]);
        assert(rest.last() == chars.last());
    }
}

/// Measures one character. A character is never wider than it has bytes in
/// UTF-8.
pub fn measure_char(c: char) -> (width: usize)
    ensures
        width == columns(c),
        width <= encode_scalar(c as u32).len(),
{
    match unicode_char_width(c) {
        Some(n) => n,
        None => 0,
    }
}

/// Measures every character of `chars`. The widths never add up to more than
/// the number of bytes that the text occupies in UTF-8.
pub fn measure(chars: &[char]) -> (widths: Vec<usize>)
    ensures
        widths@ == cell_widths(chars@),
        total(widths@) <= encode_utf8(chars@).len(),
{
    let mut widths: Vec<usize> = Vec::new();
    let mut i: usize = 0;
    while i < chars.len()
        invariant
            i <= chars.len(),
            widths.len() == i,
            forall|j: int| 0 <= j < i ==> widths[j] == columns(chars[j]),
            total(widths@) <= encoded_len(chars@.take(i as int)),
        decreases chars.len() - i,
    {
        let c = chars[i];
        let w = measure_char(c);
        proof {
            assert(widths@.push(w).drop_last() =~= widths@);
            assert(chars@.take(i + 1).drop_last() =~= chars@.take(i as int));
            assert(chars@.take(i + 1).last() == c);
        }
        widths.push(w);
        i += 1;
    }
    proof {
        assert(chars@.take(chars.len() as int) =~= chars@);
        lemma_encoded_len(chars@);
    }
    widths
}

/// The width of the first `n` items of `widths`.
pub fn width_of_prefix(widths: &[usize], n: usize) -> (width: usize)
    requires
        n <= widths.len(),
        prefix_width(widths@, n as int) <= usize::MAX,
    ensures
        width == prefix_width(widths@, n as int),
{
    let mut width: usize = 0;
    let mut i: usize = 0;
    while i < n
        invariant
            i <= n <= widths.len(),
            width == prefix_width(widths@, i as int),
            prefix_width(widths@, n as int) <= usize::MAX,
        decreases n - i,
    {
        proof {
            lemma_prefix_width_step(widths@, i as int);
            lemma_prefix_width_monotonic(widths@, i + 1, n as int);
        }
        width += widths[i];
        i += 1;
    }
    width
}

/// Walks `widths` from the start, adding up widths until the sum reaches
/// `target` or the items run out. Returns the number of items passed and the
/// sum of their widths, which is the scroll offset.
pub fn scroll_to(widths: &[usize], target: usize) -> (walk: (usize, usize))
    requires
        total(widths@) <= usize::MAX,
    ensures
        walk.0 == scroll_stop(widths@, 0, target as int),
        walk.1 == scroll_offset(widths@, target as int),
{
    let mut offset: usize = 0;
    let mut i: usize = 0;
    while i < widths.len() && offset < target
        invariant
            i <= widths.len(),
            offset == prefix_width(widths@, i as int),
            scroll_stop(widths@, i as int, target as int) == scroll_stop(widths@, 0, target as int),
            total(widths@) <= usize::MAX,
        decreases widths.len() - i,
    {
        proof {
            lemma_prefix_width_step(widths@, i as int);
            lemma_prefix_width_monotonic(widths@, i + 1, widths.len() as int);
            assert(widths@.take(widths.len() as int) =~= widths@);
        }
        offset += widths[i];
        i += 1;
    }
    (i, offset)
}

} // verus!
