//! The grammar, stated over `Seq<char>`.
//!
//! Every recognizer is a spec function from the whole input and a cursor
//! position to either `Some((payload, new position))` or `None`; a failing
//! recognizer consumes nothing.  The executable parser is proved to return
//! exactly what these functions say.
//!
//! Recognizers are tried in a fixed priority order.  For inline nodes the
//! order is italic, bold, bold-italic, inline code, image, link, plaintext:
//! because a delimited payload must be non-empty and free of the delimiter
//! character, the single-character recognizer fails immediately on a double
//! or triple delimiter run and control falls through, which is what
//! disambiguates `*x*`, `**x**` and `***x***` without lookahead.

use vstd::prelude::*;

use crate::types::{clamped_level, BlockView, InlineView};

verus! {

/// True when position `p` is in bounds and holds the character `c`.
pub open spec fn char_at(s: Seq<char>, p: int, c: char) -> bool {
    0 <= p < s.len() && s[p] == c
}

/// Length of the maximal run of copies of `c` starting at `pos`.
pub open spec fn run_eq(s: Seq<char>, pos: int, c: char) -> int
    decreases s.len() - pos,
{
    if char_at(s, pos, c) {
        1 + run_eq(s, pos + 1, c)
    } else {
        0
    }
}

/// Length of the maximal run of characters other than `c` starting at `pos`.
pub open spec fn run_neq(s: Seq<char>, pos: int, c: char) -> int
    decreases s.len() - pos,
{
    if 0 <= pos < s.len() && s[pos] != c {
        1 + run_neq(s, pos + 1, c)
    } else {
        0
    }
}

/// True when the character at `p` is a decimal digit.
pub open spec fn digit_at(s: Seq<char>, p: int) -> bool {
    0 <= p < s.len() && '0' <= s[p] && s[p] <= '9'
}

/// Length of the maximal run of decimal digits starting at `pos`.
pub open spec fn run_digits(s: Seq<char>, pos: int) -> int
    decreases s.len() - pos,
{
    if digit_at(s, pos) {
        1 + run_digits(s, pos + 1)
    } else {
        0
    }
}

/// True when a plaintext run may continue at position `p`: the position is
/// in bounds and none of the inline patterns `*`, `` ` ``, `[`, `![` or a
/// line terminator starts there.
pub open spec fn plain_at(s: Seq<char>, p: int) -> bool {
    &&& 0 <= p < s.len()
    &&& s[p] != '*'
    &&& s[p] != '`'
    &&& s[p] != '['
    &&& s[p] != '\n'
    &&& !(s[p] == '!' && char_at(s, p + 1, '['))
}

/// Length of the maximal plaintext run starting at `pos`.
pub open spec fn run_plain(s: Seq<char>, pos: int) -> int
    decreases s.len() - pos,
{
    if plain_at(s, pos) {
        1 + run_plain(s, pos + 1)
    } else {
        0
    }
}

/// A payload between two runs of the delimiter `c` repeated `k` times:
/// `k` copies of `c`, then a non-empty maximal run of characters other than
/// `c`, then `k` copies of `c` again.  Returns the payload and the position
/// past the closing delimiter.
pub open spec fn spec_delimited(s: Seq<char>, pos: int, c: char, k: int) -> Option<
    (Seq<char>, int),
> {
    let n = run_neq(s, pos + k, c);
    if run_eq(s, pos, c) >= k && n >= 1 && run_eq(s, pos + k + n, c) >= k {
        Some((s.subrange(pos + k, pos + k + n), pos + k + n + k))
    } else {
        None
    }
}

/// A payload between an opening and a closing character: `open`, then a
/// non-empty maximal run of characters other than `close`, then `close`.
pub open spec fn spec_enclosed(s: Seq<char>, pos: int, open: char, close: char) -> Option<
    (Seq<char>, int),
> {
    let n = run_neq(s, pos + 1, close);
    if char_at(s, pos, open) && n >= 1 && char_at(s, pos + 1 + n, close) {
        Some((s.subrange(pos + 1, pos + 1 + n), pos + 1 + n + 1))
    } else {
        None
    }
}

/// Italic: `*...*` or `_..._`, tried in that order.
pub open spec fn spec_italic(s: Seq<char>, pos: int) -> Option<(Seq<char>, int)> {
    if spec_delimited(s, pos, '*', 1) is Some {
        spec_delimited(s, pos, '*', 1)
    } else {
        spec_delimited(s, pos, '_', 1)
    }
}

/// Bold: `**...**` or `__...__`, tried in that order.
pub open spec fn spec_bold(s: Seq<char>, pos: int) -> Option<(Seq<char>, int)> {
    if spec_delimited(s, pos, '*', 2) is Some {
        spec_delimited(s, pos, '*', 2)
    } else {
        spec_delimited(s, pos, '_', 2)
    }
}

/// Bold-italic: `***...***` or `___...___`, tried in that order.
pub open spec fn spec_bold_italic(s: Seq<char>, pos: int) -> Option<(Seq<char>, int)> {
    if spec_delimited(s, pos, '*', 3) is Some {
        spec_delimited(s, pos, '*', 3)
    } else {
        spec_delimited(s, pos, '_', 3)
    }
}

/// Inline code: a payload between single backticks.
pub open spec fn spec_inline_code(s: Seq<char>, pos: int) -> Option<(Seq<char>, int)> {
    spec_delimited(s, pos, '`', 1)
}

/// Link: `[label](target)`.  Returns `((label, target), new position)`.
pub open spec fn spec_link(s: Seq<char>, pos: int) -> Option<((Seq<char>, Seq<char>), int)> {
    match spec_enclosed(s, pos, '[', ']') {
        Some((label, p1)) => match spec_enclosed(s, p1, '(', ')') {
            Some((target, p2)) => Some(((label, target), p2)),
            None => None,
        },
        None => None,
    }
}

/// Image: `![alt](target)`.  Returns `((alt, target), new position)`.
pub open spec fn spec_image(s: Seq<char>, pos: int) -> Option<((Seq<char>, Seq<char>), int)> {
    if char_at(s, pos, '!') {
        match spec_link(s, pos + 1) {
            Some((pair, p)) => Some((pair, p)),
            None => None,
        }
    } else {
        None
    }
}

/// Plaintext: the non-empty maximal run of characters at which no other
/// inline pattern starts.
pub open spec fn spec_plaintext(s: Seq<char>, pos: int) -> Option<(Seq<char>, int)> {
    let n = run_plain(s, pos);
    if n >= 1 {
        Some((s.subrange(pos, pos + n), pos + n))
    } else {
        None
    }
}

/// One inline node, by the fixed priority order.
pub open spec fn spec_inline(s: Seq<char>, pos: int) -> Option<(InlineView, int)> {
    if spec_italic(s, pos) is Some {
        let (t, p) = spec_italic(s, pos)->Some_0;
        Some((InlineView::Italic(t), p))
    } else if spec_bold(s, pos) is Some {
        let (t, p) = spec_bold(s, pos)->Some_0;
        Some((InlineView::Bold(t), p))
    } else if spec_bold_italic(s, pos) is Some {
        let (t, p) = spec_bold_italic(s, pos)->Some_0;
        Some((InlineView::BoldItalic(t), p))
    } else if spec_inline_code(s, pos) is Some {
        let (t, p) = spec_inline_code(s, pos)->Some_0;
        Some((InlineView::InlineCode(t), p))
    } else if spec_image(s, pos) is Some {
        let ((alt, target), p) = spec_image(s, pos)->Some_0;
        Some((InlineView::Image(alt, target), p))
    } else if spec_link(s, pos) is Some {
        let ((label, target), p) = spec_link(s, pos)->Some_0;
        Some((InlineView::Link(label, target), p))
    } else if spec_plaintext(s, pos) is Some {
        let (t, p) = spec_plaintext(s, pos)->Some_0;
        Some((InlineView::Plaintext(t), p))
    } else {
        None
    }
}

/// Zero or more inline nodes: nodes are collected while [`spec_inline`]
/// matches, and the pair of collected nodes and final position is returned.
/// This never fails; on immediate mismatch it returns the empty sequence.
pub open spec fn spec_inlines(s: Seq<char>, pos: int) -> (Seq<InlineView>, int)
    decreases s.len() - pos,
{
    match spec_inline(s, pos) {
        Some((node, p)) => if pos < p <= s.len() {
            let (rest, pend) = spec_inlines(s, p);
            (seq![node] + rest, pend)
        } else {
            // a successful recognizer always advances within bounds
            // (lemma_spec_inline_advances), so this branch is never taken
            (Seq::empty(), pos)
        },
        None => (Seq::empty(), pos),
    }
}

/// One logical line: zero or more inline nodes, then a line terminator.
pub open spec fn spec_text_until_eol(s: Seq<char>, pos: int) -> Option<(Seq<InlineView>, int)> {
    let (items, p) = spec_inlines(s, pos);
    if char_at(s, p, '\n') {
        Some((items, p + 1))
    } else {
        None
    }
}

/// Heading marker: one or more `#` characters followed by exactly one
/// space.  Returns the clamped heading depth and the position past the
/// space.
pub open spec fn spec_heading_tag(s: Seq<char>, pos: int) -> Option<(int, int)> {
    let n = run_eq(s, pos, '#');
    if n >= 1 && char_at(s, pos + n, ' ') {
        Some((clamped_level(n), pos + n + 1))
    } else {
        None
    }
}

/// Heading: a heading marker, then one logical line.
pub open spec fn spec_heading(s: Seq<char>, pos: int) -> Option<((int, Seq<InlineView>), int)> {
    match spec_heading_tag(s, pos) {
        Some((level, p1)) => match spec_text_until_eol(s, p1) {
            Some((text, p2)) => Some(((level, text), p2)),
            None => None,
        },
        None => None,
    }
}

/// Unordered list marker: a literal `-` followed by exactly one space.
pub open spec fn spec_unordered_list_tag(s: Seq<char>, pos: int) -> Option<int> {
    if char_at(s, pos, '-') && char_at(s, pos + 1, ' ') {
        Some(pos + 2)
    } else {
        None
    }
}

/// One unordered list item: the marker, then one logical line.
pub open spec fn spec_unordered_list_element(s: Seq<char>, pos: int) -> Option<
    (Seq<InlineView>, int),
> {
    match spec_unordered_list_tag(s, pos) {
        Some(p1) => spec_text_until_eol(s, p1),
        None => None,
    }
}

/// Zero or more unordered list items, collected while the item pattern
/// matches.
pub open spec fn spec_unordered_list_items(s: Seq<char>, pos: int) -> (Seq<Seq<InlineView>>, int)
    decreases s.len() - pos,
{
    match spec_unordered_list_element(s, pos) {
        Some((item, p)) => if pos < p <= s.len() {
            let (rest, pend) = spec_unordered_list_items(s, p);
            (seq![item] + rest, pend)
        } else {
            (Seq::empty(), pos)
        },
        None => (Seq::empty(), pos),
    }
}

/// Unordered list: one or more consecutive items.
pub open spec fn spec_unordered_list(s: Seq<char>, pos: int) -> Option<(Seq<Seq<InlineView>>, int)> {
    if spec_unordered_list_element(s, pos) is Some {
        Some(spec_unordered_list_items(s, pos))
    } else {
        None
    }
}

/// Ordered list marker: one or more decimal digits, then `.`, then exactly
/// one space.  Returns the digit run; its numeric value is discarded by the
/// list grammar — only the marker's presence matters.
pub open spec fn spec_ordered_list_tag(s: Seq<char>, pos: int) -> Option<(Seq<char>, int)> {
    let n = run_digits(s, pos);
    if n >= 1 && char_at(s, pos + n, '.') && char_at(s, pos + n + 1, ' ') {
        Some((s.subrange(pos, pos + n), pos + n + 2))
    } else {
        None
    }
}

/// One ordered list item: the marker, then one logical line.
pub open spec fn spec_ordered_list_element(s: Seq<char>, pos: int) -> Option<
    (Seq<InlineView>, int),
> {
    match spec_ordered_list_tag(s, pos) {
        Some((digits, p1)) => spec_text_until_eol(s, p1),
        None => None,
    }
}

/// Zero or more ordered list items, collected while the item pattern
/// matches.
pub open spec fn spec_ordered_list_items(s: Seq<char>, pos: int) -> (Seq<Seq<InlineView>>, int)
    decreases s.len() - pos,
{
    match spec_ordered_list_element(s, pos) {
        Some((item, p)) => if pos < p <= s.len() {
            let (rest, pend) = spec_ordered_list_items(s, p);
            (seq![item] + rest, pend)
        } else {
            (Seq::empty(), pos)
        },
        None => (Seq::empty(), pos),
    }
}

/// Ordered list: one or more consecutive items.
pub open spec fn spec_ordered_list(s: Seq<char>, pos: int) -> Option<(Seq<Seq<InlineView>>, int)> {
    if spec_ordered_list_element(s, pos) is Some {
        Some(spec_ordered_list_items(s, pos))
    } else {
        None
    }
}

/// The language tag used for a fence with no trailing tag text.
pub open spec fn unknown_language() -> Seq<char> {
    "__UNKNOWN_LANGUAGE__"@
}

/// Opening fence with optional language tag: three backticks, then either a
/// plaintext-like run (the tag) or nothing (the sentinel tag).
pub open spec fn spec_code_block_lang(s: Seq<char>, pos: int) -> Option<(Seq<char>, int)> {
    if run_eq(s, pos, '`') >= 3 {
        match spec_plaintext(s, pos + 3) {
            Some((lang, p)) => Some((lang, p)),
            None => Some((unknown_language(), pos + 3)),
        }
    } else {
        None
    }
}

/// Codeblock body: a line terminator, then a non-empty maximal run of
/// characters other than a backtick, then the closing fence.  The closing
/// fence is consumed; a line terminator after it is not.
pub open spec fn spec_code_block_body(s: Seq<char>, pos: int) -> Option<(Seq<char>, int)> {
    let n = run_neq(s, pos + 1, '`');
    if char_at(s, pos, '\n') && n >= 1 && run_eq(s, pos + 1 + n, '`') >= 3 {
        Some((s.subrange(pos + 1, pos + 1 + n), pos + 1 + n + 3))
    } else {
        None
    }
}

/// Codeblock: the fence with its optional tag, then the body.
pub open spec fn spec_code_block(s: Seq<char>, pos: int) -> Option<((Seq<char>, Seq<char>), int)> {
    match spec_code_block_lang(s, pos) {
        Some((lang, p1)) => match spec_code_block_body(s, p1) {
            Some((body, p2)) => Some(((lang, body), p2)),
            None => None,
        },
        None => None,
    }
}

/// One block node, by the fixed priority order: heading, unordered list,
/// ordered list, codeblock, plain line.
pub open spec fn spec_block(s: Seq<char>, pos: int) -> Option<(BlockView, int)> {
    if spec_heading(s, pos) is Some {
        let ((level, text), p) = spec_heading(s, pos)->Some_0;
        Some((BlockView::Heading(level, text), p))
    } else if spec_unordered_list(s, pos) is Some {
        let (items, p) = spec_unordered_list(s, pos)->Some_0;
        Some((BlockView::UnorderedList(items), p))
    } else if spec_ordered_list(s, pos) is Some {
        let (items, p) = spec_ordered_list(s, pos)->Some_0;
        Some((BlockView::OrderedList(items), p))
    } else if spec_code_block(s, pos) is Some {
        let ((lang, body), p) = spec_code_block(s, pos)->Some_0;
        Some((BlockView::Codeblock(lang, body), p))
    } else if spec_text_until_eol(s, pos) is Some {
        let (text, p) = spec_text_until_eol(s, pos)->Some_0;
        Some((BlockView::Line(text), p))
    } else {
        None
    }
}

/// The document grammar: zero or more blocks, collected while the block
/// grammar matches.  This never fails; it returns the blocks parsed and the
/// position of the first input it could not consume.  An empty document
/// yields zero blocks.
pub open spec fn spec_document(s: Seq<char>, pos: int) -> (Seq<BlockView>, int)
    decreases s.len() - pos,
{
    match spec_block(s, pos) {
        Some((block, p)) => if pos < p <= s.len() {
            let (rest, pend) = spec_document(s, p);
            (seq![block] + rest, pend)
        } else {
            (Seq::empty(), pos)
        },
        None => (Seq::empty(), pos),
    }
}

// ---------------------------------------------------------------------------
// Bounds: a successful recognizer lands inside the input and consumes at
// least one character, so repetition terminates and positions fit in usize.
// ---------------------------------------------------------------------------

/// A maximal equal-run starting inside the input ends inside the input.
pub proof fn lemma_run_eq_bounds(s: Seq<char>, pos: int, c: char)
    requires
        0 <= pos <= s.len(),
    ensures
        0 <= run_eq(s, pos, c),
        pos + run_eq(s, pos, c) <= s.len(),
    decreases s.len() - pos,
{
    if char_at(s, pos, c) {
        lemma_run_eq_bounds(s, pos + 1, c);
    }
}

/// A maximal unequal-run starting inside the input ends inside the input.
pub proof fn lemma_run_neq_bounds(s: Seq<char>, pos: int, c: char)
    requires
        0 <= pos <= s.len(),
    ensures
        0 <= run_neq(s, pos, c),
        pos + run_neq(s, pos, c) <= s.len(),
    decreases s.len() - pos,
{
    if 0 <= pos < s.len() && s[pos] != c {
        lemma_run_neq_bounds(s, pos + 1, c);
    }
}

/// A maximal digit run starting inside the input ends inside the input.
pub proof fn lemma_run_digits_bounds(s: Seq<char>, pos: int)
    requires
        0 <= pos <= s.len(),
    ensures
        0 <= run_digits(s, pos),
        pos + run_digits(s, pos) <= s.len(),
    decreases s.len() - pos,
{
    if digit_at(s, pos) {
        lemma_run_digits_bounds(s, pos + 1);
    }
}

/// A maximal plaintext run starting inside the input ends inside the input.
pub proof fn lemma_run_plain_bounds(s: Seq<char>, pos: int)
    requires
        0 <= pos <= s.len(),
    ensures
        0 <= run_plain(s, pos),
        pos + run_plain(s, pos) <= s.len(),
    decreases s.len() - pos,
{
    if plain_at(s, pos) {
        lemma_run_plain_bounds(s, pos + 1);
    }
}

/// A successful delimited match starts in bounds, advances, and lands in
/// bounds.
pub proof fn lemma_spec_delimited_advances(s: Seq<char>, pos: int, c: char, k: int)
    requires
        k >= 1,
        spec_delimited(s, pos, c, k) is Some,
    ensures
        0 <= pos,
        pos < spec_delimited(s, pos, c, k)->Some_0.1 <= s.len(),
{
    assert(run_eq(s, pos, c) >= k);
    assert(char_at(s, pos, c));  // unfolds: a positive run starts in bounds
    lemma_run_eq_bounds(s, pos, c);
    let n = run_neq(s, pos + k, c);
    lemma_run_neq_bounds(s, pos + k, c);
    lemma_run_eq_bounds(s, pos + k + n, c);
}

/// A successful enclosed match starts in bounds, advances, and lands in
/// bounds.
pub proof fn lemma_spec_enclosed_advances(s: Seq<char>, pos: int, open: char, close: char)
    requires
        spec_enclosed(s, pos, open, close) is Some,
    ensures
        0 <= pos,
        pos < spec_enclosed(s, pos, open, close)->Some_0.1 <= s.len(),
{
}

/// A successful inline recognizer starts in bounds, advances, and lands in
/// bounds.
pub proof fn lemma_spec_inline_advances(s: Seq<char>, pos: int)
    requires
        spec_inline(s, pos) is Some,
    ensures
        0 <= pos,
        pos < spec_inline(s, pos)->Some_0.1 <= s.len(),
{
    if spec_italic(s, pos) is Some {
        if spec_delimited(s, pos, '*', 1) is Some {
            lemma_spec_delimited_advances(s, pos, '*', 1);
        } else {
            lemma_spec_delimited_advances(s, pos, '_', 1);
        }
    } else if spec_bold(s, pos) is Some {
        if spec_delimited(s, pos, '*', 2) is Some {
            lemma_spec_delimited_advances(s, pos, '*', 2);
        } else {
            lemma_spec_delimited_advances(s, pos, '_', 2);
        }
    } else if spec_bold_italic(s, pos) is Some {
        if spec_delimited(s, pos, '*', 3) is Some {
            lemma_spec_delimited_advances(s, pos, '*', 3);
        } else {
            lemma_spec_delimited_advances(s, pos, '_', 3);
        }
    } else if spec_inline_code(s, pos) is Some {
        lemma_spec_delimited_advances(s, pos, '`', 1);
    } else if spec_image(s, pos) is Some {
        let (_, p1) = spec_enclosed(s, pos + 1, '[', ']')->Some_0;
        lemma_spec_enclosed_advances(s, pos + 1, '[', ']');
        lemma_spec_enclosed_advances(s, p1, '(', ')');
    } else if spec_link(s, pos) is Some {
        let (_, p1) = spec_enclosed(s, pos, '[', ']')->Some_0;
        lemma_spec_enclosed_advances(s, pos, '[', ']');
        lemma_spec_enclosed_advances(s, p1, '(', ')');
    } else {
        lemma_run_plain_bounds(s, pos);
    }
}

/// The collected inline nodes end at a position where no further inline
/// node matches, between `pos` and the end of the input.
pub proof fn lemma_spec_inlines_bounds(s: Seq<char>, pos: int)
    requires
        0 <= pos <= s.len(),
    ensures
        pos <= spec_inlines(s, pos).1 <= s.len(),
        spec_inline(s, spec_inlines(s, pos).1) is None,
    decreases s.len() - pos,
{
    match spec_inline(s, pos) {
        Some((node, p)) => {
            lemma_spec_inline_advances(s, pos);
            lemma_spec_inlines_bounds(s, p);
        },
        None => {},
    }
}

/// A successful logical line starts in bounds, advances, and lands in
/// bounds.
pub proof fn lemma_spec_text_until_eol_advances(s: Seq<char>, pos: int)
    requires
        spec_text_until_eol(s, pos) is Some,
    ensures
        pos < spec_text_until_eol(s, pos)->Some_0.1 <= s.len(),
        0 <= pos ==> pos <= spec_inlines(s, pos).1,
{
    let (items, p) = spec_inlines(s, pos);
    if 0 <= pos <= s.len() {
        lemma_spec_inlines_bounds(s, pos);
    } else if pos > s.len() {
        assert(spec_inline(s, pos) is None);
        assert(p == pos);
        assert(!char_at(s, p, '\n'));
    } else {
        // pos < 0: the first inline fails, so p == pos and char_at fails
        assert(spec_inline(s, pos) is None);
    }
}

/// A successful unordered list item starts in bounds, advances, and lands
/// in bounds.
pub proof fn lemma_spec_unordered_list_element_advances(s: Seq<char>, pos: int)
    requires
        spec_unordered_list_element(s, pos) is Some,
    ensures
        0 <= pos,
        pos < spec_unordered_list_element(s, pos)->Some_0.1 <= s.len(),
{
    let p1 = spec_unordered_list_tag(s, pos)->Some_0;
    lemma_spec_text_until_eol_advances(s, p1);
}

/// A successful ordered list item starts in bounds, advances, and lands in
/// bounds.
pub proof fn lemma_spec_ordered_list_element_advances(s: Seq<char>, pos: int)
    requires
        spec_ordered_list_element(s, pos) is Some,
    ensures
        0 <= pos,
        pos < spec_ordered_list_element(s, pos)->Some_0.1 <= s.len(),
{
    let n = run_digits(s, pos);
    assert(digit_at(s, pos));  // unfolds: a positive digit run starts in bounds
    let p1 = spec_ordered_list_tag(s, pos)->Some_0.1;
    lemma_spec_text_until_eol_advances(s, p1);
}

/// The collected unordered list items end at a position where no further
/// item matches, between `pos` and the end of the input.
pub proof fn lemma_spec_unordered_list_items_bounds(s: Seq<char>, pos: int)
    requires
        0 <= pos <= s.len(),
    ensures
        pos <= spec_unordered_list_items(s, pos).1 <= s.len(),
        spec_unordered_list_element(s, spec_unordered_list_items(s, pos).1) is None,
    decreases s.len() - pos,
{
    match spec_unordered_list_element(s, pos) {
        Some((item, p)) => {
            lemma_spec_unordered_list_element_advances(s, pos);
            lemma_spec_unordered_list_items_bounds(s, p);
        },
        None => {},
    }
}

/// The collected ordered list items end at a position where no further item
/// matches, between `pos` and the end of the input.
pub proof fn lemma_spec_ordered_list_items_bounds(s: Seq<char>, pos: int)
    requires
        0 <= pos <= s.len(),
    ensures
        pos <= spec_ordered_list_items(s, pos).1 <= s.len(),
        spec_ordered_list_element(s, spec_ordered_list_items(s, pos).1) is None,
    decreases s.len() - pos,
{
    match spec_ordered_list_element(s, pos) {
        Some((item, p)) => {
            lemma_spec_ordered_list_element_advances(s, pos);
            lemma_spec_ordered_list_items_bounds(s, p);
        },
        None => {},
    }
}

/// A successful codeblock starts in bounds, advances, and lands in bounds.
pub proof fn lemma_spec_code_block_advances(s: Seq<char>, pos: int)
    requires
        spec_code_block(s, pos) is Some,
    ensures
        0 <= pos,
        pos < spec_code_block(s, pos)->Some_0.1 <= s.len(),
{
    assert(run_eq(s, pos, '`') >= 3);
    assert(char_at(s, pos, '`'));  // unfolds: a positive run starts in bounds
    lemma_run_eq_bounds(s, pos, '`');
    let (lang, p1) = spec_code_block_lang(s, pos)->Some_0;
    if spec_plaintext(s, pos + 3) is Some {
        lemma_run_plain_bounds(s, pos + 3);
    }
    let n = run_neq(s, p1 + 1, '`');
    lemma_run_neq_bounds(s, p1 + 1, '`');
    lemma_run_eq_bounds(s, p1 + 1 + n, '`');
}

/// A successful block recognizer starts in bounds, advances, and lands in
/// bounds.
pub proof fn lemma_spec_block_advances(s: Seq<char>, pos: int)
    requires
        spec_block(s, pos) is Some,
    ensures
        0 <= pos,
        pos < spec_block(s, pos)->Some_0.1 <= s.len(),
{
    if spec_heading(s, pos) is Some {
        let n = run_eq(s, pos, '#');
        assert(char_at(s, pos, '#'));  // unfolds: a positive run starts in bounds
        let (_, p1) = spec_heading_tag(s, pos)->Some_0;
        lemma_spec_text_until_eol_advances(s, p1);
    } else if spec_unordered_list(s, pos) is Some {
        lemma_spec_unordered_list_element_advances(s, pos);
        let p = spec_unordered_list_element(s, pos)->Some_0.1;
        lemma_spec_unordered_list_items_bounds(s, p);
    } else if spec_ordered_list(s, pos) is Some {
        lemma_spec_ordered_list_element_advances(s, pos);
        let p = spec_ordered_list_element(s, pos)->Some_0.1;
        lemma_spec_ordered_list_items_bounds(s, p);
    } else if spec_code_block(s, pos) is Some {
        lemma_spec_code_block_advances(s, pos);
    } else {
        lemma_spec_text_until_eol_advances(s, pos);
    }
}

/// The parsed document ends at a position where no block matches, between
/// `pos` and the end of the input.
pub proof fn lemma_spec_document_bounds(s: Seq<char>, pos: int)
    requires
        0 <= pos <= s.len(),
    ensures
        pos <= spec_document(s, pos).1 <= s.len(),
        spec_block(s, spec_document(s, pos).1) is None,
    decreases s.len() - pos,
{
    match spec_block(s, pos) {
        Some((block, p)) => {
            lemma_spec_block_advances(s, pos);
            lemma_spec_document_bounds(s, p);
        },
        None => {},
    }
}

} // verus!
