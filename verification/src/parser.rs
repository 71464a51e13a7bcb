//! The executable parser and the entry point.
//!
//! Each recognizer takes the whole input and a cursor position, counted in
//! characters, and returns `Some((payload, new position))` on a match and
//! `None` otherwise, consuming nothing on failure.  Every function is proved
//! to return exactly what the corresponding spec recognizer in
//! [`crate::grammar`] says.
//!
//! [`render_markdown`] is the single entry point: it parses, and either
//! translates the tree (when the whole input was consumed) or returns a
//! fixed fallback message.

use vstd::prelude::*;

use crate::grammar::{
    char_at, lemma_spec_block_advances, lemma_spec_inline_advances,
    lemma_spec_ordered_list_element_advances, lemma_spec_unordered_list_element_advances,
    plain_at, run_digits, run_eq, run_neq, run_plain, spec_block, spec_bold, spec_bold_italic,
    spec_code_block, spec_code_block_body, spec_code_block_lang, spec_delimited, spec_document,
    spec_enclosed, spec_heading, spec_heading_tag, spec_image, spec_inline, spec_inline_code,
    spec_inlines, spec_italic, spec_link, spec_ordered_list, spec_ordered_list_element,
    spec_ordered_list_items, spec_ordered_list_tag, spec_plaintext, spec_text_until_eol,
    spec_unordered_list, spec_unordered_list_element, spec_unordered_list_items,
    spec_unordered_list_tag,
};
use crate::translator::{html_of_doc, translate};
use crate::types::{
    level_of, view_blocks, view_lines, view_text, BlockView, HeadingLevel, InlineView, Markdown,
    MarkdownInline, MarkdownText,
};
use vstd::string::StrSliceExecFns;
use vstd::string::StringExecFns;

verus! {

/// The fixed message returned when a document fails to parse.
pub open spec fn fallback_message() -> Seq<char> {
    "Sorry, this did not seem to work! Maybe your markdown was not well formed, have you hit [Enter] after your last line?"@
}

/// True when position `p` of `s` is in bounds and holds the character `c`.
/// `len` must be the char length of `s`.
fn has_char_at(s: &str, len: usize, p: usize, c: char) -> (b: bool)
    requires
        len == s@.len(),
    ensures
        b == char_at(s@, p as int, c),
{
    p < len && s.get_char(p) == c
}

/// Counts the run of copies of `c` in `s` starting at `pos`.
fn count_run_eq(s: &str, len: usize, pos: usize, c: char) -> (n: usize)
    requires
        len == s@.len(),
        pos <= len,
    ensures
        n as int == run_eq(s@, pos as int, c),
        pos + n <= len,
{
    let mut i = pos;
    while i < len && s.get_char(i) == c
        invariant
            pos <= i <= len,
            len == s@.len(),
            run_eq(s@, pos as int, c) == i - pos + run_eq(s@, i as int, c),
        decreases len - i,
    {
        i = i + 1;
    }
    i - pos
}

/// Counts the run of characters other than `c` in `s` starting at `pos`.
fn count_run_neq(s: &str, len: usize, pos: usize, c: char) -> (n: usize)
    requires
        len == s@.len(),
        pos <= len,
    ensures
        n as int == run_neq(s@, pos as int, c),
        pos + n <= len,
{
    let mut i = pos;
    while i < len && s.get_char(i) != c
        invariant
            pos <= i <= len,
            len == s@.len(),
            run_neq(s@, pos as int, c) == i - pos + run_neq(s@, i as int, c),
        decreases len - i,
    {
        i = i + 1;
    }
    i - pos
}

/// Counts the run of decimal digits in `s` starting at `pos`.
fn count_run_digits(s: &str, len: usize, pos: usize) -> (n: usize)
    requires
        len == s@.len(),
        pos <= len,
    ensures
        n as int == run_digits(s@, pos as int),
        pos + n <= len,
{
    let mut i = pos;
    while i < len && '0' <= s.get_char(i) && s.get_char(i) <= '9'
        invariant
            pos <= i <= len,
            len == s@.len(),
            run_digits(s@, pos as int) == i - pos + run_digits(s@, i as int),
        decreases len - i,
    {
        i = i + 1;
    }
    i - pos
}

/// True when a plaintext run may continue at position `p` of `s`.
fn plain_char_at(s: &str, len: usize, p: usize) -> (b: bool)
    requires
        len == s@.len(),
    ensures
        b == plain_at(s@, p as int),
{
    if p >= len {
        return false;
    }
    let c = s.get_char(p);
    if c == '*' || c == '`' || c == '[' || c == '\n' {
        return false;
    }
    if c == '!' && p + 1 < len && s.get_char(p + 1) == '[' {
        return false;
    }
    true
}

/// Counts the maximal plaintext run in `s` starting at `pos`.
fn count_run_plain(s: &str, len: usize, pos: usize) -> (n: usize)
    requires
        len == s@.len(),
        pos <= len,
    ensures
        n as int == run_plain(s@, pos as int),
        pos + n <= len,
{
    let mut i = pos;
    while plain_char_at(s, len, i)
        invariant
            pos <= i <= len,
            len == s@.len(),
            run_plain(s@, pos as int) == i - pos + run_plain(s@, i as int),
        decreases len - i,
    {
        i = i + 1;
    }
    i - pos
}

/// Matches `k` copies of `c`, a non-empty run free of `c`, and `k` copies
/// of `c` again, returning the run between the delimiters.
fn parse_delimited(s: &str, pos: usize, c: char, k: usize) -> (r: Option<(String, usize)>)
    requires
        1 <= k,
    ensures
        match r {
            Some(v) => spec_delimited(s@, pos as int, c, k as int) == Some((v.0@, v.1 as int)),
            None => spec_delimited(s@, pos as int, c, k as int) is None,
        },
{
    let len = s.unicode_len();
    if pos > len {
        return None;
    }
    let r1 = count_run_eq(s, len, pos, c);
    if r1 < k {
        return None;
    }
    let n = count_run_neq(s, len, pos + k, c);
    if n == 0 {
        return None;
    }
    let r2 = count_run_eq(s, len, pos + k + n, c);
    if r2 < k {
        return None;
    }
    let payload = s.substring_char(pos + k, pos + k + n).to_owned();
    Some((payload, pos + k + n + k))
}

/// Italic: `*...*` or `_..._`, tried in that order.
pub fn parse_italic(s: &str, pos: usize) -> (r: Option<(String, usize)>)
    ensures
        match r {
            Some(v) => spec_italic(s@, pos as int) == Some((v.0@, v.1 as int)),
            None => spec_italic(s@, pos as int) is None,
        },
{
    match parse_delimited(s, pos, '*', 1) {
        Some(v) => Some(v),
        None => parse_delimited(s, pos, '_', 1),
    }
}

/// Bold: `**...**` or `__...__`, tried in that order.
pub fn parse_bold(s: &str, pos: usize) -> (r: Option<(String, usize)>)
    ensures
        match r {
            Some(v) => spec_bold(s@, pos as int) == Some((v.0@, v.1 as int)),
            None => spec_bold(s@, pos as int) is None,
        },
{
    match parse_delimited(s, pos, '*', 2) {
        Some(v) => Some(v),
        None => parse_delimited(s, pos, '_', 2),
    }
}

/// Bold-italic: `***...***` or `___...___`, tried in that order.
pub fn parse_bold_italic(s: &str, pos: usize) -> (r: Option<(String, usize)>)
    ensures
        match r {
            Some(v) => spec_bold_italic(s@, pos as int) == Some((v.0@, v.1 as int)),
            None => spec_bold_italic(s@, pos as int) is None,
        },
{
    match parse_delimited(s, pos, '*', 3) {
        Some(v) => Some(v),
        None => parse_delimited(s, pos, '_', 3),
    }
}

/// Inline code: a payload between single backticks.
pub fn parse_inline_code(s: &str, pos: usize) -> (r: Option<(String, usize)>)
    ensures
        match r {
            Some(v) => spec_inline_code(s@, pos as int) == Some((v.0@, v.1 as int)),
            None => spec_inline_code(s@, pos as int) is None,
        },
{
    parse_delimited(s, pos, '`', 1)
}

/// Matches `open`, a non-empty run free of `close`, then `close`, returning
/// the run between them.
fn parse_enclosed(s: &str, pos: usize, open: char, close: char) -> (r: Option<(String, usize)>)
    ensures
        match r {
            Some(v) => spec_enclosed(s@, pos as int, open, close) == Some((v.0@, v.1 as int)),
            None => spec_enclosed(s@, pos as int, open, close) is None,
        },
{
    let len = s.unicode_len();
    if !has_char_at(s, len, pos, open) {
        return None;
    }
    let n = count_run_neq(s, len, pos + 1, close);
    if n == 0 {
        return None;
    }
    if !has_char_at(s, len, pos + 1 + n, close) {
        return None;
    }
    let payload = s.substring_char(pos + 1, pos + 1 + n).to_owned();
    Some((payload, pos + 1 + n + 1))
}

/// Link: `[label](target)`.
pub fn parse_link(s: &str, pos: usize) -> (r: Option<((String, String), usize)>)
    ensures
        match r {
            Some(v) => spec_link(s@, pos as int) == Some(((v.0.0@, v.0.1@), v.1 as int)),
            None => spec_link(s@, pos as int) is None,
        },
{
    match parse_enclosed(s, pos, '[', ']') {
        Some((label, p1)) => match parse_enclosed(s, p1, '(', ')') {
            Some((target, p2)) => Some(((label, target), p2)),
            None => None,
        },
        None => None,
    }
}

/// Image: `![alt](target)`.
pub fn parse_image(s: &str, pos: usize) -> (r: Option<((String, String), usize)>)
    ensures
        match r {
            Some(v) => spec_image(s@, pos as int) == Some(((v.0.0@, v.0.1@), v.1 as int)),
            None => spec_image(s@, pos as int) is None,
        },
{
    let len = s.unicode_len();
    if !has_char_at(s, len, pos, '!') {
        return None;
    }
    match parse_link(s, pos + 1) {
        Some(v) => Some(v),
        None => None,
    }
}

/// Plaintext: the non-empty maximal run at which no other inline pattern
/// starts.
pub fn parse_plaintext(s: &str, pos: usize) -> (r: Option<(String, usize)>)
    ensures
        match r {
            Some(v) => spec_plaintext(s@, pos as int) == Some((v.0@, v.1 as int)),
            None => spec_plaintext(s@, pos as int) is None,
        },
{
    let len = s.unicode_len();
    if pos > len {
        return None;
    }
    let n = count_run_plain(s, len, pos);
    if n == 0 {
        return None;
    }
    let payload = s.substring_char(pos, pos + n).to_owned();
    Some((payload, pos + n))
}

/// One inline node, by the fixed priority order: italic, bold, bold-italic,
/// inline code, image, link, plaintext.
pub fn parse_markdown_inline(s: &str, pos: usize) -> (r: Option<(MarkdownInline, usize)>)
    ensures
        match r {
            Some(v) => spec_inline(s@, pos as int) == Some((v.0@, v.1 as int)),
            None => spec_inline(s@, pos as int) is None,
        },
{
    if let Some((t, p)) = parse_italic(s, pos) {
        return Some((MarkdownInline::Italic(t), p));
    }
    if let Some((t, p)) = parse_bold(s, pos) {
        return Some((MarkdownInline::Bold(t), p));
    }
    if let Some((t, p)) = parse_bold_italic(s, pos) {
        return Some((MarkdownInline::BoldItalic(t), p));
    }
    if let Some((t, p)) = parse_inline_code(s, pos) {
        return Some((MarkdownInline::InlineCode(t), p));
    }
    if let Some(((alt, target), p)) = parse_image(s, pos) {
        return Some((MarkdownInline::Image(alt, target), p));
    }
    if let Some(((label, target), p)) = parse_link(s, pos) {
        return Some((MarkdownInline::Link(label, target), p));
    }
    if let Some((t, p)) = parse_plaintext(s, pos) {
        return Some((MarkdownInline::Plaintext(t), p));
    }
    None
}

/// One logical line: zero or more inline nodes, then a line terminator.
pub fn parse_markdown_text_until_eol(s: &str, pos: usize) -> (r: Option<(MarkdownText, usize)>)
    ensures
        match r {
            Some(v) => spec_text_until_eol(s@, pos as int) == Some((view_text(v.0@), v.1 as int)),
            None => spec_text_until_eol(s@, pos as int) is None,
        },
{
    let len = s.unicode_len();
    if pos > len {
        proof {
            assert(spec_inline(s@, pos as int) is None);
            assert(!char_at(s@, pos as int, '\n'));
        }
        return None;
    }
    let mut items: Vec<MarkdownInline> = Vec::new();
    let mut i = pos;
    proof {
        assert(view_text(items@) =~= Seq::<InlineView>::empty());
        assert(Seq::<InlineView>::empty() + spec_inlines(s@, pos as int).0 =~= spec_inlines(
            s@,
            pos as int,
        ).0);
    }
    loop
        invariant
            pos <= i <= len,
            len == s@.len(),
            spec_inlines(s@, pos as int).0 == view_text(items@) + spec_inlines(s@, i as int).0,
            spec_inlines(s@, pos as int).1 == spec_inlines(s@, i as int).1,
        ensures
            pos <= i <= len,
            len == s@.len(),
            spec_inlines(s@, pos as int) == (view_text(items@), i as int),
        decreases len - i,
    {
        match parse_markdown_inline(s, i) {
            Some((node, p)) => {
                proof {
                    lemma_spec_inline_advances(s@, i as int);
                }
                let ghost items0 = items@;
                items.push(node);
                proof {
                    assert(view_text(items@) =~= view_text(items0) + seq![node@]);
                    assert(spec_inlines(s@, i as int).0 == seq![node@] + spec_inlines(
                        s@,
                        p as int,
                    ).0);
                    assert(view_text(items0) + (seq![node@] + spec_inlines(s@, p as int).0) =~= (
                    view_text(items0) + seq![node@]) + spec_inlines(s@, p as int).0);
                }
                i = p;
            },
            None => {
                proof {
                    assert(spec_inlines(s@, i as int).0 =~= Seq::<InlineView>::empty());
                    assert(view_text(items@) + Seq::<InlineView>::empty() =~= view_text(items@));
                }
                break;
            },
        }
    }
    if has_char_at(s, len, i, '\n') {
        Some((items, i + 1))
    } else {
        None
    }
}

/// Heading marker: one or more `#` characters, then exactly one space.
/// Returns the (clamped) heading level.
pub fn parse_heading_tag(s: &str, pos: usize) -> (r: Option<(HeadingLevel, usize)>)
    ensures
        match r {
            Some(v) => spec_heading_tag(s@, pos as int) == Some((level_of(v.0), v.1 as int)),
            None => spec_heading_tag(s@, pos as int) is None,
        },
{
    let len = s.unicode_len();
    if pos > len {
        return None;
    }
    let n = count_run_eq(s, len, pos, '#');
    if n == 0 {
        return None;
    }
    if !has_char_at(s, len, pos + n, ' ') {
        return None;
    }
    Some((HeadingLevel::from(n), pos + n + 1))
}

/// Heading: a heading marker, then one logical line.
pub fn parse_heading(s: &str, pos: usize) -> (r: Option<((HeadingLevel, MarkdownText), usize)>)
    ensures
        match r {
            Some(v) => spec_heading(s@, pos as int) == Some(
                ((level_of(v.0.0), view_text(v.0.1@)), v.1 as int),
            ),
            None => spec_heading(s@, pos as int) is None,
        },
{
    match parse_heading_tag(s, pos) {
        Some((level, p1)) => match parse_markdown_text_until_eol(s, p1) {
            Some((text, p2)) => Some(((level, text), p2)),
            None => None,
        },
        None => None,
    }
}

/// Unordered list marker: a literal `-` followed by exactly one space.
pub fn parse_unordered_list_tag(s: &str, pos: usize) -> (r: Option<usize>)
    ensures
        match r {
            Some(p) => spec_unordered_list_tag(s@, pos as int) == Some(p as int),
            None => spec_unordered_list_tag(s@, pos as int) is None,
        },
{
    let len = s.unicode_len();
    if has_char_at(s, len, pos, '-') && has_char_at(s, len, pos + 1, ' ') {
        Some(pos + 2)
    } else {
        None
    }
}

/// One unordered list item: the marker, then one logical line.
pub fn parse_unordered_list_element(s: &str, pos: usize) -> (r: Option<(MarkdownText, usize)>)
    ensures
        match r {
            Some(v) => spec_unordered_list_element(s@, pos as int) == Some(
                (view_text(v.0@), v.1 as int),
            ),
            None => spec_unordered_list_element(s@, pos as int) is None,
        },
{
    match parse_unordered_list_tag(s, pos) {
        Some(p1) => parse_markdown_text_until_eol(s, p1),
        None => None,
    }
}

/// Unordered list: one or more consecutive items.
pub fn parse_unordered_list(s: &str, pos: usize) -> (r: Option<(Vec<MarkdownText>, usize)>)
    ensures
        match r {
            Some(v) => spec_unordered_list(s@, pos as int) == Some(
                (view_lines(v.0@), v.1 as int),
            ),
            None => spec_unordered_list(s@, pos as int) is None,
        },
{
    let len = s.unicode_len();
    let (first, p0) = match parse_unordered_list_element(s, pos) {
        Some(v) => v,
        None => {
            return None;
        },
    };
    proof {
        lemma_spec_unordered_list_element_advances(s@, pos as int);
    }
    let mut items: Vec<MarkdownText> = Vec::new();
    let ghost first_view = view_text(first@);
    items.push(first);
    let mut i = p0;
    proof {
        assert(view_lines(items@) =~= seq![first_view]);
        assert(spec_unordered_list_items(s@, pos as int).0 == seq![first_view]
            + spec_unordered_list_items(s@, i as int).0);
    }
    loop
        invariant
            pos <= i <= len,
            len == s@.len(),
            spec_unordered_list_items(s@, pos as int).0 == view_lines(items@)
                + spec_unordered_list_items(s@, i as int).0,
            spec_unordered_list_items(s@, pos as int).1 == spec_unordered_list_items(
                s@,
                i as int,
            ).1,
        ensures
            spec_unordered_list_items(s@, pos as int) == (view_lines(items@), i as int),
        decreases len - i,
    {
        match parse_unordered_list_element(s, i) {
            Some((text, p)) => {
                proof {
                    lemma_spec_unordered_list_element_advances(s@, i as int);
                }
                let ghost items0 = items@;
                let ghost text_view = view_text(text@);
                items.push(text);
                proof {
                    assert(view_lines(items@) =~= view_lines(items0) + seq![text_view]);
                    assert(spec_unordered_list_items(s@, i as int).0 == seq![text_view]
                        + spec_unordered_list_items(s@, p as int).0);
                    assert(view_lines(items0) + (seq![text_view] + spec_unordered_list_items(
                        s@,
                        p as int,
                    ).0) =~= (view_lines(items0) + seq![text_view]) + spec_unordered_list_items(
                        s@,
                        p as int,
                    ).0);
                }
                i = p;
            },
            None => {
                proof {
                    assert(spec_unordered_list_items(s@, i as int).0
                        =~= Seq::<Seq<InlineView>>::empty());
                    assert(view_lines(items@) + Seq::<Seq<InlineView>>::empty() =~= view_lines(
                        items@,
                    ));
                }
                break;
            },
        }
    }
    Some((items, i))
}

/// Ordered list marker: one or more decimal digits, then `.`, then exactly
/// one space.  Returns the digit run; its value is not interpreted.
pub fn parse_ordered_list_tag(s: &str, pos: usize) -> (r: Option<(String, usize)>)
    ensures
        match r {
            Some(v) => spec_ordered_list_tag(s@, pos as int) == Some((v.0@, v.1 as int)),
            None => spec_ordered_list_tag(s@, pos as int) is None,
        },
{
    let len = s.unicode_len();
    if pos > len {
        return None;
    }
    let n = count_run_digits(s, len, pos);
    if n == 0 {
        return None;
    }
    if !has_char_at(s, len, pos + n, '.') {
        return None;
    }
    if !has_char_at(s, len, pos + n + 1, ' ') {
        return None;
    }
    let digits = s.substring_char(pos, pos + n).to_owned();
    Some((digits, pos + n + 2))
}

/// One ordered list item: the marker, then one logical line.
pub fn parse_ordered_list_element(s: &str, pos: usize) -> (r: Option<(MarkdownText, usize)>)
    ensures
        match r {
            Some(v) => spec_ordered_list_element(s@, pos as int) == Some(
                (view_text(v.0@), v.1 as int),
            ),
            None => spec_ordered_list_element(s@, pos as int) is None,
        },
{
    match parse_ordered_list_tag(s, pos) {
        Some((_digits, p1)) => parse_markdown_text_until_eol(s, p1),
        None => None,
    }
}

/// Ordered list: one or more consecutive items.
pub fn parse_ordered_list(s: &str, pos: usize) -> (r: Option<(Vec<MarkdownText>, usize)>)
    ensures
        match r {
            Some(v) => spec_ordered_list(s@, pos as int) == Some((view_lines(v.0@), v.1 as int)),
            None => spec_ordered_list(s@, pos as int) is None,
        },
{
    let len = s.unicode_len();
    let (first, p0) = match parse_ordered_list_element(s, pos) {
        Some(v) => v,
        None => {
            return None;
        },
    };
    proof {
        lemma_spec_ordered_list_element_advances(s@, pos as int);
    }
    let mut items: Vec<MarkdownText> = Vec::new();
    let ghost first_view = view_text(first@);
    items.push(first);
    let mut i = p0;
    proof {
        assert(view_lines(items@) =~= seq![first_view]);
        assert(spec_ordered_list_items(s@, pos as int).0 == seq![first_view]
            + spec_ordered_list_items(s@, i as int).0);
    }
    loop
        invariant
            pos <= i <= len,
            len == s@.len(),
            spec_ordered_list_items(s@, pos as int).0 == view_lines(items@)
                + spec_ordered_list_items(s@, i as int).0,
            spec_ordered_list_items(s@, pos as int).1 == spec_ordered_list_items(s@, i as int).1,
        ensures
            spec_ordered_list_items(s@, pos as int) == (view_lines(items@), i as int),
        decreases len - i,
    {
        match parse_ordered_list_element(s, i) {
            Some((text, p)) => {
                proof {
                    lemma_spec_ordered_list_element_advances(s@, i as int);
                }
                let ghost items0 = items@;
                let ghost text_view = view_text(text@);
                items.push(text);
                proof {
                    assert(view_lines(items@) =~= view_lines(items0) + seq![text_view]);
                    assert(spec_ordered_list_items(s@, i as int).0 == seq![text_view]
                        + spec_ordered_list_items(s@, p as int).0);
                    assert(view_lines(items0) + (seq![text_view] + spec_ordered_list_items(
                        s@,
                        p as int,
                    ).0) =~= (view_lines(items0) + seq![text_view]) + spec_ordered_list_items(
                        s@,
                        p as int,
                    ).0);
                }
                i = p;
            },
            None => {
                proof {
                    assert(spec_ordered_list_items(s@, i as int).0
                        =~= Seq::<Seq<InlineView>>::empty());
                    assert(view_lines(items@) + Seq::<Seq<InlineView>>::empty() =~= view_lines(
                        items@,
                    ));
                }
                break;
            },
        }
    }
    Some((items, i))
}

/// Opening fence with optional language tag: three backticks, then either a
/// plaintext-like run or the sentinel tag.
pub fn parse_code_block_lang(s: &str, pos: usize) -> (r: Option<(String, usize)>)
    ensures
        match r {
            Some(v) => spec_code_block_lang(s@, pos as int) == Some((v.0@, v.1 as int)),
            None => spec_code_block_lang(s@, pos as int) is None,
        },
{
    let len = s.unicode_len();
    if pos > len {
        return None;
    }
    let n = count_run_eq(s, len, pos, '`');
    if n < 3 {
        return None;
    }
    match parse_plaintext(s, pos + 3) {
        Some(v) => Some(v),
        None => Some((String::from_str("__UNKNOWN_LANGUAGE__"), pos + 3)),
    }
}

/// Codeblock body: a line terminator, a non-empty run free of backticks,
/// then the closing fence.  The fence is consumed; a line terminator after
/// it is not.
pub fn parse_code_block_body(s: &str, pos: usize) -> (r: Option<(String, usize)>)
    ensures
        match r {
            Some(v) => spec_code_block_body(s@, pos as int) == Some((v.0@, v.1 as int)),
            None => spec_code_block_body(s@, pos as int) is None,
        },
{
    let len = s.unicode_len();
    if !has_char_at(s, len, pos, '\n') {
        return None;
    }
    let n = count_run_neq(s, len, pos + 1, '`');
    if n == 0 {
        return None;
    }
    let r2 = count_run_eq(s, len, pos + 1 + n, '`');
    if r2 < 3 {
        return None;
    }
    let body = s.substring_char(pos + 1, pos + 1 + n).to_owned();
    Some((body, pos + 1 + n + 3))
}

/// Codeblock: the fence with its optional tag, then the body.
pub fn parse_code_block(s: &str, pos: usize) -> (r: Option<((String, String), usize)>)
    ensures
        match r {
            Some(v) => spec_code_block(s@, pos as int) == Some(((v.0.0@, v.0.1@), v.1 as int)),
            None => spec_code_block(s@, pos as int) is None,
        },
{
    match parse_code_block_lang(s, pos) {
        Some((lang, p1)) => match parse_code_block_body(s, p1) {
            Some((body, p2)) => Some(((lang, body), p2)),
            None => None,
        },
        None => None,
    }
}

/// One block node, by the fixed priority order: heading, unordered list,
/// ordered list, codeblock, plain line.
pub fn parse_block(s: &str, pos: usize) -> (r: Option<(Markdown, usize)>)
    ensures
        match r {
            Some(v) => spec_block(s@, pos as int) == Some((v.0@, v.1 as int)),
            None => spec_block(s@, pos as int) is None,
        },
{
    if let Some(((level, text), p)) = parse_heading(s, pos) {
        return Some((Markdown::Heading(level, text), p));
    }
    if let Some((lines, p)) = parse_unordered_list(s, pos) {
        return Some((Markdown::UnorderedList(lines), p));
    }
    if let Some((lines, p)) = parse_ordered_list(s, pos) {
        return Some((Markdown::OrderedList(lines), p));
    }
    if let Some(((lang, body), p)) = parse_code_block(s, pos) {
        return Some((Markdown::Codeblock(lang, body), p));
    }
    if let Some((text, p)) = parse_markdown_text_until_eol(s, pos) {
        return Some((Markdown::Line(text), p));
    }
    None
}

/// The document grammar: zero or more blocks, collected while the block
/// grammar matches.  Never fails; returns the blocks parsed and the
/// position of the first input it could not consume.
pub fn parse_markdown(s: &str, pos: usize) -> (r: (Vec<Markdown>, usize))
    ensures
        spec_document(s@, pos as int) == (view_blocks(r.0@), r.1 as int),
{
    let len = s.unicode_len();
    if pos > len {
        proof {
            assert(spec_block(s@, pos as int) is None);
            assert(view_blocks(Seq::<Markdown>::empty()) =~= Seq::<BlockView>::empty());
        }
        return (Vec::new(), pos);
    }
    let mut blocks: Vec<Markdown> = Vec::new();
    let mut i = pos;
    proof {
        assert(view_blocks(blocks@) =~= Seq::<BlockView>::empty());
        assert(Seq::<BlockView>::empty() + spec_document(s@, pos as int).0 =~= spec_document(
            s@,
            pos as int,
        ).0);
    }
    loop
        invariant
            pos <= i <= len,
            len == s@.len(),
            spec_document(s@, pos as int).0 == view_blocks(blocks@) + spec_document(
                s@,
                i as int,
            ).0,
            spec_document(s@, pos as int).1 == spec_document(s@, i as int).1,
        ensures
            spec_document(s@, pos as int) == (view_blocks(blocks@), i as int),
        decreases len - i,
    {
        match parse_block(s, i) {
            Some((block, p)) => {
                proof {
                    lemma_spec_block_advances(s@, i as int);
                }
                let ghost blocks0 = blocks@;
                let ghost block_view = block@;
                blocks.push(block);
                proof {
                    assert(view_blocks(blocks@) =~= view_blocks(blocks0) + seq![block_view]);
                    assert(spec_document(s@, i as int).0 == seq![block_view] + spec_document(
                        s@,
                        p as int,
                    ).0);
                    assert(view_blocks(blocks0) + (seq![block_view] + spec_document(
                        s@,
                        p as int,
                    ).0) =~= (view_blocks(blocks0) + seq![block_view]) + spec_document(
                        s@,
                        p as int,
                    ).0);
                }
                i = p;
            },
            None => {
                proof {
                    assert(spec_document(s@, i as int).0 =~= Seq::<BlockView>::empty());
                    assert(view_blocks(blocks@) + Seq::<BlockView>::empty() =~= view_blocks(
                        blocks@,
                    ));
                }
                break;
            },
        }
    }
    (blocks, i)
}

/// Converts a whole document to HTML.
///
/// When the document grammar consumes the entire input, the result is the
/// translated tree; otherwise it is the fixed fallback message — never a
/// partial rendering.
pub fn render_markdown(md: &str) -> (r: String)
    ensures
        spec_document(md@, 0).1 == md@.len() ==> r@ == html_of_doc(spec_document(md@, 0).0),
        spec_document(md@, 0).1 != md@.len() ==> r@ == fallback_message(),
{
    let (blocks, end) = parse_markdown(md, 0);
    let len = md.unicode_len();
    if end == len {
        translate(blocks)
    } else {
        String::from_str(
            "Sorry, this did not seem to work! Maybe your markdown was not well formed, have you hit [Enter] after your last line?",
        )
    }
}

} // verus!
