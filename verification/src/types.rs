//! The document tree: block nodes, inline nodes, and their mathematical views.
//!
//! A parsed document is a sequence of [`Markdown`] block nodes; each block
//! carries a sequence of [`MarkdownInline`] nodes for one logical line.
//! Contracts throughout the crate speak of the ghost views [`BlockView`] and
//! [`InlineView`], in which every payload is a `Seq<char>`.

use vstd::prelude::*;

verus! {

/// One logical line of formatted text, in rendering order.
pub type MarkdownText = Vec<MarkdownInline>;

/// A unit of formatted text inside one logical line.
///
/// Payloads hold the text strictly between the delimiters, with the
/// delimiters themselves removed.
#[derive(Clone, Debug, PartialEq)]
pub enum MarkdownInline {
    Link(String, String),
    Image(String, String),
    InlineCode(String),
    Bold(String),
    BoldItalic(String),
    Italic(String),
    Plaintext(String),
}

/// Ghost view of an inline node: the same shape over `Seq<char>` payloads.
pub enum InlineView {
    Link(Seq<char>, Seq<char>),
    Image(Seq<char>, Seq<char>),
    InlineCode(Seq<char>),
    Bold(Seq<char>),
    BoldItalic(Seq<char>),
    Italic(Seq<char>),
    Plaintext(Seq<char>),
}

impl View for MarkdownInline {
    type V = InlineView;

    open spec fn view(&self) -> InlineView {
        match self {
            MarkdownInline::Link(label, target) => InlineView::Link(label@, target@),
            MarkdownInline::Image(alt, target) => InlineView::Image(alt@, target@),
            MarkdownInline::InlineCode(t) => InlineView::InlineCode(t@),
            MarkdownInline::Bold(t) => InlineView::Bold(t@),
            MarkdownInline::BoldItalic(t) => InlineView::BoldItalic(t@),
            MarkdownInline::Italic(t) => InlineView::Italic(t@),
            MarkdownInline::Plaintext(t) => InlineView::Plaintext(t@),
        }
    }
}

/// A heading's depth, between one and six.
#[derive(Copy, Clone, Debug, PartialEq, Eq, Structural)]
pub enum HeadingLevel {
    Heading1,
    Heading2,
    Heading3,
    Heading4,
    Heading5,
    Heading6,
}

/// The depth a [`HeadingLevel`] stands for, as an integer between 1 and 6.
pub open spec fn level_of(l: HeadingLevel) -> int {
    match l {
        HeadingLevel::Heading1 => 1,
        HeadingLevel::Heading2 => 2,
        HeadingLevel::Heading3 => 3,
        HeadingLevel::Heading4 => 4,
        HeadingLevel::Heading5 => 5,
        HeadingLevel::Heading6 => 6,
    }
}

/// The heading depth a marker run of `n` characters maps to: `n` itself
/// between 1 and 6, and 6 for every other count (a saturating clamp).
pub open spec fn clamped_level(n: int) -> int {
    if 1 <= n <= 6 {
        n
    } else {
        6
    }
}

impl From<usize> for HeadingLevel {
    /// Maps a heading-marker count to its level, clamping counts above six
    /// (and the unreachable zero) to [`HeadingLevel::Heading6`].
    fn from(size: usize) -> (r: HeadingLevel)
        ensures
            level_of(r) == clamped_level(size as int),
    {
        match size {
            1 => HeadingLevel::Heading1,
            2 => HeadingLevel::Heading2,
            3 => HeadingLevel::Heading3,
            4 => HeadingLevel::Heading4,
            5 => HeadingLevel::Heading5,
            6 => HeadingLevel::Heading6,
            _ => HeadingLevel::Heading6,
        }
    }
}

impl vstd::std_specs::convert::FromSpecImpl<usize> for HeadingLevel {
    open spec fn obeys_from_spec() -> bool {
        true
    }

    open spec fn from_spec(size: usize) -> HeadingLevel {
        if size == 1 {
            HeadingLevel::Heading1
        } else if size == 2 {
            HeadingLevel::Heading2
        } else if size == 3 {
            HeadingLevel::Heading3
        } else if size == 4 {
            HeadingLevel::Heading4
        } else if size == 5 {
            HeadingLevel::Heading5
        } else {
            HeadingLevel::Heading6
        }
    }
}

/// A top-level structural unit of the document.
///
/// Blocks never nest; a codeblock's body is raw text, never re-parsed.
#[derive(Clone, Debug, PartialEq)]
pub enum Markdown {
    Heading(HeadingLevel, MarkdownText),
    OrderedList(Vec<MarkdownText>),
    UnorderedList(Vec<MarkdownText>),
    Line(MarkdownText),
    Codeblock(String, String),
}

/// Ghost view of a block node.
pub enum BlockView {
    Heading(int, Seq<InlineView>),
    OrderedList(Seq<Seq<InlineView>>),
    UnorderedList(Seq<Seq<InlineView>>),
    Line(Seq<InlineView>),
    Codeblock(Seq<char>, Seq<char>),
}

/// The view of one logical line: each inline node replaced by its view.
pub open spec fn view_text(t: Seq<MarkdownInline>) -> Seq<InlineView> {
    t.map_values(|i: MarkdownInline| i@)
}

/// The views of a list's entries, one logical line per entry.
pub open spec fn view_lines(ls: Seq<MarkdownText>) -> Seq<Seq<InlineView>> {
    ls.map_values(|l: MarkdownText| view_text(l@))
}

impl View for Markdown {
    type V = BlockView;

    open spec fn view(&self) -> BlockView {
        match self {
            Markdown::Heading(l, t) => BlockView::Heading(level_of(*l), view_text(t@)),
            Markdown::OrderedList(ls) => BlockView::OrderedList(view_lines(ls@)),
            Markdown::UnorderedList(ls) => BlockView::UnorderedList(view_lines(ls@)),
            Markdown::Line(t) => BlockView::Line(view_text(t@)),
            Markdown::Codeblock(lang, body) => BlockView::Codeblock(lang@, body@),
        }
    }
}

/// The views of a document's blocks, in source order.
pub open spec fn view_blocks(md: Seq<Markdown>) -> Seq<BlockView> {
    md.map_values(|b: Markdown| b@)
}

} // verus!
