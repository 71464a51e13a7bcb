//! Properties that relate several parts of the grammar and the translator.

use vstd::prelude::*;

use crate::grammar::{
    char_at, lemma_spec_unordered_list_element_advances, run_eq, spec_block, spec_document,
    spec_heading, spec_heading_tag, spec_unordered_list, spec_unordered_list_element,
    spec_unordered_list_items,
};
use crate::translator::html_of_doc;
use crate::types::{BlockView, InlineView};

verus! {

/// An empty input parses to an empty block sequence, consuming nothing, and
/// that sequence translates to the empty string.
pub proof fn lemma_empty_document(s: Seq<char>)
    requires
        s.len() == 0,
    ensures
        spec_document(s, 0) == (Seq::<BlockView>::empty(), 0int),
        html_of_doc(spec_document(s, 0).0) == Seq::<char>::empty(),
{
    assert(spec_block(s, 0) is None);
    assert(spec_document(s, 0) == (Seq::<BlockView>::empty(), 0int));
}

/// Two consecutive unordered list items, not followed by a third, collect
/// into a single unordered-list block with exactly those two entries, and
/// that block is what the block grammar returns.
pub proof fn lemma_unordered_list_grouping(
    s: Seq<char>,
    pos: int,
    t1: Seq<InlineView>,
    p1: int,
    t2: Seq<InlineView>,
    p2: int,
)
    requires
        spec_unordered_list_element(s, pos) == Some((t1, p1)),
        spec_unordered_list_element(s, p1) == Some((t2, p2)),
        spec_unordered_list_element(s, p2) is None,
    ensures
        spec_unordered_list(s, pos) == Some((seq![t1, t2], p2)),
        spec_block(s, pos) == Some((BlockView::UnorderedList(seq![t1, t2]), p2)),
{
    lemma_spec_unordered_list_element_advances(s, pos);
    lemma_spec_unordered_list_element_advances(s, p1);
    assert(spec_unordered_list_items(s, p2) == (Seq::<Seq<InlineView>>::empty(), p2));
    assert(spec_unordered_list_items(s, p1).0 =~= seq![t2]);
    assert(spec_unordered_list_items(s, p1).1 == p2);
    assert(spec_unordered_list_items(s, pos).0 =~= seq![t1, t2]);
    assert(spec_unordered_list_items(s, pos).1 == p2);
    // the item marker `-` is not a heading marker, so the heading
    // recognizer cannot claim the same lines
    assert(char_at(s, pos, '-'));
    assert(run_eq(s, pos, '#') == 0);
    assert(spec_heading_tag(s, pos) is None);
    assert(spec_heading(s, pos) is None);
}

} // verus!
