//! The translator: a pure mapping from the document tree to an HTML string.
//!
//! The meaning of every node is given by the spec functions
//! [`html_of_inline`], [`html_of_text`], [`html_of_items`], [`html_of_block`]
//! and [`html_of_doc`]; each executable function is proved to return exactly
//! what they say.  Translation is total: it cannot fail on any tree.
//!
//! No escaping is performed anywhere: payload text, codeblock bodies and
//! plaintext runs pass into the output verbatim, HTML-significant characters
//! included.

use vstd::prelude::*;

use crate::types::{
    view_blocks, view_lines, view_text, BlockView, HeadingLevel, InlineView, Markdown,
    MarkdownInline, MarkdownText,
};
use vstd::string::StrSliceExecFns;
use vstd::string::StringExecFns;

verus! {

/// The HTML for one inline node.  Payloads appear verbatim, unescaped.
pub open spec fn html_of_inline(node: InlineView) -> Seq<char> {
    match node {
        InlineView::Bold(t) => "<b>"@ + t + "</b>"@,
        InlineView::Italic(t) => "<i>"@ + t + "</i>"@,
        InlineView::BoldItalic(t) => "<i>"@ + "<b>"@ + t + "</b>"@ + "</i>"@,
        InlineView::InlineCode(t) => "<code>"@ + t + "</code>"@,
        InlineView::Link(label, url) => "<a href=\""@ + url + "\">"@ + label + "</a>"@,
        InlineView::Image(alt, url) => "<img src=\""@ + url + "\" alt=\""@ + alt + "\" />"@,
        InlineView::Plaintext(t) => t,
    }
}

/// The HTML for one logical line: each node's HTML, concatenated in order
/// with no separators.
pub open spec fn html_of_text(text: Seq<InlineView>) -> Seq<char>
    decreases text.len(),
{
    if text.len() == 0 {
        Seq::empty()
    } else {
        html_of_inline(text[0]) + html_of_text(text.drop_first())
    }
}

/// The HTML for a list's entries: each line wrapped in `<li>...</li>`,
/// concatenated in order.
pub open spec fn html_of_items(items: Seq<Seq<InlineView>>) -> Seq<char>
    decreases items.len(),
{
    if items.len() == 0 {
        Seq::empty()
    } else {
        "<li>"@ + html_of_text(items[0]) + "</li>"@ + html_of_items(items.drop_first())
    }
}

/// The opening tag for a heading of depth `l` (1 to 6).
pub open spec fn heading_open_tag(l: int) -> Seq<char> {
    if l == 1 {
        "<h1>"@
    } else if l == 2 {
        "<h2>"@
    } else if l == 3 {
        "<h3>"@
    } else if l == 4 {
        "<h4>"@
    } else if l == 5 {
        "<h5>"@
    } else {
        "<h6>"@
    }
}

/// The closing tag for a heading of depth `l` (1 to 6).
pub open spec fn heading_close_tag(l: int) -> Seq<char> {
    if l == 1 {
        "</h1>"@
    } else if l == 2 {
        "</h2>"@
    } else if l == 3 {
        "</h3>"@
    } else if l == 4 {
        "</h4>"@
    } else if l == 5 {
        "</h5>"@
    } else {
        "</h6>"@
    }
}

/// The HTML for one block node.  A codeblock's body is inserted verbatim,
/// never re-parsed; a line whose rendered content is empty vanishes.
pub open spec fn html_of_block(block: BlockView) -> Seq<char> {
    match block {
        BlockView::Heading(l, text) => heading_open_tag(l) + html_of_text(text)
            + heading_close_tag(l),
        BlockView::UnorderedList(items) => "<ul>"@ + html_of_items(items) + "</ul>"@,
        BlockView::OrderedList(items) => "<ol>"@ + html_of_items(items) + "</ol>"@,
        BlockView::Codeblock(lang, body) => "<pre><code class=\"lang-"@ + lang + "\">"@ + body
            + "</code></pre>"@,
        BlockView::Line(text) => {
            let line = html_of_text(text);
            if line.len() == 0 {
                line
            } else {
                "<p>"@ + line + "</p>"@
            }
        },
    }
}

/// The HTML for a whole document: each block's HTML, concatenated in order
/// with no separators.
pub open spec fn html_of_doc(blocks: Seq<BlockView>) -> Seq<char>
    decreases blocks.len(),
{
    if blocks.len() == 0 {
        Seq::empty()
    } else {
        html_of_block(blocks[0]) + html_of_doc(blocks.drop_first())
    }
}

/// Renders a bold span: `<b>{text}</b>`.
pub fn translate_boldtext(boldtext: String) -> (r: String)
    ensures
        r@ == html_of_inline(InlineView::Bold(boldtext@)),
{
    let mut r = String::from_str("<b>");
    r.append(boldtext.as_str());
    r.append("</b>");
    r
}

/// Renders an italic span: `<i>{text}</i>`.
pub fn translate_italic(italic: String) -> (r: String)
    ensures
        r@ == html_of_inline(InlineView::Italic(italic@)),
{
    let mut r = String::from_str("<i>");
    r.append(italic.as_str());
    r.append("</i>");
    r
}

/// Renders an inline code span: `<code>{text}</code>`.
pub fn translate_inline_code(code: String) -> (r: String)
    ensures
        r@ == html_of_inline(InlineView::InlineCode(code@)),
{
    let mut r = String::from_str("<code>");
    r.append(code.as_str());
    r.append("</code>");
    r
}

/// Renders a link: `<a href="{url}">{text}</a>`.
pub fn translate_link(text: String, url: String) -> (r: String)
    ensures
        r@ == html_of_inline(InlineView::Link(text@, url@)),
{
    let mut r = String::from_str("<a href=\"");
    r.append(url.as_str());
    r.append("\">");
    r.append(text.as_str());
    r.append("</a>");
    r
}

/// Renders an image: `<img src="{url}" alt="{text}" />`.
pub fn translate_image(text: String, url: String) -> (r: String)
    ensures
        r@ == html_of_inline(InlineView::Image(text@, url@)),
{
    let mut r = String::from_str("<img src=\"");
    r.append(url.as_str());
    r.append("\" alt=\"");
    r.append(text.as_str());
    r.append("\" />");
    r
}

/// Renders one logical line's nodes, concatenated in order.
pub fn translate_text(text: &MarkdownText) -> (r: String)
    ensures
        r@ == html_of_text(view_text(text@)),
{
    let ghost tv = view_text(text@);
    let mut r = String::new();
    let mut i: usize = 0;
    proof {
        assert(tv.skip(0) =~= tv);
    }
    while i < text.len()
        invariant
            i <= text.len(),
            tv == view_text(text@),
            r@ + html_of_text(tv.skip(i as int)) == html_of_text(tv),
        decreases text.len() - i,
    {
        let piece = match &text[i] {
            MarkdownInline::Bold(t) => translate_boldtext(t.clone()),
            MarkdownInline::Italic(t) => translate_italic(t.clone()),
            MarkdownInline::BoldItalic(t) => {
                let mut b = String::from_str("<i>");
                b.append("<b>");
                b.append(t.as_str());
                b.append("</b>");
                b.append("</i>");
                b
            },
            MarkdownInline::InlineCode(t) => translate_inline_code(t.clone()),
            MarkdownInline::Link(label, url) => translate_link(label.clone(), url.clone()),
            MarkdownInline::Image(alt, url) => translate_image(alt.clone(), url.clone()),
            MarkdownInline::Plaintext(t) => t.clone(),
        };
        proof {
            assert(tv[i as int] == text@[i as int]@);
            assert(piece@ == html_of_inline(tv[i as int]));
            assert(tv.skip(i as int).drop_first() =~= tv.skip(i as int + 1));
            assert(html_of_text(tv.skip(i as int)) == html_of_inline(tv[i as int]) + html_of_text(
                tv.skip(i as int + 1),
            ));
            assert(r@ + piece@ + html_of_text(tv.skip(i as int + 1)) =~= r@ + (piece@
                + html_of_text(tv.skip(i as int + 1))));
        }
        r.append(piece.as_str());
        i = i + 1;
    }
    proof {
        assert(tv.skip(text@.len() as int) =~= Seq::<InlineView>::empty());
        assert(r@ + Seq::<char>::empty() =~= r@);
    }
    r
}

/// Renders each list entry as `<li>{line}</li>`, concatenated in order.
pub fn translate_list_elements(lines: &Vec<MarkdownText>) -> (r: String)
    ensures
        r@ == html_of_items(view_lines(lines@)),
{
    let ghost lv = view_lines(lines@);
    let mut r = String::new();
    let mut i: usize = 0;
    proof {
        assert(lv.skip(0) =~= lv);
    }
    while i < lines.len()
        invariant
            i <= lines.len(),
            lv == view_lines(lines@),
            r@ + html_of_items(lv.skip(i as int)) == html_of_items(lv),
        decreases lines.len() - i,
    {
        let mut piece = String::from_str("<li>");
        let body = translate_text(&lines[i]);
        piece.append(body.as_str());
        piece.append("</li>");
        proof {
            assert(lv[i as int] == view_text(lines@[i as int]@));
            assert(piece@ =~= "<li>"@ + html_of_text(lv[i as int]) + "</li>"@);
            assert(lv.skip(i as int).drop_first() =~= lv.skip(i as int + 1));
            assert(html_of_items(lv.skip(i as int)) == "<li>"@ + html_of_text(lv[i as int])
                + "</li>"@ + html_of_items(lv.skip(i as int + 1)));
            assert(r@ + piece@ + html_of_items(lv.skip(i as int + 1)) =~= r@ + (("<li>"@
                + html_of_text(lv[i as int]) + "</li>"@) + html_of_items(lv.skip(i as int + 1))));
        }
        r.append(piece.as_str());
        i = i + 1;
    }
    proof {
        assert(lv.skip(lines@.len() as int) =~= Seq::<Seq<InlineView>>::empty());
        assert(r@ + Seq::<char>::empty() =~= r@);
    }
    r
}

/// Renders a heading of the given depth: `<h{n}>{line}</h{n}>`.
pub fn translate_header(size: &HeadingLevel, text: &MarkdownText) -> (r: String)
    ensures
        r@ == html_of_block(BlockView::Heading(crate::types::level_of(*size), view_text(text@))),
{
    let (open_tag, close_tag) = match size {
        HeadingLevel::Heading1 => ("<h1>", "</h1>"),
        HeadingLevel::Heading2 => ("<h2>", "</h2>"),
        HeadingLevel::Heading3 => ("<h3>", "</h3>"),
        HeadingLevel::Heading4 => ("<h4>", "</h4>"),
        HeadingLevel::Heading5 => ("<h5>", "</h5>"),
        HeadingLevel::Heading6 => ("<h6>", "</h6>"),
    };
    let mut r = String::from_str(open_tag);
    let body = translate_text(text);
    r.append(body.as_str());
    r.append(close_tag);
    r
}

/// Renders an unordered list: `<ul>` + its entries + `</ul>`.
pub fn translate_unordered_list(lines: &Vec<MarkdownText>) -> (r: String)
    ensures
        r@ == html_of_block(BlockView::UnorderedList(view_lines(lines@))),
{
    let mut r = String::from_str("<ul>");
    let body = translate_list_elements(lines);
    r.append(body.as_str());
    r.append("</ul>");
    r
}

/// Renders an ordered list: `<ol>` + its entries + `</ol>`.
pub fn translate_ordered_list(lines: &Vec<MarkdownText>) -> (r: String)
    ensures
        r@ == html_of_block(BlockView::OrderedList(view_lines(lines@))),
{
    let mut r = String::from_str("<ol>");
    let body = translate_list_elements(lines);
    r.append(body.as_str());
    r.append("</ol>");
    r
}

/// Renders a codeblock: `<pre><code class="lang-{lang}">{body}</code></pre>`,
/// with the body inserted verbatim, never re-parsed as markup.
pub fn translate_codeblock(lang: String, code: String) -> (r: String)
    ensures
        r@ == html_of_block(BlockView::Codeblock(lang@, code@)),
{
    let mut r = String::from_str("<pre><code class=\"lang-");
    r.append(lang.as_str());
    r.append("\">");
    r.append(code.as_str());
    r.append("</code></pre>");
    r
}

/// Renders a plain line: `<p>{line}</p>` when the rendered content is
/// non-empty, and the empty string otherwise (blank lines vanish).
pub fn translate_line(text: &MarkdownText) -> (r: String)
    ensures
        r@ == html_of_block(BlockView::Line(view_text(text@))),
{
    let line = translate_text(text);
    if line.as_str().is_empty() {
        line
    } else {
        let mut r = String::from_str("<p>");
        r.append(line.as_str());
        r.append("</p>");
        r
    }
}

/// Renders a whole document: each block's HTML, concatenated in order with
/// no separators.  Translation is a pure function of the tree, so equal
/// trees always render to equal output.
pub fn translate(md: Vec<Markdown>) -> (r: String)
    ensures
        r@ == html_of_doc(view_blocks(md@)),
{
    let ghost bv = view_blocks(md@);
    let mut r = String::new();
    let mut i: usize = 0;
    proof {
        assert(bv.skip(0) =~= bv);
    }
    while i < md.len()
        invariant
            i <= md.len(),
            bv == view_blocks(md@),
            r@ + html_of_doc(bv.skip(i as int)) == html_of_doc(bv),
        decreases md.len() - i,
    {
        let piece = match &md[i] {
            Markdown::Heading(size, line) => translate_header(size, line),
            Markdown::UnorderedList(lines) => translate_unordered_list(lines),
            Markdown::OrderedList(lines) => translate_ordered_list(lines),
            Markdown::Codeblock(lang, code) => translate_codeblock(lang.clone(), code.clone()),
            Markdown::Line(line) => translate_line(line),
        };
        proof {
            assert(bv[i as int] == md@[i as int]@);
            assert(piece@ == html_of_block(bv[i as int]));
            assert(bv.skip(i as int).drop_first() =~= bv.skip(i as int + 1));
            assert(html_of_doc(bv.skip(i as int)) == html_of_block(bv[i as int]) + html_of_doc(
                bv.skip(i as int + 1),
            ));
            assert(r@ + piece@ + html_of_doc(bv.skip(i as int + 1)) =~= r@ + (piece@ + html_of_doc(
                bv.skip(i as int + 1),
            )));
        }
        r.append(piece.as_str());
        i = i + 1;
    }
    proof {
        assert(bv.skip(md@.len() as int) =~= Seq::<BlockView>::empty());
        assert(r@ + Seq::<char>::empty() =~= r@);
    }
    r
}

} // verus!
