use md_parser::parser::{
    parse_bold, parse_bold_italic, parse_code_block, parse_heading, parse_heading_tag,
    parse_image, parse_inline_code, parse_italic, parse_link, parse_markdown,
    parse_markdown_inline,
    parse_markdown_text_until_eol, parse_ordered_list, parse_ordered_list_element,
    parse_ordered_list_tag, parse_plaintext, parse_unordered_list, parse_unordered_list_element,
    parse_unordered_list_tag,
};
use md_parser::types::{HeadingLevel, Markdown, MarkdownInline};

#[test]
fn test_parse_italic() {
    assert_eq!(
        parse_italic("*here is italic*", 0),
        Some(("here is italic".to_string(), 16))
    );
    assert_eq!(
        parse_italic("_here is italic_", 0),
        Some(("here is italic".to_string(), 16))
    );
    assert_eq!(parse_italic("*here is italic", 0), None);
    assert_eq!(parse_italic("here is italic*", 0), None);
    assert_eq!(parse_italic("here is italic", 0), None);
    assert_eq!(parse_italic("*", 0), None);
    assert_eq!(parse_italic("**", 0), None);
    assert_eq!(parse_italic("", 0), None);
    assert_eq!(parse_italic("**we are doing bold**", 0), None);
}

#[test]
fn test_parse_bold_italic() {
    assert_eq!(
        parse_bold_italic("***here is bitalic***", 0),
        Some(("here is bitalic".to_string(), 21))
    );
    assert_eq!(parse_bold("***here is bitalic", 0), None);
    assert_eq!(parse_bold("here is bitalic***", 0), None);
    assert_eq!(
        parse_bold_italic("___here is bitalic___", 0),
        Some(("here is bitalic".to_string(), 21))
    );
    assert_eq!(parse_bold_italic("___here is bitalic", 0), None);
    assert_eq!(parse_bold_italic("here is bitalic___", 0), None);
}

#[test]
fn test_parse_bold() {
    assert_eq!(
        parse_bold("**here is bold**", 0),
        Some(("here is bold".to_string(), 16))
    );
    assert_eq!(
        parse_bold("__here is bold__", 0),
        Some(("here is bold".to_string(), 16))
    );
    assert_eq!(parse_bold("**here is bold", 0), None);
    assert_eq!(parse_bold("here is bold**", 0), None);
    assert_eq!(parse_bold("here is bold", 0), None);
    assert_eq!(parse_bold("****", 0), None);
    assert_eq!(parse_bold("**", 0), None);
    assert_eq!(parse_bold("*", 0), None);
    assert_eq!(parse_bold("", 0), None);
    assert_eq!(parse_bold("*this is italic*", 0), None);
}

#[test]
fn test_parse_inline_code() {
    assert_eq!(
        parse_bold("**here is bold**\n", 0),
        Some(("here is bold".to_string(), 16))
    );
    assert_eq!(parse_inline_code("`here is code", 0), None);
    assert_eq!(parse_inline_code("here is code`", 0), None);
    assert_eq!(parse_inline_code("``", 0), None);
    assert_eq!(parse_inline_code("`", 0), None);
    assert_eq!(parse_inline_code("", 0), None);
}

#[test]
fn test_parse_link() {
    assert_eq!(
        parse_link("[title](https://www.example.com)", 0),
        Some((
            ("title".to_string(), "https://www.example.com".to_string()),
            32
        ))
    );
    assert_eq!(parse_inline_code("", 0), None);
}

#[test]
fn test_parse_image() {
    assert_eq!(
        parse_image("![alt text](image.jpg)", 0),
        Some((("alt text".to_string(), "image.jpg".to_string()), 22))
    );
    assert_eq!(parse_inline_code("", 0), None);
}

#[test]
fn test_parse_plaintext() {
    assert_eq!(
        parse_plaintext("1234567890", 0),
        Some(("1234567890".to_string(), 10))
    );
    assert_eq!(
        parse_plaintext("oh my gosh!", 0),
        Some(("oh my gosh!".to_string(), 11))
    );
    assert_eq!(
        parse_plaintext("oh my gosh![", 0),
        Some(("oh my gosh".to_string(), 10))
    );
    assert_eq!(
        parse_plaintext("oh my gosh!*", 0),
        Some(("oh my gosh!".to_string(), 11))
    );
    assert_eq!(parse_plaintext("*bold baby bold*", 0), None);
    assert_eq!(parse_plaintext("[link baby](and then somewhat)", 0), None);
    assert_eq!(parse_plaintext("`codeblock for bums`", 0), None);
    assert_eq!(parse_plaintext("![ but wait theres more](jk)", 0), None);
    assert_eq!(
        parse_plaintext("here is plaintext", 0),
        Some(("here is plaintext".to_string(), 17))
    );
    assert_eq!(
        parse_plaintext("here is plaintext!", 0),
        Some(("here is plaintext!".to_string(), 18))
    );
    assert_eq!(
        parse_plaintext("here is plaintext![image starting", 0),
        Some(("here is plaintext".to_string(), 17))
    );
    assert_eq!(
        parse_plaintext("here is plaintext\n", 0),
        Some(("here is plaintext".to_string(), 17))
    );
    assert_eq!(parse_plaintext("*here is italic*", 0), None);
    assert_eq!(parse_plaintext("**here is bold**", 0), None);
    assert_eq!(parse_plaintext("`here is code`", 0), None);
    assert_eq!(parse_plaintext("[title](https://www.example.com)", 0), None);
    assert_eq!(parse_plaintext("![alt text](image.jpg)", 0), None);
    assert_eq!(parse_plaintext("", 0), None);
}

#[test]
fn test_parse_markdown_inline() {
    assert_eq!(
        parse_markdown_inline("*here is italic*", 0),
        Some((MarkdownInline::Italic("here is italic".to_string()), 16))
    );
    assert_eq!(
        parse_markdown_inline("**here is bold**", 0),
        Some((MarkdownInline::Bold("here is bold".to_string()), 16))
    );
    assert_eq!(
        parse_markdown_inline("`here is code`", 0),
        Some((MarkdownInline::InlineCode("here is code".to_string()), 14))
    );
    assert_eq!(
        parse_markdown_inline("[title](https://www.example.com)", 0),
        Some((
            MarkdownInline::Link(
                "title".to_string(),
                "https://www.example.com".to_string()
            ),
            32
        ))
    );
    assert_eq!(
        parse_markdown_inline("![alt text](image.jpg)", 0),
        Some((
            MarkdownInline::Image("alt text".to_string(), "image.jpg".to_string()),
            22
        ))
    );
    assert_eq!(
        parse_markdown_inline("here is plaintext!", 0),
        Some((
            MarkdownInline::Plaintext("here is plaintext!".to_string()),
            18
        ))
    );
    assert_eq!(
        parse_markdown_inline("here is some plaintext *but what if we italicize?", 0),
        Some((
            MarkdownInline::Plaintext("here is some plaintext ".to_string()),
            23
        ))
    );
    assert_eq!(
        parse_markdown_inline("here is some plaintext \n*but what if we italicize?", 0),
        Some((
            MarkdownInline::Plaintext("here is some plaintext ".to_string()),
            23
        ))
    );
    assert_eq!(parse_markdown_inline("\n", 0), None);
    assert_eq!(parse_markdown_inline("", 0), None);
}

#[test]
fn test_parse_markdown_text() {
    assert_eq!(parse_markdown_text_until_eol("\n", 0), Some((vec![], 1)));
    assert_eq!(
        parse_markdown_text_until_eol("here is some plaintext\n", 0),
        Some((
            vec![MarkdownInline::Plaintext("here is some plaintext".to_string())],
            23
        ))
    );
    assert_eq!(
        parse_markdown_text_until_eol("here is some plaintext *but what if we italicize?*\n", 0),
        Some((
            vec![
                MarkdownInline::Plaintext("here is some plaintext ".to_string()),
                MarkdownInline::Italic("but what if we italicize?".to_string()),
            ],
            51
        ))
    );
    assert_eq!(
        parse_markdown_text_until_eol(
            "here is some plaintext *but what if we italicize?* I guess it doesn't **matter** in my `code`\n",
            0
        ),
        Some((
            vec![
                MarkdownInline::Plaintext("here is some plaintext ".to_string()),
                MarkdownInline::Italic("but what if we italicize?".to_string()),
                MarkdownInline::Plaintext(" I guess it doesn't ".to_string()),
                MarkdownInline::Bold("matter".to_string()),
                MarkdownInline::Plaintext(" in my ".to_string()),
                MarkdownInline::InlineCode("code".to_string()),
            ],
            "here is some plaintext *but what if we italicize?* I guess it doesn't **matter** in my `code`\n".chars().count()
        ))
    );
    assert_eq!(
        parse_markdown_text_until_eol("here is some plaintext *but what if we italicize?*\n", 0),
        Some((
            vec![
                MarkdownInline::Plaintext("here is some plaintext ".to_string()),
                MarkdownInline::Italic("but what if we italicize?".to_string()),
            ],
            51
        ))
    );
    assert_eq!(
        parse_markdown_text_until_eol("here is some plaintext *but what if we italicize?", 0),
        None
    );
}

#[test]
fn test_parse_header_tag() {
    assert_eq!(
        parse_heading_tag("# ", 0),
        Some((HeadingLevel::Heading1, 2))
    );
    assert_eq!(
        parse_heading_tag("### ", 0),
        Some((HeadingLevel::Heading3, 4))
    );
    assert_eq!(
        parse_heading_tag("# h1", 0),
        Some((HeadingLevel::Heading1, 2))
    );
    assert_eq!(
        parse_heading_tag("# h1", 0),
        Some((HeadingLevel::Heading1, 2))
    );
    assert_eq!(parse_heading_tag(" ", 0), None);
    assert_eq!(parse_heading_tag("#", 0), None);
}

#[test]
fn test_parse_header() {
    assert_eq!(
        parse_heading("# h1\n", 0),
        Some((
            (
                HeadingLevel::Heading1,
                vec![MarkdownInline::Plaintext("h1".to_string())]
            ),
            5
        ))
    );
    assert_eq!(
        parse_heading("## h2\n", 0),
        Some((
            (
                HeadingLevel::Heading2,
                vec![MarkdownInline::Plaintext("h2".to_string())]
            ),
            6
        ))
    );
    assert_eq!(
        parse_heading("###  h3\n", 0),
        Some((
            (
                HeadingLevel::Heading3,
                vec![MarkdownInline::Plaintext(" h3".to_string())]
            ),
            8
        ))
    );
    assert_eq!(parse_heading("###h3", 0), None);
    assert_eq!(parse_heading("###", 0), None);
    assert_eq!(parse_heading("", 0), None);
    assert_eq!(parse_heading("#", 0), None);
    assert_eq!(
        parse_heading("# \n", 0),
        Some(((HeadingLevel::Heading1, vec![]), 3))
    );
    assert_eq!(parse_heading("# test", 0), None);
}

#[test]
fn test_parse_unordered_list_tag() {
    assert_eq!(parse_unordered_list_tag("- ", 0), Some(2));
    assert_eq!(parse_unordered_list_tag("- and some more", 0), Some(2));
    assert_eq!(parse_unordered_list_tag("-", 0), None);
    assert_eq!(parse_unordered_list_tag("-and some more", 0), None);
    assert_eq!(parse_unordered_list_tag("--", 0), None);
    assert_eq!(parse_unordered_list_tag("", 0), None);
}

#[test]
fn test_parse_unordered_list_element() {
    assert_eq!(
        parse_unordered_list_element("- this is an element\n", 0),
        Some((
            vec![MarkdownInline::Plaintext("this is an element".to_string())],
            21
        ))
    );
    assert_eq!(
        parse_unordered_list_element(
            r#"- this is an element
- this is another element
"#,
            0
        ),
        Some((
            vec![MarkdownInline::Plaintext("this is an element".to_string())],
            21
        ))
    );
    assert_eq!(parse_unordered_list_element("", 0), None);
    assert_eq!(parse_unordered_list_element("- \n", 0), Some((vec![], 3)));
    assert_eq!(parse_unordered_list_element("- ", 0), None);
    assert_eq!(parse_unordered_list_element("- test", 0), None);
    assert_eq!(parse_unordered_list_element("-", 0), None);
}

#[test]
fn test_parse_unordered_list() {
    assert_eq!(parse_unordered_list("- this is an element", 0), None);
    assert_eq!(
        parse_unordered_list("- this is an element\n", 0),
        Some((
            vec![vec![MarkdownInline::Plaintext("this is an element".to_string())]],
            21
        ))
    );
    assert_eq!(
        parse_unordered_list(
            r#"- this is an element
- here is another
"#,
            0
        ),
        Some((
            vec![
                vec![MarkdownInline::Plaintext("this is an element".to_string())],
                vec![MarkdownInline::Plaintext("here is another".to_string())],
            ],
            39
        ))
    );
}

#[test]
fn test_parse_ordered_list_tag() {
    assert_eq!(
        parse_ordered_list_tag("1. ", 0),
        Some(("1".to_string(), 3))
    );
    assert_eq!(
        parse_ordered_list_tag("1234567. ", 0),
        Some(("1234567".to_string(), 9))
    );
    assert_eq!(
        parse_ordered_list_tag("3. and some more", 0),
        Some(("3".to_string(), 3))
    );
    assert_eq!(parse_ordered_list_tag("1", 0), None);
    assert_eq!(parse_ordered_list_tag("1.and some more", 0), None);
    assert_eq!(parse_ordered_list_tag("1111.", 0), None);
    assert_eq!(parse_ordered_list_tag("", 0), None);
}

#[test]
fn test_parse_ordered_list_element() {
    assert_eq!(
        parse_ordered_list_element("1. this is an element\n", 0),
        Some((
            vec![MarkdownInline::Plaintext("this is an element".to_string())],
            22
        ))
    );
    assert_eq!(
        parse_ordered_list_element(
            r#"1. this is an element
1. here is another
"#,
            0
        ),
        Some((
            vec![MarkdownInline::Plaintext("this is an element".to_string())],
            22
        ))
    );
    assert_eq!(parse_ordered_list_element("", 0), None);
    assert_eq!(parse_ordered_list_element("", 0), None);
    assert_eq!(parse_ordered_list_element("1. \n", 0), Some((vec![], 4)));
    assert_eq!(parse_ordered_list_element("1. test", 0), None);
    assert_eq!(parse_ordered_list_element("1. ", 0), None);
    assert_eq!(parse_ordered_list_element("1.", 0), None);
}

#[test]
fn test_parse_ordered_list() {
    assert_eq!(
        parse_ordered_list("1. this is an element\n", 0),
        Some((
            vec![vec![MarkdownInline::Plaintext("this is an element".to_string())]],
            22
        ))
    );
    assert_eq!(parse_ordered_list("1. test", 0), None);
    assert_eq!(
        parse_ordered_list(
            r#"1. this is an element
2. here is another
"#,
            0
        ),
        Some((
            vec![
                vec![MarkdownInline::Plaintext("this is an element".to_string())],
                vec![MarkdownInline::Plaintext("here is another".to_string())],
            ],
            41
        ))
    );
}

#[test]
fn test_parse_codeblock() {
    assert_eq!(
        parse_code_block(
            r#"```bash
pip install foobar
```"#,
            0
        ),
        Some((
            (
                "bash".to_string(),
                r#"pip install foobar
"#
                .to_string()
            ),
            30
        ))
    );
    assert_eq!(
        parse_code_block(
            r#"```python
import foobar

foobar.pluralize('word') # returns 'words'
foobar.pluralize('goose') # returns 'geese'
foobar.singularize('phenomena') # returns 'phenomenon'
```"#,
            0
        ),
        Some((
            (
                "python".to_string(),
                r#"import foobar

foobar.pluralize('word') # returns 'words'
foobar.pluralize('goose') # returns 'geese'
foobar.singularize('phenomena') # returns 'phenomenon'
"#
                .to_string()
            ),
            r#"```python
import foobar

foobar.pluralize('word') # returns 'words'
foobar.pluralize('goose') # returns 'geese'
foobar.singularize('phenomena') # returns 'phenomenon'
```"#
                .chars()
                .count()
        ))
    );
}

#[test]
fn test_parse_codeblock_no_language() {
    assert_eq!(
        parse_code_block(
            r#"```
pip install foobar
```"#,
            0
        ),
        Some((
            (
                "__UNKNOWN_LANGUAGE__".to_string(),
                r#"pip install foobar
"#
                .to_string()
            ),
            26
        ))
    );
}

#[test]
fn test_parse_markdown() {
    let input = r#"# Foobar

Foobar is a Python library for dealing with word pluralization.

```bash
pip install foobar
```
## Installation

Use the package manager [pip](https://pip.pypa.io/en/stable/) to install foobar.
```python
import foobar

foobar.pluralize('word') # returns 'words'
foobar.pluralize('goose') # returns 'geese'
foobar.singularize('phenomena') # returns 'phenomenon'
```"#;
    let expected = vec![
        Markdown::Heading(
            HeadingLevel::Heading1,
            vec![MarkdownInline::Plaintext("Foobar".to_string())],
        ),
        Markdown::Line(vec![]),
        Markdown::Line(vec![MarkdownInline::Plaintext(
            "Foobar is a Python library for dealing with word pluralization.".to_string(),
        )]),
        Markdown::Line(vec![]),
        Markdown::Codeblock("bash".to_string(), "pip install foobar\n".to_string()),
        Markdown::Line(vec![]),
        Markdown::Heading(
            HeadingLevel::Heading2,
            vec![MarkdownInline::Plaintext("Installation".to_string())],
        ),
        Markdown::Line(vec![]),
        Markdown::Line(vec![
            MarkdownInline::Plaintext("Use the package manager ".to_string()),
            MarkdownInline::Link(
                "pip".to_string(),
                "https://pip.pypa.io/en/stable/".to_string(),
            ),
            MarkdownInline::Plaintext(" to install foobar.".to_string()),
        ]),
        Markdown::Codeblock(
            "python".to_string(),
            r#"import foobar

foobar.pluralize('word') # returns 'words'
foobar.pluralize('goose') # returns 'geese'
foobar.singularize('phenomena') # returns 'phenomenon'
"#
            .to_string(),
        ),
    ];
    assert_eq!(parse_markdown(input, 0), (expected, input.chars().count()));
}
