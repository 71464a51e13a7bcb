use md_parser::translator::{
    translate, translate_boldtext, translate_codeblock, translate_header, translate_image,
    translate_inline_code, translate_italic, translate_line, translate_link,
    translate_list_elements, translate_ordered_list, translate_text, translate_unordered_list,
};
use md_parser::types::{HeadingLevel, MarkdownInline};

#[test]
fn test_translate_boldtext() {
    assert_eq!(
        translate_boldtext(String::from("bold af")),
        String::from("<b>bold af</b>")
    );
}

#[test]
fn test_translate_italic() {
    assert_eq!(
        translate_italic(String::from("italic af")),
        String::from("<i>italic af</i>")
    );
}

#[test]
fn test_translate_inline_code() {
    assert_eq!(
        translate_inline_code(String::from("code af")),
        String::from("<code>code af</code>")
    );
}

#[test]
fn test_translate_link() {
    assert_eq!(
        translate_link(
            String::from("click me!"),
            String::from("https://github.com")
        ),
        String::from("<a href=\"https://github.com\">click me!</a>")
    );
}

#[test]
fn test_translate_image() {
    assert_eq!(
        translate_image(String::from("alt text"), String::from("https://github.com")),
        String::from("<img src=\"https://github.com\" alt=\"alt text\" />")
    );
}

#[test]
fn test_translate_text() {
    let x = translate_text(&vec![
        MarkdownInline::Plaintext(
            "Foobar is a Python library for dealing with word pluralization.".to_string(),
        ),
        MarkdownInline::Bold("bold".to_string()),
        MarkdownInline::Italic("italic".to_string()),
        MarkdownInline::InlineCode("code".to_string()),
        MarkdownInline::Link("tag".to_string(), "https://link.com".to_string()),
        MarkdownInline::Image("tag".to_string(), "https://link.com".to_string()),
        MarkdownInline::Plaintext(". the end!".to_string()),
    ]);
    assert_eq!(x, String::from("Foobar is a Python library for dealing with word pluralization.<b>bold</b><i>italic</i><code>code</code><a href=\"https://link.com\">tag</a><img src=\"https://link.com\" alt=\"tag\" />. the end!"));
    let x = translate_text(&vec![]);
    assert_eq!(x, String::from(""));
}

#[test]
fn test_translate_header() {
    assert_eq!(
        translate_header(
            &HeadingLevel::Heading1,
            &vec![MarkdownInline::Plaintext("Foobar".to_string())]
        ),
        String::from("<h1>Foobar</h1>")
    );
}

#[test]
fn test_translate_list_elements() {
    assert_eq!(
        translate_list_elements(&vec![
            vec![MarkdownInline::Plaintext("Foobar".to_string())],
            vec![MarkdownInline::Plaintext("Foobar".to_string())],
            vec![MarkdownInline::Plaintext("Foobar".to_string())],
            vec![MarkdownInline::Plaintext("Foobar".to_string())],
        ]),
        String::from("<li>Foobar</li><li>Foobar</li><li>Foobar</li><li>Foobar</li>")
    );
}

#[test]
fn test_translate_unordered_list() {
    assert_eq!(
        translate_unordered_list(&vec![
            vec![MarkdownInline::Plaintext("Foobar".to_string())],
            vec![MarkdownInline::Plaintext("Foobar".to_string())],
            vec![MarkdownInline::Plaintext("Foobar".to_string())],
            vec![MarkdownInline::Plaintext("Foobar".to_string())],
        ]),
        String::from("<ul><li>Foobar</li><li>Foobar</li><li>Foobar</li><li>Foobar</li></ul>")
    );
}

#[test]
fn test_translate_ordered_list() {
    assert_eq!(
        translate_ordered_list(&vec![
            vec![MarkdownInline::Plaintext("Foobar".to_string())],
            vec![MarkdownInline::Plaintext("Foobar".to_string())],
            vec![MarkdownInline::Plaintext("Foobar".to_string())],
            vec![MarkdownInline::Plaintext("Foobar".to_string())],
        ]),
        String::from("<ol><li>Foobar</li><li>Foobar</li><li>Foobar</li><li>Foobar</li></ol>")
    );
}

#[test]
fn test_translate_codeblock() {
    assert_eq!(
        translate_codeblock(
            String::from("python"),
            String::from(
                r#"
import foobar

foobar.pluralize(\'word\') # returns \'words\'
foobar.pluralize(\'goose\') # returns \'geese\'
foobar.singularize(\'phenomena\') # returns \'phenomenon\'
"#
            )
        ),
        String::from(
            r#"<pre><code class="lang-python">
import foobar

foobar.pluralize(\'word\') # returns \'words\'
foobar.pluralize(\'goose\') # returns \'geese\'
foobar.singularize(\'phenomena\') # returns \'phenomenon\'
</code></pre>"#
        )
    );
}

#[test]
fn test_translate_line() {
    assert_eq!(
        translate_line(&vec![
            MarkdownInline::Plaintext("Foobar".to_string()),
            MarkdownInline::Bold("Foobar".to_string()),
            MarkdownInline::Italic("Foobar".to_string()),
            MarkdownInline::InlineCode("Foobar".to_string()),
        ]),
        String::from("<p>Foobar<b>Foobar</b><i>Foobar</i><code>Foobar</code></p>")
    );
}

#[test]
fn test_translate_twice_same_tree() {
    let tree = vec![
        md_parser::types::Markdown::Heading(
            HeadingLevel::Heading2,
            vec![MarkdownInline::Plaintext("twice".to_string())],
        ),
        md_parser::types::Markdown::Line(vec![MarkdownInline::Italic("again".to_string())]),
    ];
    let first = translate(tree.clone());
    let second = translate(tree);
    assert_eq!(first, second);
    assert_eq!(first, String::from("<h2>twice</h2><p><i>again</i></p>"));
}
