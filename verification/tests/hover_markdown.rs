use writing_unicorns::editor::hover::{inline_markdown_spans, parse_hover_sections, HoverSection, SpanStyle};

fn describe(sections: &[HoverSection]) -> Vec<String> {
    sections
        .iter()
        .map(|s| match s {
            HoverSection::CodeBlock { lang, code } => format!("code[{lang}]:{code}"),
            HoverSection::Text(t) => format!("text:{t}"),
            HoverSection::Separator => "sep".to_string(),
        })
        .collect()
}

#[test]
fn sections_code_text_and_rule() {
    let md = "```rust\nfn main()\n```\n---\nRuns the program.\nTwice.";
    let got = describe(&parse_hover_sections(md));
    assert_eq!(got, vec!["code[rust]:fn main()", "sep", "text:Runs the program.\nTwice."]);
}

#[test]
fn sections_blank_prose_is_dropped() {
    let got = describe(&parse_hover_sections("  \n***\n\n"));
    assert_eq!(got, vec!["sep"]);
}

#[test]
fn sections_unterminated_code_block_is_kept() {
    let got = describe(&parse_hover_sections("intro\n  ``` python \nx = 1\ny = 2"));
    assert_eq!(got, vec!["text:intro", "code[``` python]:x = 1\ny = 2"]);
}

#[test]
fn sections_empty_unterminated_block_is_dropped() {
    let got = describe(&parse_hover_sections("```\n"));
    assert!(got.is_empty());
}

fn spans(t: &str) -> Vec<(SpanStyle, String)> {
    inline_markdown_spans(t)
}

#[test]
fn spans_bold_italic_and_code() {
    let got = spans("a **b** _c_ `d`");
    assert_eq!(
        got,
        vec![
            (SpanStyle::Normal, "a ".to_string()),
            (SpanStyle::Bold, "b".to_string()),
            (SpanStyle::Normal, " ".to_string()),
            (SpanStyle::Italic, "c".to_string()),
            (SpanStyle::Normal, " ".to_string()),
            (SpanStyle::Code, " ".to_string()),
            (SpanStyle::Code, "d".to_string()),
            (SpanStyle::Code, " ".to_string()),
        ]
    );
}

#[test]
fn spans_plain_text_is_one_run() {
    assert_eq!(spans("just words"), vec![(SpanStyle::Normal, "just words".to_string())]);
    assert!(spans("").is_empty());
}

#[test]
fn spans_unclosed_bold_leaves_last_character() {
    // The bold run stops before the last character, which is then read as plain text.
    assert_eq!(spans("**ab"), vec![(SpanStyle::Bold, "a".to_string()), (SpanStyle::Normal, "b".to_string())]);
}

#[test]
fn spans_empty_code_is_dropped() {
    assert_eq!(spans("x``y"), vec![(SpanStyle::Normal, "x".to_string()), (SpanStyle::Normal, "y".to_string())]);
}
