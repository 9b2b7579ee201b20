use writing_unicorns::editor::highlight::{tokens_from_events, HighlightStep, Highlighter, Token, TokenKind};

fn rows(source: &str, events: &[HighlightStep]) -> Vec<Vec<(String, TokenKind)>> {
    tokens_from_events(source, &events.to_vec())
        .into_iter()
        .map(|row| row.into_iter().map(|t| (t.text, t.kind)).collect())
        .collect()
}

#[test]
fn no_events_give_plain_lines() {
    let got = rows("let a;\n\nb", &[]);
    assert_eq!(
        got,
        vec![vec![("let a;".to_string(), TokenKind::Normal)], vec![], vec![("b".to_string(), TokenKind::Normal)]]
    );
    assert_eq!(rows("", &[]), vec![Vec::<(String, TokenKind)>::new()]);
}

#[test]
fn captures_take_the_innermost_kind() {
    // "fn main" : keyword capture (index 10) over "fn", plain source for the rest.
    let ev = [
        HighlightStep::Start(10),
        HighlightStep::Source { start: 0, end: 2 },
        HighlightStep::End,
        HighlightStep::Source { start: 2, end: 7 },
    ];
    assert_eq!(
        rows("fn main", &ev),
        vec![vec![("fn".to_string(), TokenKind::Keyword), (" main".to_string(), TokenKind::Normal)]]
    );
}

#[test]
fn spans_across_lines_are_split() {
    // A comment capture (index 1) covering "/*a\nb*/".
    let ev = [HighlightStep::Start(1), HighlightStep::Source { start: 0, end: 7 }, HighlightStep::End];
    assert_eq!(
        rows("/*a\nb*/", &ev),
        vec![vec![("/*a".to_string(), TokenKind::Comment)], vec![("b*/".to_string(), TokenKind::Comment)]]
    );
}

#[test]
fn byte_offsets_inside_a_character_are_skipped() {
    // "é" takes two bytes; a stretch ending at byte 1 falls inside it.
    let ev = [HighlightStep::Start(22), HighlightStep::Source { start: 0, end: 1 }];
    assert_eq!(rows("é", &ev), vec![vec![("é".to_string(), TokenKind::Normal)]]);
    let ev2 = [HighlightStep::Start(22), HighlightStep::Source { start: 0, end: 2 }];
    assert_eq!(rows("é", &ev2), vec![vec![("é".to_string(), TokenKind::String)]]);
}

fn tok(text: &str, kind: TokenKind) -> Token {
    Token { text: text.to_string(), kind }
}

fn cache(h: &Highlighter) -> Vec<Vec<(String, TokenKind)>> {
    h.line_tokens.iter().map(|row| row.iter().map(|t| (t.text.clone(), t.kind)).collect()).collect()
}

#[test]
fn document_cache_prefers_document_tokens() {
    let mut h = Highlighter::new();
    h.highlight_document("a\nb", 1, Some(vec![vec![tok("a", TokenKind::Keyword)]]), None, None);
    assert_eq!(cache(&h), vec![vec![("a".to_string(), TokenKind::Keyword)]]);
    assert_eq!(h.last_version, 1);
    // Same version: nothing is rebuilt.
    h.highlight_document("zzz", 1, None, None, None);
    assert_eq!(cache(&h), vec![vec![("a".to_string(), TokenKind::Keyword)]]);
}

#[test]
fn document_cache_falls_back_to_plain_lines() {
    let mut h = Highlighter::new();
    // Empty document result, no highlighter; the line tokenizer styles nothing.
    h.highlight_document("x y\n\nz", 2, Some(vec![]), None, Some(vec![None, None, Some(vec![tok("z", TokenKind::Normal)])]));
    assert_eq!(
        cache(&h),
        vec![vec![("x y".to_string(), TokenKind::Normal)], vec![], vec![("z".to_string(), TokenKind::Normal)]]
    );
    // A line tokenizer that styles something is used.
    h.highlight_document("fn f", 3, None, None, Some(vec![Some(vec![tok("fn", TokenKind::Keyword), tok(" f", TokenKind::Normal)])]));
    assert_eq!(cache(&h)[0].len(), 2);
}

#[test]
fn tokens_for_line_uses_cache_then_plugin() {
    let mut h = Highlighter::new();
    h.highlight_document("a\n\nc", 1, None, Some(vec![vec![tok("a", TokenKind::Number)], vec![], vec![]]), None);
    assert_eq!(h.tokens_for_line(0, "a", None).len(), 1);
    assert_eq!(h.tokens_for_line(0, "a", None)[0].kind, TokenKind::Number);
    let from_plugin = h.tokens_for_line(2, "c", Some(vec![tok("c", TokenKind::String)]));
    assert_eq!(from_plugin[0].kind, TokenKind::String);
    let plain = h.tokens_for_line(7, "late", None);
    assert_eq!((plain[0].text.as_str(), plain[0].kind), ("late", TokenKind::Normal));
}
