use writing_unicorns::editor::bracket_match::find_matching_bracket;
use writing_unicorns::editor::buffer::Buffer;
use writing_unicorns::editor::diff::classify_line_diff;
use writing_unicorns::editor::folding::compute_fold_regions;
use writing_unicorns::editor::indent::detect_indent;
use writing_unicorns::editor::Editor;

fn editor_with(text: &str) -> Editor {
    let mut e = Editor::new();
    e.set_content(text.to_string(), None);
    e
}

#[test]
fn buffer_lines_and_insertions() {
    let mut b = Buffer::from_str("ab\ncd");
    assert_eq!(b.num_lines(), 2);
    assert_eq!(b.line(1), "cd");
    b.insert_char(0, 1, 'X');
    assert_eq!(b.to_string(), "aXb\ncd");
    b.insert_str(1, 2, "!?");
    assert_eq!(b.to_string(), "aXb\ncd!?");
    assert_eq!(b.line(5), "");
}

#[test]
fn buffer_undo_restores_checkpoint() {
    let mut b = Buffer::from_str("hello");
    b.checkpoint();
    b.insert_str(0, 5, " world");
    b.delete_char(0, 0);
    assert_eq!(b.to_string(), "ello world");
    assert!(b.undo());
    assert_eq!(b.to_string(), "hello");
    assert!(b.redo());
    assert_eq!(b.to_string(), "ello world");
    assert!(!b.redo());
}

#[test]
fn buffer_split_then_join_restores() {
    let mut b = Buffer::from_str("abcdef\nxyz");
    b.split_line(0, 3);
    assert_eq!(b.to_string(), "abc\ndef\nxyz");
    b.join_lines(0);
    assert_eq!(b.to_string(), "abc\ndef\nxyz");
    b.join_lines(1);
    assert_eq!(b.to_string(), "abcdef\nxyz");
    b.delete_line(0);
    assert_eq!(b.to_string(), "xyz");
}

#[test]
fn typing_moves_cursor_and_marks_modified() {
    let mut e = editor_with("ac");
    e.cursor.set_position(0, 1);
    e.insert_char('b', false);
    assert_eq!(e.buffer.to_string(), "abc");
    assert_eq!(e.cursor.position(), (0, 2));
    assert!(e.is_modified);
}

#[test]
fn typing_an_opening_bracket_closes_it() {
    let mut e = editor_with("");
    e.insert_char('(', true);
    assert_eq!(e.buffer.to_string(), "()");
    assert_eq!(e.cursor.position(), (0, 1));
    e.insert_char(')', true);
    assert_eq!(e.buffer.to_string(), "()");
    assert_eq!(e.cursor.position(), (0, 2));
}

#[test]
fn backspace_at_line_start_joins_lines() {
    let mut e = editor_with("ab\ncd");
    e.cursor.set_position(1, 0);
    e.delete_char_before();
    assert_eq!(e.buffer.to_string(), "abcd");
    assert_eq!(e.cursor.position(), (0, 2));
}

#[test]
fn newline_splits_and_undo_brings_it_back() {
    let mut e = editor_with("abcd");
    e.cursor.set_position(0, 2);
    e.insert_newline();
    assert_eq!(e.buffer.to_string(), "ab\ncd");
    assert_eq!(e.cursor.position(), (1, 0));
    assert!(e.buffer.undo());
    assert_eq!(e.buffer.to_string(), "abcd");
}

#[test]
fn matching_bracket_across_lines() {
    let b = Buffer::from_str("fn f() {\n  (x)\n}");
    assert_eq!(find_matching_bracket(&b, 0, 7), Some((0, 7, 2, 0)));
    assert_eq!(find_matching_bracket(&b, 2, 0), Some((0, 7, 2, 0)));
    assert_eq!(find_matching_bracket(&b, 1, 0), None);
}

#[test]
fn fold_regions_follow_indentation() {
    let b = Buffer::from_str("fn a() {\n    let x = 1;\n    let y = 2;\n}\nfn b() {}");
    assert_eq!(compute_fold_regions(&b), vec![(0, 2)]);
}

#[test]
fn indent_detection_votes() {
    assert_eq!(detect_indent("a\n  b\n  c\n\td"), (true, 2));
    assert_eq!(detect_indent("\ta\n\tb\n    c"), (false, 4));
    assert_eq!(detect_indent("plain"), (true, 4));
}

#[test]
fn line_diff_markers() {
    let old = "a\nb\nc";
    let new = "a\nc\nz\nb";
    assert_eq!(classify_line_diff(old, new, 5), vec![0, 2, 1, 2, 0]);
}

#[test]
fn find_rows_by_regex_and_case() {
    let mut e = editor_with("abc\nxyz\naXc\nABC");
    e.cursor.set_position(1, 0);
    e.find_query = "a.c".to_string();
    e.find_use_regex = true;
    e.find_case_sensitive = true;
    e.update_find_matches();
    assert_eq!(e.find_matches, vec![0, 2]);
    assert_eq!(e.find_current, 1);
    assert_eq!(e.cursor.position(), (2, 0));
    e.find_case_sensitive = false;
    e.update_find_matches();
    assert_eq!(e.find_matches, vec![0, 2, 3]);
    e.find_query = "(".to_string();
    e.update_find_matches();
    assert!(e.find_matches.is_empty());
}

#[test]
fn find_plain_ignoring_case() {
    let mut e = editor_with("Hello\nworld\nHELLO there");
    e.find_query = "hello".to_string();
    e.find_use_regex = false;
    e.find_case_sensitive = false;
    e.update_find_matches();
    assert_eq!(e.find_matches, vec![0, 2]);
    e.find_next();
    assert_eq!(e.cursor.position(), (2, 0));
    e.find_next();
    assert_eq!(e.cursor.position(), (0, 0));
}

#[test]
fn tab_title_and_language_from_path() {
    let mut e = Editor::new();
    e.set_content("x".to_string(), Some("/tmp/Dockerfile".to_string()));
    assert_eq!(e.highlighter.language, "dockerfile");
    e.set_content("x".to_string(), Some("/tmp/main.RS".to_string()));
    assert_eq!(e.highlighter.language, "rs");
}
