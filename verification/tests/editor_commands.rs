use writing_unicorns::editor::Editor;

fn editor_with(text: &str, path: Option<&str>) -> Editor {
    let mut e = Editor::new();
    e.set_content(text.to_string(), path.map(|p| p.to_string()));
    e
}

#[test]
fn new_lines_above_and_below() {
    let mut e = editor_with("one\ntwo", None);
    e.cursor.set_position(1, 2);
    e.insert_line_above();
    assert_eq!(e.buffer.to_string(), "one\n\ntwo");
    assert_eq!(e.cursor.position(), (1, 0));
    e.insert_line_below();
    assert_eq!(e.buffer.to_string(), "one\n\n\ntwo");
    assert_eq!(e.cursor.position(), (2, 0));
    assert!(e.buffer.undo());
    assert_eq!(e.buffer.to_string(), "one\n\ntwo");
}

#[test]
fn move_line_up_and_back_down() {
    let mut e = editor_with("a\nb\nc", None);
    e.cursor.set_position(2, 0);
    assert!(e.move_line_up());
    assert_eq!(e.buffer.to_string(), "a\nc\nb");
    assert_eq!(e.cursor.row, 1);
    assert!(e.move_line_down());
    assert_eq!(e.buffer.to_string(), "a\nb\nc");
    assert_eq!(e.cursor.row, 2);
    assert!(!e.move_line_down());
    e.cursor.set_position(0, 0);
    assert!(!e.move_line_up());
}

#[test]
fn cursors_added_above_and_below() {
    let mut e = editor_with("abcdef\nxy\nlonger line", None);
    e.cursor.set_position(1, 1);
    e.add_cursor_above();
    e.add_cursor_below();
    let mut got: Vec<(usize, usize)> = e.extra_cursors.iter().map(|c| c.position()).collect();
    got.sort();
    assert_eq!(got, vec![(0, 1), (2, 1)]);
    e.cursor.set_position(0, 5);
    e.extra_cursors.clear();
    e.add_cursor_below();
    assert_eq!(e.extra_cursors[0].position(), (1, 2));
}

#[test]
fn home_end_and_select_all() {
    let mut e = editor_with("  abc\nde", None);
    e.cursor.set_position(0, 3);
    e.cursors_to_line_edge(true);
    assert_eq!(e.cursor.position(), (0, 5));
    e.cursors_to_line_edge(false);
    assert_eq!(e.cursor.position(), (0, 0));
    e.select_all();
    assert_eq!(e.cursor.position(), (1, 2));
    assert_eq!(e.cursor.sel_anchor, Some((0, 0)));
}

#[test]
fn delete_lines_of_all_cursors() {
    let mut e = editor_with("l0\nl1\nl2\nl3", None);
    e.cursor.set_position(3, 1);
    e.add_cursor_above();
    e.delete_cursor_lines();
    assert_eq!(e.buffer.to_string(), "l0\nl1\n");
    assert!(e.extra_cursors.is_empty());
    assert_eq!(e.cursor.position(), (2, 0));
}

#[test]
fn indent_and_outdent_lines() {
    let mut e = editor_with("fn a() {\nx\n}", None);
    e.cursor.set_position(1, 1);
    e.indent_lines();
    assert_eq!(e.buffer.to_string(), "fn a() {\n    x\n}");
    assert_eq!(e.cursor.position(), (1, 5));
    e.outdent_lines();
    assert_eq!(e.buffer.to_string(), "fn a() {\nx\n}");
    assert_eq!(e.cursor.position(), (1, 1));
    e.outdent_lines();
    assert_eq!(e.buffer.to_string(), "fn a() {\nx\n}");
}

#[test]
fn toggle_comment_by_extension() {
    let mut e = editor_with("    let a = 1;\n    let b = 2;", Some("/p/m.rs"));
    e.cursor.sel_anchor = Some((0, 0));
    e.cursor.set_position(1, 3);
    e.toggle_comment();
    assert_eq!(e.buffer.to_string(), "//     let a = 1;\n//     let b = 2;");
    e.toggle_comment();
    assert_eq!(e.buffer.to_string(), "    let a = 1;\n    let b = 2;");
    let mut py = editor_with("x = 1", Some("/p/s.py"));
    py.toggle_comment();
    assert_eq!(py.buffer.to_string(), "# x = 1");
}

#[test]
fn select_next_occurrence_adds_cursors() {
    let mut e = editor_with("foo bar foo\nfoo", None);
    e.cursor.set_position(0, 1);
    e.select_next_occurrence();
    assert_eq!(e.cursor.sel_anchor, Some((0, 0)));
    assert_eq!(e.cursor.position(), (0, 3));
    e.select_next_occurrence();
    assert_eq!(e.cursor.sel_anchor, Some((0, 8)));
    assert_eq!(e.cursor.position(), (0, 11));
    assert_eq!(e.extra_cursors.len(), 1);
    e.select_next_occurrence();
    assert_eq!(e.cursor.sel_anchor, Some((1, 0)));
    assert_eq!(e.extra_cursors.len(), 2);
}

#[test]
fn escape_closes_find_and_drops_cursors() {
    let mut e = editor_with("abc", None);
    e.show_find = true;
    e.find_query = "b".to_string();
    e.update_find_matches();
    e.add_cursor_below();
    e.cursor.sel_anchor = Some((0, 0));
    e.escape();
    assert!(!e.show_find);
    assert!(e.find_query.is_empty());
    assert!(e.find_matches.is_empty());
    assert_eq!(e.cursor.sel_anchor, None);
}

#[test]
fn copy_without_selection_takes_the_line() {
    let mut e = editor_with("first\nsecond", None);
    e.cursor.set_position(1, 2);
    assert_eq!(e.copy_text(), "second\n");
    e.cursor.sel_anchor = Some((0, 2));
    assert_eq!(e.copy_text(), "rst\nse");
}

#[test]
fn copy_with_several_cursors_joins_parts() {
    let mut e = editor_with("alpha\nbeta\ngamma", None);
    e.cursor.sel_anchor = Some((0, 1));
    e.cursor.set_position(1, 2);
    e.add_cursor_below();
    e.extra_cursors[0].sel_anchor = Some((2, 1));
    e.extra_cursors[0].set_position(2, 4);
    assert_eq!(e.copy_text(), "lpha\nbe\namm");
}

#[test]
fn cut_removes_the_selection() {
    let mut e = editor_with("hello world", None);
    assert_eq!(e.cut_selection(), None);
    e.cursor.sel_anchor = Some((0, 5));
    e.cursor.set_position(0, 11);
    assert_eq!(e.cut_selection(), Some(" world".to_string()));
    assert_eq!(e.buffer.to_string(), "hello");
    assert_eq!(e.cursor.position(), (0, 5));
    assert!(e.buffer.undo());
    assert_eq!(e.buffer.to_string(), "hello world");
}

#[test]
fn double_click_and_drag_select() {
    let mut e = editor_with("let some_name = 1;", None);
    e.select_word_at(0, 7);
    assert_eq!(e.cursor.sel_anchor, Some((0, 4)));
    assert_eq!(e.cursor.position(), (0, 13));
    e.click_at(0, 2, false, false);
    assert_eq!(e.cursor.sel_anchor, Some((0, 2)));
    e.drag_to(0, 9);
    assert_eq!((e.cursor.sel_anchor, e.cursor.position()), (Some((0, 2)), (0, 9)));
    e.click_at(0, 0, true, false);
    assert_eq!(e.extra_cursors.len(), 1);
    e.click_at(0, 17, false, true);
    assert_eq!(e.cursor.sel_anchor, Some((0, 2)));
    assert_eq!(e.cursor.position(), (0, 17));
}

#[test]
fn go_to_line_clamps_and_closes() {
    let mut e = editor_with("a\nb\nc", None);
    e.show_goto_line = true;
    e.goto_line_input = " 2 ".to_string();
    e.go_to_line();
    assert_eq!(e.cursor.position(), (1, 0));
    assert!(!e.show_goto_line);
    assert!(e.goto_line_input.is_empty());
    e.goto_line_input = "99".to_string();
    e.go_to_line();
    assert_eq!(e.cursor.position(), (2, 0));
    e.goto_line_input = "x1".to_string();
    e.go_to_line();
    assert_eq!(e.cursor.position(), (2, 0));
}
