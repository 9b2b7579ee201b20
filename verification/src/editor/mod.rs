//! Editing logic: the text buffer, cursors and the operations on them.
pub mod auto_close;
pub mod autocomplete;
pub mod bracket_match;
pub mod clipboard;
pub mod commands;
pub mod buffer;
pub mod cursor;
pub mod diff;
pub mod editing;
pub mod folding;
pub mod highlight;
pub mod hover;
pub mod indent;
pub mod multi_cursor;
pub mod search;
pub mod input;
pub mod keys;
pub mod utils;
pub mod word_analysis;

use vstd::prelude::*;

use autocomplete::Autocomplete;
use buffer::{Buffer, BufferModel};
use cursor::Cursor;
use highlight::{filename_language, Highlighter};
use indent::{detect_indent, detected_indent};
use crate::paths::{file_name_of, path_file_name};
use crate::text::lowercase;

verus! {

pub struct Editor {
    pub buffer: Buffer,
    pub cursor: Cursor,
    pub extra_cursors: Vec<Cursor>,
    pub highlighter: Highlighter,
    pub autocomplete: Autocomplete,
    pub current_path: Option<String>,
    pub is_modified: bool,
    pub show_find: bool,
    pub find_query: String,
    pub find_matches: Vec<usize>,
    pub find_current: usize,
    pub show_goto_line: bool,
    pub goto_line_input: String,
    /// Set to scroll the viewport so the cursor is visible on the next frame.
    pub scroll_to_cursor: bool,
    /// Populated by Ctrl+click; consumed by the app to navigate to a definition.
    pub go_to_definition_request: Option<String>,
    /// Word under the mouse when Ctrl is held: (row, start_col, end_col).
    pub ctrl_hover_word_bounds: Option<(usize, usize, usize)>,
    /// Word currently under the mouse pointer.
    pub hover_word: Option<String>,
    /// Resolved signature shown in the hover tooltip (empty: looked up, nothing found).
    pub hover_signature: Option<String>,
    /// Root path of the open workspace.
    pub workspace_path: Option<String>,
    /// Counter bumped (wrapping) on every edit; tells language servers about changes.
    pub content_version: i32,
    pub hover_lsp_request_pending: bool,
    pub hover_row: u32,
    pub hover_col: u32,
    pub completion_request_pending: bool,
    pub completion_trigger_row: usize,
    pub completion_trigger_col: usize,
    pub diag_hover_msg: Option<String>,
    pub show_blame: bool,
    pub signature_help_request_pending: bool,
    pub signature_help_text: Option<String>,
    pub signature_help_row: u32,
    pub signature_help_col: u32,
    /// Whether the open file indents with spaces (true) or tabs (false).
    pub detected_indent_spaces: bool,
    /// Detected indent unit size.
    pub detected_indent_size: usize,
    pub show_replace: bool,
    pub replace_query: String,
    pub find_case_sensitive: bool,
    pub find_use_regex: bool,
    /// Per-line diff status against the last commit.
    pub line_diff: Vec<u8>,
    /// Path `line_diff` was computed for.
    pub line_diff_path: Option<String>,
    pub format_request_pending: bool,
    /// Word-wrap column (0: no wrap).
    pub wrap_col: usize,
    /// (open_row, open_col, close_row, close_col) of the matching bracket pair.
    pub bracket_match: Option<(usize, usize, usize, usize)>,
    /// Cached (start, end) foldable regions.
    pub fold_regions: Vec<(usize, usize)>,
    /// Symbol at the cursor, for the breadcrumbs.
    pub current_symbol: Option<String>,
    /// Visible occurrences of the selected word: (row, col_start, col_end).
    pub word_occurrences: Vec<(usize, usize, usize)>,
    /// Content version `word_occurrences` was computed for.
    pub word_occurrences_version: i32,
    /// The word `word_occurrences` are of.
    pub word_occurrences_word: String,
}

/// `a` and `b` agree on everything no editing, search or content operation touches.
pub open spec fn same_view_state(a: Editor, b: Editor) -> bool {
    &&& a.show_goto_line == b.show_goto_line
    &&& a.goto_line_input == b.goto_line_input
    &&& a.go_to_definition_request == b.go_to_definition_request
    &&& a.ctrl_hover_word_bounds == b.ctrl_hover_word_bounds
    &&& a.workspace_path == b.workspace_path
    &&& a.hover_row == b.hover_row
    &&& a.hover_col == b.hover_col
    &&& a.completion_request_pending == b.completion_request_pending
    &&& a.completion_trigger_row == b.completion_trigger_row
    &&& a.completion_trigger_col == b.completion_trigger_col
    &&& a.show_blame == b.show_blame
    &&& a.signature_help_row == b.signature_help_row
    &&& a.signature_help_col == b.signature_help_col
    &&& a.show_replace == b.show_replace
    &&& a.replace_query == b.replace_query
    &&& a.find_case_sensitive == b.find_case_sensitive
    &&& a.find_use_regex == b.find_use_regex
    &&& a.line_diff == b.line_diff
    &&& a.line_diff_path == b.line_diff_path
    &&& a.format_request_pending == b.format_request_pending
    &&& a.wrap_col == b.wrap_col
    &&& a.bracket_match == b.bracket_match
    &&& a.word_occurrences == b.word_occurrences
    &&& a.word_occurrences_version == b.word_occurrences_version
    &&& a.word_occurrences_word == b.word_occurrences_word
}

/// `a` and `b` agree on everything but the text, the cursors, the modified
/// flag and the content version.
pub open spec fn same_besides_edit(a: Editor, b: Editor) -> bool {
    &&& same_view_state(a, b)
    &&& a.highlighter == b.highlighter
    &&& a.autocomplete == b.autocomplete
    &&& a.current_path == b.current_path
    &&& a.show_find == b.show_find
    &&& a.find_query == b.find_query
    &&& a.find_matches == b.find_matches
    &&& a.find_current == b.find_current
    &&& a.scroll_to_cursor == b.scroll_to_cursor
    &&& a.hover_word == b.hover_word
    &&& a.hover_signature == b.hover_signature
    &&& a.hover_lsp_request_pending == b.hover_lsp_request_pending
    &&& a.diag_hover_msg == b.diag_hover_msg
    &&& a.signature_help_request_pending == b.signature_help_request_pending
    &&& a.signature_help_text == b.signature_help_text
    &&& a.detected_indent_spaces == b.detected_indent_spaces
    &&& a.detected_indent_size == b.detected_indent_size
    &&& a.fold_regions == b.fold_regions
    &&& a.current_symbol == b.current_symbol
}

/// The language `set_content` picks for a file at `path`, if it picks one.
pub open spec fn content_language(path: Option<String>) -> Option<Seq<char>> {
    match path {
        Some(p) => match file_name_of(p@) {
            Some(name) => Some(lowercase(filename_language(name))),
            None => None,
        },
        None => None,
    }
}

impl Editor {
    pub fn new() -> (e: Self)
        ensures
            e.buffer@ == (BufferModel { text: seq![], history: seq![], future: seq![] }),
            e.cursor == (Cursor { row: 0, col: 0, desired_col: 0, sel_anchor: None }),
            e.extra_cursors@.len() == 0,
            e.highlighter.language@.len() == 0,
            e.highlighter.last_version == -1,
            !e.autocomplete.visible && e.autocomplete.suggestions@.len() == 0,
            e.current_path is None,
            !e.is_modified,
            !e.show_find && e.find_query@.len() == 0 && e.find_matches@.len() == 0 && e.find_current == 0,
            e.content_version == 0,
            e.detected_indent_spaces && e.detected_indent_size == 4,
            e.replace_query@.len() == 0 && !e.find_case_sensitive && !e.find_use_regex,
            e.wrap_col == 0,
            e.word_occurrences@.len() == 0 && e.word_occurrences_version == -1 && e.word_occurrences_word@.len() == 0,
    {
        Editor {
            buffer: Buffer::new(),
            cursor: Cursor::new(),
            extra_cursors: Vec::new(),
            highlighter: Highlighter::new(),
            autocomplete: Autocomplete::new(),
            current_path: None,
            is_modified: false,
            show_find: false,
            find_query: String::new(),
            find_matches: Vec::new(),
            find_current: 0,
            show_goto_line: false,
            goto_line_input: String::new(),
            scroll_to_cursor: false,
            go_to_definition_request: None,
            ctrl_hover_word_bounds: None,
            hover_word: None,
            hover_signature: None,
            workspace_path: None,
            content_version: 0,
            hover_lsp_request_pending: false,
            hover_row: 0,
            hover_col: 0,
            completion_request_pending: false,
            completion_trigger_row: 0,
            completion_trigger_col: 0,
            diag_hover_msg: None,
            show_blame: false,
            signature_help_request_pending: false,
            signature_help_text: None,
            signature_help_row: 0,
            signature_help_col: 0,
            detected_indent_spaces: true,
            detected_indent_size: 4,
            show_replace: false,
            replace_query: String::new(),
            find_case_sensitive: false,
            find_use_regex: false,
            line_diff: Vec::new(),
            line_diff_path: None,
            format_request_pending: false,
            wrap_col: 0,
            bracket_match: None,
            fold_regions: Vec::new(),
            current_symbol: None,
            word_occurrences: Vec::new(),
            word_occurrences_version: -1,
            word_occurrences_word: String::new(),
        }
    }

    /// Loads `content` (from the file at `path`, if any): fresh buffer and
    /// cursor, cleared find and hover state, indentation detected from the
    /// content, and the language picked from the file name.
    pub fn set_content(&mut self, content: String, path: Option<String>)
        ensures
            final(self).buffer@ == (BufferModel { text: content@, history: seq![], future: seq![] }),
            final(self).cursor == (Cursor { row: 0, col: 0, desired_col: 0, sel_anchor: None }),
            final(self).extra_cursors@.len() == 0,
            !final(self).autocomplete.visible && final(self).autocomplete.query@.len() == 0
                && final(self).autocomplete.suggestions@.len() == 0 && final(self).autocomplete.selected == 0,
            final(self).current_path == path,
            !final(self).is_modified,
            final(self).content_version == 0,
            !final(self).hover_lsp_request_pending,
            final(self).hover_signature is None && final(self).hover_word is None,
            !final(self).show_find && final(self).find_query@.len() == 0 && final(self).find_matches@.len() == 0,
            final(self).find_current == old(self).find_current,
            final(self).scroll_to_cursor == old(self).scroll_to_cursor,
            final(self).diag_hover_msg is None,
            final(self).signature_help_text is None && !final(self).signature_help_request_pending,
            final(self).fold_regions@.len() == 0,
            final(self).current_symbol is None,
            (final(self).detected_indent_spaces, final(self).detected_indent_size) == detected_indent(content@),
            match content_language(path) {
                Some(lang) => final(self).highlighter.language@ == lang
                    && (old(self).highlighter.language@ == lang ==> final(self).highlighter == old(self).highlighter)
                    && (old(self).highlighter.language@ != lang ==> final(self).highlighter.last_version == -1
                        && final(self).highlighter.line_tokens@.len() == 0),
                None => final(self).highlighter == old(self).highlighter,
            },
            same_view_state(*old(self), *final(self)),
    {
        let lang: Option<String> = match &path {
            Some(p) => path_file_name(p.as_str()),
            None => None,
        };
        self.buffer = Buffer::from_str(content.as_str());
        self.cursor = Cursor::new();
        self.extra_cursors = Vec::new();
        self.autocomplete = Autocomplete::new();
        self.current_path = path;
        self.is_modified = false;
        self.content_version = 0;
        self.hover_lsp_request_pending = false;
        self.hover_signature = None;
        self.hover_word = None;
        self.show_find = false;
        self.find_query = String::new();
        self.find_matches = Vec::new();
        self.diag_hover_msg = None;
        self.signature_help_text = None;
        self.signature_help_request_pending = false;
        self.fold_regions = Vec::new();
        self.current_symbol = None;
        let (spaces, size) = detect_indent(content.as_str());
        self.detected_indent_spaces = spaces;
        self.detected_indent_size = size;
        if let Some(name) = lang {
            self.highlighter.set_language_from_filename(name.as_str());
        }
    }

    /// The word currently under the mouse pointer.
    pub fn hovered_word(&self) -> (r: Option<&str>)
        ensures
            match r {
                Some(w) => self.hover_word matches Some(h) && w@ == h@,
                None => self.hover_word is None,
            },
    {
        match &self.hover_word {
            Some(w) => Some(w.as_str()),
            None => None,
        }
    }

    /// Decides whether the line diff markers are stale. Without an open file
    /// they are cleared; when they were computed for the open file nothing
    /// happens; otherwise the open file is recorded as the one they are for,
    /// and its path is returned: the caller computes the markers for it.
    pub fn refresh_line_diff(&mut self) -> (r: Option<String>)
        ensures
            match old(self).current_path {
                None => r is None && final(self).line_diff@.len() == 0 && final(self).line_diff_path == old(self).line_diff_path,
                Some(p) => if old(self).line_diff_path matches Some(q) && q@ == p@ {
                    r is None && final(self).line_diff == old(self).line_diff && final(self).line_diff_path == old(self).line_diff_path
                } else {
                    &&& (r matches Some(x) && x@ == p@)
                    &&& (final(self).line_diff_path matches Some(y) && y@ == p@)
                    &&& final(self).line_diff == old(self).line_diff
                },
            },
            final(self).buffer@ == old(self).buffer@,
            final(self).current_path == old(self).current_path,
    {
        let path = match &self.current_path {
            Some(p) => crate::text::copy_string(p),
            None => {
                self.line_diff = Vec::new();
                return None;
            },
        };
        let same = match &self.line_diff_path {
            Some(q) => crate::text::chars_eq(&crate::text::str_chars(q.as_str()), &crate::text::str_chars(path.as_str())),
            None => false,
        };
        if same {
            return None;
        }
        self.line_diff_path = Some(crate::text::copy_string(&path));
        Some(path)
    }

    /// Forces the line diff to be recomputed (after a save).
    pub fn invalidate_line_diff(&mut self)
        ensures
            final(self).line_diff_path is None,
            final(self).line_diff == old(self).line_diff,
            final(self).buffer@ == old(self).buffer@,
    {
        self.line_diff_path = None;
    }
}

} // verus!
