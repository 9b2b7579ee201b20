//! Key bindings and editor settings.
use vstd::prelude::*;

use crate::text::{chars_eq, chars_string, owned, str_chars};

verus! {

#[derive(Debug, Clone)]
pub struct KeyBinding {
    pub key: String,
    pub ctrl: bool,
    pub shift: bool,
    pub alt: bool,
}

/// The keys a binding can name.
#[derive(Debug, Clone, Copy, PartialEq, Eq, Structural)]
pub enum KeyCode {
    A,
    B,
    C,
    D,
    E,
    F,
    G,
    H,
    I,
    J,
    K,
    L,
    M,
    N,
    O,
    P,
    Q,
    R,
    S,
    T,
    U,
    V,
    W,
    X,
    Y,
    Z,
    Backtick,
    Comma,
    F1,
    F2,
    F3,
    F4,
    F5,
    F6,
    F7,
    F8,
    F9,
    F10,
    F11,
    F12,
    Enter,
    Escape,
    Tab,
    Space,
    Delete,
    Backspace,
    ArrowUp,
    ArrowDown,
    ArrowLeft,
    ArrowRight,
    Home,
    End,
    PageUp,
    PageDown,
    OpenBracket,
    CloseBracket,
    Slash,
    Backslash,
    Period,
}

/// The key a binding's key name stands for.
pub open spec fn key_of(s: Seq<char>) -> Option<KeyCode> {
    if s == "A"@ {
        Some(KeyCode::A)
    } else if s == "B"@ {
        Some(KeyCode::B)
    } else if s == "C"@ {
        Some(KeyCode::C)
    } else if s == "D"@ {
        Some(KeyCode::D)
    } else if s == "E"@ {
        Some(KeyCode::E)
    } else if s == "F"@ {
        Some(KeyCode::F)
    } else if s == "G"@ {
        Some(KeyCode::G)
    } else if s == "H"@ {
        Some(KeyCode::H)
    } else if s == "I"@ {
        Some(KeyCode::I)
    } else if s == "J"@ {
        Some(KeyCode::J)
    } else if s == "K"@ {
        Some(KeyCode::K)
    } else if s == "L"@ {
        Some(KeyCode::L)
    } else if s == "M"@ {
        Some(KeyCode::M)
    } else if s == "N"@ {
        Some(KeyCode::N)
    } else if s == "O"@ {
        Some(KeyCode::O)
    } else if s == "P"@ {
        Some(KeyCode::P)
    } else if s == "Q"@ {
        Some(KeyCode::Q)
    } else if s == "R"@ {
        Some(KeyCode::R)
    } else if s == "S"@ {
        Some(KeyCode::S)
    } else if s == "T"@ {
        Some(KeyCode::T)
    } else if s == "U"@ {
        Some(KeyCode::U)
    } else if s == "V"@ {
        Some(KeyCode::V)
    } else if s == "W"@ {
        Some(KeyCode::W)
    } else if s == "X"@ {
        Some(KeyCode::X)
    } else if s == "Y"@ {
        Some(KeyCode::Y)
    } else if s == "Z"@ {
        Some(KeyCode::Z)
    } else if s == "Backtick"@ {
        Some(KeyCode::Backtick)
    } else if s == "Comma"@ {
        Some(KeyCode::Comma)
    } else if s == "F1"@ {
        Some(KeyCode::F1)
    } else if s == "F2"@ {
        Some(KeyCode::F2)
    } else if s == "F3"@ {
        Some(KeyCode::F3)
    } else if s == "F4"@ {
        Some(KeyCode::F4)
    } else if s == "F5"@ {
        Some(KeyCode::F5)
    } else if s == "F6"@ {
        Some(KeyCode::F6)
    } else if s == "F7"@ {
        Some(KeyCode::F7)
    } else if s == "F8"@ {
        Some(KeyCode::F8)
    } else if s == "F9"@ {
        Some(KeyCode::F9)
    } else if s == "F10"@ {
        Some(KeyCode::F10)
    } else if s == "F11"@ {
        Some(KeyCode::F11)
    } else if s == "F12"@ {
        Some(KeyCode::F12)
    } else if s == "Enter"@ {
        Some(KeyCode::Enter)
    } else if s == "Escape"@ {
        Some(KeyCode::Escape)
    } else if s == "Tab"@ {
        Some(KeyCode::Tab)
    } else if s == "Space"@ {
        Some(KeyCode::Space)
    } else if s == "Delete"@ {
        Some(KeyCode::Delete)
    } else if s == "Backspace"@ {
        Some(KeyCode::Backspace)
    } else if s == "ArrowUp"@ {
        Some(KeyCode::ArrowUp)
    } else if s == "ArrowDown"@ {
        Some(KeyCode::ArrowDown)
    } else if s == "ArrowLeft"@ {
        Some(KeyCode::ArrowLeft)
    } else if s == "ArrowRight"@ {
        Some(KeyCode::ArrowRight)
    } else if s == "Home"@ {
        Some(KeyCode::Home)
    } else if s == "End"@ {
        Some(KeyCode::End)
    } else if s == "PageUp"@ {
        Some(KeyCode::PageUp)
    } else if s == "PageDown"@ {
        Some(KeyCode::PageDown)
    } else if s == "OpenBracket"@ || s == "["@ {
        Some(KeyCode::OpenBracket)
    } else if s == "CloseBracket"@ || s == "]"@ {
        Some(KeyCode::CloseBracket)
    } else if s == "Slash"@ || s == "/"@ {
        Some(KeyCode::Slash)
    } else if s == "Backslash"@ || s == "\\"@ {
        Some(KeyCode::Backslash)
    } else if s == "Period"@ || s == "."@ {
        Some(KeyCode::Period)
    } else {
        None
    }
}

/// The model of a binding: key name and the three modifiers.
pub open spec fn binding_model(k: KeyBinding) -> (Seq<char>, bool, bool, bool) {
    (k.key@, k.ctrl, k.shift, k.alt)
}

/// `Ctrl+`, `Shift+`, `Alt+` for the modifiers held, then the key name.
pub open spec fn display_text(k: KeyBinding) -> Seq<char> {
    (if k.ctrl { "Ctrl+"@ } else { seq![] }) + (if k.shift { "Shift+"@ } else { seq![] })
        + (if k.alt { "Alt+"@ } else { seq![] }) + k.key@
}

fn is_key(v: &Vec<char>, name: &str) -> (b: bool)
    ensures
        b == (v@ == name@),
{
    chars_eq(v, &str_chars(name))
}

impl KeyBinding {
    pub fn new(key: &str, ctrl: bool, shift: bool, alt: bool) -> (k: Self)
        ensures
            binding_model(k) == (key@, ctrl, shift, alt),
    {
        KeyBinding { key: owned(key), ctrl, shift, alt }
    }

    /// The key this binding names, if it is one the editor knows.
    pub fn parse_key(&self) -> (r: Option<KeyCode>)
        ensures
            r == key_of(self.key@),
    {
        let v = str_chars(self.key.as_str());
        if is_key(&v, "A") {
            Some(KeyCode::A)
        } else if is_key(&v, "B") {
            Some(KeyCode::B)
        } else if is_key(&v, "C") {
            Some(KeyCode::C)
        } else if is_key(&v, "D") {
            Some(KeyCode::D)
        } else if is_key(&v, "E") {
            Some(KeyCode::E)
        } else if is_key(&v, "F") {
            Some(KeyCode::F)
        } else if is_key(&v, "G") {
            Some(KeyCode::G)
        } else if is_key(&v, "H") {
            Some(KeyCode::H)
        } else if is_key(&v, "I") {
            Some(KeyCode::I)
        } else if is_key(&v, "J") {
            Some(KeyCode::J)
        } else if is_key(&v, "K") {
            Some(KeyCode::K)
        } else if is_key(&v, "L") {
            Some(KeyCode::L)
        } else if is_key(&v, "M") {
            Some(KeyCode::M)
        } else if is_key(&v, "N") {
            Some(KeyCode::N)
        } else if is_key(&v, "O") {
            Some(KeyCode::O)
        } else if is_key(&v, "P") {
            Some(KeyCode::P)
        } else if is_key(&v, "Q") {
            Some(KeyCode::Q)
        } else if is_key(&v, "R") {
            Some(KeyCode::R)
        } else if is_key(&v, "S") {
            Some(KeyCode::S)
        } else if is_key(&v, "T") {
            Some(KeyCode::T)
        } else if is_key(&v, "U") {
            Some(KeyCode::U)
        } else if is_key(&v, "V") {
            Some(KeyCode::V)
        } else if is_key(&v, "W") {
            Some(KeyCode::W)
        } else if is_key(&v, "X") {
            Some(KeyCode::X)
        } else if is_key(&v, "Y") {
            Some(KeyCode::Y)
        } else if is_key(&v, "Z") {
            Some(KeyCode::Z)
        } else if is_key(&v, "Backtick") {
            Some(KeyCode::Backtick)
        } else if is_key(&v, "Comma") {
            Some(KeyCode::Comma)
        } else if is_key(&v, "F1") {
            Some(KeyCode::F1)
        } else if is_key(&v, "F2") {
            Some(KeyCode::F2)
        } else if is_key(&v, "F3") {
            Some(KeyCode::F3)
        } else if is_key(&v, "F4") {
            Some(KeyCode::F4)
        } else if is_key(&v, "F5") {
            Some(KeyCode::F5)
        } else if is_key(&v, "F6") {
            Some(KeyCode::F6)
        } else if is_key(&v, "F7") {
            Some(KeyCode::F7)
        } else if is_key(&v, "F8") {
            Some(KeyCode::F8)
        } else if is_key(&v, "F9") {
            Some(KeyCode::F9)
        } else if is_key(&v, "F10") {
            Some(KeyCode::F10)
        } else if is_key(&v, "F11") {
            Some(KeyCode::F11)
        } else if is_key(&v, "F12") {
            Some(KeyCode::F12)
        } else if is_key(&v, "Enter") {
            Some(KeyCode::Enter)
        } else if is_key(&v, "Escape") {
            Some(KeyCode::Escape)
        } else if is_key(&v, "Tab") {
            Some(KeyCode::Tab)
        } else if is_key(&v, "Space") {
            Some(KeyCode::Space)
        } else if is_key(&v, "Delete") {
            Some(KeyCode::Delete)
        } else if is_key(&v, "Backspace") {
            Some(KeyCode::Backspace)
        } else if is_key(&v, "ArrowUp") {
            Some(KeyCode::ArrowUp)
        } else if is_key(&v, "ArrowDown") {
            Some(KeyCode::ArrowDown)
        } else if is_key(&v, "ArrowLeft") {
            Some(KeyCode::ArrowLeft)
        } else if is_key(&v, "ArrowRight") {
            Some(KeyCode::ArrowRight)
        } else if is_key(&v, "Home") {
            Some(KeyCode::Home)
        } else if is_key(&v, "End") {
            Some(KeyCode::End)
        } else if is_key(&v, "PageUp") {
            Some(KeyCode::PageUp)
        } else if is_key(&v, "PageDown") {
            Some(KeyCode::PageDown)
        } else if is_key(&v, "OpenBracket") || is_key(&v, "[") {
            Some(KeyCode::OpenBracket)
        } else if is_key(&v, "CloseBracket") || is_key(&v, "]") {
            Some(KeyCode::CloseBracket)
        } else if is_key(&v, "Slash") || is_key(&v, "/") {
            Some(KeyCode::Slash)
        } else if is_key(&v, "Backslash") || is_key(&v, "\\") {
            Some(KeyCode::Backslash)
        } else if is_key(&v, "Period") || is_key(&v, ".") {
            Some(KeyCode::Period)
        } else {
            None
        }
    }

    /// The binding as shown to the user, e.g. `Ctrl+Shift+O`.
    pub fn display(&self) -> (s: String)
        ensures
            s@ == display_text(*self),
    {
        let mut v: Vec<char> = Vec::new();
        if self.ctrl {
            crate::text::append_chars(&mut v, &str_chars("Ctrl+"));
        }
        if self.shift {
            crate::text::append_chars(&mut v, &str_chars("Shift+"));
        }
        if self.alt {
            crate::text::append_chars(&mut v, &str_chars("Alt+"));
        }
        crate::text::append_chars(&mut v, &str_chars(self.key.as_str()));
        proof {
            assert(v@ =~= display_text(*self));
        }
        chars_string(&v)
    }
}

#[derive(Debug, Clone)]
pub struct KeyBindings {
    pub new_file: KeyBinding,
    pub open_folder: KeyBinding,
    pub open_file: KeyBinding,
    pub save: KeyBinding,
    pub command_palette: KeyBinding,
    pub toggle_sidebar: KeyBinding,
    pub toggle_terminal: KeyBinding,
    pub shortcuts_help: KeyBinding,
    pub settings: KeyBinding,
    pub find: KeyBinding,
    pub close_tab: KeyBinding,
    pub go_to_line: KeyBinding,
    pub indent: KeyBinding,
    pub unindent: KeyBinding,
    pub select_next_occurrence: KeyBinding,
    pub select_all_occurrences: KeyBinding,
    pub toggle_comment: KeyBinding,
    pub delete_line: KeyBinding,
    pub duplicate_line: KeyBinding,
    pub insert_line_below: KeyBinding,
    pub insert_line_above: KeyBinding,
    pub move_line_up: KeyBinding,
    pub move_line_down: KeyBinding,
    pub add_cursor_above: KeyBinding,
    pub add_cursor_below: KeyBinding,
    pub trigger_completion: KeyBinding,
    pub find_replace: KeyBinding,
    pub undo: KeyBinding,
    pub redo: KeyBinding,
    pub select_all: KeyBinding,
    pub goto_definition: KeyBinding,
    pub navigate_back: KeyBinding,
    pub navigate_forward: KeyBinding,
    pub toggle_split: KeyBinding,
    pub find_references: KeyBinding,
    pub rename_symbol: KeyBinding,
    pub code_actions: KeyBinding,
    pub toggle_blame: KeyBinding,
    pub format_document: KeyBinding,
    pub debug_start: KeyBinding,
    pub debug_toggle_breakpoint: KeyBinding,
    pub debug_step_over: KeyBinding,
    pub debug_step_into: KeyBinding,
    pub debug_step_out: KeyBinding,
}

/// `kb` is the default key map.
pub open spec fn is_default_map(kb: KeyBindings) -> bool {
    &&& binding_model(kb.new_file) == ("N"@, true, false, false)
    &&& binding_model(kb.open_folder) == ("O"@, true, false, false)
    &&& binding_model(kb.open_file) == ("O"@, true, true, false)
    &&& binding_model(kb.save) == ("S"@, true, false, false)
    &&& binding_model(kb.command_palette) == ("P"@, true, false, false)
    &&& binding_model(kb.toggle_sidebar) == ("B"@, true, false, false)
    &&& binding_model(kb.toggle_terminal) == ("Backtick"@, true, false, false)
    &&& binding_model(kb.shortcuts_help) == ("F1"@, false, false, false)
    &&& binding_model(kb.settings) == ("Comma"@, true, false, false)
    &&& binding_model(kb.find) == ("F"@, true, false, false)
    &&& binding_model(kb.close_tab) == ("W"@, true, false, false)
    &&& binding_model(kb.go_to_line) == ("G"@, true, false, false)
    &&& binding_model(kb.indent) == ("CloseBracket"@, true, false, false)
    &&& binding_model(kb.unindent) == ("OpenBracket"@, true, false, false)
    &&& binding_model(kb.select_next_occurrence) == ("D"@, true, false, false)
    &&& binding_model(kb.select_all_occurrences) == ("L"@, true, true, false)
    &&& binding_model(kb.toggle_comment) == ("Slash"@, true, false, false)
    &&& binding_model(kb.delete_line) == ("K"@, true, true, false)
    &&& binding_model(kb.duplicate_line) == ("D"@, true, true, false)
    &&& binding_model(kb.insert_line_below) == ("Enter"@, true, false, false)
    &&& binding_model(kb.insert_line_above) == ("Enter"@, true, true, false)
    &&& binding_model(kb.move_line_up) == ("ArrowUp"@, false, false, true)
    &&& binding_model(kb.move_line_down) == ("ArrowDown"@, false, false, true)
    &&& binding_model(kb.add_cursor_above) == ("ArrowUp"@, true, false, true)
    &&& binding_model(kb.add_cursor_below) == ("ArrowDown"@, true, false, true)
    &&& binding_model(kb.trigger_completion) == ("Space"@, true, false, false)
    &&& binding_model(kb.find_replace) == ("H"@, true, false, false)
    &&& binding_model(kb.undo) == ("Z"@, true, false, false)
    &&& binding_model(kb.redo) == ("Z"@, true, true, false)
    &&& binding_model(kb.select_all) == ("A"@, true, false, false)
    &&& binding_model(kb.goto_definition) == ("F12"@, false, false, false)
    &&& binding_model(kb.navigate_back) == ("ArrowLeft"@, false, false, true)
    &&& binding_model(kb.navigate_forward) == ("ArrowRight"@, false, false, true)
    &&& binding_model(kb.toggle_split) == ("Backslash"@, true, false, false)
    &&& binding_model(kb.find_references) == ("F12"@, false, true, false)
    &&& binding_model(kb.rename_symbol) == ("F2"@, false, false, false)
    &&& binding_model(kb.code_actions) == ("Period"@, true, false, false)
    &&& binding_model(kb.toggle_blame) == ("B"@, true, false, true)
    &&& binding_model(kb.format_document) == ("F"@, true, true, false)
    &&& binding_model(kb.debug_start) == ("F5"@, false, false, false)
    &&& binding_model(kb.debug_toggle_breakpoint) == ("F9"@, false, false, false)
    &&& binding_model(kb.debug_step_over) == ("F10"@, false, false, false)
    &&& binding_model(kb.debug_step_into) == ("F11"@, false, false, false)
    &&& binding_model(kb.debug_step_out) == ("F11"@, false, true, false)
}

impl KeyBindings {
    /// The default key map.
    pub fn default_bindings() -> (kb: Self)
        ensures
            is_default_map(kb),
    {
        KeyBindings {
            new_file: KeyBinding::new("N", true, false, false),
            open_folder: KeyBinding::new("O", true, false, false),
            open_file: KeyBinding::new("O", true, true, false),
            save: KeyBinding::new("S", true, false, false),
            command_palette: KeyBinding::new("P", true, false, false),
            toggle_sidebar: KeyBinding::new("B", true, false, false),
            toggle_terminal: KeyBinding::new("Backtick", true, false, false),
            shortcuts_help: KeyBinding::new("F1", false, false, false),
            settings: KeyBinding::new("Comma", true, false, false),
            find: KeyBinding::new("F", true, false, false),
            close_tab: KeyBinding::new("W", true, false, false),
            go_to_line: KeyBinding::new("G", true, false, false),
            indent: KeyBinding::new("CloseBracket", true, false, false),
            unindent: KeyBinding::new("OpenBracket", true, false, false),
            select_next_occurrence: KeyBinding::new("D", true, false, false),
            select_all_occurrences: KeyBinding::new("L", true, true, false),
            toggle_comment: KeyBinding::new("Slash", true, false, false),
            delete_line: KeyBinding::new("K", true, true, false),
            duplicate_line: KeyBinding::new("D", true, true, false),
            insert_line_below: KeyBinding::new("Enter", true, false, false),
            insert_line_above: KeyBinding::new("Enter", true, true, false),
            move_line_up: KeyBinding::new("ArrowUp", false, false, true),
            move_line_down: KeyBinding::new("ArrowDown", false, false, true),
            add_cursor_above: KeyBinding::new("ArrowUp", true, false, true),
            add_cursor_below: KeyBinding::new("ArrowDown", true, false, true),
            trigger_completion: KeyBinding::new("Space", true, false, false),
            find_replace: KeyBinding::new("H", true, false, false),
            undo: KeyBinding::new("Z", true, false, false),
            redo: KeyBinding::new("Z", true, true, false),
            select_all: KeyBinding::new("A", true, false, false),
            goto_definition: KeyBinding::new("F12", false, false, false),
            navigate_back: KeyBinding::new("ArrowLeft", false, false, true),
            navigate_forward: KeyBinding::new("ArrowRight", false, false, true),
            toggle_split: KeyBinding::new("Backslash", true, false, false),
            find_references: KeyBinding::new("F12", false, true, false),
            rename_symbol: KeyBinding::new("F2", false, false, false),
            code_actions: KeyBinding::new("Period", true, false, false),
            toggle_blame: KeyBinding::new("B", true, false, true),
            format_document: KeyBinding::new("F", true, true, false),
            debug_start: KeyBinding::new("F5", false, false, false),
            debug_toggle_breakpoint: KeyBinding::new("F9", false, false, false),
            debug_step_over: KeyBinding::new("F10", false, false, false),
            debug_step_into: KeyBinding::new("F11", false, false, false),
            debug_step_out: KeyBinding::new("F11", false, true, false),
        }
    }
}

impl Default for KeyBindings {
    fn default() -> (kb: Self)
        ensures
            is_default_map(kb),
    {
        KeyBindings::default_bindings()
    }
}

#[derive(Debug, Clone)]
pub struct Theme {
    pub name: String,
    pub background: [u8; 3],
    pub foreground: [u8; 3],
    pub accent: [u8; 3],
}

#[derive(Debug, Clone)]
pub struct EditorConfig {
    pub tab_size: usize,
    pub insert_spaces: bool,
    pub word_wrap: bool,
    pub line_numbers: bool,
    pub auto_save: bool,
    pub auto_close_brackets: bool,
    pub show_gitignored: bool,
    pub show_minimap: bool,
}

impl Theme {
    /// The default dark theme.
    pub fn dark() -> (t: Self)
        ensures
            t.name@ == "dark"@,
            t.background@ == seq![30u8, 30, 30],
            t.foreground@ == seq![212u8, 212, 212],
            t.accent@ == seq![0u8, 122, 204],
    {
        let t = Theme { name: owned("dark"), background: [30, 30, 30], foreground: [212, 212, 212], accent: [0, 122, 204] };
        proof {
            assert(t.background@ =~= seq![30u8, 30, 30]);
            assert(t.foreground@ =~= seq![212u8, 212, 212]);
            assert(t.accent@ =~= seq![0u8, 122, 204]);
        }
        t
    }
}

impl EditorConfig {
    /// The default editor settings.
    pub fn defaults() -> (c: Self)
        ensures
            c.tab_size == 4,
            c.insert_spaces,
            !c.word_wrap,
            c.line_numbers,
            !c.auto_save,
            c.auto_close_brackets,
            !c.show_gitignored,
            c.show_minimap,
    {
        EditorConfig {
            tab_size: 4,
            insert_spaces: true,
            word_wrap: false,
            line_numbers: true,
            auto_save: false,
            auto_close_brackets: true,
            show_gitignored: false,
            show_minimap: true,
        }
    }
}

} // verus!
