//! Which editing action a key press stands for.
use vstd::prelude::*;

use crate::config::KeyCode;
use crate::text::{lines, split_lines, str_chars, texts, to_strings};

verus! {

/// What the editor does for a key press.
#[derive(Debug, Clone, Copy, PartialEq, Eq, Structural)]
pub enum KeyAction {
    /// Opens a new line above the cursor's line.
    InsertLineAbove,
    /// Opens a new line below the cursor's line.
    InsertLineBelow,
    /// Takes the selected completion.
    ConfirmCompletion,
    /// Breaks the line at every cursor.
    Newline,
    /// Deletes backwards at every cursor.
    Backspace,
    /// Swaps the cursor's line with the one above.
    MoveLineUp,
    /// Swaps the cursor's line with the one below.
    MoveLineDown,
    /// Adds a cursor on the line above.
    AddCursorAbove,
    /// Adds a cursor on the line below.
    AddCursorBelow,
    /// Selects the previous completion.
    CompletionUp,
    /// Selects the next completion.
    CompletionDown,
    SelectLeft,
    SelectRight,
    SelectUp,
    SelectDown,
    Left,
    Right,
    Up,
    Down,
    SelectToDocStart,
    SelectToDocEnd,
    DocStart,
    DocEnd,
    SelectToLineStart,
    SelectToLineEnd,
    LineStart,
    LineEnd,
    /// Inserts one indent unit.
    InsertIndent,
    /// Nothing happens.
    Nothing,
    Save,
    Undo,
    Redo,
    SelectAll,
    SelectNextOccurrence,
    SelectAllOccurrences,
    Copy,
    Cut,
    TriggerCompletion,
    Rename,
    FormatDocument,
    Find,
    FindReplace,
    GoToLine,
    ToggleComment,
    /// Duplicates the cursor's line.
    DuplicateLine,
    /// Deletes the lines of every cursor.
    DeleteLine,
    /// Indents the selected lines.
    IndentLines,
    /// Unindents the selected lines.
    UnindentLines,
    /// Closes the completion list.
    DismissCompletion,
    /// Closes find and go-to-line and leaves one cursor without a selection.
    Escape,
}

/// The action for a key pressed with the given modifiers, while the
/// completion list is open or not. The first rule that applies wins, so
/// Ctrl+Shift+D selects the next occurrence, as Ctrl+D does.
pub open spec fn key_action_of(key: KeyCode, ctrl: bool, shift: bool, alt: bool, completion_open: bool) -> KeyAction {
    match key {
        KeyCode::Enter => if ctrl && shift { KeyAction::InsertLineAbove } else if ctrl { KeyAction::InsertLineBelow } else if completion_open { KeyAction::ConfirmCompletion } else { KeyAction::Newline },
        KeyCode::Backspace => KeyAction::Backspace,
        KeyCode::ArrowUp => if ctrl && shift { KeyAction::MoveLineUp } else if alt && ctrl { KeyAction::AddCursorAbove } else if completion_open { KeyAction::CompletionUp } else if shift { KeyAction::SelectUp } else { KeyAction::Up },
        KeyCode::ArrowDown => if ctrl && shift { KeyAction::MoveLineDown } else if alt && ctrl { KeyAction::AddCursorBelow } else if completion_open { KeyAction::CompletionDown } else if shift { KeyAction::SelectDown } else { KeyAction::Down },
        KeyCode::ArrowLeft => if shift { KeyAction::SelectLeft } else { KeyAction::Left },
        KeyCode::ArrowRight => if shift { KeyAction::SelectRight } else { KeyAction::Right },
        KeyCode::Home => if ctrl && shift { KeyAction::SelectToDocStart } else if ctrl { KeyAction::DocStart } else if shift { KeyAction::SelectToLineStart } else { KeyAction::LineStart },
        KeyCode::End => if ctrl && shift { KeyAction::SelectToDocEnd } else if ctrl { KeyAction::DocEnd } else if shift { KeyAction::SelectToLineEnd } else { KeyAction::LineEnd },
        KeyCode::Tab => if completion_open { KeyAction::ConfirmCompletion } else if !shift { KeyAction::InsertIndent } else { KeyAction::Nothing },
        KeyCode::S => if ctrl { KeyAction::Save } else { KeyAction::Nothing },
        KeyCode::Z => if ctrl && !shift { KeyAction::Undo } else if ctrl && shift { KeyAction::Redo } else { KeyAction::Nothing },
        KeyCode::Y => if ctrl { KeyAction::Redo } else { KeyAction::Nothing },
        KeyCode::A => if ctrl { KeyAction::SelectAll } else { KeyAction::Nothing },
        KeyCode::D => if ctrl { KeyAction::SelectNextOccurrence } else if ctrl && shift { KeyAction::DuplicateLine } else { KeyAction::Nothing },
        KeyCode::L => if ctrl && shift { KeyAction::SelectAllOccurrences } else { KeyAction::Nothing },
        KeyCode::C => if ctrl { KeyAction::Copy } else { KeyAction::Nothing },
        KeyCode::X => if ctrl { KeyAction::Cut } else { KeyAction::Nothing },
        KeyCode::Space => if ctrl { KeyAction::TriggerCompletion } else { KeyAction::Nothing },
        KeyCode::F2 => KeyAction::Rename,
        KeyCode::F => if ctrl && shift { KeyAction::FormatDocument } else if ctrl { KeyAction::Find } else { KeyAction::Nothing },
        KeyCode::H => if ctrl { KeyAction::FindReplace } else { KeyAction::Nothing },
        KeyCode::G => if ctrl { KeyAction::GoToLine } else { KeyAction::Nothing },
        KeyCode::Slash => if ctrl { KeyAction::ToggleComment } else { KeyAction::Nothing },
        KeyCode::K => if ctrl && shift { KeyAction::DeleteLine } else { KeyAction::Nothing },
        KeyCode::CloseBracket => if ctrl { KeyAction::IndentLines } else { KeyAction::Nothing },
        KeyCode::OpenBracket => if ctrl { KeyAction::UnindentLines } else { KeyAction::Nothing },
        KeyCode::Escape => if completion_open { KeyAction::DismissCompletion } else { KeyAction::Escape },
        _ => KeyAction::Nothing,
    }
}

/// The action for a key press (see `key_action_of`).
pub fn key_action(key: KeyCode, ctrl: bool, shift: bool, alt: bool, completion_open: bool) -> (r: KeyAction)
    ensures
        r == key_action_of(key, ctrl, shift, alt, completion_open),
{
    match key {
        KeyCode::Enter => if ctrl && shift { KeyAction::InsertLineAbove } else if ctrl { KeyAction::InsertLineBelow } else if completion_open { KeyAction::ConfirmCompletion } else { KeyAction::Newline },
        KeyCode::Backspace => KeyAction::Backspace,
        KeyCode::ArrowUp => if ctrl && shift { KeyAction::MoveLineUp } else if alt && ctrl { KeyAction::AddCursorAbove } else if completion_open { KeyAction::CompletionUp } else if shift { KeyAction::SelectUp } else { KeyAction::Up },
        KeyCode::ArrowDown => if ctrl && shift { KeyAction::MoveLineDown } else if alt && ctrl { KeyAction::AddCursorBelow } else if completion_open { KeyAction::CompletionDown } else if shift { KeyAction::SelectDown } else { KeyAction::Down },
        KeyCode::ArrowLeft => if shift { KeyAction::SelectLeft } else { KeyAction::Left },
        KeyCode::ArrowRight => if shift { KeyAction::SelectRight } else { KeyAction::Right },
        KeyCode::Home => if ctrl && shift { KeyAction::SelectToDocStart } else if ctrl { KeyAction::DocStart } else if shift { KeyAction::SelectToLineStart } else { KeyAction::LineStart },
        KeyCode::End => if ctrl && shift { KeyAction::SelectToDocEnd } else if ctrl { KeyAction::DocEnd } else if shift { KeyAction::SelectToLineEnd } else { KeyAction::LineEnd },
        KeyCode::Tab => if completion_open { KeyAction::ConfirmCompletion } else if !shift { KeyAction::InsertIndent } else { KeyAction::Nothing },
        KeyCode::S => if ctrl { KeyAction::Save } else { KeyAction::Nothing },
        KeyCode::Z => if ctrl && !shift { KeyAction::Undo } else if ctrl && shift { KeyAction::Redo } else { KeyAction::Nothing },
        KeyCode::Y => if ctrl { KeyAction::Redo } else { KeyAction::Nothing },
        KeyCode::A => if ctrl { KeyAction::SelectAll } else { KeyAction::Nothing },
        KeyCode::D => if ctrl { KeyAction::SelectNextOccurrence } else if ctrl && shift { KeyAction::DuplicateLine } else { KeyAction::Nothing },
        KeyCode::L => if ctrl && shift { KeyAction::SelectAllOccurrences } else { KeyAction::Nothing },
        KeyCode::C => if ctrl { KeyAction::Copy } else { KeyAction::Nothing },
        KeyCode::X => if ctrl { KeyAction::Cut } else { KeyAction::Nothing },
        KeyCode::Space => if ctrl { KeyAction::TriggerCompletion } else { KeyAction::Nothing },
        KeyCode::F2 => KeyAction::Rename,
        KeyCode::F => if ctrl && shift { KeyAction::FormatDocument } else if ctrl { KeyAction::Find } else { KeyAction::Nothing },
        KeyCode::H => if ctrl { KeyAction::FindReplace } else { KeyAction::Nothing },
        KeyCode::G => if ctrl { KeyAction::GoToLine } else { KeyAction::Nothing },
        KeyCode::Slash => if ctrl { KeyAction::ToggleComment } else { KeyAction::Nothing },
        KeyCode::K => if ctrl && shift { KeyAction::DeleteLine } else { KeyAction::Nothing },
        KeyCode::CloseBracket => if ctrl { KeyAction::IndentLines } else { KeyAction::Nothing },
        KeyCode::OpenBracket => if ctrl { KeyAction::UnindentLines } else { KeyAction::Nothing },
        KeyCode::Escape => if completion_open { KeyAction::DismissCompletion } else { KeyAction::Escape },
        _ => KeyAction::Nothing,
    }
}

/// What typing `ch` asks of the language server: signature help after `(`
/// or `,`, closing the signature help after `)`, completion after `.`.
pub open spec fn typed_requests(ch: char) -> (bool, bool, bool) {
    (ch == '(' || ch == ',', ch == ')', ch == '.')
}

/// The requests typing `ch` raises (see `typed_requests`): (signature help,
/// close signature help, completion).
pub fn requests_after_typing(ch: char) -> (r: (bool, bool, bool))
    ensures
        r == typed_requests(ch),
{
    (ch == '(' || ch == ',', ch == ')', ch == '.')
}

/// How a paste is spread over `cursors` cursors: one line to each cursor
/// (top to bottom) when there are several cursors and the text has exactly
/// that many lines; otherwise none, and the whole text goes to every cursor.
pub open spec fn paste_lines(cursors: nat, text: Seq<char>) -> Option<Seq<Seq<char>>> {
    if cursors > 1 && lines(text).len() == cursors {
        Some(lines(text))
    } else {
        None
    }
}

/// The lines a paste gives each cursor (see `paste_lines`).
pub fn split_paste(cursors: usize, text: &str) -> (r: Option<Vec<String>>)
    ensures
        match r {
            Some(ls) => paste_lines(cursors as nat, text@) == Some(texts(ls@)),
            None => paste_lines(cursors as nat, text@) is None,
        },
{
    let ls = split_lines(&str_chars(text));
    if cursors > 1 && ls.len() == cursors {
        Some(to_strings(&ls))
    } else {
        None
    }
}

} // verus!
