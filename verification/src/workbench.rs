//! The editor window's state beyond a single editor: open tabs, the
//! navigation history and the debugger's breakpoints, with the decisions
//! that tie them to the editor.
use vstd::prelude::*;

use crate::dap::client::DapRequest;
use crate::dap::manager::DapManager;
use crate::dap::types::DapConfig;
use crate::plugin::manager::{serves_dap, PluginManager};
use crate::text::texts;
use crate::editor::Editor;
use crate::editor::buffer::BufferModel;
use crate::paths::same_path;
use crate::text::lowercase;
use crate::workspace_search::{is_image_extension, is_image_file};
use crate::nav_history::{push_model, NavigationHistory};
use crate::paths::{extension_of, opt_string_text, parent_of, path_extension, path_parent};
use crate::tabs::{tab_with_path, Tab, TabManager};
use crate::editor::cursor::placed;
use crate::editor::buffer::line_count;
use crate::text::lines;
use crate::workspace_search::{find_definition_in_buffer, first_definition};
use crate::lsp::json::{opt_text, JsonValue};
use crate::lsp::response::{
    completion_entries, completion_of, completion_view, definition_of, hover_text, parse_completions, parse_definition,
    parse_hover, MAX_COMPLETIONS,
};

verus! {

pub struct CodingUnicorns {
    pub editor: Editor,
    pub tab_manager: TabManager,
    pub nav_history: NavigationHistory,
    pub dap: DapManager,
    pub plugin_manager: PluginManager,
    pub workspace_path: Option<String>,
    pub show_sidebar: bool,
    pub sidebar_tab: SidebarTab,
    pub show_terminal: bool,
    /// The user chose to quit despite unsaved files.
    pub confirmed_close: bool,
    /// The unsaved-files warning is shown.
    pub show_close_warning: bool,
    /// The modified tab whose closing waits for the user's answer.
    pub close_tab_id_pending: Option<usize>,
    /// Ids of the language-server requests awaiting an answer.
    pub pending_hover_id: Option<u64>,
    pub pending_definition_id: Option<u64>,
    pub pending_completion_id: Option<u64>,
    /// The hover text the language server sent.
    pub lsp_hover_result: Option<String>,
    /// The status text of the last plugin that gave one.
    pub plugin_status: Option<String>,
}

/// The panels the sidebar shows.
#[derive(Debug, Clone, Copy, PartialEq, Eq, Structural)]
pub enum SidebarTab {
    Explorer,
    Search,
    Debug,
}

/// What a debug session is started on: the file, the extension whose
/// language plugin supplies the adapter, the working directory, and that
/// plugin's debugger.
pub struct DebugTarget {
    pub path: String,
    pub extension: String,
    pub workspace: String,
    pub config: DapConfig,
}

/// Index of the tab with id `id`, or 0 when no tab has it.
pub open spec fn tab_position(tabs: Seq<Tab>, id: usize) -> int {
    if exists|i: int| 0 <= i < tabs.len() && tabs[i].id == id {
        choose|i: int| 0 <= i < tabs.len() && tabs[i].id == id
    } else {
        0
    }
}

/// The tab after the active one, wrapping around.
pub open spec fn next_tab_id(tabs: Seq<Tab>, active: usize) -> usize {
    tabs[(tab_position(tabs, active) + 1) % (tabs.len() as int)].id
}

/// The tab before the active one, wrapping around.
pub open spec fn prev_tab_id(tabs: Seq<Tab>, active: usize) -> usize {
    let pos = tab_position(tabs, active);
    tabs[if pos == 0 { tabs.len() - 1 } else { pos - 1 }].id
}

/// `a` and `b` agree everywhere but in which tab is active.
pub open spec fn same_but_active(a: CodingUnicorns, b: CodingUnicorns) -> bool {
    &&& a.editor == b.editor
    &&& a.nav_history == b.nav_history
    &&& a.dap == b.dap
    &&& a.workspace_path == b.workspace_path
    &&& a.plugin_manager == b.plugin_manager
    &&& a.show_sidebar == b.show_sidebar && a.sidebar_tab == b.sidebar_tab && a.show_terminal == b.show_terminal
    &&& a.tab_manager.tabs == b.tab_manager.tabs
    &&& a.tab_manager.next_id == b.tab_manager.next_id
}

/// The text of an optional string, or the empty text.
pub open spec fn text_or_empty(o: Option<Seq<char>>) -> Seq<char> {
    match o {
        Some(t) => t,
        None => seq![],
    }
}

/// The debug target for the file at `path` with its adapter found for the
/// extension: the workspace folder when one is open, else the file's folder.
pub open spec fn debug_target_of(path: Seq<char>, workspace: Option<Seq<char>>) -> (Seq<char>, Seq<char>, Seq<char>) {
    (path, text_or_empty(extension_of(path)), match workspace {
        Some(w) => w,
        None => text_or_empty(parent_of(path)),
    })
}

fn string_or_empty(o: Option<String>) -> (s: String)
    ensures
        s@ == text_or_empty(opt_string_text(o)),
{
    match o {
        Some(s) => s,
        None => String::new(),
    }
}

/// `p` has an image extension (in any case).
pub open spec fn is_image_path(p: Seq<char>) -> bool {
    extension_of(p) matches Some(e) && is_image_extension(lowercase(e))
}

/// The active tab is open on `path`.
pub open spec fn tab_open_on(tm: TabManager, path: Seq<char>) -> bool {
    tm.active_tab matches Some(id) && exists|i: int|
        0 <= i < tm.tabs@.len() && (#[trigger] tm.tabs@[i]).id == id && (tm.tabs@[i].path@ == path || same_path(
            tm.tabs@[i].path@,
            path,
        ))
}

/// What opening `path` leaves: for an image, a tab on it and an empty text;
/// for a text file that was read, a tab on it and its text loaded; otherwise
/// nothing changed.
pub open spec fn opened(old: CodingUnicorns, new: CodingUnicorns, path: Seq<char>, read: Option<String>) -> bool {
    if is_image_path(path) {
        &&& new.tab_manager.wf()
        &&& tab_open_on(new.tab_manager, path)
        &&& new.editor.buffer@ == (BufferModel { text: seq![], history: seq![], future: seq![] })
        &&& new.editor.current_path matches Some(p) && p@ == path
    } else {
        match read {
            Some(c) => {
                &&& new.tab_manager.wf()
                &&& tab_open_on(new.tab_manager, path)
                &&& new.editor.buffer@ == (BufferModel { text: c@, history: seq![], future: seq![] })
                &&& new.editor.current_path matches Some(p) && p@ == path
            },
            None => new.editor.buffer == old.editor.buffer && new.editor.current_path == old.editor.current_path
                && new.tab_manager == old.tab_manager,
        }
    }
}

/// The cursor is at the start of `line`, kept within the text, and is to be
/// scrolled into view.
pub open spec fn placed_at_line(w: CodingUnicorns, line: usize) -> bool {
    let last = line_count(w.editor.buffer.text()) - 1;
    &&& w.editor.cursor.row == (if line <= last { line as int } else { last })
    &&& w.editor.cursor.col == 0
    &&& w.editor.scroll_to_cursor
}

proof fn lemma_tab_opened(tm: TabManager, path: Seq<char>)
    requires
        tm.active_tab matches Some(id) && exists|i: int|
            0 <= i < tm.tabs@.len() && tm.tabs@[i].id == id && (tm.tabs@[i].path@ == path || same_path(
                tm.tabs@[i].path@,
                path,
            )),
    ensures
        tab_open_on(tm, path),
{
}

/// Activates the tab on `path`, opening one when none is open on it.
#[verifier::rlimit(60)]
fn open_tab(tm: &mut TabManager, path: String)
    requires
        old(tm).wf(),
        old(tm).next_id_spec() < usize::MAX,
    ensures
        final(tm).wf(),
        tab_open_on(*final(tm), path@),
{
    let ghost p = path@;
    let ghost ot = tm.tabs@;
    proof {
        crate::tabs::lemma_tab_with_path(ot, p);
    }
    let id = tm.open(path, String::new());
    proof {
        match tab_with_path(ot, p) {
            Some(i) => {
                assert(tm.tabs@[i].id == id);
            },
            None => {
                assert(tm.tabs@[tm.tabs@.len() - 1].id == id);
            },
        }
    }
}

/// Loads `content` of the file at `path` into the editor; returns the path
/// whose line markers are to be computed, if any.
fn load_editor(e: &mut Editor, content: String, path: String) -> (r: Option<String>)
    ensures
        final(e).buffer@ == (BufferModel { text: content@, history: seq![], future: seq![] }),
        final(e).current_path matches Some(q) && q@ == path@,
        r is Some ==> r->0@ == path@,
{
    e.set_content(content, Some(path));
    let ghost mid = *e;
    let r = e.refresh_line_diff();
    proof {
        assert(e.buffer@ == mid.buffer@);
    }
    r
}

impl CodingUnicorns {
    /// Index of the tab with id `id` (0 when none has it); ids are unique.
    fn position_of_tab(&self, id: usize) -> (p: usize)
        requires
            self.tab_manager.wf(),
        ensures
            p == tab_position(self.tab_manager.tabs@, id),
    {
        let tabs = &self.tab_manager.tabs;
        let mut i: usize = 0;
        while i < tabs.len()
            invariant
                i <= tabs@.len(),
                tabs@ == self.tab_manager.tabs@,
                self.tab_manager.wf(),
                forall|j: int| 0 <= j < i ==> tabs@[j].id != id,
            decreases tabs.len() - i,
        {
            if tabs[i].id == id {
                proof {
                    let k = choose|k: int| 0 <= k < tabs@.len() && tabs@[k].id == id;
                    assert(tabs@[i as int].id == id);
                    if k > i {
                        assert(self.tab_manager.tabs@[i as int].id != self.tab_manager.tabs@[k].id);
                    }
                    assert(k == i);
                }
                return i;
            }
            i += 1;
        }
        0
    }

    /// Records where the cursor is (when a file is open) in the navigation
    /// history, then opens `target_path` at `target_line` (see
    /// `open_file_at_line`; `read` is the file's text, when it could be read).
    /// Returns the path whose line markers are to be computed, if any.
    pub fn push_nav_and_goto(&mut self, target_path: String, target_line: usize, read: Option<String>) -> (r: Option<
        String,
    >)
        requires
            old(self).nav_history.wf(),
            old(self).tab_manager.wf(),
            old(self).tab_manager.next_id_spec() < usize::MAX,
        ensures
            final(self).nav_history.wf(),
            match old(self).editor.current_path {
                Some(p) => final(self).nav_history.model() == push_model(
                    old(self).nav_history.model(),
                    (p@, old(self).editor.cursor.row, old(self).editor.cursor.col),
                ),
                None => final(self).nav_history == old(self).nav_history,
            },
            opened(*old(self), *final(self), target_path@, read),
            placed_at_line(*final(self), target_line),
            r is Some ==> r->0@ == target_path@,
            final(self).dap == old(self).dap,
            final(self).workspace_path == old(self).workspace_path,
    {
        if let Some(current_path) = self.editor.current_path.clone() {
            let (row, col) = self.editor.cursor.position();
            self.nav_history.push(current_path, row, col);
        }
        self.open_file_at_line(target_path, target_line, read)
    }

    /// Opens the file at `path`: an image gets a tab and an empty editor; a
    /// text file (when `read` holds its text) gets a tab and is loaded into the
    /// editor, and the path whose line markers are to be computed is returned;
    /// an unreadable text file changes nothing.
    pub fn open_file(&mut self, path: String, read: Option<String>) -> (r: Option<String>)
        requires
            old(self).tab_manager.wf(),
            old(self).tab_manager.next_id_spec() < usize::MAX,
        ensures
            opened(*old(self), *final(self), path@, read),
            r is Some ==> r->0@ == path@ && !is_image_path(path@) && read is Some,
            final(self).nav_history == old(self).nav_history,
            final(self).dap == old(self).dap,
            final(self).workspace_path == old(self).workspace_path,
    {
        if is_image_file(path.as_str()) {
            open_tab(&mut self.tab_manager, path.clone());
            let _ = load_editor(&mut self.editor, String::new(), path);
            return None;
        }
        match read {
            Some(content) => {
                open_tab(&mut self.tab_manager, path.clone());
                load_editor(&mut self.editor, content, path)
            },
            None => None,
        }
    }

    /// Opens the file at `path` (see `open_file`), then puts the cursor at the
    /// start of `line`, kept within the text, scrolled into view.
    pub fn open_file_at_line(&mut self, path: String, line: usize, read: Option<String>) -> (r: Option<String>)
        requires
            old(self).tab_manager.wf(),
            old(self).tab_manager.next_id_spec() < usize::MAX,
        ensures
            opened(*old(self), *final(self), path@, read),
            placed_at_line(*final(self), line),
            r is Some ==> r->0@ == path@,
            final(self).nav_history == old(self).nav_history,
            final(self).dap == old(self).dap,
            final(self).workspace_path == old(self).workspace_path,
    {
        let r = self.open_file(path, read);
        let ghost mid = *self;
        let n = self.editor.buffer.num_lines();
        let max = n - 1;
        let row = if line < max {
            line
        } else {
            max
        };
        self.editor.cursor.set_position(row, 0);
        self.editor.scroll_to_cursor = true;
        proof {
            assert(self.editor.buffer == mid.editor.buffer);
        }
        r
    }

    /// Activates the next tab (wrapping around) when two or more are open and
    /// one is active; returns whether the active tab changed hands, after
    /// which the new active tab is to be loaded.
    pub fn cycle_tab_next(&mut self) -> (moved: bool)
        requires
            old(self).tab_manager.wf(),
        ensures
            same_but_active(*final(self), *old(self)),
            moved == (old(self).tab_manager.tabs@.len() >= 2 && old(self).tab_manager.active_tab is Some),
            moved ==> final(self).tab_manager.active_tab == Some(
                next_tab_id(old(self).tab_manager.tabs@, old(self).tab_manager.active_tab->0),
            ),
            !moved ==> final(self).tab_manager.active_tab == old(self).tab_manager.active_tab,
    {
        let n = self.tab_manager.tabs.len();
        if n < 2 {
            return false;
        }
        match self.tab_manager.active_tab {
            Some(active_id) => {
                let pos = self.position_of_tab(active_id);
                let next_pos = (pos + 1) % n;
                let next_id = self.tab_manager.tabs[next_pos].id;
                self.tab_manager.active_tab = Some(next_id);
                true
            },
            None => false,
        }
    }

    /// Activates the previous tab (wrapping around) when two or more are open
    /// and one is active; returns whether the active tab changed hands.
    pub fn cycle_tab_prev(&mut self) -> (moved: bool)
        requires
            old(self).tab_manager.wf(),
        ensures
            same_but_active(*final(self), *old(self)),
            moved == (old(self).tab_manager.tabs@.len() >= 2 && old(self).tab_manager.active_tab is Some),
            moved ==> final(self).tab_manager.active_tab == Some(
                prev_tab_id(old(self).tab_manager.tabs@, old(self).tab_manager.active_tab->0),
            ),
            !moved ==> final(self).tab_manager.active_tab == old(self).tab_manager.active_tab,
    {
        let n = self.tab_manager.tabs.len();
        if n < 2 {
            return false;
        }
        match self.tab_manager.active_tab {
            Some(active_id) => {
                let pos = self.position_of_tab(active_id);
                let prev_pos = if pos == 0 {
                    n - 1
                } else {
                    pos - 1
                };
                self.tab_manager.active_tab = Some(self.tab_manager.tabs[prev_pos].id);
                true
            },
            None => false,
        }
    }

    /// Toggles a breakpoint on the cursor's line of the open file; lines are
    /// numbered from 1 for the debugger. Nothing happens when no file is open.
    /// Returns the request that sends the file's new breakpoints to a running
    /// debug session, when one is due.
    pub fn toggle_breakpoint_at_cursor(&mut self) -> (r: Option<DapRequest>)
        requires
            old(self).dap.wf(),
            old(self).editor.cursor.row < usize::MAX,
            old(self).dap.session matches Some(s) ==> s.next_seq < u64::MAX,
        ensures
            final(self).dap.wf(),
            match old(self).editor.current_path {
                Some(p) => {
                    &&& final(self).dap.lines(p@) == crate::dap::manager::toggled(
                        old(self).dap.lines(p@),
                        (old(self).editor.cursor.row + 1) as usize,
                    )
                    &&& forall|f: Seq<char>|
                        crate::dap::manager::entry_for(crate::dap::manager::file_keys(old(self).dap.breakpoints@), f)
                            != crate::dap::manager::entry_for(crate::dap::manager::file_keys(old(self).dap.breakpoints@), p@)
                            ==> #[trigger] final(self).dap.lines(f) == old(self).dap.lines(f)
                    &&& match old(self).dap.session {
                        Some(s) => s.initialized == r is Some,
                        None => r is None,
                    }
                },
                None => final(self).dap == old(self).dap && r is None,
            },
            final(self).editor == old(self).editor,
            final(self).tab_manager == old(self).tab_manager,
            final(self).nav_history == old(self).nav_history,
    {
        let path = match self.editor.current_path.clone() {
            Some(p) => p,
            None => return None,
        };
        let (row, _) = self.editor.cursor.position();
        let (_, req) = self.dap.toggle_breakpoint(path.as_str(), row + 1);
        req
    }

    /// What a debug session for the open file runs on: the file, its
    /// extension, the working directory (the workspace, else the file's
    /// folder) and the debugger of the first plugin that handles the
    /// extension and has one. `None` when no file is open or no plugin
    /// offers a debugger for it; then nothing is to be started or shown.
    pub fn start_debug_session(&self) -> (r: Option<DebugTarget>)
        ensures
            match self.editor.current_path {
                Some(p) => {
                    let (fp, ext, ws) = debug_target_of(p@, opt_string_text(self.workspace_path));
                    let ps = self.plugin_manager.plugins@;
                    &&& r is None <==> forall|j: int| 0 <= j < ps.len() ==> !serves_dap(#[trigger] ps[j], ext)
                    &&& r matches Some(t) ==> (t.path@, t.extension@, t.workspace@) == (fp, ext, ws) && exists|i: int| {
                        &&& 0 <= i < ps.len()
                        &&& #[trigger] serves_dap(ps[i], ext)
                        &&& forall|j: int| 0 <= j < i ==> !serves_dap(#[trigger] ps[j], ext)
                        &&& ps[i].dap matches Some(d) && t.config.adapter_cmd@ == d.adapter_cmd@ && texts(
                            t.config.adapter_args@,
                        ) == texts(d.adapter_args@) && t.config.launch_config@ == d.launch_config@
                    }
                },
                None => r is None,
            },
    {
        let path = match self.editor.current_path.clone() {
            Some(p) => p,
            None => return None,
        };
        let extension = string_or_empty(path_extension(path.as_str()));
        let config = match self.plugin_manager.dap_config_for_ext(extension.as_str()) {
            Some(c) => c,
            None => return None,
        };
        let workspace = match self.workspace_path.clone() {
            Some(w) => w,
            None => string_or_empty(path_parent(path.as_str())),
        };
        Some(DebugTarget { path, extension, workspace, config })
    }

    /// After a debug session was asked to start: the sidebar shows the
    /// debugger, and a failed start also opens the terminal.
    pub fn show_debug_panel(&mut self, start_failed: bool)
        ensures
            final(self).show_sidebar,
            final(self).sidebar_tab == SidebarTab::Debug,
            final(self).show_terminal == (old(self).show_terminal || start_failed),
            *final(self) == (CodingUnicorns {
                show_sidebar: true,
                sidebar_tab: SidebarTab::Debug,
                show_terminal: final(self).show_terminal,
                ..*old(self)
            }),
    {
        if start_failed {
            self.show_terminal = true;
        }
        self.show_sidebar = true;
        self.sidebar_tab = SidebarTab::Debug;
    }

    /// Jumps to the definition of `word` in the open text, when it holds
    /// one: the place left is recorded in the navigation history (when a
    /// file is open) and the cursor goes to the start of the defining line
    /// (kept within the text), scrolled into view. Returns whether it jumped.
    pub fn go_to_definition_in_buffer(&mut self, word: &str) -> (jumped: bool)
        requires
            old(self).nav_history.wf(),
        ensures
            final(self).nav_history.wf(),
            jumped == (first_definition(lines(old(self).editor.buffer.text()), word@, 0) is Some),
            !jumped ==> *final(self) == *old(self),
            jumped ==> {
                let line = match first_definition(lines(old(self).editor.buffer.text()), word@, 0) {
                    Some(d) => d.1 as int,
                    None => 0,
                };
                let last = line_count(old(self).editor.buffer.text()) - 1;
                &&& final(self).editor.cursor == placed(
                    old(self).editor.cursor,
                    (if line <= last { line } else { last }) as usize,
                    0,
                )
                &&& final(self).editor.scroll_to_cursor
                &&& final(self).editor.buffer == old(self).editor.buffer
                &&& match old(self).editor.current_path {
                    Some(p) => final(self).nav_history.model() == push_model(
                        old(self).nav_history.model(),
                        (p@, old(self).editor.cursor.row, old(self).editor.cursor.col),
                    ),
                    None => final(self).nav_history == old(self).nav_history,
                }
            },
            final(self).tab_manager == old(self).tab_manager,
            final(self).dap == old(self).dap,
    {
        let content = self.editor.buffer.to_string();
        let found = find_definition_in_buffer(content.as_str(), word);
        let line = match found {
            Some((_, line)) => line,
            None => return false,
        };
        if let Some(current_path) = self.editor.current_path.clone() {
            let (row, col) = self.editor.cursor.position();
            self.nav_history.push(current_path, row, col);
        }
        let max = self.editor.buffer.num_lines() - 1;
        let target = if line <= max {
            line
        } else {
            max
        };
        self.editor.cursor.set_position(target, 0);
        self.editor.scroll_to_cursor = true;
        true
    }
}

/// Cycling to the next tab and then to the previous one comes back to the
/// tab that was active, whenever that tab is open and two or more are.
pub proof fn lemma_cycle_next_then_prev(tabs: Seq<Tab>, active: usize)
    requires
        tabs.len() >= 2,
        forall|i: int, j: int| 0 <= i < j < tabs.len() ==> tabs[i].id != tabs[j].id,
        exists|i: int| 0 <= i < tabs.len() && tabs[i].id == active,
    ensures
        prev_tab_id(tabs, next_tab_id(tabs, active)) == active,
{
    let n = tabs.len() as int;
    let p = tab_position(tabs, active);
    assert(0 <= p < n && tabs[p].id == active);
    let q = (p + 1) % n;
    let nid = tabs[q].id;
    assert(0 <= q < n);
    assert(next_tab_id(tabs, active) == nid);
    let p2 = tab_position(tabs, nid);
    assert(tabs[p2].id == nid && 0 <= p2 < n);
    if p2 != q {
        if p2 < q {
            assert(tabs[p2].id != tabs[q].id);
        } else {
            assert(tabs[q].id != tabs[p2].id);
        }
    }
    assert(p2 == q);
    if p + 1 < n {
        assert((p + 1) % n == p + 1) by (nonlinear_arith)
            requires
                0 <= p + 1 < n,
        ;
    } else {
        assert((p + 1) % n == 0) by (nonlinear_arith)
            requires
                p + 1 == n,
                n > 0,
        ;
    }
}

/// Some tab is modified.
pub open spec fn any_modified(tabs: Seq<Tab>) -> bool {
    exists|i: int| 0 <= i < tabs.len() && #[trigger] tabs[i].is_modified
}

/// The tab with id `id` is modified (false when there is none).
pub open spec fn tab_is_modified(tabs: Seq<Tab>, id: usize) -> bool {
    exists|i: int| 0 <= i < tabs.len() && #[trigger] tabs[i].id == id && tabs[i].is_modified
}

/// The labels of a completion response's entries, at most the first fifty.
pub open spec fn completion_labels(response: JsonValue) -> Seq<Seq<char>> {
    let es = completion_entries(response);
    let n = if es.len() < MAX_COMPLETIONS { es.len() as int } else { MAX_COMPLETIONS as int };
    es.take(n).map_values(|e: JsonValue| completion_of(e).0)
}

/// The last status text among the plugins' answers.
pub open spec fn last_status(s: Seq<Option<String>>) -> Option<Seq<char>>
    decreases s.len(),
{
    if s.len() == 0 {
        None
    } else {
        match s.last() {
            Some(t) => Some(t@),
            None => last_status(s.drop_last()),
        }
    }
}

impl CodingUnicorns {
    /// Follows a request to close the window: while a tab is unsaved and the
    /// user has not confirmed, the close is cancelled (returns true) and the
    /// warning shown.
    pub fn on_close_requested(&mut self, close_requested: bool) -> (cancel: bool)
        ensures
            cancel == (close_requested && any_modified(old(self).tab_manager.tabs@) && !old(self).confirmed_close),
            *final(self) == (CodingUnicorns { show_close_warning: old(self).show_close_warning || cancel, ..*old(self) }),
    {
        let mut any = false;
        let mut i: usize = 0;
        while i < self.tab_manager.tabs.len()
            invariant
                i <= self.tab_manager.tabs@.len(),
                any == exists|j: int| 0 <= j < i && #[trigger] self.tab_manager.tabs@[j].is_modified,
            decreases self.tab_manager.tabs.len() - i,
        {
            if self.tab_manager.tabs[i].is_modified {
                any = true;
            }
            i += 1;
        }
        let cancel = close_requested && any && !self.confirmed_close;
        if cancel {
            self.show_close_warning = true;
        }
        cancel
    }

    /// Whether the tab with id `id` is modified.
    fn tab_modified(&self, id: usize) -> (b: bool)
        requires
            self.tab_manager.wf(),
        ensures
            b == tab_is_modified(self.tab_manager.tabs@, id),
    {
        let tabs = &self.tab_manager.tabs;
        let mut i: usize = 0;
        while i < tabs.len()
            invariant
                i <= tabs@.len(),
                tabs == &self.tab_manager.tabs,
                self.tab_manager.wf(),
                forall|j: int| 0 <= j < i ==> #[trigger] tabs@[j].id != id,
            decreases tabs.len() - i,
        {
            if tabs[i].id == id {
                proof {
                    assert forall|j: int| 0 <= j < tabs@.len() && #[trigger] tabs@[j].id == id implies j == i by {
                        if j != i {
                            assert(self.tab_manager.tabs[j].id != self.tab_manager.tabs[i as int].id);
                        }
                    }
                }
                return tabs[i].is_modified;
            }
            i += 1;
        }
        false
    }

    /// The close-tab shortcut: when no close is waiting already, the active
    /// tab closes at once if it is saved (its id is returned, and the app
    /// loads the tab that is active now), and otherwise its close waits for
    /// the user's answer.
    pub fn on_close_tab_shortcut(&mut self) -> (closed: Option<usize>)
        requires
            old(self).tab_manager.wf(),
        ensures
            final(self).tab_manager.wf(),
            match (old(self).close_tab_id_pending, old(self).tab_manager.active_tab) {
                (None, Some(id)) => if tab_is_modified(old(self).tab_manager.tabs@, id) {
                    closed is None && *final(self) == (CodingUnicorns { close_tab_id_pending: Some(id), ..*old(self) })
                } else {
                    &&& closed == Some(id)
                    &&& final(self).tab_manager.tabs@ == old(self).tab_manager.tabs@.filter(|t: Tab| t.id != id)
                    &&& final(self).tab_manager.active_tab == (if final(self).tab_manager.tabs@.len() > 0 {
                        Some(final(self).tab_manager.tabs@.last().id)
                    } else {
                        None
                    })
                    &&& *final(self) == (CodingUnicorns { tab_manager: final(self).tab_manager, ..*old(self) })
                },
                _ => closed is None && *final(self) == *old(self),
            },
    {
        if self.close_tab_id_pending.is_some() {
            return None;
        }
        match self.tab_manager.active_tab {
            Some(id) => {
                if self.tab_modified(id) {
                    self.close_tab_id_pending = Some(id);
                    None
                } else {
                    self.tab_manager.close(id);
                    Some(id)
                }
            },
            None => None,
        }
    }

    /// Takes a language server's answer to request `id`: the awaited hover
    /// text is kept; the awaited definition is returned for the app to open
    /// (the request keeps waiting when the answer names none); the awaited
    /// completions, when there are any, become the completion list. Answers
    /// to other requests change nothing.
    pub fn on_lsp_response(&mut self, id: u64, response: &JsonValue) -> (r: Option<(String, u32)>)
        ensures
            if old(self).pending_hover_id == Some(id) {
                &&& r is None
                &&& opt_text(final(self).lsp_hover_result) == hover_text(*response)
                &&& *final(self) == (CodingUnicorns {
                    lsp_hover_result: final(self).lsp_hover_result,
                    pending_hover_id: None,
                    ..*old(self)
                })
            } else if old(self).pending_definition_id == Some(id) {
                match definition_of(*response) {
                    Some((p, l)) => r matches Some((q, m)) && q@ == p && m == l
                        && *final(self) == (CodingUnicorns { pending_definition_id: None, ..*old(self) }),
                    None => r is None && *final(self) == *old(self),
                }
            } else if old(self).pending_completion_id == Some(id) {
                &&& r is None
                &&& completion_labels(*response).len() > 0 ==> {
                    &&& texts(final(self).editor.autocomplete.suggestions@) == completion_labels(*response)
                    &&& final(self).editor.autocomplete.visible
                    &&& final(self).editor.autocomplete.selected == 0
                    &&& final(self).editor.autocomplete.query == old(self).editor.autocomplete.query
                }
                &&& completion_labels(*response).len() == 0 ==> final(self).editor == old(self).editor
                &&& final(self).editor == (Editor { autocomplete: final(self).editor.autocomplete, ..old(self).editor })
                &&& *final(self) == (CodingUnicorns {
                    editor: final(self).editor,
                    pending_completion_id: None,
                    ..*old(self)
                })
            } else {
                r is None && *final(self) == *old(self)
            },
    {
        if self.pending_hover_id == Some(id) {
            self.lsp_hover_result = parse_hover(response);
            self.pending_hover_id = None;
            None
        } else if self.pending_definition_id == Some(id) {
            match parse_definition(response) {
                Some((path, line)) => {
                    self.pending_definition_id = None;
                    Some((path, line))
                },
                None => None,
            }
        } else if self.pending_completion_id == Some(id) {
            let items = parse_completions(response);
            let ghost want = completion_labels(*response);
            let mut labels: Vec<String> = Vec::new();
            let mut i: usize = 0;
            while i < items.len()
                invariant
                    i <= items@.len(),
                    items@.len() == want.len(),
                    want == completion_labels(*response),
                    forall|k: int| 0 <= k < items@.len() ==> completion_view(#[trigger] items@[k]) == completion_of(
                        completion_entries(*response)[k],
                    ),
                    texts(labels@) == want.take(i as int),
                decreases items.len() - i,
            {
                let ghost before = labels@;
                labels.push(crate::text::copy_string(&items[i].label));
                proof {
                    assert(completion_view(items@[i as int]).0 == want[i as int]);
                    assert(texts(labels@) =~= texts(before).push(want[i as int]));
                    assert(want.take(i + 1) =~= want.take(i as int).push(want[i as int]));
                }
                i += 1;
            }
            proof {
                assert(want.take(want.len() as int) =~= want);
            }
            self.editor.autocomplete.set_lsp_suggestions(labels);
            self.pending_completion_id = None;
            None
        } else {
            None
        }
    }

    /// The view shortcuts pressed in one frame: the terminal and the sidebar
    /// are shown or hidden in turn, and the search shortcut shows the sidebar
    /// on its search panel.
    pub fn on_view_shortcuts(&mut self, terminal: bool, sidebar: bool, search: bool)
        ensures
            final(self).show_terminal == (old(self).show_terminal != terminal),
            final(self).show_sidebar == (search || (old(self).show_sidebar != sidebar)),
            final(self).sidebar_tab == (if search { SidebarTab::Search } else { old(self).sidebar_tab }),
            *final(self) == (CodingUnicorns {
                show_terminal: final(self).show_terminal,
                show_sidebar: final(self).show_sidebar,
                sidebar_tab: final(self).sidebar_tab,
                ..*old(self)
            }),
    {
        if terminal {
            self.show_terminal = !self.show_terminal;
        }
        if sidebar {
            self.show_sidebar = !self.show_sidebar;
        }
        if search {
            self.show_sidebar = true;
            self.sidebar_tab = SidebarTab::Search;
        }
    }

    /// Keeps the status text of the last plugin that gave one (none when no
    /// plugin did).
    pub fn set_plugin_status(&mut self, statuses: Vec<Option<String>>)
        ensures
            opt_text(final(self).plugin_status) == last_status(statuses@),
            *final(self) == (CodingUnicorns { plugin_status: final(self).plugin_status, ..*old(self) }),
    {
        let mut statuses = statuses;
        let ghost all = statuses@;
        let mut found: Option<String> = None;
        while statuses.len() > 0
            invariant
                all.len() >= statuses@.len(),
                statuses@ == all.take(statuses@.len() as int),
                found is None ==> last_status(all) == last_status(statuses@),
                found is Some ==> opt_text(found) == last_status(all),
            decreases statuses.len(),
        {
            let ghost before = statuses@;
            let last = statuses.pop();
            proof {
                assert(statuses@ =~= before.drop_last());
                assert(statuses@ =~= all.take(statuses@.len() as int));
            }
            if found.is_none() {
                match last {
                    Some(Some(t)) => {
                        found = Some(t);
                    },
                    _ => {},
                }
            }
        }
        self.plugin_status = found;
    }
}

} // verus!
