//! The editor window's state and how each user action or finished task
//! changes it.
//!
//! The text buffer itself (cursor, selection, rendering) belongs to the
//! widget toolkit; the caller reads its text and cursor line, hands them to
//! the methods here, and carries out the returned `Outcome`: what to do with
//! the buffer, which task to start, and what to persist.

use vstd::prelude::*;

use crate::config::{add_recent, add_recent_spec, forget_recent, is_untitled, is_untitled_spec, law_untitled_path_is_untitled, other_than, recent_views, untitled_path, untitled_path_spec, Settings};
use crate::editor::{extension_token_spec, language_for_extension};
use crate::history::{bounded_push, UndoHistory, HISTORY_LIMIT};
use crate::session::{build_session, entry_source, keeps_content, opt_str, restore_source, session_entry_ok, CachedFile, FileCache, FileSession, RestoreSource, Session};
use crate::sidebar::{no_duplicates, SidebarAction, SidebarState};
use crate::paths::{normal_path, normal_path_of, same_path_spec, law_normal_path_identifies};
use crate::config::{applied, indent_unit, indent_unit_spec, PreferenceChange};
use crate::line_edit::{
    comment_prefix, comment_prefix_spec, dedent_line, dedent_line_spec, dedent_text,
    dedent_text_spec, delete_line_op, delete_line_spec, duplicate_line, duplicate_line_spec,
    indent_text, indent_text_spec, move_line, move_line_spec, toggle_comment, toggle_comment_spec,
};
use crate::lines::{split_lines, split_lines_exec};
use crate::text::{chars_of, is_whitespace, is_ws, string_of};
use crate::ui::{digits_of, goto_target_spec, handle_key_press, key_press_spec, ActiveOverlay, KeyOutcome, TopMenu};

verus! {

/// The note shown in the status bar.
#[derive(Debug, Clone)]
pub enum StatusNote {
    Ready,
    NewFile,
    FileOpened,
    FileSaved,
    Formatting,
    NoLanguage,
    Formatted,
    FormatError,
    /// A recent file that no longer exists was chosen.
    MissingFile,
    /// Opening or saving failed with this message.
    Failed(String),
}

/// What to do with the widget's text buffer.
#[derive(Debug, Clone)]
pub enum BufferChange {
    Keep,
    /// Replace the whole text, cursor at the start.
    Load(String),
    /// Replace the whole text, cursor at the end.
    LoadAtEnd(String),
    /// Replace the whole text, then put the cursor at the start of this line
    /// (clamped to the last line).
    LoadAtLine(String, usize),
    /// Replace the selection (or insert at the cursor) with this text.
    Paste(String),
}

/// Outside work to start.
#[derive(Debug, Clone)]
pub enum Task {
    Nothing,
    /// Ask the user for a file to open.
    PickFileToOpen,
    /// Read this file; its text comes back through `file_opened`.
    Read(String),
    /// Write the text (second) to the path (first); the result comes back
    /// through `file_saved`.
    Write(String, String),
    /// Ask the user where to save this text, then write it.
    PickFileToSave(String),
    /// Run the formatter on the whole text (first) for a language (second).
    FormatText(String, String),
    /// Run the formatter on the selected text (first) for a language
    /// (second).
    FormatSelection(String, String),
    /// End the program.
    Exit,
}

/// The result of handling one message.
#[derive(Debug, Clone)]
pub struct Outcome {
    pub buffer: BufferChange,
    pub task: Task,
    pub save_settings: bool,
    pub save_session: bool,
}

pub open spec fn quiet(o: Outcome) -> bool {
    &&& o.buffer is Keep
    &&& o.task is Nothing
    &&& !o.save_settings
    &&& !o.save_session
}

fn quiet_outcome() -> (r: Outcome)
    ensures
        quiet(r),
{
    Outcome { buffer: BufferChange::Keep, task: Task::Nothing, save_settings: false, save_session: false }
}

fn outcome(buffer: BufferChange, task: Task, save_settings: bool, save_session: bool) -> (r: Outcome)
    ensures
        r == (Outcome { buffer, task, save_settings, save_session }),
{
    Outcome { buffer, task, save_settings, save_session }
}

/// Which panels, menu and overlay are shown.
#[derive(Debug, Clone)]
pub struct Panels {
    pub show_search: bool,
    pub show_sidebar: bool,
    pub show_preferences: bool,
    pub open_menu: Option<TopMenu>,
    pub overlay: ActiveOverlay,
    pub goto_line_input: String,
}

/// The status bar and the formatter's state.
#[derive(Debug, Clone)]
pub struct StatusLine {
    pub note: StatusNote,
    pub is_error: bool,
    pub format_error: Option<String>,
    pub show_error_panel: bool,
    pub is_formatting: bool,
}

/// Which parts of the window are shown.
#[derive(Debug, Clone)]
pub struct Layout {
    pub search_bar: bool,
    pub sidebar: bool,
    pub preferences: bool,
    /// The banner shown while the formatter runs.
    pub formatting_banner: bool,
    /// The formatter's error panel, with the error it shows.
    pub error_panel: Option<String>,
    /// The drop-down of the open menu.
    pub dropdown: Option<TopMenu>,
    pub overlay: ActiveOverlay,
}

/// Everything the editor window decides on, apart from the text buffer.
pub struct Workspace {
    /// The path of the shown buffer.
    pub current_file: Option<String>,
    /// The language token of the shown buffer.
    pub language: Option<String>,
    /// Whether the shown buffer has unsaved changes.
    pub is_dirty: bool,
    /// The number of the latest unsaved buffer.
    pub untitled_counter: u32,
    /// Open buffers that are not shown.
    pub cache: FileCache,
    pub sidebar: SidebarState,
    pub history: UndoHistory,
    /// Whether the next typed character starts a new undo step.
    pub undo_new_group: bool,
    pub panels: Panels,
    pub status: StatusLine,
    pub settings: Settings,
}

/// How the workspace tells files apart: an unsaved buffer by its name, any
/// other path by its normal spelling, so that two spellings of one file
/// (`/tmp//a.rs`, `/tmp/a.rs`) are one entry.
#[verifier::opaque]
pub open spec fn file_key(p: Seq<char>) -> Seq<char> {
    if is_untitled_spec(p) {
        p
    } else {
        normal_path(p)
    }
}

/// The key of a path (see `file_key`).
pub fn file_key_of(p: &str) -> (r: String)
    ensures
        r@ == file_key(p@),
{
    reveal(file_key);
    if is_untitled(p) {
        string_of(chars_of(p).as_slice())
    } else {
        normal_path_of(p)
    }
}

/// Two paths of files on disk get one key exactly when they name the same
/// file, and a key is its own key.
pub proof fn law_file_key_identifies(a: Seq<char>, b: Seq<char>)
    requires
        !is_untitled_spec(a),
        !is_untitled_spec(b),
    ensures
        (file_key(a) == file_key(b)) <==> same_path_spec(a, b),
        !is_untitled_spec(file_key(a)) ==> file_key(file_key(a)) == file_key(a),
{
    reveal(file_key);
    law_normal_path_identifies(a, b);
}

/// Every entry is its own key.
#[verifier::opaque]
pub open spec fn all_keys(fs: Seq<Seq<char>>) -> bool {
    forall|i: int| 0 <= i < fs.len() ==> file_key(#[trigger] fs[i]) == fs[i]
}

proof fn lemma_file_key_idempotent(p: Seq<char>)
    ensures
        file_key(file_key(p)) == file_key(p),
{
    reveal(file_key);
    if !is_untitled_spec(p) && !is_untitled_spec(normal_path(p)) {
        law_normal_path_identifies(p, p);
    }
}

proof fn lemma_untitled_key(p: Seq<char>)
    requires
        is_untitled_spec(p),
    ensures
        file_key(p) == p,
{
    reveal(file_key);
}

proof fn lemma_keys_with_file(fs: Seq<Seq<char>>, p: Seq<char>)
    requires
        all_keys(fs),
        file_key(p) == p,
    ensures
        all_keys(with_file(fs, p)),
{
    reveal(all_keys);
    let r = with_file(fs, p);
    assert forall|i: int| 0 <= i < r.len() implies file_key(#[trigger] r[i]) == r[i] by {
        if i < fs.len() {
            assert(r[i] == fs[i]);
        }
    }
}

proof fn lemma_keys_update(fs: Seq<Seq<char>>, k: int, p: Seq<char>)
    requires
        0 <= k < fs.len(),
        all_keys(fs),
        file_key(p) == p,
    ensures
        all_keys(fs.update(k, p)),
{
    reveal(all_keys);
    let r = fs.update(k, p);
    assert forall|i: int| 0 <= i < r.len() implies file_key(#[trigger] r[i]) == r[i] by {
        if i != k {
            assert(r[i] == fs[i]);
        }
    }
}

proof fn lemma_keys_renamed(s: SidebarState, from: Seq<char>, to: Seq<char>)
    requires
        all_keys(s.files_view()),
        file_key(to) == to,
        s.position_spec(from) matches Some(k) ==> k < s.files.len(),
    ensures
        all_keys(renamed(s, from, to)),
{
    match s.position_spec(from) {
        Some(k) => lemma_keys_update(s.files_view(), k as int, to),
        None => {},
    }
}

/// The cached state of the shown buffer: its text, language and
/// unsaved-changes flag.
pub open spec fn shown(w: &Workspace, text: Seq<char>) -> (Seq<char>, Option<Seq<char>>, bool) {
    (text, opt_str(w.language), w.is_dirty)
}

/// The buffer cache after the shown buffer (if it has a path) is put away.
pub open spec fn stash(w: &Workspace, text: Seq<char>) -> Map<
    Seq<char>,
    (Seq<char>, Option<Seq<char>>, bool),
> {
    match w.current_file {
        Some(c) => w.cache@.insert(c@, shown(w, text)),
        None => w.cache@,
    }
}

/// The sidebar list after `p` is added (it is appended when not listed).
pub open spec fn with_file(fs: Seq<Seq<char>>, p: Seq<char>) -> Seq<Seq<char>> {
    if fs.contains(p) {
        fs
    } else {
        fs.push(p)
    }
}

/// The sidebar list after the entry `from` (its first occurrence) is
/// renamed to `to`.
pub open spec fn renamed(s: SidebarState, from: Seq<char>, to: Seq<char>) -> Seq<Seq<char>> {
    match s.position_spec(from) {
        Some(k) => s.files_view().update(k as int, to),
        None => s.files_view(),
    }
}

/// The settings after `path` is added to the recent files.
pub open spec fn with_recent(old: Settings, new: Settings, path: Seq<char>) -> bool {
    &&& new == (Settings { recent_files: new.recent_files, ..old })
    &&& recent_views(new.recent_files@) == add_recent_spec(recent_views(old.recent_files@), path)
}

/// A command on the cursor's line.
#[derive(Debug, Clone, Copy, PartialEq, Eq, Structural)]
pub enum LineCommand {
    Duplicate,
    MoveUp,
    MoveDown,
    ToggleComment,
    Delete,
}

/// The new text and the line to put the cursor on after a line command on
/// line `line`, with the comment prefix of `language`.
pub open spec fn line_command_spec(
    cmd: LineCommand,
    text: Seq<char>,
    line: int,
    language: Option<Seq<char>>,
) -> (Seq<char>, int) {
    match cmd {
        LineCommand::Duplicate => (duplicate_line_spec(text, line), line + 1),
        LineCommand::MoveUp => move_line_spec(text, line, true),
        LineCommand::MoveDown => move_line_spec(text, line, false),
        LineCommand::ToggleComment => (
            toggle_comment_spec(text, line, comment_prefix_spec(language)),
            line,
        ),
        LineCommand::Delete => delete_line_spec(text, line),
    }
}

/// A buffer action, as far as undo steps and automatic insertions care.
#[derive(Debug, Clone, Copy, PartialEq, Eq, Structural)]
pub enum EditKind {
    /// Typing one character.
    Insert(char),
    Enter,
    /// Backspace, delete or paste.
    OtherEdit,
    /// A cursor motion or selection change.
    Motion,
}

/// How to carry out a buffer action.
#[derive(Debug, Clone)]
pub enum Typing {
    /// Perform the action as it is.
    Perform,
    /// Break the line, then insert this indentation (when not empty).
    EnterWithIndent(String),
    /// Insert both characters, then move the cursor back between them.
    InsertPair(char, char),
}

/// Number of leading spaces and tabs.
pub open spec fn leading_blanks(s: Seq<char>) -> nat
    decreases s.len(),
{
    if s.len() > 0 && (s[0] == ' ' || s[0] == '\t') {
        1 + leading_blanks(s.drop_first())
    } else {
        0
    }
}

/// The leading spaces and tabs of line `line` (empty past the end).
pub open spec fn line_indent(text: Seq<char>, line: int) -> Seq<char> {
    let ls = split_lines(text);
    if 0 <= line < ls.len() {
        ls[line].take(leading_blanks(ls[line]) as int)
    } else {
        Seq::<char>::empty()
    }
}

/// The bracket that closes `c`, for the brackets that are closed
/// automatically.
pub open spec fn closing_bracket(c: char) -> Option<char> {
    if c == '(' {
        Some(')')
    } else if c == '[' {
        Some(']')
    } else if c == '{' {
        Some('}')
    } else {
        None
    }
}

/// The quotes that are closed automatically.
pub open spec fn is_quote(c: char) -> bool {
    c == '"' || c == '\'' || c == '`'
}

/// The leading spaces and tabs of line `line` of `text`.
fn indent_of_line(text: &str, line: usize) -> (r: String)
    ensures
        r@ == line_indent(text@, line as int),
{
    let v = chars_of(text);
    let ls = split_lines_exec(&v);
    if line >= ls.len() {
        return String::new();
    }
    let l = &ls[line];
    let mut n: usize = 0;
    let mut out: Vec<char> = Vec::new();
    assert(l@.skip(0) =~= l@);
    while n < l.len() && (l[n] == ' ' || l[n] == '\t')
        invariant
            n <= l.len(),
            out@ == l@.take(n as int),
            leading_blanks(l@) == n + leading_blanks(l@.skip(n as int)),
        decreases l.len() - n,
    {
        assert(l@.skip(n as int).drop_first() =~= l@.skip(n + 1));
        assert(l@.take(n + 1) =~= l@.take(n as int).push(l@[n as int]));
        out.push(l[n]);
        n = n + 1;
    }
    assert(leading_blanks(l@.skip(n as int)) == 0);
    string_of(out.as_slice())
}

/// The text a saved file restores with, given what was read from disk for
/// it: the saved text, else the file's contents (empty when unreadable),
/// and nothing for an unsaved buffer without saved text.
pub open spec fn restored_text(e: FileSession, disk: Option<String>) -> Seq<char> {
    match e.content {
        Some(c) => c@,
        None => if is_untitled_spec(e.path@) {
            Seq::<char>::empty()
        } else {
            match disk {
                Some(d) => d@,
                None => Seq::<char>::empty(),
            }
        },
    }
}

/// The buffers restored from the saved files, by key (a later entry for
/// the same file wins).
pub open spec fn restored_buffers(files: Seq<FileSession>, disk: Seq<Option<String>>) -> Map<
    Seq<char>,
    (Seq<char>, Option<Seq<char>>, bool),
>
    decreases files.len(),
{
    if files.len() == 0 {
        Map::empty()
    } else {
        restored_buffers(files.drop_last(), disk.drop_last()).insert(
            file_key(files.last().path@),
            (restored_text(files.last(), disk.last()), opt_str(files.last().language), files.last().dirty),
        )
    }
}

/// The sidebar list after adding each key in turn to an empty list.
pub open spec fn listed(paths: Seq<Seq<char>>) -> Seq<Seq<char>>
    decreases paths.len(),
{
    if paths.len() == 0 {
        Seq::<Seq<char>>::empty()
    } else {
        with_file(listed(paths.drop_last()), paths.last())
    }
}

pub open spec fn session_paths(files: Seq<FileSession>) -> Seq<Seq<char>> {
    Seq::new(files.len(), |i: int| file_key(files[i].path@))
}

/// The key of the file shown after a restore: the saved active file, else
/// the first.
pub open spec fn restored_active(session: Session) -> Seq<char> {
    match session.active_file {
        Some(a) => file_key(a@),
        None => file_key(session.files@[0].path@),
    }
}

/// The panels at start-up: sidebar shown, search bar and preferences
/// hidden, no menu or overlay open, empty go-to-line field.
pub open spec fn start_panels(p: Panels) -> bool {
    &&& !p.show_search
    &&& p.show_sidebar
    &&& !p.show_preferences
    &&& p.open_menu is None
    &&& p.overlay == ActiveOverlay::Closed
    &&& p.goto_line_input@ == Seq::<char>::empty()
}

/// The status at start-up: "ready", no error, not formatting.
pub open spec fn start_status(s: StatusLine) -> bool {
    &&& s.note is Ready
    &&& !s.is_error
    &&& s.format_error is None
    &&& !s.show_error_panel
    &&& !s.is_formatting
}

/// Everything about the open buffers is as it was: shown file, language,
/// unsaved flag, counter, cache, sidebar and history.
pub open spec fn keeps_buffers(a: &Workspace, b: &Workspace) -> bool {
    &&& b.current_file == a.current_file
    &&& b.language == a.language
    &&& b.is_dirty == a.is_dirty
    &&& b.untitled_counter == a.untitled_counter
    &&& b.cache@ == a.cache@
    &&& b.sidebar == a.sidebar
    &&& b.history == a.history
    &&& b.undo_new_group == a.undo_new_group
}

impl Workspace {
    /// Both stacks of the undo history are empty.
    pub open spec fn history_cleared(&self) -> bool {
        self.history.undo_stack.len() == 0 && self.history.redo_stack.len() == 0
    }

    /// The sidebar lists each file once, and the history keeps its limits.
    pub open spec fn wf(&self) -> bool {
        &&& self.sidebar.wf()
        &&& self.history.wf()
        &&& all_keys(self.sidebar.files_view())
    }

    /// Keeps the shown buffer's state in the cache under its path, if it
    /// has one.
    fn stash_current(&mut self, text: &str)
        ensures
            final(self).cache@ == stash(old(self), text@),
            final(self).current_file == old(self).current_file,
            final(self).language == old(self).language,
            final(self).is_dirty == old(self).is_dirty,
            final(self).untitled_counter == old(self).untitled_counter,
            final(self).sidebar == old(self).sidebar,
            final(self).history == old(self).history,
            final(self).undo_new_group == old(self).undo_new_group,
            final(self).panels == old(self).panels,
            final(self).status == old(self).status,
            final(self).settings == old(self).settings,
    {
        match &self.current_file {
            Some(c) => {
                let key = c.clone();
                let entry = CachedFile {
                    content: crate::text::string_of(crate::text::chars_of(text).as_slice()),
                    language: self.language.clone(),
                    dirty: self.is_dirty,
                };
                self.cache.insert(key, entry);
            },
            None => {},
        }
    }

    /// Closes the open menu (every message but a menu-title click does).
    pub fn dismiss_menu(&mut self)
        ensures
            final(self).panels == (Panels { open_menu: None, ..old(self).panels }),
            final(self).current_file == old(self).current_file,
            final(self).language == old(self).language,
            final(self).is_dirty == old(self).is_dirty,
            final(self).untitled_counter == old(self).untitled_counter,
            final(self).cache@ == old(self).cache@,
            final(self).sidebar == old(self).sidebar,
            final(self).history == old(self).history,
            final(self).undo_new_group == old(self).undo_new_group,
            final(self).status == old(self).status,
            final(self).settings == old(self).settings,
    {
        self.panels.open_menu = None;
    }

    /// A click on a menu title: opens that menu, or closes it when it is
    /// the open one.
    pub fn toggle_menu(&mut self, menu: TopMenu)
        ensures
            final(self).panels == (Panels {
                open_menu: if old(self).panels.open_menu == Some(menu) {
                    None
                } else {
                    Some(menu)
                },
                ..old(self).panels
            }),
            final(self).current_file == old(self).current_file,
            final(self).language == old(self).language,
            final(self).is_dirty == old(self).is_dirty,
            final(self).untitled_counter == old(self).untitled_counter,
            final(self).cache@ == old(self).cache@,
            final(self).sidebar == old(self).sidebar,
            final(self).history == old(self).history,
            final(self).undo_new_group == old(self).undo_new_group,
            final(self).status == old(self).status,
            final(self).settings == old(self).settings,
    {
        self.panels.open_menu = crate::ui::toggle_menu(self.panels.open_menu, menu);
    }

    /// Starts a new unsaved buffer. The shown buffer is kept in the cache,
    /// the counter advances, and the buffer `untitled://n` for the new count
    /// is listed, selected and shown: empty, clean, without a language and
    /// with an empty history.
    #[verifier::spinoff_prover]
    pub fn new_file(&mut self, text: &str) -> (r: Outcome)
        requires
            old(self).untitled_counter < u32::MAX,
        ensures
            final(self).cache@ == stash(old(self), text@),
            final(self).untitled_counter == old(self).untitled_counter + 1,
            final(self).current_file matches Some(p) && p@ == untitled_path_spec(
                final(self).untitled_counter as nat,
            ),
            final(self).sidebar.files_view() == with_file(
                old(self).sidebar.files_view(),
                untitled_path_spec(final(self).untitled_counter as nat),
            ),
            final(self).sidebar.selected == Some((final(self).sidebar.files.len() - 1) as usize),
            final(self).language is None,
            !final(self).is_dirty,
            final(self).history_cleared(),
            final(self).undo_new_group,
            final(self).status == (StatusLine { note: StatusNote::NewFile, ..old(self).status }),
            final(self).panels == old(self).panels,
            final(self).settings == old(self).settings,
            r.buffer matches BufferChange::Load(t) && t@ == Seq::<char>::empty(),
            r.task is Nothing,
            !r.save_settings,
            !r.save_session,
            old(self).wf() ==> final(self).wf(),
    {
        self.stash_current(text);
        self.untitled_counter = self.untitled_counter + 1;
        let path = untitled_path(self.untitled_counter);
        proof {
            law_untitled_path_is_untitled(self.untitled_counter as nat);
            lemma_untitled_key(path@);
            if old(self).wf() {
                lemma_keys_with_file(old(self).sidebar.files_view(), path@);
            }
        }
        self.language = None;
        self.current_file = Some(path.clone());
        self.sidebar.add_file(path);
        self.is_dirty = false;
        self.history.clear();
        self.undo_new_group = true;
        self.status.note = StatusNote::NewFile;
        outcome(BufferChange::Load(String::new()), Task::Nothing, false, false)
    }

    /// Closes the shown buffer (it stays listed): nothing is shown, the
    /// history is emptied and the session is saved.
    pub fn close_file(&mut self) -> (r: Outcome)
        ensures
            final(self).current_file is None,
            final(self).language is None,
            !final(self).is_dirty,
            final(self).history_cleared(),
            final(self).undo_new_group,
            final(self).status == (StatusLine { note: StatusNote::Ready, ..old(self).status }),
            final(self).untitled_counter == old(self).untitled_counter,
            final(self).cache@ == old(self).cache@,
            final(self).sidebar == old(self).sidebar,
            final(self).panels == old(self).panels,
            final(self).settings == old(self).settings,
            r.buffer matches BufferChange::Load(t) && t@ == Seq::<char>::empty(),
            r.task is Nothing,
            !r.save_settings,
            r.save_session,
            old(self).wf() ==> final(self).wf(),
    {
        self.language = None;
        self.current_file = None;
        self.is_dirty = false;
        self.history.clear();
        self.undo_new_group = true;
        self.status.note = StatusNote::Ready;
        outcome(BufferChange::Load(String::new()), Task::Nothing, false, true)
    }

    /// Saving: a buffer with a real path is written there; an unsaved
    /// buffer, or none, asks where to save.
    pub fn save_file(&self, text: String) -> (r: Outcome)
        ensures
            r.buffer is Keep,
            !r.save_settings,
            !r.save_session,
            match self.current_file {
                Some(p) => if is_untitled_spec(p@) {
                    r.task matches Task::PickFileToSave(t) && t@ == text@
                } else {
                    r.task matches Task::Write(q, t) && q@ == p@ && t@ == text@
                },
                None => r.task matches Task::PickFileToSave(t) && t@ == text@,
            },
    {
        match &self.current_file {
            Some(p) => if !is_untitled(p.as_str()) {
                outcome(BufferChange::Keep, Task::Write(p.clone(), text), false, false)
            } else {
                outcome(BufferChange::Keep, Task::PickFileToSave(text), false, false)
            },
            None => outcome(BufferChange::Keep, Task::PickFileToSave(text), false, false),
        }
    }

    /// Undo: the latest snapshot replaces the text (cursor at the end) and
    /// the current text can be redone; nothing happens with an empty undo
    /// stack.
    pub fn undo(&mut self, text: String) -> (r: Outcome)
        ensures
            old(self).history.undo_stack.len() == 0 ==> {
                &&& quiet(r)
                &&& final(self).history.undo_view() == old(self).history.undo_view()
                &&& final(self).history.redo_view() == old(self).history.redo_view()
                &&& final(self).is_dirty == old(self).is_dirty
                &&& final(self).undo_new_group == old(self).undo_new_group
            },
            old(self).history.undo_stack.len() > 0 ==> {
                &&& r.buffer matches BufferChange::LoadAtEnd(t) && t@ == old(
                    self,
                ).history.undo_view().last()
                &&& r.task is Nothing && !r.save_settings && !r.save_session
                &&& final(self).history.undo_view() == old(self).history.undo_view().drop_last()
                &&& final(self).history.redo_view() == bounded_push(
                    old(self).history.redo_view(),
                    text@,
                )
                &&& final(self).is_dirty
                &&& final(self).undo_new_group
            },
            final(self).current_file == old(self).current_file,
            final(self).language == old(self).language,
            final(self).untitled_counter == old(self).untitled_counter,
            final(self).cache@ == old(self).cache@,
            final(self).sidebar == old(self).sidebar,
            final(self).panels == old(self).panels,
            final(self).status == old(self).status,
            final(self).settings == old(self).settings,
            old(self).wf() ==> final(self).wf(),
    {
        match self.history.undo(text) {
            Some(prev) => {
                self.is_dirty = true;
                self.undo_new_group = true;
                outcome(BufferChange::LoadAtEnd(prev), Task::Nothing, false, false)
            },
            None => quiet_outcome(),
        }
    }

    /// Redo: the snapshot undone last replaces the text (cursor at the end)
    /// and the current text goes back on the undo stack; nothing happens
    /// with an empty redo stack.
    pub fn redo(&mut self, text: String) -> (r: Outcome)
        ensures
            old(self).history.redo_stack.len() == 0 ==> {
                &&& quiet(r)
                &&& final(self).history.undo_view() == old(self).history.undo_view()
                &&& final(self).history.redo_view() == old(self).history.redo_view()
                &&& final(self).is_dirty == old(self).is_dirty
                &&& final(self).undo_new_group == old(self).undo_new_group
            },
            old(self).history.redo_stack.len() > 0 ==> {
                &&& r.buffer matches BufferChange::LoadAtEnd(t) && t@ == old(
                    self,
                ).history.redo_view().last()
                &&& r.task is Nothing && !r.save_settings && !r.save_session
                &&& final(self).history.redo_view() == old(self).history.redo_view().drop_last()
                &&& final(self).history.undo_view() == bounded_push(
                    old(self).history.undo_view(),
                    text@,
                )
                &&& final(self).is_dirty
                &&& final(self).undo_new_group
            },
            final(self).current_file == old(self).current_file,
            final(self).language == old(self).language,
            final(self).untitled_counter == old(self).untitled_counter,
            final(self).cache@ == old(self).cache@,
            final(self).sidebar == old(self).sidebar,
            final(self).panels == old(self).panels,
            final(self).status == old(self).status,
            final(self).settings == old(self).settings,
            old(self).wf() ==> final(self).wf(),
    {
        match self.history.redo(text) {
            Some(next) => {
                self.is_dirty = true;
                self.undo_new_group = true;
                outcome(BufferChange::LoadAtEnd(next), Task::Nothing, false, false)
            },
            None => quiet_outcome(),
        }
    }

    /// A file was read (after an open dialog, a sidebar click or a recent
    /// file). On success its text is shown with the language detected from
    /// `extension`; it is listed, selected, added to the recent files, and
    /// starts clean with an empty history. A failure only sets the status.
    #[verifier::spinoff_prover]
    #[verifier::rlimit(60)]
    pub fn file_opened(&mut self, result: Result<(String, String), String>, extension: &str) -> (r:
        Outcome)
        ensures
            match result {
                Ok((path, content)) => {
                    let n = file_key(path@);
                    &&& r.buffer matches BufferChange::Load(t) && t@ == content@
                    &&& r.task is Nothing && r.save_settings && !r.save_session
                    &&& final(self).current_file matches Some(p) && p@ == n
                    &&& opt_str(final(self).language) == extension_token_spec(extension@)
                    &&& !final(self).is_dirty
                    &&& final(self).history_cleared()
                    &&& final(self).undo_new_group
                    &&& final(self).sidebar.files_view() == with_file(
                        old(self).sidebar.files_view(),
                        n,
                    )
                    &&& final(self).sidebar.selected == Some(
                        (final(self).sidebar.files.len() - 1) as usize,
                    )
                    &&& with_recent(old(self).settings, final(self).settings, path@)
                    &&& final(self).status == (StatusLine {
                        note: StatusNote::FileOpened,
                        ..old(self).status
                    })
                    &&& final(self).untitled_counter == old(self).untitled_counter
                    &&& final(self).cache@ == old(self).cache@
                    &&& final(self).panels == old(self).panels
                },
                Err(e) => {
                    &&& quiet(r)
                    &&& final(self).status == (StatusLine { note: StatusNote::Failed(e), ..old(self).status })
                    &&& final(self).current_file == old(self).current_file
                    &&& final(self).language == old(self).language
                    &&& final(self).is_dirty == old(self).is_dirty
                    &&& final(self).untitled_counter == old(self).untitled_counter
                    &&& final(self).cache@ == old(self).cache@
                    &&& final(self).sidebar == old(self).sidebar
                    &&& final(self).history == old(self).history
                    &&& final(self).undo_new_group == old(self).undo_new_group
                    &&& final(self).panels == old(self).panels
                    &&& final(self).settings == old(self).settings
                },
            },
            old(self).wf() ==> final(self).wf(),
    {
        match result {
            Ok((path, content)) => {
                self.language = language_for_extension(extension);
                let key = file_key_of(path.as_str());
                proof {
                    lemma_file_key_idempotent(path@);
                    if old(self).wf() {
                        lemma_keys_with_file(old(self).sidebar.files_view(), key@);
                    }
                }
                self.sidebar.add_file(key.clone());
                add_recent(&mut self.settings.recent_files, path.as_str());
                self.current_file = Some(key);
                self.is_dirty = false;
                self.history.clear();
                self.undo_new_group = true;
                self.status.note = StatusNote::FileOpened;
                outcome(BufferChange::Load(content), Task::Nothing, true, false)
            },
            Err(e) => {
                self.status.note = StatusNote::Failed(e);
                quiet_outcome()
            },
        }
    }

    /// A save finished. On success the path's cached buffer is dropped; an
    /// unsaved buffer that was shown is dropped from the cache too and its
    /// sidebar entry renamed to the path; the path is listed, selected,
    /// added to the recent files and shown clean, with the language detected
    /// from `extension`. A failure only sets the status.
    #[verifier::spinoff_prover]
    #[verifier::rlimit(80)]
    pub fn file_saved(&mut self, result: Result<String, String>, extension: &str) -> (r: Outcome)
        ensures
            match result {
                Ok(path) => {
                    let was_untitled = old(self).current_file matches Some(c) && is_untitled_spec(c@);
                    let n = file_key(path@);
                    &&& r.buffer is Keep && r.task is Nothing && r.save_settings && !r.save_session
                    &&& final(self).cache@ == if was_untitled {
                        old(self).cache@.remove(n).remove(old(self).current_file->0@)
                    } else {
                        old(self).cache@.remove(n)
                    }
                    &&& final(self).sidebar.files_view() == with_file(
                        if was_untitled {
                            renamed(old(self).sidebar, old(self).current_file->0@, n)
                        } else {
                            old(self).sidebar.files_view()
                        },
                        n,
                    )
                    &&& final(self).sidebar.selected == Some(
                        (final(self).sidebar.files.len() - 1) as usize,
                    )
                    &&& final(self).current_file matches Some(p) && p@ == n
                    &&& opt_str(final(self).language) == extension_token_spec(extension@)
                    &&& !final(self).is_dirty
                    &&& with_recent(old(self).settings, final(self).settings, path@)
                    &&& final(self).status == (StatusLine {
                        note: StatusNote::FileSaved,
                        ..old(self).status
                    })
                    &&& final(self).history == old(self).history
                    &&& final(self).undo_new_group == old(self).undo_new_group
                    &&& final(self).untitled_counter == old(self).untitled_counter
                    &&& final(self).panels == old(self).panels
                    &&& old(self).wf() && !old(self).sidebar.files_view().contains(n)
                        ==> final(self).wf()
                },
                Err(e) => {
                    &&& quiet(r)
                    &&& final(self).status == (StatusLine { note: StatusNote::Failed(e), ..old(self).status })
                    &&& final(self).current_file == old(self).current_file
                    &&& final(self).language == old(self).language
                    &&& final(self).is_dirty == old(self).is_dirty
                    &&& final(self).untitled_counter == old(self).untitled_counter
                    &&& final(self).cache@ == old(self).cache@
                    &&& final(self).sidebar == old(self).sidebar
                    &&& final(self).history == old(self).history
                    &&& final(self).undo_new_group == old(self).undo_new_group
                    &&& final(self).panels == old(self).panels
                    &&& final(self).settings == old(self).settings
                },
            },
    {
        match result {
            Ok(path) => {
                let key = file_key_of(path.as_str());
                proof {
                    lemma_file_key_idempotent(path@);
                }
                let _ = self.cache.remove(key.as_str());
                let old_untitled = match &self.current_file {
                    Some(c) => if is_untitled(c.as_str()) {
                        Some(c.clone())
                    } else {
                        None
                    },
                    None => None,
                };
                match old_untitled {
                    Some(o) => {
                        let _ = self.cache.remove(o.as_str());
                        let ghost before = self.sidebar;
                        self.sidebar.rename_file(&o, key.clone());
                        proof {
                            if old(self).wf() {
                                lemma_keys_renamed(before, o@, key@);
                                assert(self.sidebar.files_view() == renamed(before, o@, key@));
                                lemma_keys_with_file(self.sidebar.files_view(), key@);
                            }
                        }
                    },
                    None => {
                        proof {
                            if old(self).wf() {
                                lemma_keys_with_file(self.sidebar.files_view(), key@);
                            }
                        }
                    },
                }
                self.sidebar.add_file(key.clone());
                self.language = language_for_extension(extension);
                add_recent(&mut self.settings.recent_files, path.as_str());
                self.current_file = Some(key);
                self.is_dirty = false;
                self.status.note = StatusNote::FileSaved;
                outcome(BufferChange::Keep, Task::Nothing, true, false)
            },
            Err(e) => {
                self.status.note = StatusNote::Failed(e);
                quiet_outcome()
            },
        }
    }

    /// Shows the cached buffer of `path` if there is one (returning `true`),
    /// else leaves everything as it is (returning `false`).
    fn show_cached(&mut self, path: &String) -> (r: (bool, BufferChange))
        ensures
            r.0 == old(self).cache@.dom().contains(path@),
            r.0 ==> {
                &&& r.1 matches BufferChange::Load(t) && t@ == old(self).cache@[path@].0
                &&& opt_str(final(self).language) == old(self).cache@[path@].1
                &&& final(self).is_dirty == old(self).cache@[path@].2
                &&& final(self).current_file matches Some(p) && p@ == path@
                &&& final(self).status == (StatusLine {
                    note: StatusNote::FileOpened,
                    ..old(self).status
                })
            },
            !r.0 ==> {
                &&& r.1 is Keep
                &&& final(self).language == old(self).language
                &&& final(self).is_dirty == old(self).is_dirty
                &&& final(self).current_file == old(self).current_file
                &&& final(self).status == old(self).status
            },
            final(self).untitled_counter == old(self).untitled_counter,
            final(self).cache@ == old(self).cache@,
            final(self).sidebar == old(self).sidebar,
            final(self).history == old(self).history,
            final(self).undo_new_group == old(self).undo_new_group,
            final(self).panels == old(self).panels,
            final(self).settings == old(self).settings,
    {
        let found = match self.cache.get(path.as_str()) {
            Some(c) => Some((c.content.clone(), c.language.clone(), c.dirty)),
            None => None,
        };
        match found {
            Some((content, language, dirty)) => {
                self.language = language;
                self.current_file = Some(path.clone());
                self.is_dirty = dirty;
                self.status.note = StatusNote::FileOpened;
                (true, BufferChange::Load(content))
            },
            None => (false, BufferChange::Keep),
        }
    }

    /// Carries out what a sidebar interaction asked for; `text` is the
    /// shown buffer's text.
    ///
    /// Opening the shown file does nothing. Opening another file keeps the
    /// shown buffer in the cache, empties the history, and shows the file's
    /// cached buffer, or asks for the file to be read when none is cached.
    /// Closing a file drops its cached buffer (and, when it is shown, shows
    /// nothing with an empty history) and saves the session. Save requests
    /// write to the path, or ask where to save.
    #[verifier::spinoff_prover]
    pub fn sidebar_action(&mut self, act: SidebarAction, text: String) -> (r: Outcome)
        ensures
            final(self).untitled_counter == old(self).untitled_counter,
            final(self).sidebar == old(self).sidebar,
            final(self).panels == old(self).panels,
            final(self).settings == old(self).settings,
            final(self).undo_new_group == old(self).undo_new_group,
            !r.save_settings,
            match act {
                SidebarAction::OpenFile(path) => if old(self).current_file matches Some(c) && c@
                    == file_key(path@) {
                    &&& quiet(r)
                    &&& final(self).cache@ == old(self).cache@
                    &&& final(self).current_file == old(self).current_file
                    &&& final(self).language == old(self).language
                    &&& final(self).is_dirty == old(self).is_dirty
                    &&& final(self).history == old(self).history
                    &&& final(self).status == old(self).status
                } else {
                    let cache = stash(old(self), text@);
                    let n = file_key(path@);
                    &&& final(self).cache@ == cache
                    &&& final(self).history_cleared()
                    &&& !r.save_session
                    &&& if cache.dom().contains(n) {
                        &&& r.buffer matches BufferChange::Load(t) && t@ == cache[n].0
                        &&& r.task is Nothing
                        &&& opt_str(final(self).language) == cache[n].1
                        &&& final(self).is_dirty == cache[n].2
                        &&& final(self).current_file matches Some(p) && p@ == n
                        &&& final(self).status == (StatusLine {
                            note: StatusNote::FileOpened,
                            ..old(self).status
                        })
                    } else {
                        &&& r.buffer is Keep
                        &&& r.task matches Task::Read(q) && q@ == path@
                        &&& final(self).language == old(self).language
                        &&& final(self).is_dirty == old(self).is_dirty
                        &&& final(self).current_file == old(self).current_file
                        &&& final(self).status == old(self).status
                    }
                },
                SidebarAction::CloseFile(path) => {
                    &&& final(self).cache@ == old(self).cache@.remove(file_key(path@))
                    &&& r.task is Nothing && r.save_session
                    &&& final(self).status == old(self).status
                    &&& if old(self).current_file matches Some(c) && c@ == file_key(path@) {
                        &&& r.buffer matches BufferChange::Load(t) && t@ == Seq::<char>::empty()
                        &&& final(self).current_file is None
                        &&& final(self).language is None
                        &&& !final(self).is_dirty
                        &&& final(self).history_cleared()
                    } else {
                        &&& r.buffer is Keep
                        &&& final(self).current_file == old(self).current_file
                        &&& final(self).language == old(self).language
                        &&& final(self).is_dirty == old(self).is_dirty
                        &&& final(self).history == old(self).history
                    }
                },
                SidebarAction::SaveFile(path) => {
                    &&& r.buffer is Keep && !r.save_session
                    &&& r.task matches Task::Write(q, t) && q@ == path@ && t@ == text@
                    &&& final(self).cache@ == old(self).cache@
                    &&& final(self).current_file == old(self).current_file
                    &&& final(self).language == old(self).language
                    &&& final(self).is_dirty == old(self).is_dirty
                    &&& final(self).history == old(self).history
                    &&& final(self).status == old(self).status
                },
                SidebarAction::SaveFileAs => {
                    &&& r.buffer is Keep && !r.save_session
                    &&& r.task matches Task::PickFileToSave(t) && t@ == text@
                    &&& final(self).cache@ == old(self).cache@
                    &&& final(self).current_file == old(self).current_file
                    &&& final(self).language == old(self).language
                    &&& final(self).is_dirty == old(self).is_dirty
                    &&& final(self).history == old(self).history
                    &&& final(self).status == old(self).status
                },
                SidebarAction::NoAction => {
                    &&& quiet(r)
                    &&& final(self).cache@ == old(self).cache@
                    &&& final(self).current_file == old(self).current_file
                    &&& final(self).language == old(self).language
                    &&& final(self).is_dirty == old(self).is_dirty
                    &&& final(self).history == old(self).history
                    &&& final(self).status == old(self).status
                },
            },
            old(self).wf() ==> final(self).wf(),
    {
        match act {
            SidebarAction::OpenFile(path) => {
                let key = file_key_of(path.as_str());
                let is_shown = match &self.current_file {
                    Some(c) => crate::text::str_eq(c.as_str(), key.as_str()),
                    None => false,
                };
                if is_shown {
                    return quiet_outcome();
                }
                self.stash_current(text.as_str());
                self.history.clear();
                let (found, buffer) = self.show_cached(&key);
                if found {
                    outcome(buffer, Task::Nothing, false, false)
                } else {
                    outcome(BufferChange::Keep, Task::Read(path), false, false)
                }
            },
            SidebarAction::CloseFile(path) => {
                let key = file_key_of(path.as_str());
                let is_shown = match &self.current_file {
                    Some(c) => crate::text::str_eq(c.as_str(), key.as_str()),
                    None => false,
                };
                let _ = self.cache.remove(key.as_str());
                if is_shown {
                    self.language = None;
                    self.current_file = None;
                    self.is_dirty = false;
                    self.history.clear();
                    outcome(BufferChange::Load(String::new()), Task::Nothing, false, true)
                } else {
                    outcome(BufferChange::Keep, Task::Nothing, false, true)
                }
            },
            SidebarAction::SaveFile(path) => outcome(
                BufferChange::Keep,
                Task::Write(path, text),
                false,
                false,
            ),
            SidebarAction::SaveFileAs => outcome(
                BufferChange::Keep,
                Task::PickFileToSave(text),
                false,
                false,
            ),
            SidebarAction::NoAction => quiet_outcome(),
        }
    }

    /// A recent file was chosen; `exists` tells whether it is still on
    /// disk. A missing file is dropped from the recent files, with an
    /// error status. Otherwise the shown buffer is kept in the cache, the
    /// history emptied, the file listed and selected, and its cached buffer
    /// shown, or the file read when none is cached.
    #[verifier::spinoff_prover]
    pub fn open_recent_file(&mut self, path: String, exists: bool, text: &str) -> (r: Outcome)
        ensures
            final(self).untitled_counter == old(self).untitled_counter,
            final(self).panels == old(self).panels,
            !r.save_session,
            !exists ==> {
                &&& r.buffer is Keep && r.task is Nothing && r.save_settings
                &&& final(self).settings == (Settings {
                    recent_files: final(self).settings.recent_files,
                    ..old(self).settings
                })
                &&& recent_views(final(self).settings.recent_files@) == recent_views(
                    old(self).settings.recent_files@,
                ).filter(other_than(path@))
                &&& final(self).status == (StatusLine {
                    note: StatusNote::MissingFile,
                    ..old(self).status
                })
                &&& final(self).cache@ == old(self).cache@
                &&& final(self).sidebar == old(self).sidebar
                &&& final(self).current_file == old(self).current_file
                &&& final(self).language == old(self).language
                &&& final(self).is_dirty == old(self).is_dirty
                &&& final(self).history == old(self).history
                &&& final(self).undo_new_group == old(self).undo_new_group
            },
            exists ==> {
                let cache = stash(old(self), text@);
                let n = file_key(path@);
                &&& !r.save_settings
                &&& final(self).settings == old(self).settings
                &&& final(self).cache@ == cache
                &&& final(self).history_cleared()
                &&& final(self).undo_new_group
                &&& final(self).sidebar.files_view() == with_file(
                    old(self).sidebar.files_view(),
                    n,
                )
                &&& final(self).sidebar.selected == Some(
                    (final(self).sidebar.files.len() - 1) as usize,
                )
                &&& if cache.dom().contains(n) {
                    &&& r.buffer matches BufferChange::Load(t) && t@ == cache[n].0
                    &&& r.task is Nothing
                    &&& opt_str(final(self).language) == cache[n].1
                    &&& final(self).is_dirty == cache[n].2
                    &&& final(self).current_file matches Some(p) && p@ == n
                    &&& final(self).status == (StatusLine {
                        note: StatusNote::FileOpened,
                        ..old(self).status
                    })
                } else {
                    &&& r.buffer is Keep
                    &&& r.task matches Task::Read(q) && q@ == path@
                    &&& final(self).language == old(self).language
                    &&& final(self).is_dirty == old(self).is_dirty
                    &&& final(self).current_file == old(self).current_file
                    &&& final(self).status == old(self).status
                }
            },
            old(self).wf() ==> final(self).wf(),
    {
        if !exists {
            forget_recent(&mut self.settings.recent_files, path.as_str());
            self.status.note = StatusNote::MissingFile;
            return outcome(BufferChange::Keep, Task::Nothing, true, false);
        }
        self.stash_current(text);
        self.history.clear();
        self.undo_new_group = true;
        let key = file_key_of(path.as_str());
        proof {
            lemma_file_key_idempotent(path@);
            if old(self).wf() {
                lemma_keys_with_file(old(self).sidebar.files_view(), key@);
            }
        }
        self.sidebar.add_file(key.clone());
        let (found, buffer) = self.show_cached(&key);
        if found {
            outcome(buffer, Task::Nothing, false, false)
        } else {
            outcome(BufferChange::Keep, Task::Read(path), false, false)
        }
    }

    /// Shows or hides the search bar.
    pub fn toggle_search(&mut self)
        ensures
            final(self).panels == (Panels { show_search: !old(self).panels.show_search, ..old(self).panels }),
            keeps_buffers(old(self), final(self)),
            final(self).status == old(self).status,
            final(self).settings == old(self).settings,
    {
        self.panels.show_search = !self.panels.show_search;
    }

    /// Shows or hides the sidebar.
    pub fn toggle_sidebar(&mut self)
        ensures
            final(self).panels == (Panels { show_sidebar: !old(self).panels.show_sidebar, ..old(self).panels }),
            keeps_buffers(old(self), final(self)),
            final(self).status == old(self).status,
            final(self).settings == old(self).settings,
    {
        self.panels.show_sidebar = !self.panels.show_sidebar;
    }

    /// Shows or hides the preferences panel.
    pub fn toggle_preferences(&mut self)
        ensures
            final(self).panels == (Panels {
                show_preferences: !old(self).panels.show_preferences,
                ..old(self).panels
            }),
            keeps_buffers(old(self), final(self)),
            final(self).status == old(self).status,
            final(self).settings == old(self).settings,
    {
        self.panels.show_preferences = !self.panels.show_preferences;
    }

    /// Switches between the dark and the light theme; the settings are
    /// saved.
    pub fn set_dark_mode(&mut self, dark: bool) -> (r: Outcome)
        ensures
            final(self).settings == (Settings { dark_mode: dark, ..old(self).settings }),
            r.buffer is Keep && r.task is Nothing && r.save_settings && !r.save_session,
            keeps_buffers(old(self), final(self)),
            final(self).panels == old(self).panels,
            final(self).status == old(self).status,
    {
        self.settings.dark_mode = dark;
        outcome(BufferChange::Keep, Task::Nothing, true, false)
    }

    /// Applies a change from the preferences panel; the settings are saved.
    pub fn change_preference(&mut self, change: PreferenceChange) -> (r: Outcome)
        ensures
            applied(old(self).settings, final(self).settings, change),
            r.buffer is Keep && r.task is Nothing && r.save_settings && !r.save_session,
            keeps_buffers(old(self), final(self)),
            final(self).panels == old(self).panels,
            final(self).status == old(self).status,
    {
        self.settings.apply(change);
        outcome(BufferChange::Keep, Task::Nothing, true, false)
    }

    /// Sets which overlay is shown (about box, language picker, shortcuts
    /// panel, or none).
    pub fn show_overlay(&mut self, overlay: ActiveOverlay)
        ensures
            final(self).panels == (Panels { overlay, ..old(self).panels }),
            keeps_buffers(old(self), final(self)),
            final(self).status == old(self).status,
            final(self).settings == old(self).settings,
    {
        self.panels.overlay = overlay;
    }

    /// Opens the go-to-line dialog with an empty field.
    pub fn open_goto_line(&mut self)
        ensures
            final(self).panels.overlay == ActiveOverlay::GotoLine,
            final(self).panels.goto_line_input@ == Seq::<char>::empty(),
            final(self).panels == (Panels {
                overlay: ActiveOverlay::GotoLine,
                goto_line_input: final(self).panels.goto_line_input,
                ..old(self).panels
            }),
            keeps_buffers(old(self), final(self)),
            final(self).status == old(self).status,
            final(self).settings == old(self).settings,
    {
        self.panels.goto_line_input = String::new();
        self.panels.overlay = ActiveOverlay::GotoLine;
    }

    /// The go-to-line field was edited: it keeps only the ASCII digits.
    pub fn goto_input_changed(&mut self, input: &str)
        ensures
            final(self).panels.goto_line_input@ == digits_of(input@),
            final(self).panels == (Panels {
                goto_line_input: final(self).panels.goto_line_input,
                ..old(self).panels
            }),
            keeps_buffers(old(self), final(self)),
            final(self).status == old(self).status,
            final(self).settings == old(self).settings,
    {
        self.panels.goto_line_input = crate::ui::digits_only(input);
    }

    /// The go-to-line dialog was submitted: it closes, and the line to move
    /// the cursor to is returned (see `goto_target_spec`).
    pub fn goto_line_submit(&mut self, line_count: usize) -> (r: Option<usize>)
        ensures
            match r {
                Some(t) => goto_target_spec(old(self).panels.goto_line_input@, line_count as nat)
                    == Some(t as nat),
                None => goto_target_spec(old(self).panels.goto_line_input@, line_count as nat) is None,
            },
            final(self).panels == (Panels { overlay: ActiveOverlay::Closed, ..old(self).panels }),
            keeps_buffers(old(self), final(self)),
            final(self).status == old(self).status,
            final(self).settings == old(self).settings,
    {
        let r = crate::ui::goto_target(self.panels.goto_line_input.as_str(), line_count);
        self.panels.overlay = ActiveOverlay::Closed;
        r
    }

    /// A language was picked for the shown buffer (an empty token clears
    /// it); the picker closes.
    pub fn set_language(&mut self, token: String)
        ensures
            opt_str(final(self).language) == if token@.len() == 0 {
                None
            } else {
                Some(token@)
            },
            final(self).panels == (Panels { overlay: ActiveOverlay::Closed, ..old(self).panels }),
            final(self).current_file == old(self).current_file,
            final(self).is_dirty == old(self).is_dirty,
            final(self).untitled_counter == old(self).untitled_counter,
            final(self).cache@ == old(self).cache@,
            final(self).sidebar == old(self).sidebar,
            final(self).history == old(self).history,
            final(self).undo_new_group == old(self).undo_new_group,
            final(self).status == old(self).status,
            final(self).settings == old(self).settings,
    {
        self.language = if token.as_str().is_empty() {
            None
        } else {
            Some(token)
        };
        self.panels.overlay = ActiveOverlay::Closed;
    }

    /// A key press (see `key_press_spec`); a new binding is saved with the
    /// settings.
    pub fn key_pressed(&mut self, key: String, ctrl: bool, shift: bool, alt: bool) -> (r: (
        KeyOutcome,
        Outcome,
    ))
        ensures
            key_press_spec(
                old(self).panels.overlay,
                final(self).panels.overlay,
                old(self).settings.shortcuts,
                final(self).settings.shortcuts,
                key,
                ctrl,
                shift,
                alt,
                r.0,
            ),
            final(self).panels == (Panels { overlay: final(self).panels.overlay, ..old(self).panels }),
            final(self).settings == (Settings {
                shortcuts: final(self).settings.shortcuts,
                ..old(self).settings
            }),
            r.1.buffer is Keep && r.1.task is Nothing && !r.1.save_session,
            r.1.save_settings == (r.0 is Rebound),
            keeps_buffers(old(self), final(self)),
            final(self).status == old(self).status,
    {
        let k = handle_key_press(&mut self.panels.overlay, &mut self.settings.shortcuts, key, ctrl, shift, alt);
        let rebound = match k {
            KeyOutcome::Rebound(_) => true,
            _ => false,
        };
        (k, outcome(BufferChange::Keep, Task::Nothing, rebound, false))
    }

    /// Formats the whole text with the shown buffer's language; without a
    /// language only the status changes.
    pub fn format_file(&mut self, text: String) -> (r: Outcome)
        ensures
            r.buffer is Keep && !r.save_settings && !r.save_session,
            match old(self).language {
                Some(lang) => {
                    &&& r.task matches Task::FormatText(t, l) && t@ == text@ && l@ == lang@
                    &&& final(self).status == (StatusLine {
                        note: StatusNote::Formatting,
                        is_formatting: true,
                        ..old(self).status
                    })
                },
                None => {
                    &&& r.task is Nothing
                    &&& final(self).status == (StatusLine {
                        note: StatusNote::NoLanguage,
                        ..old(self).status
                    })
                },
            },
            keeps_buffers(old(self), final(self)),
            final(self).panels == old(self).panels,
            final(self).settings == old(self).settings,
    {
        match &self.language {
            Some(lang) => {
                let l = lang.clone();
                self.status.is_formatting = true;
                self.status.note = StatusNote::Formatting;
                outcome(BufferChange::Keep, Task::FormatText(text, l), false, false)
            },
            None => {
                self.status.note = StatusNote::NoLanguage;
                quiet_outcome()
            },
        }
    }

    /// Formats the selected text with the shown buffer's language; nothing
    /// happens without a language or a selection.
    pub fn format_selection(&mut self, selection: Option<String>) -> (r: Outcome)
        ensures
            r.buffer is Keep && !r.save_settings && !r.save_session,
            match (old(self).language, selection) {
                (Some(lang), Some(sel)) => {
                    &&& r.task matches Task::FormatSelection(t, l) && t@ == sel@ && l@ == lang@
                    &&& final(self).status == (StatusLine {
                        note: StatusNote::Formatting,
                        is_formatting: true,
                        ..old(self).status
                    })
                },
                _ => {
                    &&& r.task is Nothing
                    &&& final(self).status == old(self).status
                },
            },
            keeps_buffers(old(self), final(self)),
            final(self).panels == old(self).panels,
            final(self).settings == old(self).settings,
    {
        match (&self.language, selection) {
            (Some(lang), Some(sel)) => {
                let l = lang.clone();
                self.status.is_formatting = true;
                self.status.note = StatusNote::Formatting;
                outcome(BufferChange::Keep, Task::FormatSelection(sel, l), false, false)
            },
            _ => quiet_outcome(),
        }
    }

    /// The formatter finished, on the whole text (`whole`) or on the
    /// selection. Its output replaces the text or the selection and marks
    /// the buffer changed; an error is kept and shown in the error panel.
    pub fn format_finished(&mut self, result: Result<String, String>, whole: bool) -> (r: Outcome)
        ensures
            r.task is Nothing && !r.save_settings && !r.save_session,
            final(self).current_file == old(self).current_file,
            final(self).language == old(self).language,
            final(self).untitled_counter == old(self).untitled_counter,
            final(self).cache@ == old(self).cache@,
            final(self).sidebar == old(self).sidebar,
            final(self).history == old(self).history,
            final(self).undo_new_group == old(self).undo_new_group,
            final(self).panels == old(self).panels,
            final(self).settings == old(self).settings,
            match result {
                Ok(f) => {
                    &&& if whole {
                        r.buffer matches BufferChange::Load(t) && t@ == f@
                    } else {
                        r.buffer matches BufferChange::Paste(t) && t@ == f@
                    }
                    &&& final(self).is_dirty
                    &&& final(self).status == (StatusLine {
                        note: StatusNote::Formatted,
                        is_error: false,
                        format_error: None,
                        is_formatting: false,
                        ..old(self).status
                    })
                },
                Err(e) => {
                    &&& r.buffer is Keep
                    &&& final(self).is_dirty == old(self).is_dirty
                    &&& final(self).status == (StatusLine {
                        note: StatusNote::FormatError,
                        is_error: true,
                        format_error: Some(e),
                        show_error_panel: true,
                        is_formatting: false,
                    })
                },
            },
    {
        self.status.is_formatting = false;
        match result {
            Ok(f) => {
                self.is_dirty = true;
                self.status.is_error = false;
                self.status.format_error = None;
                self.status.note = StatusNote::Formatted;
                let buffer = if whole {
                    BufferChange::Load(f)
                } else {
                    BufferChange::Paste(f)
                };
                outcome(buffer, Task::Nothing, false, false)
            },
            Err(e) => {
                self.status.is_error = true;
                self.status.format_error = Some(e);
                self.status.show_error_panel = true;
                self.status.note = StatusNote::FormatError;
                quiet_outcome()
            },
        }
    }

    /// Hides the formatter's error panel.
    pub fn close_error_panel(&mut self)
        ensures
            final(self).status == (StatusLine { show_error_panel: false, ..old(self).status }),
            keeps_buffers(old(self), final(self)),
            final(self).panels == old(self).panels,
            final(self).settings == old(self).settings,
    {
        self.status.show_error_panel = false;
    }

    /// A background task (such as an update check) failed: the status shows
    /// its message.
    pub fn note_failure(&mut self, message: String)
        ensures
            final(self).status == (StatusLine { note: StatusNote::Failed(message), ..old(self).status }),
            keeps_buffers(old(self), final(self)),
            final(self).panels == old(self).panels,
            final(self).settings == old(self).settings,
    {
        self.status.note = StatusNote::Failed(message);
    }

    /// The buffer was changed directly (cut, paste, delete from the context
    /// menu): it now has unsaved changes.
    pub fn mark_edited(&mut self)
        ensures
            final(self).is_dirty,
            final(self).current_file == old(self).current_file,
            final(self).language == old(self).language,
            final(self).untitled_counter == old(self).untitled_counter,
            final(self).cache@ == old(self).cache@,
            final(self).sidebar == old(self).sidebar,
            final(self).history == old(self).history,
            final(self).undo_new_group == old(self).undo_new_group,
            final(self).status == old(self).status,
            final(self).panels == old(self).panels,
            final(self).settings == old(self).settings,
    {
        self.is_dirty = true;
    }

    /// Line commands and indentation act only while neither the search bar
    /// nor the preferences panel has the focus.
    pub open spec fn editing_enabled(&self) -> bool {
        !self.panels.show_search && !self.panels.show_preferences
    }

    /// Whether line commands and indentation act now (see
    /// `editing_enabled`).
    pub fn is_editing_enabled(&self) -> (r: bool)
        ensures
            r == self.editing_enabled(),
    {
        !self.panels.show_search && !self.panels.show_preferences
    }

    /// The indentation unit of the settings.
    pub open spec fn indent_spec(&self) -> Seq<char> {
        indent_unit_spec(self.settings.use_spaces, self.settings.tab_width as nat)
    }

    /// Records `text` as an undo step for an edit made now.
    fn record_edit(&mut self, text: String)
        ensures
            final(self).history.undo_view() == bounded_push(old(self).history.undo_view(), text@),
            final(self).history.redo_stack.len() == 0,
            old(self).history.wf() ==> final(self).history.wf(),
            final(self).is_dirty,
            final(self).undo_new_group,
            final(self).current_file == old(self).current_file,
            final(self).language == old(self).language,
            final(self).untitled_counter == old(self).untitled_counter,
            final(self).cache@ == old(self).cache@,
            final(self).sidebar == old(self).sidebar,
            final(self).panels == old(self).panels,
            final(self).status == old(self).status,
            final(self).settings == old(self).settings,
    {
        self.history.push_undo(text);
        self.is_dirty = true;
        self.undo_new_group = true;
    }

    /// A command on the cursor's line `line` of `text`: the text before it
    /// becomes an undo step, the buffer is reloaded with the result and the
    /// cursor put on the resulting line (see `line_command_spec`). Nothing
    /// happens while editing is not enabled.
    #[verifier::spinoff_prover]
    pub fn line_command(&mut self, cmd: LineCommand, text: String, line: usize) -> (r: Outcome)
        requires
            old(self).editing_enabled() && cmd == LineCommand::Duplicate ==> line < usize::MAX,
            old(self).editing_enabled() && cmd == LineCommand::MoveUp ==> line == 0 || line
                < split_lines(text@).len(),
            old(self).editing_enabled() && cmd == LineCommand::MoveDown ==> line < usize::MAX,
        ensures
            !old(self).editing_enabled() ==> {
                &&& quiet(r)
                &&& final(self).history == old(self).history
                &&& final(self).is_dirty == old(self).is_dirty
                &&& final(self).undo_new_group == old(self).undo_new_group
            },
            old(self).editing_enabled() ==> {
                let (t, l) = line_command_spec(cmd, text@, line as int, opt_str(old(self).language));
                &&& r.buffer matches BufferChange::LoadAtLine(nt, nl) && nt@ == t && nl == l
                &&& r.task is Nothing && !r.save_settings && !r.save_session
                &&& final(self).history.undo_view() == bounded_push(
                    old(self).history.undo_view(),
                    text@,
                )
                &&& final(self).history.redo_stack.len() == 0
                &&& final(self).is_dirty
                &&& final(self).undo_new_group
            },
            final(self).current_file == old(self).current_file,
            final(self).language == old(self).language,
            final(self).untitled_counter == old(self).untitled_counter,
            final(self).cache@ == old(self).cache@,
            final(self).sidebar == old(self).sidebar,
            final(self).panels == old(self).panels,
            final(self).status == old(self).status,
            final(self).settings == old(self).settings,
            old(self).wf() ==> final(self).wf(),
    {
        if self.panels.show_search || self.panels.show_preferences {
            return quiet_outcome();
        }
        let (new_text, new_line) = match cmd {
            LineCommand::Duplicate => (duplicate_line(text.as_str(), line), line + 1),
            LineCommand::MoveUp => move_line(text.as_str(), line, true),
            LineCommand::MoveDown => move_line(text.as_str(), line, false),
            LineCommand::ToggleComment => {
                let prefix = match &self.language {
                    Some(l) => comment_prefix(Some(l.as_str())),
                    None => comment_prefix(None),
                };
                (toggle_comment(text.as_str(), line, prefix), line)
            },
            LineCommand::Delete => delete_line_op(text.as_str(), line),
        };
        self.record_edit(text);
        outcome(BufferChange::LoadAtLine(new_text, new_line), Task::Nothing, false, false)
    }

    /// Tab: indents the selection when there is one (see
    /// `indent_selection`); otherwise the text before it becomes an undo
    /// step and one indentation unit is inserted. Nothing happens while
    /// editing is not enabled.
    pub fn insert_tab(&mut self, selection: Option<String>, text: String) -> (r: Outcome)
        ensures
            !old(self).editing_enabled() ==> {
                &&& quiet(r)
                &&& final(self).history == old(self).history
                &&& final(self).is_dirty == old(self).is_dirty
                &&& final(self).undo_new_group == old(self).undo_new_group
            },
            old(self).editing_enabled() ==> {
                &&& r.buffer matches BufferChange::Paste(p) && p@ == match selection {
                    Some(sel) => indent_text_spec(sel@, old(self).indent_spec()),
                    None => old(self).indent_spec(),
                }
                &&& r.task is Nothing && !r.save_settings && !r.save_session
                &&& final(self).history.undo_view() == bounded_push(
                    old(self).history.undo_view(),
                    text@,
                )
                &&& final(self).history.redo_stack.len() == 0
                &&& final(self).is_dirty
                &&& final(self).undo_new_group
            },
            final(self).current_file == old(self).current_file,
            final(self).language == old(self).language,
            final(self).untitled_counter == old(self).untitled_counter,
            final(self).cache@ == old(self).cache@,
            final(self).sidebar == old(self).sidebar,
            final(self).panels == old(self).panels,
            final(self).status == old(self).status,
            final(self).settings == old(self).settings,
            old(self).wf() ==> final(self).wf(),
    {
        if self.panels.show_search || self.panels.show_preferences {
            return quiet_outcome();
        }
        let unit = indent_unit(self.settings.use_spaces, self.settings.tab_width);
        let inserted = match selection {
            Some(sel) => indent_text(sel.as_str(), unit.as_str()),
            None => unit,
        };
        self.record_edit(text);
        outcome(BufferChange::Paste(inserted), Task::Nothing, false, false)
    }

    /// Indents every non-empty line of the selection by one unit; the text
    /// before it becomes an undo step. Nothing happens without a selection
    /// or while editing is not enabled.
    pub fn indent_selection(&mut self, selection: Option<String>, text: String) -> (r: Outcome)
        ensures
            !(old(self).editing_enabled() && selection is Some) ==> {
                &&& quiet(r)
                &&& final(self).history == old(self).history
                &&& final(self).is_dirty == old(self).is_dirty
                &&& final(self).undo_new_group == old(self).undo_new_group
            },
            old(self).editing_enabled() && selection is Some ==> {
                &&& r.buffer matches BufferChange::Paste(p) && p@ == indent_text_spec(
                    selection->0@,
                    old(self).indent_spec(),
                )
                &&& r.task is Nothing && !r.save_settings && !r.save_session
                &&& final(self).history.undo_view() == bounded_push(
                    old(self).history.undo_view(),
                    text@,
                )
                &&& final(self).history.redo_stack.len() == 0
                &&& final(self).is_dirty
                &&& final(self).undo_new_group
            },
            final(self).current_file == old(self).current_file,
            final(self).language == old(self).language,
            final(self).untitled_counter == old(self).untitled_counter,
            final(self).cache@ == old(self).cache@,
            final(self).sidebar == old(self).sidebar,
            final(self).panels == old(self).panels,
            final(self).status == old(self).status,
            final(self).settings == old(self).settings,
            old(self).wf() ==> final(self).wf(),
    {
        if self.panels.show_search || self.panels.show_preferences {
            return quiet_outcome();
        }
        match selection {
            Some(sel) => {
                let unit = indent_unit(self.settings.use_spaces, self.settings.tab_width);
                let inserted = indent_text(sel.as_str(), unit.as_str());
                self.record_edit(text);
                outcome(BufferChange::Paste(inserted), Task::Nothing, false, false)
            },
            None => quiet_outcome(),
        }
    }

    /// Shift+Tab: removes one indentation level from every line of the
    /// selection, or from the cursor's line `line` when nothing is selected
    /// (the cursor stays on that line); the text before it becomes an undo
    /// step. Nothing happens while editing is not enabled.
    pub fn dedent(&mut self, selection: Option<String>, text: String, line: usize) -> (r: Outcome)
        ensures
            !old(self).editing_enabled() ==> {
                &&& quiet(r)
                &&& final(self).history == old(self).history
                &&& final(self).is_dirty == old(self).is_dirty
                &&& final(self).undo_new_group == old(self).undo_new_group
            },
            old(self).editing_enabled() ==> {
                &&& match selection {
                    Some(sel) => r.buffer matches BufferChange::Paste(p) && p@ == dedent_text_spec(
                        sel@,
                        old(self).indent_spec(),
                    ),
                    None => r.buffer matches BufferChange::LoadAtLine(t, l) && t@ == dedent_line_spec(
                        text@,
                        line as int,
                        old(self).indent_spec(),
                    ) && l == line,
                }
                &&& r.task is Nothing && !r.save_settings && !r.save_session
                &&& final(self).history.undo_view() == bounded_push(
                    old(self).history.undo_view(),
                    text@,
                )
                &&& final(self).history.redo_stack.len() == 0
                &&& final(self).is_dirty
                &&& final(self).undo_new_group
            },
            final(self).current_file == old(self).current_file,
            final(self).language == old(self).language,
            final(self).untitled_counter == old(self).untitled_counter,
            final(self).cache@ == old(self).cache@,
            final(self).sidebar == old(self).sidebar,
            final(self).panels == old(self).panels,
            final(self).status == old(self).status,
            final(self).settings == old(self).settings,
            old(self).wf() ==> final(self).wf(),
    {
        if self.panels.show_search || self.panels.show_preferences {
            return quiet_outcome();
        }
        let unit = indent_unit(self.settings.use_spaces, self.settings.tab_width);
        let buffer = match selection {
            Some(sel) => BufferChange::Paste(dedent_text(sel.as_str(), unit.as_str())),
            None => BufferChange::LoadAtLine(dedent_line(text.as_str(), line, unit.as_str()), line),
        };
        self.record_edit(text);
        outcome(buffer, Task::Nothing, false, false)
    }

    /// A buffer action from the editor widget, before it is carried out;
    /// `text` is the buffer's text and `line` the cursor's line.
    ///
    /// Undo steps: typing a non-blank character right after a word boundary
    /// records the text as an undo step and continues the step until the
    /// next whitespace character; Enter, backspace, delete and paste each
    /// record a step of their own; whitespace and cursor motions end the
    /// current step.
    ///
    /// Automatic insertions, each when its setting is on: Enter repeats the
    /// line's leading spaces and tabs; an opening bracket and a quote are
    /// closed. Edits mark the buffer changed.
    #[verifier::spinoff_prover]
    pub fn editor_action(&mut self, kind: EditKind, text: &str, line: usize) -> (r: Typing)
        ensures
            match kind {
                EditKind::Insert(c) => if is_ws(c) {
                    &&& final(self).history == old(self).history
                    &&& final(self).undo_new_group
                } else if old(self).undo_new_group {
                    &&& final(self).history.undo_view() == bounded_push(
                        old(self).history.undo_view(),
                        text@,
                    )
                    &&& final(self).history.redo_stack.len() == 0
                    &&& !final(self).undo_new_group
                } else {
                    &&& final(self).history == old(self).history
                    &&& !final(self).undo_new_group
                },
                EditKind::Enter | EditKind::OtherEdit => {
                    &&& final(self).history.undo_view() == bounded_push(
                        old(self).history.undo_view(),
                        text@,
                    )
                    &&& final(self).history.redo_stack.len() == 0
                    &&& final(self).undo_new_group
                },
                EditKind::Motion => {
                    &&& final(self).history == old(self).history
                    &&& final(self).undo_new_group
                },
            },
            if old(self).settings.auto_indent && kind == EditKind::Enter {
                &&& r matches Typing::EnterWithIndent(ind) && ind@ == line_indent(text@, line as int)
                &&& final(self).is_dirty
            } else if old(self).settings.autocomplete_brackets && (kind matches EditKind::Insert(c)
                && closing_bracket(c) is Some) {
                &&& r == Typing::InsertPair(kind->0, closing_bracket(kind->0)->0)
                &&& final(self).is_dirty
            } else if old(self).settings.autocomplete_quotes && (kind matches EditKind::Insert(c)
                && is_quote(c)) {
                &&& r == Typing::InsertPair(kind->0, kind->0)
                &&& final(self).is_dirty
            } else {
                &&& r is Perform
                &&& final(self).is_dirty == (old(self).is_dirty || kind != EditKind::Motion)
            },
            final(self).current_file == old(self).current_file,
            final(self).language == old(self).language,
            final(self).untitled_counter == old(self).untitled_counter,
            final(self).cache@ == old(self).cache@,
            final(self).sidebar == old(self).sidebar,
            final(self).panels == old(self).panels,
            final(self).status == old(self).status,
            final(self).settings == old(self).settings,
            old(self).wf() ==> final(self).wf(),
    {
        match kind {
            EditKind::Insert(c) => {
                if is_whitespace(c) {
                    self.undo_new_group = true;
                } else if self.undo_new_group {
                    self.history.push_undo(string_of(chars_of(text).as_slice()));
                    self.undo_new_group = false;
                }
            },
            EditKind::Enter | EditKind::OtherEdit => {
                self.history.push_undo(string_of(chars_of(text).as_slice()));
                self.undo_new_group = true;
            },
            EditKind::Motion => {
                self.undo_new_group = true;
            },
        }
        if self.settings.auto_indent && kind == EditKind::Enter {
            self.is_dirty = true;
            return Typing::EnterWithIndent(indent_of_line(text, line));
        }
        if let EditKind::Insert(c) = kind {
            if self.settings.autocomplete_brackets {
                let close = if c == '(' {
                    Some(')')
                } else if c == '[' {
                    Some(']')
                } else if c == '{' {
                    Some('}')
                } else {
                    None
                };
                if let Some(cl) = close {
                    self.is_dirty = true;
                    return Typing::InsertPair(c, cl);
                }
            }
            if self.settings.autocomplete_quotes && (c == '"' || c == '\'' || c == '`') {
                self.is_dirty = true;
                return Typing::InsertPair(c, c);
            }
        }
        if kind != EditKind::Motion {
            self.is_dirty = true;
        }
        Typing::Perform
    }

    /// The state at start-up, before a session is restored: nothing open,
    /// counter at 1, sidebar shown, no overlay, status "ready".
    pub fn new(settings: Settings) -> (r: Self)
        ensures
            r.current_file is None,
            r.language is None,
            !r.is_dirty,
            r.untitled_counter == 1,
            r.cache@ == Map::<Seq<char>, (Seq<char>, Option<Seq<char>>, bool)>::empty(),
            r.sidebar.files.len() == 0,
            r.sidebar.selected is None,
            r.history_cleared(),
            r.undo_new_group,
            start_panels(r.panels),
            start_status(r.status),
            r.settings == settings,
            r.wf(),
    {
        proof {
            reveal(all_keys);
        }
        Workspace {
            current_file: None,
            language: None,
            is_dirty: false,
            untitled_counter: 1,
            cache: FileCache::new(),
            sidebar: SidebarState::new(),
            history: UndoHistory::new(),
            undo_new_group: true,
            panels: Panels {
                show_search: false,
                show_sidebar: true,
                show_preferences: false,
                open_menu: None,
                overlay: ActiveOverlay::Closed,
                goto_line_input: String::new(),
            },
            status: StatusLine {
                note: StatusNote::Ready,
                is_error: false,
                format_error: None,
                show_error_panel: false,
                is_formatting: false,
            },
            settings,
        }
    }

    /// The start-up state with a saved session restored; `disk` holds, for
    /// each saved file, its contents when the caller read it from disk.
    ///
    /// Without saved files the buffer `untitled://1` is listed and shown.
    /// Otherwise every saved file is listed and kept as a buffer (see
    /// `restored_text`), the counter is the saved one (at least 1), and the
    /// saved active file (else the first) is shown and taken out of the
    /// cache, when it is among the saved files. Files are told apart by
    /// their keys (see `file_key`).
    #[verifier::spinoff_prover]
    pub fn restore(settings: Settings, session: &Session, disk: &Vec<Option<String>>) -> (r: (
        Self,
        BufferChange,
    ))
        requires
            disk.len() == session.files.len(),
        ensures
            r.0.wf(),
            r.0.settings == settings,
            r.0.history_cleared(),
            r.0.undo_new_group,
            start_panels(r.0.panels),
            start_status(r.0.status),
            session.files.len() == 0 ==> {
                &&& r.0.sidebar.files_view() == seq![untitled_path_spec(1)]
                &&& r.0.current_file matches Some(p) && p@ == untitled_path_spec(1)
                &&& r.0.untitled_counter == 1
                &&& r.0.cache@ == Map::<Seq<char>, (Seq<char>, Option<Seq<char>>, bool)>::empty()
                &&& r.0.language is None
                &&& !r.0.is_dirty
                &&& r.1 is Keep
            },
            session.files.len() > 0 ==> {
                let all = restored_buffers(session.files@, disk@);
                let active = restored_active(*session);
                &&& r.0.sidebar.files_view() == listed(session_paths(session.files@))
                &&& r.0.untitled_counter == if session.untitled_counter < 1 {
                    1
                } else {
                    session.untitled_counter
                }
                &&& if all.dom().contains(active) {
                    &&& r.0.cache@ == all.remove(active)
                    &&& r.0.current_file matches Some(p) && p@ == active
                    &&& opt_str(r.0.language) == all[active].1
                    &&& r.0.is_dirty == all[active].2
                    &&& r.1 matches BufferChange::Load(t) && t@ == all[active].0
                } else {
                    &&& r.0.cache@ == all
                    &&& r.0.current_file is None
                    &&& r.0.language is None
                    &&& !r.0.is_dirty
                    &&& r.1 is Keep
                }
            },
    {
        let mut w = Workspace::new(settings);
        if session.files.len() == 0 {
            let path = untitled_path(1);
            proof {
                law_untitled_path_is_untitled(1);
                lemma_untitled_key(path@);
                lemma_keys_with_file(w.sidebar.files_view(), path@);
            }
            w.sidebar.add_file(path.clone());
            w.current_file = Some(path);
            w.untitled_counter = 1;
            assert(w.sidebar.files_view() =~= seq![untitled_path_spec(1)]);
            return (w, BufferChange::Keep);
        }
        let ghost files = session.files@;
        let ghost paths = session_paths(files);
        let mut sidebar = SidebarState::new();
        let mut cache = FileCache::new();
        let mut i: usize = 0;
        assert(paths.take(0) =~= Seq::<Seq<char>>::empty());
        proof {
            reveal(all_keys);
        }
        assert(files.take(0) =~= Seq::<FileSession>::empty());
        while i < session.files.len()
            invariant
                i <= session.files.len(),
                disk.len() == session.files.len(),
                files == session.files@,
                paths == session_paths(files),
                sidebar.wf(),
                all_keys(sidebar.files_view()),
                sidebar.files_view() == listed(paths.take(i as int)),
                cache@ == restored_buffers(files.take(i as int), disk@.take(i as int)),
            decreases session.files.len() - i,
        {
            let e = &session.files[i];
            proof {
                assert(paths.take(i + 1).drop_last() =~= paths.take(i as int));
                assert(files.take(i + 1).drop_last() =~= files.take(i as int));
                assert(disk@.take(i + 1).drop_last() =~= disk@.take(i as int));
            }
            let key = file_key_of(e.path.as_str());
            proof {
                lemma_file_key_idempotent(e.path@);
                lemma_keys_with_file(sidebar.files_view(), key@);
            }
            sidebar.add_file(key.clone());
            let content = match restore_source(e) {
                RestoreSource::Saved(t) => t,
                RestoreSource::Disk => match &disk[i] {
                    Some(d) => d.clone(),
                    None => String::new(),
                },
                RestoreSource::Empty => String::new(),
            };
            cache.insert(
                key,
                CachedFile { content, language: e.language.clone(), dirty: e.dirty },
            );
            i = i + 1;
        }
        assert(paths.take(i as int) =~= paths);
        assert(files.take(i as int) =~= files);
        assert(disk@.take(i as int) =~= disk@);
        w.untitled_counter = session.restored_counter();
        let mut buffer = BufferChange::Keep;
        match session.active_path() {
            Some(active) => {
                let a = file_key_of(active.as_str());
                match cache.remove(a.as_str()) {
                Some(c) => {
                    w.language = c.language;
                    w.is_dirty = c.dirty;
                    w.current_file = Some(a);
                    buffer = BufferChange::Load(c.content);
                },
                None => {},
                }
            },
            None => {},
        }
        w.sidebar = sidebar;
        w.cache = cache;
        (w, buffer)
    }

    /// The session to save: one entry per listed file (see
    /// `build_session`), the shown file as active, and the counter; `text`
    /// is the shown buffer's text.
    pub fn session(&self, text: &str) -> (r: Session)
        ensures
            r.files.len() == self.sidebar.files.len(),
            forall|i: int|
                0 <= i < self.sidebar.files.len() ==> session_entry_ok(
                    #[trigger] r.files@[i],
                    self.sidebar.files@[i]@,
                    entry_source(
                        self.sidebar.files@[i]@,
                        opt_str(self.current_file),
                        shown(self, text@),
                        self.cache@,
                    ),
                ),
            opt_str(r.active_file) == opt_str(self.current_file),
            r.untitled_counter == self.untitled_counter,
    {
        let current = match &self.current_file {
            Some(c) => Some(c.as_str()),
            None => None,
        };
        build_session(
            &self.sidebar.files,
            current,
            text,
            &self.language,
            self.is_dirty,
            &self.cache,
            self.untitled_counter,
        )
    }

    /// Which parts of the window are shown: the search bar, sidebar and
    /// preferences panel when toggled on, the banner while formatting, the
    /// error panel when it is open and there is an error to show, the open
    /// menu's drop-down and the overlay.
    pub fn layout(&self) -> (r: Layout)
        ensures
            r.search_bar == self.panels.show_search,
            r.sidebar == self.panels.show_sidebar,
            r.preferences == self.panels.show_preferences,
            r.formatting_banner == self.status.is_formatting,
            match r.error_panel {
                Some(e) => self.status.show_error_panel && (self.status.format_error matches Some(f)
                    && e@ == f@),
                None => !self.status.show_error_panel || self.status.format_error is None,
            },
            r.dropdown == self.panels.open_menu,
            r.overlay == self.panels.overlay,
    {
        let error_panel = if self.status.show_error_panel {
            match &self.status.format_error {
                Some(e) => Some(e.clone()),
                None => None,
            }
        } else {
            None
        };
        Layout {
            search_bar: self.panels.show_search,
            sidebar: self.panels.show_sidebar,
            preferences: self.panels.show_preferences,
            formatting_banner: self.status.is_formatting,
            error_panel,
            dropdown: self.panels.open_menu,
            overlay: self.panels.overlay,
        }
    }

    /// The open menu at the start of handling a message: a click on a menu
    /// title (`Some`) opens that menu, or closes it when it is the open one;
    /// every other message (`None`) closes the open menu. No other method
    /// changes the open menu.
    pub fn menu_for_message(&mut self, clicked_title: Option<TopMenu>)
        ensures
            final(self).panels == (Panels {
                open_menu: match clicked_title {
                    Some(m) => if old(self).panels.open_menu == Some(m) {
                        None
                    } else {
                        Some(m)
                    },
                    None => None,
                },
                ..old(self).panels
            }),
            keeps_buffers(old(self), final(self)),
            final(self).status == old(self).status,
            final(self).settings == old(self).settings,
    {
        match clicked_title {
            Some(m) => self.toggle_menu(m),
            None => self.dismiss_menu(),
        }
    }
}


proof fn lemma_listed_distinct(paths: Seq<Seq<char>>)
    requires
        no_duplicates(paths),
    ensures
        listed(paths) == paths,
    decreases paths.len(),
{
    if paths.len() > 0 {
        let d = paths.drop_last();
        assert(no_duplicates(d)) by {
            assert forall|i: int, j: int| 0 <= i < j < d.len() implies d[i] != d[j] by {
                assert(d[i] == paths[i] && d[j] == paths[j]);
            }
        }
        lemma_listed_distinct(d);
        assert(!d.contains(paths.last())) by {
            if d.contains(paths.last()) {
                let k = choose|k: int| 0 <= k < d.len() && d[k] == paths.last();
                assert(paths[k] == paths[paths.len() - 1]);
            }
        }
        assert(d.push(paths.last()) =~= paths);
    }
}

proof fn lemma_restored_lookup(entries: Seq<FileSession>, disk: Seq<Option<String>>, i: int)
    requires
        no_duplicates(session_paths(entries)),
        disk.len() == entries.len(),
        0 <= i < entries.len(),
    ensures
        restored_buffers(entries, disk).dom().contains(file_key(entries[i].path@)),
        restored_buffers(entries, disk)[file_key(entries[i].path@)] == (
            restored_text(entries[i], disk[i]),
            opt_str(entries[i].language),
            entries[i].dirty,
        ),
    decreases entries.len(),
{
    let n = entries.len() - 1;
    if i < n {
        let e = entries.drop_last();
        assert(session_paths(e) =~= session_paths(entries).drop_last());
        assert(no_duplicates(session_paths(e))) by {
            let sp = session_paths(e);
            assert forall|a: int, b: int| 0 <= a < b < sp.len() implies sp[a] != sp[b] by {
                assert(sp[a] == session_paths(entries)[a] && sp[b] == session_paths(entries)[b]);
            }
        }
        lemma_restored_lookup(e, disk.drop_last(), i);
        assert(session_paths(entries)[i] != session_paths(entries)[n]);
    }
}

/// Restoring a saved session gives back the same open files, in the same
/// sidebar order, each with the text, language and unsaved-changes flag it
/// had when the session was saved, provided that every file saved without
/// its text (a clean file on disk) reads back as it was.
pub proof fn law_session_round_trip(
    files: Seq<Seq<char>>,
    current: Option<Seq<char>>,
    current_state: (Seq<char>, Option<Seq<char>>, bool),
    cache: Map<Seq<char>, (Seq<char>, Option<Seq<char>>, bool)>,
    entries: Seq<FileSession>,
    disk: Seq<Option<String>>,
)
    requires
        no_duplicates(files),
        all_keys(files),
        entries.len() == files.len(),
        disk.len() == files.len(),
        forall|i: int|
            0 <= i < files.len() ==> session_entry_ok(
                #[trigger] entries[i],
                files[i],
                entry_source(files[i], current, current_state, cache),
            ),
        forall|i: int|
            0 <= i < files.len() && !keeps_content(
                files[i],
                entry_source(files[i], current, current_state, cache).2,
            ) ==> (#[trigger] disk[i] matches Some(d) && d@ == entry_source(
                files[i],
                current,
                current_state,
                cache,
            ).0),
    ensures
        listed(session_paths(entries)) == files,
        forall|i: int|
            0 <= i < files.len() ==> restored_buffers(entries, disk).dom().contains(#[trigger] files[i])
                && restored_buffers(entries, disk)[files[i]] == entry_source(
                files[i],
                current,
                current_state,
                cache,
            ),
        forall|p: Seq<char>|
            current == Some(p) && #[trigger] files.contains(p) ==> restored_buffers(
                entries,
                disk,
            ).dom().contains(p) && restored_buffers(entries, disk)[p] == current_state,
{
    reveal(all_keys);
    assert(session_paths(entries) =~= files);
    lemma_listed_distinct(files);
    assert forall|i: int| 0 <= i < files.len() implies restored_buffers(entries, disk).dom().contains(
        #[trigger] files[i],
    ) && restored_buffers(entries, disk)[files[i]] == entry_source(
        files[i],
        current,
        current_state,
        cache,
    ) by {
        lemma_restored_lookup(entries, disk, i);
        assert(entries[i].path@ == files[i]);
        assert(file_key(files[i]) == files[i]);
        let src = entry_source(files[i], current, current_state, cache);
        assert(session_entry_ok(entries[i], files[i], src));
        if entries[i].content is None {
            assert(!keeps_content(files[i], src.2));
            assert(disk[i] matches Some(d) && d@ == src.0);
        }
    }
    assert forall|p: Seq<char>|
        current == Some(p) && #[trigger] files.contains(p) implies restored_buffers(
            entries,
            disk,
        ).dom().contains(p) && restored_buffers(entries, disk)[p] == current_state by {
        let k = choose|k: int| 0 <= k < files.len() && files[k] == p;
        assert(restored_buffers(entries, disk).dom().contains(files[k]));
    }
}


/// Switching from file `p` to file `q` and on to a third file keeps `p`'s
/// buffer as it was put away: a later switch back to `p` shows exactly the
/// text, language and unsaved-changes flag it had.
pub proof fn law_switch_keeps_buffer(
    cache: Map<Seq<char>, (Seq<char>, Option<Seq<char>>, bool)>,
    p: Seq<char>,
    p_state: (Seq<char>, Option<Seq<char>>, bool),
    q: Seq<char>,
    q_state: (Seq<char>, Option<Seq<char>>, bool),
)
    requires
        p != q,
    ensures
        cache.insert(p, p_state).insert(q, q_state).dom().contains(p),
        cache.insert(p, p_state).insert(q, q_state)[p] == p_state,
{
}


/// After an edit that records an undo step (a line command, Tab, an
/// indentation change, a typed word): the undo stack ends with the text
/// before the edit and the redo stack is empty. Undo then restores that
/// text and leaves the edited text as the only thing to redo; redo restores
/// the edited text and puts the undo stack back as it was.
pub proof fn law_undo_redo_after_edit(undo: Seq<Seq<char>>, before: Seq<char>, edited: Seq<char>)
    requires
        undo.len() <= HISTORY_LIMIT,
    ensures
        ({
            let undo1 = bounded_push(undo, before);
            let redo2 = bounded_push(Seq::<Seq<char>>::empty(), edited);
            &&& undo1.len() > 0
            &&& undo1.last() == before
            &&& redo2 == seq![edited]
            &&& bounded_push(undo1.drop_last(), before) == undo1
        }),
{
    let undo1 = bounded_push(undo, before);
    assert(bounded_push(Seq::<Seq<char>>::empty(), edited) =~= seq![edited]);
    assert(undo1.drop_last().push(before) =~= undo1);
}


/// Typing an opening bracket `(`, `[` or `{` inserts its partner `)`, `]`
/// or `}` after it, and no other character is closed as a bracket; the
/// quotes closed automatically are `"`, `'` and backquote, and no bracket
/// is a quote.
pub proof fn law_brackets_close(c: char)
    ensures
        closing_bracket(c) is Some <==> (c == '(' || c == '[' || c == '{'),
        c == '(' ==> closing_bracket(c) == Some(')'),
        c == '[' ==> closing_bracket(c) == Some(']'),
        c == '{' ==> closing_bracket(c) == Some('}'),
        is_quote(c) <==> (c == '"' || c == '\'' || c == '`'),
        closing_bracket(c) is Some ==> !is_quote(c),
{
}

} // verus!
