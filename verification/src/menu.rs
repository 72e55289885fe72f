//! What the menus, the editor's context menu, the shortcuts panel and the
//! language picker list: entries, their shortcut hints, and which are
//! enabled.

use vstd::prelude::*;

use crate::config::{display_spec, recent_views, Settings, ShortcutTarget, Shortcuts};
use crate::editor::{supported_language_list, supported_languages};
use crate::paths::{label_of, path_label};
use crate::text::str_eq;
use crate::ui::TopMenu;

verus! {

/// What choosing a menu entry does.
#[derive(Debug, Clone, Copy, PartialEq, Eq, Structural)]
pub enum MenuAction {
    NewFile,
    OpenFile,
    SaveFile,
    SaveFileAs,
    CloseFile,
    Quit,
    Undo,
    Redo,
    DuplicateLine,
    MoveLineUp,
    MoveLineDown,
    ToggleComment,
    DeleteLine,
    SelectAll,
    ToggleSearch,
    OpenGotoLine,
    FormatFile,
    FormatSelection,
    TogglePreferences,
    ToggleSidebar,
    /// Switch to the dark theme (`true`) or the light one.
    SetDarkMode(bool),
    /// Show (`true`) or hide the line numbers.
    SetLineNumbers(bool),
    OpenLanguagePicker,
    About,
    OpenShortcuts,
    CheckForUpdate,
    Cut,
    Copy,
    Paste,
    Delete,
}

/// The text of a menu entry, to be put in the user's language.
#[derive(Debug, Clone, Copy, PartialEq, Eq, Structural)]
pub enum MenuLabel {
    FileNew,
    FileOpen,
    FileRecents,
    FileSave,
    FileSaveAs,
    FileClose,
    FileQuit,
    EditUndo,
    EditRedo,
    EditDuplicateLine,
    EditMoveLineUp,
    EditMoveLineDown,
    EditToggleComment,
    EditDeleteLine,
    EditSelectAll,
    EditFind,
    EditGotoLine,
    EditFormat,
    EditPreferences,
    ViewSidebar,
    ViewLightTheme,
    ViewDarkTheme,
    ViewHideLineNumbers,
    ViewShowLineNumbers,
    ViewLanguage,
    HelpAbout,
    HelpShortcuts,
    HelpCheckUpdates,
    ContextSelectAll,
    ContextCut,
    ContextCopy,
    ContextPaste,
    ContextDelete,
    ContextFormatSelection,
    ContextFormatAll,
}

/// One row of a menu.
#[derive(Debug, Clone)]
pub enum MenuEntry {
    /// A clickable entry, with the binding of its shortcut when it has one.
    Item { label: MenuLabel, shortcut: Option<String>, action: MenuAction },
    /// A recent file, shown by `name` (its file name, else the whole path),
    /// that opens the path.
    Recent { path: String, name: String },
    /// A greyed-out entry.
    Disabled { label: MenuLabel },
    Separator,
}

/// A menu row as a value of the specification.
pub enum EntryModel {
    Item(MenuLabel, Option<Seq<char>>, MenuAction),
    Recent(Seq<char>, Seq<char>),
    Disabled(MenuLabel),
    Separator,
}

pub open spec fn entry_model(e: MenuEntry) -> EntryModel {
    match e {
        MenuEntry::Item { label, shortcut, action } => EntryModel::Item(
            label,
            match shortcut {
                Some(s) => Some(s@),
                None => None,
            },
            action,
        ),
        MenuEntry::Recent { path, name } => EntryModel::Recent(path@, name@),
        MenuEntry::Disabled { label } => EntryModel::Disabled(label),
        MenuEntry::Separator => EntryModel::Separator,
    }
}

pub open spec fn entries_model(v: Seq<MenuEntry>) -> Seq<EntryModel> {
    Seq::new(v.len(), |i: int| entry_model(v[i]))
}

/// An entry showing the binding of `target` as its shortcut hint.
pub open spec fn bound(label: MenuLabel, sh: Shortcuts, target: ShortcutTarget, action: MenuAction) -> EntryModel {
    EntryModel::Item(label, Some(display_spec(sh.binding_spec(target))), action)
}

pub open spec fn plain(label: MenuLabel, action: MenuAction) -> EntryModel {
    EntryModel::Item(label, None, action)
}

/// The recent files block of the File menu: nothing without recent files,
/// else a separator, a greyed-out heading, one entry per file and a
/// separator. A recent file's entry shows its `path_label`.
pub open spec fn recents_block(recent: Seq<Seq<char>>) -> Seq<EntryModel> {
    if recent.len() == 0 {
        Seq::empty()
    } else {
        seq![EntryModel::Separator, EntryModel::Disabled(MenuLabel::FileRecents)] + Seq::new(
            recent.len(),
            |i: int| EntryModel::Recent(recent[i], path_label(recent[i])),
        ) + seq![EntryModel::Separator]
    }
}

/// The rows of a drop-down menu. Formatting is enabled only when the
/// language has a formatter, and the language entry only when the language
/// picker is; the theme and line-number entries offer the opposite of the
/// current setting.
pub open spec fn menu_model(menu: TopMenu, s: Settings, has_formatter: bool, picker_enabled: bool) -> Seq<EntryModel> {
    let sh = s.shortcuts;
    match menu {
        TopMenu::File => seq![
            bound(MenuLabel::FileNew, sh, ShortcutTarget::NewFile, MenuAction::NewFile),
            bound(MenuLabel::FileOpen, sh, ShortcutTarget::OpenFile, MenuAction::OpenFile),
        ] + recents_block(recent_views(s.recent_files@)) + seq![
            bound(MenuLabel::FileSave, sh, ShortcutTarget::SaveFile, MenuAction::SaveFile),
            bound(MenuLabel::FileSaveAs, sh, ShortcutTarget::SaveAs, MenuAction::SaveFileAs),
            bound(MenuLabel::FileClose, sh, ShortcutTarget::CloseFile, MenuAction::CloseFile),
            bound(MenuLabel::FileQuit, sh, ShortcutTarget::Quit, MenuAction::Quit),
        ],
        TopMenu::Edit => seq![
            bound(MenuLabel::EditUndo, sh, ShortcutTarget::Undo, MenuAction::Undo),
            bound(MenuLabel::EditRedo, sh, ShortcutTarget::Redo, MenuAction::Redo),
            EntryModel::Separator,
            bound(MenuLabel::EditDuplicateLine, sh, ShortcutTarget::DuplicateLine, MenuAction::DuplicateLine),
            bound(MenuLabel::EditMoveLineUp, sh, ShortcutTarget::MoveLineUp, MenuAction::MoveLineUp),
            bound(MenuLabel::EditMoveLineDown, sh, ShortcutTarget::MoveLineDown, MenuAction::MoveLineDown),
            bound(MenuLabel::EditToggleComment, sh, ShortcutTarget::ToggleComment, MenuAction::ToggleComment),
            bound(MenuLabel::EditDeleteLine, sh, ShortcutTarget::DeleteLine, MenuAction::DeleteLine),
            EntryModel::Separator,
            bound(MenuLabel::EditSelectAll, sh, ShortcutTarget::SelectAll, MenuAction::SelectAll),
            bound(MenuLabel::EditFind, sh, ShortcutTarget::Find, MenuAction::ToggleSearch),
            bound(MenuLabel::EditGotoLine, sh, ShortcutTarget::GotoLine, MenuAction::OpenGotoLine),
            if has_formatter {
                bound(MenuLabel::EditFormat, sh, ShortcutTarget::FormatCode, MenuAction::FormatFile)
            } else {
                EntryModel::Disabled(MenuLabel::EditFormat)
            },
            plain(MenuLabel::EditPreferences, MenuAction::TogglePreferences),
        ],
        TopMenu::View => seq![
            bound(MenuLabel::ViewSidebar, sh, ShortcutTarget::ToggleSidebar, MenuAction::ToggleSidebar),
            plain(
                if s.dark_mode {
                    MenuLabel::ViewLightTheme
                } else {
                    MenuLabel::ViewDarkTheme
                },
                MenuAction::SetDarkMode(!s.dark_mode),
            ),
            plain(
                if s.show_line_numbers {
                    MenuLabel::ViewHideLineNumbers
                } else {
                    MenuLabel::ViewShowLineNumbers
                },
                MenuAction::SetLineNumbers(!s.show_line_numbers),
            ),
            if picker_enabled {
                plain(MenuLabel::ViewLanguage, MenuAction::OpenLanguagePicker)
            } else {
                EntryModel::Disabled(MenuLabel::ViewLanguage)
            },
        ],
        TopMenu::Help => seq![
            plain(MenuLabel::HelpAbout, MenuAction::About),
            plain(MenuLabel::HelpShortcuts, MenuAction::OpenShortcuts),
            plain(MenuLabel::HelpCheckUpdates, MenuAction::CheckForUpdate),
        ],
    }
}

fn bound_item(label: MenuLabel, sh: &Shortcuts, target: ShortcutTarget, action: MenuAction) -> (r: MenuEntry)
    ensures
        entry_model(r) == bound(label, *sh, target, action),
{
    MenuEntry::Item { label, shortcut: Some(sh.binding(target).display()), action }
}

fn plain_item(label: MenuLabel, action: MenuAction) -> (r: MenuEntry)
    ensures
        entry_model(r) == plain(label, action),
{
    MenuEntry::Item { label, shortcut: None, action }
}

/// Appends `e` to `v`, keeping track of the model.
fn push_entry(v: &mut Vec<MenuEntry>, e: MenuEntry)
    ensures
        entries_model(final(v)@) == entries_model(old(v)@).push(entry_model(e)),
{
    let ghost m = entry_model(e);
    v.push(e);
    assert(entries_model(v@) =~= entries_model(old(v)@).push(m));
}

/// The rows of a drop-down menu (see `menu_model`).
pub fn menu_items(menu: TopMenu, settings: &Settings, has_formatter: bool, picker_enabled: bool) -> (r: Vec<
    MenuEntry,
>)
    ensures
        entries_model(r@) == menu_model(menu, *settings, has_formatter, picker_enabled),
{
    let sh = &settings.shortcuts;
    let mut v: Vec<MenuEntry> = Vec::new();
    match menu {
        TopMenu::File => {
            push_entry(&mut v, bound_item(MenuLabel::FileNew, sh, ShortcutTarget::NewFile, MenuAction::NewFile));
            push_entry(&mut v, bound_item(MenuLabel::FileOpen, sh, ShortcutTarget::OpenFile, MenuAction::OpenFile));
            let ghost head = entries_model(v@);
            let ghost recent = recent_views(settings.recent_files@);
            if settings.recent_files.len() > 0 {
                push_entry(&mut v, MenuEntry::Separator);
                push_entry(&mut v, MenuEntry::Disabled { label: MenuLabel::FileRecents });
                let ghost start = entries_model(v@);
                let mut i: usize = 0;
                while i < settings.recent_files.len()
                    invariant
                        i <= settings.recent_files.len(),
                        recent == recent_views(settings.recent_files@),
                        entries_model(v@) == start + Seq::new(
                            i as nat,
                            |k: int| EntryModel::Recent(recent[k], path_label(recent[k])),
                        ),
                    decreases settings.recent_files.len() - i,
                {
                    let path = settings.recent_files[i].clone();
                    let name = label_of(path.as_str());
                    let ghost before = entries_model(v@);
                    push_entry(&mut v, MenuEntry::Recent { path, name });
                    assert(entries_model(v@) =~= start + Seq::new(
                        (i + 1) as nat,
                        |k: int| EntryModel::Recent(recent[k], path_label(recent[k])),
                    ));
                    i = i + 1;
                }
                push_entry(&mut v, MenuEntry::Separator);
                assert(entries_model(v@) =~= head + recents_block(recent));
            } else {
                assert(entries_model(v@) =~= head + recents_block(recent));
            }
            let ghost mid = entries_model(v@);
            push_entry(&mut v, bound_item(MenuLabel::FileSave, sh, ShortcutTarget::SaveFile, MenuAction::SaveFile));
            push_entry(&mut v, bound_item(MenuLabel::FileSaveAs, sh, ShortcutTarget::SaveAs, MenuAction::SaveFileAs));
            push_entry(&mut v, bound_item(MenuLabel::FileClose, sh, ShortcutTarget::CloseFile, MenuAction::CloseFile));
            push_entry(&mut v, bound_item(MenuLabel::FileQuit, sh, ShortcutTarget::Quit, MenuAction::Quit));
            assert(entries_model(v@) =~= menu_model(menu, *settings, has_formatter, picker_enabled));
        },
        TopMenu::Edit => {
            push_entry(&mut v, bound_item(MenuLabel::EditUndo, sh, ShortcutTarget::Undo, MenuAction::Undo));
            push_entry(&mut v, bound_item(MenuLabel::EditRedo, sh, ShortcutTarget::Redo, MenuAction::Redo));
            push_entry(&mut v, MenuEntry::Separator);
            push_entry(&mut v, bound_item(MenuLabel::EditDuplicateLine, sh, ShortcutTarget::DuplicateLine, MenuAction::DuplicateLine));
            push_entry(&mut v, bound_item(MenuLabel::EditMoveLineUp, sh, ShortcutTarget::MoveLineUp, MenuAction::MoveLineUp));
            push_entry(&mut v, bound_item(MenuLabel::EditMoveLineDown, sh, ShortcutTarget::MoveLineDown, MenuAction::MoveLineDown));
            push_entry(&mut v, bound_item(MenuLabel::EditToggleComment, sh, ShortcutTarget::ToggleComment, MenuAction::ToggleComment));
            push_entry(&mut v, bound_item(MenuLabel::EditDeleteLine, sh, ShortcutTarget::DeleteLine, MenuAction::DeleteLine));
            push_entry(&mut v, MenuEntry::Separator);
            push_entry(&mut v, bound_item(MenuLabel::EditSelectAll, sh, ShortcutTarget::SelectAll, MenuAction::SelectAll));
            push_entry(&mut v, bound_item(MenuLabel::EditFind, sh, ShortcutTarget::Find, MenuAction::ToggleSearch));
            push_entry(&mut v, bound_item(MenuLabel::EditGotoLine, sh, ShortcutTarget::GotoLine, MenuAction::OpenGotoLine));
            if has_formatter {
                push_entry(&mut v, bound_item(MenuLabel::EditFormat, sh, ShortcutTarget::FormatCode, MenuAction::FormatFile));
            } else {
                push_entry(&mut v, MenuEntry::Disabled { label: MenuLabel::EditFormat });
            }
            push_entry(&mut v, plain_item(MenuLabel::EditPreferences, MenuAction::TogglePreferences));
            assert(entries_model(v@) =~= menu_model(menu, *settings, has_formatter, picker_enabled));
        },
        TopMenu::View => {
            push_entry(&mut v, bound_item(MenuLabel::ViewSidebar, sh, ShortcutTarget::ToggleSidebar, MenuAction::ToggleSidebar));
            let theme_label = if settings.dark_mode {
                MenuLabel::ViewLightTheme
            } else {
                MenuLabel::ViewDarkTheme
            };
            push_entry(&mut v, plain_item(theme_label, MenuAction::SetDarkMode(!settings.dark_mode)));
            let numbers_label = if settings.show_line_numbers {
                MenuLabel::ViewHideLineNumbers
            } else {
                MenuLabel::ViewShowLineNumbers
            };
            push_entry(&mut v, plain_item(numbers_label, MenuAction::SetLineNumbers(!settings.show_line_numbers)));
            if picker_enabled {
                push_entry(&mut v, plain_item(MenuLabel::ViewLanguage, MenuAction::OpenLanguagePicker));
            } else {
                push_entry(&mut v, MenuEntry::Disabled { label: MenuLabel::ViewLanguage });
            }
            assert(entries_model(v@) =~= menu_model(menu, *settings, has_formatter, picker_enabled));
        },
        TopMenu::Help => {
            push_entry(&mut v, plain_item(MenuLabel::HelpAbout, MenuAction::About));
            push_entry(&mut v, plain_item(MenuLabel::HelpShortcuts, MenuAction::OpenShortcuts));
            push_entry(&mut v, plain_item(MenuLabel::HelpCheckUpdates, MenuAction::CheckForUpdate));
            assert(entries_model(v@) =~= menu_model(menu, *settings, has_formatter, picker_enabled));
        },
    }
    v
}


/// The editor's context menu. Formatting the selection needs a formatter for
/// the language and a selection; formatting everything needs a formatter.
pub open spec fn context_model(has_formatter: bool, has_selection: bool) -> Seq<EntryModel> {
    seq![
        plain(MenuLabel::ContextSelectAll, MenuAction::SelectAll),
        plain(MenuLabel::ContextCut, MenuAction::Cut),
        plain(MenuLabel::ContextCopy, MenuAction::Copy),
        plain(MenuLabel::ContextPaste, MenuAction::Paste),
        plain(MenuLabel::ContextDelete, MenuAction::Delete),
        if has_formatter && has_selection {
            plain(MenuLabel::ContextFormatSelection, MenuAction::FormatSelection)
        } else {
            EntryModel::Disabled(MenuLabel::ContextFormatSelection)
        },
        if has_formatter {
            plain(MenuLabel::ContextFormatAll, MenuAction::FormatFile)
        } else {
            EntryModel::Disabled(MenuLabel::ContextFormatAll)
        },
    ]
}

/// The rows of the editor's context menu (see `context_model`).
pub fn context_menu_items(has_formatter: bool, has_selection: bool) -> (r: Vec<MenuEntry>)
    ensures
        entries_model(r@) == context_model(has_formatter, has_selection),
{
    let mut v: Vec<MenuEntry> = Vec::new();
    push_entry(&mut v, plain_item(MenuLabel::ContextSelectAll, MenuAction::SelectAll));
    push_entry(&mut v, plain_item(MenuLabel::ContextCut, MenuAction::Cut));
    push_entry(&mut v, plain_item(MenuLabel::ContextCopy, MenuAction::Copy));
    push_entry(&mut v, plain_item(MenuLabel::ContextPaste, MenuAction::Paste));
    push_entry(&mut v, plain_item(MenuLabel::ContextDelete, MenuAction::Delete));
    if has_formatter && has_selection {
        push_entry(&mut v, plain_item(MenuLabel::ContextFormatSelection, MenuAction::FormatSelection));
    } else {
        push_entry(&mut v, MenuEntry::Disabled { label: MenuLabel::ContextFormatSelection });
    }
    if has_formatter {
        push_entry(&mut v, plain_item(MenuLabel::ContextFormatAll, MenuAction::FormatFile));
    } else {
        push_entry(&mut v, MenuEntry::Disabled { label: MenuLabel::ContextFormatAll });
    }
    assert(entries_model(v@) =~= context_model(has_formatter, has_selection));
    v
}

/// The order of the actions in the shortcuts panel.
pub open spec fn panel_order() -> Seq<ShortcutTarget> {
    seq![
        ShortcutTarget::Undo,
        ShortcutTarget::Redo,
        ShortcutTarget::DuplicateLine,
        ShortcutTarget::MoveLineUp,
        ShortcutTarget::MoveLineDown,
        ShortcutTarget::ToggleComment,
        ShortcutTarget::DeleteLine,
        ShortcutTarget::NewFile,
        ShortcutTarget::OpenFile,
        ShortcutTarget::SaveFile,
        ShortcutTarget::SaveAs,
        ShortcutTarget::CloseFile,
        ShortcutTarget::Find,
        ShortcutTarget::SelectAll,
        ShortcutTarget::FormatCode,
        ShortcutTarget::GotoLine,
        ShortcutTarget::ToggleSidebar,
        ShortcutTarget::Quit,
    ]
}

fn panel_order_exec() -> (r: Vec<ShortcutTarget>)
    ensures
        r@ == panel_order(),
{
    let v = vec![
        ShortcutTarget::Undo,
        ShortcutTarget::Redo,
        ShortcutTarget::DuplicateLine,
        ShortcutTarget::MoveLineUp,
        ShortcutTarget::MoveLineDown,
        ShortcutTarget::ToggleComment,
        ShortcutTarget::DeleteLine,
        ShortcutTarget::NewFile,
        ShortcutTarget::OpenFile,
        ShortcutTarget::SaveFile,
        ShortcutTarget::SaveAs,
        ShortcutTarget::CloseFile,
        ShortcutTarget::Find,
        ShortcutTarget::SelectAll,
        ShortcutTarget::FormatCode,
        ShortcutTarget::GotoLine,
        ShortcutTarget::ToggleSidebar,
        ShortcutTarget::Quit,
    ];
    assert(v@ =~= panel_order());
    v
}

/// One row of the shortcuts panel: the action and its binding as shown, or
/// `None` while the row waits for the new keys.
#[derive(Debug, Clone)]
pub struct ShortcutRow {
    pub target: ShortcutTarget,
    pub key: Option<String>,
}

/// The rows of the shortcuts panel, in `panel_order`.
pub fn shortcut_rows(shortcuts: &Shortcuts, capturing: Option<ShortcutTarget>) -> (r: Vec<ShortcutRow>)
    ensures
        r@.len() == panel_order().len(),
        forall|i: int|
            0 <= i < r@.len() ==> {
                &&& (#[trigger] r@[i]).target == panel_order()[i]
                &&& if capturing == Some(panel_order()[i]) {
                    r@[i].key is None
                } else {
                    r@[i].key matches Some(k) && k@ == display_spec(
                        shortcuts.binding_spec(panel_order()[i]),
                    )
                }
            },
{
    let order = panel_order_exec();
    let mut rows: Vec<ShortcutRow> = Vec::new();
    let mut i: usize = 0;
    while i < order.len()
        invariant
            i <= order.len(),
            order@ == panel_order(),
            rows@.len() == i,
            forall|k: int|
                0 <= k < i ==> {
                    &&& (#[trigger] rows@[k]).target == panel_order()[k]
                    &&& if capturing == Some(panel_order()[k]) {
                        rows@[k].key is None
                    } else {
                        rows@[k].key matches Some(s) && s@ == display_spec(
                            shortcuts.binding_spec(panel_order()[k]),
                        )
                    }
                },
        decreases order.len() - i,
    {
        let t = order[i];
        let is_capturing = match capturing {
            Some(c) => c == t,
            None => false,
        };
        let key = if is_capturing {
            None
        } else {
            Some(shortcuts.binding(t).display())
        };
        rows.push(ShortcutRow { target: t, key });
        i = i + 1;
    }
    rows
}

/// One row of the language picker: the token it sets (empty for automatic
/// detection), the language's name (none for the automatic row), and
/// whether it is the current choice.
#[derive(Debug, Clone)]
pub struct LanguageRow {
    pub token: &'static str,
    pub name: Option<&'static str>,
    pub checked: bool,
}

/// The current language token; empty when there is none.
pub open spec fn current_token(current: Option<&str>) -> Seq<char> {
    match current {
        Some(c) => c@,
        None => Seq::<char>::empty(),
    }
}

/// The rows of the language picker: automatic detection first, then every
/// supported language in order; the row of the current token is checked
/// (the automatic row when there is none).
pub fn language_rows(current: Option<&str>) -> (r: Vec<LanguageRow>)
    ensures
        r@.len() == supported_language_list().len() + 1,
        r@[0].token@ == Seq::<char>::empty(),
        r@[0].name is None,
        r@[0].checked == (current_token(current).len() == 0),
        forall|i: int|
            1 <= i < r@.len() ==> {
                &&& (#[trigger] r@[i]).token@ == supported_language_list()[i - 1].0
                &&& r@[i].name matches Some(n) && n@ == supported_language_list()[i - 1].1
                &&& r@[i].checked == (current_token(current) == supported_language_list()[i - 1].0)
            },
{
    let cur: &str = match current {
        Some(c) => c,
        None => "",
    };
    proof {
        reveal_strlit("");
    }
    let langs = supported_languages();
    let mut rows: Vec<LanguageRow> = Vec::new();
    rows.push(LanguageRow { token: "", name: None, checked: cur.is_empty() });
    let mut i: usize = 0;
    while i < langs.len()
        invariant
            i <= langs.len(),
            langs@.len() == supported_language_list().len(),
            forall|k: int|
                0 <= k < langs@.len() ==> (#[trigger] langs@[k]).0@ == supported_language_list()[k].0
                    && langs@[k].1@ == supported_language_list()[k].1,
            rows@.len() == i + 1,
            rows@[0].token@ == Seq::<char>::empty(),
            rows@[0].name is None,
            rows@[0].checked == (current_token(current).len() == 0),
            cur@ == current_token(current),
            forall|k: int|
                1 <= k < rows@.len() ==> {
                    &&& (#[trigger] rows@[k]).token@ == supported_language_list()[k - 1].0
                    &&& rows@[k].name matches Some(n) && n@ == supported_language_list()[k - 1].1
                    &&& rows@[k].checked == (current_token(current) == supported_language_list()[k - 1].0)
                },
        decreases langs.len() - i,
    {
        let (token, name) = langs[i];
        let checked = str_eq(cur, token);
        rows.push(LanguageRow { token, name: Some(name), checked });
        i = i + 1;
    }
    rows
}

} // verus!
