# Tincta

A small text editor. The crate has two parts:

- `src/`, the library, verified with Verus: line editing (duplicate, move,
  comment, indent, dedent), search and replace, the sidebar's file list,
  keyboard shortcuts and their capture, undo/redo history, the buffer cache and
  saved session, the menus and overlays, the window state machine
  (`workspace`), formatter commands and messages, release checks, and the
  status-bar texts. Every public function states what it returns or changes;
  the `law_*` proof functions state properties that relate several calls.
- `app/`, the program around it: the iced window, file dialogs and file I/O,
  the formatter processes, network access for updates, and the settings and
  session files.

`tests/` exercises the library on concrete values.
