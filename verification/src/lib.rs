//! Verified core of the Tincta text editor: line editing, search and replace,
//! sidebar bookkeeping, keyboard shortcuts, undo history and the small
//! decisions around them.

mod text;
pub mod lines;
pub mod line_edit;
pub mod matching;
pub mod search;
pub mod sidebar;
pub mod config;
pub mod history;
pub mod updater;
pub mod editor;
pub mod formatter;
pub mod status;
pub mod ui;
pub mod session;
pub mod theme;
pub mod workspace;
pub mod menu;
pub mod launch;
pub mod paths;
