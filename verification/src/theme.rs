//! Which palette colour each custom widget style uses in each state. The
//! colours themselves ("ink" dark and "paper" light palettes) are applied by
//! the user interface.

use vstd::prelude::*;

verus! {

/// A colour of the active palette.
#[derive(Debug, Clone, Copy, PartialEq, Eq, Structural)]
pub enum Tone {
    /// Fully transparent.
    Transparent,
    /// Window background.
    Background,
    /// Hovered-row tint.
    Hover,
    /// Primary text.
    Text,
    /// Secondary text.
    Muted,
    /// The violet-ink accent.
    Accent,
    /// The accent as a soft wash behind text.
    AccentSoft,
    /// The accent as the selection highlight of the editor.
    Selection,
}

/// Ghost button of menu bars, toolbars and menus: transparent, a soft accent
/// wash when active (open), a surface tint on hover.
#[derive(Debug, Clone, Copy)]
pub struct GhostButton {
    pub dark: bool,
    pub active: bool,
}

/// Sidebar file row: the selected row gets a soft accent wash.
#[derive(Debug, Clone, Copy)]
pub struct SidebarRow {
    pub dark: bool,
    pub selected: bool,
}

/// Small text action in the inline file row: muted when disabled, a soft
/// accent wash on hover when enabled.
#[derive(Debug, Clone, Copy)]
pub struct TextAction {
    pub dark: bool,
    pub enabled: bool,
}

/// Borderless editor surface.
#[derive(Debug, Clone, Copy)]
pub struct EditorStyle {
    pub dark: bool,
}

/// Background of a button that is highlighted (active or selected) or not,
/// hovered (or pressed) or not.
pub open spec fn wash_background(highlighted: bool, hovered: bool) -> Tone {
    if highlighted {
        Tone::AccentSoft
    } else if hovered {
        Tone::Hover
    } else {
        Tone::Transparent
    }
}

impl GhostButton {
    pub fn background(&self, hovered: bool) -> (r: Tone)
        ensures
            r == wash_background(self.active, hovered),
    {
        if self.active {
            Tone::AccentSoft
        } else if hovered {
            Tone::Hover
        } else {
            Tone::Transparent
        }
    }

    pub fn text_tone(&self) -> (r: Tone)
        ensures
            r == if self.active {
                Tone::Accent
            } else {
                Tone::Text
            },
    {
        if self.active {
            Tone::Accent
        } else {
            Tone::Text
        }
    }
}

impl SidebarRow {
    pub fn background(&self, hovered: bool) -> (r: Tone)
        ensures
            r == wash_background(self.selected, hovered),
    {
        if self.selected {
            Tone::AccentSoft
        } else if hovered {
            Tone::Hover
        } else {
            Tone::Transparent
        }
    }

    pub fn text_tone(&self) -> (r: Tone)
        ensures
            r == if self.selected {
                Tone::Accent
            } else {
                Tone::Text
            },
    {
        if self.selected {
            Tone::Accent
        } else {
            Tone::Text
        }
    }
}

impl TextAction {
    pub fn background(&self, hovered: bool) -> (r: Tone)
        ensures
            r == if hovered && self.enabled {
                Tone::AccentSoft
            } else {
                Tone::Transparent
            },
    {
        if hovered && self.enabled {
            Tone::AccentSoft
        } else {
            Tone::Transparent
        }
    }

    pub fn text_tone(&self) -> (r: Tone)
        ensures
            r == if self.enabled {
                Tone::Text
            } else {
                Tone::Muted
            },
    {
        if self.enabled {
            Tone::Text
        } else {
            Tone::Muted
        }
    }
}

impl EditorStyle {
    /// The editor looks the same whether idle, focused, hovered or disabled.
    pub fn background(&self) -> (r: Tone)
        ensures
            r == Tone::Background,
    {
        Tone::Background
    }

    pub fn placeholder_tone(&self) -> (r: Tone)
        ensures
            r == Tone::Muted,
    {
        Tone::Muted
    }

    pub fn value_tone(&self) -> (r: Tone)
        ensures
            r == Tone::Text,
    {
        Tone::Text
    }

    pub fn selection_tone(&self) -> (r: Tone)
        ensures
            r == Tone::Selection,
    {
        Tone::Selection
    }

    pub fn disabled_tone(&self) -> (r: Tone)
        ensures
            r == Tone::Muted,
    {
        Tone::Muted
    }
}

} // verus!
