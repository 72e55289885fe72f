//! The list of open files shown in the sidebar.

use vstd::prelude::*;

verus! {

/// Messages sent by the sidebar's rows and context menus.
#[derive(Debug, Clone)]
pub enum SidebarMessage {
    OpenFile(String),
    RemoveFile(usize),
    RequestSave(String),
    RequestSaveAs,
}

/// What the application should do in response to a sidebar interaction.
pub enum SidebarAction {
    NoAction,
    OpenFile(String),
    CloseFile(String),
    SaveFile(String),
    SaveFileAs,
}

/// How one sidebar entry is shown: its path, whether it is selected, and
/// whether it is the shown file (only then can it be saved from its context
/// menu).
#[derive(Debug, Clone)]
pub struct FileRow {
    pub path: String,
    pub selected: bool,
    pub active: bool,
}

pub struct SidebarState {
    pub files: Vec<String>,
    pub selected: Option<usize>,
}

pub open spec fn file_views(v: Seq<String>) -> Seq<Seq<char>> {
    Seq::new(v.len(), |i: int| v[i]@)
}

/// Index of the first entry equal to `p`.
pub open spec fn is_first_index(fs: Seq<Seq<char>>, p: Seq<char>, r: Option<usize>) -> bool {
    match r {
        Some(i) => i < fs.len() && fs[i as int] == p && forall|j: int|
            0 <= j < i ==> fs[j] != p,
        None => !fs.contains(p),
    }
}

pub open spec fn no_duplicates(fs: Seq<Seq<char>>) -> bool {
    forall|i: int, j: int| 0 <= i < j < fs.len() ==> fs[i] != fs[j]
}

impl SidebarState {
    pub open spec fn files_view(&self) -> Seq<Seq<char>> {
        file_views(self.files@)
    }

    /// Every file appears once, and the selection, if any, is an entry.
    pub open spec fn wf(&self) -> bool {
        &&& no_duplicates(self.files_view())
        &&& self.selected matches Some(i) ==> i < self.files.len()
    }

    /// An empty list with nothing selected.
    pub fn new() -> (r: Self)
        ensures
            r.files.len() == 0,
            r.selected is None,
            r.wf(),
    {
        SidebarState { files: Vec::new(), selected: None }
    }

    fn position(&self, path: &String) -> (r: Option<usize>)
        ensures
            is_first_index(self.files_view(), path@, r),
    {
        let mut i: usize = 0;
        while i < self.files.len()
            invariant
                i <= self.files.len(),
                forall|j: int| 0 <= j < i ==> self.files_view()[j] != path@,
            decreases self.files.len() - i,
        {
            if self.files[i] == *path {
                return Some(i);
            }
            i = i + 1;
        }
        proof {
            if self.files_view().contains(path@) {
                let k = choose|k: int| 0 <= k < self.files_view().len() && self.files_view()[k] == path@;
                assert(self.files_view()[k] != path@);
            }
        }
        None
    }


    /// Replaces the first entry equal to `old_path` with `new_path`; a path
    /// that is not listed leaves the list unchanged.
    pub fn rename_file(&mut self, old_path: &String, new_path: String)
        ensures
            final(self).selected == old(self).selected,
            final(self).files.len() == old(self).files.len(),
            old(self).position_spec(old_path@) matches Some(k) ==> k < old(self).files.len(),
            old(self).wf() && !old(self).files_view().contains(new_path@) ==> final(self).wf(),
            match old(self).position_spec(old_path@) {
                Some(k) => final(self).files_view() == old(self).files_view().update(
                    k as int,
                    new_path@,
                ),
                None => final(self).files == old(self).files,
            },
    {
        let found = self.position(old_path);
        match found {
            Some(k) => {
                let ghost before = self.files@;
                let ghost nv = new_path@;
                self.files.set(k, new_path);
                assert(self.files_view() =~= file_views(before).update(k as int, nv));
                proof {
                    let fs = file_views(before);
                    if no_duplicates(fs) && !fs.contains(nv) {
                        assert forall|i: int, j: int|
                            0 <= i < j < self.files.len() implies self.files_view()[i]
                            != self.files_view()[j] by {
                            if i != k && j != k {
                                assert(self.files_view()[i] == fs[i]);
                                assert(self.files_view()[j] == fs[j]);
                            } else if i == k {
                                assert(self.files_view()[j] == fs[j]);
                            } else {
                                assert(self.files_view()[i] == fs[i]);
                            }
                        }
                    }
                }
            },
            None => {},
        }
    }

    /// The index of the first entry equal to `p`.
    pub open spec fn position_spec(&self, p: Seq<char>) -> Option<usize> {
        if self.files_view().contains(p) {
            Some(
                choose|i: usize|
                    i < self.files.len() && self.files_view()[i as int] == p && forall|j: int|
                        0 <= j < i ==> self.files_view()[j] != p,
            )
        } else {
            None
        }
    }

    /// Appends `path` unless it is already listed, then selects the last
    /// entry.
    pub fn add_file(&mut self, path: String)
        ensures
            old(self).files_view().contains(path@) ==> final(self).files_view() == old(
                self,
            ).files_view(),
            !old(self).files_view().contains(path@) ==> final(self).files_view() == old(
                self,
            ).files_view().push(path@),
            final(self).selected == Some((final(self).files.len() - 1) as usize),
            final(self).files_view().contains(path@),
            old(self).wf() ==> final(self).wf(),
    {
        let found = self.position(&path);
        let ghost before = self.files@;
        if found.is_none() {
            let ghost pv = path@;
            self.files.push(path);
            assert(self.files_view() =~= file_views(before).push(pv));
            assert(self.files_view()[self.files.len() - 1] == pv);
        } else {
            let k = found.unwrap();
            assert(self.files_view()[k as int] == path@);
        }
        self.selected = Some(self.files.len() - 1);
    }

    /// Handles a sidebar message. Opening selects the file's entry (if
    /// listed) and asks to open it. Removing an entry by index deletes it and
    /// clears the selection, and asks to close the file only when it was the
    /// selected one; an index past the end changes nothing. Save requests are
    /// passed on.
    pub fn update(&mut self, msg: SidebarMessage) -> (act: SidebarAction)
        ensures
            match msg {
                SidebarMessage::OpenFile(p) => {
                    &&& final(self).files == old(self).files
                    &&& is_first_index(old(self).files_view(), p@, final(self).selected)
                    &&& act == SidebarAction::OpenFile(p)
                },
                SidebarMessage::RemoveFile(idx) => if idx < old(self).files.len() {
                    &&& final(self).files@ == old(self).files@.remove(idx as int)
                    &&& final(self).selected is None
                    &&& if old(self).selected == Some(idx) {
                        act == SidebarAction::CloseFile(old(self).files@[idx as int])
                    } else {
                        act is NoAction
                    }
                } else {
                    &&& final(self).files == old(self).files
                    &&& final(self).selected == old(self).selected
                    &&& act is NoAction
                },
                SidebarMessage::RequestSave(p) => {
                    &&& final(self).files == old(self).files
                    &&& final(self).selected == old(self).selected
                    &&& act == SidebarAction::SaveFile(p)
                },
                SidebarMessage::RequestSaveAs => {
                    &&& final(self).files == old(self).files
                    &&& final(self).selected == old(self).selected
                    &&& act is SaveFileAs
                },
            },
            old(self).wf() ==> final(self).wf(),
    {
        match msg {
            SidebarMessage::OpenFile(path) => {
                self.selected = self.position(&path);
                SidebarAction::OpenFile(path)
            },
            SidebarMessage::RemoveFile(idx) => {
                if idx < self.files.len() {
                    let ghost before = self.files@;
                    let path = self.files.remove(idx);
                    proof {
                        assert(file_views(self.files@) =~= file_views(before).remove(idx as int));
                        if old(self).wf() {
                            assert forall|i: int, j: int|
                                0 <= i < j < self.files.len() implies self.files_view()[i]
                                != self.files_view()[j] by {
                                let ii = if i < idx { i } else { i + 1 };
                                let jj = if j < idx { j } else { j + 1 };
                                assert(self.files_view()[i] == file_views(before)[ii]);
                                assert(self.files_view()[j] == file_views(before)[jj]);
                            }
                        }
                    }
                    let was_selected = match self.selected {
                        Some(s) => s == idx,
                        None => false,
                    };
                    self.selected = None;
                    if was_selected {
                        return SidebarAction::CloseFile(path);
                    }
                }
                SidebarAction::NoAction
            },
            SidebarMessage::RequestSave(path) => SidebarAction::SaveFile(path),
            SidebarMessage::RequestSaveAs => SidebarAction::SaveFileAs,
        }
    }

    /// The rows of the list, one per entry in order.
    pub fn rows(&self, current: Option<&str>) -> (r: Vec<FileRow>)
        ensures
            r@.len() == self.files@.len(),
            forall|i: int|
                0 <= i < r@.len() ==> {
                    &&& (#[trigger] r@[i]).path@ == self.files_view()[i]
                    &&& r@[i].selected == (self.selected == Some(i as usize))
                    &&& r@[i].active == match current {
                        Some(c) => c@ == self.files_view()[i],
                        None => false,
                    }
                },
    {
        let mut out: Vec<FileRow> = Vec::new();
        let mut i: usize = 0;
        while i < self.files.len()
            invariant
                i <= self.files.len(),
                out@.len() == i,
                forall|k: int|
                    0 <= k < i ==> {
                        &&& (#[trigger] out@[k]).path@ == self.files_view()[k]
                        &&& out@[k].selected == (self.selected == Some(k as usize))
                        &&& out@[k].active == match current {
                            Some(c) => c@ == self.files_view()[k],
                            None => false,
                        }
                    },
            decreases self.files.len() - i,
        {
            let selected = match self.selected {
                Some(s) => s == i,
                None => false,
            };
            let active = match current {
                Some(c) => crate::text::str_eq(c, self.files[i].as_str()),
                None => false,
            };
            out.push(FileRow { path: self.files[i].clone(), selected, active });
            i = i + 1;
        }
        out
    }
}

} // verus!
