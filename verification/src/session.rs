//! The open-files session: buffers kept in memory while another file is
//! shown, and what is saved and restored between runs.

use vstd::prelude::*;

use crate::config::{is_untitled, is_untitled_spec};
use crate::text::{chars_of, string_of};

verus! {

/// A buffer that is open but not shown: its text, language token and
/// whether it has unsaved changes.
#[derive(Debug, Clone)]
pub struct CachedFile {
    pub content: String,
    pub language: Option<String>,
    pub dirty: bool,
}

pub open spec fn opt_str(o: Option<String>) -> Option<Seq<char>> {
    match o {
        Some(s) => Some(s@),
        None => None,
    }
}

pub open spec fn cached_view(c: CachedFile) -> (Seq<char>, Option<Seq<char>>, bool) {
    (c.content@, opt_str(c.language), c.dirty)
}

pub open spec fn entries_map(e: Seq<(String, CachedFile)>) -> Map<
    Seq<char>,
    (Seq<char>, Option<Seq<char>>, bool),
>
    decreases e.len(),
{
    if e.len() == 0 {
        Map::empty()
    } else {
        entries_map(e.drop_last()).insert(e.last().0@, cached_view(e.last().1))
    }
}

pub open spec fn unique_keys(e: Seq<(String, CachedFile)>) -> bool {
    forall|i: int, j: int| 0 <= i < j < e.len() ==> e[i].0@ != e[j].0@
}

proof fn lemma_unique_drop_last(e: Seq<(String, CachedFile)>)
    requires
        unique_keys(e),
        e.len() > 0,
    ensures
        unique_keys(e.drop_last()),
{
    assert forall|i: int, j: int| 0 <= i < j < e.drop_last().len() implies e.drop_last()[i].0@
        != e.drop_last()[j].0@ by {
        assert(e.drop_last()[i] == e[i] && e.drop_last()[j] == e[j]);
    }
}

proof fn lemma_entries_dom(e: Seq<(String, CachedFile)>, k: Seq<char>)
    ensures
        entries_map(e).dom().contains(k) <==> exists|i: int| 0 <= i < e.len() && e[i].0@ == k,
    decreases e.len(),
{
    if e.len() > 0 {
        lemma_entries_dom(e.drop_last(), k);
        if entries_map(e).dom().contains(k) && k != e.last().0@ {
            let i = choose|i: int| 0 <= i < e.drop_last().len() && e.drop_last()[i].0@ == k;
            assert(e[i].0@ == k);
        }
        if exists|i: int| 0 <= i < e.len() && e[i].0@ == k {
            let i = choose|i: int| 0 <= i < e.len() && e[i].0@ == k;
            if i < e.len() - 1 {
                assert(e.drop_last()[i].0@ == k);
            }
        }
    }
}

proof fn lemma_entries_get(e: Seq<(String, CachedFile)>, i: int)
    requires
        unique_keys(e),
        0 <= i < e.len(),
    ensures
        entries_map(e).dom().contains(e[i].0@),
        entries_map(e)[e[i].0@] == cached_view(e[i].1),
    decreases e.len(),
{
    if i < e.len() - 1 {
        lemma_unique_drop_last(e);
        lemma_entries_get(e.drop_last(), i);
        assert(e.drop_last()[i] == e[i]);
    }
}

proof fn lemma_entries_remove(e: Seq<(String, CachedFile)>, i: int)
    requires
        unique_keys(e),
        0 <= i < e.len(),
    ensures
        entries_map(e.remove(i)) == entries_map(e).remove(e[i].0@),
        unique_keys(e.remove(i)),
    decreases e.len(),
{
    let d = e.drop_last();
    lemma_unique_drop_last(e);
    assert(unique_keys(e.remove(i))) by {
        assert forall|a: int, b: int| 0 <= a < b < e.remove(i).len() implies e.remove(i)[a].0@
            != e.remove(i)[b].0@ by {
            let aa = if a < i { a } else { a + 1 };
            let bb = if b < i { b } else { b + 1 };
            assert(e.remove(i)[a] == e[aa] && e.remove(i)[b] == e[bb]);
        }
    }
    if i == e.len() - 1 {
        assert(e.remove(i) =~= d);
        assert(!entries_map(d).dom().contains(e[i].0@)) by {
            lemma_entries_dom(d, e[i].0@);
            if exists|j: int| 0 <= j < d.len() && d[j].0@ == e[i].0@ {
                let j = choose|j: int| 0 <= j < d.len() && d[j].0@ == e[i].0@;
                assert(d[j] == e[j]);
            }
        }
        assert(entries_map(e).remove(e[i].0@) =~= entries_map(d));
    } else {
        lemma_entries_remove(d, i);
        assert(d[i] == e[i]);
        assert(e.remove(i) =~= d.remove(i).push(e.last()));
        assert(e.remove(i).drop_last() =~= d.remove(i));
        assert(e[i].0@ != e.last().0@);
        assert(entries_map(e.remove(i)) =~= entries_map(e).remove(e[i].0@));
    }
}

proof fn lemma_entries_update(e: Seq<(String, CachedFile)>, i: int, v: CachedFile)
    requires
        unique_keys(e),
        0 <= i < e.len(),
    ensures
        entries_map(e.update(i, (e[i].0, v))) == entries_map(e).insert(e[i].0@, cached_view(v)),
        unique_keys(e.update(i, (e[i].0, v))),
    decreases e.len(),
{
    let u = e.update(i, (e[i].0, v));
    let d = e.drop_last();
    lemma_unique_drop_last(e);
    assert(unique_keys(u)) by {
        assert forall|a: int, b: int| 0 <= a < b < u.len() implies u[a].0@ != u[b].0@ by {
            assert(u[a].0 == e[a].0 && u[b].0 == e[b].0);
        }
    }
    if i == e.len() - 1 {
        assert(u.drop_last() =~= d);
        assert(entries_map(u) =~= entries_map(e).insert(e[i].0@, cached_view(v)));
    } else {
        lemma_entries_update(d, i, v);
        assert(d[i] == e[i]);
        assert(u.drop_last() =~= d.update(i, (d[i].0, v)));
        assert(e[i].0@ != e.last().0@);
        assert(entries_map(u) =~= entries_map(e).insert(e[i].0@, cached_view(v)));
    }
}

/// Open buffers that are not shown, by path; each path at most once.
pub struct FileCache {
    entries: Vec<(String, CachedFile)>,
}

impl View for FileCache {
    type V = Map<Seq<char>, (Seq<char>, Option<Seq<char>>, bool)>;

    closed spec fn view(&self) -> Self::V {
        entries_map(self.entries@)
    }
}

impl FileCache {
    #[verifier::type_invariant]
    spec fn keys_unique(&self) -> bool {
        unique_keys(self.entries@)
    }

    /// No buffers.
    pub fn new() -> (r: Self)
        ensures
            r@ == Map::<Seq<char>, (Seq<char>, Option<Seq<char>>, bool)>::empty(),
    {
        FileCache { entries: Vec::new() }
    }

    fn find(&self, path: &str) -> (r: Option<usize>)
        ensures
            match r {
                Some(i) => i < self.entries@.len() && self.entries@[i as int].0@ == path@,
                None => forall|i: int| 0 <= i < self.entries@.len() ==> self.entries@[i].0@ != path@,
            },
    {
        let mut i: usize = 0;
        while i < self.entries.len()
            invariant
                i <= self.entries@.len(),
                forall|k: int| 0 <= k < i ==> self.entries@[k].0@ != path@,
            decreases self.entries@.len() - i,
        {
            if crate::text::str_eq(self.entries[i].0.as_str(), path) {
                return Some(i);
            }
            i = i + 1;
        }
        None
    }

    /// Whether a buffer is kept for `path`.
    pub fn contains(&self, path: &str) -> (r: bool)
        ensures
            r == self@.dom().contains(path@),
    {
        proof {
            use_type_invariant(self);
            lemma_entries_dom(self.entries@, path@);
        }
        self.find(path).is_some()
    }

    /// The buffer kept for `path`.
    pub fn get(&self, path: &str) -> (r: Option<&CachedFile>)
        ensures
            match r {
                Some(c) => self@.dom().contains(path@) && self@[path@] == cached_view(*c),
                None => !self@.dom().contains(path@),
            },
    {
        proof {
            use_type_invariant(self);
            lemma_entries_dom(self.entries@, path@);
        }
        match self.find(path) {
            Some(i) => {
                proof {
                    lemma_entries_get(self.entries@, i as int);
                }
                Some(&self.entries[i].1)
            },
            None => None,
        }
    }

    /// Keeps `file` as the buffer of `path`, replacing any earlier one.
    pub fn insert(&mut self, path: String, file: CachedFile)
        ensures
            final(self)@ == old(self)@.insert(path@, cached_view(file)),
    {
        proof {
            use_type_invariant(&*self);
        }
        let found = self.find(path.as_str());
        let ghost e = self.entries@;
        match found {
            Some(i) => {
                let key = self.entries[i].0.clone();
                proof {
                    lemma_entries_update(e, i as int, file);
                }
                let mut entries: Vec<(String, CachedFile)> = Vec::new();
                std::mem::swap(&mut entries, &mut self.entries);
                entries.set(i, (key, file));
                assert(entries@ =~= e.update(i as int, (e[i as int].0, file)));
                self.entries = entries;
            },
            None => {
                let ghost pv = path@;
                let mut entries: Vec<(String, CachedFile)> = Vec::new();
                std::mem::swap(&mut entries, &mut self.entries);
                entries.push((path, file));
                assert(entries@.drop_last() =~= e);
                assert(unique_keys(entries@)) by {
                    assert forall|a: int, b: int| 0 <= a < b < entries@.len() implies entries@[a].0@
                        != entries@[b].0@ by {
                        if b == entries@.len() - 1 {
                            assert(entries@[a] == e[a]);
                        } else {
                            assert(entries@[a] == e[a] && entries@[b] == e[b]);
                        }
                    }
                }
                self.entries = entries;
            },
        }
    }

    /// Removes and returns the buffer of `path`.
    pub fn remove(&mut self, path: &str) -> (r: Option<CachedFile>)
        ensures
            final(self)@ == old(self)@.remove(path@),
            match r {
                Some(c) => old(self)@.dom().contains(path@) && old(self)@[path@] == cached_view(c),
                None => !old(self)@.dom().contains(path@),
            },
    {
        proof {
            use_type_invariant(&*self);
            lemma_entries_dom(self.entries@, path@);
        }
        let ghost e = self.entries@;
        match self.find(path) {
            Some(i) => {
                proof {
                    lemma_entries_get(e, i as int);
                    lemma_entries_remove(e, i as int);
                }
                let mut entries: Vec<(String, CachedFile)> = Vec::new();
                std::mem::swap(&mut entries, &mut self.entries);
                let (_k, c) = entries.remove(i);
                self.entries = entries;
                Some(c)
            },
            None => {
                assert(old(self)@.remove(path@) =~= old(self)@);
                None
            },
        }
    }
}

/// Reading a buffer back right after keeping it gives exactly what was kept.
pub proof fn law_cache_get_after_insert(
    m: Map<Seq<char>, (Seq<char>, Option<Seq<char>>, bool)>,
    path: Seq<char>,
    v: (Seq<char>, Option<Seq<char>>, bool),
)
    ensures
        m.insert(path, v).dom().contains(path),
        m.insert(path, v)[path] == v,
{
}

/// Keeping a buffer and removing it again leaves no buffer for that path and
/// every other path untouched.
pub proof fn law_cache_remove_after_insert(
    m: Map<Seq<char>, (Seq<char>, Option<Seq<char>>, bool)>,
    path: Seq<char>,
    v: (Seq<char>, Option<Seq<char>>, bool),
)
    ensures
        !m.insert(path, v).remove(path).dom().contains(path),
        m.insert(path, v).remove(path) == m.remove(path),
{
    assert(m.insert(path, v).remove(path) =~= m.remove(path));
}

// ─── Saved session ─────────────────────────────────────────────────────────

/// One open file as saved between runs. The text is kept for unsaved
/// buffers and for files with unsaved changes only.
#[derive(Debug, Clone)]
pub struct FileSession {
    pub path: String,
    pub content: Option<String>,
    pub language: Option<String>,
    pub dirty: bool,
}

/// The open files, the one shown, and the counter for naming new buffers.
#[derive(Debug, Clone)]
pub struct Session {
    pub files: Vec<FileSession>,
    pub active_file: Option<String>,
    pub untitled_counter: u32,
}

impl Default for Session {
    fn default() -> (r: Self)
        ensures
            r.files.len() == 0,
            r.active_file is None,
            r.untitled_counter == 0,
    {
        Session { files: Vec::new(), active_file: None, untitled_counter: 0 }
    }
}

/// Whether the text of a file goes into the saved session.
pub open spec fn keeps_content(path: Seq<char>, dirty: bool) -> bool {
    is_untitled_spec(path) || dirty
}

/// The saved entry of one open file.
pub fn file_session(path: &str, content: String, language: Option<String>, dirty: bool) -> (r:
    FileSession)
    ensures
        r.path@ == path@,
        keeps_content(path@, dirty) ==> (r.content matches Some(c) && c@ == content@),
        !keeps_content(path@, dirty) ==> r.content is None,
        r.language == language,
        r.dirty == dirty,
{
    let keep = is_untitled(path) || dirty;
    FileSession {
        path: string_of(chars_of(path).as_slice()),
        content: if keep {
            Some(content)
        } else {
            None
        },
        language,
        dirty,
    }
}

/// The text, language and unsaved-changes flag saved for an open file: the
/// shown buffer's own, else the kept buffer's, else nothing.
pub open spec fn entry_source(
    path: Seq<char>,
    current: Option<Seq<char>>,
    current_state: (Seq<char>, Option<Seq<char>>, bool),
    cache: Map<Seq<char>, (Seq<char>, Option<Seq<char>>, bool)>,
) -> (Seq<char>, Option<Seq<char>>, bool) {
    if current == Some(path) {
        current_state
    } else if cache.dom().contains(path) {
        cache[path]
    } else {
        (Seq::<char>::empty(), None, false)
    }
}

/// The entry saved for `path`.
pub open spec fn session_entry_ok(
    e: FileSession,
    path: Seq<char>,
    source: (Seq<char>, Option<Seq<char>>, bool),
) -> bool {
    &&& e.path@ == path
    &&& e.content matches Some(c) ==> (keeps_content(path, source.2) && c@ == source.0)
    &&& e.content is None ==> !keeps_content(path, source.2)
    &&& opt_str(e.language) == source.1
    &&& e.dirty == source.2
}

/// The session to save: one entry per open file in sidebar order, the shown
/// file as active, and the buffer counter.
pub fn build_session(
    files: &Vec<String>,
    current: Option<&str>,
    current_text: &str,
    current_language: &Option<String>,
    current_dirty: bool,
    cache: &FileCache,
    untitled_counter: u32,
) -> (r: Session)
    ensures
        r.files.len() == files.len(),
        forall|i: int|
            0 <= i < files.len() ==> session_entry_ok(
                #[trigger] r.files@[i],
                files@[i]@,
                entry_source(
                    files@[i]@,
                    match current {
                        Some(c) => Some(c@),
                        None => None,
                    },
                    (current_text@, opt_str(*current_language), current_dirty),
                    cache@,
                ),
            ),
        opt_str(r.active_file) == match current {
            Some(c) => Some(c@),
            None => None,
        },
        r.untitled_counter == untitled_counter,
{
    let ghost cur = match current {
        Some(c) => Some(c@),
        None => None,
    };
    let ghost cs = (current_text@, opt_str(*current_language), current_dirty);
    let mut out: Vec<FileSession> = Vec::new();
    let mut i: usize = 0;
    while i < files.len()
        invariant
            i <= files.len(),
            out.len() == i,
            cur == match current {
                Some(c) => Some(c@),
                None => None,
            },
            cs == (current_text@, opt_str(*current_language), current_dirty),
            forall|k: int|
                0 <= k < i ==> session_entry_ok(
                    #[trigger] out@[k],
                    files@[k]@,
                    entry_source(files@[k]@, cur, cs, cache@),
                ),
        decreases files.len() - i,
    {
        let path = files[i].as_str();
        let is_current = match current {
            Some(c) => crate::text::str_eq(c, path),
            None => false,
        };
        let entry = if is_current {
            file_session(
                path,
                string_of(chars_of(current_text).as_slice()),
                current_language.clone(),
                current_dirty,
            )
        } else {
            match cache.get(path) {
                Some(c) => file_session(path, c.content.clone(), c.language.clone(), c.dirty),
                None => file_session(path, String::new(), None, false),
            }
        };
        out.push(entry);
        i = i + 1;
    }
    let active = match current {
        Some(c) => Some(string_of(chars_of(c).as_slice())),
        None => None,
    };
    Session { files: out, active_file: active, untitled_counter }
}

/// Where a restored file's text comes from.
#[derive(Debug, Clone, PartialEq, Eq)]
pub enum RestoreSource {
    /// The text saved in the session.
    Saved(String),
    /// The file on disk (read by the caller; unreadable files restore empty).
    Disk,
    /// Nothing: an unsaved buffer without saved text restores empty.
    Empty,
}

/// The source of a saved file's text on restore.
pub fn restore_source(entry: &FileSession) -> (r: RestoreSource)
    ensures
        match entry.content {
            Some(c) => r matches RestoreSource::Saved(s) && s@ == c@,
            None => if is_untitled_spec(entry.path@) {
                r is Empty
            } else {
                r is Disk
            },
        },
{
    match &entry.content {
        Some(c) => RestoreSource::Saved(c.clone()),
        None => if is_untitled(entry.path.as_str()) {
            RestoreSource::Empty
        } else {
            RestoreSource::Disk
        },
    }
}

impl Session {
    /// The counter for naming new buffers after a restore (at least 1).
    pub fn restored_counter(&self) -> (r: u32)
        ensures
            r == if self.untitled_counter < 1 {
                1
            } else {
                self.untitled_counter
            },
    {
        if self.untitled_counter < 1 {
            1
        } else {
            self.untitled_counter
        }
    }

    /// The file to show after a restore: the saved active file, else the
    /// first saved file.
    pub fn active_path(&self) -> (r: Option<String>)
        ensures
            opt_str(r) == match self.active_file {
                Some(a) => Some(a@),
                None => if self.files.len() > 0 {
                    Some(self.files@[0].path@)
                } else {
                    None
                },
            },
    {
        match &self.active_file {
            Some(a) => Some(a.clone()),
            None => if self.files.len() > 0 {
                Some(self.files[0].path.clone())
            } else {
                None
            },
        }
    }
}

} // verus!
