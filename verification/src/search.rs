//! The find / replace-all panel: counting and replacing occurrences of a
//! query, literally (case-sensitive or not) or as a regular expression.

use vstd::prelude::*;

use crate::matching::{
    ci_replace, ci_replace_spec, count_occurrences, count_occurrences_spec, replace_occurrences,
    replace_spec,
};
use crate::text::{byte_len, chars_of, str_byte_len, string_of};

verus! {

/// What `str::to_lowercase` returns for a string.
pub uninterp spec fn lowercase(s: Seq<char>) -> Seq<char>;

/// Whether `regex::Regex::new` accepts a pattern.
pub uninterp spec fn regex_compiles(pattern: Seq<char>) -> bool;

/// The text of the error `regex::Regex::new` reports for a pattern.
pub uninterp spec fn regex_error_text(pattern: Seq<char>) -> Seq<char>;

/// Number of matches `regex::Regex::find_iter` yields in a text.
pub uninterp spec fn regex_match_count(pattern: Seq<char>, text: Seq<char>) -> nat;

/// What `regex::Regex::replace_all` returns for a text and a replacement.
pub uninterp spec fn regex_replace_all(
    pattern: Seq<char>,
    text: Seq<char>,
    replacement: Seq<char>,
) -> Seq<char>;

/// Wraps `str::to_lowercase`: the result is `lowercase` of the input.
#[verifier::external_body]
pub(crate) fn to_lowercase(s: &str) -> (r: String)
    ensures
        r@ == lowercase(s@),
{
    s.to_lowercase()
}

/// Wraps `regex::Regex::new`: succeeds exactly when the pattern compiles, and
/// on failure returns the error rendered with `Display`.
#[verifier::external_body]
fn regex_check(pattern: &str) -> (r: Result<(), String>)
    ensures
        (r is Ok) == regex_compiles(pattern@),
        r matches Err(e) ==> e@ == regex_error_text(pattern@),
{
    match regex::Regex::new(pattern) {
        Ok(_) => Ok(()),
        Err(e) => Err(e.to_string()),
    }
}

/// Wraps `regex::Regex::find_iter` (on the compiled pattern) followed by
/// `Iterator::count`: the result is `regex_match_count`.
#[verifier::external_body]
fn regex_count(pattern: &str, text: &str) -> (n: usize)
    requires
        regex_compiles(pattern@),
    ensures
        n == regex_match_count(pattern@, text@),
{
    regex::Regex::new(pattern).map(|re| re.find_iter(text).count()).unwrap_or(0)
}

/// Wraps `regex::Regex::replace_all` (on the compiled pattern): the result is
/// `regex_replace_all`.
#[verifier::external_body]
fn regex_replace(pattern: &str, text: &str, replacement: &str) -> (r: String)
    requires
        regex_compiles(pattern@),
    ensures
        r@ == regex_replace_all(pattern@, text@, replacement@),
{
    match regex::Regex::new(pattern) {
        Ok(re) => re.replace_all(text, replacement).into_owned(),
        Err(_) => text.to_string(),
    }
}

/// The pattern handed to the regex engine: the query, made case-insensitive
/// with an inline `(?i)` flag unless the search is case-sensitive.
pub open spec fn regex_pattern(query: Seq<char>, case_sensitive: bool) -> Seq<char> {
    if case_sensitive {
        query
    } else {
        "(?i)"@ + query
    }
}

pub open spec fn saturate(n: nat) -> nat {
    if n > usize::MAX {
        usize::MAX as nat
    } else {
        n
    }
}

/// Number of matches of the query in `text` (capped at `usize::MAX`).
pub open spec fn count_matches_spec(
    query: Seq<char>,
    use_regex: bool,
    case_sensitive: bool,
    text: Seq<char>,
) -> nat {
    if query.len() == 0 {
        0
    } else if use_regex {
        let p = regex_pattern(query, case_sensitive);
        if regex_compiles(p) {
            regex_match_count(p, text)
        } else {
            0
        }
    } else if case_sensitive {
        saturate(count_occurrences_spec(text, query))
    } else {
        saturate(count_occurrences_spec(lowercase(text), lowercase(query)))
    }
}

/// Whether replacing every match is defined for `text`. It is not when the
/// search is literal and case-insensitive and an occurrence found in the
/// lowercased text falls, at the same byte offsets, outside the given
/// text's character boundaries (lowercasing changed byte lengths): replacing
/// would then cut a character.
pub open spec fn replace_all_defined(
    query: Seq<char>,
    replacement: Seq<char>,
    use_regex: bool,
    case_sensitive: bool,
    text: Seq<char>,
) -> bool {
    query.len() == 0 || use_regex || case_sensitive || ci_replace_spec(
        text,
        lowercase(text),
        lowercase(query),
        byte_len(query) as int,
        replacement,
    ) is Some
}

/// Text after replacing every match of the query, or the error (where
/// `replace_all_defined` holds).
pub open spec fn replace_all_spec(
    query: Seq<char>,
    replacement: Seq<char>,
    use_regex: bool,
    case_sensitive: bool,
    text: Seq<char>,
) -> Result<Seq<char>, Seq<char>> {
    if query.len() == 0 {
        Ok(text)
    } else if use_regex {
        let p = regex_pattern(query, case_sensitive);
        if regex_compiles(p) {
            Ok(regex_replace_all(p, text, replacement))
        } else {
            Err(regex_error_text(p))
        }
    } else if case_sensitive {
        Ok(replace_spec(text, query, replacement))
    } else {
        match ci_replace_spec(
            text,
            lowercase(text),
            lowercase(query),
            byte_len(query) as int,
            replacement,
        ) {
            Some(s) => Ok(s),
            None => Ok(text),
        }
    }
}

/// Messages of the search panel.
#[derive(Debug, Clone)]
pub enum SearchMessage {
    QueryChanged(String),
    ReplaceChanged(String),
    Find,
    ReplaceNext,
    ReplaceAll,
    ToggleRegex,
    ToggleCaseSensitive,
    Close,
}

pub struct SearchState {
    pub query: String,
    pub replacement: String,
    pub use_regex: bool,
    pub case_sensitive: bool,
    pub match_count: usize,
    pub last_error: Option<String>,
}

pub struct SearchView {
    pub query: Seq<char>,
    pub replacement: Seq<char>,
    pub use_regex: bool,
    pub case_sensitive: bool,
    pub match_count: usize,
    pub last_error: Option<Seq<char>>,
}

pub open spec fn opt_view(o: Option<String>) -> Option<Seq<char>> {
    match o {
        Some(s) => Some(s@),
        None => None,
    }
}

impl View for SearchState {
    type V = SearchView;

    open spec fn view(&self) -> SearchView {
        SearchView {
            query: self.query@,
            replacement: self.replacement@,
            use_regex: self.use_regex,
            case_sensitive: self.case_sensitive,
            match_count: self.match_count,
            last_error: opt_view(self.last_error),
        }
    }
}

/// The panel state and document text after handling one message.
pub open spec fn search_step(s: SearchView, msg: SearchMessage, content: Seq<char>) -> (
    SearchView,
    Seq<char>,
) {
    match msg {
        SearchMessage::QueryChanged(q) => (SearchView { query: q@, last_error: None, ..s }, content),
        SearchMessage::ReplaceChanged(r) => (SearchView { replacement: r@, ..s }, content),
        SearchMessage::ToggleRegex => (SearchView { use_regex: !s.use_regex, ..s }, content),
        SearchMessage::ToggleCaseSensitive => (
            SearchView { case_sensitive: !s.case_sensitive, ..s },
            content,
        ),
        SearchMessage::ReplaceAll => match replace_all_spec(
            s.query,
            s.replacement,
            s.use_regex,
            s.case_sensitive,
            content,
        ) {
            Ok(t) => (s, t),
            Err(e) => (SearchView { last_error: Some(e), ..s }, content),
        },
        SearchMessage::Find => (
            SearchView {
                match_count: count_matches_spec(s.query, s.use_regex, s.case_sensitive, content)
                    as usize,
                ..s
            },
            content,
        ),
        _ => (s, content),
    }
}

impl SearchState {
    /// An empty, case-insensitive, literal search.
    pub fn new() -> (r: Self)
        ensures
            r@.query.len() == 0,
            r@.replacement.len() == 0,
            !r.use_regex,
            !r.case_sensitive,
            r.match_count == 0,
            r.last_error is None,
    {
        SearchState {
            query: String::new(),
            replacement: String::new(),
            use_regex: false,
            case_sensitive: false,
            match_count: 0,
            last_error: None,
        }
    }

    fn pattern(&self) -> (p: String)
        ensures
            p@ == regex_pattern(self.query@, self.case_sensitive),
    {
        if self.case_sensitive {
            self.query.clone()
        } else {
            let mut p = String::from_str("(?i)");
            p.append(self.query.as_str());
            p
        }
    }

    /// Number of matches of the query in `text`: none for an empty query;
    /// regex matches when the query is a regular expression (none when it
    /// does not compile); otherwise literal occurrences, compared after
    /// lowercasing both sides unless the search is case-sensitive.
    pub fn count_matches(&self, text: &str) -> (n: usize)
        ensures
            n == count_matches_spec(self.query@, self.use_regex, self.case_sensitive, text@),
    {
        if self.query.as_str().is_empty() {
            return 0;
        }
        if self.use_regex {
            let p = self.pattern();
            match regex_check(p.as_str()) {
                Ok(()) => regex_count(p.as_str(), text),
                Err(_) => 0,
            }
        } else if self.case_sensitive {
            let t = chars_of(text);
            let q = chars_of(self.query.as_str());
            count_occurrences(&t, &q)
        } else {
            let lt = to_lowercase(text);
            let lq = to_lowercase(self.query.as_str());
            let t = chars_of(lt.as_str());
            let q = chars_of(lq.as_str());
            count_occurrences(&t, &q)
        }
    }

    /// Whether `replace_all` is defined for `text` (see
    /// `replace_all_defined`).
    pub open spec fn replace_defined(&self, text: Seq<char>) -> bool {
        replace_all_defined(self.query@, self.replacement@, self.use_regex, self.case_sensitive, text)
    }

    /// `text` with every match of the query replaced: unchanged for an empty
    /// query; the regex engine's replacement (with `$` group references) or
    /// its compile error for a regular expression; literal replacement when
    /// case-sensitive; otherwise the occurrences found in the lowercased text
    /// are replaced at the same byte offsets of the unlowered text.
    pub fn replace_all(&self, text: &str) -> (r: Result<String, String>)
        requires
            self.replace_defined(text@),
        ensures
            (match r {
                Ok(s) => Ok(s@),
                Err(e) => Err(e@),
            }) == replace_all_spec(
                self.query@,
                self.replacement@,
                self.use_regex,
                self.case_sensitive,
                text@,
            ),
    {
        if self.query.as_str().is_empty() {
            return Ok(string_of(chars_of(text).as_slice()));
        }
        if self.use_regex {
            let p = self.pattern();
            match regex_check(p.as_str()) {
                Ok(()) => Ok(regex_replace(p.as_str(), text, self.replacement.as_str())),
                Err(e) => Err(e),
            }
        } else if self.case_sensitive {
            let t = chars_of(text);
            let q = chars_of(self.query.as_str());
            let rep = chars_of(self.replacement.as_str());
            Ok(string_of(replace_occurrences(&t, &q, &rep).as_slice()))
        } else {
            match self.ci_replace_text(text) {
                Some(v) => Ok(v),
                None => Ok(string_of(chars_of(text).as_slice())),
            }
        }
    }

    /// The case-insensitive literal replacement, `None` where it is not
    /// defined.
    fn ci_replace_text(&self, text: &str) -> (r: Option<String>)
        ensures
            match r {
                Some(v) => ci_replace_spec(
                    text@,
                    lowercase(text@),
                    lowercase(self.query@),
                    byte_len(self.query@) as int,
                    self.replacement@,
                ) == Some(v@),
                None => ci_replace_spec(
                    text@,
                    lowercase(text@),
                    lowercase(self.query@),
                    byte_len(self.query@) as int,
                    self.replacement@,
                ) is None,
            },
    {
        let lt = to_lowercase(text);
        let lq = to_lowercase(self.query.as_str());
        let t = chars_of(text);
        let l = chars_of(lt.as_str());
        let q = chars_of(lq.as_str());
        let rep = chars_of(self.replacement.as_str());
        let qb = str_byte_len(self.query.as_str());
        let tb = str_byte_len(text);
        let lb = str_byte_len(lt.as_str());
        match ci_replace(&t, &l, &q, qb, &rep, tb, lb) {
            Some(v) => Some(string_of(v.as_slice())),
            None => None,
        }
    }

    /// `replace_all` where it is defined; `None` where it is not (there,
    /// replacing would cut a character of `text`).
    pub fn try_replace_all(&self, text: &str) -> (r: Option<Result<String, String>>)
        ensures
            r is None <==> !self.replace_defined(text@),
            r matches Some(res) ==> (match res {
                Ok(s) => Ok(s@),
                Err(e) => Err(e@),
            }) == replace_all_spec(
                self.query@,
                self.replacement@,
                self.use_regex,
                self.case_sensitive,
                text@,
            ),
    {
        if !self.query.as_str().is_empty() && !self.use_regex && !self.case_sensitive {
            if self.ci_replace_text(text).is_none() {
                return None;
            }
        }
        Some(self.replace_all(text))
    }

    /// Whether `update` is defined for this message and document: a
    /// replace-all message needs `replace_defined`.
    pub open spec fn update_defined(&self, msg: SearchMessage, content: Seq<char>) -> bool {
        msg is ReplaceAll ==> self.replace_defined(content)
    }

    /// Handles one panel message against the document text `content`:
    /// editing the query clears the last error; `Find` stores the match
    /// count; `ReplaceAll` replaces the document text, or records the error;
    /// the toggles flip their option; other messages change nothing.
    pub fn update(&mut self, msg: SearchMessage, content: &mut String)
        requires
            old(self).update_defined(msg, old(content)@),
        ensures
            (final(self)@, final(content)@) == search_step(old(self)@, msg, old(content)@),
    {
        match msg {
            SearchMessage::QueryChanged(q) => {
                self.query = q;
                self.last_error = None;
            },
            SearchMessage::ReplaceChanged(r) => {
                self.replacement = r;
            },
            SearchMessage::ToggleRegex => {
                self.use_regex = !self.use_regex;
            },
            SearchMessage::ToggleCaseSensitive => {
                self.case_sensitive = !self.case_sensitive;
            },
            SearchMessage::ReplaceAll => {
                let result = self.replace_all(content.as_str());
                match result {
                    Ok(new_text) => {
                        *content = new_text;
                    },
                    Err(e) => {
                        self.last_error = Some(e);
                    },
                }
            },
            SearchMessage::Find => {
                let n = self.count_matches(content.as_str());
                self.match_count = n;
            },
            _ => {},
        }
    }

    /// `update` where it is defined; otherwise nothing changes and `false`
    /// is returned.
    pub fn try_update(&mut self, msg: SearchMessage, content: &mut String) -> (r: bool)
        ensures
            r == old(self).update_defined(msg, old(content)@),
            r ==> (final(self)@, final(content)@) == search_step(old(self)@, msg, old(content)@),
            !r ==> final(self)@ == old(self)@ && final(content)@ == old(content)@,
    {
        let defined = match msg {
            SearchMessage::ReplaceAll => {
                if !self.query.as_str().is_empty() && !self.use_regex && !self.case_sensitive {
                    self.ci_replace_text(content.as_str()).is_some()
                } else {
                    true
                }
            },
            _ => true,
        };
        if defined {
            self.update(msg, content);
        }
        defined
    }
}


/// What the search bar shows after its fields: the match count when there
/// are matches, else the last error, else nothing.
#[derive(Debug, Clone, PartialEq, Eq)]
pub enum SearchSummary {
    Matches(usize),
    Error(String),
    Nothing,
}

impl SearchState {
    pub fn summary(&self) -> (r: SearchSummary)
        ensures
            self.match_count > 0 ==> r == SearchSummary::Matches(self.match_count),
            self.match_count == 0 ==> match self.last_error {
                Some(e) => r matches SearchSummary::Error(t) && t@ == e@,
                None => r is Nothing,
            },
    {
        if self.match_count > 0 {
            SearchSummary::Matches(self.match_count)
        } else {
            match &self.last_error {
                Some(e) => SearchSummary::Error(e.clone()),
                None => SearchSummary::Nothing,
            }
        }
    }
}


/// A case-insensitive literal count depends on the query and the text only
/// through their lowercase forms: queries (and texts) that lowercase alike
/// find the same number of matches.
pub proof fn law_case_insensitive_count_ignores_case(
    q1: Seq<char>,
    q2: Seq<char>,
    t1: Seq<char>,
    t2: Seq<char>,
)
    requires
        q1.len() > 0,
        q2.len() > 0,
        lowercase(q1) == lowercase(q2),
        lowercase(t1) == lowercase(t2),
    ensures
        count_matches_spec(q1, false, false, t1) == count_matches_spec(q2, false, false, t2),
{
}

/// A case-insensitive literal search counts what a case-sensitive search
/// of the lowercased query finds in the lowercased text.
pub proof fn law_case_insensitive_is_lowercased_search(q: Seq<char>, t: Seq<char>)
    requires
        q.len() > 0,
        lowercase(q).len() > 0,
    ensures
        count_matches_spec(q, false, false, t) == count_matches_spec(
            lowercase(q),
            false,
            true,
            lowercase(t),
        ),
{
}

} // verus!
