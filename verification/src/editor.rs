//! Languages the editor recognizes: file extensions, language tokens and
//! their display names.

use vstd::prelude::*;

use crate::config::{is_untitled, is_untitled_spec};
use crate::session::opt_str;
use crate::text::str_eq;

verus! {

/// All (token, display name) pairs recognized by the syntax highlighter.
pub open spec fn supported_language_list() -> Seq<(Seq<char>, Seq<char>)> {
    seq![        ("rs"@, "Rust"@),
        ("py"@, "Python"@),
        ("js"@, "JavaScript"@),
        ("ts"@, "TypeScript"@),
        ("jsx"@, "JSX"@),
        ("tsx"@, "TSX"@),
        ("html"@, "HTML"@),
        ("css"@, "CSS"@),
        ("json"@, "JSON"@),
        ("toml"@, "TOML"@),
        ("yaml"@, "YAML"@),
        ("md"@, "Markdown"@),
        ("sh"@, "Shell"@),
        ("c"@, "C"@),
        ("cpp"@, "C++"@),
        ("java"@, "Java"@),
        ("go"@, "Go"@),
        ("rb"@, "Ruby"@),
        ("php"@, "PHP"@),
        ("swift"@, "Swift"@),
        ("kt"@, "Kotlin"@),
        ("xml"@, "XML"@),
        ("sql"@, "SQL"@),
        ("lua"@, "Lua"@),
        ("r"@, "R"@),
    ]
}

/// All (token, display name) pairs recognized by the syntax highlighter.
pub fn supported_languages() -> (r: Vec<(&'static str, &'static str)>)
    ensures
        r@.len() == supported_language_list().len(),
        forall|i: int|
            0 <= i < r@.len() ==> (#[trigger] r@[i]).0@ == supported_language_list()[i].0
                && r@[i].1@ == supported_language_list()[i].1,
{
    let v = vec![        ("rs", "Rust"),
        ("py", "Python"),
        ("js", "JavaScript"),
        ("ts", "TypeScript"),
        ("jsx", "JSX"),
        ("tsx", "TSX"),
        ("html", "HTML"),
        ("css", "CSS"),
        ("json", "JSON"),
        ("toml", "TOML"),
        ("yaml", "YAML"),
        ("md", "Markdown"),
        ("sh", "Shell"),
        ("c", "C"),
        ("cpp", "C++"),
        ("java", "Java"),
        ("go", "Go"),
        ("rb", "Ruby"),
        ("php", "PHP"),
        ("swift", "Swift"),
        ("kt", "Kotlin"),
        ("xml", "XML"),
        ("sql", "SQL"),
        ("lua", "Lua"),
        ("r", "R"),
    ];
    assert(v@.len() == supported_language_list().len());
    v
}

/// The highlighter token for a file extension.
pub open spec fn extension_token_spec(ext: Seq<char>) -> Option<Seq<char>> {
    if ext == "rs"@ {
        Some("rs"@)
    } else if ext == "py"@ {
        Some("py"@)
    } else if ext == "js"@ || ext == "jsx"@ {
        Some("js"@)
    } else if ext == "ts"@ || ext == "tsx"@ {
        Some("ts"@)
    } else if ext == "html"@ || ext == "htm"@ {
        Some("html"@)
    } else if ext == "css"@ {
        Some("css"@)
    } else if ext == "json"@ {
        Some("json"@)
    } else if ext == "toml"@ {
        Some("toml"@)
    } else if ext == "yaml"@ || ext == "yml"@ {
        Some("yaml"@)
    } else if ext == "md"@ {
        Some("md"@)
    } else if ext == "sh"@ || ext == "bash"@ {
        Some("sh"@)
    } else if ext == "c"@ || ext == "h"@ {
        Some("c"@)
    } else if ext == "cpp"@ || ext == "cc"@ || ext == "cxx"@ || ext == "hpp"@ {
        Some("cpp"@)
    } else if ext == "java"@ {
        Some("java"@)
    } else if ext == "go"@ {
        Some("go"@)
    } else if ext == "rb"@ {
        Some("rb"@)
    } else if ext == "php"@ {
        Some("php"@)
    } else if ext == "swift"@ {
        Some("swift"@)
    } else if ext == "kt"@ {
        Some("kt"@)
    } else if ext == "xml"@ {
        Some("xml"@)
    } else if ext == "sql"@ {
        Some("sql"@)
    } else if ext == "lua"@ {
        Some("lua"@)
    } else if ext == "r"@ {
        Some("r"@)
    } else {
        None
    }
}

/// The highlighter token for a file extension, `None` for an unknown one.
pub fn extension_to_token(ext: &str) -> (r: Option<&'static str>)
    ensures
        match r {
            Some(t) => extension_token_spec(ext@) == Some(t@),
            None => extension_token_spec(ext@) is None,
        },
{
    if str_eq(ext, "rs") {
        Some("rs")
    } else if str_eq(ext, "py") {
        Some("py")
    } else if str_eq(ext, "js") || str_eq(ext, "jsx") {
        Some("js")
    } else if str_eq(ext, "ts") || str_eq(ext, "tsx") {
        Some("ts")
    } else if str_eq(ext, "html") || str_eq(ext, "htm") {
        Some("html")
    } else if str_eq(ext, "css") {
        Some("css")
    } else if str_eq(ext, "json") {
        Some("json")
    } else if str_eq(ext, "toml") {
        Some("toml")
    } else if str_eq(ext, "yaml") || str_eq(ext, "yml") {
        Some("yaml")
    } else if str_eq(ext, "md") {
        Some("md")
    } else if str_eq(ext, "sh") || str_eq(ext, "bash") {
        Some("sh")
    } else if str_eq(ext, "c") || str_eq(ext, "h") {
        Some("c")
    } else if str_eq(ext, "cpp") || str_eq(ext, "cc") || str_eq(ext, "cxx") || str_eq(ext, "hpp") {
        Some("cpp")
    } else if str_eq(ext, "java") {
        Some("java")
    } else if str_eq(ext, "go") {
        Some("go")
    } else if str_eq(ext, "rb") {
        Some("rb")
    } else if str_eq(ext, "php") {
        Some("php")
    } else if str_eq(ext, "swift") {
        Some("swift")
    } else if str_eq(ext, "kt") {
        Some("kt")
    } else if str_eq(ext, "xml") {
        Some("xml")
    } else if str_eq(ext, "sql") {
        Some("sql")
    } else if str_eq(ext, "lua") {
        Some("lua")
    } else if str_eq(ext, "r") {
        Some("r")
    } else {
        None
    }
}

pub open spec fn is_supported_token(token: Seq<char>) -> bool {
    exists|i: int|
        0 <= i < supported_language_list().len() && (#[trigger] supported_language_list()[i]).0
            == token
}

/// Every token that extension detection picks is one the language picker
/// offers.
pub proof fn law_detected_token_is_supported(ext: Seq<char>)
    ensures
        extension_token_spec(ext) matches Some(t) ==> is_supported_token(t),
{
    let l = supported_language_list();
    if ext == "rs"@ {
        assert(l[0].0 == "rs"@);
    } else if ext == "py"@ {
        assert(l[1].0 == "py"@);
    } else if ext == "js"@ || ext == "jsx"@ {
        assert(l[2].0 == "js"@);
    } else if ext == "ts"@ || ext == "tsx"@ {
        assert(l[3].0 == "ts"@);
    } else if ext == "html"@ || ext == "htm"@ {
        assert(l[6].0 == "html"@);
    } else if ext == "css"@ {
        assert(l[7].0 == "css"@);
    } else if ext == "json"@ {
        assert(l[8].0 == "json"@);
    } else if ext == "toml"@ {
        assert(l[9].0 == "toml"@);
    } else if ext == "yaml"@ || ext == "yml"@ {
        assert(l[10].0 == "yaml"@);
    } else if ext == "md"@ {
        assert(l[11].0 == "md"@);
    } else if ext == "sh"@ || ext == "bash"@ {
        assert(l[12].0 == "sh"@);
    } else if ext == "c"@ || ext == "h"@ {
        assert(l[13].0 == "c"@);
    } else if ext == "cpp"@ || ext == "cc"@ || ext == "cxx"@ || ext == "hpp"@ {
        assert(l[14].0 == "cpp"@);
    } else if ext == "java"@ {
        assert(l[15].0 == "java"@);
    } else if ext == "go"@ {
        assert(l[16].0 == "go"@);
    } else if ext == "rb"@ {
        assert(l[17].0 == "rb"@);
    } else if ext == "php"@ {
        assert(l[18].0 == "php"@);
    } else if ext == "swift"@ {
        assert(l[19].0 == "swift"@);
    } else if ext == "kt"@ {
        assert(l[20].0 == "kt"@);
    } else if ext == "xml"@ {
        assert(l[21].0 == "xml"@);
    } else if ext == "sql"@ {
        assert(l[22].0 == "sql"@);
    } else if ext == "lua"@ {
        assert(l[23].0 == "lua"@);
    } else if ext == "r"@ {
        assert(l[24].0 == "r"@);
    }
}

/// The display name of a token, if it is supported.
pub open spec fn language_name_spec(token: Seq<char>) -> Option<Seq<char>> {
    first_name_from(supported_language_list(), token, 0)
}

pub open spec fn first_name_from(l: Seq<(Seq<char>, Seq<char>)>, token: Seq<char>, i: int) -> Option<Seq<char>>
    decreases l.len() - i,
{
    if i < 0 || i >= l.len() {
        None
    } else if l[i].0 == token {
        Some(l[i].1)
    } else {
        first_name_from(l, token, i + 1)
    }
}

/// The display name of a language token (the first supported pair with that
/// token), or `None`.
pub fn language_name(token: &str) -> (r: Option<&'static str>)
    ensures
        match r {
            Some(n) => language_name_spec(token@) == Some(n@),
            None => language_name_spec(token@) is None,
        },
{
    let list = supported_languages();
    let mut i: usize = 0;
    while i < list.len()
        invariant
            i <= list.len(),
            list@.len() == supported_language_list().len(),
            forall|k: int|
                0 <= k < list@.len() ==> (#[trigger] list@[k]).0@ == supported_language_list()[k].0
                    && list@[k].1@ == supported_language_list()[k].1,
            first_name_from(supported_language_list(), token@, 0) == first_name_from(
                supported_language_list(),
                token@,
                i as int,
            ),
        decreases list.len() - i,
    {
        let (t, n) = list[i];
        if str_eq(t, token) {
            return Some(n);
        }
        i = i + 1;
    }
    None
}

/// Whether the language may be chosen by hand: when no file is open, for an
/// unsaved buffer, and for a file whose extension is not a supported token.
pub open spec fn language_picker_enabled_spec(file: Option<Seq<char>>, extension: Seq<char>) -> bool {
    match file {
        None => true,
        Some(p) => is_untitled_spec(p) || !is_supported_token(extension),
    }
}

/// Whether the language picker is enabled for the current file (`file`,
/// with `extension` its file-name extension, empty when it has none).
pub fn language_picker_enabled(file: Option<&str>, extension: &str) -> (r: bool)
    ensures
        r == language_picker_enabled_spec(
            match file {
                Some(p) => Some(p@),
                None => None,
            },
            extension@,
        ),
{
    match file {
        None => true,
        Some(p) => {
            if is_untitled(p) {
                return true;
            }
            let list = supported_languages();
            let mut i: usize = 0;
            while i < list.len()
                invariant
                    i <= list.len(),
                    list@.len() == supported_language_list().len(),
                    forall|k: int|
                        0 <= k < list@.len() ==> (#[trigger] list@[k]).0@
                            == supported_language_list()[k].0,
                    forall|k: int| 0 <= k < i ==> (#[trigger] supported_language_list()[k]).0 != extension@,
                    !is_untitled_spec(p@),
                    file == Some(p),
                decreases list.len() - i,
            {
                let (t, _n) = list[i];
                if str_eq(t, extension) {
                    assert(supported_language_list()[i as int].0 == extension@);
                    return false;
                }
                i = i + 1;
            }
            true
        },
    }
}


/// The language token detected for a file extension, as an owned string.
pub fn language_for_extension(ext: &str) -> (r: Option<String>)
    ensures
        opt_str(r) == extension_token_spec(ext@),
{
    match extension_to_token(ext) {
        Some(t) => Some(String::from_str(t)),
        None => None,
    }
}

/// The text of the shown buffer and its language token.
#[derive(Debug, Clone)]
pub struct EditorState {
    pub text: String,
    pub language: Option<String>,
}

impl EditorState {
    /// An empty buffer without a language.
    pub fn new() -> (r: Self)
        ensures
            r.text@ == Seq::<char>::empty(),
            r.language is None,
    {
        EditorState { text: String::new(), language: None }
    }

    /// A buffer holding `text`, without a language.
    pub fn from_content(text: &str) -> (r: Self)
        ensures
            r.text@ == text@,
            r.language is None,
    {
        EditorState { text: crate::text::string_of(crate::text::chars_of(text).as_slice()), language: None }
    }

    /// Sets the language to the token detected for `ext`, or none when the
    /// extension is not recognised; the text stays.
    pub fn set_language_by_extension(&mut self, ext: &str)
        ensures
            final(self).text == old(self).text,
            opt_str(final(self).language) == extension_token_spec(ext@),
    {
        self.language = language_for_extension(ext);
    }
}

} // verus!
