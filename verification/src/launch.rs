//! Start-up choices: the interface language and the file named on the
//! command line.

use vstd::prelude::*;

use crate::session::opt_str;
use crate::text::{chars_of, seq_starts_with, starts_with_at, string_of};

verus! {

/// The interface language for the value of `LANG`: French when it starts
/// with "fr", English otherwise.
pub open spec fn locale_for_spec(lang: Seq<char>) -> Seq<char> {
    if seq_starts_with(lang, "fr"@) {
        "fr"@
    } else {
        "en"@
    }
}

pub fn locale_for(lang: &str) -> (r: &'static str)
    ensures
        r@ == locale_for_spec(lang@),
{
    let l = chars_of(lang);
    let fr = chars_of("fr");
    let is_fr = starts_with_at(&l, 0, &fr);
    assert(l@.skip(0) =~= l@);
    if is_fr {
        "fr"
    } else {
        "en"
    }
}

/// The file to open named by the first command-line argument; an argument
/// starting with '-' is an option, not a file.
pub fn file_argument(first: Option<&str>) -> (r: Option<String>)
    ensures
        opt_str(r) == match first {
            Some(a) => if a@.len() > 0 && a@[0] == '-' {
                None
            } else {
                Some(a@)
            },
            None => None,
        },
{
    match first {
        Some(a) => {
            let v = chars_of(a);
            if v.len() > 0 && v[0] == '-' {
                None
            } else {
                Some(string_of(v.as_slice()))
            }
        },
        None => None,
    }
}

} // verus!
