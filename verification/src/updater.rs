//! Release versions: comparing `major.minor.patch` strings, deciding whether
//! a published release is an update, and where its package is downloaded.

use vstd::prelude::*;

use crate::lines::{split_on, split_on_exec, views};
use crate::text::{chars_of, extend_range, parse_unsigned, parse_unsigned_spec, string_of};

verus! {

/// What `str::parse::<u32>` accepts: an optional `+`, then one or more ASCII
/// digits whose value fits in a `u32`.
pub open spec fn parse_u32_spec(s: Seq<char>) -> Option<u32> {
    match parse_unsigned_spec(s, u32::MAX as nat) {
        Some(v) => Some(v as u32),
        None => None,
    }
}

/// One version component: the `k`-th dot-separated piece, parsed, with 0
/// for a missing or unparsable piece.
pub open spec fn component(s: Seq<char>, k: int) -> u32 {
    let pieces = split_on(s, '.');
    if k < pieces.len() {
        match parse_u32_spec(pieces[k]) {
            Some(v) => v,
            None => 0,
        }
    } else {
        0
    }
}

pub open spec fn version_triple(s: Seq<char>) -> (u32, u32, u32) {
    (component(s, 0), component(s, 1), component(s, 2))
}

/// Lexicographic order on triples.
pub open spec fn triple_gt(a: (u32, u32, u32), b: (u32, u32, u32)) -> bool {
    a.0 > b.0 || (a.0 == b.0 && (a.1 > b.1 || (a.1 == b.1 && a.2 > b.2)))
}

/// `latest` is a strictly newer `major.minor.patch` than `current`.
pub open spec fn is_newer_spec(latest: Seq<char>, current: Seq<char>) -> bool {
    triple_gt(version_triple(latest), version_triple(current))
}

fn parse_u32(s: &Vec<char>) -> (r: Option<u32>)
    ensures
        r == parse_u32_spec(s@),
{
    match parse_unsigned(s, u32::MAX as u64) {
        Some(v) => Some(v as u32),
        None => None,
    }
}

fn component_exec(pieces: &Vec<Vec<char>>, k: usize) -> (r: u32)
    ensures
        k < pieces.len() ==> r == match parse_u32_spec(pieces@[k as int]@) {
            Some(v) => v,
            None => 0u32,
        },
        k >= pieces.len() ==> r == 0,
{
    if k < pieces.len() {
        match parse_u32(&pieces[k]) {
            Some(v) => v,
            None => 0,
        }
    } else {
        0
    }
}

fn version_triple_exec(s: &str) -> (r: (u32, u32, u32))
    ensures
        r == version_triple(s@),
{
    let chars = chars_of(s);
    let pieces = split_on_exec(&chars, '.');
    let a = component_exec(&pieces, 0);
    let b = component_exec(&pieces, 1);
    let c = component_exec(&pieces, 2);
    proof {
        assert(views(pieces@).len() == pieces.len());
        if 0 < pieces.len() {
            assert(views(pieces@)[0] == pieces@[0]@);
        }
        if 1 < pieces.len() {
            assert(views(pieces@)[1] == pieces@[1]@);
        }
        if 2 < pieces.len() {
            assert(views(pieces@)[2] == pieces@[2]@);
        }
    }
    (a, b, c)
}

/// Whether `latest` is a strictly newer version than `current`, comparing
/// the first three dot-separated numbers in order (missing or unparsable
/// numbers count as 0).
pub fn is_newer(latest: &str, current: &str) -> (r: bool)
    ensures
        r == is_newer_spec(latest@, current@),
{
    let a = version_triple_exec(latest);
    let b = version_triple_exec(current);
    a.0 > b.0 || (a.0 == b.0 && (a.1 > b.1 || (a.1 == b.1 && a.2 > b.2)))
}

/// No version is newer than itself.
pub proof fn law_is_newer_irreflexive(v: Seq<char>)
    ensures
        !is_newer_spec(v, v),
{
}

/// Of two versions, at most one is newer than the other.
pub proof fn law_is_newer_asymmetric(a: Seq<char>, b: Seq<char>)
    ensures
        !(is_newer_spec(a, b) && is_newer_spec(b, a)),
{
}

/// Newer than a version that is newer than a third is newer than the third.
pub proof fn law_is_newer_transitive(a: Seq<char>, b: Seq<char>, c: Seq<char>)
    requires
        is_newer_spec(a, b),
        is_newer_spec(b, c),
    ensures
        is_newer_spec(a, c),
{
}

/// A release tag without its leading `v` characters.
pub open spec fn strip_v(tag: Seq<char>) -> Seq<char>
    decreases tag.len(),
{
    if tag.len() > 0 && tag[0] == 'v' {
        strip_v(tag.drop_first())
    } else {
        tag
    }
}

proof fn lemma_strip_v(tag: Seq<char>, k: int)
    requires
        0 <= k <= tag.len(),
        forall|j: int| 0 <= j < k ==> tag[j] == 'v',
    ensures
        strip_v(tag) == strip_v(tag.skip(k)),
    decreases k,
{
    if k > 0 {
        assert(tag.skip(1) =~= tag.drop_first());
        assert forall|j: int| 0 <= j < k - 1 implies tag.drop_first()[j] == 'v' by {
            assert(tag.drop_first()[j] == tag[j + 1]);
        }
        lemma_strip_v(tag.drop_first(), k - 1);
        assert(tag.drop_first().skip(k - 1) =~= tag.skip(k));
    } else {
        assert(tag.skip(0) =~= tag);
    }
}

/// The outcome of a release check: the published version when it is newer
/// than the running one, `None` when it is not, and an error when the release
/// data holds no tag.
pub open spec fn release_decision_spec(tag: Option<Seq<char>>, current: Seq<char>) -> Result<
    Option<Seq<char>>,
    Seq<char>,
> {
    match tag {
        None => Err("Invalid API response"@),
        Some(t) => if is_newer_spec(strip_v(t), current) {
            Ok(Some(strip_v(t)))
        } else {
            Ok(None)
        },
    }
}

/// Decides on a release tag (`v1.2.3`) read from the release feed.
pub fn release_decision(tag: Option<&str>, current: &str) -> (r: Result<Option<String>, String>)
    ensures
        (match r {
            Ok(Some(s)) => Ok(Some(s@)),
            Ok(None) => Ok(None),
            Err(e) => Err(e@),
        }) == release_decision_spec(
            match tag {
                Some(t) => Some(t@),
                None => None,
            },
            current@,
        ),
{
    match tag {
        None => Err(String::from_str("Invalid API response")),
        Some(t) => {
            let chars = chars_of(t);
            let mut k: usize = 0;
            while k < chars.len() && chars[k] == 'v'
                invariant
                    k <= chars.len(),
                    chars@ == t@,
                    forall|j: int| 0 <= j < k ==> chars@[j] == 'v',
                decreases chars.len() - k,
            {
                k = k + 1;
            }
            proof {
                lemma_strip_v(t@, k as int);
                assert(strip_v(t@.skip(k as int)) == t@.skip(k as int));
            }
            let mut rest: Vec<char> = Vec::new();
            extend_range(&mut rest, &chars, k, chars.len());
            assert(rest@ =~= t@.skip(k as int));
            let latest = string_of(rest.as_slice());
            if is_newer(latest.as_str(), current) {
                Ok(Some(latest))
            } else {
                Ok(None)
            }
        },
    }
}

/// Package file name of a release for Linux (`.deb`).
pub fn linux_package_name(version: &str) -> (r: String)
    ensures
        r@ == "simpleedit_"@ + version@ + "-1_amd64.deb"@,
{
    let mut s = String::from_str("simpleedit_");
    s.append(version);
    s.append("-1_amd64.deb");
    s
}

/// Package file name of a release for macOS (Apple silicon archive).
pub fn macos_package_name(version: &str) -> (r: String)
    ensures
        r@ == "simpleedit-v"@ + version@ + "-aarch64-apple-darwin.tar.gz"@,
{
    let mut s = String::from_str("simpleedit-v");
    s.append(version);
    s.append("-aarch64-apple-darwin.tar.gz");
    s
}

/// Download address of a release's Linux package.
pub fn linux_download_url(version: &str) -> (r: String)
    ensures
        r@ == "https://github.com/simpleeditdev/simpleedit/releases/download/v"@ + version@
            + "/"@ + "simpleedit_"@ + version@ + "-1_amd64.deb"@,
{
    let mut s = String::from_str("https://github.com/simpleeditdev/simpleedit/releases/download/v");
    s.append(version);
    s.append("/");
    let name = linux_package_name(version);
    s.append(name.as_str());
    s
}

/// Download address of a release's macOS archive.
pub fn macos_download_url(version: &str) -> (r: String)
    ensures
        r@ == "https://github.com/simpleeditdev/simpleedit/releases/download/v"@ + version@
            + "/"@ + "simpleedit-v"@ + version@ + "-aarch64-apple-darwin.tar.gz"@,
{
    let mut s = String::from_str("https://github.com/simpleeditdev/simpleedit/releases/download/v");
    s.append(version);
    s.append("/");
    let name = macos_package_name(version);
    s.append(name.as_str());
    s
}


/// The command that installs a downloaded Linux package: `pkexec dpkg -i`
/// on the package path.
pub fn linux_install_command(package: &str) -> (r: (String, Vec<String>))
    ensures
        r.0@ == "pkexec"@,
        r.1@.len() == 3,
        r.1@[0]@ == "dpkg"@,
        r.1@[1]@ == "-i"@,
        r.1@[2]@ == package@,
{
    let mut args: Vec<String> = Vec::new();
    args.push(String::from_str("dpkg"));
    args.push(String::from_str("-i"));
    args.push(crate::text::string_of(crate::text::chars_of(package).as_slice()));
    (String::from_str("pkexec"), args)
}

/// The command that unpacks a downloaded macOS archive into a directory:
/// `tar -xzf archive -C dir`.
pub fn macos_extract_command(archive: &str, dir: &str) -> (r: (String, Vec<String>))
    ensures
        r.0@ == "tar"@,
        r.1@.len() == 4,
        r.1@[0]@ == "-xzf"@,
        r.1@[1]@ == archive@,
        r.1@[2]@ == "-C"@,
        r.1@[3]@ == dir@,
{
    let mut args: Vec<String> = Vec::new();
    args.push(String::from_str("-xzf"));
    args.push(crate::text::string_of(crate::text::chars_of(archive).as_slice()));
    args.push(String::from_str("-C"));
    args.push(crate::text::string_of(crate::text::chars_of(dir).as_slice()));
    (String::from_str("tar"), args)
}

/// The AppleScript line that copies the unpacked binary into
/// /usr/local/bin with administrator rights.
pub fn macos_install_script(binary: &str) -> (r: String)
    ensures
        r@ == "do shell script \"cp '"@ + binary@
            + "' /usr/local/bin/simpleedit && chmod +x /usr/local/bin/simpleedit\" with administrator privileges"@,
{
    let mut s = String::from_str("do shell script \"cp '");
    s.append(binary);
    s.append("' /usr/local/bin/simpleedit && chmod +x /usr/local/bin/simpleedit\" with administrator privileges");
    s
}

} // verus!
