//! `std::path` as the library sees it: paths are handed in and out as text.
//!
//! How a path splits into components depends on the platform — `\` and a
//! drive prefix such as `C:` mean something on Windows and nothing elsewhere,
//! and `//server/share` is a UNC prefix there. The wrappers below call
//! `std::path` and state what its documentation gives on every platform alike:
//! the answer for a *plain path*, one whose last component reads the same
//! everywhere. For any other text they state only what holds on every
//! platform, or nothing.

use std::path::Path;
use vstd::prelude::*;

verus! {

/// A separator on some platform: `/` everywhere, `\` on Windows.
pub open spec fn is_any_sep(c: char) -> bool {
    c == '/' || c == '\\'
}

/// A single component that no platform splits, prefixes or normalises: no
/// separator of any platform, no `:` (which can start a Windows prefix), and
/// not empty, `.` or `..`.
pub open spec fn plain_name(s: Seq<char>) -> bool {
    &&& s.len() > 0
    &&& s != "."@
    &&& s != ".."@
    &&& forall|i: int| 0 <= i < s.len() ==> !is_any_sep(#[trigger] s[i]) && s[i] != ':'
}

/// Index just past the last `/`, or 0 when there is none.
pub open spec fn after_last_slash(s: Seq<char>) -> int
    decreases s.len(),
{
    if s.len() == 0 {
        0
    } else if s.last() == '/' {
        s.len() as int
    } else {
        after_last_slash(s.drop_last())
    }
}

/// The text after the last `/`.
pub open spec fn name_part(s: Seq<char>) -> Seq<char> {
    s.subrange(after_last_slash(s), s.len() as int)
}

/// Text whose file name every platform reads the same way: it holds no `\`
/// and no `:`, does not start with `//` (a UNC or verbatim prefix on
/// Windows), and what follows its last `/` is a plain name. Its file name is
/// then that last part, on every platform.
pub open spec fn plain_path(s: Seq<char>) -> bool {
    &&& forall|i: int| 0 <= i < s.len() ==> s[i] != '\\' && s[i] != ':'
    &&& !(s.len() >= 2 && s[0] == '/' && s[1] == '/')
    &&& plain_name(name_part(s))
}

/// Index of the last `.`, or -1 when there is none.
pub open spec fn last_dot(s: Seq<char>) -> int
    decreases s.len(),
{
    if s.len() == 0 {
        -1
    } else if s.last() == '.' {
        s.len() - 1
    } else {
        last_dot(s.drop_last())
    }
}

/// The extension of a file name, as `Path::extension` documents it: none if
/// the name has no `.`, or starts with its only `.`; otherwise what follows
/// the final `.`.
pub open spec fn name_extension(name: Seq<char>) -> Option<Seq<char>> {
    let d = last_dot(name);
    if d <= 0 {
        None
    } else {
        Some(name.subrange(d + 1, name.len() as int))
    }
}

/// The stem of a file name, as `Path::file_stem` documents it: the whole name
/// if it has no `.`, or starts with its only `.`; otherwise what precedes the
/// final `.`.
pub open spec fn name_stem(name: Seq<char>) -> Seq<char> {
    let d = last_dot(name);
    if d <= 0 {
        name
    } else {
        name.subrange(0, d)
    }
}

/// The extension `Path::extension` gives for a plain path.
pub open spec fn path_extension(s: Seq<char>) -> Option<Seq<char>> {
    name_extension(name_part(s))
}

/// `dir` joined with `name` as `Path::join` documents it, `sep` being the
/// platform's main separator: an empty directory gives the name alone, a
/// directory that already ends in a separator gets the name appended, and any
/// other gets the separator and then the name. `/` separates on every
/// platform.
pub open spec fn joined_with(dir: Seq<char>, name: Seq<char>, sep: char, out: Seq<char>) -> bool {
    if dir.len() == 0 {
        out == name
    } else if dir.last() == '/' || dir.last() == sep {
        out == dir + name
    } else {
        out == dir + seq![sep] + name
    }
}

/// `dir` joined with `name` by `Path::join` with the platform's main
/// separator, which is `/` or `\`; which of the two is the platform's.
pub open spec fn joined(dir: Seq<char>, name: Seq<char>, out: Seq<char>) -> bool {
    exists|sep: char| (sep == '/' || sep == '\\') && #[trigger] joined_with(dir, name, sep, out)
}

/// A directory text `Path::join` extends rather than rewrites: one that does
/// not start with two separators (a UNC or verbatim prefix on Windows) and is
/// not a bare drive prefix such as `C:`, after which Windows adds no
/// separator.
pub open spec fn extendable_dir(dir: Seq<char>) -> bool {
    &&& !(dir.len() >= 2 && is_any_sep(dir[0]) && is_any_sep(dir[1]))
    &&& !(dir.len() == 2 && dir[1] == ':')
}

/// Nothing but `/`, or nothing at all: a path with no file name on any
/// platform.
pub open spec fn only_slashes(s: Seq<char>) -> bool {
    forall|i: int| 0 <= i < s.len() ==> s[i] == '/'
}

pub open spec fn opt_view(o: Option<String>) -> Option<Seq<char>> {
    match o {
        Some(s) => Some(s@),
        None => None,
    }
}

#[verifier::external_type_specification]
#[verifier::external_body]
pub struct ExPath(Path);

/// `Path::extension` of the text, converted with `to_string_lossy`, which
/// loses nothing on text that came in as a `str`.
///
/// For a plain path this is the documented rule over its last component.
/// For other text the answer is the platform's and is not stated.
#[verifier::external_body]
pub(crate) fn extension_of(path: &str) -> (ext: Option<String>)
    ensures
        plain_path(path@) ==> opt_view(ext) == path_extension(path@),
{
    Path::new(path).extension().map(|e| e.to_string_lossy().into_owned())
}

/// `Path::file_stem` of the text, converted with `to_string_lossy`.
///
/// For a plain path this is the documented rule over its last component.
/// For other text the answer is the platform's and is not stated.
#[verifier::external_body]
pub(crate) fn file_stem_of(path: &str) -> (stem: Option<String>)
    ensures
        plain_path(path@) ==> opt_view(stem) == Some(name_stem(name_part(path@))),
        only_slashes(path@) ==> stem is None,
{
    Path::new(path).file_stem().map(|s| s.to_string_lossy().into_owned())
}

/// `Path::file_name` of the text, converted with `to_string_lossy`.
///
/// For a plain path it is the text after the last `/`. On every platform a
/// file name is one normal component: it holds no `/` (a separator
/// everywhere) and is never `.` or `..`. Whether `\` splits it is the
/// platform's and is not stated.
#[verifier::external_body]
pub(crate) fn file_name_of(path: &str) -> (name: Option<String>)
    ensures
        plain_path(path@) ==> opt_view(name) == Some(name_part(path@)),
        name matches Some(n) ==> {
            &&& n@ != "."@
            &&& n@ != ".."@
            &&& forall|i: int| 0 <= i < n@.len() ==> n@[i] != '/'
        },
{
    Path::new(path).file_name().map(|n| n.to_string_lossy().into_owned())
}

/// `Path::join` of a directory text with one file name, converted with
/// `to_string_lossy`, which loses nothing on text that came in as `str`s.
///
/// When the name is a single plain component and the directory carries no
/// prefix that `join` rewrites, the result is the documented join with the
/// platform's main separator, `/` or `\`; which of the two is not stated,
/// being the platform's. Otherwise nothing is stated.
#[verifier::external_body]
pub(crate) fn join_name(dir: &str, name: &str) -> (out: String)
    ensures
        plain_name(name@) && extendable_dir(dir@) ==> joined(dir@, name@, out@),
{
    Path::new(dir).join(name).to_string_lossy().into_owned()
}

} // verus!
