//! Getting a playable file out of what RomM actually serves.
//!
//! RomM serves plenty of games as `.zip`, and most libretro cores cannot read
//! one. A few can — their `valid_extensions` include `zip` — and those are left
//! alone. For the rest, the rule is: pick the single archive entry whose
//! extension the core accepts. If there is more than one, say so rather than
//! choosing; picking the wrong disc of a two-disc game and silently starting it
//! is worse than asking.
//!
//! An entry's extension and file name are what `std::path` reads from its
//! name, as on the host platform. For a plain path (see `paths::plain_path`)
//! that is stated exactly; for names whose reading differs between platforms
//! the contracts hold for whatever the platform read.

use vstd::prelude::*;

use crate::paths::{self, opt_view, name_part, path_extension, plain_path};
use crate::text::{
    append_chars, append_str, chars_of, decimal, decimal_string, ends_with, eq_chars, eq_str,
    has_prefix, has_suffix, join, join_strings, lower_chars, lower_seq, slice_chars, starts_with,
    string_of, views, is_empty_str,
};

verus! {

/// What to hand the core.
#[derive(Debug, Clone, PartialEq, Eq)]
pub enum Content {
    /// Use the downloaded file as-is.
    AsDownloaded,
    /// Extract this entry from the archive first.
    Extract(String),
}

/// Why an archive cannot be played.
#[derive(Debug, Clone, PartialEq, Eq)]
pub enum ChooseError {
    /// Nothing in the archive has an extension the core accepts; carries the
    /// extensions the core wanted.
    NothingPlayable(Vec<String>),
    /// More than one entry would do; carries them, in archive order.
    Ambiguous(Vec<String>),
}

/// Does the core accept this extension, compared case-insensitively?
pub open spec fn accepted_ext(ext: Option<Seq<char>>, exts: Seq<Seq<char>>) -> bool {
    match ext {
        Some(e) => exts.contains(lower_seq(e)),
        None => false,
    }
}

/// Directory entries and macOS resource forks are never candidates: they
/// would otherwise turn a clean single-ROM zip into an ambiguous one. Of the
/// rest, those whose extension the core accepts are.
pub open spec fn is_candidate(name: Seq<char>, ext: Option<Seq<char>>, exts: Seq<Seq<char>>) -> bool {
    &&& !ends_with(name, "/"@)
    &&& !starts_with(name, "__MACOSX/"@)
    &&& accepted_ext(ext, exts)
}

/// The candidate entries, in archive order, given each entry's extension.
pub open spec fn candidates(
    names: Seq<Seq<char>>,
    found: Seq<Option<Seq<char>>>,
    exts: Seq<Seq<char>>,
) -> Seq<Seq<char>>
    decreases names.len(),
{
    if names.len() == 0 {
        Seq::empty()
    } else {
        let rest = candidates(names.drop_last(), found.drop_last(), exts);
        if is_candidate(names.last(), found.last(), exts) {
            rest.push(names.last())
        } else {
            rest
        }
    }
}

/// What `choose_content` decides, given each entry's extension: `Ok(None)`
/// for the archive as downloaded, `Ok(Some(e))` to extract `e`, `Err` with the
/// candidates otherwise.
pub open spec fn choice(
    names: Seq<Seq<char>>,
    found: Seq<Option<Seq<char>>>,
    exts: Seq<Seq<char>>,
    core_reads_zip: bool,
) -> Result<Option<Seq<char>>, Seq<Seq<char>>> {
    if core_reads_zip {
        Ok(None)
    } else {
        let c = candidates(names, found, exts);
        if c.len() == 1 {
            Ok(Some(c[0]))
        } else {
            Err(c)
        }
    }
}

/// Extensions as `Path::extension` may give them for these names: one per
/// name, and the documented one wherever the name is a plain path.
pub open spec fn extensions_agree(names: Seq<Seq<char>>, found: Seq<Option<Seq<char>>>) -> bool {
    &&& found.len() == names.len()
    &&& forall|i: int| 0 <= i < names.len() && plain_path(#[trigger] names[i]) ==> found[i] == path_extension(names[i])
}

/// Every name is a plain path.
pub open spec fn all_plain(names: Seq<Seq<char>>) -> bool {
    forall|i: int| 0 <= i < names.len() ==> plain_path(#[trigger] names[i])
}

/// The documented extension of every name.
pub open spec fn plain_extensions(names: Seq<Seq<char>>) -> Seq<Option<Seq<char>>> {
    Seq::new(names.len(), |i: int| path_extension(names[i]))
}

/// `r` is the outcome `want` describes.
pub open spec fn outcome(
    r: Result<Content, ChooseError>,
    want: Result<Option<Seq<char>>, Seq<Seq<char>>>,
    core_extensions: Seq<String>,
) -> bool {
    match r {
        Ok(Content::AsDownloaded) => want == Ok::<Option<Seq<char>>, Seq<Seq<char>>>(None),
        Ok(Content::Extract(e)) => want == Ok::<Option<Seq<char>>, Seq<Seq<char>>>(Some(e@)),
        Err(ChooseError::NothingPlayable(wanted)) => {
            &&& want == Err::<Option<Seq<char>>, Seq<Seq<char>>>(Seq::empty())
            &&& wanted@ == core_extensions
        },
        Err(ChooseError::Ambiguous(found)) => {
            &&& want == Err::<Option<Seq<char>>, Seq<Seq<char>>>(views(found@))
            &&& found@.len() > 1
        },
    }
}

/// On plain names the extensions that agree are the documented ones.
proof fn lemma_plain_extensions_agree(names: Seq<Seq<char>>, found: Seq<Option<Seq<char>>>)
    requires
        extensions_agree(names, found),
        all_plain(names),
    ensures
        found == plain_extensions(names),
{
    assert(found =~= plain_extensions(names));
}

/// Does any of `exts` equal `e`?
fn contains_ext(exts: &[String], e: &[char]) -> (r: bool)
    ensures
        r == views(exts@).contains(e@),
{
    let mut i: usize = 0;
    while i < exts.len()
        invariant
            i <= exts.len(),
            forall|k: int| 0 <= k < i ==> exts@[k]@ != e@,
        decreases exts.len() - i,
    {
        let x = chars_of(exts[i].as_str());
        if eq_chars(x.as_slice(), e) {
            assert(views(exts@)[i as int] == e@);
            return true;
        }
        i += 1;
    }
    proof {
        if views(exts@).contains(e@) {
            let k = choose|k: int| 0 <= k < views(exts@).len() && views(exts@)[k] == e@;
            assert(exts@[k]@ == e@);
        }
    }
    false
}

fn candidate_check(name: &String, ext: &Option<String>, exts: &[String]) -> (r: bool)
    ensures
        r == is_candidate(name@, opt_view(*ext), views(exts@)),
{
    let v = chars_of(name.as_str());
    let slash = chars_of("/");
    let fork = chars_of("__MACOSX/");
    if has_suffix(v.as_slice(), slash.as_slice()) || has_prefix(v.as_slice(), fork.as_slice()) {
        return false;
    }
    match ext {
        Some(e) => {
            let ev = chars_of(e.as_str());
            let l = lower_chars(ev.as_slice());
            contains_ext(exts, l.as_slice())
        },
        None => false,
    }
}

/// Decide what to do, given the archive's entries and what the core accepts.
///
/// A core that reads archives itself gets the archive. Otherwise exactly one
/// candidate entry must exist; none, or several, is an error naming what was
/// wanted or what was found. Each entry's extension is read with
/// `Path::extension`: the outcome is the one `choice` gives for the
/// extensions that call returned, which on plain paths are the documented
/// ones.
pub fn choose_content(entries: &[String], core_extensions: &[String], core_reads_zip: bool) -> (r: Result<
    Content,
    ChooseError,
>)
    ensures
        exists|found: Seq<Option<Seq<char>>>|
            #![trigger extensions_agree(views(entries@), found)]
            extensions_agree(views(entries@), found) && outcome(
                r,
                choice(views(entries@), found, views(core_extensions@), core_reads_zip),
                core_extensions@,
            ),
        all_plain(views(entries@)) ==> outcome(
            r,
            choice(
                views(entries@),
                plain_extensions(views(entries@)),
                views(core_extensions@),
                core_reads_zip,
            ),
            core_extensions@,
        ),
{
    let ghost names = views(entries@);
    let ghost exts = views(core_extensions@);
    if core_reads_zip {
        // The core does archives itself, and does them better.
        proof {
            assert(extensions_agree(names, plain_extensions(names)));
        }
        return Ok(Content::AsDownloaded);
    }
    let mut found: Vec<String> = Vec::new();
    let ghost mut seen: Seq<Option<Seq<char>>> = Seq::empty();
    let mut i: usize = 0;
    while i < entries.len()
        invariant
            i <= entries@.len(),
            names == views(entries@),
            exts == views(core_extensions@),
            extensions_agree(names.take(i as int), seen),
            views(found@) == candidates(names.take(i as int), seen, exts),
        decreases entries.len() - i,
    {
        assert(names.take(i + 1).drop_last() == names.take(i as int));
        assert(names.take(i + 1).last() == entries@[i as int]@);
        let ext = paths::extension_of(entries[i].as_str());
        let ghost before = seen;
        proof {
            seen = seen.push(opt_view(ext));
            assert(seen.drop_last() == before);
            assert forall|k: int|
                0 <= k < names.take(i + 1).len() && plain_path(#[trigger] names.take(i + 1)[k]) implies seen[k]
                == path_extension(names.take(i + 1)[k]) by {
                if k < i {
                    assert(names.take(i + 1)[k] == names.take(i as int)[k]);
                }
            }
        }
        if candidate_check(&entries[i], &ext, core_extensions) {
            found.push(entries[i].clone());
            assert(views(found@) =~= candidates(names.take(i as int), before, exts).push(
                entries@[i as int]@,
            ));
        }
        i += 1;
    }
    proof {
        assert(names.take(entries@.len() as int) == names);
        assert(extensions_agree(names, seen));
        if all_plain(names) {
            lemma_plain_extensions_agree(names, seen);
        }
    }
    if found.len() == 0 {
        let mut wanted: Vec<String> = Vec::new();
        let mut k: usize = 0;
        while k < core_extensions.len()
            invariant
                k <= core_extensions@.len(),
                wanted@ == core_extensions@.take(k as int),
            decreases core_extensions.len() - k,
        {
            wanted.push(core_extensions[k].clone());
            assert(core_extensions@.take(k + 1) == core_extensions@.take(k as int).push(
                core_extensions@[k as int],
            ));
            k += 1;
        }
        assert(core_extensions@.take(core_extensions@.len() as int) == core_extensions@);
        assert(views(found@) =~= Seq::<Seq<char>>::empty());
        Err(ChooseError::NothingPlayable(wanted))
    } else if found.len() == 1 {
        let only = found[0].clone();
        assert(views(found@)[0] == found@[0]@);
        Ok(Content::Extract(only))
    } else {
        // Deliberately not guessing. A multi-disc game needs disc swapping,
        // and silently launching disc 1 of 3 would look like it worked right
        // up until the game asked for disc 2.
        Err(ChooseError::Ambiguous(found))
    }
}

/// The message an error is shown with.
pub open spec fn choose_error_message(e: ChooseError) -> Seq<char> {
    match e {
        ChooseError::NothingPlayable(wanted) => "the archive contains nothing this core can read (it wants "@
            + join(views(wanted@), ", "@) + ")"@,
        ChooseError::Ambiguous(found) => "the archive contains "@ + decimal(found@.len())
            + " games and RustRomM can't yet choose between them: "@ + join(views(found@), ", "@),
    }
}

impl ChooseError {
    /// What to tell the player.
    pub fn message(&self) -> (m: String)
        ensures
            m@ == choose_error_message(*self),
    {
        let mut out: Vec<char> = Vec::new();
        match self {
            ChooseError::NothingPlayable(wanted) => {
                append_str(&mut out, "the archive contains nothing this core can read (it wants ");
                let list = join_strings(wanted.as_slice(), ", ");
                append_chars(&mut out, list.as_slice());
                append_str(&mut out, ")");
            },
            ChooseError::Ambiguous(found) => {
                append_str(&mut out, "the archive contains ");
                let n = decimal_string(found.len() as u64);
                append_chars(&mut out, n.as_slice());
                append_str(&mut out, " games and RustRomM can't yet choose between them: ");
                let list = join_strings(found.as_slice(), ", ");
                append_chars(&mut out, list.as_slice());
            },
        }
        string_of(out.as_slice())
    }
}

/// Is this an archive extension?
pub open spec fn is_zip_extension_spec(ext: Option<Seq<char>>) -> bool {
    match ext {
        Some(e) => lower_seq(e) == "zip"@,
        None => false,
    }
}

/// `zip`, in any case, names an archive to look inside.
pub fn is_zip_extension(ext: &Option<String>) -> (r: bool)
    ensures
        r == is_zip_extension_spec(
            match ext {
                Some(e) => Some(e@),
                None => None,
            },
        ),
{
    match ext {
        Some(e) => {
            let v = chars_of(e.as_str());
            let l = lower_chars(v.as_slice());
            eq_str(l.as_slice(), "zip")
        },
        None => false,
    }
}

/// Is this file an archive we should look inside? Its extension, read with
/// `Path::extension`, is `zip` in any case; on a plain path that is the
/// documented extension of its last component.
pub fn looks_like_archive(path: &str) -> (r: bool)
    ensures
        plain_path(path@) ==> r == is_zip_extension_spec(path_extension(path@)),
{
    let ext = paths::extension_of(path);
    is_zip_extension(&ext)
}

/// Does the core read archives itself? True when `zip` is one of its
/// extensions, exactly as libretro reports them (lower-case, no dot).
pub fn core_reads_zip(core_extensions: &[String]) -> (r: bool)
    ensures
        r == views(core_extensions@).contains("zip"@),
{
    let z = chars_of("zip");
    contains_ext(core_extensions, z.as_slice())
}

/// The name an entry is extracted under — never a path. An archive entry is
/// attacker-controlled text, and `../../.ssh/authorized_keys` is a real
/// archive attack; only its file name, as `Path::file_name` reads it, is ever
/// used, and an empty one is refused. The name holds no `/`, is never `.` or
/// `..`, and for a plain path is the text after its last `/`.
pub fn extraction_name(entry: &str) -> (name: Option<String>)
    ensures
        plain_path(entry@) ==> opt_view(name) == Some(name_part(entry@)),
        name matches Some(n) ==> {
            &&& n@.len() > 0
            &&& n@ != "."@
            &&& n@ != ".."@
            &&& forall|i: int| 0 <= i < n@.len() ==> n@[i] != '/'
        },
{
    match paths::file_name_of(entry) {
        Some(n) => {
            if is_empty_str(n.as_str()) {
                None
            } else {
                Some(n)
            }
        },
        None => None,
    }
}

} // verus!
