//! The parts of the RomM API the client uses, and how they are shown.
//!
//! Deliberately partial: RomM's ROM schema alone has over seventy fields. The
//! JSON is read into these types outside the library; everything here is what
//! the client decides from them.

use vstd::prelude::*;

use crate::text::{
    append_chars, append_str, chars_of, decimal, decimal_string, ends_with, has_suffix, is_blank,
    is_blank_seq, slice_chars, string_of,
};

verus! {

/// FastAPI limit/offset pagination wrapper.
#[derive(Debug, Clone)]
pub struct Page<T> {
    pub items: Vec<T>,
    pub total: i64,
}

#[derive(Debug, Clone)]
pub struct Platform {
    pub id: i64,
    pub name: String,
    pub slug: String,
    pub fs_slug: String,
    pub rom_count: i64,
    pub custom_name: Option<String>,
}

/// The name a platform is shown under: its custom name when one is set and
/// not blank, its RomM name otherwise.
pub open spec fn display_name_spec(p: Platform) -> Seq<char> {
    match p.custom_name {
        Some(n) => if !is_blank_seq(n@) {
            n@
        } else {
            p.name@
        },
        None => p.name@,
    }
}

impl Platform {
    /// RomM lets you override a platform's name; prefer that when it's set.
    pub fn display_name(&self) -> (s: &str)
        ensures
            s@ == display_name_spec(*self),
    {
        match &self.custom_name {
            Some(n) => {
                if !is_blank(n.as_str()) {
                    n.as_str()
                } else {
                    self.name.as_str()
                }
            },
            None => self.name.as_str(),
        }
    }
}

#[derive(Debug, Clone)]
pub struct RomFile {
    pub id: i64,
    pub file_name: String,
    pub file_size_bytes: i64,
}

#[derive(Debug, Clone)]
pub struct Rom {
    pub id: i64,
    /// Scraped title. Absent for unidentified ROMs, hence the fallback in
    /// `title()`.
    pub name: Option<String>,
    pub fs_name: String,
    pub fs_extension: String,
    pub fs_size_bytes: i64,
    pub platform_id: i64,
    pub platform_slug: String,
    pub platform_display_name: String,
    pub summary: Option<String>,
    pub path_cover_small: Option<String>,
    pub path_cover_large: Option<String>,
    pub has_multiple_files: bool,
    pub files: Vec<RomFile>,
    /// RomM has the row but the file is gone from disk. Downloading would 404.
    pub missing_from_fs: bool,
}

pub open spec fn title_spec(r: Rom) -> Seq<char> {
    match r.name {
        Some(n) => if !is_blank_seq(n@) {
            n@
        } else {
            r.fs_name@
        },
        None => r.fs_name@,
    }
}

/// A cover path that names something: present and not blank. RomM sends ""
/// as well as null for missing art, and both mean "no cover".
pub open spec fn usable_cover(p: Option<String>) -> Option<Seq<char>> {
    match p {
        Some(s) => if is_blank_seq(s@) {
            None
        } else {
            Some(s@)
        },
        None => None,
    }
}

/// The small cover if it names one, else the large one if that does, else
/// none.
pub open spec fn cover_path_spec(r: Rom) -> Option<Seq<char>> {
    match usable_cover(r.path_cover_small) {
        Some(p) => Some(p),
        None => usable_cover(r.path_cover_large),
    }
}

/// Multi-file ROMs come back from the content endpoint as a zip whatever
/// `fs_name` says, so they are saved as `<stem>.zip`, the stem being
/// `fs_name` without `.<fs_extension>` when it ends with that.
pub open spec fn download_file_name_spec(r: Rom) -> Seq<char> {
    if r.has_multiple_files || r.files@.len() > 1 {
        let suffix = "."@ + r.fs_extension@;
        let stem = if ends_with(r.fs_name@, suffix) {
            r.fs_name@.subrange(0, r.fs_name@.len() - suffix.len())
        } else {
            r.fs_name@
        };
        stem + ".zip"@
    } else {
        r.fs_name@
    }
}

impl Rom {
    /// The scraped title, or the file name for an unidentified ROM.
    pub fn title(&self) -> (s: &str)
        ensures
            s@ == title_spec(*self),
    {
        match &self.name {
            Some(n) => {
                if !is_blank(n.as_str()) {
                    n.as_str()
                } else {
                    self.fs_name.as_str()
                }
            },
            None => self.fs_name.as_str(),
        }
    }

    /// Cover art path relative to the server root, small variant preferred —
    /// the list never renders these large enough to justify the bigger file.
    pub fn cover_path(&self) -> (p: Option<&str>)
        ensures
            match p {
                Some(s) => cover_path_spec(*self) == Some(s@),
                None => cover_path_spec(*self) is None,
            },
    {
        if let Some(p) = &self.path_cover_small {
            if !is_blank(p.as_str()) {
                return Some(p.as_str());
            }
        }
        match &self.path_cover_large {
            Some(p) => {
                if is_blank(p.as_str()) {
                    None
                } else {
                    Some(p.as_str())
                }
            },
            None => None,
        }
    }

    /// What to save the download as.
    pub fn download_file_name(&self) -> (name: String)
        ensures
            name@ == download_file_name_spec(*self),
    {
        if self.has_multiple_files || self.files.len() > 1 {
            let name = chars_of(self.fs_name.as_str());
            let mut suffix: Vec<char> = Vec::new();
            append_str(&mut suffix, ".");
            append_str(&mut suffix, self.fs_extension.as_str());
            let mut out = if has_suffix(name.as_slice(), suffix.as_slice()) {
                slice_chars(name.as_slice(), 0, name.len() - suffix.len())
            } else {
                name
            };
            append_str(&mut out, ".zip");
            string_of(out.as_slice())
        } else {
            self.fs_name.clone()
        }
    }
}

#[derive(Debug, Clone)]
pub struct Collection {
    pub id: i64,
    pub name: String,
    pub rom_count: i64,
}

// ─── Sizes ───────────────────────────────────────────────────────────────────

/// Which unit a positive size is shown in: the largest of B, KB, MB, GB, TB
/// it reaches, in steps of 1024.
pub open spec fn unit_of(bytes: int) -> nat {
    if bytes >= 0x100_0000_0000 {
        4
    } else if bytes >= 0x4000_0000 {
        3
    } else if bytes >= 0x10_0000 {
        2
    } else if bytes >= 0x400 {
        1
    } else {
        0
    }
}

pub open spec fn unit_name(u: nat) -> Seq<char> {
    if u == 0 {
        "B"@
    } else if u == 1 {
        "KB"@
    } else if u == 2 {
        "MB"@
    } else if u == 3 {
        "GB"@
    } else {
        "TB"@
    }
}

pub open spec fn unit_size(u: nat) -> nat {
    if u == 0 {
        1
    } else if u == 1 {
        0x400
    } else if u == 2 {
        0x10_0000
    } else if u == 3 {
        0x4000_0000
    } else {
        0x100_0000_0000
    }
}

/// `n / d` rounded to the nearest integer, ties to even.
pub open spec fn round_half_even(n: nat, d: nat) -> nat
    recommends
        d > 0,
{
    let q = n / d;
    let r = n % d;
    if 2 * r > d {
        q + 1
    } else if 2 * r < d {
        q
    } else if q % 2 == 0 {
        q
    } else {
        q + 1
    }
}

/// Human-readable byte size: `—` for nothing, whole bytes below a kilobyte,
/// and otherwise the size in its unit to one decimal place.
pub open spec fn human_size_spec(bytes: int) -> Seq<char> {
    if bytes <= 0 {
        "—"@
    } else {
        let u = unit_of(bytes);
        if u == 0 {
            decimal(bytes as nat) + " B"@
        } else {
            let tenths = round_half_even((bytes * 10) as nat, unit_size(u));
            decimal(tenths / 10) + "."@ + decimal(tenths % 10) + " "@ + unit_name(u)
        }
    }
}

/// Human-readable byte size. RomM reports sizes in bytes and some PSP ISOs are
/// multi-gigabyte, so raw numbers are unreadable in the UI.
pub fn human_size(bytes: i64) -> (s: String)
    ensures
        s@ == human_size_spec(bytes as int),
{
    proof {
        reveal_strlit("—");
    }
    if bytes <= 0 {
        return string_of(chars_of("—").as_slice());
    }
    let b = bytes as u64;
    let (unit, size, name): (u64, u64, &str) = if b >= 0x100_0000_0000 {
        (4, 0x100_0000_0000, "TB")
    } else if b >= 0x4000_0000 {
        (3, 0x4000_0000, "GB")
    } else if b >= 0x10_0000 {
        (2, 0x10_0000, "MB")
    } else if b >= 0x400 {
        (1, 0x400, "KB")
    } else {
        (0, 1, "B")
    };
    let mut out: Vec<char> = Vec::new();
    if unit == 0 {
        let digits = decimal_string(b);
        append_chars(&mut out, digits.as_slice());
        append_str(&mut out, " B");
        return string_of(out.as_slice());
    }
    let n: u128 = (b as u128) * 10;
    let d: u128 = size as u128;
    let q = n / d;
    let r = n % d;
    let tenths: u128 = if 2 * r > d {
        q + 1
    } else if 2 * r < d {
        q
    } else if q % 2 == 0 {
        q
    } else {
        q + 1
    };
    assert(q <= n) by (nonlinear_arith)
        requires
            d >= 1,
            q == n / d,
            n >= 0,
    ;
    assert(tenths / 10 <= u64::MAX);
    let whole = decimal_string((tenths / 10) as u64);
    let frac = decimal_string((tenths % 10) as u64);
    append_chars(&mut out, whole.as_slice());
    append_str(&mut out, ".");
    append_chars(&mut out, frac.as_slice());
    append_str(&mut out, " ");
    append_str(&mut out, name);
    string_of(out.as_slice())
}

} // verus!
