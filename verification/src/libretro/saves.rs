//! Persisting battery saves.
//!
//! Cores never write SRAM out themselves. The frontend reads it out of the
//! core's memory and puts it on disk, and if it does not, the player loses
//! everything the moment the app closes.
//!
//! **Never destroy a save that was good.** A core that failed to initialise its
//! memory presents all-`0x00` or all-`0xFF` SRAM, and writing that over a real
//! save is how you silently delete somebody's game. `decide` refuses exactly
//! that, and `lemma_a_good_save_is_never_overwritten_by_blank_memory` states it.

use vstd::prelude::*;

use crate::paths::{
    self, extendable_dir, is_any_sep, joined, last_dot, name_part, name_stem, only_slashes, plain_name,
    plain_path,
};
use crate::text::{append_str, chars_of, string_of};

verus! {

/// Frames to run before the core's reported save size can be believed.
///
/// Genesis Plus GX loading Landstalker reports 65536 bytes immediately after
/// loading, then 0 after a frame, then settles at 8240 by frame 60.
pub const SETTLE_FRAMES: u32 = 120;

/// Frames between the two checks that must agree before the size is trusted.
pub const SETTLE_RECHECK_FRAMES: u32 = 60;

/// Seconds between SRAM flushes while a game runs. Short enough that a crash
/// costs seconds of progress; most flushes find nothing changed and write
/// nothing.
pub const FLUSH_INTERVAL_SECS: u64 = 10;

/// Every byte the same — what uninitialised or failed-to-load cartridge
/// memory looks like. The empty buffer counts as uniform.
pub open spec fn uniform(data: Seq<u8>) -> bool {
    forall|i: int| 0 <= i < data.len() ==> #[trigger] data[i] == data[0]
}

/// Is every byte the same?
pub fn is_uniform(data: &[u8]) -> (r: bool)
    ensures
        r == uniform(data@),
{
    if data.len() == 0 {
        return true;
    }
    let first = data[0];
    let mut i: usize = 1;
    while i < data.len()
        invariant
            1 <= i <= data@.len(),
            first == data@[0],
            forall|k: int| 0 <= k < i ==> #[trigger] data@[k] == first,
        decreases data.len() - i,
    {
        if data[i] != first {
            return false;
        }
        i += 1;
    }
    true
}

/// What to do with SRAM the core just handed over.
#[derive(Debug, Clone, Copy, PartialEq, Eq, Structural)]
pub enum Decision {
    /// Nothing changed since the last write.
    Unchanged,
    /// Write it.
    Write,
    /// Refuse: this would replace a real save with uninitialised memory.
    RefuseUniform,
    /// The core reported no save memory at all.
    NoSaveMemory,
}

/// The rule, over byte sequences.
pub open spec fn decision(
    current: Option<Seq<u8>>,
    previous: Option<Seq<u8>>,
    on_disk: Option<Seq<u8>>,
) -> Decision {
    match current {
        None => Decision::NoSaveMemory,
        Some(cur) => if cur.len() == 0 {
            Decision::NoSaveMemory
        } else if previous == Some(cur) {
            Decision::Unchanged
        } else if uniform(cur) && (on_disk matches Some(disk) && !uniform(disk)) {
            Decision::RefuseUniform
        } else {
            Decision::Write
        },
    }
}

pub open spec fn opt_view(o: Option<&[u8]>) -> Option<Seq<u8>> {
    match o {
        Some(s) => Some(s@),
        None => None,
    }
}

fn same_bytes(a: &[u8], b: &[u8]) -> (r: bool)
    ensures
        r == (a@ == b@),
{
    if a.len() != b.len() {
        return false;
    }
    let mut i: usize = 0;
    while i < a.len()
        invariant
            i <= a@.len(),
            a@.len() == b@.len(),
            forall|k: int| 0 <= k < i ==> a@[k] == b@[k],
        decreases a.len() - i,
    {
        if a[i] != b[i] {
            return false;
        }
        i += 1;
    }
    assert(a@ =~= b@);
    true
}

/// Decide whether to persist, given what the core has now, what was last
/// written, and what is on disk.
pub fn decide(current: Option<&[u8]>, previous: Option<&[u8]>, on_disk: Option<&[u8]>) -> (d:
    Decision)
    ensures
        d == decision(opt_view(current), opt_view(previous), opt_view(on_disk)),
{
    let current = match current {
        None => {
            return Decision::NoSaveMemory;
        },
        Some(c) => c,
    };
    if current.len() == 0 {
        return Decision::NoSaveMemory;
    }
    match previous {
        Some(p) => {
            if same_bytes(p, current) {
                return Decision::Unchanged;
            }
        },
        None => {},
    }
    // The guard. A core that failed to initialise presents uniform memory; if
    // there is a real save on disk, writing over it destroys the game.
    if is_uniform(current) {
        match on_disk {
            Some(disk) => {
                if !is_uniform(disk) {
                    return Decision::RefuseUniform;
                }
            },
            None => {},
        }
    }
    Decision::Write
}

/// A save that is not uniform is never replaced by uniform memory.
pub proof fn lemma_a_good_save_is_never_overwritten_by_blank_memory(
    current: Seq<u8>,
    previous: Option<Seq<u8>>,
    disk: Seq<u8>,
)
    requires
        uniform(current),
        !uniform(disk),
    ensures
        decision(Some(current), previous, Some(disk)) != Decision::Write,
{
}

/// The guard never blocks genuine progress: a non-uniform save is written
/// unless it is exactly what was written last.
pub proof fn lemma_real_progress_is_always_written(
    current: Seq<u8>,
    previous: Option<Seq<u8>>,
    on_disk: Option<Seq<u8>>,
)
    requires
        !uniform(current),
    ensures
        decision(Some(current), previous, on_disk) == (if previous == Some(current) {
            Decision::Unchanged
        } else {
            Decision::Write
        }),
{
    assert(current.len() > 0);
}

/// Writing what was just written is never repeated.
pub proof fn lemma_a_write_is_not_repeated(current: Seq<u8>, on_disk: Option<Seq<u8>>)
    requires
        current.len() > 0,
    ensures
        decision(Some(current), Some(current), on_disk) == Decision::Unchanged,
{
}

/// The save file's name for a ROM whose file stem is `stem`: the stem with
/// `.srm`, the convention every emulator uses, or `game.srm` when the ROM path
/// has no stem.
pub open spec fn save_file_name_spec(stem: Option<Seq<char>>) -> Seq<char> {
    match stem {
        Some(s) => s + ".srm"@,
        None => "game.srm"@,
    }
}

pub fn save_file_name(stem: Option<&str>) -> (name: String)
    ensures
        name@ == save_file_name_spec(
            match stem {
                Some(s) => Some(s@),
                None => None,
            },
        ),
{
    let mut out: Vec<char> = Vec::new();
    match stem {
        Some(s) => {
            append_str(&mut out, s);
            append_str(&mut out, ".srm");
        },
        None => {
            append_str(&mut out, "game.srm");
        },
    }
    string_of(out.as_slice())
}

/// Where a ROM's battery save lives: in `save_dir`, named by
/// `save_file_name` after the ROM's file stem, so a save can be carried to or
/// from RetroArch by hand, or `game.srm` when the ROM path has no file name.
/// The stem and the joining are `std::path`'s: the result is the save
/// directory joined with that name as `Path::join` documents it.
pub fn sram_path(save_dir: &str, rom_path: &str) -> (p: String)
    ensures
        plain_path(rom_path@) && extendable_dir(save_dir@) ==> joined(
            save_dir@,
            save_file_name_spec(Some(name_stem(name_part(rom_path@)))),
            p@,
        ),
        only_slashes(rom_path@) && extendable_dir(save_dir@) ==> joined(save_dir@, "game.srm"@, p@),
{
    let stem = paths::file_stem_of(rom_path);
    let name = match &stem {
        Some(s) => save_file_name(Some(s.as_str())),
        None => save_file_name(None),
    };
    proof {
        reveal_strlit("game.srm");
        if only_slashes(rom_path@) {
            let g = "game.srm"@;
            assert(g.len() == 8);
            assert forall|i: int| 0 <= i < g.len() implies !is_any_sep(#[trigger] g[i]) && g[i] != ':' by {
                assert(g[i] == seq!['g', 'a', 'm', 'e', '.', 's', 'r', 'm'][i]);
            }
            assert(g != "."@) by {
                reveal_strlit(".");
            }
            assert(g != ".."@) by {
                reveal_strlit("..");
            }
            assert(plain_name(g));
        }
        if plain_path(rom_path@) {
            let base = name_part(rom_path@);
            let st = name_stem(base);
            lemma_stem_is_plain(base);
            let full = st + ".srm"@;
            reveal_strlit(".srm");
            assert forall|i: int| 0 <= i < full.len() implies !is_any_sep(#[trigger] full[i]) && full[i] != ':' by {
                if i < st.len() {
                    assert(full[i] == st[i]);
                }
            }
            assert(full.len() > 2);
            assert(full != "."@) by {
                reveal_strlit(".");
            }
            assert(full != ".."@) by {
                reveal_strlit("..");
            }
        }
    }
    paths::join_name(save_dir, name.as_str())
}

/// The stem of a plain name keeps none of the characters a plain name may
/// not hold.
proof fn lemma_stem_is_plain(base: Seq<char>)
    requires
        plain_name(base),
    ensures
        forall|i: int| 0 <= i < name_stem(base).len() ==> !is_any_sep(#[trigger] name_stem(base)[i]) && name_stem(base)[i] != ':',
{
    let d = last_dot(base);
    lemma_last_dot_range(base);
    if d > 0 {
        assert forall|i: int| 0 <= i < name_stem(base).len() implies !is_any_sep(#[trigger] name_stem(base)[i]) && name_stem(base)[i] != ':' by {
            assert(name_stem(base)[i] == base[i]);
        }
    }
}

proof fn lemma_last_dot_range(s: Seq<char>)
    ensures
        -1 <= last_dot(s) < s.len(),
    decreases s.len(),
{
    if s.len() > 0 && s.last() != '.' {
        lemma_last_dot_range(s.drop_last());
    }
}

} // verus!
