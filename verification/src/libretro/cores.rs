//! Which core plays what, and where to get it.
//!
//! No core binary is bundled: they are fetched from the libretro buildbot on
//! first use and cached. That is a licence decision as much as a size one —
//! several of the best cores are not free software, and the licence string of
//! each is carried here so it is shown wherever the core is named.

use vstd::prelude::*;

use crate::text::{
    lemma_lower_char, lemma_trim_edges, lemma_trim_of_trimmed, lower,
    append_str, chars_of, eq_str, lower_chars, lower_seq, string_of, trim, trim_chars,
};

verus! {

/// A core the library knows how to use.
#[derive(Debug, Clone, Copy, PartialEq, Eq, Structural)]
pub enum CoreSpec {
    Fceumm,
    Snes9x,
    Mgba,
    GenesisPlusGx,
    Stella,
    Prosystem,
    MednafenPce,
    MednafenWswan,
    MednafenNgp,
    MednafenVb,
    Handy,
    Atari800,
    Gearcoleco,
    Picodrive,
}

pub const FCEUMM: CoreSpec = CoreSpec::Fceumm;
pub const SNES9X: CoreSpec = CoreSpec::Snes9x;
pub const MGBA: CoreSpec = CoreSpec::Mgba;
pub const GENESIS_PLUS_GX: CoreSpec = CoreSpec::GenesisPlusGx;
pub const STELLA: CoreSpec = CoreSpec::Stella;
pub const PROSYSTEM: CoreSpec = CoreSpec::Prosystem;
pub const MEDNAFEN_PCE: CoreSpec = CoreSpec::MednafenPce;
pub const MEDNAFEN_WSWAN: CoreSpec = CoreSpec::MednafenWswan;
pub const MEDNAFEN_NGP: CoreSpec = CoreSpec::MednafenNgp;
pub const MEDNAFEN_VB: CoreSpec = CoreSpec::MednafenVb;
pub const HANDY: CoreSpec = CoreSpec::Handy;
pub const ATARI800: CoreSpec = CoreSpec::Atari800;
pub const GEARCOLECO: CoreSpec = CoreSpec::Gearcoleco;
pub const PICODRIVE: CoreSpec = CoreSpec::Picodrive;

/// Buildbot name, without the `_libretro` suffix.
pub open spec fn core_name(c: CoreSpec) -> Seq<char> {
    match c {
        CoreSpec::Fceumm => "fceumm"@,
        CoreSpec::Snes9x => "snes9x"@,
        CoreSpec::Mgba => "mgba"@,
        CoreSpec::GenesisPlusGx => "genesis_plus_gx"@,
        CoreSpec::Stella => "stella"@,
        CoreSpec::Prosystem => "prosystem"@,
        CoreSpec::MednafenPce => "mednafen_pce_fast"@,
        CoreSpec::MednafenWswan => "mednafen_wswan"@,
        CoreSpec::MednafenNgp => "mednafen_ngp"@,
        CoreSpec::MednafenVb => "mednafen_vb"@,
        CoreSpec::Handy => "handy"@,
        CoreSpec::Atari800 => "atari800"@,
        CoreSpec::Gearcoleco => "gearcoleco"@,
        CoreSpec::Picodrive => "picodrive"@,
    }
}

/// Files that must exist in the system directory before the game is loaded.
/// Checked beforehand, because a missing BIOS is not always a clean refusal —
/// Handy segfaults inside `retro_load_game` without `lynxboot.img`.
pub open spec fn core_bios(c: CoreSpec) -> Seq<Seq<char>> {
    match c {
        CoreSpec::Handy => seq!["lynxboot.img"@],
        CoreSpec::Gearcoleco => seq!["colecovision.rom"@],
        _ => Seq::empty(),
    }
}

/// Human name for the interface.
pub open spec fn core_display(c: CoreSpec) -> Seq<char> {
    match c {
        CoreSpec::Fceumm => "FCEUmm"@,
        CoreSpec::Snes9x => "Snes9x"@,
        CoreSpec::Mgba => "mGBA"@,
        CoreSpec::GenesisPlusGx => "Genesis Plus GX"@,
        CoreSpec::Stella => "Stella"@,
        CoreSpec::Prosystem => "ProSystem"@,
        CoreSpec::MednafenPce => "Beetle PCE Fast"@,
        CoreSpec::MednafenWswan => "Beetle WonderSwan"@,
        CoreSpec::MednafenNgp => "Beetle NeoPop"@,
        CoreSpec::MednafenVb => "Beetle VB"@,
        CoreSpec::Handy => "Handy"@,
        CoreSpec::Atari800 => "Atari800"@,
        CoreSpec::Gearcoleco => "Gearcoleco"@,
        CoreSpec::Picodrive => "PicoDrive"@,
    }
}

/// The licence a core is distributed under.
pub open spec fn core_licence(c: CoreSpec) -> Seq<char> {
    match c {
        CoreSpec::Fceumm => "GPL-2.0-or-later"@,
        CoreSpec::Snes9x => "non-commercial, personal use only"@,
        CoreSpec::Mgba => "MPL-2.0"@,
        CoreSpec::GenesisPlusGx => "non-commercial (see core source, not its LICENSE.txt)"@,
        CoreSpec::Stella => "GPL-2.0-or-later"@,
        CoreSpec::Prosystem => "GPL-2.0-or-later"@,
        CoreSpec::MednafenPce => "GPL-2.0-or-later"@,
        CoreSpec::MednafenWswan => "GPL-2.0-or-later"@,
        CoreSpec::MednafenNgp => "GPL-2.0-or-later"@,
        CoreSpec::MednafenVb => "GPL-2.0-or-later"@,
        CoreSpec::Handy => "Zlib"@,
        CoreSpec::Atari800 => "GPL-2.0-or-later"@,
        CoreSpec::Gearcoleco => "GPL-3.0-or-later"@,
        CoreSpec::Picodrive => "non-commercial (MAME-derived)"@,
    }
}

impl CoreSpec {
    /// Buildbot name, without the `_libretro` suffix.
    pub fn name(self) -> (s: &'static str)
        ensures
            s@ == core_name(self),
    {
        match self {
            CoreSpec::Fceumm => "fceumm",
            CoreSpec::Snes9x => "snes9x",
            CoreSpec::Mgba => "mgba",
            CoreSpec::GenesisPlusGx => "genesis_plus_gx",
            CoreSpec::Stella => "stella",
            CoreSpec::Prosystem => "prosystem",
            CoreSpec::MednafenPce => "mednafen_pce_fast",
            CoreSpec::MednafenWswan => "mednafen_wswan",
            CoreSpec::MednafenNgp => "mednafen_ngp",
            CoreSpec::MednafenVb => "mednafen_vb",
            CoreSpec::Handy => "handy",
            CoreSpec::Atari800 => "atari800",
            CoreSpec::Gearcoleco => "gearcoleco",
            CoreSpec::Picodrive => "picodrive",
        }
    }

    /// Human name for the UI.
    pub fn display(self) -> (s: &'static str)
        ensures
            s@ == core_display(self),
    {
        match self {
            CoreSpec::Fceumm => "FCEUmm",
            CoreSpec::Snes9x => "Snes9x",
            CoreSpec::Mgba => "mGBA",
            CoreSpec::GenesisPlusGx => "Genesis Plus GX",
            CoreSpec::Stella => "Stella",
            CoreSpec::Prosystem => "ProSystem",
            CoreSpec::MednafenPce => "Beetle PCE Fast",
            CoreSpec::MednafenWswan => "Beetle WonderSwan",
            CoreSpec::MednafenNgp => "Beetle NeoPop",
            CoreSpec::MednafenVb => "Beetle VB",
            CoreSpec::Handy => "Handy",
            CoreSpec::Atari800 => "Atari800",
            CoreSpec::Gearcoleco => "Gearcoleco",
            CoreSpec::Picodrive => "PicoDrive",
        }
    }

    /// Shown wherever the core is named, so a non-free licence is never a
    /// surprise.
    pub fn licence(self) -> (s: &'static str)
        ensures
            s@ == core_licence(self),
    {
        match self {
            CoreSpec::Fceumm => "GPL-2.0-or-later",
            CoreSpec::Snes9x => "non-commercial, personal use only",
            CoreSpec::Mgba => "MPL-2.0",
            CoreSpec::GenesisPlusGx => "non-commercial (see core source, not its LICENSE.txt)",
            CoreSpec::Stella => "GPL-2.0-or-later",
            CoreSpec::Prosystem => "GPL-2.0-or-later",
            CoreSpec::MednafenPce => "GPL-2.0-or-later",
            CoreSpec::MednafenWswan => "GPL-2.0-or-later",
            CoreSpec::MednafenNgp => "GPL-2.0-or-later",
            CoreSpec::MednafenVb => "GPL-2.0-or-later",
            CoreSpec::Handy => "Zlib",
            CoreSpec::Atari800 => "GPL-2.0-or-later",
            CoreSpec::Gearcoleco => "GPL-3.0-or-later",
            CoreSpec::Picodrive => "non-commercial (MAME-derived)",
        }
    }

    /// BIOS files this core needs in the system directory.
    pub fn required_bios(self) -> (files: Vec<&'static str>)
        ensures
            files@.map_values(|f: &str| f@) == core_bios(self),
    {
        let mut v: Vec<&'static str> = Vec::new();
        match self {
            CoreSpec::Handy => {
                v.push("lynxboot.img");
            },
            CoreSpec::Gearcoleco => {
                v.push("colecovision.rom");
            },
            _ => {},
        }
        assert(v@.map_values(|f: &str| f@) =~= core_bios(self));
        v
    }
}

/// Why a platform has no embedded core. Shown to the user verbatim, so it
/// reads as an explanation rather than an error.
#[derive(Debug, Clone, Copy, PartialEq, Eq)]
pub enum NoCore {
    /// Emulating it needs a hardware render context, which is never provided.
    NeedsGpu(&'static str),
    /// No suitable software core, or not worth the support burden.
    Unsupported(&'static str),
}

impl NoCore {
    pub fn message(&self) -> (m: &'static str)
        ensures
            match *self {
                NoCore::NeedsGpu(s) => m == s,
                NoCore::Unsupported(s) => m == s,
            },
    {
        match self {
            NoCore::NeedsGpu(m) => m,
            NoCore::Unsupported(m) => m,
        }
    }
}

/// Slug aliases, per core.
pub open spec fn slugs_for(c: CoreSpec) -> Seq<Seq<char>> {
    match c {
        CoreSpec::Fceumm => seq!["nes"@, "famicom"@, "family-computer"@, "nintendo-entertainment-system"@, "fds"@],
        CoreSpec::Snes9x => seq![
            "snes"@,
            "sfc"@,
            "super-nintendo-entertainment-system"@,
            "super-famicom"@,
            "snes-slash-super-famicom"@,
        ],
        CoreSpec::Mgba => seq!["gb"@, "game-boy"@, "gbc"@, "game-boy-color"@, "gba"@, "game-boy-advance"@],
        CoreSpec::GenesisPlusGx => seq![
            "genesis"@,
            "megadrive"@,
            "mega-drive"@,
            "genesis-slash-megadrive"@,
            "sega-mega-drive-genesis"@,
            "sms"@,
            "sega-master-system"@,
            "sega-master-system-slash-mark-iii"@,
            "gamegear"@,
            "game-gear"@,
            "gg"@,
            "sg1000"@,
        ],
        CoreSpec::Picodrive => seq!["sega32"@, "sega32x"@, "sega-32x"@, "32x"@],
        CoreSpec::Stella => seq!["atari2600"@, "atari-2600"@],
        CoreSpec::Prosystem => seq!["atari7800"@, "atari-7800"@],
        CoreSpec::Atari800 => seq!["atari5200"@, "atari-5200"@, "atari8bit"@, "atari-8-bit"@],
        CoreSpec::Gearcoleco => seq!["colecovision"@],
        CoreSpec::Handy => seq!["lynx"@, "atari-lynx"@],
        CoreSpec::MednafenPce => seq![
            "turbografx16--1"@,
            "turbografx-16-slash-pc-engine"@,
            "pc-engine"@,
            "pce"@,
            "tg16"@,
        ],
        CoreSpec::MednafenWswan => seq!["wonderswan"@, "wonderswan-color"@, "ws"@],
        CoreSpec::MednafenNgp => seq!["ngp"@, "neo-geo-pocket"@, "neo-geo-pocket-color"@],
        CoreSpec::MednafenVb => seq!["virtualboy"@, "virtual-boy"@, "vb"@],
    }
}

/// The slug as it is matched: trimmed and ASCII lower-cased.
pub open spec fn slug_key(slug: Seq<char>) -> Seq<char> {
    lower_seq(trim(slug))
}

/// Normalising a slug twice gives the key once: trimming and lower-casing an
/// already normalised slug changes nothing, so case and surrounding
/// whitespace never change which core a slug gets.
pub proof fn lemma_slug_key_is_idempotent(slug: Seq<char>)
    ensures
        slug_key(slug_key(slug)) == slug_key(slug),
        core_for_key(slug_key(slug_key(slug))) == core_for_key(slug_key(slug)),
{
    let t = trim(slug);
    let l = lower_seq(t);
    lemma_trim_edges(slug);
    if l.len() > 0 {
        lemma_lower_char(t[0]);
        lemma_lower_char(t.last());
        assert(l[0] == lower(t[0]));
        assert(l.last() == lower(t.last()));
    }
    lemma_trim_of_trimmed(l);
    assert forall|i: int| 0 <= i < l.len() implies #[trigger] lower_seq(l)[i] == l[i] by {
        lemma_lower_char(t[i]);
    }
    assert(lower_seq(l) =~= l);
}

/// The core a normalised slug maps to, if any.
pub open spec fn core_for_key(key: Seq<char>) -> Option<CoreSpec> {
    if slugs_for(CoreSpec::Fceumm).contains(key) {
        Some(CoreSpec::Fceumm)
    } else if slugs_for(CoreSpec::Snes9x).contains(key) {
        Some(CoreSpec::Snes9x)
    } else if slugs_for(CoreSpec::Mgba).contains(key) {
        Some(CoreSpec::Mgba)
    } else if slugs_for(CoreSpec::GenesisPlusGx).contains(key) {
        Some(CoreSpec::GenesisPlusGx)
    } else if slugs_for(CoreSpec::Picodrive).contains(key) {
        Some(CoreSpec::Picodrive)
    } else if slugs_for(CoreSpec::Stella).contains(key) {
        Some(CoreSpec::Stella)
    } else if slugs_for(CoreSpec::Prosystem).contains(key) {
        Some(CoreSpec::Prosystem)
    } else if slugs_for(CoreSpec::Atari800).contains(key) {
        Some(CoreSpec::Atari800)
    } else if slugs_for(CoreSpec::Gearcoleco).contains(key) {
        Some(CoreSpec::Gearcoleco)
    } else if slugs_for(CoreSpec::Handy).contains(key) {
        Some(CoreSpec::Handy)
    } else if slugs_for(CoreSpec::MednafenPce).contains(key) {
        Some(CoreSpec::MednafenPce)
    } else if slugs_for(CoreSpec::MednafenWswan).contains(key) {
        Some(CoreSpec::MednafenWswan)
    } else if slugs_for(CoreSpec::MednafenNgp).contains(key) {
        Some(CoreSpec::MednafenNgp)
    } else if slugs_for(CoreSpec::MednafenVb).contains(key) {
        Some(CoreSpec::MednafenVb)
    } else {
        None
    }
}

/// What tells the console slugs apart: length, first and last letter, and
/// the fourth letter from the end (`atari2600` against `atari7800`).
spec fn shape(s: Seq<char>) -> (nat, char, char, char) {
    (s.len(), s[0], s[s.len() - 1], if s.len() >= 4 { s[s.len() - 4] } else { ' ' })
}

/// Names whose shapes no listed name has are not listed.
proof fn lemma_apart(l: Seq<Seq<char>>, ks: Seq<Seq<char>>)
    requires
        forall|i: int, j: int| 0 <= i < l.len() && 0 <= j < ks.len() ==> shape(#[trigger] l[i]) != shape(#[trigger] ks[j]),
    ensures
        forall|j: int| 0 <= j < ks.len() ==> !l.contains(#[trigger] ks[j]),
{
    assert forall|j: int| 0 <= j < ks.len() implies !l.contains(#[trigger] ks[j]) by {
        if l.contains(ks[j]) {
            let i = choose|i: int| 0 <= i < l.len() && l[i] == ks[j];
            assert(shape(l[i]) != shape(ks[j]));
        }
    }
}

/// The shape of every listed slug.
proof fn lemma_listed_shapes()
    ensures
        shape("nes"@) == (3nat, 'n', 's', ' '),
        shape("famicom"@) == (7nat, 'f', 'm', 'i'),
        shape("family-computer"@) == (15nat, 'f', 'r', 'u'),
        shape("nintendo-entertainment-system"@) == (29nat, 'n', 'm', 's'),
        shape("fds"@) == (3nat, 'f', 's', ' '),
        shape("snes"@) == (4nat, 's', 's', 's'),
        shape("sfc"@) == (3nat, 's', 'c', ' '),
        shape("super-nintendo-entertainment-system"@) == (35nat, 's', 'm', 's'),
        shape("super-famicom"@) == (13nat, 's', 'm', 'i'),
        shape("snes-slash-super-famicom"@) == (24nat, 's', 'm', 'i'),
        shape("gb"@) == (2nat, 'g', 'b', ' '),
        shape("game-boy"@) == (8nat, 'g', 'y', '-'),
        shape("gbc"@) == (3nat, 'g', 'c', ' '),
        shape("game-boy-color"@) == (14nat, 'g', 'r', 'o'),
        shape("gba"@) == (3nat, 'g', 'a', ' '),
        shape("game-boy-advance"@) == (16nat, 'g', 'e', 'a'),
        shape("genesis"@) == (7nat, 'g', 's', 'e'),
        shape("megadrive"@) == (9nat, 'm', 'e', 'r'),
        shape("mega-drive"@) == (10nat, 'm', 'e', 'r'),
        shape("genesis-slash-megadrive"@) == (23nat, 'g', 'e', 'r'),
        shape("sega-mega-drive-genesis"@) == (23nat, 's', 's', 'e'),
        shape("sms"@) == (3nat, 's', 's', ' '),
        shape("sega-master-system"@) == (18nat, 's', 'm', 's'),
        shape("sega-master-system-slash-mark-iii"@) == (33nat, 's', 'i', '-'),
        shape("gamegear"@) == (8nat, 'g', 'r', 'g'),
        shape("game-gear"@) == (9nat, 'g', 'r', 'g'),
        shape("gg"@) == (2nat, 'g', 'g', ' '),
        shape("sg1000"@) == (6nat, 's', '0', '1'),
        shape("sega32"@) == (6nat, 's', '2', 'g'),
        shape("sega32x"@) == (7nat, 's', 'x', 'a'),
        shape("sega-32x"@) == (8nat, 's', 'x', '-'),
        shape("32x"@) == (3nat, '3', 'x', ' '),
        shape("atari2600"@) == (9nat, 'a', '0', '2'),
        shape("atari-2600"@) == (10nat, 'a', '0', '2'),
        shape("atari7800"@) == (9nat, 'a', '0', '7'),
        shape("atari-7800"@) == (10nat, 'a', '0', '7'),
        shape("atari5200"@) == (9nat, 'a', '0', '5'),
        shape("atari-5200"@) == (10nat, 'a', '0', '5'),
        shape("atari8bit"@) == (9nat, 'a', 't', '8'),
        shape("atari-8-bit"@) == (11nat, 'a', 't', '-'),
        shape("colecovision"@) == (12nat, 'c', 'n', 's'),
        shape("lynx"@) == (4nat, 'l', 'x', 'l'),
        shape("atari-lynx"@) == (10nat, 'a', 'x', 'l'),
        shape("turbografx16--1"@) == (15nat, 't', '1', '6'),
        shape("turbografx-16-slash-pc-engine"@) == (29nat, 't', 'e', 'g'),
        shape("pc-engine"@) == (9nat, 'p', 'e', 'g'),
        shape("pce"@) == (3nat, 'p', 'e', ' '),
        shape("tg16"@) == (4nat, 't', '6', 't'),
        shape("wonderswan"@) == (10nat, 'w', 'n', 's'),
        shape("wonderswan-color"@) == (16nat, 'w', 'r', 'o'),
        shape("ws"@) == (2nat, 'w', 's', ' '),
        shape("ngp"@) == (3nat, 'n', 'p', ' '),
        shape("neo-geo-pocket"@) == (14nat, 'n', 't', 'c'),
        shape("neo-geo-pocket-color"@) == (20nat, 'n', 'r', 'o'),
        shape("virtualboy"@) == (10nat, 'v', 'y', 'l'),
        shape("virtual-boy"@) == (11nat, 'v', 'y', '-'),
        shape("vb"@) == (2nat, 'v', 'b', ' '),
{
    reveal_strlit("nes");
    reveal_strlit("famicom");
    reveal_strlit("family-computer");
    reveal_strlit("nintendo-entertainment-system");
    reveal_strlit("fds");
    reveal_strlit("snes");
    reveal_strlit("sfc");
    reveal_strlit("super-nintendo-entertainment-system");
    reveal_strlit("super-famicom");
    reveal_strlit("snes-slash-super-famicom");
    reveal_strlit("gb");
    reveal_strlit("game-boy");
    reveal_strlit("gbc");
    reveal_strlit("game-boy-color");
    reveal_strlit("gba");
    reveal_strlit("game-boy-advance");
    reveal_strlit("genesis");
    reveal_strlit("megadrive");
    reveal_strlit("mega-drive");
    reveal_strlit("genesis-slash-megadrive");
    reveal_strlit("sega-mega-drive-genesis");
    reveal_strlit("sms");
    reveal_strlit("sega-master-system");
    reveal_strlit("sega-master-system-slash-mark-iii");
    reveal_strlit("gamegear");
    reveal_strlit("game-gear");
    reveal_strlit("gg");
    reveal_strlit("sg1000");
    reveal_strlit("sega32");
    reveal_strlit("sega32x");
    reveal_strlit("sega-32x");
    reveal_strlit("32x");
    reveal_strlit("atari2600");
    reveal_strlit("atari-2600");
    reveal_strlit("atari7800");
    reveal_strlit("atari-7800");
    reveal_strlit("atari5200");
    reveal_strlit("atari-5200");
    reveal_strlit("atari8bit");
    reveal_strlit("atari-8-bit");
    reveal_strlit("colecovision");
    reveal_strlit("lynx");
    reveal_strlit("atari-lynx");
    reveal_strlit("turbografx16--1");
    reveal_strlit("turbografx-16-slash-pc-engine");
    reveal_strlit("pc-engine");
    reveal_strlit("pce");
    reveal_strlit("tg16");
    reveal_strlit("wonderswan");
    reveal_strlit("wonderswan-color");
    reveal_strlit("ws");
    reveal_strlit("ngp");
    reveal_strlit("neo-geo-pocket");
    reveal_strlit("neo-geo-pocket-color");
    reveal_strlit("virtualboy");
    reveal_strlit("virtual-boy");
    reveal_strlit("vb");
}

proof fn lemma_slugs_reach_fceumm()
    ensures
        core_for_key("nes"@) == Some(CoreSpec::Fceumm),
        core_for_key("famicom"@) == Some(CoreSpec::Fceumm),
        core_for_key("family-computer"@) == Some(CoreSpec::Fceumm),
        core_for_key("nintendo-entertainment-system"@) == Some(CoreSpec::Fceumm),
        core_for_key("fds"@) == Some(CoreSpec::Fceumm),
{
    lemma_listed_shapes();
    assert(slugs_for(CoreSpec::Fceumm)[0] == "nes"@);
    assert(slugs_for(CoreSpec::Fceumm)[1] == "famicom"@);
    assert(slugs_for(CoreSpec::Fceumm)[2] == "family-computer"@);
    assert(slugs_for(CoreSpec::Fceumm)[3] == "nintendo-entertainment-system"@);
    assert(slugs_for(CoreSpec::Fceumm)[4] == "fds"@);
}

proof fn lemma_slugs_reach_snes9x()
    ensures
        core_for_key("snes"@) == Some(CoreSpec::Snes9x),
        core_for_key("sfc"@) == Some(CoreSpec::Snes9x),
        core_for_key("super-nintendo-entertainment-system"@) == Some(CoreSpec::Snes9x),
        core_for_key("super-famicom"@) == Some(CoreSpec::Snes9x),
        core_for_key("snes-slash-super-famicom"@) == Some(CoreSpec::Snes9x),
{
    lemma_listed_shapes();
    lemma_apart(slugs_for(CoreSpec::Fceumm), slugs_for(CoreSpec::Snes9x));
    assert(slugs_for(CoreSpec::Snes9x)[0] == "snes"@);
    assert(slugs_for(CoreSpec::Snes9x)[1] == "sfc"@);
    assert(slugs_for(CoreSpec::Snes9x)[2] == "super-nintendo-entertainment-system"@);
    assert(slugs_for(CoreSpec::Snes9x)[3] == "super-famicom"@);
    assert(slugs_for(CoreSpec::Snes9x)[4] == "snes-slash-super-famicom"@);
}

proof fn lemma_slugs_reach_mgba()
    ensures
        core_for_key("gb"@) == Some(CoreSpec::Mgba),
        core_for_key("game-boy"@) == Some(CoreSpec::Mgba),
        core_for_key("gbc"@) == Some(CoreSpec::Mgba),
        core_for_key("game-boy-color"@) == Some(CoreSpec::Mgba),
        core_for_key("gba"@) == Some(CoreSpec::Mgba),
        core_for_key("game-boy-advance"@) == Some(CoreSpec::Mgba),
{
    lemma_listed_shapes();
    lemma_apart(slugs_for(CoreSpec::Fceumm), slugs_for(CoreSpec::Mgba));
    lemma_apart(slugs_for(CoreSpec::Snes9x), slugs_for(CoreSpec::Mgba));
    assert(slugs_for(CoreSpec::Mgba)[0] == "gb"@);
    assert(slugs_for(CoreSpec::Mgba)[1] == "game-boy"@);
    assert(slugs_for(CoreSpec::Mgba)[2] == "gbc"@);
    assert(slugs_for(CoreSpec::Mgba)[3] == "game-boy-color"@);
    assert(slugs_for(CoreSpec::Mgba)[4] == "gba"@);
    assert(slugs_for(CoreSpec::Mgba)[5] == "game-boy-advance"@);
}

proof fn lemma_slugs_reach_genesisplusgx()
    ensures
        core_for_key("genesis"@) == Some(CoreSpec::GenesisPlusGx),
        core_for_key("megadrive"@) == Some(CoreSpec::GenesisPlusGx),
        core_for_key("mega-drive"@) == Some(CoreSpec::GenesisPlusGx),
        core_for_key("genesis-slash-megadrive"@) == Some(CoreSpec::GenesisPlusGx),
        core_for_key("sega-mega-drive-genesis"@) == Some(CoreSpec::GenesisPlusGx),
        core_for_key("sms"@) == Some(CoreSpec::GenesisPlusGx),
        core_for_key("sega-master-system"@) == Some(CoreSpec::GenesisPlusGx),
        core_for_key("sega-master-system-slash-mark-iii"@) == Some(CoreSpec::GenesisPlusGx),
        core_for_key("gamegear"@) == Some(CoreSpec::GenesisPlusGx),
        core_for_key("game-gear"@) == Some(CoreSpec::GenesisPlusGx),
        core_for_key("gg"@) == Some(CoreSpec::GenesisPlusGx),
        core_for_key("sg1000"@) == Some(CoreSpec::GenesisPlusGx),
{
    lemma_listed_shapes();
    lemma_apart(slugs_for(CoreSpec::Fceumm), slugs_for(CoreSpec::GenesisPlusGx));
    lemma_apart(slugs_for(CoreSpec::Snes9x), slugs_for(CoreSpec::GenesisPlusGx));
    lemma_apart(slugs_for(CoreSpec::Mgba), slugs_for(CoreSpec::GenesisPlusGx));
    assert(slugs_for(CoreSpec::GenesisPlusGx)[0] == "genesis"@);
    assert(slugs_for(CoreSpec::GenesisPlusGx)[1] == "megadrive"@);
    assert(slugs_for(CoreSpec::GenesisPlusGx)[2] == "mega-drive"@);
    assert(slugs_for(CoreSpec::GenesisPlusGx)[3] == "genesis-slash-megadrive"@);
    assert(slugs_for(CoreSpec::GenesisPlusGx)[4] == "sega-mega-drive-genesis"@);
    assert(slugs_for(CoreSpec::GenesisPlusGx)[5] == "sms"@);
    assert(slugs_for(CoreSpec::GenesisPlusGx)[6] == "sega-master-system"@);
    assert(slugs_for(CoreSpec::GenesisPlusGx)[7] == "sega-master-system-slash-mark-iii"@);
    assert(slugs_for(CoreSpec::GenesisPlusGx)[8] == "gamegear"@);
    assert(slugs_for(CoreSpec::GenesisPlusGx)[9] == "game-gear"@);
    assert(slugs_for(CoreSpec::GenesisPlusGx)[10] == "gg"@);
    assert(slugs_for(CoreSpec::GenesisPlusGx)[11] == "sg1000"@);
}

proof fn lemma_slugs_reach_picodrive()
    ensures
        core_for_key("sega32"@) == Some(CoreSpec::Picodrive),
        core_for_key("sega32x"@) == Some(CoreSpec::Picodrive),
        core_for_key("sega-32x"@) == Some(CoreSpec::Picodrive),
        core_for_key("32x"@) == Some(CoreSpec::Picodrive),
{
    lemma_listed_shapes();
    lemma_apart(slugs_for(CoreSpec::Fceumm), slugs_for(CoreSpec::Picodrive));
    lemma_apart(slugs_for(CoreSpec::Snes9x), slugs_for(CoreSpec::Picodrive));
    lemma_apart(slugs_for(CoreSpec::Mgba), slugs_for(CoreSpec::Picodrive));
    lemma_apart(slugs_for(CoreSpec::GenesisPlusGx), slugs_for(CoreSpec::Picodrive));
    assert(slugs_for(CoreSpec::Picodrive)[0] == "sega32"@);
    assert(slugs_for(CoreSpec::Picodrive)[1] == "sega32x"@);
    assert(slugs_for(CoreSpec::Picodrive)[2] == "sega-32x"@);
    assert(slugs_for(CoreSpec::Picodrive)[3] == "32x"@);
}

proof fn lemma_slugs_reach_stella()
    ensures
        core_for_key("atari2600"@) == Some(CoreSpec::Stella),
        core_for_key("atari-2600"@) == Some(CoreSpec::Stella),
{
    lemma_listed_shapes();
    lemma_apart(slugs_for(CoreSpec::Fceumm), slugs_for(CoreSpec::Stella));
    lemma_apart(slugs_for(CoreSpec::Snes9x), slugs_for(CoreSpec::Stella));
    lemma_apart(slugs_for(CoreSpec::Mgba), slugs_for(CoreSpec::Stella));
    lemma_apart(slugs_for(CoreSpec::GenesisPlusGx), slugs_for(CoreSpec::Stella));
    lemma_apart(slugs_for(CoreSpec::Picodrive), slugs_for(CoreSpec::Stella));
    assert(slugs_for(CoreSpec::Stella)[0] == "atari2600"@);
    assert(slugs_for(CoreSpec::Stella)[1] == "atari-2600"@);
}

proof fn lemma_slugs_reach_prosystem()
    ensures
        core_for_key("atari7800"@) == Some(CoreSpec::Prosystem),
        core_for_key("atari-7800"@) == Some(CoreSpec::Prosystem),
{
    lemma_listed_shapes();
    lemma_apart(slugs_for(CoreSpec::Fceumm), slugs_for(CoreSpec::Prosystem));
    lemma_apart(slugs_for(CoreSpec::Snes9x), slugs_for(CoreSpec::Prosystem));
    lemma_apart(slugs_for(CoreSpec::Mgba), slugs_for(CoreSpec::Prosystem));
    lemma_apart(slugs_for(CoreSpec::GenesisPlusGx), slugs_for(CoreSpec::Prosystem));
    lemma_apart(slugs_for(CoreSpec::Picodrive), slugs_for(CoreSpec::Prosystem));
    lemma_apart(slugs_for(CoreSpec::Stella), slugs_for(CoreSpec::Prosystem));
    assert(slugs_for(CoreSpec::Prosystem)[0] == "atari7800"@);
    assert(slugs_for(CoreSpec::Prosystem)[1] == "atari-7800"@);
}

proof fn lemma_slugs_reach_atari800()
    ensures
        core_for_key("atari5200"@) == Some(CoreSpec::Atari800),
        core_for_key("atari-5200"@) == Some(CoreSpec::Atari800),
        core_for_key("atari8bit"@) == Some(CoreSpec::Atari800),
        core_for_key("atari-8-bit"@) == Some(CoreSpec::Atari800),
{
    lemma_listed_shapes();
    lemma_apart(slugs_for(CoreSpec::Fceumm), slugs_for(CoreSpec::Atari800));
    lemma_apart(slugs_for(CoreSpec::Snes9x), slugs_for(CoreSpec::Atari800));
    lemma_apart(slugs_for(CoreSpec::Mgba), slugs_for(CoreSpec::Atari800));
    lemma_apart(slugs_for(CoreSpec::GenesisPlusGx), slugs_for(CoreSpec::Atari800));
    lemma_apart(slugs_for(CoreSpec::Picodrive), slugs_for(CoreSpec::Atari800));
    lemma_apart(slugs_for(CoreSpec::Stella), slugs_for(CoreSpec::Atari800));
    lemma_apart(slugs_for(CoreSpec::Prosystem), slugs_for(CoreSpec::Atari800));
    assert(slugs_for(CoreSpec::Atari800)[0] == "atari5200"@);
    assert(slugs_for(CoreSpec::Atari800)[1] == "atari-5200"@);
    assert(slugs_for(CoreSpec::Atari800)[2] == "atari8bit"@);
    assert(slugs_for(CoreSpec::Atari800)[3] == "atari-8-bit"@);
}

proof fn lemma_slugs_reach_gearcoleco()
    ensures
        core_for_key("colecovision"@) == Some(CoreSpec::Gearcoleco),
{
    lemma_listed_shapes();
    lemma_apart(slugs_for(CoreSpec::Fceumm), slugs_for(CoreSpec::Gearcoleco));
    lemma_apart(slugs_for(CoreSpec::Snes9x), slugs_for(CoreSpec::Gearcoleco));
    lemma_apart(slugs_for(CoreSpec::Mgba), slugs_for(CoreSpec::Gearcoleco));
    lemma_apart(slugs_for(CoreSpec::GenesisPlusGx), slugs_for(CoreSpec::Gearcoleco));
    lemma_apart(slugs_for(CoreSpec::Picodrive), slugs_for(CoreSpec::Gearcoleco));
    lemma_apart(slugs_for(CoreSpec::Stella), slugs_for(CoreSpec::Gearcoleco));
    lemma_apart(slugs_for(CoreSpec::Prosystem), slugs_for(CoreSpec::Gearcoleco));
    lemma_apart(slugs_for(CoreSpec::Atari800), slugs_for(CoreSpec::Gearcoleco));
    assert(slugs_for(CoreSpec::Gearcoleco)[0] == "colecovision"@);
}

proof fn lemma_slugs_reach_handy()
    ensures
        core_for_key("lynx"@) == Some(CoreSpec::Handy),
        core_for_key("atari-lynx"@) == Some(CoreSpec::Handy),
{
    lemma_listed_shapes();
    lemma_apart(slugs_for(CoreSpec::Fceumm), slugs_for(CoreSpec::Handy));
    lemma_apart(slugs_for(CoreSpec::Snes9x), slugs_for(CoreSpec::Handy));
    lemma_apart(slugs_for(CoreSpec::Mgba), slugs_for(CoreSpec::Handy));
    lemma_apart(slugs_for(CoreSpec::GenesisPlusGx), slugs_for(CoreSpec::Handy));
    lemma_apart(slugs_for(CoreSpec::Picodrive), slugs_for(CoreSpec::Handy));
    lemma_apart(slugs_for(CoreSpec::Stella), slugs_for(CoreSpec::Handy));
    lemma_apart(slugs_for(CoreSpec::Prosystem), slugs_for(CoreSpec::Handy));
    lemma_apart(slugs_for(CoreSpec::Atari800), slugs_for(CoreSpec::Handy));
    lemma_apart(slugs_for(CoreSpec::Gearcoleco), slugs_for(CoreSpec::Handy));
    assert(slugs_for(CoreSpec::Handy)[0] == "lynx"@);
    assert(slugs_for(CoreSpec::Handy)[1] == "atari-lynx"@);
}

proof fn lemma_slugs_reach_mednafenpce()
    ensures
        core_for_key("turbografx16--1"@) == Some(CoreSpec::MednafenPce),
        core_for_key("turbografx-16-slash-pc-engine"@) == Some(CoreSpec::MednafenPce),
        core_for_key("pc-engine"@) == Some(CoreSpec::MednafenPce),
        core_for_key("pce"@) == Some(CoreSpec::MednafenPce),
        core_for_key("tg16"@) == Some(CoreSpec::MednafenPce),
{
    lemma_listed_shapes();
    lemma_apart(slugs_for(CoreSpec::Fceumm), slugs_for(CoreSpec::MednafenPce));
    lemma_apart(slugs_for(CoreSpec::Snes9x), slugs_for(CoreSpec::MednafenPce));
    lemma_apart(slugs_for(CoreSpec::Mgba), slugs_for(CoreSpec::MednafenPce));
    lemma_apart(slugs_for(CoreSpec::GenesisPlusGx), slugs_for(CoreSpec::MednafenPce));
    lemma_apart(slugs_for(CoreSpec::Picodrive), slugs_for(CoreSpec::MednafenPce));
    lemma_apart(slugs_for(CoreSpec::Stella), slugs_for(CoreSpec::MednafenPce));
    lemma_apart(slugs_for(CoreSpec::Prosystem), slugs_for(CoreSpec::MednafenPce));
    lemma_apart(slugs_for(CoreSpec::Atari800), slugs_for(CoreSpec::MednafenPce));
    lemma_apart(slugs_for(CoreSpec::Gearcoleco), slugs_for(CoreSpec::MednafenPce));
    lemma_apart(slugs_for(CoreSpec::Handy), slugs_for(CoreSpec::MednafenPce));
    assert(slugs_for(CoreSpec::MednafenPce)[0] == "turbografx16--1"@);
    assert(slugs_for(CoreSpec::MednafenPce)[1] == "turbografx-16-slash-pc-engine"@);
    assert(slugs_for(CoreSpec::MednafenPce)[2] == "pc-engine"@);
    assert(slugs_for(CoreSpec::MednafenPce)[3] == "pce"@);
    assert(slugs_for(CoreSpec::MednafenPce)[4] == "tg16"@);
}

proof fn lemma_slugs_reach_mednafenwswan()
    ensures
        core_for_key("wonderswan"@) == Some(CoreSpec::MednafenWswan),
        core_for_key("wonderswan-color"@) == Some(CoreSpec::MednafenWswan),
        core_for_key("ws"@) == Some(CoreSpec::MednafenWswan),
{
    lemma_listed_shapes();
    lemma_apart(slugs_for(CoreSpec::Fceumm), slugs_for(CoreSpec::MednafenWswan));
    lemma_apart(slugs_for(CoreSpec::Snes9x), slugs_for(CoreSpec::MednafenWswan));
    lemma_apart(slugs_for(CoreSpec::Mgba), slugs_for(CoreSpec::MednafenWswan));
    lemma_apart(slugs_for(CoreSpec::GenesisPlusGx), slugs_for(CoreSpec::MednafenWswan));
    lemma_apart(slugs_for(CoreSpec::Picodrive), slugs_for(CoreSpec::MednafenWswan));
    lemma_apart(slugs_for(CoreSpec::Stella), slugs_for(CoreSpec::MednafenWswan));
    lemma_apart(slugs_for(CoreSpec::Prosystem), slugs_for(CoreSpec::MednafenWswan));
    lemma_apart(slugs_for(CoreSpec::Atari800), slugs_for(CoreSpec::MednafenWswan));
    lemma_apart(slugs_for(CoreSpec::Gearcoleco), slugs_for(CoreSpec::MednafenWswan));
    lemma_apart(slugs_for(CoreSpec::Handy), slugs_for(CoreSpec::MednafenWswan));
    lemma_apart(slugs_for(CoreSpec::MednafenPce), slugs_for(CoreSpec::MednafenWswan));
    assert(slugs_for(CoreSpec::MednafenWswan)[0] == "wonderswan"@);
    assert(slugs_for(CoreSpec::MednafenWswan)[1] == "wonderswan-color"@);
    assert(slugs_for(CoreSpec::MednafenWswan)[2] == "ws"@);
}

proof fn lemma_slugs_reach_mednafenngp()
    ensures
        core_for_key("ngp"@) == Some(CoreSpec::MednafenNgp),
        core_for_key("neo-geo-pocket"@) == Some(CoreSpec::MednafenNgp),
        core_for_key("neo-geo-pocket-color"@) == Some(CoreSpec::MednafenNgp),
{
    lemma_listed_shapes();
    lemma_apart(slugs_for(CoreSpec::Fceumm), slugs_for(CoreSpec::MednafenNgp));
    lemma_apart(slugs_for(CoreSpec::Snes9x), slugs_for(CoreSpec::MednafenNgp));
    lemma_apart(slugs_for(CoreSpec::Mgba), slugs_for(CoreSpec::MednafenNgp));
    lemma_apart(slugs_for(CoreSpec::GenesisPlusGx), slugs_for(CoreSpec::MednafenNgp));
    lemma_apart(slugs_for(CoreSpec::Picodrive), slugs_for(CoreSpec::MednafenNgp));
    lemma_apart(slugs_for(CoreSpec::Stella), slugs_for(CoreSpec::MednafenNgp));
    lemma_apart(slugs_for(CoreSpec::Prosystem), slugs_for(CoreSpec::MednafenNgp));
    lemma_apart(slugs_for(CoreSpec::Atari800), slugs_for(CoreSpec::MednafenNgp));
    lemma_apart(slugs_for(CoreSpec::Gearcoleco), slugs_for(CoreSpec::MednafenNgp));
    lemma_apart(slugs_for(CoreSpec::Handy), slugs_for(CoreSpec::MednafenNgp));
    lemma_apart(slugs_for(CoreSpec::MednafenPce), slugs_for(CoreSpec::MednafenNgp));
    lemma_apart(slugs_for(CoreSpec::MednafenWswan), slugs_for(CoreSpec::MednafenNgp));
    assert(slugs_for(CoreSpec::MednafenNgp)[0] == "ngp"@);
    assert(slugs_for(CoreSpec::MednafenNgp)[1] == "neo-geo-pocket"@);
    assert(slugs_for(CoreSpec::MednafenNgp)[2] == "neo-geo-pocket-color"@);
}

proof fn lemma_slugs_reach_mednafenvb()
    ensures
        core_for_key("virtualboy"@) == Some(CoreSpec::MednafenVb),
        core_for_key("virtual-boy"@) == Some(CoreSpec::MednafenVb),
        core_for_key("vb"@) == Some(CoreSpec::MednafenVb),
{
    lemma_listed_shapes();
    lemma_apart(slugs_for(CoreSpec::Fceumm), slugs_for(CoreSpec::MednafenVb));
    lemma_apart(slugs_for(CoreSpec::Snes9x), slugs_for(CoreSpec::MednafenVb));
    lemma_apart(slugs_for(CoreSpec::Mgba), slugs_for(CoreSpec::MednafenVb));
    lemma_apart(slugs_for(CoreSpec::GenesisPlusGx), slugs_for(CoreSpec::MednafenVb));
    lemma_apart(slugs_for(CoreSpec::Picodrive), slugs_for(CoreSpec::MednafenVb));
    lemma_apart(slugs_for(CoreSpec::Stella), slugs_for(CoreSpec::MednafenVb));
    lemma_apart(slugs_for(CoreSpec::Prosystem), slugs_for(CoreSpec::MednafenVb));
    lemma_apart(slugs_for(CoreSpec::Atari800), slugs_for(CoreSpec::MednafenVb));
    lemma_apart(slugs_for(CoreSpec::Gearcoleco), slugs_for(CoreSpec::MednafenVb));
    lemma_apart(slugs_for(CoreSpec::Handy), slugs_for(CoreSpec::MednafenVb));
    lemma_apart(slugs_for(CoreSpec::MednafenPce), slugs_for(CoreSpec::MednafenVb));
    lemma_apart(slugs_for(CoreSpec::MednafenWswan), slugs_for(CoreSpec::MednafenVb));
    lemma_apart(slugs_for(CoreSpec::MednafenNgp), slugs_for(CoreSpec::MednafenVb));
    assert(slugs_for(CoreSpec::MednafenVb)[0] == "virtualboy"@);
    assert(slugs_for(CoreSpec::MednafenVb)[1] == "virtual-boy"@);
    assert(slugs_for(CoreSpec::MednafenVb)[2] == "vb"@);
}

proof fn lemma_only_slugs_reach_fceumm(key: Seq<char>)
    requires
        core_for_key(key) == Some(CoreSpec::Fceumm),
    ensures
        key == "nes"@ || key == "famicom"@ || key == "family-computer"@ ||
            key == "nintendo-entertainment-system"@ || key == "fds"@,
{
    let l = slugs_for(CoreSpec::Fceumm);
    let i = choose|i: int| 0 <= i < l.len() && l[i] == key;
    assert(0 <= i < 5);
}

proof fn lemma_only_slugs_reach_snes9x(key: Seq<char>)
    requires
        core_for_key(key) == Some(CoreSpec::Snes9x),
    ensures
        key == "snes"@ || key == "sfc"@ || key == "super-nintendo-entertainment-system"@ ||
            key == "super-famicom"@ || key == "snes-slash-super-famicom"@,
{
    let l = slugs_for(CoreSpec::Snes9x);
    let i = choose|i: int| 0 <= i < l.len() && l[i] == key;
    assert(0 <= i < 5);
}

proof fn lemma_only_slugs_reach_mgba(key: Seq<char>)
    requires
        core_for_key(key) == Some(CoreSpec::Mgba),
    ensures
        key == "gb"@ || key == "game-boy"@ || key == "gbc"@ || key == "game-boy-color"@ ||
            key == "gba"@ || key == "game-boy-advance"@,
{
    let l = slugs_for(CoreSpec::Mgba);
    let i = choose|i: int| 0 <= i < l.len() && l[i] == key;
    assert(0 <= i < 6);
}

proof fn lemma_only_slugs_reach_genesisplusgx(key: Seq<char>)
    requires
        core_for_key(key) == Some(CoreSpec::GenesisPlusGx),
    ensures
        key == "genesis"@ || key == "megadrive"@ || key == "mega-drive"@ ||
            key == "genesis-slash-megadrive"@ || key == "sega-mega-drive-genesis"@ ||
            key == "sms"@ || key == "sega-master-system"@ ||
            key == "sega-master-system-slash-mark-iii"@ || key == "gamegear"@ ||
            key == "game-gear"@ || key == "gg"@ || key == "sg1000"@,
{
    let l = slugs_for(CoreSpec::GenesisPlusGx);
    let i = choose|i: int| 0 <= i < l.len() && l[i] == key;
    assert(0 <= i < 12);
}

proof fn lemma_only_slugs_reach_picodrive(key: Seq<char>)
    requires
        core_for_key(key) == Some(CoreSpec::Picodrive),
    ensures
        key == "sega32"@ || key == "sega32x"@ || key == "sega-32x"@ || key == "32x"@,
{
    let l = slugs_for(CoreSpec::Picodrive);
    let i = choose|i: int| 0 <= i < l.len() && l[i] == key;
    assert(0 <= i < 4);
}

proof fn lemma_only_slugs_reach_stella(key: Seq<char>)
    requires
        core_for_key(key) == Some(CoreSpec::Stella),
    ensures
        key == "atari2600"@ || key == "atari-2600"@,
{
    let l = slugs_for(CoreSpec::Stella);
    let i = choose|i: int| 0 <= i < l.len() && l[i] == key;
    assert(0 <= i < 2);
}

proof fn lemma_only_slugs_reach_prosystem(key: Seq<char>)
    requires
        core_for_key(key) == Some(CoreSpec::Prosystem),
    ensures
        key == "atari7800"@ || key == "atari-7800"@,
{
    let l = slugs_for(CoreSpec::Prosystem);
    let i = choose|i: int| 0 <= i < l.len() && l[i] == key;
    assert(0 <= i < 2);
}

proof fn lemma_only_slugs_reach_atari800(key: Seq<char>)
    requires
        core_for_key(key) == Some(CoreSpec::Atari800),
    ensures
        key == "atari5200"@ || key == "atari-5200"@ || key == "atari8bit"@ || key == "atari-8-bit"@,
{
    let l = slugs_for(CoreSpec::Atari800);
    let i = choose|i: int| 0 <= i < l.len() && l[i] == key;
    assert(0 <= i < 4);
}

proof fn lemma_only_slugs_reach_gearcoleco(key: Seq<char>)
    requires
        core_for_key(key) == Some(CoreSpec::Gearcoleco),
    ensures
        key == "colecovision"@,
{
    let l = slugs_for(CoreSpec::Gearcoleco);
    let i = choose|i: int| 0 <= i < l.len() && l[i] == key;
    assert(0 <= i < 1);
}

proof fn lemma_only_slugs_reach_handy(key: Seq<char>)
    requires
        core_for_key(key) == Some(CoreSpec::Handy),
    ensures
        key == "lynx"@ || key == "atari-lynx"@,
{
    let l = slugs_for(CoreSpec::Handy);
    let i = choose|i: int| 0 <= i < l.len() && l[i] == key;
    assert(0 <= i < 2);
}

proof fn lemma_only_slugs_reach_mednafenpce(key: Seq<char>)
    requires
        core_for_key(key) == Some(CoreSpec::MednafenPce),
    ensures
        key == "turbografx16--1"@ || key == "turbografx-16-slash-pc-engine"@ ||
            key == "pc-engine"@ || key == "pce"@ || key == "tg16"@,
{
    let l = slugs_for(CoreSpec::MednafenPce);
    let i = choose|i: int| 0 <= i < l.len() && l[i] == key;
    assert(0 <= i < 5);
}

proof fn lemma_only_slugs_reach_mednafenwswan(key: Seq<char>)
    requires
        core_for_key(key) == Some(CoreSpec::MednafenWswan),
    ensures
        key == "wonderswan"@ || key == "wonderswan-color"@ || key == "ws"@,
{
    let l = slugs_for(CoreSpec::MednafenWswan);
    let i = choose|i: int| 0 <= i < l.len() && l[i] == key;
    assert(0 <= i < 3);
}

proof fn lemma_only_slugs_reach_mednafenngp(key: Seq<char>)
    requires
        core_for_key(key) == Some(CoreSpec::MednafenNgp),
    ensures
        key == "ngp"@ || key == "neo-geo-pocket"@ || key == "neo-geo-pocket-color"@,
{
    let l = slugs_for(CoreSpec::MednafenNgp);
    let i = choose|i: int| 0 <= i < l.len() && l[i] == key;
    assert(0 <= i < 3);
}

proof fn lemma_only_slugs_reach_mednafenvb(key: Seq<char>)
    requires
        core_for_key(key) == Some(CoreSpec::MednafenVb),
    ensures
        key == "virtualboy"@ || key == "virtual-boy"@ || key == "vb"@,
{
    let l = slugs_for(CoreSpec::MednafenVb);
    let i = choose|i: int| 0 <= i < l.len() && l[i] == key;
    assert(0 <= i < 3);
}

/// Each console's slugs get its own core, and no other slug does: the NES
/// and Famicom slugs get FCEUmm, the Super Nintendo ones Snes9x, the Game Boy
/// family mGBA, the Sega 8- and 16-bit systems Genesis Plus GX, the 32X
/// PicoDrive, the Atari 2600 Stella, the Atari 7800 ProSystem, the Atari 5200
/// and 8-bit computers Atari800, the ColecoVision Gearcoleco, the Lynx Handy,
/// and the PC Engine, WonderSwan, Neo Geo Pocket and Virtual Boy their
/// Mednafen cores. The key is the slug trimmed and lower-cased (`slug_key`).
pub proof fn lemma_each_console_gets_its_own_core(key: Seq<char>)
    ensures
        (key == "nes"@ || key == "famicom"@ || key == "family-computer"@ ||
            key == "nintendo-entertainment-system"@ ||
            key == "fds"@) <==> core_for_key(key) == Some(CoreSpec::Fceumm),
        (key == "snes"@ || key == "sfc"@ || key == "super-nintendo-entertainment-system"@ ||
            key == "super-famicom"@ ||
            key == "snes-slash-super-famicom"@) <==> core_for_key(key) == Some(CoreSpec::Snes9x),
        (key == "gb"@ || key == "game-boy"@ || key == "gbc"@ || key == "game-boy-color"@ ||
            key == "gba"@ ||
            key == "game-boy-advance"@) <==> core_for_key(key) == Some(CoreSpec::Mgba),
        (key == "genesis"@ || key == "megadrive"@ || key == "mega-drive"@ ||
            key == "genesis-slash-megadrive"@ || key == "sega-mega-drive-genesis"@ ||
            key == "sms"@ || key == "sega-master-system"@ ||
            key == "sega-master-system-slash-mark-iii"@ || key == "gamegear"@ ||
            key == "game-gear"@ || key == "gg"@ ||
            key == "sg1000"@) <==> core_for_key(key) == Some(CoreSpec::GenesisPlusGx),
        (key == "sega32"@ || key == "sega32x"@ || key == "sega-32x"@ ||
            key == "32x"@) <==> core_for_key(key) == Some(CoreSpec::Picodrive),
        (key == "atari2600"@ ||
            key == "atari-2600"@) <==> core_for_key(key) == Some(CoreSpec::Stella),
        (key == "atari7800"@ ||
            key == "atari-7800"@) <==> core_for_key(key) == Some(CoreSpec::Prosystem),
        (key == "atari5200"@ || key == "atari-5200"@ || key == "atari8bit"@ ||
            key == "atari-8-bit"@) <==> core_for_key(key) == Some(CoreSpec::Atari800),
        (key == "colecovision"@) <==> core_for_key(key) == Some(CoreSpec::Gearcoleco),
        (key == "lynx"@ || key == "atari-lynx"@) <==> core_for_key(key) == Some(CoreSpec::Handy),
        (key == "turbografx16--1"@ || key == "turbografx-16-slash-pc-engine"@ ||
            key == "pc-engine"@ || key == "pce"@ ||
            key == "tg16"@) <==> core_for_key(key) == Some(CoreSpec::MednafenPce),
        (key == "wonderswan"@ || key == "wonderswan-color"@ ||
            key == "ws"@) <==> core_for_key(key) == Some(CoreSpec::MednafenWswan),
        (key == "ngp"@ || key == "neo-geo-pocket"@ ||
            key == "neo-geo-pocket-color"@) <==> core_for_key(key) == Some(CoreSpec::MednafenNgp),
        (key == "virtualboy"@ || key == "virtual-boy"@ ||
            key == "vb"@) <==> core_for_key(key) == Some(CoreSpec::MednafenVb),
{
    lemma_slugs_reach_fceumm();
    lemma_slugs_reach_snes9x();
    lemma_slugs_reach_mgba();
    lemma_slugs_reach_genesisplusgx();
    lemma_slugs_reach_picodrive();
    lemma_slugs_reach_stella();
    lemma_slugs_reach_prosystem();
    lemma_slugs_reach_atari800();
    lemma_slugs_reach_gearcoleco();
    lemma_slugs_reach_handy();
    lemma_slugs_reach_mednafenpce();
    lemma_slugs_reach_mednafenwswan();
    lemma_slugs_reach_mednafenngp();
    lemma_slugs_reach_mednafenvb();
    if core_for_key(key) == Some(CoreSpec::Fceumm) {
        lemma_only_slugs_reach_fceumm(key);
    }
    if core_for_key(key) == Some(CoreSpec::Snes9x) {
        lemma_only_slugs_reach_snes9x(key);
    }
    if core_for_key(key) == Some(CoreSpec::Mgba) {
        lemma_only_slugs_reach_mgba(key);
    }
    if core_for_key(key) == Some(CoreSpec::GenesisPlusGx) {
        lemma_only_slugs_reach_genesisplusgx(key);
    }
    if core_for_key(key) == Some(CoreSpec::Picodrive) {
        lemma_only_slugs_reach_picodrive(key);
    }
    if core_for_key(key) == Some(CoreSpec::Stella) {
        lemma_only_slugs_reach_stella(key);
    }
    if core_for_key(key) == Some(CoreSpec::Prosystem) {
        lemma_only_slugs_reach_prosystem(key);
    }
    if core_for_key(key) == Some(CoreSpec::Atari800) {
        lemma_only_slugs_reach_atari800(key);
    }
    if core_for_key(key) == Some(CoreSpec::Gearcoleco) {
        lemma_only_slugs_reach_gearcoleco(key);
    }
    if core_for_key(key) == Some(CoreSpec::Handy) {
        lemma_only_slugs_reach_handy(key);
    }
    if core_for_key(key) == Some(CoreSpec::MednafenPce) {
        lemma_only_slugs_reach_mednafenpce(key);
    }
    if core_for_key(key) == Some(CoreSpec::MednafenWswan) {
        lemma_only_slugs_reach_mednafenwswan(key);
    }
    if core_for_key(key) == Some(CoreSpec::MednafenNgp) {
        lemma_only_slugs_reach_mednafenngp(key);
    }
    if core_for_key(key) == Some(CoreSpec::MednafenVb) {
        lemma_only_slugs_reach_mednafenvb(key);
    }
}




/// Platforms refused because they need a GPU core.
pub open spec fn gpu_slugs() -> Seq<Seq<char>> {
    seq!["psp"@, "playstation-portable"@, "n64"@, "nintendo-64"@, "ngc"@, "gamecube"@, "wii"@]
}

fn list_contains(options: &[&str], key: &[char]) -> (r: bool)
    ensures
        r == options@.map_values(|s: &str| s@).contains(key@),
{
    let mut i: usize = 0;
    while i < options.len()
        invariant
            i <= options.len(),
            forall|k: int| 0 <= k < i ==> options@[k]@ != key@,
        decreases options.len() - i,
    {
        if eq_str(key, options[i]) {
            assert(options@.map_values(|s: &str| s@)[i as int] == key@);
            return true;
        }
        i += 1;
    }
    proof {
        let m = options@.map_values(|s: &str| s@);
        if m.contains(key@) {
            let k = choose|k: int| 0 <= k < m.len() && m[k] == key@;
            assert(options@[k]@ == key@);
        }
    }
    false
}

fn core_slug_list(c: CoreSpec) -> (v: Vec<&'static str>)
    ensures
        v@.map_values(|s: &str| s@) == slugs_for(c),
{
    let v = match c {
        CoreSpec::Fceumm => vec!["nes", "famicom", "family-computer", "nintendo-entertainment-system", "fds"],
        CoreSpec::Snes9x => vec![
            "snes",
            "sfc",
            "super-nintendo-entertainment-system",
            "super-famicom",
            "snes-slash-super-famicom",
        ],
        CoreSpec::Mgba => vec!["gb", "game-boy", "gbc", "game-boy-color", "gba", "game-boy-advance"],
        CoreSpec::GenesisPlusGx => vec![
            "genesis",
            "megadrive",
            "mega-drive",
            "genesis-slash-megadrive",
            "sega-mega-drive-genesis",
            "sms",
            "sega-master-system",
            "sega-master-system-slash-mark-iii",
            "gamegear",
            "game-gear",
            "gg",
            "sg1000",
        ],
        CoreSpec::Picodrive => vec!["sega32", "sega32x", "sega-32x", "32x"],
        CoreSpec::Stella => vec!["atari2600", "atari-2600"],
        CoreSpec::Prosystem => vec!["atari7800", "atari-7800"],
        CoreSpec::Atari800 => vec!["atari5200", "atari-5200", "atari8bit", "atari-8-bit"],
        CoreSpec::Gearcoleco => vec!["colecovision"],
        CoreSpec::Handy => vec!["lynx", "atari-lynx"],
        CoreSpec::MednafenPce => vec![
            "turbografx16--1",
            "turbografx-16-slash-pc-engine",
            "pc-engine",
            "pce",
            "tg16",
        ],
        CoreSpec::MednafenWswan => vec!["wonderswan", "wonderswan-color", "ws"],
        CoreSpec::MednafenNgp => vec!["ngp", "neo-geo-pocket", "neo-geo-pocket-color"],
        CoreSpec::MednafenVb => vec!["virtualboy", "virtual-boy", "vb"],
    };
    assert(v@.map_values(|s: &str| s@) =~= slugs_for(c));
    v
}

/// The cores in the order `core_for_key` tries them.
pub open spec fn core_order() -> Seq<CoreSpec> {
    seq![
        CoreSpec::Fceumm,
        CoreSpec::Snes9x,
        CoreSpec::Mgba,
        CoreSpec::GenesisPlusGx,
        CoreSpec::Picodrive,
        CoreSpec::Stella,
        CoreSpec::Prosystem,
        CoreSpec::Atari800,
        CoreSpec::Gearcoleco,
        CoreSpec::Handy,
        CoreSpec::MednafenPce,
        CoreSpec::MednafenWswan,
        CoreSpec::MednafenNgp,
        CoreSpec::MednafenVb,
    ]
}

fn lookup_core(key: &[char]) -> (r: Option<CoreSpec>)
    ensures
        r == core_for_key(key@),
{
    let order = vec![
        CoreSpec::Fceumm,
        CoreSpec::Snes9x,
        CoreSpec::Mgba,
        CoreSpec::GenesisPlusGx,
        CoreSpec::Picodrive,
        CoreSpec::Stella,
        CoreSpec::Prosystem,
        CoreSpec::Atari800,
        CoreSpec::Gearcoleco,
        CoreSpec::Handy,
        CoreSpec::MednafenPce,
        CoreSpec::MednafenWswan,
        CoreSpec::MednafenNgp,
        CoreSpec::MednafenVb,
    ];
    assert(order@ == core_order());
    let mut i: usize = 0;
    while i < order.len()
        invariant
            i <= order@.len(),
            order@ == core_order(),
            forall|k: int| 0 <= k < i ==> !slugs_for(#[trigger] order@[k]).contains(key@),
        decreases order.len() - i,
    {
        let c = order[i];
        let list = core_slug_list(c);
        if list_contains(list.as_slice(), key) {
            proof {
                lemma_first_match(key@, i as int);
            }
            return Some(c);
        }
        i += 1;
    }
    proof {
        lemma_first_match(key@, 14);
    }
    None
}

/// `core_for_key` is the first core in `core_order` whose slugs hold the key.
proof fn lemma_first_match(key: Seq<char>, i: int)
    requires
        0 <= i <= 14,
        forall|k: int| 0 <= k < i ==> !slugs_for(#[trigger] core_order()[k]).contains(key),
        i < 14 ==> slugs_for(core_order()[i]).contains(key),
    ensures
        i < 14 ==> core_for_key(key) == Some(core_order()[i]),
        i == 14 ==> core_for_key(key) is None,
{
    let o = core_order();
    assert(o[0] == CoreSpec::Fceumm);
    assert(o[1] == CoreSpec::Snes9x);
    assert(o[2] == CoreSpec::Mgba);
    assert(o[3] == CoreSpec::GenesisPlusGx);
    assert(o[4] == CoreSpec::Picodrive);
    assert(o[5] == CoreSpec::Stella);
    assert(o[6] == CoreSpec::Prosystem);
    assert(o[7] == CoreSpec::Atari800);
    assert(o[8] == CoreSpec::Gearcoleco);
    assert(o[9] == CoreSpec::Handy);
    assert(o[10] == CoreSpec::MednafenPce);
    assert(o[11] == CoreSpec::MednafenWswan);
    assert(o[12] == CoreSpec::MednafenNgp);
    assert(o[13] == CoreSpec::MednafenVb);
}

/// The explanation for a slug with no core.
pub open spec fn refusal(key: Seq<char>) -> (bool, Seq<char>) {
    if key == "psp"@ || key == "playstation-portable"@ {
        (true, "PSP emulation needs a graphics core RustRomM doesn't embed. Use PPSSPP."@)
    } else if key == "n64"@ || key == "nintendo-64"@ {
        (true, "Nintendo 64 emulation needs a graphics core RustRomM doesn't embed."@)
    } else if key == "ngc"@ || key == "gamecube"@ || key == "wii"@ {
        (
            true,
            "GameCube and Wii emulation needs a graphics core RustRomM doesn't embed. Use Dolphin."@,
        )
    } else if key == "jaguar"@ || key == "atari-jaguar"@ {
        (false, "Atari Jaguar emulation is not reliable enough to embed."@)
    } else if key == "mame"@ || key == "arcade"@ || key == "fbneo"@ {
        (
            false,
            "Arcade games need per-machine ROM sets and BIOS files that RustRomM can't set up for you."@,
        )
    } else if key == "scummvm"@ {
        (false, "ScummVM games are folders of assets rather than ROMs. Use ScummVM."@)
    } else if key == "ports"@ || key == "nul"@ || key == ""@ {
        (false, "This isn't an emulated platform."@)
    } else {
        (false, "No embedded core is mapped to this platform yet."@)
    }
}

pub open spec fn no_core_view(n: NoCore) -> (bool, Seq<char>) {
    match n {
        NoCore::NeedsGpu(m) => (true, m@),
        NoCore::Unsupported(m) => (false, m@),
    }
}

fn refuse(key: &[char]) -> (n: NoCore)
    ensures
        no_core_view(n) == refusal(key@),
{
    if eq_str(key, "psp") || eq_str(key, "playstation-portable") {
        NoCore::NeedsGpu("PSP emulation needs a graphics core RustRomM doesn't embed. Use PPSSPP.")
    } else if eq_str(key, "n64") || eq_str(key, "nintendo-64") {
        NoCore::NeedsGpu("Nintendo 64 emulation needs a graphics core RustRomM doesn't embed.")
    } else if eq_str(key, "ngc") || eq_str(key, "gamecube") || eq_str(key, "wii") {
        NoCore::NeedsGpu(
            "GameCube and Wii emulation needs a graphics core RustRomM doesn't embed. Use Dolphin.",
        )
    } else if eq_str(key, "jaguar") || eq_str(key, "atari-jaguar") {
        NoCore::Unsupported("Atari Jaguar emulation is not reliable enough to embed.")
    } else if eq_str(key, "mame") || eq_str(key, "arcade") || eq_str(key, "fbneo") {
        NoCore::Unsupported(
            "Arcade games need per-machine ROM sets and BIOS files that RustRomM can't set up for you.",
        )
    } else if eq_str(key, "scummvm") {
        NoCore::Unsupported("ScummVM games are folders of assets rather than ROMs. Use ScummVM.")
    } else if eq_str(key, "ports") || eq_str(key, "nul") || eq_str(key, "") {
        NoCore::Unsupported("This isn't an emulated platform.")
    } else {
        NoCore::Unsupported("No embedded core is mapped to this platform yet.")
    }
}

/// What plays a RomM platform slug.
///
/// Slugs come from RomM, which uses IGDB's naming, and the same system appears
/// under several of them across server versions, so aliases are listed
/// generously and matching ignores case and surrounding whitespace. A slug
/// with no core gets an explanation a player can act on.
pub fn core_for_platform(slug: &str) -> (r: Result<CoreSpec, NoCore>)
    ensures
        match r {
            Ok(c) => core_for_key(slug_key(slug@)) == Some(c),
            Err(n) => core_for_key(slug_key(slug@)) is None && no_core_view(n) == refusal(
                slug_key(slug@),
            ),
        },
{
    let raw = chars_of(slug);
    let trimmed = trim_chars(raw.as_slice());
    let key = lower_chars(trimmed.as_slice());
    match lookup_core(key.as_slice()) {
        Some(c) => Ok(c),
        None => Err(refuse(key.as_slice())),
    }
}

// ─── Acquisition ─────────────────────────────────────────────────────────────

/// The buildbot directory for an OS and architecture, as Rust names them in
/// `std::env::consts`, or `None` where the buildbot publishes nothing — today
/// that means arm64 Windows.
pub open spec fn buildbot_dir_spec(os: Seq<char>, arch: Seq<char>) -> Option<Seq<char>> {
    if os == "linux"@ && arch == "x86_64"@ {
        Some("linux/x86_64"@)
    } else if os == "linux"@ && arch == "aarch64"@ {
        Some("linux/aarch64"@)
    } else if os == "macos"@ && arch == "x86_64"@ {
        Some("apple/osx/x86_64"@)
    } else if os == "macos"@ && arch == "aarch64"@ {
        Some("apple/osx/arm64"@)
    } else if os == "windows"@ && arch == "x86_64"@ {
        Some("windows/x86_64"@)
    } else {
        None
    }
}

pub fn buildbot_dir(os: &str, arch: &str) -> (dir: Option<&'static str>)
    ensures
        match dir {
            Some(d) => buildbot_dir_spec(os@, arch@) == Some(d@),
            None => buildbot_dir_spec(os@, arch@) is None,
        },
{
    let o = chars_of(os);
    let a = chars_of(arch);
    if eq_str(o.as_slice(), "linux") && eq_str(a.as_slice(), "x86_64") {
        Some("linux/x86_64")
    } else if eq_str(o.as_slice(), "linux") && eq_str(a.as_slice(), "aarch64") {
        Some("linux/aarch64")
    } else if eq_str(o.as_slice(), "macos") && eq_str(a.as_slice(), "x86_64") {
        Some("apple/osx/x86_64")
    } else if eq_str(o.as_slice(), "macos") && eq_str(a.as_slice(), "aarch64") {
        Some("apple/osx/arm64")
    } else if eq_str(o.as_slice(), "windows") && eq_str(a.as_slice(), "x86_64") {
        Some("windows/x86_64")
    } else {
        None
    }
}

/// Shared-library extension for an OS.
pub open spec fn lib_extension_spec(os: Seq<char>) -> Seq<char> {
    if os == "windows"@ {
        "dll"@
    } else if os == "macos"@ {
        "dylib"@
    } else {
        "so"@
    }
}

pub fn lib_extension(os: &str) -> (ext: &'static str)
    ensures
        ext@ == lib_extension_spec(os@),
{
    let o = chars_of(os);
    if eq_str(o.as_slice(), "windows") {
        "dll"
    } else if eq_str(o.as_slice(), "macos") {
        "dylib"
    } else {
        "so"
    }
}

pub open spec fn download_url_spec(dir: Seq<char>, core: Seq<char>, ext: Seq<char>) -> Seq<char> {
    "https://buildbot.libretro.com/nightly/"@ + dir + "/latest/"@ + core + "_libretro."@ + ext
        + ".zip"@
}

/// Where a core's zip lives on the buildbot.
pub fn download_url(dir: &str, core: &str, ext: &str) -> (url: String)
    ensures
        url@ == download_url_spec(dir@, core@, ext@),
{
    let mut out: Vec<char> = Vec::new();
    append_str(&mut out, "https://buildbot.libretro.com/nightly/");
    append_str(&mut out, dir);
    append_str(&mut out, "/latest/");
    append_str(&mut out, core);
    append_str(&mut out, "_libretro.");
    append_str(&mut out, ext);
    append_str(&mut out, ".zip");
    string_of(out.as_slice())
}

pub open spec fn library_file_name_spec(core: Seq<char>, ext: Seq<char>) -> Seq<char> {
    core + "_libretro."@ + ext
}

/// The file name inside that zip, which is also the cached name on disk.
pub fn library_file_name(core: &str, ext: &str) -> (name: String)
    ensures
        name@ == library_file_name_spec(core@, ext@),
{
    let mut out: Vec<char> = Vec::new();
    append_str(&mut out, core);
    append_str(&mut out, "_libretro.");
    append_str(&mut out, ext);
    string_of(out.as_slice())
}

/// The required BIOS files not among `present`, in the core's order.
pub open spec fn missing_from(required: Seq<Seq<char>>, present: Seq<Seq<char>>) -> Seq<Seq<char>> {
    required.filter(|f: Seq<char>| !present.contains(f))
}

/// Which required BIOS files are missing, given the names of the files that
/// exist in the system directory.
///
/// Must be answered before the core loads a game: a missing BIOS is not
/// reliably a clean refusal, so this is the only chance to fail safely.
pub fn missing_bios(spec: &CoreSpec, present: &[String]) -> (missing: Vec<&'static str>)
    ensures
        missing@.map_values(|f: &str| f@) == missing_from(core_bios(*spec), crate::text::views(
            present@,
        )),
{
    let required = spec.required_bios();
    let ghost req = required@.map_values(|f: &str| f@);
    let ghost pres = crate::text::views(present@);
    let mut out: Vec<&'static str> = Vec::new();
    let mut i: usize = 0;
    while i < required.len()
        invariant
            i <= required@.len(),
            req == required@.map_values(|f: &str| f@),
            pres == crate::text::views(present@),
            out@.map_values(|f: &str| f@) == missing_from(req.take(i as int), pres),
        decreases required.len() - i,
    {
        let f = required[i];
        let fv = chars_of(f);
        let mut found = false;
        let mut k: usize = 0;
        while k < present.len()
            invariant
                k <= present@.len(),
                fv@ == f@,
                pres == crate::text::views(present@),
                found == exists|j: int| 0 <= j < k && pres[j] == f@,
            decreases present.len() - k,
        {
            assert(pres[k as int] == present@[k as int]@);
            if eq_str(fv.as_slice(), present[k].as_str()) {
                found = true;
            }
            k += 1;
        }
        assert(req.take(i + 1).drop_last() == req.take(i as int));
        assert(req.take(i + 1).last() == f@);
        reveal_with_fuel(Seq::filter, 1);
        assert(found == pres.contains(f@));
        if !found {
            out.push(f);
            assert(out@.map_values(|f: &str| f@) =~= out@.drop_last().map_values(|f: &str| f@).push(
                f@,
            ));
        }
        i += 1;
    }
    assert(req.take(required@.len() as int) == req);
    out
}

// ─── Unpacking a downloaded core ─────────────────────────────────────────────

/// Whether the `zip` crate reads these bytes as an archive.
pub uninterp spec fn zip_readable(archive: Seq<u8>) -> bool;

/// The entry called `name`: `None` when the archive has no such entry,
/// `Some(None)` when it has one that does not read back whole, and
/// `Some(Some(bytes))` with its decompressed bytes otherwise.
pub uninterp spec fn zip_entry(archive: Seq<u8>, name: Seq<char>) -> Option<Option<Seq<u8>>>;

/// Calls `zip::ZipArchive::new` on the bytes in memory and reports whether it
/// succeeded. Only that the answer is a function of the bytes is claimed.
#[verifier::external_body]
fn opens_as_zip(archive: &[u8]) -> (ok: bool)
    ensures
        ok == zip_readable(archive@),
{
    zip::ZipArchive::new(std::io::Cursor::new(archive)).is_ok()
}

/// Opens the bytes with `zip::ZipArchive::new`, finds the entry with
/// `ZipArchive::by_name` and reads it to the end with `Read::read_to_end`.
/// The claim is only that the outcome is a function of the bytes and the
/// name. An archive or entry that cannot be found is `Err(None)`; an entry
/// that fails to read is `Err(Some(text))`, the text being the read error's
/// own, of which nothing is stated.
#[verifier::external_body]
fn zip_entry_bytes(archive: &[u8], name: &str) -> (r: Result<Vec<u8>, Option<String>>)
    ensures
        match r {
            Ok(v) => zip_entry(archive@, name@) == Some(Some(v@)),
            Err(None) => zip_entry(archive@, name@) is None,
            Err(Some(_)) => zip_entry(archive@, name@) == Some(None::<Seq<u8>>),
        },
{
    let Ok(mut z) = zip::ZipArchive::new(std::io::Cursor::new(archive)) else { return Err(None) };
    let Ok(mut entry) = z.by_name(name) else { return Err(None) };
    let mut out: Vec<u8> = Vec::new();
    match std::io::Read::read_to_end(&mut entry, &mut out) {
        Ok(_) => Ok(out),
        Err(e) => Err(Some(e.to_string())),
    }
}

/// Why a downloaded core could not be unpacked.
#[derive(Debug, Clone, PartialEq, Eq)]
pub enum CoreFetchError {
    /// The download is not an archive; carries the core's name.
    NotAZip(String),
    /// The archive lacks the library: (core, library file name).
    MissingLibrary(String, String),
    /// The library is there but does not unpack; carries the read error's
    /// own text.
    Unreadable(String),
}

impl CoreFetchError {
    pub fn message(&self) -> (m: String)
        ensures
            match self {
                CoreFetchError::NotAZip(core) => m@ == core@ + " did not download as a valid zip"@,
                CoreFetchError::MissingLibrary(core, name) => m@ == "the "@ + core@
                    + " download did not contain "@ + name@,
                CoreFetchError::Unreadable(text) => m@ == text@,
            },
    {
        let mut out: Vec<char> = Vec::new();
        match self {
            CoreFetchError::NotAZip(core) => {
                append_str(&mut out, core.as_str());
                append_str(&mut out, " did not download as a valid zip");
            },
            CoreFetchError::MissingLibrary(core, name) => {
                append_str(&mut out, "the ");
                append_str(&mut out, core.as_str());
                append_str(&mut out, " download did not contain ");
                append_str(&mut out, name.as_str());
            },
            CoreFetchError::Unreadable(text) => {
                append_str(&mut out, text.as_str());
            },
        }
        string_of(out.as_slice())
    }
}

/// The library inside a core's buildbot zip: the entry named
/// `{core}_libretro.{ext}`, which is also the name it is cached under.
pub fn core_library_from_download(zipped: &[u8], core: &str, ext: &str) -> (r: Result<
    Vec<u8>,
    CoreFetchError,
>)
    ensures
        !zip_readable(zipped@) ==> (r matches Err(CoreFetchError::NotAZip(c)) && c@ == core@),
        zip_readable(zipped@) ==> match zip_entry(zipped@, library_file_name_spec(core@, ext@)) {
            Some(Some(bytes)) => r matches Ok(v) && v@ == bytes,
            Some(None) => r matches Err(CoreFetchError::Unreadable(_)),
            None => r matches Err(CoreFetchError::MissingLibrary(c, n)) && c@ == core@ && n@
                == library_file_name_spec(core@, ext@),
        },
{
    let owned_core = string_of(chars_of(core).as_slice());
    if !opens_as_zip(zipped) {
        return Err(CoreFetchError::NotAZip(owned_core));
    }
    let name = library_file_name(core, ext);
    match zip_entry_bytes(zipped, name.as_str()) {
        Ok(bytes) => Ok(bytes),
        Err(Some(text)) => Err(CoreFetchError::Unreadable(text)),
        Err(None) => Err(CoreFetchError::MissingLibrary(owned_core, name)),
    }
}

/// What to say where the buildbot publishes no cores for the machine.
pub fn no_cores_message(os: &str, arch: &str) -> (m: String)
    ensures
        m@ == "no libretro cores are published for "@ + arch@ + " on "@ + os@
            + ". On Windows for ARM, download the x86_64 build of RustRomM instead — it runs under emulation and can load cores."@,
{
    let mut out: Vec<char> = Vec::new();
    append_str(&mut out, "no libretro cores are published for ");
    append_str(&mut out, arch);
    append_str(&mut out, " on ");
    append_str(&mut out, os);
    append_str(
        &mut out,
        ". On Windows for ARM, download the x86_64 build of RustRomM instead — it runs under emulation and can load cores.",
    );
    string_of(out.as_slice())
}

} // verus!
