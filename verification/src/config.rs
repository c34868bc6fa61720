//! Settings, and the rules for using and storing them.
//!
//! Kept as plain JSON in the OS config directory so it can be inspected and
//! hand-edited; reading and writing that file happens outside the library.
//! Here are the decisions: which emulator a platform uses, where downloads go
//! when the player chose a folder, and what is written to disk — never the
//! password unless the player asked for it to be remembered.

use vstd::prelude::*;

use crate::text::{pair_views, chars_of, eq_str, is_blank, is_empty_str, is_blank_seq, string_of, trim, trim_chars};

verus! {

#[derive(Debug, Clone)]
pub struct Config {
    pub server_url: String,
    pub username: String,
    /// Only written to disk when `remember_password` is set. See
    /// `for_saving` for the caveat that goes with storing this.
    pub password: String,
    pub remember_password: bool,
    /// Where ROMs land. Blank means "ask the OS for Downloads/RustRomM".
    pub download_dir: String,
    /// platform slug -> emulator command, first entry for a slug winning.
    /// `{rom}` is substituted with the file path; if absent, the path is
    /// appended as the last argument.
    pub emulators: Vec<(String, String)>,
    /// Used when no platform-specific entry applies.
    pub default_emulator: String,
}

/// Environment variable overriding where settings live. Set it to run a
/// portable install off a USB stick; the test suite uses it so tests never
/// touch a real user's configuration.
pub const CONFIG_DIR_ENV: &'static str = "RUSTROMM_CONFIG_DIR";

/// The command configured for a slug: the first entry with that key.
pub open spec fn entry_for(table: Seq<(Seq<char>, Seq<char>)>, slug: Seq<char>) -> Option<Seq<char>>
    decreases table.len(),
{
    if table.len() == 0 {
        None
    } else if table[0].0 == slug {
        Some(table[0].1)
    } else {
        entry_for(table.drop_first(), slug)
    }
}

/// No slug has two entries in the table.
pub open spec fn unique_slugs(table: Seq<(Seq<char>, Seq<char>)>) -> bool {
    forall|i: int, j: int| 0 <= i < j < table.len() ==> (#[trigger] table[i]).0 != (#[trigger] table[j]).0
}

/// The emulator used for a platform: its own entry when that is not blank,
/// else the default when that is not blank, else none.
pub open spec fn emulator_for_spec(c: Config, slug: Seq<char>) -> Option<Seq<char>> {
    match entry_for(pair_views(c.emulators@), slug) {
        Some(cmd) if !is_blank_seq(cmd) => Some(cmd),
        _ => if !is_blank_seq(c.default_emulator@) {
            Some(c.default_emulator@)
        } else {
            None
        },
    }
}

fn clone_pairs(v: &Vec<(String, String)>) -> (r: Vec<(String, String)>)
    ensures
        pair_views(r@) == pair_views(v@),
{
    let mut r: Vec<(String, String)> = Vec::new();
    let mut i: usize = 0;
    while i < v.len()
        invariant
            i <= v@.len(),
            pair_views(r@) == pair_views(v@).take(i as int),
        decreases v.len() - i,
    {
        let a = v[i].0.clone();
        let b = v[i].1.clone();
        let ghost before = r@;
        r.push((a, b));
        assert(r@ == before.push((a, b)));
        assert(pair_views(r@) =~= pair_views(before).push((a@, b@)));
        assert(pair_views(v@).take(i + 1) =~= pair_views(v@).take(i as int).push(
            pair_views(v@)[i as int],
        ));
        i += 1;
    }
    assert(pair_views(v@).take(v@.len() as int) == pair_views(v@));
    r
}

impl Default for Config {
    fn default() -> (c: Self)
        ensures
            c.server_url@.len() == 0,
            c.username@.len() == 0,
            c.password@.len() == 0,
            !c.remember_password,
            c.download_dir@.len() == 0,
            c.emulators@.len() == 0,
            c.default_emulator@.len() == 0,
    {
        Config {
            server_url: String::new(),
            username: String::new(),
            password: String::new(),
            remember_password: false,
            download_dir: String::new(),
            emulators: Vec::new(),
            default_emulator: String::new(),
        }
    }
}

impl Config {
    /// Emulator command for a platform, falling back to the default.
    pub fn emulator_for(&self, platform_slug: &str) -> (cmd: Option<&str>)
        ensures
            match cmd {
                Some(c) => emulator_for_spec(*self, platform_slug@) == Some(c@),
                None => emulator_for_spec(*self, platform_slug@) is None,
            },
    {
        let found: Option<&str> = match find_entry(&self.emulators, platform_slug) {
            Some(i) => {
                proof {
                    lemma_entry_first(pair_views(self.emulators@), platform_slug@, i as int);
                }
                Some(self.emulators[i].1.as_str())
            },
            None => {
                proof {
                    lemma_entry_none(pair_views(self.emulators@), platform_slug@);
                }
                None
            },
        };
        match found {
            Some(c) if !is_blank(c) => Some(c),
            _ => {
                if !is_blank(self.default_emulator.as_str()) {
                    Some(self.default_emulator.as_str())
                } else {
                    None
                }
            },
        }
    }

    /// Set the command for a platform, replacing its entry if it has one.
    pub fn set_emulator(&mut self, platform_slug: &str, command: &str)
        ensures
            entry_for(pair_views(final(self).emulators@), platform_slug@) == Some(command@),
            forall|other: Seq<char>|
                other != platform_slug@ ==> entry_for(pair_views(final(self).emulators@), other)
                    == entry_for(pair_views(old(self).emulators@), other),
            final(self).default_emulator == old(self).default_emulator,
            final(self).server_url == old(self).server_url,
            final(self).username == old(self).username,
            final(self).password == old(self).password,
            final(self).remember_password == old(self).remember_password,
            final(self).download_dir == old(self).download_dir,
            unique_slugs(pair_views(old(self).emulators@)) ==> unique_slugs(
                pair_views(final(self).emulators@),
            ),
    {
        let ghost table = pair_views(self.emulators@);
        let new_pair = (string_of(chars_of(platform_slug).as_slice()), string_of(chars_of(command).as_slice()));
        match find_entry(&self.emulators, platform_slug) {
            Some(i) => {
                self.emulators.set(i, new_pair);
                proof {
                    let t2 = pair_views(self.emulators@);
                    assert(t2 =~= table.update(i as int, (platform_slug@, command@)));
                    assert forall|a: int, b: int| 0 <= a < b < t2.len() && unique_slugs(table) implies (#[trigger] t2[a]).0
                        != (#[trigger] t2[b]).0 by {
                        assert(t2[a].0 == table[a].0);
                        assert(t2[b].0 == table[b].0);
                    }
                    lemma_entry_first(t2, platform_slug@, i as int);
                    assert forall|other: Seq<char>| other != platform_slug@ implies entry_for(t2, other)
                        == entry_for(table, other) by {
                        lemma_entry_same_for(t2, table, other);
                    }
                }
            },
            None => {
                self.emulators.push(new_pair);
                proof {
                    let t2 = pair_views(self.emulators@);
                    assert(t2 =~= table.push((platform_slug@, command@)));
                    assert forall|a: int, b: int| 0 <= a < b < t2.len() && unique_slugs(table) implies (#[trigger] t2[a]).0
                        != (#[trigger] t2[b]).0 by {
                        if b == table.len() {
                            assert(table[a].0 != platform_slug@);
                        } else {
                            assert(t2[a] == table[a]);
                            assert(t2[b] == table[b]);
                        }
                    }
                    lemma_entry_first(t2, platform_slug@, table.len() as int);
                    assert forall|other: Seq<char>| other != platform_slug@ implies entry_for(t2, other)
                        == entry_for(table, other) by {
                        lemma_entry_push_other(table, (platform_slug@, command@), other);
                    }
                }
            },
        }
    }

    /// What is written to disk: everything, except that the password is
    /// cleared unless the player asked for it to be remembered.
    pub fn for_saving(&self) -> (c: Config)
        ensures
            c.server_url@ == self.server_url@,
            c.username@ == self.username@,
            c.password@ == (if self.remember_password {
                self.password@
            } else {
                Seq::empty()
            }),
            c.remember_password == self.remember_password,
            c.download_dir@ == self.download_dir@,
            pair_views(c.emulators@) == pair_views(self.emulators@),
            c.default_emulator@ == self.default_emulator@,
    {
        Config {
            server_url: self.server_url.clone(),
            username: self.username.clone(),
            password: if self.remember_password {
                self.password.clone()
            } else {
                String::new()
            },
            remember_password: self.remember_password,
            download_dir: self.download_dir.clone(),
            emulators: clone_pairs(&self.emulators),
            default_emulator: self.default_emulator.clone(),
        }
    }

    /// The download folder the player chose, trimmed, or `None` when the
    /// setting is blank and the OS default applies.
    pub fn configured_download_dir(&self) -> (dir: Option<String>)
        ensures
            match dir {
                Some(d) => !is_blank_seq(self.download_dir@) && d@ == trim(self.download_dir@),
                None => is_blank_seq(self.download_dir@),
            },
    {
        if is_blank(self.download_dir.as_str()) {
            None
        } else {
            let v = chars_of(self.download_dir.as_str());
            let t = trim_chars(v.as_slice());
            Some(string_of(t.as_slice()))
        }
    }

    /// Saved credentials are complete enough to connect without asking.
    pub fn can_auto_connect(&self) -> (r: bool)
        ensures
            r == (self.server_url@.len() > 0 && self.username@.len() > 0 && self.password@.len()
                > 0),
    {
        !is_empty_str(self.server_url.as_str()) && !is_empty_str(self.username.as_str())
            && !is_empty_str(self.password.as_str())
    }
}

/// Index of the first entry for `slug`.
fn find_entry(table: &Vec<(String, String)>, slug: &str) -> (r: Option<usize>)
    ensures
        match r {
            Some(i) => i < table@.len() && pair_views(table@)[i as int].0 == slug@ && forall|k: int|
                0 <= k < i ==> (#[trigger] pair_views(table@)[k]).0 != slug@,
            None => forall|k: int|
                0 <= k < table@.len() ==> (#[trigger] pair_views(table@)[k]).0 != slug@,
        },
{
    let key = chars_of(slug);
    let mut i: usize = 0;
    while i < table.len()
        invariant
            i <= table@.len(),
            key@ == slug@,
            forall|k: int| 0 <= k < i ==> (#[trigger] pair_views(table@)[k]).0 != slug@,
        decreases table.len() - i,
    {
        assert(pair_views(table@)[i as int].0 == table@[i as int].0@);
        if eq_str(key.as_slice(), table[i].0.as_str()) {
            return Some(i);
        }
        i += 1;
    }
    None
}

proof fn lemma_entry_first(table: Seq<(Seq<char>, Seq<char>)>, slug: Seq<char>, i: int)
    requires
        0 <= i < table.len(),
        table[i].0 == slug,
        forall|k: int| 0 <= k < i ==> (#[trigger] table[k]).0 != slug,
    ensures
        entry_for(table, slug) == Some(table[i].1),
    decreases i,
{
    if i > 0 {
        assert forall|k: int| 0 <= k < i - 1 implies (#[trigger] table.drop_first()[k]).0 != slug by {
            assert(table.drop_first()[k] == table[k + 1]);
        }
        assert(table[0].0 != slug);
        lemma_entry_first(table.drop_first(), slug, i - 1);
    }
}

proof fn lemma_entry_none(table: Seq<(Seq<char>, Seq<char>)>, slug: Seq<char>)
    requires
        forall|k: int| 0 <= k < table.len() ==> (#[trigger] table[k]).0 != slug,
    ensures
        entry_for(table, slug) is None,
    decreases table.len(),
{
    if table.len() > 0 {
        assert forall|k: int| 0 <= k < table.drop_first().len() implies (#[trigger] table.drop_first()[k]).0
            != slug by {
            assert(table.drop_first()[k] == table[k + 1]);
        }
        assert(table[0].0 != slug);
        lemma_entry_none(table.drop_first(), slug);
    }
}

/// Two tables with the same keys, and the same commands under `other`, give
/// `other` the same command.
proof fn lemma_entry_same_for(t1: Seq<(Seq<char>, Seq<char>)>, t2: Seq<(Seq<char>, Seq<char>)>, other: Seq<char>)
    requires
        t1.len() == t2.len(),
        forall|k: int| 0 <= k < t1.len() ==> (#[trigger] t1[k]).0 == t2[k].0,
        forall|k: int| 0 <= k < t1.len() && (#[trigger] t1[k]).0 == other ==> t1[k].1 == t2[k].1,
    ensures
        entry_for(t1, other) == entry_for(t2, other),
    decreases t1.len(),
{
    if t1.len() > 0 {
        let a = t1.drop_first();
        let b = t2.drop_first();
        assert forall|k: int| 0 <= k < a.len() implies (#[trigger] a[k]).0 == b[k].0 by {
            assert(a[k] == t1[k + 1]);
            assert(b[k] == t2[k + 1]);
        }
        assert forall|k: int| 0 <= k < a.len() && (#[trigger] a[k]).0 == other implies a[k].1 == b[k].1 by {
            assert(a[k] == t1[k + 1]);
            assert(b[k] == t2[k + 1]);
        }
        assert(t1[0].0 == t2[0].0);
        lemma_entry_same_for(a, b, other);
    }
}

proof fn lemma_entry_push_other(table: Seq<(Seq<char>, Seq<char>)>, p: (Seq<char>, Seq<char>), other: Seq<char>)
    requires
        p.0 != other,
    ensures
        entry_for(table.push(p), other) == entry_for(table, other),
    decreases table.len(),
{
    if table.len() > 0 {
        assert(table.push(p).drop_first() == table.drop_first().push(p));
        assert(table.push(p)[0] == table[0]);
        lemma_entry_push_other(table.drop_first(), p, other);
    } else {
        assert(table.push(p).drop_first() == Seq::<(Seq<char>, Seq<char>)>::empty());
        assert(entry_for(Seq::<(Seq<char>, Seq<char>)>::empty(), other) is None);
        assert(table.push(p)[0] == p);
    }
}

/// Read after write: once a platform's command is set, that is the emulator
/// it uses — unless the command is blank, in which case the default applies.
pub proof fn lemma_set_then_read(c: Config, table: Seq<(Seq<char>, Seq<char>)>, slug: Seq<char>, cmd: Seq<char>)
    requires
        entry_for(table, slug) == Some(cmd),
        table == pair_views(c.emulators@),
    ensures
        !is_blank_seq(cmd) ==> emulator_for_spec(c, slug) == Some(cmd),
        is_blank_seq(cmd) ==> emulator_for_spec(c, slug) == (if is_blank_seq(c.default_emulator@) {
            None
        } else {
            Some(c.default_emulator@)
        }),
{
}

} // verus!
