//! What the frontend decides while hosting a libretro core.
//!
//! Loading the shared library and calling into it crosses an FFI boundary and
//! stays outside the library. Everything that boundary decides is here:
//! which environment commands are answered and how, what a core's input query
//! reads, which save sizes are trusted, and the diagnostics kept about the core
//! — the record that turns "it didn't work" into something answerable.

use vstd::prelude::*;

use super::cores::{lib_extension, lib_extension_spec, library_file_name, library_file_name_spec};
use super::sys;
use super::video::{
    bpp, convert, converted, format_of_raw, format_name, geometry_ok, required_len, Frame,
    PixelFormat,
};
use crate::paths::{self, extendable_dir, joined, plain_name};
use crate::text::{
    append_chars, append_str, chars_of, decimal, decimal_string, drop_leading, drop_leading_chars, eq_chars, lower_chars, lower_seq, slice_chars, string_of,
    views,
};

verus! {

/// Controller ports input is accepted for. Two covers every supported system
/// and keeps the input state a fixed pair of masks.
pub const MAX_PORTS: usize = 2;

/// Core log lines kept: enough to diagnose a session, small enough to paste.
pub const MAX_CORE_LOG: usize = 300;

// ─── What a core says about itself ───────────────────────────────────────────

#[derive(Debug, Clone, PartialEq, Eq)]
pub struct CoreInfo {
    pub name: String,
    pub version: String,
    /// Lower-cased, dot-free, as libretro reports them: `["gb", "gbc", "dmg"]`.
    pub extensions: Vec<String>,
    /// When true the core insists on a path and ignores an in-memory buffer.
    pub need_fullpath: bool,
}

/// An extension as it is compared: leading dots removed, ASCII lower-cased.
pub open spec fn extension_key(ext: Seq<char>) -> Seq<char> {
    lower_seq(drop_leading(ext, '.'))
}

impl CoreInfo {
    /// Does the core read files with this extension? Case and a leading dot
    /// are ignored: a real library has files like `Game (U) [!].GG`.
    pub fn handles_extension(&self, ext: &str) -> (r: bool)
        ensures
            r == views(self.extensions@).contains(extension_key(ext@)),
    {
        let raw = chars_of(ext);
        let bare = drop_leading_chars(raw.as_slice(), '.');
        let key = lower_chars(bare.as_slice());
        let mut i: usize = 0;
        while i < self.extensions.len()
            invariant
                i <= self.extensions@.len(),
                key@ == extension_key(ext@),
                forall|k: int| 0 <= k < i ==> (#[trigger] self.extensions@[k])@ != key@,
            decreases self.extensions.len() - i,
        {
            let e = chars_of(self.extensions[i].as_str());
            if eq_chars(e.as_slice(), key.as_slice()) {
                assert(views(self.extensions@)[i as int] == key@);
                return true;
            }
            i += 1;
        }
        proof {
            let vs = views(self.extensions@);
            if vs.contains(key@) {
                let k = choose|k: int| 0 <= k < vs.len() && vs[k] == key@;
                assert(self.extensions@[k]@ == key@);
            }
        }
        false
    }
}

/// The `|`-separated fields of a libretro extension list, empty ones dropped.
pub open spec fn fields(s: Seq<char>) -> Seq<Seq<char>>
    decreases s.len(),
{
    fields_acc(s, Seq::empty(), Seq::empty())
}

/// Splitting with a field in progress (`cur`) and the finished ones (`done`).
pub open spec fn fields_acc(s: Seq<char>, done: Seq<Seq<char>>, cur: Seq<char>) -> Seq<Seq<char>>
    decreases s.len(),
{
    if s.len() == 0 {
        if cur.len() > 0 {
            done.push(cur)
        } else {
            done
        }
    } else if s[0] == '|' {
        fields_acc(s.drop_first(), if cur.len() > 0 { done.push(cur) } else { done }, Seq::empty())
    } else {
        fields_acc(s.drop_first(), done, cur.push(s[0]))
    }
}

/// A finished field, lower-cased, joins the list.
proof fn lemma_lowered_push(out: Seq<String>, done: Seq<Seq<char>>, line: String, cur: Seq<char>)
    requires
        views(out) == done.map_values(|x: Seq<char>| lower_seq(x)),
        line@ == lower_seq(cur),
    ensures
        views(out.push(line)) == done.push(cur).map_values(|x: Seq<char>| lower_seq(x)),
{
    assert(views(out.push(line)) =~= done.push(cur).map_values(|x: Seq<char>| lower_seq(x))) by {
        let l = views(out.push(line));
        let r = done.push(cur).map_values(|x: Seq<char>| lower_seq(x));
        assert(views(out).len() == out.len());
        assert(done.map_values(|x: Seq<char>| lower_seq(x)).len() == done.len());
        assert(l.len() == r.len());
        assert forall|k: int| 0 <= k < l.len() implies l[k] == r[k] by {
            if k < out.len() {
                assert(l[k] == views(out)[k]);
            }
        }
    }
}

/// The extensions a core lists in `valid_extensions` (`"gb|gbc|dmg"`),
/// lower-cased, empty fields dropped.
pub fn extensions_from(valid: &str) -> (exts: Vec<String>)
    ensures
        views(exts@) == fields(valid@).map_values(|f: Seq<char>| lower_seq(f)),
{
    let s = chars_of(valid);
    let mut out: Vec<String> = Vec::new();
    let mut cur: Vec<char> = Vec::new();
    let mut i: usize = 0;
    let ghost mut done: Seq<Seq<char>> = Seq::empty();
    assert(s@.subrange(0, s@.len() as int) =~= s@);
    assert(views(out@) =~= done.map_values(|x: Seq<char>| lower_seq(x)));
    while i < s.len()
        invariant
            i <= s@.len(),
            s@ == valid@,
            views(out@) == done.map_values(|x: Seq<char>| lower_seq(x)),
            fields_acc(s@.subrange(i as int, s@.len() as int), done, cur@) == fields(valid@),
        decreases s.len() - i,
    {
        let ghost rest = s@.subrange(i as int, s@.len() as int);
        assert(rest.drop_first() =~= s@.subrange(i + 1, s@.len() as int));
        assert(rest[0] == s@[i as int]);
        if s[i] == '|' {
            if cur.len() > 0 {
                let l = lower_chars(cur.as_slice());
                let line = string_of(l.as_slice());
                proof {
                    lemma_lowered_push(out@, done, line, cur@);
                }
                out.push(line);
                proof {
                    done = done.push(cur@);
                }
            }
            cur = Vec::new();
            assert(cur@ =~= Seq::<char>::empty());
        } else {
            cur.push(s[i]);
        }
        i += 1;
    }
    assert(s@.subrange(i as int, s@.len() as int) =~= Seq::<char>::empty());
    if cur.len() > 0 {
        let l = lower_chars(cur.as_slice());
        let line = string_of(l.as_slice());
        proof {
            lemma_lowered_push(out@, done, line, cur@);
        }
        out.push(line);
    }
    out
}

/// The file a core's shared library is cached under, on an OS as Rust names it.
pub fn core_file_name(core: &str, os: &str) -> (name: String)
    ensures
        name@ == library_file_name_spec(core@, lib_extension_spec(os@)),
{
    library_file_name(core, lib_extension(os))
}

/// Path within the cores directory for a named core. The joining is
/// `std::path`'s: when the library's file name is a single plain component
/// and the directory has no verbatim prefix, the result is the directory
/// followed by that name, with at most one separator between.
pub fn core_path(cores_dir: &str, core: &str, os: &str) -> (p: String)
    ensures
        plain_name(library_file_name_spec(core@, lib_extension_spec(os@))) && extendable_dir(cores_dir@)
            ==> joined(cores_dir@, library_file_name_spec(core@, lib_extension_spec(os@)), p@),
{
    let name = core_file_name(core, os);
    paths::join_name(cores_dir, name.as_str())
}

pub open spec fn is_line_end(c: char) -> bool {
    c == '\n' || c == '\r'
}

/// Text without its trailing line breaks.
pub open spec fn without_line_ends(s: Seq<char>) -> Seq<char>
    decreases s.len(),
{
    if s.len() > 0 && is_line_end(s.last()) {
        without_line_ends(s.drop_last())
    } else {
        s
    }
}

/// A core log message as it is recorded: cores end their lines with `\n`
/// (sometimes `\r\n`), which the log adds itself.
pub fn strip_line_ends(text: &str) -> (r: String)
    ensures
        r@ == without_line_ends(text@),
{
    let v = chars_of(text);
    let mut j: usize = v.len();
    assert(v@.subrange(0, v@.len() as int) =~= v@);
    while j > 0 && (v[j - 1] == '\n' || v[j - 1] == '\r')
        invariant
            j <= v@.len(),
            v@ == text@,
            without_line_ends(text@) == without_line_ends(v@.subrange(0, j as int)),
        decreases j,
    {
        assert(v@.subrange(0, j as int).drop_last() =~= v@.subrange(0, j - 1));
        j -= 1;
    }
    proof {
        let rest = v@.subrange(0, j as int);
        if rest.len() > 0 {
            assert(rest.last() == v@[j - 1]);
        }
    }
    string_of(slice_chars(v.as_slice(), 0, j).as_slice())
}

// ─── Diagnostics ─────────────────────────────────────────────────────────────

/// What the core said, and what it was refused.
#[derive(Debug, Clone, Default)]
pub struct Diagnostics {
    /// Messages the core emitted, newest last, at most `MAX_CORE_LOG`.
    pub core_log: Vec<String>,
    /// Environment commands declined, by number, in order, each once. Often
    /// the whole explanation: a refused 14 (`SET_HW_RENDER`) means the core
    /// wanted a GL context and gave up, which presents as a black screen.
    pub refused_commands: Vec<u32>,
    /// Raw value from `SET_SERIALIZATION_QUIRKS`, or `None` if never set.
    pub serialization_quirks: Option<u64>,
    /// Pixel format the core chose, once it has.
    pub pixel_format: Option<&'static str>,
}

/// No command is recorded twice.
pub open spec fn no_duplicates(s: Seq<u32>) -> bool {
    forall|i: int, j: int| 0 <= i < j < s.len() ==> s[i] != s[j]
}

/// Append with a bound: when full, the oldest line goes.
pub open spec fn bounded_push(log: Seq<Seq<char>>, line: Seq<char>, cap: nat) -> Seq<Seq<char>> {
    if log.len() >= cap {
        log.drop_first().push(line)
    } else {
        log.push(line)
    }
}

/// The tag a libretro log level is recorded with.
pub open spec fn level_tag(level: u32) -> Seq<char> {
    if level == sys::RETRO_LOG_ERROR {
        "ERR "@
    } else if level == sys::RETRO_LOG_WARN {
        "WARN"@
    } else if level == sys::RETRO_LOG_DEBUG {
        "DBG "@
    } else {
        "INFO"@
    }
}

/// A core log line as it is recorded.
pub open spec fn core_line(level: u32, text: Seq<char>) -> Seq<char> {
    "[core "@ + level_tag(level) + "] "@ + text
}

/// Which app-wide log a core message is forwarded to, if any: errors and
/// warnings are, because genesis_plus_gx announces a missing BIOS only there.
#[derive(Debug, Clone, Copy, PartialEq, Eq, Structural)]
pub enum Forward {
    Error,
    Warn,
    Nowhere,
}

pub open spec fn forward_of(level: u32) -> Forward {
    if level == sys::RETRO_LOG_ERROR {
        Forward::Error
    } else if level == sys::RETRO_LOG_WARN {
        Forward::Warn
    } else {
        Forward::Nowhere
    }
}

fn push_bounded(log: &mut Vec<String>, line: String)
    requires
        old(log)@.len() <= MAX_CORE_LOG,
    ensures
        views(final(log)@) == bounded_push(views(old(log)@), line@, MAX_CORE_LOG as nat),
        final(log)@.len() <= MAX_CORE_LOG,
{
    let ghost before = views(log@);
    if log.len() >= MAX_CORE_LOG {
        log.remove(0);
        assert(views(log@) =~= before.drop_first());
    }
    let ghost mid = views(log@);
    log.push(line);
    assert(views(log@) =~= mid.push(line@));
}

impl Diagnostics {
    /// Nothing recorded: the state after a reset.
    pub fn new() -> (d: Diagnostics)
        ensures
            d.core_log@.len() == 0,
            d.refused_commands@.len() == 0,
            d.serialization_quirks is None,
            d.pixel_format is None,
    {
        Diagnostics {
            core_log: Vec::new(),
            refused_commands: Vec::new(),
            serialization_quirks: None,
            pixel_format: None,
        }
    }

    /// The bounds the record keeps.
    pub open spec fn wf(&self) -> bool {
        &&& self.core_log@.len() <= MAX_CORE_LOG
        &&& no_duplicates(self.refused_commands@)
    }

    /// Record a declined environment command, once.
    pub fn note_refusal(&mut self, cmd: u32)
        requires
            no_duplicates(old(self).refused_commands@),
        ensures
            final(self).refused_commands@ == (if old(self).refused_commands@.contains(cmd) {
                old(self).refused_commands@
            } else {
                old(self).refused_commands@.push(cmd)
            }),
            no_duplicates(final(self).refused_commands@),
            final(self).core_log == old(self).core_log,
            final(self).serialization_quirks == old(self).serialization_quirks,
            final(self).pixel_format == old(self).pixel_format,
    {
        let mut i: usize = 0;
        while i < self.refused_commands.len()
            invariant
                i <= self.refused_commands@.len(),
                no_duplicates(self.refused_commands@),
                forall|k: int| 0 <= k < i ==> self.refused_commands@[k] != cmd,
            decreases self.refused_commands.len() - i,
        {
            if self.refused_commands[i] == cmd {
                assert(self.refused_commands@[i as int] == cmd);
                return;
            }
            i += 1;
        }
        let ghost before = self.refused_commands@;
        self.refused_commands.push(cmd);
        assert(!before.contains(cmd));
    }

    /// Record a line the core logged, returning where else it should go.
    pub fn record_core_log(&mut self, level: u32, text: &str) -> (fwd: Forward)
        requires
            old(self).core_log@.len() <= MAX_CORE_LOG,
        ensures
            views(final(self).core_log@) == bounded_push(
                views(old(self).core_log@),
                core_line(level, text@),
                MAX_CORE_LOG as nat,
            ),
            final(self).core_log@.len() <= MAX_CORE_LOG,
            final(self).refused_commands == old(self).refused_commands,
            final(self).serialization_quirks == old(self).serialization_quirks,
            final(self).pixel_format == old(self).pixel_format,
            fwd == forward_of(level),
    {
        let mut line: Vec<char> = Vec::new();
        append_str(&mut line, "[core ");
        let tag = if level == sys::RETRO_LOG_ERROR {
            "ERR "
        } else if level == sys::RETRO_LOG_WARN {
            "WARN"
        } else if level == sys::RETRO_LOG_DEBUG {
            "DBG "
        } else {
            "INFO"
        };
        append_str(&mut line, tag);
        append_str(&mut line, "] ");
        append_str(&mut line, text);
        push_bounded(&mut self.core_log, string_of(line.as_slice()));
        if level == sys::RETRO_LOG_ERROR {
            Forward::Error
        } else if level == sys::RETRO_LOG_WARN {
            Forward::Warn
        } else {
            Forward::Nowhere
        }
    }

    /// Record a player-facing notice the core sent with `SET_MESSAGE`.
    pub fn record_message(&mut self, text: &str)
        requires
            old(self).core_log@.len() <= MAX_CORE_LOG,
        ensures
            views(final(self).core_log@) == bounded_push(
                views(old(self).core_log@),
                "[core MSG ] "@ + text@,
                MAX_CORE_LOG as nat,
            ),
            final(self).core_log@.len() <= MAX_CORE_LOG,
            final(self).refused_commands == old(self).refused_commands,
            final(self).serialization_quirks == old(self).serialization_quirks,
            final(self).pixel_format == old(self).pixel_format,
    {
        let mut line: Vec<char> = Vec::new();
        append_str(&mut line, "[core MSG ] ");
        append_str(&mut line, text);
        push_bounded(&mut self.core_log, string_of(line.as_slice()));
    }

    /// Apply a `SET_PIXEL_FORMAT` request. `active` is the raw format frames
    /// are decoded with. A format the conversion can decode becomes the one
    /// in force and is recorded by name; any other is refused and changes
    /// neither the format in force nor what was recorded.
    pub fn apply_pixel_format(&mut self, active: &mut u32, requested: u32) -> (accepted: bool)
        ensures
            accepted == (format_of_raw(requested) is Some),
            accepted ==> {
                &&& *final(active) == requested
                &&& format_in_force(*final(active)) == format_of_raw(requested)->0
                &&& final(self).pixel_format matches Some(n) && n@ == format_name(
                    format_of_raw(requested)->0,
                )
            },
            !accepted ==> *final(active) == *old(active) && final(self).pixel_format == old(
                self,
            ).pixel_format,
            final(self).core_log == old(self).core_log,
            final(self).refused_commands == old(self).refused_commands,
            final(self).serialization_quirks == old(self).serialization_quirks,
    {
        match PixelFormat::from_raw(requested) {
            Some(f) => {
                *active = requested;
                self.pixel_format = Some(f.name());
                true
            },
            None => false,
        }
    }

    /// Whether a save state from this core may be written to disk or synced.
    /// Returns the reason it may not, or `None` when persisting is fine.
    pub fn state_persistence_blocker(&self) -> (reason: Option<&'static str>)
        ensures
            reason == persistence_blocker(self.serialization_quirks),
    {
        match self.serialization_quirks {
            None => None,
            Some(q) => blocker_for(q),
        }
    }
}

pub open spec fn single_session_reason() -> &'static str {
    "this core's save states only work until you close the game"
}

pub open spec fn machine_bound_reason() -> &'static str {
    "this core's save states are tied to this computer's processor, so they cannot be synced to other devices"
}

/// `SINGLE_SESSION` states only work in the run that made them;
/// `ENDIAN_DEPENDENT` and `PLATFORM_DEPENDENT` states will not load on another
/// machine, and RomM is shared between machines by design.
pub open spec fn persistence_blocker(quirks: Option<u64>) -> Option<&'static str> {
    match quirks {
        None => None,
        Some(q) => if q & sys::RETRO_SERIALIZATION_QUIRK_SINGLE_SESSION != 0 {
            Some(single_session_reason())
        } else if q & (sys::RETRO_SERIALIZATION_QUIRK_ENDIAN_DEPENDENT
            | sys::RETRO_SERIALIZATION_QUIRK_PLATFORM_DEPENDENT) != 0 {
            Some(machine_bound_reason())
        } else {
            None
        },
    }
}

fn blocker_for(q: u64) -> (r: Option<&'static str>)
    ensures
        r == persistence_blocker(Some(q)),
{
    if q & sys::RETRO_SERIALIZATION_QUIRK_SINGLE_SESSION != 0 {
        Some("this core's save states only work until you close the game")
    } else if q & (sys::RETRO_SERIALIZATION_QUIRK_ENDIAN_DEPENDENT
        | sys::RETRO_SERIALIZATION_QUIRK_PLATFORM_DEPENDENT) != 0 {
        Some(
            "this core's save states are tied to this computer's processor, so they cannot be synced to other devices",
        )
    } else {
        None
    }
}

// ─── The environment callback ────────────────────────────────────────────────

/// How the frontend answers an environment command.
#[derive(Debug, Clone, Copy, PartialEq, Eq, Structural)]
pub enum EnvAnswer {
    /// Decline and record the command number. Hardware rendering is always
    /// declined: "software-rendered cores only" is an invariant.
    Refuse,
    /// Hand over the log interface.
    GiveLogInterface,
    /// Record the message the core sends.
    RecordMessage,
    /// Record the requested quirks and report support for none of them.
    RecordQuirks,
    /// Answer `true`: null frames may be passed to mean "same again".
    AllowDupe,
    /// Accept a pixel format the conversion understands.
    AcceptPixelFormat,
    /// Decline a pixel format the conversion would misread; the core picks
    /// again.
    RejectPixelFormat,
    GiveSystemDirectory,
    GiveSaveDirectory,
    /// Core options: accepted, none set, no update pending.
    AcceptVariables,
    NoVariable,
    NoVariableUpdate,
    /// The core asked to quit.
    Shutdown,
}

/// The answer to a command, after masking off the experimental bit. For
/// `SET_PIXEL_FORMAT` it depends on the raw format value the core sent.
pub open spec fn env_answer_spec(cmd: u32, pixel_raw: u32) -> EnvAnswer {
    let c = cmd % 0x10000;
    if c == sys::RETRO_ENVIRONMENT_SET_HW_RENDER || c == sys::RETRO_ENVIRONMENT_GET_PREFERRED_HW_RENDER {
        EnvAnswer::Refuse
    } else if c == sys::RETRO_ENVIRONMENT_GET_LOG_INTERFACE {
        EnvAnswer::GiveLogInterface
    } else if c == sys::RETRO_ENVIRONMENT_SET_MESSAGE || c == sys::RETRO_ENVIRONMENT_SET_MESSAGE_EXT {
        EnvAnswer::RecordMessage
    } else if c == sys::RETRO_ENVIRONMENT_SET_SERIALIZATION_QUIRKS {
        EnvAnswer::RecordQuirks
    } else if c == sys::RETRO_ENVIRONMENT_GET_CAN_DUPE {
        EnvAnswer::AllowDupe
    } else if c == sys::RETRO_ENVIRONMENT_SET_PIXEL_FORMAT {
        if format_of_raw(pixel_raw) is Some {
            EnvAnswer::AcceptPixelFormat
        } else {
            EnvAnswer::RejectPixelFormat
        }
    } else if c == sys::RETRO_ENVIRONMENT_GET_SYSTEM_DIRECTORY {
        EnvAnswer::GiveSystemDirectory
    } else if c == sys::RETRO_ENVIRONMENT_GET_SAVE_DIRECTORY {
        EnvAnswer::GiveSaveDirectory
    } else if c == sys::RETRO_ENVIRONMENT_SET_VARIABLES {
        EnvAnswer::AcceptVariables
    } else if c == sys::RETRO_ENVIRONMENT_GET_VARIABLE {
        EnvAnswer::NoVariable
    } else if c == sys::RETRO_ENVIRONMENT_GET_VARIABLE_UPDATE {
        EnvAnswer::NoVariableUpdate
    } else if c == sys::RETRO_ENVIRONMENT_SHUTDOWN {
        EnvAnswer::Shutdown
    } else {
        EnvAnswer::Refuse
    }
}

/// How to answer environment command `cmd`. `pixel_raw` is the value the core
/// passed with `SET_PIXEL_FORMAT` and is ignored for every other command.
pub fn env_answer(cmd: u32, pixel_raw: u32) -> (a: EnvAnswer)
    ensures
        a == env_answer_spec(cmd, pixel_raw),
{
    let c = sys::env_command(cmd);
    if c == sys::RETRO_ENVIRONMENT_SET_HW_RENDER || c == sys::RETRO_ENVIRONMENT_GET_PREFERRED_HW_RENDER {
        EnvAnswer::Refuse
    } else if c == sys::RETRO_ENVIRONMENT_GET_LOG_INTERFACE {
        EnvAnswer::GiveLogInterface
    } else if c == sys::RETRO_ENVIRONMENT_SET_MESSAGE || c == sys::RETRO_ENVIRONMENT_SET_MESSAGE_EXT {
        EnvAnswer::RecordMessage
    } else if c == sys::RETRO_ENVIRONMENT_SET_SERIALIZATION_QUIRKS {
        EnvAnswer::RecordQuirks
    } else if c == sys::RETRO_ENVIRONMENT_GET_CAN_DUPE {
        EnvAnswer::AllowDupe
    } else if c == sys::RETRO_ENVIRONMENT_SET_PIXEL_FORMAT {
        match PixelFormat::from_raw(pixel_raw) {
            Some(_) => EnvAnswer::AcceptPixelFormat,
            None => EnvAnswer::RejectPixelFormat,
        }
    } else if c == sys::RETRO_ENVIRONMENT_GET_SYSTEM_DIRECTORY {
        EnvAnswer::GiveSystemDirectory
    } else if c == sys::RETRO_ENVIRONMENT_GET_SAVE_DIRECTORY {
        EnvAnswer::GiveSaveDirectory
    } else if c == sys::RETRO_ENVIRONMENT_SET_VARIABLES {
        EnvAnswer::AcceptVariables
    } else if c == sys::RETRO_ENVIRONMENT_GET_VARIABLE {
        EnvAnswer::NoVariable
    } else if c == sys::RETRO_ENVIRONMENT_GET_VARIABLE_UPDATE {
        EnvAnswer::NoVariableUpdate
    } else if c == sys::RETRO_ENVIRONMENT_SHUTDOWN {
        EnvAnswer::Shutdown
    } else {
        EnvAnswer::Refuse
    }
}

/// No core is ever granted a hardware render context, experimental flag or
/// not.
pub proof fn lemma_hardware_rendering_is_always_refused(cmd: u32, pixel_raw: u32)
    requires
        cmd % 0x10000 == sys::RETRO_ENVIRONMENT_SET_HW_RENDER || cmd % 0x10000
            == sys::RETRO_ENVIRONMENT_GET_PREFERRED_HW_RENDER,
    ensures
        env_answer_spec(cmd, pixel_raw) == EnvAnswer::Refuse,
{
}

/// Every request a core depends on gets its own answer, and only that request
/// gets it: the system folder is handed out exactly for
/// `GET_SYSTEM_DIRECTORY` (where cores look for BIOS files), the save folder
/// exactly for `GET_SAVE_DIRECTORY`, and so on, with or without the
/// experimental flag.
pub proof fn lemma_each_request_gets_its_own_answer(cmd: u32, pixel_raw: u32)
    ensures
        ({
            let c = cmd % 0x10000;
            let a = env_answer_spec(cmd, pixel_raw);
            &&& (a == EnvAnswer::GiveSystemDirectory) == (c == 9)
            &&& (a == EnvAnswer::GiveSaveDirectory) == (c == 31)
            &&& (a == EnvAnswer::GiveLogInterface) == (c == 27)
            &&& (a == EnvAnswer::RecordMessage) == (c == 6 || c == 60)
            &&& (a == EnvAnswer::RecordQuirks) == (c == 44)
            &&& (a == EnvAnswer::AllowDupe) == (c == 3)
            &&& (a == EnvAnswer::AcceptPixelFormat || a == EnvAnswer::RejectPixelFormat) == (c == 10)
            &&& (a == EnvAnswer::AcceptVariables) == (c == 16)
            &&& (a == EnvAnswer::NoVariable) == (c == 15)
            &&& (a == EnvAnswer::NoVariableUpdate) == (c == 17)
            &&& (a == EnvAnswer::Shutdown) == (c == 7)
        }),
{
}

/// A pixel format is accepted exactly when the conversion can decode it.
pub proof fn lemma_only_decodable_formats_are_accepted(cmd: u32, pixel_raw: u32)
    requires
        cmd % 0x10000 == sys::RETRO_ENVIRONMENT_SET_PIXEL_FORMAT,
    ensures
        (env_answer_spec(cmd, pixel_raw) == EnvAnswer::AcceptPixelFormat) == (format_of_raw(pixel_raw) is Some),
{
}

// ─── Input ───────────────────────────────────────────────────────────────────

/// What the core reads for one button: 1 when that bit of the port's mask is
/// set. Anything but a joypad, a port past `MAX_PORTS` or an id past the
/// button count reads 0 — these arrive from C and cannot be trusted.
pub open spec fn input_state_spec(masks: Seq<u16>, port: u32, device: u32, id: u32) -> i16 {
    if device != sys::RETRO_DEVICE_JOYPAD || port >= MAX_PORTS || id >= sys::JOYPAD_BUTTON_COUNT {
        0
    } else {
        ((masks[port as int] >> (id as u16)) & 1u16) as i16
    }
}

pub fn input_state(masks: &[u16; 2], port: u32, device: u32, index: u32, id: u32) -> (v: i16)
    ensures
        v == input_state_spec(masks@, port, device, id),
{
    if device != sys::RETRO_DEVICE_JOYPAD {
        return 0;
    }
    if port as usize >= MAX_PORTS || id as usize >= sys::JOYPAD_BUTTON_COUNT {
        return 0;
    }
    let mask = masks[port as usize];
    ((mask >> (id as u16)) & 1u16) as i16
}

/// A pressed button reads 1 and a released one 0.
pub proof fn lemma_input_reads_one_bit(mask: u16, id: u16)
    requires
        id < 16,
    ensures
        ((mask >> id) & 1u16) == 1u16 || ((mask >> id) & 1u16) == 0u16,
        ((mask >> id) & 1u16 == 1u16) == (mask & (1u16 << id) != 0u16),
{
    assert(id < 16 ==> (((mask >> id) & 1u16) == 1u16 || ((mask >> id) & 1u16) == 0u16))
        by (bit_vector);
    assert(id < 16 ==> (((mask >> id) & 1u16 == 1u16) == (mask & (1u16 << id) != 0u16)))
        by (bit_vector);
}

// ─── Video ───────────────────────────────────────────────────────────────────

/// The pixel format in force: what the core chose, or the libretro default
/// when the recorded value names none.
pub open spec fn format_in_force(raw: u32) -> PixelFormat {
    match format_of_raw(raw) {
        Some(f) => f,
        None => PixelFormat::Rgb1555,
    }
}

/// How many bytes of the core's buffer a frame of this geometry spans: every
/// row but the last at full pitch, then the last row's pixels. `None` for an
/// empty geometry, or one too large to address.
pub fn frame_span(width: usize, height: usize, pitch: usize, format: PixelFormat) -> (n: Option<usize>)
    ensures
        width == 0 || height == 0 || pitch == 0 ==> n is None,
        n matches Some(v) ==> v == required_len(width as int, height as int, pitch as int, format),
        width > 0 && height > 0 && pitch > 0 && required_len(
            width as int,
            height as int,
            pitch as int,
            format,
        ) <= usize::MAX ==> n is Some,
{
    if width == 0 || height == 0 || pitch == 0 {
        return None;
    }
    let b = format.bytes_per_pixel();
    let rows = match pitch.checked_mul(height - 1) {
        Some(v) => v,
        None => return None,
    };
    let last = match width.checked_mul(b) {
        Some(v) => v,
        None => return None,
    };
    rows.checked_add(last)
}

/// A frame the core delivered. No source means "same again", which cores may
/// send because `GET_CAN_DUPE` was answered true: the previous picture stays,
/// as it also does when the frame cannot be converted. The size comes from
/// the callback, never from the advertised geometry: Stella advertises
/// 320x228 and delivers 160x228.
pub fn refresh_frame(
    current: &mut Option<Frame>,
    source: Option<&[u8]>,
    width: usize,
    height: usize,
    pitch: usize,
    raw_format: u32,
)
    ensures
        match source {
            None => *final(current) == *old(current),
            Some(src) => {
                let f = format_in_force(raw_format);
                if geometry_ok(
                    src@.len() as int,
                    width as int,
                    height as int,
                    pitch as int,
                    f,
                ) {
                    match *final(current) {
                        Some(fr) => fr.width == width && fr.height == height && fr.rgba@
                            == converted(src@, width as int, height as int, pitch as int, f),
                        None => false,
                    }
                } else {
                    *final(current) == *old(current)
                }
            },
        },
{
    let src = match source {
        Some(s) => s,
        None => return,
    };
    let format = match PixelFormat::from_raw(raw_format) {
        Some(f) => f,
        None => PixelFormat::Rgb1555,
    };
    match convert(src, width, height, pitch, format) {
        Some(frame) => {
            *current = Some(frame);
        },
        None => {},
    }
}

// ─── Save memory and states ──────────────────────────────────────────────────

/// Why save memory or a save state was not applied.
#[derive(Debug, Clone, PartialEq, Eq)]
pub enum StateError {
    /// The game has no battery save.
    NoBatterySave,
    /// The save's size does not match what the game expects: (have, expected).
    SaveSizeMismatch(usize, usize),
    /// The core exposes no save memory.
    NoSaveMemory,
    /// The core does not support save states at all; carries its name.
    StatesUnsupported(String),
    /// The core reports no state size until the game has run a while.
    NotYetSerializable(String),
    /// The state's size does not match what this core build writes:
    /// (have, expected, core name).
    StateSizeMismatch(usize, usize, String),
    /// The core failed to write a state; carries its name.
    SaveFailed(String),
    /// The core rejected a state it was given; carries its name.
    LoadRejected(String),
}

/// What to tell the player.
pub open spec fn state_error_text(e: StateError) -> Seq<char> {
    match e {
        StateError::NoBatterySave => "this game has no battery save"@,
        StateError::SaveSizeMismatch(have, expected) => "save is "@ + decimal(have as nat)
            + " bytes but this game expects "@ + decimal(expected as nat)
            + " — refusing to write a partial save"@,
        StateError::NoSaveMemory => "core exposes no save memory"@,
        StateError::StatesUnsupported(name) => name@ + " does not support save states"@,
        StateError::NotYetSerializable(name) => name@
            + " cannot save a state yet — start the game first"@,
        StateError::StateSizeMismatch(have, expected, name) => "save state is "@ + decimal(
            have as nat,
        ) + " bytes but this core expects "@ + decimal(expected as nat)
            + " — it was probably written by a different version of "@ + name@,
        StateError::SaveFailed(name) => name@ + " failed to write a save state"@,
        StateError::LoadRejected(name) => name@ + " rejected the save state"@,
    }
}

impl StateError {
    pub fn message(&self) -> (m: String)
        ensures
            m@ == state_error_text(*self),
    {
        let mut out: Vec<char> = Vec::new();
        match self {
            StateError::NoBatterySave => append_str(&mut out, "this game has no battery save"),
            StateError::SaveSizeMismatch(have, expected) => {
                append_str(&mut out, "save is ");
                append_chars(&mut out, decimal_string(*have as u64).as_slice());
                append_str(&mut out, " bytes but this game expects ");
                append_chars(&mut out, decimal_string(*expected as u64).as_slice());
                append_str(&mut out, " — refusing to write a partial save");
            },
            StateError::NoSaveMemory => append_str(&mut out, "core exposes no save memory"),
            StateError::StatesUnsupported(name) => {
                append_str(&mut out, name.as_str());
                append_str(&mut out, " does not support save states");
            },
            StateError::NotYetSerializable(name) => {
                append_str(&mut out, name.as_str());
                append_str(&mut out, " cannot save a state yet — start the game first");
            },
            StateError::StateSizeMismatch(have, expected, name) => {
                append_str(&mut out, "save state is ");
                append_chars(&mut out, decimal_string(*have as u64).as_slice());
                append_str(&mut out, " bytes but this core expects ");
                append_chars(&mut out, decimal_string(*expected as u64).as_slice());
                append_str(&mut out, " — it was probably written by a different version of ");
                append_str(&mut out, name.as_str());
            },
            StateError::SaveFailed(name) => {
                append_str(&mut out, name.as_str());
                append_str(&mut out, " failed to write a save state");
            },
            StateError::LoadRejected(name) => {
                append_str(&mut out, name.as_str());
                append_str(&mut out, " rejected the save state");
            },
        }
        string_of(out.as_slice())
    }
}

/// Restoring SRAM requires the save to be exactly the size the game expects.
/// A short write would leave half the old save in place and corrupt it in a
/// way the player only discovers much later.
pub fn check_save_ram_restore(expected: usize, have: usize) -> (r: Result<(), StateError>)
    ensures
        expected == 0 ==> r == Err::<(), StateError>(StateError::NoBatterySave),
        expected != 0 && have != expected ==> r == Err::<(), StateError>(
            StateError::SaveSizeMismatch(have, expected),
        ),
        expected != 0 && have == expected ==> r is Ok,
{
    if expected == 0 {
        Err(StateError::NoBatterySave)
    } else if have != expected {
        Err(StateError::SaveSizeMismatch(have, expected))
    } else {
        Ok(())
    }
}

/// Whether quirks say the core reports no state size until it has run.
pub open spec fn must_initialize(quirks: Option<u64>) -> bool {
    quirks matches Some(q) && q & sys::RETRO_SERIALIZATION_QUIRK_MUST_INITIALIZE != 0
}

/// Why a save state cannot be taken when the core reports size zero. A zero
/// does not always mean "unsupported": cores that set `MUST_INITIALIZE`
/// report zero until some frames have run, and treating the first zero as
/// final would disable save states for those cores for good.
pub fn empty_state_reason(core_name: &str, quirks: Option<u64>) -> (e: StateError)
    ensures
        must_initialize(quirks) ==> (e matches StateError::NotYetSerializable(n) && n@
            == core_name@),
        !must_initialize(quirks) ==> (e matches StateError::StatesUnsupported(n) && n@
            == core_name@),
{
    let name = string_of(chars_of(core_name).as_slice());
    let must_init = match quirks {
        Some(q) => q & sys::RETRO_SERIALIZATION_QUIRK_MUST_INITIALIZE != 0,
        None => false,
    };
    if must_init {
        StateError::NotYetSerializable(name)
    } else {
        StateError::StatesUnsupported(name)
    }
}

/// A state is loaded only when it is exactly the size this core build writes:
/// a state from another build may be rejected, or worse, accepted and corrupt
/// the game.
pub fn check_state_load(core_name: &str, expected: usize, have: usize) -> (r: Result<
    (),
    StateError,
>)
    ensures
        expected == 0 ==> (r matches Err(StateError::StatesUnsupported(n)) && n@ == core_name@),
        expected != 0 && have != expected ==> (r matches Err(
            StateError::StateSizeMismatch(h, x, n),
        ) && h == have && x == expected && n@ == core_name@),
        expected != 0 && have == expected ==> r is Ok,
{
    let name = string_of(chars_of(core_name).as_slice());
    if expected == 0 {
        Err(StateError::StatesUnsupported(name))
    } else if have != expected {
        Err(StateError::StateSizeMismatch(have, expected, name))
    } else {
        Ok(())
    }
}

} // verus!
