//! The in-app log.
//!
//! The interesting failures happen on someone else's machine, so anything
//! worth diagnosing has to end up somewhere the user can copy from without
//! opening a terminal: a bounded buffer of entries, and a report that puts a
//! header describing the machine in front of them.
//!
//! The buffer is a value the caller owns; the process-wide instance, the clock
//! and the mirror to stderr belong to the application around it.

use std::collections::VecDeque;
use vstd::prelude::*;

use crate::libretro::host::Diagnostics;
use crate::text::{
    append_chars, append_str, decimal, decimal_string, digit, digit_char, hex, hex_string, pad_left,
    pad_left_chars, string_of,
};

verus! {

/// Entries kept: small enough to paste into a chat message, big enough to
/// cover a whole session of browsing and downloading.
pub const CAPACITY: usize = 500;

/// Lines of what the core said that a report carries: the last ones, which
/// are the ones next to the failure.
pub const CORE_LINES_SHOWN: usize = 40;

#[derive(Debug, Clone, Copy, PartialEq, Eq, Structural)]
pub enum Level {
    Info,
    Warn,
    Error,
}

pub open spec fn tag_of(level: Level) -> Seq<char> {
    match level {
        Level::Info => "INFO"@,
        Level::Warn => "WARN"@,
        Level::Error => "ERR "@,
    }
}

impl Level {
    /// The four-character tag an entry is printed with.
    pub fn tag(self) -> (t: &'static str)
        ensures
            t@ == tag_of(self),
    {
        match self {
            Level::Info => "INFO",
            Level::Warn => "WARN",
            Level::Error => "ERR ",
        }
    }
}

/// One line of the log.
#[derive(Debug)]
pub struct Entry {
    /// Hundredths of a second since the app started. Wall-clock time is not
    /// needed to reason about ordering.
    pub at_centis: u64,
    pub level: Level,
    pub message: String,
}

/// The buffer: entries oldest first, at most `CAPACITY` of them.
#[derive(Debug)]
pub struct LogBuffer {
    pub entries: VecDeque<Entry>,
}

impl LogBuffer {
    pub fn new() -> (b: LogBuffer)
        ensures
            b.entries@.len() == 0,
            b.wf(),
    {
        LogBuffer { entries: VecDeque::new() }
    }

    pub open spec fn wf(&self) -> bool {
        self.entries@.len() <= CAPACITY
    }
}

/// Appending to a full buffer drops the oldest entry.
pub open spec fn appended(entries: Seq<Entry>, e: Entry) -> Seq<Entry> {
    if entries.len() >= CAPACITY {
        entries.drop_first().push(e)
    } else {
        entries.push(e)
    }
}

/// Record a message.
pub fn log(buf: &mut LogBuffer, at_centis: u64, level: Level, message: String)
    requires
        old(buf).wf(),
    ensures
        final(buf).wf(),
        final(buf).entries@ == appended(
            old(buf).entries@,
            (Entry { at_centis, level, message }),
        ),
{
    let ghost before = buf.entries@;
    if buf.entries.len() >= CAPACITY {
        let _ = buf.entries.pop_front();
        assert(buf.entries@ =~= before.drop_first());
    }
    buf.entries.push_back(Entry { at_centis, level, message });
}

pub fn info(buf: &mut LogBuffer, at_centis: u64, message: String)
    requires
        old(buf).wf(),
    ensures
        final(buf).wf(),
        final(buf).entries@ == appended(
            old(buf).entries@,
            (Entry { at_centis, level: Level::Info, message }),
        ),
{
    log(buf, at_centis, Level::Info, message);
}

pub fn warn(buf: &mut LogBuffer, at_centis: u64, message: String)
    requires
        old(buf).wf(),
    ensures
        final(buf).wf(),
        final(buf).entries@ == appended(
            old(buf).entries@,
            (Entry { at_centis, level: Level::Warn, message }),
        ),
{
    log(buf, at_centis, Level::Warn, message);
}

pub fn error(buf: &mut LogBuffer, at_centis: u64, message: String)
    requires
        old(buf).wf(),
    ensures
        final(buf).wf(),
        final(buf).entries@ == appended(
            old(buf).entries@,
            (Entry { at_centis, level: Level::Error, message }),
        ),
{
    log(buf, at_centis, Level::Error, message);
}

/// Forget every entry.
pub fn clear(buf: &mut LogBuffer)
    ensures
        final(buf).entries@.len() == 0,
        final(buf).wf(),
{
    buf.entries.clear();
}

/// A copy of the entries, oldest first.
pub fn entries(buf: &LogBuffer) -> (out: Vec<Entry>)
    ensures
        out@ == buf.entries@,
{
    let mut out: Vec<Entry> = Vec::new();
    let mut i: usize = 0;
    while i < buf.entries.len()
        invariant
            i <= buf.entries@.len(),
            out@ == buf.entries@.take(i as int),
        decreases buf.entries@.len() - i,
    {
        let e = &buf.entries[i];
        out.push(Entry { at_centis: e.at_centis, level: e.level, message: e.message.clone() });
        assert(out@ =~= buf.entries@.take(i + 1));
        i += 1;
    }
    assert(buf.entries@.take(i as int) =~= buf.entries@);
    out
}

/// The buffer never holds more than `CAPACITY` entries, and a full buffer
/// keeps the newest: after a message is logged it is the last entry.
pub proof fn lemma_the_buffer_is_bounded_and_keeps_the_newest(entries: Seq<Entry>, e: Entry)
    requires
        entries.len() <= CAPACITY,
    ensures
        appended(entries, e).len() <= CAPACITY,
        appended(entries, e).last() == e,
        entries.len() == CAPACITY ==> appended(entries, e).len() == CAPACITY,
        entries.len() < CAPACITY ==> appended(entries, e).len() == entries.len() + 1,
{
}

/// Entries keep the order they were logged in: what was there before is
/// still there, in order, minus at most the oldest.
pub proof fn lemma_entries_keep_their_order(entries: Seq<Entry>, e: Entry, i: int, j: int)
    requires
        entries.len() <= CAPACITY,
        0 <= i < j < entries.len(),
        entries.len() < CAPACITY || i > 0,
    ensures
        ({
            let shift: int = if entries.len() >= CAPACITY { 1 } else { 0 };
            &&& appended(entries, e)[i - shift] == entries[i]
            &&& appended(entries, e)[j - shift] == entries[j]
            &&& i - shift < j - shift
        }),
{
}

// ─── The report ──────────────────────────────────────────────────────────────

/// What the report says about the machine; "it didn't launch" is
/// unanswerable without the OS and architecture.
#[derive(Debug, Clone)]
pub struct ReportHeader {
    pub version: String,
    pub os: String,
    pub arch: String,
    /// Whether controller support was compiled in.
    pub gamepad: bool,
    /// Where the configuration lives, when that could be determined.
    pub config_path: Option<String>,
}

/// Two decimal digits.
pub open spec fn two_digits(n: nat) -> Seq<char> {
    seq![digit_char(n / 10), digit_char(n % 10)]
}

/// Seconds with two decimals, right-aligned in eight columns: `{:8.2}`.
pub open spec fn seconds_text(at_centis: nat) -> Seq<char> {
    pad_left(decimal(at_centis / 100) + "."@ + two_digits(at_centis % 100), 8)
}

pub open spec fn entry_line(e: Entry) -> Seq<char> {
    seconds_text(e.at_centis as nat) + "s "@ + tag_of(e.level) + " "@ + e.message@ + "\n"@
}

pub open spec fn entry_lines(entries: Seq<Entry>) -> Seq<char>
    decreases entries.len(),
{
    if entries.len() == 0 {
        Seq::empty()
    } else {
        entry_lines(entries.drop_last()) + entry_line(entries.last())
    }
}

/// Each line followed by a newline.
pub open spec fn text_lines(lines: Seq<Seq<char>>) -> Seq<char>
    decreases lines.len(),
{
    if lines.len() == 0 {
        Seq::empty()
    } else {
        text_lines(lines.drop_last()) + lines.last() + "\n"@
    }
}

/// Numbers in decimal, separated by single spaces.
pub open spec fn numbers_text(ns: Seq<u32>) -> Seq<char>
    decreases ns.len(),
{
    if ns.len() == 0 {
        Seq::empty()
    } else if ns.len() == 1 {
        decimal(ns[0] as nat)
    } else {
        numbers_text(ns.drop_last()) + " "@ + decimal(ns.last() as nat)
    }
}

/// The last `CORE_LINES_SHOWN` lines of a log.
pub open spec fn tail(lines: Seq<Seq<char>>) -> Seq<Seq<char>> {
    if lines.len() > CORE_LINES_SHOWN {
        lines.subrange(lines.len() - CORE_LINES_SHOWN, lines.len() as int)
    } else {
        lines
    }
}

/// A core was involved this session: it logged, was refused something, or
/// chose a pixel format.
pub open spec fn had_core(d: Diagnostics) -> bool {
    d.core_log@.len() > 0 || d.refused_commands@.len() > 0 || d.pixel_format is Some
}

pub open spec fn pixel_part(d: Diagnostics) -> Seq<char> {
    match d.pixel_format {
        Some(f) => "pixel fmt "@ + f@ + "\n"@,
        None => Seq::empty(),
    }
}

pub open spec fn quirks_part(d: Diagnostics) -> Seq<char> {
    match d.serialization_quirks {
        Some(q) => "quirks    0x"@ + hex(q as nat) + "\n"@,
        None => Seq::empty(),
    }
}

pub open spec fn refused_part(d: Diagnostics) -> Seq<char> {
    if d.refused_commands@.len() > 0 {
        "refused   "@ + numbers_text(d.refused_commands@) + "\n"@
    } else {
        Seq::empty()
    }
}

pub open spec fn said_part(d: Diagnostics) -> Seq<char> {
    if d.core_log@.len() > 0 {
        "\n--- what the core said ("@ + decimal(d.core_log@.len()) + ") ---\n"@ + text_lines(
            tail(d.core_log@.map_values(|s: String| s@)),
        )
    } else {
        Seq::empty()
    }
}

pub open spec fn context_text(d: Diagnostics) -> Seq<char> {
    "\n--- emulation ---\n"@ + pixel_part(d) + quirks_part(d) + refused_part(d) + said_part(d)
}

/// The emulation section of a report, or `None` when no core ran this session
/// so that a report from someone who only browsed stays short.
pub open spec fn context_spec(d: Diagnostics) -> Option<Seq<char>> {
    if had_core(d) {
        Some(context_text(d))
    } else {
        None
    }
}

pub open spec fn header_text(h: ReportHeader) -> Seq<char> {
    "=== RUSTROMM LOG ===\n"@
    + "version   "@ + h.version@ + "\n"@
    + "platform  "@ + h.os@ + " "@ + h.arch@ + "\n"@
    + "gamepad   "@ + (if h.gamepad {
        "feature enabled"@
    } else {
        "feature disabled at build time"@
    }) + "\n"@
    + (match h.config_path {
        Some(p) => "config    "@ + p@ + "\n"@,
        None => Seq::empty(),
    })
    + "\n"@
}

pub open spec fn report_spec(h: ReportHeader, d: Diagnostics, entries: Seq<Entry>) -> Seq<char> {
    header_text(h)
    + (match context_spec(d) {
        Some(c) => c + "\n"@,
        None => Seq::empty(),
    })
    + (if entries.len() == 0 {
        "(no entries)\n"@
    } else {
        entry_lines(entries)
    })
}

fn seconds_field(at_centis: u64) -> (r: Vec<char>)
    ensures
        r@ == seconds_text(at_centis as nat),
{
    let mut s = decimal_string(at_centis / 100);
    let frac = at_centis % 100;
    s.push('.');
    s.push(digit(frac / 10));
    s.push(digit(frac % 10));
    assert(s@ =~= decimal((at_centis / 100) as nat) + "."@ + two_digits((at_centis % 100) as nat))
        by {
        reveal_strlit(".");
    }
    pad_left_chars(s.as_slice(), 8)
}

fn push_entry_line(out: &mut Vec<char>, e: &Entry)
    ensures
        final(out)@ == old(out)@ + entry_line(*e),
{
    let secs = seconds_field(e.at_centis);
    append_chars(out, secs.as_slice());
    append_str(out, "s ");
    append_str(out, e.level.tag());
    append_str(out, " ");
    append_str(out, e.message.as_str());
    append_str(out, "\n");
}

fn push_numbers(out: &mut Vec<char>, ns: &Vec<u32>)
    ensures
        final(out)@ == old(out)@ + numbers_text(ns@),
{
    let ghost start = out@;
    let mut i: usize = 0;
    while i < ns.len()
        invariant
            i <= ns@.len(),
            out@ == start + numbers_text(ns@.take(i as int)),
        decreases ns@.len() - i,
    {
        let ghost before = out@;
        if i != 0 {
            append_str(out, " ");
        }
        let d = decimal_string(ns[i] as u64);
        append_chars(out, d.as_slice());
        proof {
            let t = ns@.take(i + 1);
            assert(t.drop_last() =~= ns@.take(i as int));
            assert(t.last() == ns@[i as int]);
            if i == 0 {
                assert(t.len() == 1);
                assert(numbers_text(ns@.take(0)) =~= Seq::<char>::empty());
            }
            assert(out@ =~= start + numbers_text(t));
        }
        i += 1;
    }
    assert(ns@.take(i as int) =~= ns@);
}

fn push_lines(out: &mut Vec<char>, lines: &Vec<String>, from: usize)
    requires
        from <= lines@.len(),
    ensures
        final(out)@ == old(out)@ + text_lines(
            lines@.map_values(|s: String| s@).subrange(from as int, lines@.len() as int),
        ),
{
    let ghost start = out@;
    let ghost all = lines@.map_values(|s: String| s@);
    let mut i: usize = from;
    assert(all.subrange(from as int, from as int) =~= Seq::<Seq<char>>::empty());
    while i < lines.len()
        invariant
            from <= i <= lines@.len(),
            all == lines@.map_values(|s: String| s@),
            out@ == start + text_lines(all.subrange(from as int, i as int)),
        decreases lines@.len() - i,
    {
        append_str(out, lines[i].as_str());
        append_str(out, "\n");
        proof {
            let t = all.subrange(from as int, i + 1);
            assert(t.drop_last() =~= all.subrange(from as int, i as int));
            assert(t.last() == lines@[i as int]@);
            assert(out@ =~= start + text_lines(t));
        }
        i += 1;
    }
}

/// The emulation section of a report: pixel format, serialization quirks, the
/// environment commands that were refused (frequently the whole explanation —
/// a refused 14 is a core that wanted OpenGL and gave up, which reaches the
/// player as a black screen) and the tail of what the core logged.
pub fn emulation_context(d: &Diagnostics) -> (r: Option<String>)
    ensures
        match r {
            Some(s) => context_spec(*d) == Some(s@),
            None => context_spec(*d) is None,
        },
{
    if d.core_log.len() == 0 && d.refused_commands.len() == 0 && d.pixel_format.is_none() {
        return None;
    }
    let mut out: Vec<char> = Vec::new();
    append_str(&mut out, "\n--- emulation ---\n");
    push_pixel_part(&mut out, d);
    push_quirks_part(&mut out, d);
    push_refused_part(&mut out, d);
    push_said_part(&mut out, d);
    assert(out@ =~= context_text(*d));
    Some(string_of(out.as_slice()))
}

fn push_pixel_part(out: &mut Vec<char>, d: &Diagnostics)
    ensures
        final(out)@ == old(out)@ + pixel_part(*d),
{
    match d.pixel_format {
        Some(f) => {
            append_str(out, "pixel fmt ");
            append_str(out, f);
            append_str(out, "\n");
        },
        None => {},
    }
}

fn push_quirks_part(out: &mut Vec<char>, d: &Diagnostics)
    ensures
        final(out)@ == old(out)@ + quirks_part(*d),
{
    match d.serialization_quirks {
        Some(q) => {
            append_str(out, "quirks    0x");
            let h = hex_string(q);
            append_chars(out, h.as_slice());
            append_str(out, "\n");
        },
        None => {},
    }
}

fn push_refused_part(out: &mut Vec<char>, d: &Diagnostics)
    ensures
        final(out)@ == old(out)@ + refused_part(*d),
{
    if d.refused_commands.len() > 0 {
        append_str(out, "refused   ");
        push_numbers(out, &d.refused_commands);
        append_str(out, "\n");
    }
}

fn push_said_part(out: &mut Vec<char>, d: &Diagnostics)
    ensures
        final(out)@ == old(out)@ + said_part(*d),
{
    if d.core_log.len() > 0 {
        append_str(out, "\n--- what the core said (");
        let n = decimal_string(d.core_log.len() as u64);
        append_chars(out, n.as_slice());
        append_str(out, ") ---\n");
        let from: usize = if d.core_log.len() > CORE_LINES_SHOWN {
            d.core_log.len() - CORE_LINES_SHOWN
        } else {
            0
        };
        push_lines(out, &d.core_log, from);
        proof {
            let all = d.core_log@.map_values(|s: String| s@);
            assert(all.subrange(from as int, all.len() as int) =~= tail(all));
        }
    }
}

/// The whole log as one pasteable block: the header, the emulation section
/// when a core ran, then every entry, or `(no entries)`.
pub fn report(header: &ReportHeader, d: &Diagnostics, buf: &LogBuffer) -> (r: String)
    ensures
        r@ == report_spec(*header, *d, buf.entries@),
{
    let mut out: Vec<char> = Vec::new();
    append_str(&mut out, "=== RUSTROMM LOG ===\n");
    append_str(&mut out, "version   ");
    append_str(&mut out, header.version.as_str());
    append_str(&mut out, "\n");
    append_str(&mut out, "platform  ");
    append_str(&mut out, header.os.as_str());
    append_str(&mut out, " ");
    append_str(&mut out, header.arch.as_str());
    append_str(&mut out, "\n");
    append_str(&mut out, "gamepad   ");
    if header.gamepad {
        append_str(&mut out, "feature enabled");
    } else {
        append_str(&mut out, "feature disabled at build time");
    }
    append_str(&mut out, "\n");
    match &header.config_path {
        Some(p) => {
            append_str(&mut out, "config    ");
            append_str(&mut out, p.as_str());
            append_str(&mut out, "\n");
        },
        None => {},
    }
    append_str(&mut out, "\n");
    assert(out@ =~= header_text(*header));
    let ghost h = out@;
    match emulation_context(d) {
        Some(extra) => {
            append_str(&mut out, extra.as_str());
            append_str(&mut out, "\n");
        },
        None => {},
    }
    let ghost hc = out@;
    if buf.entries.len() == 0 {
        append_str(&mut out, "(no entries)\n");
    } else {
        let mut i: usize = 0;
        while i < buf.entries.len()
            invariant
                i <= buf.entries@.len(),
                out@ == hc + entry_lines(buf.entries@.take(i as int)),
            decreases buf.entries@.len() - i,
        {
            push_entry_line(&mut out, &buf.entries[i]);
            proof {
                let t = buf.entries@.take(i + 1);
                assert(t.drop_last() =~= buf.entries@.take(i as int));
                assert(out@ =~= hc + entry_lines(t));
            }
            i += 1;
        }
        assert(buf.entries@.take(i as int) =~= buf.entries@);
    }
    assert(out@ =~= report_spec(*header, *d, buf.entries@));
    string_of(out.as_slice())
}

} // verus!
