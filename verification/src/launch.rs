//! Handing a downloaded ROM to an external emulator.
//!
//! Reached only for platforms without an embedded core. The command a player
//! types (`retroarch -L /cores/snes9x.so`) is split into a program and its
//! arguments here; `{rom}` in an argument is replaced with the ROM path, and
//! when no argument has one the path is appended at the end, which is what
//! almost every emulator expects. Starting the process is left to the caller.

use vstd::prelude::*;

use crate::text::{
    append_chars, chars_of, ends_with, eq_chars, has_suffix, is_whitespace, is_ws, starts_with,
    string_of, trim, trim_chars, views, pair_views,
};

verus! {

/// Tokeniser state after some prefix of the input.
pub struct Lexer {
    pub done: Seq<Seq<char>>,
    pub current: Seq<char>,
    /// The quote character we are inside, if any.
    pub quote: Option<char>,
    /// An empty quoted string still makes a token: `foo "" bar`.
    pub has_token: bool,
}

pub open spec fn is_quote(c: char) -> bool {
    c == '"' || c == '\''
}

/// One character of input. Inside quotes everything but the closing quote is
/// literal; outside, whitespace ends a token and a quote opens one.
pub open spec fn lex_step(st: Lexer, c: char) -> Lexer {
    match st.quote {
        Some(q) => if c == q {
            Lexer { quote: None, ..st }
        } else {
            Lexer { current: st.current.push(c), ..st }
        },
        None => if is_quote(c) {
            Lexer { quote: Some(c), has_token: true, ..st }
        } else if is_ws(c) {
            if st.has_token || st.current.len() > 0 {
                Lexer { done: st.done.push(st.current), current: Seq::empty(), has_token: false, ..st }
            } else {
                st
            }
        } else {
            Lexer { current: st.current.push(c), ..st }
        },
    }
}

pub open spec fn lex_start() -> Lexer {
    Lexer { done: Seq::empty(), current: Seq::empty(), quote: None, has_token: false }
}

/// The state after reading all of `s`.
pub open spec fn lex(s: Seq<char>) -> Lexer
    decreases s.len(),
{
    if s.len() == 0 {
        lex_start()
    } else {
        lex_step(lex(s.drop_last()), s.last())
    }
}

/// The tokens of a command line: the trimmed input lexed, with the final
/// token kept when one is open. An unclosed quote runs to the end.
pub open spec fn tokens(input: Seq<char>) -> Seq<Seq<char>> {
    let st = lex(trim(input));
    if st.has_token || st.current.len() > 0 {
        st.done.push(st.current)
    } else {
        st.done
    }
}

/// Split a command line on whitespace, honouring single and double quotes so
/// that emulator paths containing spaces survive (`"C:\Program Files\..."`).
pub fn tokenise(input: &str) -> (out: Vec<String>)
    ensures
        views(out@) == tokens(input@),
{
    let all = chars_of(input);
    let s = trim_chars(all.as_slice());
    let mut out: Vec<String> = Vec::new();
    let mut current: Vec<char> = Vec::new();
    let mut quote: Option<char> = None;
    let mut has_token = false;
    let mut i: usize = 0;
    while i < s.len()
        invariant
            i <= s@.len(),
            s@ == trim(input@),
            ({
                let st = lex(s@.take(i as int));
                &&& views(out@) == st.done
                &&& current@ == st.current
                &&& quote == st.quote
                &&& has_token == st.has_token
            }),
        decreases s.len() - i,
    {
        let ch = s[i];
        assert(s@.take(i + 1).drop_last() == s@.take(i as int));
        assert(s@.take(i + 1).last() == ch);
        match quote {
            Some(q) => {
                if ch == q {
                    quote = None;
                } else {
                    current.push(ch);
                }
            },
            None => {
                if ch == '"' || ch == '\'' {
                    quote = Some(ch);
                    has_token = true;
                } else if is_whitespace(ch) {
                    if has_token || current.len() > 0 {
                        let tok = string_of(current.as_slice());
                        out.push(tok);
                        assert(views(out@) =~= views(out@.drop_last()).push(current@));
                        current = Vec::new();
                        has_token = false;
                    }
                } else {
                    current.push(ch);
                }
            },
        }
        i += 1;
    }
    assert(s@.take(s@.len() as int) == s@);
    if has_token || current.len() > 0 {
        let tok = string_of(current.as_slice());
        out.push(tok);
        assert(views(out@) =~= views(out@.drop_last()).push(current@));
    }
    out
}

/// Lexer state with no quotes seen, as it looks while reading quote-free
/// input: every finished token is non-empty and holds no whitespace.
pub open spec fn clean(st: Lexer) -> bool {
    &&& st.quote is None
    &&& !st.has_token
    &&& forall|j: int| 0 <= j < st.current.len() ==> !is_ws(#[trigger] st.current[j])
    &&& forall|k: int|
        0 <= k < st.done.len() ==> {
            &&& (#[trigger] st.done[k]).len() > 0
            &&& forall|j: int| 0 <= j < st.done[k].len() ==> !is_ws(#[trigger] st.done[k][j])
        }
}

proof fn lemma_lex_clean(s: Seq<char>)
    requires
        forall|i: int| 0 <= i < s.len() ==> !is_quote(#[trigger] s[i]),
    ensures
        clean(lex(s)),
    decreases s.len(),
{
    if s.len() > 0 {
        let p = s.drop_last();
        assert forall|i: int| 0 <= i < p.len() implies !is_quote(#[trigger] p[i]) by {
            assert(p[i] == s[i]);
        }
        lemma_lex_clean(p);
        let st = lex(p);
        let c = s.last();
        assert(!is_quote(s[s.len() - 1]));
        if !is_ws(c) {
            let n = lex_step(st, c);
            assert forall|j: int| 0 <= j < n.current.len() implies !is_ws(#[trigger] n.current[j]) by {
                if j < st.current.len() {
                    assert(n.current[j] == st.current[j]);
                }
            }
        } else if st.current.len() > 0 {
            let n = lex_step(st, c);
            assert forall|k: int| 0 <= k < n.done.len() implies {
                &&& (#[trigger] n.done[k]).len() > 0
                &&& forall|j: int| 0 <= j < n.done[k].len() ==> !is_ws(#[trigger] n.done[k][j])
            } by {
                if k < st.done.len() {
                    assert(n.done[k] == st.done[k]);
                } else {
                    assert(n.done[k] == st.current);
                }
            }
        }
    }
}

/// `str::split_whitespace` read left to right: the words finished so far,
/// and the word being read.
pub open spec fn ws_split(s: Seq<char>) -> (Seq<Seq<char>>, Seq<char>)
    decreases s.len(),
{
    if s.len() == 0 {
        (Seq::empty(), Seq::empty())
    } else {
        ws_step(ws_split(s.drop_last()), s.last())
    }
}

/// One more character: whitespace ends the word being read, anything else
/// extends it.
pub open spec fn ws_step(st: (Seq<Seq<char>>, Seq<char>), c: char) -> (Seq<Seq<char>>, Seq<char>) {
    if !is_ws(c) {
        (st.0, st.1.push(c))
    } else if st.1.len() > 0 {
        (st.0.push(st.1), Seq::empty())
    } else {
        st
    }
}

/// What `str::split_whitespace` yields: the maximal runs of non-whitespace
/// characters, in order.
pub open spec fn split_whitespace(s: Seq<char>) -> Seq<Seq<char>> {
    let (done, cur) = ws_split(s);
    if cur.len() > 0 {
        done.push(cur)
    } else {
        done
    }
}

/// On quote-free input the lexer is exactly the whitespace split.
proof fn lemma_lex_is_ws_split(s: Seq<char>)
    requires
        forall|i: int| 0 <= i < s.len() ==> !is_quote(#[trigger] s[i]),
    ensures
        lex(s).done == ws_split(s).0,
        lex(s).current == ws_split(s).1,
        lex(s).quote is None,
        !lex(s).has_token,
    decreases s.len(),
{
    if s.len() > 0 {
        let p = s.drop_last();
        assert forall|i: int| 0 <= i < p.len() implies !is_quote(#[trigger] p[i]) by {
            assert(p[i] == s[i]);
        }
        lemma_lex_is_ws_split(p);
        assert(!is_quote(s[s.len() - 1]));
    }
}

/// A leading whitespace character changes no word.
proof fn lemma_ws_split_leading(w: char, s: Seq<char>)
    requires
        is_ws(w),
    ensures
        ws_split(seq![w] + s) == ws_split(s),
    decreases s.len(),
{
    if s.len() == 0 {
        let one = seq![w] + s;
        assert(one.drop_last() =~= Seq::<char>::empty());
        assert(one.last() == w);
        assert(ws_split(one) == ws_step(ws_split(one.drop_last()), w));
        assert(ws_split(one.drop_last()) == (Seq::<Seq<char>>::empty(), Seq::<char>::empty()));
        assert(ws_split(s) == (Seq::<Seq<char>>::empty(), Seq::<char>::empty()));
    } else {
        let t = seq![w] + s;
        assert(t.drop_last() =~= seq![w] + s.drop_last());
        assert(t.last() == s.last());
        lemma_ws_split_leading(w, s.drop_last());
        assert(ws_split(t) == ws_step(ws_split(t.drop_last()), t.last()));
        assert(ws_split(s) == ws_step(ws_split(s.drop_last()), s.last()));
    }
}

proof fn lemma_split_trim_start(s: Seq<char>)
    ensures
        split_whitespace(crate::text::trim_start(s)) == split_whitespace(s),
    decreases s.len(),
{
    if s.len() > 0 && is_ws(s[0]) {
        lemma_split_trim_start(s.drop_first());
        assert(s =~= seq![s[0]] + s.drop_first());
        lemma_ws_split_leading(s[0], s.drop_first());
    }
}

proof fn lemma_split_trim_end(s: Seq<char>)
    ensures
        split_whitespace(crate::text::trim_end(s)) == split_whitespace(s),
    decreases s.len(),
{
    if s.len() > 0 && is_ws(s.last()) {
        lemma_split_trim_end(s.drop_last());
    }
}

/// Without quotes the tokeniser is `str::split_whitespace`: no token is
/// empty, no token contains whitespace, and the tokens are exactly the
/// whitespace-separated words of the input.
pub proof fn lemma_unquoted_input_splits_on_whitespace(input: Seq<char>)
    requires
        forall|i: int| 0 <= i < input.len() ==> !is_quote(#[trigger] input[i]),
    ensures
        tokens(input) == split_whitespace(input),
        forall|k: int|
            0 <= k < tokens(input).len() ==> {
                &&& (#[trigger] tokens(input)[k]).len() > 0
                &&& forall|j: int|
                    0 <= j < tokens(input)[k].len() ==> !is_ws(#[trigger] tokens(input)[k][j])
            },
{
    let t = trim(input);
    lemma_trim_is_a_slice(input);
    assert forall|i: int| 0 <= i < t.len() implies !is_quote(#[trigger] t[i]) by {
        let (a, b) = choose|a: int, b: int| 0 <= a <= b <= input.len() && t == input.subrange(a, b);
        assert(t[i] == input[a + i]);
    }
    lemma_lex_clean(t);
    lemma_lex_is_ws_split(t);
    lemma_split_trim_start(input);
    lemma_split_trim_end(crate::text::trim_start(input));
    let st = lex(t);
    let out = tokens(input);
    assert forall|k: int| 0 <= k < out.len() implies {
        &&& (#[trigger] out[k]).len() > 0
        &&& forall|j: int| 0 <= j < out[k].len() ==> !is_ws(#[trigger] out[k][j])
    } by {
        if k < st.done.len() {
            assert(out[k] == st.done[k]);
        } else {
            assert(out[k] == st.current);
        }
    }
}

proof fn lemma_trim_start_slice(s: Seq<char>)
    ensures
        exists|a: int| 0 <= a <= s.len() && crate::text::trim_start(s) == s.subrange(a, s.len() as int),
    decreases s.len(),
{
    if s.len() > 0 && is_ws(s[0]) {
        lemma_trim_start_slice(s.drop_first());
        let a = choose|a: int|
            0 <= a <= s.drop_first().len() && crate::text::trim_start(s.drop_first())
                == s.drop_first().subrange(a, s.drop_first().len() as int);
        assert(s.drop_first().subrange(a, s.drop_first().len() as int) == s.subrange(a + 1, s.len() as int));
    } else {
        assert(s.subrange(0, s.len() as int) == s);
    }
}

proof fn lemma_trim_end_slice(s: Seq<char>)
    ensures
        exists|b: int| 0 <= b <= s.len() && crate::text::trim_end(s) == s.subrange(0, b),
    decreases s.len(),
{
    if s.len() > 0 && is_ws(s.last()) {
        lemma_trim_end_slice(s.drop_last());
        let b = choose|b: int|
            0 <= b <= s.drop_last().len() && crate::text::trim_end(s.drop_last()) == s.drop_last().subrange(0, b);
        assert(s.drop_last().subrange(0, b) == s.subrange(0, b));
    } else {
        assert(s.subrange(0, s.len() as int) == s);
    }
}

proof fn lemma_trim_is_a_slice(s: Seq<char>)
    ensures
        exists|a: int, b: int| 0 <= a <= b <= s.len() && trim(s) == s.subrange(a, b),
{
    lemma_trim_start_slice(s);
    let a = choose|a: int| 0 <= a <= s.len() && crate::text::trim_start(s) == s.subrange(a, s.len() as int);
    let m = s.subrange(a, s.len() as int);
    lemma_trim_end_slice(m);
    let b = choose|b: int| 0 <= b <= m.len() && crate::text::trim_end(m) == m.subrange(0, b);
    assert(m.subrange(0, b) == s.subrange(a, a + b));
}

// ─── Substitution ────────────────────────────────────────────────────────────

/// `str::replace`: every non-overlapping occurrence of `pat`, scanning left to
/// right, replaced with `rep`.
pub open spec fn replace_all(s: Seq<char>, pat: Seq<char>, rep: Seq<char>) -> Seq<char>
    recommends
        pat.len() > 0,
    decreases s.len(),
{
    if s.len() == 0 || pat.len() == 0 {
        s
    } else if starts_with(s, pat) {
        rep + replace_all(s.subrange(pat.len() as int, s.len() as int), pat, rep)
    } else {
        seq![s[0]] + replace_all(s.drop_first(), pat, rep)
    }
}

/// Does `pat` occur anywhere in `s`?
pub open spec fn occurs(s: Seq<char>, pat: Seq<char>) -> bool {
    exists|i: int| 0 <= i <= s.len() - pat.len() && #[trigger] s.subrange(i, i + pat.len()) == pat
}

fn matches_at(s: &[char], i: usize, pat: &[char]) -> (r: bool)
    requires
        i <= s@.len(),
    ensures
        r == starts_with(s@.subrange(i as int, s@.len() as int), pat@),
{
    let len = s.len();
    if pat.len() > len - i {
        return false;
    }
    let mut k: usize = 0;
    while k < pat.len()
        invariant
            i <= s@.len(),
            len == s@.len(),
            k <= pat@.len() <= len - i,
            forall|j: int| 0 <= j < k ==> s@[i + j] == pat@[j],
        decreases pat.len() - k,
    {
        if s[i + k] != pat[k] {
            assert(s@.subrange(i as int, s@.len() as int).subrange(0, pat@.len() as int)[k as int]
                == s@[i + k]);
            return false;
        }
        k += 1;
    }
    assert(s@.subrange(i as int, s@.len() as int).subrange(0, pat@.len() as int) =~= pat@);
    true
}

/// `s.replace(pat, rep)`, with whether anything was replaced.
pub fn replace_chars(s: &[char], pat: &[char], rep: &[char]) -> (r: (Vec<char>, bool))
    requires
        pat@.len() > 0,
    ensures
        r.0@ == replace_all(s@, pat@, rep@),
        r.1 == occurs(s@, pat@),
{
    let mut out: Vec<char> = Vec::new();
    let mut i: usize = 0;
    let mut found = false;
    assert(s@.subrange(0, s@.len() as int) == s@);
    while i < s.len()
        invariant
            i <= s@.len(),
            pat@.len() > 0,
            out@ + replace_all(s@.subrange(i as int, s@.len() as int), pat@, rep@) == replace_all(
                s@,
                pat@,
                rep@,
            ),
            found ==> occurs(s@, pat@),
            !found ==> forall|j: int|
                0 <= j < i && j + pat@.len() <= s@.len() ==> #[trigger] s@.subrange(j, j + pat@.len()) != pat@,
        decreases s.len() - i,
    {
        let ghost rest = s@.subrange(i as int, s@.len() as int);
        if matches_at(s, i, pat) {
            append_chars(&mut out, rep);
            assert(rest.subrange(pat@.len() as int, rest.len() as int) == s@.subrange(
                i + pat@.len(),
                s@.len() as int,
            ));
            assert(rest.subrange(0, pat@.len() as int) == s@.subrange(i as int, i + pat@.len()));
            found = true;
            i += pat.len();
        } else {
            out.push(s[i]);
            assert(rest.drop_first() == s@.subrange(i + 1, s@.len() as int));
            proof {
                if i + pat@.len() <= s@.len() {
                    assert(rest.subrange(0, pat@.len() as int) == s@.subrange(i as int, i + pat@.len()));
                }
            }
            i += 1;
        }
    }
    proof {
        assert(s@.subrange(i as int, s@.len() as int) == Seq::<char>::empty());
        if !found {
            assert forall|j: int|
                0 <= j <= s@.len() - pat@.len() implies #[trigger] s@.subrange(j, j + pat@.len())
                != pat@ by {}
        }
    }
    (out, found)
}

/// Why a command could not be turned into a process to start.
#[derive(Debug, Clone, Copy, PartialEq, Eq, Structural)]
pub enum LaunchError {
    /// The command line holds no program at all.
    NoCommand,
}

impl LaunchError {
    pub fn message(&self) -> (m: &'static str)
        ensures
            m@ == "no emulator command configured"@,
    {
        proof {
            reveal_strlit("no emulator command configured");
        }
        "no emulator command configured"
    }
}

/// The arguments an emulator is started with: each `{rom}` replaced by the
/// ROM path, and the path appended when no argument held the placeholder.
pub open spec fn final_args(args: Seq<Seq<char>>, rom: Seq<char>) -> Seq<Seq<char>> {
    let replaced = args.map_values(|a: Seq<char>| replace_all(a, "{rom}"@, rom));
    if exists|k: int| 0 <= k < args.len() && occurs(#[trigger] args[k], "{rom}"@) {
        replaced
    } else {
        replaced.push(rom)
    }
}

/// The program and arguments to run `command` on the ROM at `rom_path`.
///
/// `command` may include arguments (`retroarch -L /path/to/core.so`). The
/// literal token `{rom}` is replaced with the ROM path; if no argument has
/// it, the path is appended as the final argument.
pub fn launch_plan(command: &str, rom_path: &str) -> (r: Result<(String, Vec<String>), LaunchError>)
    ensures
        match r {
            Ok((program, args)) => {
                &&& tokens(command@).len() > 0
                &&& program@ == tokens(command@)[0]
                &&& views(args@) == final_args(tokens(command@).drop_first(), rom_path@)
            },
            Err(e) => tokens(command@).len() == 0 && e == LaunchError::NoCommand,
        },
{
    let toks = tokenise(command);
    if toks.len() == 0 {
        return Err(LaunchError::NoCommand);
    }
    let program = toks[0].clone();
    let rom = chars_of(rom_path);
    proof {
        reveal_strlit("{rom}");
    }
    let placeholder = chars_of("{rom}");
    assert(placeholder@.len() == 5);
    let ghost rest = views(toks@).drop_first();
    let mut args: Vec<String> = Vec::new();
    let mut had_placeholder = false;
    let mut i: usize = 1;
    while i < toks.len()
        invariant
            1 <= i <= toks@.len(),
            rom@ == rom_path@,
            placeholder@ == "{rom}"@,
            placeholder@.len() == 5,
            rest == views(toks@).drop_first(),
            views(args@) == rest.take(i - 1).map_values(
                |a: Seq<char>| replace_all(a, "{rom}"@, rom_path@),
            ),
            had_placeholder == exists|k: int| 0 <= k < i - 1 && occurs(#[trigger] rest[k], "{rom}"@),
        decreases toks.len() - i,
    {
        let a = chars_of(toks[i].as_str());
        let (replaced, found) = replace_chars(a.as_slice(), placeholder.as_slice(), rom.as_slice());
        let ghost before = views(args@);
        args.push(string_of(replaced.as_slice()));
        assert(rest[i - 1] == toks@[i as int]@);
        assert(rest.take(i as int) == rest.take(i - 1).push(rest[i - 1]));
        assert(views(args@) =~= before.push(replaced@));
        assert(rest.take(i as int).map_values(|a: Seq<char>| replace_all(a, "{rom}"@, rom_path@))
            =~= rest.take(i - 1).map_values(|a: Seq<char>| replace_all(a, "{rom}"@, rom_path@)).push(
            replace_all(rest[i - 1], "{rom}"@, rom_path@),
        ));
        if found {
            had_placeholder = true;
        }
        proof {
            if !had_placeholder {
                assert forall|k: int| 0 <= k < i implies !occurs(#[trigger] rest[k], "{rom}"@) by {
                    if k == i - 1 {
                    }
                }
            }
        }
        i += 1;
    }
    assert(rest.take(rest.len() as int) == rest);
    if !had_placeholder {
        args.push(string_of(rom.as_slice()));
        assert(views(args@) =~= views(args@.drop_last()).push(rom_path@));
    }
    Ok((program, args))
}

// ─── Finding emulators ───────────────────────────────────────────────────────

/// Program names looked up on `PATH`, in preference order, after the
/// platform's usual install locations.
pub open spec fn path_programs() -> Seq<Seq<char>> {
    seq!["retroarch"@, "ppsspp"@, "dolphin-emu"@, "mgba-qt"@, "mednafen"@]
}

/// The names `detect_emulators` asks the caller to look up on `PATH`.
pub fn path_program_names() -> (names: Vec<&'static str>)
    ensures
        names@.map_values(|n: &str| n@) == path_programs(),
{
    let v = vec!["retroarch", "ppsspp", "dolphin-emu", "mgba-qt", "mednafen"];
    assert(v@.map_values(|n: &str| n@) =~= path_programs());
    v
}

/// Is `name` already covered by something found, in the sense that a found
/// command ends with it?
pub open spec fn covered(found: Seq<(Seq<char>, Seq<char>)>, name: Seq<char>) -> bool {
    exists|k: int| 0 <= k < found.len() && ends_with((#[trigger] found[k]).1, name)
}

/// The emulator list built from what was found installed, then each `PATH`
/// hit in order, skipping a name whose command is already in the list.
pub open spec fn merged(
    found: Seq<(Seq<char>, Seq<char>)>,
    hits: Seq<(Seq<char>, Option<Seq<char>>)>,
) -> Seq<(Seq<char>, Seq<char>)>
    decreases hits.len(),
{
    if hits.len() == 0 {
        found
    } else {
        let before = merged(found, hits.drop_last());
        let (name, hit) = hits.last();
        if covered(before, name) {
            before
        } else {
            match hit {
                Some(path) => before.push((name, path)),
                None => before,
            }
        }
    }
}

pub open spec fn hit_views(v: Seq<(String, Option<String>)>) -> Seq<(Seq<char>, Option<Seq<char>>)> {
    v.map_values(
        |p: (String, Option<String>)|
            (
                p.0@,
                match p.1 {
                    Some(s) => Some(s@),
                    None => None,
                },
            ),
    )
}

fn covered_exec(found: &Vec<(String, String)>, name: &String) -> (r: bool)
    ensures
        r == covered(pair_views(found@), name@),
{
    let n = chars_of(name.as_str());
    let mut k: usize = 0;
    while k < found.len()
        invariant
            k <= found@.len(),
            n@ == name@,
            forall|j: int| 0 <= j < k ==> !ends_with(#[trigger] pair_views(found@)[j].1, name@),
        decreases found.len() - k,
    {
        let cmd = chars_of(found[k].1.as_str());
        if has_suffix(cmd.as_slice(), n.as_slice()) {
            assert(pair_views(found@)[k as int].1 == found@[k as int].1@);
            return true;
        }
        k += 1;
    }
    false
}

/// Emulators present on this machine, as (label, command) pairs.
///
/// `installed` is what exists of the platform's usual install locations, in
/// preference order. `on_path` pairs each program name from
/// `path_program_names` with where it was found on `PATH`, if anywhere. A
/// `PATH` hit is skipped when an earlier entry's command already ends with
/// that name, so a package manager install is not listed twice.
pub fn detect_emulators(
    installed: Vec<(String, String)>,
    on_path: Vec<(String, Option<String>)>,
) -> (found: Vec<(String, String)>)
    ensures
        pair_views(found@) == merged(pair_views(installed@), hit_views(on_path@)),
{
    let mut found = installed;
    let ghost base = pair_views(found@);
    let mut i: usize = 0;
    while i < on_path.len()
        invariant
            i <= on_path@.len(),
            pair_views(found@) == merged(base, hit_views(on_path@).take(i as int)),
        decreases on_path.len() - i,
    {
        let ghost hits = hit_views(on_path@);
        assert(hits.take(i + 1).drop_last() == hits.take(i as int));
        assert(hits.take(i + 1).last() == hits[i as int]);
        let name = &on_path[i].0;
        if !covered_exec(&found, name) {
            match &on_path[i].1 {
                Some(path) => {
                    found.push((name.clone(), path.clone()));
                    assert(pair_views(found@) =~= pair_views(found@.drop_last()).push(
                        (name@, path@),
                    ));
                },
                None => {},
            }
        }
        i += 1;
    }
    assert(hit_views(on_path@).take(on_path@.len() as int) == hit_views(on_path@));
    found
}

} // verus!
