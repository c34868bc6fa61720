//! What the RomM API client decides: which address it talks to, what it asks
//! for, and how it reads the answers.
//!
//! Auth is HTTP Basic on every request; the transport itself (the HTTP
//! client, timeouts, streaming a download to disk) belongs to the
//! application. Everything that turns a person's input into a request, and a
//! response into a verdict, is here.

use vstd::prelude::*;

use crate::models::Rom;
use crate::text::{
    append_chars, append_str, chars_of, decimal, drop_leading, drop_leading_chars, drop_trailing,
    drop_trailing_chars, has_prefix, signed_decimal, signed_decimal_string, starts_with, string_of,
    trim, trim_chars, pair_views,
};

verus! {

/// Cap on a single library page. RomM will happily return more, but each ROM
/// record is large and the interface paginates anyway.
pub const PAGE_SIZE: i64 = 100;

// ─── The server address ──────────────────────────────────────────────────────

/// Why a server address was not accepted.
#[derive(Debug, Clone, PartialEq, Eq)]
pub enum AddressError {
    /// Nothing but whitespace and slashes was typed.
    Empty,
    /// The address is not a URL; carries what was typed.
    Invalid(String),
}

impl AddressError {
    pub fn message(&self) -> (m: String)
        ensures
            match self {
                AddressError::Empty => m@ == "server address is empty"@,
                AddressError::Invalid(input) => m@ == "'"@ + input@
                    + "' is not a valid server address"@,
            },
    {
        let mut out: Vec<char> = Vec::new();
        match self {
            AddressError::Empty => append_str(&mut out, "server address is empty"),
            AddressError::Invalid(input) => {
                append_str(&mut out, "'");
                append_str(&mut out, input.as_str());
                append_str(&mut out, "' is not a valid server address");
            },
        }
        string_of(out.as_slice())
    }
}

/// What a person would type, made into a base URL: surrounding whitespace
/// and trailing slashes go, and a bare `host:port` (overwhelmingly a LAN
/// address) gets `http://`, while an explicit scheme is kept. `None` when
/// nothing is left.
pub open spec fn address_candidate(input: Seq<char>) -> Option<Seq<char>> {
    let t = drop_trailing(trim(input), '/');
    if t.len() == 0 {
        None
    } else if starts_with(t, "http://"@) || starts_with(t, "https://"@) {
        Some(t)
    } else {
        Some("http://"@ + t)
    }
}

/// The outcome of normalising, once it is known whether the URL parser
/// accepts the candidate.
pub open spec fn address_outcome(input: Seq<char>, parses: bool) -> Result<Seq<char>, Option<Seq<char>>> {
    match address_candidate(input) {
        None => Err(None),
        Some(c) => if parses {
            Ok(c)
        } else {
            Err(Some(input))
        },
    }
}

/// Whether the URL parser the HTTP client uses accepts `s`.
pub uninterp spec fn url_parses(s: Seq<char>) -> bool;

/// Calls `reqwest::Url::parse` (the `url` crate's WHATWG parser) and reports
/// whether it succeeded. The claim is only that the answer is a function of
/// the text: which strings parse is the parser's business and is not stated.
#[verifier::external_body]
fn parses_as_url(s: &str) -> (ok: bool)
    ensures
        ok == url_parses(s@),
{
    reqwest::Url::parse(s).is_ok()
}

/// The candidate base URL for what was typed, before it is validated.
pub fn address_candidate_of(input: &str) -> (r: Option<String>)
    ensures
        match r {
            Some(s) => address_candidate(input@) == Some(s@),
            None => address_candidate(input@) is None,
        },
{
    let raw = chars_of(input);
    let trimmed = trim_chars(raw.as_slice());
    let t = drop_trailing_chars(trimmed.as_slice(), '/');
    if t.len() == 0 {
        return None;
    }
    let http = chars_of("http://");
    let https = chars_of("https://");
    if has_prefix(t.as_slice(), http.as_slice()) || has_prefix(t.as_slice(), https.as_slice()) {
        Some(string_of(t.as_slice()))
    } else {
        let mut out = http;
        append_chars(&mut out, t.as_slice());
        Some(string_of(out.as_slice()))
    }
}

/// Settle the address once the parser has answered on the candidate: the
/// candidate when it parses, otherwise an error naming what was typed.
pub fn settle_address(input: &str, candidate: Option<String>, parses: bool) -> (r: Result<
    String,
    AddressError,
>)
    ensures
        match candidate {
            None => r == Err::<String, AddressError>(AddressError::Empty),
            Some(c) => if parses {
                r == Ok::<String, AddressError>(c)
            } else {
                r matches Err(AddressError::Invalid(i)) && i@ == input@
            },
        },
{
    match candidate {
        None => Err(AddressError::Empty),
        Some(c) => {
            if parses {
                Ok(c)
            } else {
                Err(AddressError::Invalid(string_of(chars_of(input).as_slice())))
            }
        },
    }
}

/// Accept what a person would actually type: `192.168.1.5:8087`,
/// `http://romm.box/`, `romm.example.com`. The result is validated here so
/// that a typo surfaces on Connect, not on the first request.
pub fn normalise_base_url(input: &str) -> (r: Result<String, AddressError>)
    ensures
        match address_candidate(input@) {
            None => r == Err::<String, AddressError>(AddressError::Empty),
            Some(c) => if url_parses(c) {
                r matches Ok(s) && s@ == c
            } else {
                r matches Err(AddressError::Invalid(i)) && i@ == input@
            },
        },
{
    let candidate = address_candidate_of(input);
    let parses = match &candidate {
        Some(c) => parses_as_url(c.as_str()),
        None => false,
    };
    settle_address(input, candidate, parses)
}

// ─── Requests ────────────────────────────────────────────────────────────────

/// An endpoint under the server's base URL.
pub fn endpoint(base: &str, path: &str) -> (url: String)
    ensures
        url@ == base@ + path@,
{
    let mut out = chars_of(base);
    append_str(&mut out, path);
    string_of(out.as_slice())
}

/// The query for one page of the library: a page of `PAGE_SIZE` from
/// `offset`, ordered by name; filtered to a platform when one is chosen, and
/// to a search when the trimmed search is not empty. A blank search is
/// omitted entirely rather than sent empty.
pub open spec fn roms_query_spec(platform_id: Option<i64>, search: Seq<char>, offset: i64) -> Seq<
    (Seq<char>, Seq<char>),
> {
    let base = seq![
        ("limit"@, signed_decimal(PAGE_SIZE as int)),
        ("offset"@, signed_decimal(offset as int)),
        ("order_by"@, "name"@),
        ("order_dir"@, "asc"@),
    ];
    let with_platform = match platform_id {
        Some(p) => base.push(("platform_ids"@, signed_decimal(p as int))),
        None => base,
    };
    if trim(search).len() > 0 {
        with_platform.push(("search_term"@, trim(search)))
    } else {
        with_platform
    }
}

proof fn lemma_hundred()
    ensures
        signed_decimal(PAGE_SIZE as int) == "100"@,
{
    reveal_strlit("100");
    reveal_with_fuel(decimal, 3);
    assert(decimal(1) == seq!['1']);
    assert(decimal(10) =~= seq!['1', '0']);
    assert(decimal(100) =~= seq!['1', '0', '0']);
}

/// The request always asks for one page of 100 games from the offset, by
/// name ascending. It names a platform exactly when one is chosen, and
/// searches exactly when the trimmed search says something, for that trimmed
/// text, whichever platform is chosen or none.
pub proof fn lemma_the_query_carries_page_platform_and_search(
    platform_id: Option<i64>,
    search: Seq<char>,
    offset: i64,
)
    ensures
        ({
            let q = roms_query_spec(platform_id, search, offset);
            &&& q.contains(("limit"@, "100"@))
            &&& q.contains(("offset"@, signed_decimal(offset as int)))
            &&& q.contains(("order_by"@, "name"@))
            &&& q.contains(("order_dir"@, "asc"@))
            &&& (trim(search).len() > 0 <==> q.contains(("search_term"@, trim(search))))
            &&& (trim(search).len() == 0 ==> forall|i: int| 0 <= i < q.len() ==> (#[trigger] q[i]).0 != "search_term"@)
            &&& (platform_id matches Some(p) ==> q.contains(("platform_ids"@, signed_decimal(p as int))))
            &&& (platform_id is None ==> forall|i: int| 0 <= i < q.len() ==> (#[trigger] q[i]).0 != "platform_ids"@)
        }),
{
    reveal_strlit("limit");
    reveal_strlit("offset");
    reveal_strlit("order_by");
    reveal_strlit("order_dir");
    reveal_strlit("platform_ids");
    reveal_strlit("search_term");
    reveal_strlit("name");
    reveal_strlit("asc");
    reveal_strlit("100");
    lemma_hundred();
    let q = roms_query_spec(platform_id, search, offset);
    let base = seq![
        ("limit"@, signed_decimal(PAGE_SIZE as int)),
        ("offset"@, signed_decimal(offset as int)),
        ("order_by"@, "name"@),
        ("order_dir"@, "asc"@),
    ];
    assert(q[0] == base[0]);
    assert(q[1] == base[1]);
    assert(q[2] == base[2]);
    assert(q[3] == base[3]);
    match platform_id {
        Some(p) => {
            assert(q[4] == ("platform_ids"@, signed_decimal(p as int)));
        },
        None => {},
    }
    if trim(search).len() > 0 {
        assert(q[q.len() - 1] == ("search_term"@, trim(search)));
    } else {
        assert forall|i: int| 0 <= i < q.len() implies (#[trigger] q[i]).0 != "search_term"@ by {
            if i < 4 {
                assert(q[i] == base[i]);
            }
            assert("search_term"@.len() == 11);
        }
    }
    if platform_id is None {
        assert forall|i: int| 0 <= i < q.len() implies (#[trigger] q[i]).0 != "platform_ids"@ by {
            if i < 4 {
                assert(q[i] == base[i]);
            }
            assert("platform_ids"@.len() == 12);
        }
    }
}

fn owned(s: &str) -> (r: String)
    ensures
        r@ == s@,
{
    string_of(chars_of(s).as_slice())
}

fn number(n: i64) -> (r: String)
    ensures
        r@ == signed_decimal(n as int),
{
    string_of(signed_decimal_string(n).as_slice())
}

/// The query parameters for `/api/roms`. `platform_id == None` means every
/// platform.
pub fn roms_query(platform_id: Option<i64>, search: &str, offset: i64) -> (q: Vec<(String, String)>)
    ensures
        pair_views(q@) == roms_query_spec(platform_id, search@, offset),
{
    let mut q: Vec<(String, String)> = Vec::new();
    q.push((owned("limit"), number(PAGE_SIZE)));
    q.push((owned("offset"), number(offset)));
    q.push((owned("order_by"), owned("name")));
    q.push((owned("order_dir"), owned("asc")));
    match platform_id {
        Some(p) => q.push((owned("platform_ids"), number(p))),
        None => {},
    }
    let t = trim_chars(chars_of(search).as_slice());
    if t.len() > 0 {
        q.push((owned("search_term"), string_of(t.as_slice())));
    }
    assert(pair_views(q@) =~= roms_query_spec(platform_id, search@, offset));
    q
}

/// Where a cover image is fetched from: RomM gives the path with or without a
/// leading slash, and exactly one joins it to the base.
pub fn cover_url(base: &str, path: &str) -> (url: String)
    ensures
        url@ == base@ + "/"@ + drop_leading(path@, '/'),
{
    let mut out = chars_of(base);
    append_str(&mut out, "/");
    let rest = drop_leading_chars(chars_of(path).as_slice(), '/');
    append_chars(&mut out, rest.as_slice());
    string_of(out.as_slice())
}

/// A byte that `urlencoding` leaves alone: ASCII alphanumerics and `-_.~`.
pub open spec fn unreserved(b: u8) -> bool {
    (48 <= b <= 57) || (65 <= b <= 90) || (97 <= b <= 122) || b == 45 || b == 46 || b == 95 || b
        == 126
}

pub open spec fn upper_hex_digit(d: u8) -> char {
    if d < 10 {
        ((d + 48) as u32) as char
    } else {
        ((d + 55) as u32) as char
    }
}

/// Percent-encoding of a byte string: every byte but the unreserved ones
/// becomes `%` and two upper-case hex digits.
pub open spec fn percent_encoded(bytes: Seq<u8>) -> Seq<char>
    decreases bytes.len(),
{
    if bytes.len() == 0 {
        Seq::empty()
    } else {
        percent_encoded(bytes.drop_last()) + (if unreserved(bytes.last()) {
            seq![(bytes.last() as u32) as char]
        } else {
            seq!['%', upper_hex_digit(bytes.last() / 16), upper_hex_digit(bytes.last() % 16)]
        })
    }
}

/// Calls `urlencoding::encode`. Its documentation says it percent-encodes
/// every byte of the UTF-8 encoding except alphanumerics and `-`, `_`, `.`,
/// `~`; its source writes the two hex digits upper-case. The contract states
/// exactly that.
#[verifier::external_body]
fn url_encode(s: &str) -> (r: String)
    ensures
        r@ == percent_encoded(vstd::utf8::encode_utf8(s@)),
{
    urlencoding::encode(s).into_owned()
}

pub open spec fn content_url_spec(base: Seq<char>, rom_id: i64, encoded_name: Seq<char>) -> Seq<char> {
    base + "/api/roms/"@ + signed_decimal(rom_id as int) + "/content/"@ + encoded_name
}

/// The download URL for a ROM whose file name has already been encoded.
pub fn content_url_with(base: &str, rom_id: i64, encoded_name: &str) -> (url: String)
    ensures
        url@ == content_url_spec(base@, rom_id, encoded_name@),
{
    let mut out = chars_of(base);
    append_str(&mut out, "/api/roms/");
    let id = signed_decimal_string(rom_id);
    append_chars(&mut out, id.as_slice());
    append_str(&mut out, "/content/");
    append_str(&mut out, encoded_name);
    string_of(out.as_slice())
}

/// The download URL for a ROM: file names with spaces and brackets are the
/// norm (`Tetris (World) (Rev 1).gb`) and are percent-encoded.
pub fn content_url(base: &str, rom_id: i64, fs_name: &str) -> (url: String)
    ensures
        url@ == content_url_spec(base@, rom_id, percent_encoded(vstd::utf8::encode_utf8(fs_name@))),
{
    let encoded = url_encode(fs_name);
    content_url_with(base, rom_id, encoded.as_str())
}

/// Why a download is not even attempted.
pub open spec fn missing_on_server_message() -> Seq<char> {
    "RomM has this game indexed but the file is missing from the server's disk"@
}

/// A game whose file is gone from the server's disk would only 404, so the
/// download is refused before any request is made.
pub fn download_refusal(rom: &Rom) -> (r: Option<&'static str>)
    ensures
        rom.missing_from_fs ==> (r matches Some(m) && m@ == missing_on_server_message()),
        !rom.missing_from_fs ==> r is None,
{
    if rom.missing_from_fs {
        Some("RomM has this game indexed but the file is missing from the server's disk")
    } else {
        None
    }
}

/// Progress is reported every half megabyte and at the end; a fast local
/// server would otherwise flood the interface with repaints.
pub const PROGRESS_STEP: u64 = 524288;

pub fn should_report_progress(done: u64, last_sent: u64, total: Option<u64>) -> (r: bool)
    requires
        last_sent <= done,
    ensures
        r == (done - last_sent >= PROGRESS_STEP || total == Some(done)),
{
    done - last_sent >= PROGRESS_STEP || total == Some(done)
}

// ─── Answers ─────────────────────────────────────────────────────────────────

/// An HTTP status as the transport reported it: the number, and the way the
/// HTTP library prints it (`404 Not Found`).
#[derive(Debug, Clone)]
pub struct HttpStatus {
    pub code: u16,
    pub text: String,
}

pub open spec fn is_success(code: u16) -> bool {
    200 <= code <= 299
}

/// The version fields a RomM heartbeat may carry. RomM 5.x nests it under
/// `SYSTEM`; the flat forms are read too in case a release moves it back.
#[derive(Debug, Clone)]
pub struct Heartbeat {
    pub system_version: Option<String>,
    pub version: Option<String>,
    pub version_lower: Option<String>,
}

pub open spec fn version_spec(h: Heartbeat) -> Seq<char> {
    match h.system_version {
        Some(v) => v@,
        None => match h.version {
            Some(v) => v@,
            None => match h.version_lower {
                Some(v) => v@,
                None => "unknown"@,
            },
        },
    }
}

/// The server's version: the first field present, or `unknown`.
pub fn server_version(h: &Heartbeat) -> (v: String)
    ensures
        v@ == version_spec(*h),
{
    match &h.system_version {
        Some(v) => v.clone(),
        None => match &h.version {
            Some(v) => v.clone(),
            None => match &h.version_lower {
                Some(v) => v.clone(),
                None => owned("unknown"),
            },
        },
    }
}

/// Why connecting did not succeed.
#[derive(Debug, Clone)]
pub enum ConnectError {
    /// Something answered, but not as a RomM server would: (base URL, status).
    NotRomm(String, String),
    /// The server is RomM and the credentials were refused.
    CredentialsRejected,
    /// The credential check got an answer that is neither: (status).
    Unexpected(String),
}

impl ConnectError {
    pub fn message(&self) -> (m: String)
        ensures
            match self {
                ConnectError::NotRomm(base, status) => m@ == base@ + " answered "@ + status@
                    + " for /api/heartbeat — is this a RomM server?"@,
                ConnectError::CredentialsRejected => m@
                    == "server reachable, but the username or password was rejected"@,
                ConnectError::Unexpected(status) => m@ == "unexpected response "@ + status@
                    + " from /api/platforms"@,
            },
    {
        let mut out: Vec<char> = Vec::new();
        match self {
            ConnectError::NotRomm(base, status) => {
                append_str(&mut out, base.as_str());
                append_str(&mut out, " answered ");
                append_str(&mut out, status.as_str());
                append_str(&mut out, " for /api/heartbeat — is this a RomM server?");
            },
            ConnectError::CredentialsRejected => {
                append_str(&mut out, "server reachable, but the username or password was rejected");
            },
            ConnectError::Unexpected(status) => {
                append_str(&mut out, "unexpected response ");
                append_str(&mut out, status.as_str());
                append_str(&mut out, " from /api/platforms");
            },
        }
        string_of(out.as_slice())
    }
}

/// The heartbeat needs no credentials, so a failure there means the address
/// is not a RomM server at all.
pub fn heartbeat_verdict(base: &str, status: &HttpStatus) -> (r: Result<(), ConnectError>)
    ensures
        is_success(status.code) ==> r is Ok,
        !is_success(status.code) ==> (r matches Err(ConnectError::NotRomm(b, s)) && b@ == base@
            && s@ == status.text@),
{
    if 200 <= status.code && status.code <= 299 {
        Ok(())
    } else {
        Err(ConnectError::NotRomm(owned(base), status.text.clone()))
    }
}

/// The credential check: after a good heartbeat, a 401 or 403 from an
/// authenticated endpoint means "wrong password" rather than "couldn't
/// connect". Success hands back the version the heartbeat reported.
pub fn credential_verdict(status: &HttpStatus, version: String) -> (r: Result<String, ConnectError>)
    ensures
        is_success(status.code) ==> r == Ok::<String, ConnectError>(version),
        status.code == 401 || status.code == 403 ==> (r matches Err(
            ConnectError::CredentialsRejected,
        )),
        !is_success(status.code) && status.code != 401 && status.code != 403 ==> (r matches Err(
            ConnectError::Unexpected(s),
        ) && s@ == status.text@),
{
    if 200 <= status.code && status.code <= 299 {
        Ok(version)
    } else if status.code == 401 || status.code == 403 {
        Err(ConnectError::CredentialsRejected)
    } else {
        Err(ConnectError::Unexpected(status.text.clone()))
    }
}

} // verus!
