//! The drive of a session: its addresses, the requests that list, send and
//! fetch its files, and the token of the double-submit rule that goes with
//! them.

use vstd::prelude::*;
use vstd::utf8::*;

use crate::http;
use crate::text;
use crate::textmap::TextMap;
use crate::web;

verus! {

/// The address that hands out the token of the double-submit rule.
pub const BOOTSTRAP_PATH: &'static str = "/api/auth/status";

/// How often the token is asked for.
pub const BOOTSTRAP_ATTEMPTS: u8 = 3;

/// How much of a download is gathered before it is written.
pub const STREAM_FLUSH_BYTES: usize = 0x10_0000;

// ---------------------------------------------------------------------------
// Replies
// ---------------------------------------------------------------------------

/// One file of a drive.
#[derive(Debug, PartialEq)]
pub struct DriveEntry {
    pub name: String,
    pub size: u64,
    pub modified: String,
}

impl Clone for DriveEntry {
    fn clone(&self) -> (r: Self)
        ensures
            r == *self,
    {
        DriveEntry {
            name: self.name.clone(),
            size: self.size,
            modified: self.modified.clone(),
        }
    }
}

/// A copy of a list of files.
fn clone_entries(v: &Vec<DriveEntry>) -> (r: Vec<DriveEntry>)
    ensures
        r@ == v@,
{
    let mut out: Vec<DriveEntry> = Vec::new();
    let mut i: usize = 0;
    while i < v.len()
        invariant
            i <= v@.len(),
            out@.len() == i,
            forall|j: int| 0 <= j < i ==> #[trigger] out@[j] == v@[j],
        decreases v@.len() - i,
    {
        out.push(v[i].clone());
        i = i + 1;
    }
    proof {
        assert(out@ =~= v@);
    }
    out
}

/// A reply of the drive: its status code, its body, and the files that the
/// body lists, where it is a listing.
#[derive(Debug)]
pub struct DriveResponse {
    pub status: u16,
    pub body: Vec<u8>,
    pub entries: Option<Vec<DriveEntry>>,
}

impl DriveResponse {
    /// Whether the status says success.
    pub fn is_success(&self) -> (r: bool)
        ensures
            r == web::success(self.status),
    {
        web::is_success_status(self.status)
    }

    /// The message that the server gave for an error.
    pub fn server_error(&self) -> (r: Option<String>)
        ensures
            text::opt_text(r) == web::json_text(self.body@, "error"@),
    {
        web::text_at(&self.body, "error")
    }
}

/// Why files cannot be sent to a session.
#[derive(Debug, PartialEq)]
pub enum DropReject {
    /// The server does not offer transfers.
    Disabled,
    /// There is no token of a pairing with the server.
    PairRequired,
    /// The session has no drive.
    SshOnly,
    /// There is no such session.
    SessionGone,
    /// The token is not that of the session's owner.
    NotOwner,
    /// The server rejected the token.
    TokenRejected,
    /// The server fails or cannot be reached.
    Unreachable(String),
}

/// The title of the notice.
pub open spec fn reject_title(r: DropReject) -> Seq<char> {
    match r {
        DropReject::Disabled => "Transfers disabled"@,
        DropReject::PairRequired => "Device not paired"@,
        DropReject::SshOnly => "SSH session"@,
        DropReject::SessionGone => "Session gone"@,
        DropReject::NotOwner => "Not your session"@,
        DropReject::TokenRejected => "Token rejected"@,
        DropReject::Unreachable(_) => "Transfer failed"@,
    }
}

/// The text of the notice.
pub open spec fn reject_message(r: DropReject) -> Seq<char> {
    match r {
        DropReject::Disabled =>
            "File transfers are disabled by this server. The in-session upload button still works."@,
        DropReject::PairRequired =>
            "File transfers need a paired device token. Pair this device from the settings page first."@,
        DropReject::SshOnly =>
            "SSH sessions do not support drag-drop transfers yet. Use the upload button inside the session to send files."@,
        DropReject::SessionGone => "The session is no longer active. Reconnect and try again."@,
        DropReject::NotOwner =>
            "The paired token does not own this session. Pair with the account that started it."@,
        DropReject::TokenRejected =>
            "The paired token was rejected by the server. Re-pair this device from the settings page."@,
        DropReject::Unreachable(message) => "Could not reach the server: "@ + message@,
    }
}

impl DropReject {
    /// The title of the notice that is shown.
    pub fn title(&self) -> (r: &'static str)
        ensures
            r@ == reject_title(*self),
    {
        match self {
            DropReject::Disabled => "Transfers disabled",
            DropReject::PairRequired => "Device not paired",
            DropReject::SshOnly => "SSH session",
            DropReject::SessionGone => "Session gone",
            DropReject::NotOwner => "Not your session",
            DropReject::TokenRejected => "Token rejected",
            DropReject::Unreachable(_) => "Transfer failed",
        }
    }

    /// The text of the notice that is shown.
    pub fn message(&self) -> (r: String)
        ensures
            r@ == reject_message(*self),
    {
        match self {
            DropReject::Disabled =>
                "File transfers are disabled by this server. The in-session upload button still works.".to_string(),
            DropReject::PairRequired =>
                "File transfers need a paired device token. Pair this device from the settings page first.".to_string(),
            DropReject::SshOnly =>
                "SSH sessions do not support drag-drop transfers yet. Use the upload button inside the session to send files.".to_string(),
            DropReject::SessionGone =>
                "The session is no longer active. Reconnect and try again.".to_string(),
            DropReject::NotOwner =>
                "The paired token does not own this session. Pair with the account that started it.".to_string(),
            DropReject::TokenRejected =>
                "The paired token was rejected by the server. Re-pair this device from the settings page.".to_string(),
            DropReject::Unreachable(message) => text::join2(
                "Could not reach the server: ",
                message.as_str(),
            ),
        }
    }
}

/// What a listing of a drive leads to.
#[derive(Debug, PartialEq)]
pub enum ListOutcome {
    Ready(Vec<DriveEntry>),
    Reject(DropReject),
}

/// The server's message, or the status code where there is none.
pub open spec fn message_or_code(status: u16, message: Option<Seq<char>>) -> Seq<char> {
    match message {
        Some(m) => m,
        None => "HTTP "@ + text::decimal(status as nat),
    }
}

/// The server's message, or the status code where there is none.
pub fn message_or_status(status: u16, message: Option<String>) -> (r: String)
    ensures
        r@ == message_or_code(status, text::opt_text(message)),
{
    match message {
        Some(m) => m,
        None => {
            let code = text::decimal_of(status as u128);
            text::join2("HTTP ", code.as_str())
        },
    }
}

/// Whether a listing with the status, the files and the message leads to the
/// outcome: the files with 200, none where the body is no listing; else the
/// reason by the status, and with 404 by the message.
pub open spec fn leads_to(
    status: u16,
    entries: Option<Vec<DriveEntry>>,
    message: Option<Seq<char>>,
    r: ListOutcome,
) -> bool {
    if status == 200 {
        r matches ListOutcome::Ready(v) && v@ == (match entries {
            Some(e) => e@,
            None => Seq::empty(),
        })
    } else if status == 404 {
        if message matches Some(m) && text::has(m, "no file-transfer drive"@) {
            r == ListOutcome::Reject(DropReject::SshOnly)
        } else {
            r == ListOutcome::Reject(DropReject::SessionGone)
        }
    } else if status == 403 {
        r == ListOutcome::Reject(DropReject::NotOwner)
    } else if status == 401 {
        r == ListOutcome::Reject(DropReject::TokenRejected)
    } else {
        r matches ListOutcome::Reject(DropReject::Unreachable(m)) && m@ == message_or_code(
            status,
            message,
        )
    }
}

/// Judges a listing by its status, its files and its message.
pub fn classify(status: u16, entries: &Option<Vec<DriveEntry>>, message: Option<String>) -> (r:
    ListOutcome)
    ensures
        leads_to(status, *entries, text::opt_text(message), r),
{
    if status == 200 {
        match entries {
            Some(e) => ListOutcome::Ready(clone_entries(e)),
            None => ListOutcome::Ready(Vec::new()),
        }
    } else if status == 404 {
        let ssh: bool = match &message {
            Some(m) => text::contains(m.as_str(), "no file-transfer drive"),
            None => false,
        };
        if ssh {
            ListOutcome::Reject(DropReject::SshOnly)
        } else {
            ListOutcome::Reject(DropReject::SessionGone)
        }
    } else if status == 403 {
        ListOutcome::Reject(DropReject::NotOwner)
    } else if status == 401 {
        ListOutcome::Reject(DropReject::TokenRejected)
    } else {
        ListOutcome::Reject(DropReject::Unreachable(message_or_status(status, message)))
    }
}

/// Judges the reply to a listing.
pub fn classify_list(resp: &DriveResponse) -> (r: ListOutcome)
    ensures
        leads_to(resp.status, resp.entries, web::json_text(resp.body@, "error"@), r),
{
    classify(resp.status, &resp.entries, resp.server_error())
}

// ---------------------------------------------------------------------------
// Cookies
// ---------------------------------------------------------------------------

/// What a `Set-Cookie` header sets the cookie to.
pub open spec fn cookie_in(raw: Seq<char>, name: Seq<char>) -> Option<Seq<char>> {
    let pair = text::before(raw, ';');
    match text::after(pair, '=') {
        Some(value) => if text::trim(text::before(pair, '=')) == name {
            Some(text::trim(value))
        } else {
            None
        },
        None => None,
    }
}

/// What the first of several `Set-Cookie` headers that sets the cookie sets it
/// to. A header that is no text, `None`, sets nothing.
pub open spec fn cookie_among(values: Seq<Option<Seq<char>>>, name: Seq<char>) -> Option<Seq<char>>
    decreases values.len(),
{
    if values.len() == 0 {
        None
    } else {
        match values.first() {
            Some(raw) => match cookie_in(raw, name) {
                Some(v) => Some(v),
                None => cookie_among(values.drop_first(), name),
            },
            None => cookie_among(values.drop_first(), name),
        }
    }
}

/// What a `Set-Cookie` header sets the cookie to.
fn cookie_of(raw: &str, name: &str) -> (r: Option<String>)
    ensures
        text::opt_text(r) == cookie_in(raw@, name@),
{
    let pair = text::before_of(raw, ';');
    match text::after_of(pair, '=') {
        Some(value) => if text::same(text::trim_of(text::before_of(pair, '=')), name) {
            Some(text::trim_of(value).to_string())
        } else {
            None
        },
        None => None,
    }
}

/// Takes a cookie from the `Set-Cookie` headers of a reply.
pub fn extract_cookie(values: &Vec<Option<String>>, name: &str) -> (r: Option<String>)
    ensures
        text::opt_text(r) == cookie_among(text::opt_texts(values@), name@),
{
    let ghost all = text::opt_texts(values@);
    let mut i: usize = 0;
    proof {
        assert(all.skip(0) =~= all);
    }
    while i < values.len()
        invariant
            all == text::opt_texts(values@),
            i <= values@.len(),
            cookie_among(all, name@) == cookie_among(all.skip(i as int), name@),
        decreases values@.len() - i,
    {
        proof {
            assert(all.skip(i as int).first() == text::opt_text(values@[i as int]));
            assert(all.skip(i as int).drop_first() =~= all.skip(i + 1));
        }
        match &values[i] {
            Some(raw) => match cookie_of(raw.as_str(), name) {
                Some(v) => {
                    return Some(v);
                },
                None => {},
            },
            None => {},
        }
        i = i + 1;
    }
    None
}

// ---------------------------------------------------------------------------
// Addresses of files
// ---------------------------------------------------------------------------

/// The value of a hexadecimal digit.
pub open spec fn hex_value(b: u8) -> Option<u8> {
    if 0x30 <= b <= 0x39 {
        Some((b - 0x30) as u8)
    } else if 0x61 <= b <= 0x66 {
        Some((b - 0x61 + 10) as u8)
    } else if 0x41 <= b <= 0x46 {
        Some((b - 0x41 + 10) as u8)
    } else {
        None
    }
}

/// The value of a hexadecimal digit.
pub fn hex_val(b: u8) -> (r: Option<u8>)
    ensures
        r == hex_value(b),
{
    if 0x30 <= b && b <= 0x39 {
        Some(b - 0x30)
    } else if 0x61 <= b && b <= 0x66 {
        Some(b - 0x61 + 10)
    } else if 0x41 <= b && b <= 0x46 {
        Some(b - 0x41 + 10)
    } else {
        None
    }
}

/// Whether a percent sign and two hexadecimal digits stand at the start of
/// `s`.
pub open spec fn escaped(s: Seq<u8>) -> bool {
    s.len() >= 3 && s[0] == 0x25 && hex_value(s[1]) is Some && hex_value(s[2]) is Some
}

/// The bytes that `s` stands for: a percent sign with two hexadecimal digits
/// for the byte with that value, any other byte for itself.
pub open spec fn unescaped(s: Seq<u8>) -> Seq<u8>
    decreases s.len(),
{
    if s.len() == 0 {
        Seq::empty()
    } else if escaped(s) {
        seq![(hex_value(s[1])->0 * 16 + hex_value(s[2])->0) as u8] + unescaped(s.skip(3))
    } else {
        seq![s[0]] + unescaped(s.skip(1))
    }
}

/// Replaces each percent sign with two hexadecimal digits by its byte.
pub fn unescape(bytes: &[u8]) -> (r: Vec<u8>)
    ensures
        r@ == unescaped(bytes@),
{
    let n: usize = bytes.len();
    let mut out: Vec<u8> = Vec::new();
    let mut i: usize = 0;
    proof {
        assert(bytes@.skip(0) =~= bytes@);
        assert(out@ + unescaped(bytes@) =~= unescaped(bytes@));
    }
    while i < n
        invariant
            n == bytes@.len(),
            i <= n,
            out@ + unescaped(bytes@.skip(i as int)) == unescaped(bytes@),
        decreases n - i,
    {
        let ghost rest = bytes@.skip(i as int);
        let ghost before = out@;
        let mut taken: bool = false;
        if bytes[i] == 0x25 && n - i > 2 {
            match (hex_val(bytes[i + 1]), hex_val(bytes[i + 2])) {
                (Some(h), Some(l)) => {
                    proof {
                        assert(escaped(rest));
                        assert(rest.skip(3) =~= bytes@.skip(i + 3));
                    }
                    let b: u8 = h * 16 + l;
                    out.push(b);
                    i = i + 3;
                    taken = true;
                    proof {
                        assert(out@ + unescaped(bytes@.skip(i as int)) =~= before + unescaped(rest));
                    }
                },
                _ => {},
            }
        }
        if !taken {
            proof {
                assert(!escaped(rest));
                assert(rest.skip(1) =~= bytes@.skip(i + 1));
            }
            out.push(bytes[i]);
            i = i + 1;
            proof {
                assert(out@ + unescaped(bytes@.skip(i as int)) =~= before + unescaped(rest));
            }
        }
    }
    proof {
        assert(bytes@.skip(n as int) =~= Seq::<u8>::empty());
        assert(out@ + Seq::<u8>::empty() =~= out@);
    }
    out
}

/// Decodes the name of a file in a URL.
pub fn percent_decode(input: &str) -> (r: String)
    ensures
        r@ == web::lossy(unescaped(encode_utf8(input@))),
{
    let bytes = unescape(input.as_bytes());
    web::text_of_bytes(&bytes)
}

/// Whether the segments of a path are those of a file of a drive.
pub open spec fn drive_segments(s: Seq<Seq<char>>) -> bool {
    s.len() == 5 && s[0] == "api"@ && s[1] == "sessions"@ && s[3] == "drive-files"@
}

/// Whether the segments of a path are those of a file of a drive.
pub fn is_drive_path(segments: &Vec<String>) -> (r: bool)
    ensures
        r == drive_segments(text::texts(segments@)),
{
    segments.len() == 5 && text::same(segments[0].as_str(), "api") && text::same(
        segments[1].as_str(),
        "sessions",
    ) && text::same(segments[3].as_str(), "drive-files")
}

/// The server, the session and the file that a URL names; `None` where it is
/// not the URL of a file of a drive.
pub open spec fn drive_target(raw: Seq<char>) -> Option<(Seq<char>, Seq<char>, Seq<char>)> {
    match web::url_parse(raw) {
        Ok(u) => match u.segments {
            Some(s) => if drive_segments(s) {
                Some((web::url_origin(raw), s[2], web::lossy(unescaped(encode_utf8(s[4])))))
            } else {
                None
            },
            None => None,
        },
        Err(_) => None,
    }
}

/// The model of what a URL names.
pub open spec fn target_text(t: Option<(String, String, String)>) -> Option<
    (Seq<char>, Seq<char>, Seq<char>),
> {
    match t {
        Some(t) => Some((t.0@, t.1@, t.2@)),
        None => None,
    }
}

/// Takes the server, the session and the file from the URL of a file of a
/// drive.
pub fn parse_drive_url(raw: &str) -> (r: Option<(String, String, String)>)
    ensures
        target_text(r) == drive_target(raw@),
{
    match web::parse_url(raw) {
        Ok(u) => match u.segments {
            Some(segments) => if is_drive_path(&segments) {
                Some(
                    (
                        web::origin_of(raw),
                        segments[2].clone(),
                        percent_decode(segments[4].as_str()),
                    ),
                )
            } else {
                None
            },
            None => None,
        },
        Err(_) => None,
    }
}

/// The path of the drive of a session.
pub open spec fn drive_path(session_id: Seq<char>) -> Seq<char> {
    "/api/sessions/"@ + session_id + "/drive-files"@
}

/// The address of a drive, or of a file of it, from the URL that was made, or
/// the failure: the address of the server is no URL, or one without a path.
pub open spec fn address_made(made: Result<Option<Seq<char>>, Seq<char>>) -> Result<
    Seq<char>,
    Seq<char>,
> {
    match made {
        Ok(Some(u)) => Ok(u),
        Ok(None) => Err("invalid drive URL"@),
        Err(e) => Err("invalid instance URL: "@ + e),
    }
}

/// The address of the drive of a session, or of a file of it.
pub open spec fn drive_address(
    instance: Seq<char>,
    session_id: Seq<char>,
    name: Option<Seq<char>>,
) -> Result<Seq<char>, Seq<char>> {
    let base = text::trim_end(instance, '/');
    match name {
        None => match web::url_with_path(base, drive_path(session_id)) {
            Ok(u) => address_made(Ok(Some(u))),
            Err(e) => address_made(Err(e)),
        },
        Some(n) => address_made(web::url_with_segment(base, drive_path(session_id), n)),
    }
}

/// Whether the text can stand for a session in a path as it is: it is one
/// segment, of characters that a path holds as they are.
pub open spec fn plain_session(s: Seq<char>) -> bool {
    &&& forall|i: int| 0 <= i < s.len() ==> web::is_path_char(#[trigger] s[i]) && s[i] != '/'
    &&& s != "."@
    &&& s != ".."@
}

/// Whether the address names the file, and a server of the given origin.
pub open spec fn names_file(
    made: Seq<char>,
    origin: Seq<char>,
    session_id: Seq<char>,
    name: Seq<char>,
) -> bool {
    drive_target(made) == Some((origin, session_id, name))
}

/// The segments of the path of a drive.
proof fn lemma_drive_pieces(session_id: Seq<char>)
    requires
        plain_session(session_id),
    ensures
        text::pieces(drive_path(session_id).drop_first(), '/') == seq![
            "api"@,
            "sessions"@,
            session_id,
            "drive-files"@,
        ],
{
    reveal_strlit("/api/sessions/");
    reveal_strlit("/drive-files");
    reveal_strlit("api");
    reveal_strlit("sessions");
    reveal_strlit("drive-files");
    let rest = drive_path(session_id).drop_first();
    let files = "drive-files"@;
    let tail = session_id + seq!['/'] + files;
    assert(rest =~= "api"@ + seq!['/'] + ("sessions"@ + seq!['/'] + tail));
    assert(!session_id.contains('/'));
    text::lemma_pieces("api"@, '/', "sessions"@ + seq!['/'] + tail);
    text::lemma_pieces("sessions"@, '/', tail);
    text::lemma_pieces(session_id, '/', files);
    text::lemma_pieces(files, '/', Seq::empty());
    assert(text::pieces(rest, '/') =~= seq!["api"@, "sessions"@, session_id, files]);
}

/// An address with the segments of a drive and one that stands for a name, with
/// some bytes escaped, names the file.
proof fn lemma_names_file(made: Seq<char>, session_id: Seq<char>, name: Seq<char>)
    requires
        plain_session(session_id),
        web::has_segment(made, drive_path(session_id), name),
    ensures
        names_file(made, web::url_origin(made), session_id, name),
{
    lemma_drive_pieces(session_id);
    let all = web::url_parse(made)->Ok_0.segments->0;
    let head = text::pieces(drive_path(session_id).drop_first(), '/');
    assert(head.len() == 4);
    assert(all.drop_last() == head);
    assert(all.len() == 5);
    assert(all[0] == all.drop_last()[0] && all[1] == all.drop_last()[1] && all[2]
        == all.drop_last()[2] && all[3] == all.drop_last()[3]);
    assert(all[4] == all.last());
    encode_utf8_valid_utf8(name);
    encode_utf8_decode_utf8(name);
}

/// A host of lower-case letters and dots makes a plain address.
proof fn lemma_plain_origin(base: Seq<char>)
    requires
        web::plain_origin(base),
    ensures
        web::plain_server(base),
{
    reveal_strlit("https://");
    let p = "https://"@;
    assert forall|i: int| 0 <= i < base.len() implies 0x21 <= (#[trigger] base[i]) as u32 <= 0x7e
        && base[i] != '%' by {
        if i < p.len() {
            assert(base[i] == base.take(p.len() as int)[i]);
        }
    }
}

/// The path of a drive is a plain one.
proof fn lemma_drive_path(session_id: Seq<char>)
    requires
        plain_session(session_id),
    ensures
        web::plain_path(drive_path(session_id)),
{
    lemma_drive_pieces(session_id);
    reveal_strlit("/api/sessions/");
    reveal_strlit("/drive-files");
    reveal_strlit("api");
    reveal_strlit("sessions");
    reveal_strlit("drive-files");
    reveal_strlit(".");
    reveal_strlit("..");
    let p = drive_path(session_id);
    let a = "/api/sessions/"@;
    let b = "/drive-files"@;
    assert forall|i: int| 0 <= i < p.len() implies web::is_path_char(#[trigger] p[i]) by {
        if i < a.len() {
            assert(p[i] == a[i]);
        } else if i < a.len() + session_id.len() {
            assert(p[i] == session_id[i - a.len()]);
        } else {
            assert(p[i] == b[i - a.len() - session_id.len()]);
        }
    }
    let all = text::pieces(p.drop_first(), '/');
    assert("api"@.len() == 3 && "sessions"@.len() == 8 && "drive-files"@.len() == 11);
    assert forall|i: int| 0 <= i < all.len() implies #[trigger] all[i] != "."@ && all[i]
        != ".."@ by {
        assert(i == 0 || i == 1 || i == 2 || i == 3);
    }
}

/// The model of a URL that was made.
pub open spec fn made_text(r: Result<Option<String>, String>) -> Result<
    Option<Seq<char>>,
    Seq<char>,
> {
    match r {
        Ok(u) => Ok(text::opt_text(u)),
        Err(e) => Err(e@),
    }
}

/// Takes the address from the URL that was made.
pub fn made_address(made: Result<Option<String>, String>) -> (r: Result<String, String>)
    ensures
        text::result_text(r) == address_made(made_text(made)),
{
    match made {
        Ok(Some(u)) => Ok(u),
        Ok(None) => Err("invalid drive URL".to_string()),
        Err(e) => Err(text::join2("invalid instance URL: ", e.as_str())),
    }
}

/// How many characters the parts of a drive address have, with room for the
/// path between them.
pub open spec fn address_fits(
    instance: Seq<char>,
    session_id: Seq<char>,
    name: Option<Seq<char>>,
) -> bool {
    instance.len() + drive_path(session_id).len() + (match name {
        Some(n) => n.len(),
        None => 0,
    }) <= web::URL_TEXT_MAX
}

// ---------------------------------------------------------------------------
// Requests
// ---------------------------------------------------------------------------

/// A request: its method, its address and its headers.
#[derive(Debug)]
pub struct DriveRequest {
    pub method: &'static str,
    pub url: String,
    pub headers: Vec<(String, String)>,
}

/// The model of [`DriveRequest`].
#[verifier::ext_equal]
pub struct RequestModel {
    pub method: Seq<char>,
    pub url: Seq<char>,
    pub headers: Seq<(Seq<char>, Seq<char>)>,
}

/// The headers of a request as texts.
pub open spec fn header_texts(v: Seq<(String, String)>) -> Seq<(Seq<char>, Seq<char>)> {
    v.map_values(|h: (String, String)| (h.0@, h.1@))
}

impl View for DriveRequest {
    type V = RequestModel;

    open spec fn view(&self) -> RequestModel {
        RequestModel {
            method: self.method@,
            url: self.url@,
            headers: header_texts(self.headers@),
        }
    }
}

/// The model of a request or of a failure.
pub open spec fn request_text(r: Result<DriveRequest, String>) -> Result<RequestModel, Seq<char>> {
    match r {
        Ok(q) => Ok(q@),
        Err(e) => Err(e@),
    }
}

/// The header with the credential.
pub open spec fn authorization(bearer: Seq<char>) -> (Seq<char>, Seq<char>) {
    ("authorization"@, "Bearer "@ + bearer)
}

/// A request that reads, at an address.
pub open spec fn read_request(url: Result<Seq<char>, Seq<char>>, bearer: Seq<char>) -> Result<
    RequestModel,
    Seq<char>,
> {
    match url {
        Ok(u) => Ok(
            RequestModel { method: "GET"@, url: u, headers: seq![authorization(bearer)] },
        ),
        Err(e) => Err(e),
    }
}

/// The headers of a request that writes: with a token, it goes along as a
/// cookie and as a header.
pub open spec fn write_headers(bearer: Seq<char>, token: Option<Seq<char>>) -> Seq<
    (Seq<char>, Seq<char>),
> {
    seq![authorization(bearer), ("content-type"@, "application/octet-stream"@)] + (match token {
        Some(t) => seq![
            ("cookie"@, http::CSRF_COOKIE@ + "="@ + t),
            (http::CSRF_HEADER@, t),
        ],
        None => seq![],
    })
}

/// A request that writes a file, at an address.
pub open spec fn write_request(
    url: Result<Seq<char>, Seq<char>>,
    bearer: Seq<char>,
    token: Option<Seq<char>>,
) -> Result<RequestModel, Seq<char>> {
    match url {
        Ok(u) => Ok(
            RequestModel { method: "PUT"@, url: u, headers: write_headers(bearer, token) },
        ),
        Err(e) => Err(e),
    }
}

/// The request that reads, at an address.
pub fn reading(url: Result<String, String>, bearer: &str) -> (r: Result<DriveRequest, String>)
    ensures
        request_text(r) == read_request(text::result_text(url), bearer@),
{
    match url {
        Err(e) => Err(e),
        Ok(url) => {
            let mut headers: Vec<(String, String)> = Vec::new();
            headers.push(("authorization".to_string(), http::bearer_header(bearer)));
            proof {
                assert(header_texts(headers@) =~= seq![authorization(bearer@)]);
            }
            Ok(DriveRequest { method: "GET", url, headers })
        },
    }
}

/// The request that writes a file, at an address.
pub fn writing(url: Result<String, String>, bearer: &str, token: Option<String>) -> (r: Result<
    DriveRequest,
    String,
>)
    ensures
        request_text(r) == write_request(text::result_text(url), bearer@, text::opt_text(token)),
{
    match url {
        Err(e) => Err(e),
        Ok(url) => {
            let mut headers: Vec<(String, String)> = Vec::new();
            headers.push(("authorization".to_string(), http::bearer_header(bearer)));
            headers.push(("content-type".to_string(), "application/octet-stream".to_string()));
            match &token {
                Some(t) => {
                    headers.push(
                        ("cookie".to_string(), text::join3(http::CSRF_COOKIE, "=", t.as_str())),
                    );
                    headers.push((http::CSRF_HEADER.to_string(), t.clone()));
                },
                None => {},
            }
            proof {
                assert(header_texts(headers@) =~= write_headers(bearer@, text::opt_text(token)));
            }
            Ok(DriveRequest { method: "PUT", url, headers })
        },
    }
}

/// What comes of asking for the token once.
#[derive(Debug, PartialEq)]
pub enum BootstrapStep {
    /// The token is there.
    Done,
    /// Ask again.
    Retry,
    /// Asking was in vain.
    Failed(String),
}

/// The client of the drives: the tokens of the double-submit rule, by server.
#[derive(Debug)]
pub struct DriveClient {
    pub csrf: TextMap<String>,
}

/// The token of a server.
pub open spec fn token_of(m: Map<Seq<char>, String>, instance: Seq<char>) -> Option<Seq<char>> {
    if m.contains_key(text::trim_end(instance, '/')) {
        Some(m[text::trim_end(instance, '/')]@)
    } else {
        None
    }
}

/// Whether the tokens are as before, but for that of one server.
pub open spec fn token_stored(
    before: Map<Seq<char>, String>,
    after: Map<Seq<char>, String>,
    instance: Seq<char>,
    token: Seq<char>,
) -> bool {
    let key = text::trim_end(instance, '/');
    after.contains_key(key) && after == before.insert(key, after[key]) && after[key]@ == token
}

impl DriveClient {
    /// A client without tokens.
    pub fn new() -> (r: Self)
        ensures
            r.csrf@ == Map::<Seq<char>, String>::empty(),
    {
        DriveClient { csrf: TextMap::new() }
    }

    /// The token of a server.
    pub fn csrf_token(&self, instance: &str) -> (r: Option<String>)
        ensures
            text::opt_text(r) == token_of(self.csrf@, instance@),
    {
        match self.csrf.get(text::trim_end_of(instance, '/')) {
            Some(t) => Some(t.clone()),
            None => None,
        }
    }

    /// Stores the token of a server.
    pub fn store_token(&mut self, instance: &str, token: String)
        ensures
            token_stored(old(self).csrf@, final(self).csrf@, instance@, token@),
    {
        self.csrf.insert(text::trim_end_of(instance, '/'), token);
    }

    /// The address of the drive of a session, or of a file of it. The address
    /// of a file on a server in plain ASCII is read back as that server,
    /// session and file by [`parse_drive_url`].
    pub fn drive_url(&self, instance: &str, session_id: &str, name: Option<&str>) -> (r: Result<
        String,
        String,
    >)
        requires
            address_fits(instance@, session_id@, text::opt_str(name)),
        ensures
            text::result_text(r) == drive_address(instance@, session_id@, text::opt_str(name)),
            r is Ok && name is Some && plain_session(session_id@) && web::kept_segment(name->0@)
                && web::plain_server(text::trim_end(instance@, '/')) ==> names_file(
                r->Ok_0@,
                web::url_origin(text::trim_end(instance@, '/')),
                session_id@,
                name->0@,
            ),
            r is Ok && name is Some && plain_session(session_id@) && web::kept_segment(name->0@)
                && web::plain_origin(text::trim_end(instance@, '/')) ==> names_file(
                r->Ok_0@,
                text::trim_end(instance@, '/'),
                session_id@,
                name->0@,
            ),
    {
        let base = text::trim_end_of(instance, '/');
        proof {
            text::lemma_trim_end(instance@, '/');
        }
        let path = text::join3("/api/sessions/", session_id, "/drive-files");
        match name {
            None => match web::set_url_path(base, path.as_str()) {
                Ok(u) => made_address(Ok(Some(u))),
                Err(e) => made_address(Err(e)),
            },
            Some(n) => {
                let made = web::push_url_segment(base, path.as_str(), n);
                proof {
                    if plain_session(session_id@) && web::kept_segment(n@) && web::plain_origin(
                        base@,
                    ) {
                        lemma_plain_origin(base@);
                    }
                    if made is Ok && made->Ok_0 is Some && plain_session(session_id@)
                        && web::kept_segment(n@) && web::plain_server(base@) {
                        lemma_drive_path(session_id@);
                        lemma_names_file(made->Ok_0->0@, session_id@, n@);
                    }
                }
                made_address(made)
            },
        }
    }

    /// The address at which the token of a server is asked for; `None` where
    /// the token is there already.
    pub fn bootstrap(&self, instance: &str) -> (r: Option<String>)
        ensures
            text::opt_text(r) == (if token_of(self.csrf@, instance@) is Some {
                None
            } else {
                Some(text::trim_end(instance@, '/') + BOOTSTRAP_PATH@)
            }),
    {
        match self.csrf_token(instance) {
            Some(_) => None,
            None => Some(text::join2(text::trim_end_of(instance, '/'), BOOTSTRAP_PATH)),
        }
    }

    /// Takes in what asking for the token brought, the `Set-Cookie` headers of
    /// the reply or the failure, at the given attempt, counted from zero.
    pub fn bootstrap_reply(
        &mut self,
        instance: &str,
        attempt: u8,
        reply: Result<&Vec<Option<String>>, String>,
    ) -> (r: BootstrapStep)
        ensures
            match reply {
                Ok(values) => match cookie_among(text::opt_texts(values@), http::CSRF_COOKIE@) {
                    Some(token) => r is Done && token_stored(
                        old(self).csrf@,
                        final(self).csrf@,
                        instance@,
                        token,
                    ),
                    None => final(self).csrf == old(self).csrf && if attempt + 1
                        < BOOTSTRAP_ATTEMPTS {
                        r is Retry
                    } else {
                        r matches BootstrapStep::Failed(e) && e@ == "server set no csrf cookie"@
                    },
                },
                Err(m) => final(self).csrf == old(self).csrf && if attempt + 1
                    < BOOTSTRAP_ATTEMPTS {
                    r is Retry
                } else {
                    r matches BootstrapStep::Failed(e) && e@ == "request failed: "@ + m@
                },
            },
    {
        match reply {
            Ok(values) => match extract_cookie(values, http::CSRF_COOKIE) {
                Some(token) => {
                    self.store_token(instance, token);
                    BootstrapStep::Done
                },
                None => if attempt < BOOTSTRAP_ATTEMPTS - 1 {
                    BootstrapStep::Retry
                } else {
                    BootstrapStep::Failed("server set no csrf cookie".to_string())
                },
            },
            Err(m) => if attempt < BOOTSTRAP_ATTEMPTS - 1 {
                BootstrapStep::Retry
            } else {
                BootstrapStep::Failed(text::join2("request failed: ", m.as_str()))
            },
        }
    }

    /// The request that lists the drive of a session.
    pub fn list(&self, instance: &str, session_id: &str, bearer: &str) -> (r: Result<
        DriveRequest,
        String,
    >)
        requires
            address_fits(instance@, session_id@, None),
        ensures
            request_text(r) == read_request(
                drive_address(instance@, session_id@, None),
                bearer@,
            ),
    {
        reading(self.drive_url(instance, session_id, None), bearer)
    }

    /// The request that sends a file to the drive of a session, with the token
    /// of the server.
    pub fn upload(&self, instance: &str, session_id: &str, name: &str, bearer: &str) -> (r: Result<
        DriveRequest,
        String,
    >)
        requires
            address_fits(instance@, session_id@, Some(name@)),
        ensures
            request_text(r) == write_request(
                drive_address(instance@, session_id@, Some(name@)),
                bearer@,
                token_of(self.csrf@, instance@),
            ),
    {
        writing(
            self.drive_url(instance, session_id, Some(name)),
            bearer,
            self.csrf_token(instance),
        )
    }

    /// The request that fetches a file from the drive of a session.
    pub fn download_to(&self, instance: &str, session_id: &str, name: &str, bearer: &str) -> (r:
        Result<DriveRequest, String>)
        requires
            address_fits(instance@, session_id@, Some(name@)),
        ensures
            request_text(r) == read_request(
                drive_address(instance@, session_id@, Some(name@)),
                bearer@,
            ),
    {
        reading(self.drive_url(instance, session_id, Some(name)), bearer)
    }

    /// Takes in the token that a reply sets anew, for the server from which it
    /// came: `url` is the address of the reply, `values` its `Set-Cookie`
    /// headers. An address in which another is nested is that of no server.
    pub fn finish(&mut self, url: &str, values: &Vec<Option<String>>)
        ensures
            match cookie_among(text::opt_texts(values@), http::CSRF_COOKIE@) {
                Some(token) => if web::has_origin(web::url_parse(url@)) {
                    token_stored(
                        old(self).csrf@,
                        final(self).csrf@,
                        web::url_origin(url@),
                        token,
                    )
                } else {
                    final(self).csrf == old(self).csrf
                },
                None => final(self).csrf == old(self).csrf,
            },
    {
        match web::parse_url(url) {
            Ok(u) => {
                if !text::same(u.scheme.as_str(), "blob") || u.segments.is_some() {
                    let origin = web::origin_of(url);
                    self.refresh_token(origin.as_str(), values);
                }
            },
            Err(_) => {},
        }
    }

    /// Takes in the token that a reply from the server at `origin` sets anew.
    pub fn refresh_token(&mut self, origin: &str, values: &Vec<Option<String>>)
        ensures
            match cookie_among(text::opt_texts(values@), http::CSRF_COOKIE@) {
                Some(token) => token_stored(
                    old(self).csrf@,
                    final(self).csrf@,
                    origin@,
                    token,
                ),
                None => final(self).csrf == old(self).csrf,
            },
    {
        match extract_cookie(values, http::CSRF_COOKIE) {
            Some(token) => self.store_token(origin, token),
            None => {},
        }
    }
}

impl Default for DriveClient {
    fn default() -> (r: Self)
        ensures
            r.csrf@ == Map::<Seq<char>, String>::empty(),
    {
        DriveClient::new()
    }
}

// ---------------------------------------------------------------------------
// Downloads
// ---------------------------------------------------------------------------

/// The failure of a download that was refused.
pub open spec fn download_refused(status: u16, message: Option<Seq<char>>) -> Seq<char> {
    "download failed (HTTP "@ + text::decimal(status as nat) + "): "@ + (match message {
        Some(m) => m,
        None => "unknown error"@,
    })
}

/// Says of a download that it was refused, and with which message.
pub fn download_failure(status: u16, message: Option<String>) -> (r: String)
    ensures
        r@ == download_refused(status, text::opt_text(message)),
{
    let code = text::decimal_of(status as u128);
    let mut s = text::join3("download failed (HTTP ", code.as_str(), "): ");
    match message {
        Some(m) => s.append(m.as_str()),
        None => s.append("unknown error"),
    }
    s
}

/// Whether a reply to a download brings the file; else what to say of it.
/// `body` is the start of the body.
pub fn download_reply(status: u16, body: &Vec<u8>) -> (r: Result<(), String>)
    ensures
        match r {
            Ok(()) => web::success(status),
            Err(e) => !web::success(status) && e@ == download_refused(
                status,
                web::json_text(body@, "error"@),
            ),
        },
{
    if web::is_success_status(status) {
        Ok(())
    } else {
        Err(download_failure(status, web::text_at(body, "error")))
    }
}

/// What is handed out, and what stays gathered, when a piece comes in.
pub open spec fn gathered(buffered: Seq<u8>, chunk: Seq<u8>) -> (Option<Seq<u8>>, Seq<u8>) {
    if buffered.len() + chunk.len() >= STREAM_FLUSH_BYTES {
        (Some(buffered + chunk), Seq::empty())
    } else {
        (None, buffered + chunk)
    }
}

/// The bytes of an optional piece.
pub open spec fn opt_bytes(o: Option<Vec<u8>>) -> Option<Seq<u8>> {
    match o {
        Some(v) => Some(v@),
        None => None,
    }
}

/// Gathers the pieces of a download until there is enough to write, and counts
/// the bytes that came in.
#[derive(Debug)]
pub struct StreamBuffer {
    pub buffered: Vec<u8>,
    pub total: u64,
}

impl StreamBuffer {
    /// Nothing gathered yet.
    pub fn new() -> (r: Self)
        ensures
            r.buffered@ == Seq::<u8>::empty(),
            r.total == 0,
    {
        StreamBuffer { buffered: Vec::new(), total: 0 }
    }

    /// Takes a piece in, and hands out what was gathered once there is enough.
    pub fn push(&mut self, chunk: &[u8]) -> (r: Option<Vec<u8>>)
        requires
            old(self).total + chunk@.len() <= u64::MAX,
        ensures
            opt_bytes(r) == gathered(old(self).buffered@, chunk@).0,
            final(self).buffered@ == gathered(old(self).buffered@, chunk@).1,
            final(self).total == old(self).total + chunk@.len(),
    {
        let ghost before = self.buffered@;
        self.total = self.total + chunk.len() as u64;
        self.buffered.extend_from_slice(chunk);
        proof {
            assert(self.buffered@ =~= before + chunk@);
        }
        if self.buffered.len() >= STREAM_FLUSH_BYTES {
            let mut out: Vec<u8> = Vec::new();
            std::mem::swap(&mut out, &mut self.buffered);
            Some(out)
        } else {
            None
        }
    }

    /// Hands out what is left.
    pub fn finish(self) -> (r: Option<Vec<u8>>)
        ensures
            match r {
                Some(v) => v@ == self.buffered@ && v@.len() > 0,
                None => self.buffered@.len() == 0,
            },
    {
        if self.buffered.len() > 0 {
            Some(self.buffered)
        } else {
            None
        }
    }
}

} // verus!
