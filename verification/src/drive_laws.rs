//! What holds of the drives of sessions: of their listings, their cookies,
//! their addresses and their requests, and of files that are dropped on them.

use vstd::prelude::*;
use vstd::utf8::*;

use crate::drive;
use crate::drive::{DriveEntry, DropReject, ListOutcome};
use crate::drops;
use crate::drops::{DropAction, DropEvent, PromptAnswer};
use crate::name_laws;
use crate::plan::ConflictChoice;
use crate::text;
use crate::text_laws;
use crate::web;

verus! {

// ---------------------------------------------------------------------------
// Listings
// ---------------------------------------------------------------------------

/// A listing is ready exactly where the reply says 200, with the files that it
/// lists; any other reply is a refusal, whose reason its status tells, and with
/// 404 its message.
pub proof fn law_listing_is_judged_by_its_status(
    status: u16,
    entries: Option<Vec<DriveEntry>>,
    message: Option<Seq<char>>,
    r: ListOutcome,
)
    requires
        drive::leads_to(status, entries, message, r),
    ensures
        r is Ready <==> status == 200,
        r matches ListOutcome::Ready(v) ==> (entries matches Some(e) ==> v@ == e@),
        r matches ListOutcome::Ready(v) ==> (entries is None ==> v@.len() == 0),
        status == 401 ==> r == ListOutcome::Reject(DropReject::TokenRejected),
        status == 403 ==> r == ListOutcome::Reject(DropReject::NotOwner),
        status == 404 && message is None ==> r == ListOutcome::Reject(DropReject::SessionGone),
        status == 404 && message is Some && text::has(message->0, "no file-transfer drive"@)
            ==> r == ListOutcome::Reject(DropReject::SshOnly),
        status == 404 && message is Some && !text::has(message->0, "no file-transfer drive"@)
            ==> r == ListOutcome::Reject(DropReject::SessionGone),
        status != 200 && status != 401 && status != 403 && status != 404 ==> {
            &&& r is Reject
            &&& r->Reject_0 is Unreachable
            &&& message matches Some(m) ==> r->Reject_0->Unreachable_0@ == m
            &&& message is None ==> r->Reject_0->Unreachable_0@ == "HTTP "@ + text::decimal(
                status as nat,
            )
        },
{
}

/// The files that a reply of 200 lists are what a listing that is ready has.
pub proof fn law_listed_files_are_ready(
    entries: Vec<DriveEntry>,
    message: Option<Seq<char>>,
    r: ListOutcome,
)
    requires
        r matches ListOutcome::Ready(v) && v@ == entries@,
    ensures
        drive::leads_to(200, Some(entries), message, r),
{
}

// ---------------------------------------------------------------------------
// Cookies
// ---------------------------------------------------------------------------

/// A header that sets a cookie sets it to what stands between the equals sign
/// and the next semicolon, without white space around it; it sets no other
/// cookie.
pub proof fn law_cookie_is_what_the_header_sets(
    name: Seq<char>,
    value: Seq<char>,
    rest: Seq<char>,
    other: Seq<char>,
)
    requires
        !name.contains('='),
        !name.contains(';'),
        !value.contains(';'),
        name.len() > 0 ==> !text_laws::white(name[0]) && !text_laws::white(name.last()),
        other != name,
    ensures
        drive::cookie_in(name + seq!['='] + value, name) == Some(text::trim(value)),
        drive::cookie_in(name + seq!['='] + value + seq![';'] + rest, name) == Some(
            text::trim(value),
        ),
        drive::cookie_in(name + seq!['='] + value + seq![';'] + rest, other) is None,
{
    let pair = name + seq!['='] + value;
    assert(!pair.contains(';')) by {
        if pair.contains(';') {
            let k = choose|k: int| 0 <= k < pair.len() && pair[k] == ';';
            if k < name.len() {
                assert(name[k] == ';');
            } else if k > name.len() {
                assert(value[k - name.len() - 1] == ';');
            }
        }
    }
    text_laws::law_text_is_cut_at_the_first(pair, ';', rest);
    text_laws::law_text_is_cut_at_the_first(name, '=', value);
    text_laws::law_tight_text_is_kept(name);
}

/// What has no equals sign before the first semicolon sets no cookie.
pub proof fn law_header_without_a_value_sets_nothing(
    head: Seq<char>,
    rest: Seq<char>,
    name: Seq<char>,
)
    requires
        !head.contains('='),
        !head.contains(';'),
    ensures
        drive::cookie_in(head, name) is None,
        drive::cookie_in(head + seq![';'] + rest, name) is None,
{
    text_laws::law_text_is_cut_at_the_first(head, ';', rest);
    text_laws::law_text_is_cut_at_the_first(head, '=', head);
}

/// Of several headers the first that sets the cookie counts; one that sets
/// another, or is no text, is passed over.
pub proof fn law_first_header_counts(
    header: Option<Seq<char>>,
    rest: Seq<Option<Seq<char>>>,
    name: Seq<char>,
)
    ensures
        drive::cookie_among(Seq::empty(), name) is None,
        header matches Some(raw) && drive::cookie_in(raw, name) is Some ==> drive::cookie_among(
            seq![header] + rest,
            name,
        ) == drive::cookie_in(header->0, name),
        header is None || drive::cookie_in(header->0, name) is None ==> drive::cookie_among(
            seq![header] + rest,
            name,
        ) == drive::cookie_among(rest, name),
{
    let all = seq![header] + rest;
    assert(all.first() == header);
    assert(all.drop_first() =~= rest);
}

// ---------------------------------------------------------------------------
// Names in addresses
// ---------------------------------------------------------------------------

/// Whether the byte is the digit with the value in hexadecimal, in either case.
pub open spec fn writes(b: u8, value: int) -> bool {
    if value < 10 {
        b == 0x30 + value
    } else {
        b == 0x61 + value - 10 || b == 0x41 + value - 10
    }
}

/// A percent sign and the two hexadecimal digits of a byte, in either case,
/// stand for that byte.
pub proof fn law_escaped_byte_is_decoded(b: u8, high: u8, low: u8, rest: Seq<u8>)
    requires
        writes(high, b as int / 16),
        writes(low, b as int % 16),
    ensures
        drive::unescaped(seq![0x25u8, high, low] + rest) == seq![b] + drive::unescaped(rest),
{
    let s = seq![0x25u8, high, low] + rest;
    assert(s[0] == 0x25 && s[1] == high && s[2] == low);
    assert(s.skip(3) =~= rest);
    assert(drive::hex_value(high) == Some((b as int / 16) as u8));
    assert(drive::hex_value(low) == Some((b as int % 16) as u8));
    assert(drive::escaped(s));
    assert((b as int / 16) * 16 + b as int % 16 == b);
}

/// Every other byte stands for itself, and so does a percent sign without two
/// hexadecimal digits behind it.
pub proof fn law_other_bytes_stand_for_themselves(b: u8, rest: Seq<u8>)
    requires
        b != 0x25 || rest.len() < 2 || (forall|v: int| 0 <= v < 16 ==> !#[trigger] writes(rest[0], v))
            || (forall|v: int| 0 <= v < 16 ==> !#[trigger] writes(rest[1], v)),
    ensures
        drive::unescaped(Seq::empty()).len() == 0,
        drive::unescaped(seq![b] + rest) == seq![b] + drive::unescaped(rest),
{
    let s = seq![b] + rest;
    assert(s.skip(1) =~= rest);
    if b == 0x25 && rest.len() >= 2 {
        assert(s[1] == rest[0] && s[2] == rest[1]);
        lemma_digit_is_written(rest[0]);
        lemma_digit_is_written(rest[1]);
    }
}

/// A byte with a value is a digit with that value.
proof fn lemma_digit_is_written(b: u8)
    ensures
        drive::hex_value(b) matches Some(v) ==> v < 16 && writes(b, v as int),
{
}

/// An address names a file of a drive exactly where its path has five segments
/// and the first, the second and the fourth are those of drives; it then names
/// the origin of the address, the session in the third, and the decoded fifth.
pub proof fn law_drive_address_names_a_file(
    raw: Seq<char>,
    session: Seq<char>,
    name: Seq<char>,
    s: Seq<Seq<char>>,
)
    ensures
        web::url_parse(raw) is Err ==> drive::drive_target(raw) is None,
        web::url_parse(raw) matches Ok(u) ==> {
            &&& u.segments is None ==> drive::drive_target(raw) is None
            &&& u.segments == Some(seq!["api"@, "sessions"@, session, "drive-files"@, name])
                ==> drive::drive_target(raw) == Some(
                (
                    web::url_origin(raw),
                    session,
                    web::lossy(drive::unescaped(encode_utf8(name))),
                ),
            )
            &&& u.segments == Some(s) && (s.len() != 5 || s[0] != "api"@ || s[1] != "sessions"@
                || s[3] != "drive-files"@) ==> drive::drive_target(raw) is None
        },
{
}

/// The drive of a session stands under that session.
pub proof fn law_drive_stands_under_its_session(session: Seq<char>)
    ensures
        drive::drive_path(session) == "/api/sessions/"@ + session + "/drive-files"@,
{
}

/// The address of a drive is that of the server with the path of the drive, and
/// that of a file has one segment more, which stands for its name; slashes at
/// the end of the server's address make no difference.
pub proof fn law_drive_address_is_made_of_its_parts(
    instance: Seq<char>,
    session: Seq<char>,
    name: Option<Seq<char>>,
)
    requires
        instance.len() > 0 ==> instance.last() != '/',
    ensures
        drive::drive_address(instance.push('/'), session, name) == drive::drive_address(
            instance,
            session,
            name,
        ),
        name is None ==> (match web::url_with_path(instance, drive::drive_path(session)) {
            Ok(u) => drive::drive_address(instance, session, name) == Ok::<Seq<char>, Seq<char>>(u),
            Err(e) => drive::drive_address(instance, session, name) == Err::<Seq<char>, Seq<char>>(
                "invalid instance URL: "@ + e,
            ),
        }),
        name matches Some(n) ==> (match web::url_with_segment(
            instance,
            drive::drive_path(session),
            n,
        ) {
            Ok(Some(u)) => drive::drive_address(instance, session, name) == Ok::<
                Seq<char>,
                Seq<char>,
            >(u),
            Ok(None) => drive::drive_address(instance, session, name) == Err::<
                Seq<char>,
                Seq<char>,
            >("invalid drive URL"@),
            Err(e) => drive::drive_address(instance, session, name) == Err::<Seq<char>, Seq<char>>(
                "invalid instance URL: "@ + e,
            ),
        }),
{
    assert(instance.push('/').drop_last() =~= instance);
}

/// A host of lower-case letters and dots, a session of letters, digits and
/// hyphens, and a file name that can be one as it is, meet what the parts of an
/// address have to meet for it to be read back as them.
pub proof fn law_ordinary_parts_are_read_back(
    host: Seq<char>,
    session: Seq<char>,
    name: Seq<char>,
)
    requires
        host.len() > 0,
        forall|i: int| 0 <= i < host.len() ==> 'a' <= #[trigger] host[i] <= 'z' || host[i] == '.',
        session.len() > 0,
        forall|i: int|
            0 <= i < session.len() ==> 'a' <= #[trigger] session[i] <= 'z' || 'A' <= session[i]
                <= 'Z' || '0' <= session[i] <= '9' || session[i] == '-',
        name_laws::ordinary(name),
    ensures
        web::plain_origin("https://"@ + host),
        drive::plain_session(session),
        web::kept_segment(name),
{
    reveal_strlit("https://");
    reveal_strlit(".");
    reveal_strlit("..");
    let p = "https://"@;
    let base = p + host;
    assert(base.take(p.len() as int) =~= p);
    assert forall|i: int| p.len() <= i < base.len() implies (0x61 <= (#[trigger] base[i]) as u32
        <= 0x7a || base[i] == '.') by {
        assert(base[i] == host[i - p.len()]);
        lemma_letter(base[i]);
    }
    assert forall|i: int| 0 <= i < session.len() implies web::is_path_char(#[trigger] session[i])
        && session[i] != '/' by {
        lemma_session_char(session[i]);
    }
    assert(session[0] != '.') by {
        lemma_session_char(session[0]);
    }
    assert(name[0] != '.');
    assert forall|i: int| 0 <= i < name.len() implies #[trigger] name[i] != '\t' && name[i] != '\n'
        && name[i] != '\r' by {
        assert(name_laws::keeps(name[i]));
    }
}

/// A lower-case letter by its number.
proof fn lemma_letter(c: char)
    ensures
        'a' <= c <= 'z' ==> 0x61 <= c as u32 <= 0x7a,
{
}

/// Letters, digits and hyphens stand in a path as they are.
proof fn lemma_session_char(c: char)
    requires
        'a' <= c <= 'z' || 'A' <= c <= 'Z' || '0' <= c <= '9' || c == '-',
    ensures
        web::is_path_char(c),
        c != '/',
        c != '.',
{
}

/// An address that names a file is read as that server, session and file.
pub proof fn law_named_file_is_read(
    made: Seq<char>,
    origin: Seq<char>,
    session: Seq<char>,
    name: Seq<char>,
)
    ensures
        drive::names_file(made, origin, session, name) <==> drive::drive_target(made) == Some(
            (origin, session, name),
        ),
{
}

// ---------------------------------------------------------------------------
// Requests
// ---------------------------------------------------------------------------

/// A request goes to its address with the credential, and without an address
/// there is none: one that reads is a GET with the credential alone; one that
/// writes is a PUT of bytes, with the token in its two places where the server
/// has one.
pub proof fn law_requests_carry_the_credential(
    url: Seq<char>,
    bearer: Seq<char>,
    token: Option<Seq<char>>,
    e: Seq<char>,
)
    ensures
        ({
            let r = drive::read_request(Ok(url), bearer)->Ok_0;
            let w = drive::write_request(Ok(url), bearer, token)->Ok_0;
            let credential = ("authorization"@, "Bearer "@ + bearer);
            &&& drive::read_request(Ok(url), bearer) is Ok
            &&& drive::write_request(Ok(url), bearer, token) is Ok
            &&& r.method == "GET"@
            &&& w.method == "PUT"@
            &&& r.url == url
            &&& w.url == url
            &&& r.headers == seq![credential]
            &&& w.headers[0] == credential
            &&& w.headers[1] == ("content-type"@, "application/octet-stream"@)
            &&& token is None ==> w.headers.len() == 2
            &&& token matches Some(t) ==> {
                &&& w.headers.len() == 4
                &&& w.headers[2] == ("cookie"@, "csrf_token"@ + "="@ + t)
                &&& w.headers[3] == ("X-CSRF-Token"@, t)
            }
        }),
        drive::read_request(Err(e), bearer) is Err,
        drive::read_request(Err(e), bearer)->Err_0 == e,
        drive::write_request(Err(e), bearer, token) is Err,
        drive::write_request(Err(e), bearer, token)->Err_0 == e,
{
}

/// Without a token none is known of a server, and one that is known is told
/// with and without slashes at the end of its URL.
pub proof fn law_token_is_known_by_server(
    m: Map<Seq<char>, String>,
    instance: Seq<char>,
)
    requires
        instance.len() > 0 ==> instance.last() != '/',
    ensures
        !m.contains_key(instance) ==> drive::token_of(m, instance) is None,
        m.contains_key(instance) ==> drive::token_of(m, instance) == Some(m[instance]@),
        drive::token_of(m, instance.push('/')) == drive::token_of(m, instance),
{
    assert(instance.push('/').drop_last() =~= instance);
}

/// A piece of a download is handed on together with what was gathered before it
/// as soon as that makes a mebibyte, and is gathered until then: nothing is
/// lost and nothing is handed on twice.
pub proof fn law_pieces_are_handed_on_by_the_mebibyte(buffered: Seq<u8>, chunk: Seq<u8>)
    ensures
        ({
            let (out, rest) = drive::gathered(buffered, chunk);
            let all = buffered + chunk;
            &&& all.len() >= 1024 * 1024 ==> out == Some(all) && rest.len() == 0
            &&& all.len() < 1024 * 1024 ==> out is None && rest == all
        }),
{
}

// ---------------------------------------------------------------------------
// Drops
// ---------------------------------------------------------------------------

/// Files that are dropped are sent only where there are any, the server offers
/// transfers, the device is paired and the drive answers; each of these that
/// fails is told, and the first of them.
pub proof fn law_drop_is_sent_or_told_why_not(
    enabled: bool,
    paths: usize,
    token: Option<String>,
    first: DropAction,
    second: DropAction,
)
    requires
        drops::drop_leads(enabled, DropEvent::Dropped { paths }, first),
        drops::drop_leads(enabled, DropEvent::Token(token), second),
    ensures
        first is FindToken <==> paths > 0 && enabled,
        paths == 0 ==> drops::is_notice(
            first,
            "Empty drop"@,
            "No file paths were received (a known quirk on KDE Wayland). Try the drag again."@,
        ),
        paths > 0 && !enabled ==> drops::is_notice(
            first,
            "Transfers disabled"@,
            "File transfers are disabled by this server. The in-session upload button still works."@,
        ),
        token matches Some(bearer) ==> second == (DropAction::List { bearer }),
        token is None ==> drops::is_notice(
            second,
            "Device not paired"@,
            "File transfers need a paired device token. Pair this device from the settings page first."@,
        ),
{
}

/// A listing that is ready leads to a plan against its files; one that is
/// refused, and a server that cannot be reached, lead to a notice.
pub proof fn law_listing_leads_to_a_plan_or_a_notice(
    enabled: bool,
    resp: drive::DriveResponse,
    e: String,
    answered: DropAction,
    failed: DropAction,
)
    requires
        drops::drop_leads(enabled, DropEvent::Listed(Ok(resp)), answered),
        drops::drop_leads(enabled, DropEvent::Listed(Err(e)), failed),
    ensures
        answered is Plan <==> resp.status == 200,
        answered matches DropAction::Plan { entries } ==> (resp.entries matches Some(v) ==> entries@
            == v@),
        answered is Plan || answered is Notice,
        resp.status == 401 ==> answered->title@ == "Token rejected"@,
        resp.status == 403 ==> answered->title@ == "Not your session"@,
        drops::is_notice(
            failed,
            "Transfer failed"@,
            "Could not reach the server: "@ + e@,
        ),
{
    let outcome = choose|outcome: ListOutcome|
        #[trigger] drive::leads_to(
            resp.status,
            resp.entries,
            web::json_text(resp.body@, "error"@),
            outcome,
        ) && (match outcome {
            ListOutcome::Ready(entries) => answered == (DropAction::Plan { entries }),
            ListOutcome::Reject(reject) => drops::is_rejection(answered, reject),
        });
    law_listing_is_judged_by_its_status(
        resp.status,
        resp.entries,
        web::json_text(resp.body@, "error"@),
        outcome,
    );
}

/// Each refusal has a title and a text of its own.
pub proof fn law_refusals_are_titled(r: DropReject)
    ensures
        r is Disabled ==> drive::reject_title(r) == "Transfers disabled"@,
        r is PairRequired ==> drive::reject_title(r) == "Device not paired"@,
        r is SshOnly ==> drive::reject_title(r) == "SSH session"@,
        r is SessionGone ==> drive::reject_title(r) == "Session gone"@,
        r is NotOwner ==> drive::reject_title(r) == "Not your session"@,
        r is TokenRejected ==> drive::reject_title(r) == "Token rejected"@,
        r is Unreachable ==> drive::reject_title(r) == "Transfer failed"@,
        r matches DropReject::Unreachable(m) ==> drive::reject_message(r)
            == "Could not reach the server: "@ + m@,
        r is SshOnly ==> drive::reject_message(r)
            == "SSH sessions do not support drag-drop transfers yet. Use the upload button inside the session to send files."@,
        r is SessionGone ==> drive::reject_message(r)
            == "The session is no longer active. Reconnect and try again."@,
        r is NotOwner ==> drive::reject_message(r)
            == "The paired token does not own this session. Pair with the account that started it."@,
        r is TokenRejected ==> drive::reject_message(r)
            == "The paired token was rejected by the server. Re-pair this device from the settings page."@,
{
}

/// A notice has its title and its text, and that of a refusal has those of the
/// reason.
pub proof fn law_notices_have_title_and_text(
    a: DropAction,
    title: Seq<char>,
    message: Seq<char>,
    r: DropReject,
)
    ensures
        drops::is_notice(a, title, message) <==> a is Notice && a->title@ == title && a->message@
            == message,
        drops::is_rejection(a, r) <==> a is Notice && a->title@ == drive::reject_title(r)
            && a->message@ == drive::reject_message(r),
{
}

/// A file is overwritten only where the user says so: by yes, by okay, or by
/// the button of that name. No, or the button for it, asks for a new name;
/// every other answer, and none, cancels.
pub proof fn law_only_a_clear_answer_overwrites(answer: PromptAnswer)
    ensures
        drops::choice_of(answer) == ConflictChoice::Overwrite <==> answer is Yes || answer is Okay
            || (answer is Custom && answer->Custom_0@ == "Overwrite"@),
        drops::choice_of(answer) == ConflictChoice::Rename <==> answer is No || (answer is Custom
            && answer->Custom_0@ == "Rename"@),
        answer is Broken || answer is Cancel ==> drops::choice_of(answer)
            == ConflictChoice::Cancel,
{
    reveal_strlit("Overwrite");
    reveal_strlit("Rename");
    assert("Overwrite"@.len() == 9 && "Rename"@.len() == 6);
}

/// A refused download is told with its status and with what the server says of
/// it.
pub proof fn law_refused_download_is_told(status: u16, message: Option<Seq<char>>)
    ensures
        message matches Some(m) ==> drive::download_refused(status, message)
            == "download failed (HTTP "@ + text::decimal(status as nat) + "): "@ + m,
        message is None ==> drive::download_refused(status, message) == "download failed (HTTP "@
            + text::decimal(status as nat) + "): "@ + "unknown error"@,
        message matches Some(m) ==> drive::message_or_code(status, message) == m,
        message is None ==> drive::message_or_code(status, message) == "HTTP "@ + text::decimal(
            status as nat,
        ),
{
}

} // verus!
