//! What a probe of a server tells: its version, what it can do, and what is
//! worth a warning.

use vstd::prelude::*;

use crate::instances;
use crate::instances::{CachedProbe, Instance, InstanceModel, ProbeModel};
use crate::text;
use crate::textmap;
use crate::textmap::TextMap;
use crate::web;

verus! {

/// The timeout of one request of a probe, in seconds.
pub const PROBE_TIMEOUT_SECS: u64 = 6;

/// The first server version with the drive API.
pub const MIN_SERVER_DRIVE: &'static str = "1.0.0";

/// The first server version with session events and device pairing.
pub const MIN_SERVER_FULL: &'static str = "1.0.0";

// ---------------------------------------------------------------------------
// Versions
// ---------------------------------------------------------------------------

/// What stands in `s` before its first hyphen or plus sign.
pub open spec fn release(s: Seq<char>) -> Seq<char> {
    text::before(text::before(s, '-'), '+')
}

/// The three numbers of a version: white space around it and every `v` before
/// it do not count, nor does what follows the third number after a dot, a
/// hyphen or a plus sign.
pub open spec fn version_of(v: Seq<char>) -> Option<(u64, u64, u64)> {
    let v = text::trim_start(text::trim(v), 'v');
    match text::after(v, '.') {
        None => None,
        Some(r) => match text::after(r, '.') {
            None => None,
            Some(t) => match (
                text::parse_u64(text::before(v, '.')),
                text::parse_u64(text::before(r, '.')),
                text::parse_u64(release(text::before(t, '.'))),
            ) {
                (Some(major), Some(minor), Some(patch)) => Some((major, minor, patch)),
                _ => None,
            },
        },
    }
}

/// Reads the three numbers of a version.
pub fn parse_version(v: &str) -> (r: Option<(u64, u64, u64)>)
    ensures
        r == version_of(v@),
{
    let v = text::trim_start_of(text::trim_of(v), 'v');
    let rest = match text::after_of(v, '.') {
        Some(rest) => rest,
        None => {
            return None;
        },
    };
    let tail = match text::after_of(rest, '.') {
        Some(tail) => tail,
        None => {
            return None;
        },
    };
    let major: u64 = match text::parse_u64_of(text::before_of(v, '.')) {
        Some(n) => n,
        None => {
            return None;
        },
    };
    let minor: u64 = match text::parse_u64_of(text::before_of(rest, '.')) {
        Some(n) => n,
        None => {
            return None;
        },
    };
    let patch: u64 = match text::parse_u64_of(
        text::before_of(text::before_of(text::before_of(tail, '.'), '-'), '+'),
    ) {
        Some(n) => n,
        None => {
            return None;
        },
    };
    Some((major, minor, patch))
}

/// Whether the version `a` comes before the version `b`.
pub open spec fn earlier(a: (u64, u64, u64), b: (u64, u64, u64)) -> bool {
    a.0 < b.0 || (a.0 == b.0 && (a.1 < b.1 || (a.1 == b.1 && a.2 < b.2)))
}

/// Whether the version `a` comes before the version `b`, where both are
/// versions.
pub open spec fn version_before(a: Seq<char>, b: Seq<char>) -> Option<bool> {
    match (version_of(a), version_of(b)) {
        (Some(x), Some(y)) => Some(earlier(x, y)),
        _ => None,
    }
}

/// Whether the version `a` comes before the version `b`.
pub fn version_lt(a: &str, b: &str) -> (r: Option<bool>)
    ensures
        r == version_before(a@, b@),
{
    match (parse_version(a), parse_version(b)) {
        (Some(x), Some(y)) => Some(
            x.0 < y.0 || (x.0 == y.0 && (x.1 < y.1 || (x.1 == y.1 && x.2 < y.2))),
        ),
        _ => None,
    }
}

/// The warning that the server is too old for the drive API.
pub open spec fn drive_warning(version: Seq<char>) -> Seq<char> {
    "Server "@ + MIN_SERVER_DRIVE@ + "+ required for the drive API (this server: "@ + version
        + ")"@
}

/// The warning that the server is too old for events and pairing.
pub open spec fn full_warning(version: Seq<char>) -> Seq<char> {
    "Server "@ + MIN_SERVER_FULL@
        + "+ required for session events and device pairing (this server: "@ + version + ")"@
}

/// The warnings about a server version: none about one that cannot be read.
pub open spec fn version_warnings(version: Seq<char>) -> Seq<Seq<char>> {
    (if version_before(version, MIN_SERVER_DRIVE@) == Some(true) {
        seq![drive_warning(version)]
    } else {
        seq![]
    }) + (if version_before(version, MIN_SERVER_FULL@) == Some(true) {
        seq![full_warning(version)]
    } else {
        seq![]
    })
}

/// A warning that names a version.
fn version_warning(min: &str, what: &str, version: &str) -> (r: String)
    ensures
        r@ == "Server "@ + min@ + what@ + version@ + ")"@,
{
    let mut s = text::join3("Server ", min, what);
    s.append(version);
    s.append(")");
    s
}

/// The warnings about servers that are older than what the features need.
pub fn server_version_warnings(version: &str) -> (r: Vec<String>)
    ensures
        text::texts(r@) == version_warnings(version@),
{
    let mut out: Vec<String> = Vec::new();
    match version_lt(version, MIN_SERVER_DRIVE) {
        Some(true) => out.push(
            version_warning(
                MIN_SERVER_DRIVE,
                "+ required for the drive API (this server: ",
                version,
            ),
        ),
        _ => {},
    }
    match version_lt(version, MIN_SERVER_FULL) {
        Some(true) => out.push(
            version_warning(
                MIN_SERVER_FULL,
                "+ required for session events and device pairing (this server: ",
                version,
            ),
        ),
        _ => {},
    }
    proof {
        assert(text::texts(out@) =~= version_warnings(version@));
    }
    out
}

// ---------------------------------------------------------------------------
// Plain http
// ---------------------------------------------------------------------------

/// Whether the text writes a number from 0 to 255 in decimal.
pub open spec fn octet(s: Seq<char>) -> bool {
    s.len() > 0 && text::all_digits(s) && text::digits_value(s) <= 255
}

/// Whether the host is an IPv4 address of this machine: 127 and three more
/// numbers from 0 to 255, with dots between them.
pub open spec fn loopback_v4(host: Seq<char>) -> bool {
    text::pieces(host, '.').len() == 4 && text::pieces(host, '.')[0] == "127"@ && octet(
        text::pieces(host, '.')[1],
    ) && octet(text::pieces(host, '.')[2]) && octet(text::pieces(host, '.')[3])
}

/// The hosts of this machine, to which plain http is accepted.
pub open spec fn loopback(host: Seq<char>) -> bool {
    host == "localhost"@ || host == "::1"@ || host == "[::1]"@ || loopback_v4(host)
}

/// Whether the text writes a number from 0 to 255 in decimal.
fn is_octet(s: &str) -> (r: bool)
    ensures
        r == octet(s@),
{
    if s.unicode_len() == 0 {
        return false;
    }
    if s.get_char(0) == '+' {
        proof {
            assert(!text::is_digit(s@[0]));
        }
        return false;
    }
    match text::parse_u64_of(s) {
        Some(n) => n <= 255,
        None => false,
    }
}

/// Whether the host is this machine.
pub fn is_loopback_host(host: &str) -> (r: bool)
    ensures
        r == loopback(host@),
{
    if text::same(host, "localhost") || text::same(host, "::1") || text::same(host, "[::1]") {
        return true;
    }
    let parts = text::pieces_of(host, '.');
    proof {
        assert(text::pieces(host@, '.') =~= text::texts(parts@));
    }
    parts.len() == 4 && text::same(parts[0].as_str(), "127") && is_octet(parts[1].as_str())
        && is_octet(parts[2].as_str()) && is_octet(parts[3].as_str())
}

/// Whether a parsed URL is one of this machine over plain http.
pub open spec fn local_http(parsed: Result<web::UrlModel, Seq<char>>) -> bool {
    parsed matches Ok(u) && u.scheme == "http"@ && (u.host matches Some(h) && loopback(h))
}

/// Whether a parsed URL is one of this machine over plain http.
fn is_local_http(parsed: &Result<web::UrlParts, String>) -> (r: bool)
    ensures
        r == local_http(web::parsed(*parsed)),
{
    match parsed {
        Ok(u) => text::same(u.scheme.as_str(), "http") && (match &u.host {
            Some(h) => is_loopback_host(h.as_str()),
            None => false,
        }),
        Err(_) => false,
    }
}

/// Whether a URL is written with plain http and a host of this machine, with
/// no port.
pub open spec fn written_local(url: Seq<char>) -> bool {
    text::starts_with(url, "http://"@) && loopback(
        text::before(url.skip("http://"@.len() as int), '/'),
    )
}

/// Whether a URL is written with plain http and a host of this machine.
fn is_written_local(url: &str) -> (r: bool)
    ensures
        r == written_local(url@),
{
    let n: usize = "http://".unicode_len();
    if text::begins(url, "http://") {
        let end: usize = url.unicode_len();
        proof {
            assert(url@.subrange(n as int, end as int) =~= url@.skip(n as int));
        }
        is_loopback_host(text::before_of(url.substring_char(n, end), '/'))
    } else {
        false
    }
}

/// The warning about plain http.
pub const PLAIN_HTTP_WARNING: &'static str =
    "Plain http transport: clipboard and other secure-context features degrade in the webview; use https in production.";

/// The warnings about a server at `url`, which parses as given, that reported
/// the version.
pub open spec fn warnings(
    url: Seq<char>,
    parsed: Result<web::UrlModel, Seq<char>>,
    version: Seq<char>,
) -> Seq<Seq<char>> {
    version_warnings(version) + (if written_local(url) || local_http(parsed) {
        seq![PLAIN_HTTP_WARNING@]
    } else {
        seq![]
    })
}

/// The warnings about a server, from its URL parsed already.
pub fn warnings_for(url: &str, parsed: &Result<web::UrlParts, String>, version: &str) -> (r: Vec<
    String,
>)
    ensures
        text::texts(r@) == warnings(url@, web::parsed(*parsed), version@),
{
    let mut out = server_version_warnings(version);
    let ghost aged = out@;
    if is_written_local(url) || is_local_http(parsed) {
        out.push(PLAIN_HTTP_WARNING.to_string());
    }
    proof {
        assert(text::texts(out@) =~= warnings(url@, web::parsed(*parsed), version@));
    }
    out
}

/// The warnings about a server: it is older than what the features need, or it
/// is reached over plain http.
pub fn probe_warnings(url: &str, p: &CachedProbe) -> (r: Vec<String>)
    ensures
        text::texts(r@) == warnings(url@, web::url_parse(url@), p@.version),
{
    let parsed = web::parse_url(url);
    warnings_for(url, &parsed, p.version.as_str())
}

// ---------------------------------------------------------------------------
// Failed probes
// ---------------------------------------------------------------------------

/// Whether the text, in lower case, has one of three words in it.
pub open spec fn mentions(raw: Seq<char>, a: Seq<char>, b: Seq<char>, c: Seq<char>) -> bool {
    text::has(text::lower(raw), a) || text::has(text::lower(raw), b) || text::has(
        text::lower(raw),
        c,
    )
}

/// The reason that is shown for a failed probe.
pub open spec fn reason(raw: Seq<char>) -> Seq<char> {
    if mentions(raw, "certificate"@, "tls"@, "ssl"@) {
        "the server's TLS certificate is not trusted by this system"@
    } else if mentions(raw, "resolve"@, "lookup"@, "dns"@) {
        "the server hostname could not be resolved"@
    } else if mentions(raw, "refused"@, "timed out"@, "timeout"@) {
        "the server did not respond (connection refused or timed out)"@
    } else {
        "the server could not be reached"@
    }
}

/// Maps the text of a probe failure to a short reason that a user can act on.
pub fn classify_probe_error(raw: &str) -> (r: String)
    ensures
        r@ == reason(raw@),
{
    let low = text::lower_of(raw);
    let low = low.as_str();
    if text::contains(low, "certificate") || text::contains(low, "tls") || text::contains(
        low,
        "ssl",
    ) {
        "the server's TLS certificate is not trusted by this system".to_string()
    } else if text::contains(low, "resolve") || text::contains(low, "lookup") || text::contains(
        low,
        "dns",
    ) {
        "the server hostname could not be resolved".to_string()
    } else if text::contains(low, "refused") || text::contains(low, "timed out") || text::contains(
        low,
        "timeout",
    ) {
        "the server did not respond (connection refused or timed out)".to_string()
    } else {
        "the server could not be reached".to_string()
    }
}

/// The probe of a server that could not be reached.
pub open spec fn unreachable_model(reason: Seq<char>, now: u64) -> ProbeModel {
    ProbeModel {
        ok: false,
        version: "unknown"@,
        capabilities: Map::empty(),
        latest_version: None,
        update_available: false,
        needs_setup: false,
        auth_failed: false,
        checked_at: now,
        error: Some(reason),
    }
}

/// The probe of a server that could not be reached at the given time.
pub fn unreachable_probe_at(reason: String, now: u64) -> (r: CachedProbe)
    ensures
        r@ == unreachable_model(reason@, now),
{
    CachedProbe {
        ok: false,
        version: "unknown".to_string(),
        capabilities: TextMap::new(),
        latest_version: None,
        update_available: false,
        needs_setup: false,
        auth_failed: false,
        checked_at: now,
        error: Some(reason),
    }
}

/// The probe of a server that cannot be reached now.
pub fn unreachable_probe(reason: String) -> (r: CachedProbe)
    ensures
        r@ == unreachable_model(reason@, r@.checked_at),
        web::clock_told_secs(r@.checked_at),
{
    unreachable_probe_at(reason, web::now_secs())
}

/// A fresh probe over the last one: a failed one keeps everything that was
/// known but the ok flag and the time.
pub open spec fn reprobed(prior: Option<ProbeModel>, outcome: ProbeModel, now: u64) -> ProbeModel {
    if outcome.ok {
        outcome
    } else {
        match prior {
            Some(p) => ProbeModel { ok: false, checked_at: now, ..p },
            None => outcome,
        }
    }
}

/// Puts a fresh probe over the last one, at the given time.
pub fn apply_probe_at(prior: Option<CachedProbe>, outcome: CachedProbe, now: u64) -> (r: CachedProbe)
    ensures
        r@ == reprobed(instances::opt_probe(prior), outcome@, now),
{
    if outcome.ok {
        return outcome;
    }
    match prior {
        Some(p) => CachedProbe { ok: false, checked_at: now, ..p },
        None => outcome,
    }
}

/// Puts a fresh probe over the last one.
pub fn apply_probe(prior: Option<CachedProbe>, outcome: CachedProbe) -> (r: CachedProbe)
    ensures
        exists|now: u64| #[trigger]
            web::clock_told_secs(now) && r@ == reprobed(
                instances::opt_probe(prior),
                outcome@,
                now,
            ),
{
    let now: u64 = web::now_secs();
    apply_probe_at(prior, outcome, now)
}

// ---------------------------------------------------------------------------
// Replies to a probe
// ---------------------------------------------------------------------------

/// What the status endpoint reports.
#[derive(Debug)]
pub struct StatusReply {
    pub version: String,
    pub capabilities: TextMap<bool>,
    pub latest_version: Option<String>,
    pub update_available: bool,
}

/// The model of [`StatusReply`].
#[verifier::ext_equal]
pub struct StatusModel {
    pub version: Seq<char>,
    pub capabilities: Map<Seq<char>, bool>,
    pub latest_version: Option<Seq<char>>,
    pub update_available: bool,
}

impl View for StatusReply {
    type V = StatusModel;

    open spec fn view(&self) -> StatusModel {
        StatusModel {
            version: self.version@,
            capabilities: self.capabilities@,
            latest_version: text::opt_text(self.latest_version),
            update_available: self.update_available,
        }
    }
}

/// The model of a status reply or of the reason for which there is none.
pub open spec fn status_result(r: Result<StatusReply, String>) -> Result<StatusModel, Seq<char>> {
    match r {
        Ok(s) => Ok(s@),
        Err(e) => Err(e@),
    }
}

/// The capabilities that reported flags stand for: what is no boolean is
/// false, and without flags there is no capability.
pub open spec fn capabilities_of(flags: Option<Map<Seq<char>, Option<bool>>>) -> Map<
    Seq<char>,
    bool,
> {
    match flags {
        Some(m) => Map::new(|k: Seq<char>| m.contains_key(k), |k: Seq<char>| m[k] == Some(true)),
        None => Map::empty(),
    }
}

/// The flags as a map.
pub open spec fn flags_map(flags: Option<Vec<(String, Option<bool>)>>) -> Option<
    Map<Seq<char>, Option<bool>>,
> {
    match flags {
        Some(v) => Some(textmap::entries_map(v@)),
        None => None,
    }
}

/// Collects the capabilities from reported flags.
fn collect_capabilities(flags: &Vec<(String, Option<bool>)>) -> (r: TextMap<bool>)
    requires
        textmap::distinct_keys(flags@),
    ensures
        r@ == capabilities_of(Some(textmap::entries_map(flags@))),
{
    let mut out: TextMap<bool> = TextMap::new();
    let ghost all = textmap::entries_map(flags@);
    let mut i: usize = 0;
    while i < flags.len()
        invariant
            textmap::distinct_keys(flags@),
            all == textmap::entries_map(flags@),
            i <= flags@.len(),
            forall|k: Seq<char>| #[trigger]
                out@.contains_key(k) ==> exists|j: int| 0 <= j < i && #[trigger] flags@[j].0@ == k,
            forall|j: int|
                0 <= j < i ==> out@.contains_key(#[trigger] flags@[j].0@) && out@[flags@[j].0@] == (
                flags@[j].1 == Some(true)),
        decreases flags@.len() - i,
    {
        let flag: bool = match flags[i].1 {
            Some(b) => b,
            None => false,
        };
        out.insert(flags[i].0.as_str(), flag);
        i = i + 1;
    }
    proof {
        let want = capabilities_of(Some(all));
        assert forall|k: Seq<char>| #[trigger] out@.contains_key(k) == want.contains_key(k) by {
            if out@.contains_key(k) {
                let j = choose|j: int| 0 <= j < i && #[trigger] flags@[j].0@ == k;
                assert(textmap::holds_key(flags@, k));
            }
            if textmap::holds_key(flags@, k) {
                let j = choose|j: int| 0 <= j < flags@.len() && #[trigger] flags@[j].0@ == k;
                assert(out@.contains_key(flags@[j].0@));
            }
        }
        assert forall|k: Seq<char>| #[trigger] out@.contains_key(k) implies out@[k] == want[k] by {
            let j = choose|j: int| 0 <= j < i && #[trigger] flags@[j].0@ == k;
            textmap::lemma_value(flags@, j);
        }
        assert(out@ =~= want);
    }
    out
}

/// The status reply that the fields of a JSON body stand for.
pub open spec fn status_of(
    version: Option<Seq<char>>,
    flags: Option<Map<Seq<char>, Option<bool>>>,
    latest_version: Option<Seq<char>>,
    update_available: Option<bool>,
) -> StatusModel {
    StatusModel {
        version: match version {
            Some(v) => v,
            None => "unknown"@,
        },
        capabilities: capabilities_of(flags),
        latest_version,
        update_available: update_available == Some(true),
    }
}

/// Makes a status reply from the fields of a JSON body.
pub fn status_fields(
    version: Option<String>,
    flags: Option<Vec<(String, Option<bool>)>>,
    latest_version: Option<String>,
    update_available: Option<bool>,
) -> (r: StatusReply)
    requires
        flags matches Some(v) ==> textmap::distinct_keys(v@),
    ensures
        r@ == status_of(
            text::opt_text(version),
            flags_map(flags),
            text::opt_text(latest_version),
            update_available,
        ),
{
    StatusReply {
        version: match version {
            Some(v) => v,
            None => "unknown".to_string(),
        },
        capabilities: match &flags {
            Some(v) => collect_capabilities(v),
            None => TextMap::new(),
        },
        latest_version,
        update_available: match update_available {
            Some(b) => b,
            None => false,
        },
    }
}

/// The failure of a status request that was refused.
pub open spec fn refusal(line: Seq<char>) -> Seq<char> {
    "status endpoint returned "@ + line
}

/// The failure of a status request whose body is no JSON value.
pub const BODY_FAILURE: &'static str = "error decoding response body";

/// What a reply to the status request tells.
pub open spec fn status_told(status: u16, body: Seq<u8>) -> Result<StatusModel, Seq<char>> {
    if !web::success(status) {
        Err(refusal(web::status_line(status)))
    } else if !web::json_valid(body) {
        Err(BODY_FAILURE@)
    } else {
        Ok(
            status_of(
                web::json_text(body, "version"@),
                web::json_flags(body, "capabilities"@),
                web::json_text(body, "latest_version"@),
                web::json_bool(body, "update_available"@),
            ),
        )
    }
}

/// Reads the reply to the status request.
pub fn parse_status(status: u16, body: &Vec<u8>) -> (r: Result<StatusReply, String>)
    requires
        100 <= status <= 999,
    ensures
        status_result(r) == status_told(status, body@),
{
    if !web::is_success_status(status) {
        let line = web::status_line_of(status);
        return Err(text::join2("status endpoint returned ", line.as_str()));
    }
    if !web::is_json(body) {
        return Err(BODY_FAILURE.to_string());
    }
    Ok(
        status_fields(
            web::text_at(body, "version"),
            web::flags_at(body, "capabilities"),
            web::text_at(body, "latest_version"),
            web::bool_at(body, "update_available"),
        ),
    )
}

/// The address of the status request.
pub open spec fn status_address(base: Seq<char>) -> Seq<char> {
    text::trim_end(base, '/') + "/api/auth/status"@
}

/// The address of the status request.
pub fn status_url(base_url: &str) -> (r: String)
    ensures
        r@ == status_address(base_url@),
{
    text::join2(text::trim_end_of(base_url, '/'), "/api/auth/status")
}

/// The address of the request that shows whether the stored credential is
/// accepted.
pub fn sessions_url(base_url: &str) -> (r: String)
    ensures
        r@ == text::trim_end(base_url@, '/') + "/api/sessions"@,
{
    text::join2(text::trim_end_of(base_url, '/'), "/api/sessions")
}

/// Whether the root page led to the setup page: `path` is that of the last
/// address of the redirects, `None` where the request failed.
pub fn needs_setup(path: Option<&str>) -> (r: bool)
    ensures
        r == (path matches Some(p) && text::starts_with(p@, "/setup"@)),
{
    match path {
        Some(p) => text::begins(p, "/setup"),
        None => false,
    }
}

/// Whether the stored credential was rejected: only an answer that says so
/// counts, not a request that failed or was not made.
pub fn credential_rejected(status: Option<u16>) -> (r: bool)
    ensures
        r == (status == Some(401u16)),
{
    match status {
        Some(s) => s == 401,
        None => false,
    }
}

/// The credential that a probe presents: the scoped token, told with whether it
/// has expired, while it has not; else that of the pairing.
pub fn stored_bearer(scoped: Option<(String, bool)>, paired: Option<String>) -> (r: Option<String>)
    ensures
        r == (match scoped {
            Some((token, false)) => Some(token),
            _ => paired,
        }),
{
    match scoped {
        Some((token, expired)) => if expired {
            paired
        } else {
            Some(token)
        },
        None => paired,
    }
}

/// What a probe tells, from the replies that it got.
pub open spec fn probed(
    status: Result<StatusModel, Seq<char>>,
    setup_path: Option<Seq<char>>,
    auth_status: Option<u16>,
    now: u64,
) -> ProbeModel {
    match status {
        Ok(s) => ProbeModel {
            ok: true,
            version: s.version,
            capabilities: s.capabilities,
            latest_version: s.latest_version,
            update_available: s.update_available,
            needs_setup: setup_path matches Some(p) && text::starts_with(p, "/setup"@),
            auth_failed: auth_status == Some(401u16),
            checked_at: now,
            error: None,
        },
        Err(e) => unreachable_model(reason(e), now),
    }
}

/// Puts a probe together from the replies to its requests, at the given time:
/// what the status endpoint told, the path at which the root page ended, and
/// the status of the request with the stored credential.
pub fn probe_server_at(
    status: Result<StatusReply, String>,
    setup_path: Option<&str>,
    auth_status: Option<u16>,
    now: u64,
) -> (r: CachedProbe)
    ensures
        r@ == probed(status_result(status), text::opt_str(setup_path), auth_status, now),
{
    match status {
        Ok(s) => CachedProbe {
            ok: true,
            version: s.version,
            capabilities: s.capabilities,
            latest_version: s.latest_version,
            update_available: s.update_available,
            needs_setup: needs_setup(setup_path),
            auth_failed: credential_rejected(auth_status),
            checked_at: now,
            error: None,
        },
        Err(e) => unreachable_probe_at(classify_probe_error(e.as_str()), now),
    }
}

/// Puts a probe together from the replies to its requests.
pub fn probe_server(
    status: Result<StatusReply, String>,
    setup_path: Option<&str>,
    auth_status: Option<u16>,
) -> (r: CachedProbe)
    ensures
        r@ == probed(
            status_result(status),
            text::opt_str(setup_path),
            auth_status,
            r@.checked_at,
        ),
        web::clock_told_secs(r@.checked_at),
{
    probe_server_at(status, setup_path, auth_status, web::now_secs())
}

// ---------------------------------------------------------------------------
// Views
// ---------------------------------------------------------------------------

/// A probe as it is shown.
#[derive(Debug)]
pub struct ProbeView {
    pub ok: bool,
    pub version: String,
    pub capabilities: TextMap<bool>,
    pub latest_version: Option<String>,
    pub update_available: bool,
    pub needs_setup: bool,
    /// The server is reachable but rejected the stored credential.
    pub auth_failed: bool,
    pub checked_at: u64,
    /// Warnings that the probe gives rise to: old server, plain http.
    pub warnings: Vec<String>,
}

/// A server as it is shown.
#[derive(Debug)]
pub struct InstanceView {
    pub name: String,
    pub url: String,
    pub default: bool,
    pub locked: bool,
    pub allow_insecure_tls: Option<bool>,
    pub probe: Option<ProbeView>,
}

/// The model of [`ProbeView`].
#[verifier::ext_equal]
pub struct ProbeShown {
    pub ok: bool,
    pub version: Seq<char>,
    pub capabilities: Map<Seq<char>, bool>,
    pub latest_version: Option<Seq<char>>,
    pub update_available: bool,
    pub needs_setup: bool,
    pub auth_failed: bool,
    pub checked_at: u64,
    pub warnings: Seq<Seq<char>>,
}

/// The model of [`InstanceView`].
#[verifier::ext_equal]
pub struct InstanceShown {
    pub name: Seq<char>,
    pub url: Seq<char>,
    pub default: bool,
    pub locked: bool,
    pub allow_insecure_tls: Option<bool>,
    pub probe: Option<ProbeShown>,
}

impl View for ProbeView {
    type V = ProbeShown;

    open spec fn view(&self) -> ProbeShown {
        ProbeShown {
            ok: self.ok,
            version: self.version@,
            capabilities: self.capabilities@,
            latest_version: text::opt_text(self.latest_version),
            update_available: self.update_available,
            needs_setup: self.needs_setup,
            auth_failed: self.auth_failed,
            checked_at: self.checked_at,
            warnings: text::texts(self.warnings@),
        }
    }
}

impl View for InstanceView {
    type V = InstanceShown;

    open spec fn view(&self) -> InstanceShown {
        InstanceShown {
            name: self.name@,
            url: self.url@,
            default: self.default,
            locked: self.locked,
            allow_insecure_tls: self.allow_insecure_tls,
            probe: match self.probe {
                Some(p) => Some(p@),
                None => None,
            },
        }
    }
}

/// How the probe of the server at `url` is shown.
pub open spec fn probe_shown(url: Seq<char>, p: ProbeModel) -> ProbeShown {
    ProbeShown {
        ok: p.ok,
        version: p.version,
        capabilities: p.capabilities,
        latest_version: p.latest_version,
        update_available: p.update_available,
        needs_setup: p.needs_setup,
        auth_failed: p.auth_failed,
        checked_at: p.checked_at,
        warnings: warnings(url, web::url_parse(url), p.version),
    }
}

/// How a server is shown.
pub open spec fn instance_shown(i: InstanceModel) -> InstanceShown {
    InstanceShown {
        name: i.name,
        url: i.url,
        default: i.default,
        locked: i.locked,
        allow_insecure_tls: i.allow_insecure_tls,
        probe: match i.probe {
            Some(p) => Some(probe_shown(i.url, p)),
            None => None,
        },
    }
}

/// Shows the probe of the server at `url`.
pub fn probe_view(url: &str, p: &CachedProbe) -> (r: ProbeView)
    ensures
        r@ == probe_shown(url@, p@),
{
    ProbeView {
        ok: p.ok,
        version: p.version.clone(),
        capabilities: p.capabilities.clone(),
        latest_version: text::clone_opt(&p.latest_version),
        update_available: p.update_available,
        needs_setup: p.needs_setup,
        auth_failed: p.auth_failed,
        checked_at: p.checked_at,
        warnings: probe_warnings(url, p),
    }
}

/// Shows a server.
pub fn instance_view(i: &Instance) -> (r: InstanceView)
    ensures
        r@ == instance_shown(i@),
{
    InstanceView {
        name: i.name.clone(),
        url: i.url.clone(),
        default: i.default,
        locked: i.locked,
        allow_insecure_tls: i.allow_insecure_tls,
        probe: match &i.probe {
            Some(p) => Some(probe_view(i.url.as_str(), p)),
            None => None,
        },
    }
}

} // verus!
