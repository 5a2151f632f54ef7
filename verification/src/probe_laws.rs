//! What holds of probes: of what they tell, of versions, of warnings, and of
//! what is a host of this machine.

use vstd::prelude::*;

use crate::instances::ProbeModel;
use crate::probe;
use crate::probe::StatusModel;
use crate::text;
use crate::text_laws;
use crate::web;

verus! {

// ---------------------------------------------------------------------------
// What a probe tells
// ---------------------------------------------------------------------------

/// A probe that reached the server tells all that the server reported: its
/// version, its capabilities, its latest version and whether there is an
/// update, each as the status reply has it.
pub proof fn law_probe_tells_what_the_server_reported(
    s: StatusModel,
    setup_path: Option<Seq<char>>,
    auth_status: Option<u16>,
    now: u64,
)
    ensures
        ({
            let p = probe::probed(Ok(s), setup_path, auth_status, now);
            &&& p.ok
            &&& p.version == s.version
            &&& p.capabilities == s.capabilities
            &&& p.latest_version == s.latest_version
            &&& p.update_available == s.update_available
            &&& p.checked_at == now
            &&& p.error is None
        }),
{
}

/// A probe says that the server needs its setup exactly where the root page led
/// to a path that begins with that of the setup page, and that the credential
/// was rejected exactly where the answer to it was 401.
pub proof fn law_probe_tells_setup_and_rejection(
    s: StatusModel,
    setup_path: Option<Seq<char>>,
    auth_status: Option<u16>,
    now: u64,
)
    ensures
        ({
            let p = probe::probed(Ok(s), setup_path, auth_status, now);
            &&& setup_path is None ==> !p.needs_setup
            &&& setup_path matches Some(path) ==> (p.needs_setup <==> path.len() >= 6
                && path.take(6) == "/setup"@)
            &&& p.auth_failed <==> auth_status is Some && auth_status->0 == 401
        }),
{
    reveal_strlit("/setup");
}

/// A probe that did not reach the server tells nothing of it but that, and the
/// reason.
pub proof fn law_failed_probe_tells_the_reason(
    e: Seq<char>,
    setup_path: Option<Seq<char>>,
    auth_status: Option<u16>,
    now: u64,
)
    ensures
        ({
            let p = probe::probed(Err(e), setup_path, auth_status, now);
            &&& !p.ok
            &&& p.error == Some(probe::reason(e))
            &&& p.version == "unknown"@
            &&& forall|k: Seq<char>| !#[trigger] p.capabilities.contains_key(k)
            &&& p.latest_version is None
            &&& !p.update_available
            &&& !p.needs_setup
            &&& !p.auth_failed
            &&& p.checked_at == now
        }),
{
}

/// A body that says that there is an update gives a probe that says so, and
/// likewise for the version, the latest version and each capability; what the
/// body does not say is unknown, absent or false.
pub proof fn law_status_body_reaches_the_probe(
    status: u16,
    body: Seq<u8>,
    setup_path: Option<Seq<char>>,
    auth_status: Option<u16>,
    now: u64,
    key: Seq<char>,
)
    requires
        200 <= status <= 299,
        web::json_valid(body),
    ensures
        ({
            let p = probe::probed(
                probe::status_told(status, body),
                setup_path,
                auth_status,
                now,
            );
            let flags = web::json_flags(body, "capabilities"@);
            &&& p.ok
            &&& p.update_available <==> web::json_bool(body, "update_available"@) == Some(true)
            &&& p.latest_version == web::json_text(body, "latest_version"@)
            &&& web::json_text(body, "version"@) matches Some(v) ==> p.version == v
            &&& web::json_text(body, "version"@) is None ==> p.version == "unknown"@
            &&& p.capabilities.contains_key(key) <==> flags is Some && flags->0.contains_key(key)
            &&& p.capabilities.contains_key(key) ==> (p.capabilities[key] <==> flags->0[key]
                == Some(true))
        }),
{
}

/// A reply that does not say success, or whose body is no JSON value, gives a
/// probe that failed.
pub proof fn law_bad_status_reply_fails_the_probe(
    status: u16,
    body: Seq<u8>,
    setup_path: Option<Seq<char>>,
    auth_status: Option<u16>,
    now: u64,
)
    requires
        !(200 <= status <= 299) || !web::json_valid(body),
    ensures
        !probe::probed(probe::status_told(status, body), setup_path, auth_status, now).ok,
        !(200 <= status <= 299) ==> probe::status_told(status, body) == Err::<
            StatusModel,
            Seq<char>,
        >("status endpoint returned "@ + web::status_line(status)),
{
}

/// The status of a server is asked for under its address, with and without
/// slashes at the end of it.
pub proof fn law_status_is_asked_under_the_address(url: Seq<char>)
    requires
        url.len() > 0 ==> url.last() != '/',
    ensures
        probe::status_address(url) == url + "/api/auth/status"@,
        probe::status_address(url.push('/')) == probe::status_address(url),
{
    assert(url.push('/').drop_last() =~= url);
}

/// A probe that reached the server takes the place of the one before as a
/// whole; one that failed changes of the one before only that it is not ok, and
/// the time; and the first probe of a server counts as it is.
pub proof fn law_success_replaces_and_failure_keeps(
    prior: ProbeModel,
    outcome: ProbeModel,
    now: u64,
)
    ensures
        outcome.ok ==> probe::reprobed(Some(prior), outcome, now) == outcome,
        probe::reprobed(None, outcome, now) == outcome,
        !outcome.ok ==> {
            let p = probe::reprobed(Some(prior), outcome, now);
            &&& !p.ok
            &&& p.checked_at == now
            &&& p.version == prior.version
            &&& p.capabilities == prior.capabilities
            &&& p.latest_version == prior.latest_version
            &&& p.update_available == prior.update_available
            &&& p.needs_setup == prior.needs_setup
            &&& p.auth_failed == prior.auth_failed
            &&& p.error == prior.error
        },
{
}

/// A probe that reached the server after one that failed is shown in full
/// again.
pub proof fn law_recovery_forgets_the_failure(
    prior: Option<ProbeModel>,
    failed: ProbeModel,
    fresh: ProbeModel,
    then: u64,
    now: u64,
)
    requires
        !failed.ok,
        fresh.ok,
    ensures
        probe::reprobed(Some(probe::reprobed(prior, failed, then)), fresh, now) == fresh,
{
}

/// The reason for a failure is told by the words in it, whatever their case: a
/// matter of certificates first, then one of names, then one of time.
pub proof fn law_failure_is_told_by_its_words(raw: Seq<char>)
    ensures
        ({
            let low = text::lower(raw);
            let tls = text::has(low, "certificate"@) || text::has(low, "tls"@) || text::has(
                low,
                "ssl"@,
            );
            let names = text::has(low, "resolve"@) || text::has(low, "lookup"@) || text::has(
                low,
                "dns"@,
            );
            let time = text::has(low, "refused"@) || text::has(low, "timed out"@) || text::has(
                low,
                "timeout"@,
            );
            &&& tls ==> probe::reason(raw)
                == "the server's TLS certificate is not trusted by this system"@
            &&& !tls && names ==> probe::reason(raw) == "the server hostname could not be resolved"@
            &&& !tls && !names && time ==> probe::reason(raw)
                == "the server did not respond (connection refused or timed out)"@
            &&& !tls && !names && !time ==> probe::reason(raw) == "the server could not be reached"@
        }),
        probe::reason(text::lower(raw)) == probe::reason(raw),
{
    assert(text::lower(text::lower(raw)) =~= text::lower(raw)) by {
        assert forall|i: int| 0 <= i < raw.len() implies text::lower_char(
            text::lower_char(#[trigger] raw[i]),
        ) == text::lower_char(raw[i]) by {
            lemma_lower_once(raw[i]);
        }
    }
}

/// Lower case stays as it is.
proof fn lemma_lower_once(c: char)
    ensures
        text::lower_char(text::lower_char(c)) == text::lower_char(c),
{
}

// ---------------------------------------------------------------------------
// Versions
// ---------------------------------------------------------------------------

/// A version as it is written: three numbers with dots between them.
pub open spec fn written(a: u64, b: u64, c: u64) -> Seq<char> {
    text::decimal(a as nat) + seq!['.'] + text::decimal(b as nat) + seq!['.'] + text::decimal(
        c as nat,
    )
}

/// What stands before a character that does not occur in the first part of a
/// text.
proof fn lemma_before(d: Seq<char>, s: Seq<char>, c: char)
    requires
        d.len() <= s.len(),
        s.take(d.len() as int) == d,
        !d.contains(c),
    ensures
        s.len() == d.len() || s[d.len() as int] == c ==> text::before(s, c) == d,
        s.len() > d.len() && s[d.len() as int] != c ==> {
            let t = text::before(s, c);
            &&& t.len() > d.len()
            &&& t.take(d.len() as int) == d
            &&& t[d.len() as int] == s[d.len() as int]
        },
{
    let n = d.len() as int;
    assert forall|j: int| 0 <= j < n implies s[j] != c by {
        assert(s.take(n)[j] == s[j]);
        assert(d.contains(d[j]));
    }
    if s.len() == n || s[n] == c {
        text::lemma_find(s, c, n);
    } else {
        text::lemma_find_range(s, c);
        let k = text::find(s, c);
        assert(k > n) by {
            if k < s.len() && k <= n {
                assert(s[k] == c);
            }
        }
        assert(text::before(s, c).take(n) =~= d);
    }
}

/// Digits are no marks and no white space.
proof fn lemma_number(n: nat)
    ensures
        text::decimal(n).len() > 0,
        !text::decimal(n).contains('.'),
        !text::decimal(n).contains('-'),
        !text::decimal(n).contains('+'),
        text::decimal(n)[0] != 'v',
        !text_laws::white(text::decimal(n)[0]),
        !text_laws::white(text::decimal(n).last()),
{
    text::lemma_decimal(n);
    let s = text::decimal(n);
    assert forall|i: int| 0 <= i < s.len() implies #[trigger] s[i] != '.' && s[i] != '-' && s[i]
        != '+' by {
        assert(text::is_digit(s[i]));
    }
    assert(text::is_digit(s[0]) && text::is_digit(s[s.len() - 1]));
    lemma_digit_is_tight(s[0]);
    lemma_digit_is_tight(s.last());
}

/// A digit is neither white space nor the letter before a version.
proof fn lemma_digit_is_tight(c: char)
    requires
        text::is_digit(c),
    ensures
        !text_laws::white(c),
        c != 'v',
{
}

/// A version that is written with three numbers is read as these, with or
/// without the letter before it, and whatever follows the third number after a
/// dot, a hyphen or a plus sign.
pub proof fn law_written_version_is_read_back(a: u64, b: u64, c: u64, rest: Seq<char>)
    requires
        rest.len() > 0 ==> rest[0] == '.' || rest[0] == '-' || rest[0] == '+',
        rest.len() > 0 ==> !text_laws::white(rest.last()),
    ensures
        probe::version_of(written(a, b, c) + rest) == Some((a, b, c)),
        probe::version_of(seq!['v'] + (written(a, b, c) + rest)) == Some((a, b, c)),
{
    let (da, db, dc) = (
        text::decimal(a as nat),
        text::decimal(b as nat),
        text::decimal(c as nat),
    );
    lemma_number(a as nat);
    lemma_number(b as nat);
    lemma_number(c as nat);
    text_laws::law_written_number_is_read_back(a as nat);
    text_laws::law_written_number_is_read_back(b as nat);
    text_laws::law_written_number_is_read_back(c as nat);
    let v = written(a, b, c) + rest;
    let t = dc + rest;
    let r = db + seq!['.'] + t;
    assert(v =~= da + seq!['.'] + r);
    assert(v[0] == da[0]);
    assert(v.last() == (if rest.len() > 0 {
        rest.last()
    } else {
        dc.last()
    }));
    text_laws::law_tight_text_is_kept(v);
    text_laws::law_run_at_the_start_is_dropped(v, 'v');
    text_laws::law_text_is_cut_at_the_first(da, '.', r);
    text_laws::law_text_is_cut_at_the_first(db, '.', t);
    assert(t.take(dc.len() as int) =~= dc);
    lemma_before(dc, t, '.');
    let u = text::before(t, '.');
    assert(u.take(dc.len() as int) =~= dc);
    lemma_before(dc, u, '-');
    let w = text::before(u, '-');
    assert(w.take(dc.len() as int) =~= dc);
    lemma_before(dc, w, '+');
    assert(probe::release(u) == dc);
    let lettered = seq!['v'] + v;
    lemma_v_is_tight();
    assert(lettered[0] == 'v');
    assert(lettered.last() == v.last());
    text_laws::law_tight_text_is_kept(lettered);
}

/// The letter before a version is no white space.
proof fn lemma_v_is_tight()
    ensures
        !text_laws::white('v'),
{
}

/// White space around a version makes no difference.
pub proof fn law_version_ignores_white_space(v: Seq<char>, c: char)
    requires
        text_laws::white(c),
    ensures
        probe::version_of(v.push(c)) == probe::version_of(v),
        probe::version_of(seq![c] + v) == probe::version_of(v),
{
    text_laws::law_white_space_is_dropped(v, c);
}

/// What has fewer than two dots is no version.
pub proof fn law_version_has_two_dots(a: Seq<char>, b: Seq<char>)
    requires
        !a.contains('.'),
        !b.contains('.'),
        a.len() > 0,
        a[0] != 'v',
        !text_laws::white(a[0]),
        !text_laws::white(a.last()),
        b.len() > 0 ==> !text_laws::white(b.last()),
    ensures
        probe::version_of(a) is None,
        probe::version_of(a + seq!['.'] + b) is None,
{
    let s = a + seq!['.'] + b;
    lemma_dot_is_tight();
    assert(s[0] == a[0]);
    assert(s.last() == (if b.len() > 0 {
        b.last()
    } else {
        '.'
    }));
    text_laws::law_tight_text_is_kept(a);
    text_laws::law_tight_text_is_kept(s);
    text_laws::law_text_is_cut_at_the_first(a, '.', b);
    text_laws::law_text_is_cut_at_the_first(b, '.', b);
}

/// A dot is no white space.
proof fn lemma_dot_is_tight()
    ensures
        !text_laws::white('.'),
{
}

/// Versions are in the order of their numbers: first the first, then the
/// second, then the third.
pub proof fn law_versions_go_by_their_numbers(a: (u64, u64, u64), b: (u64, u64, u64))
    ensures
        a.0 < b.0 ==> probe::earlier(a, b) && !probe::earlier(b, a),
        a.0 == b.0 && a.1 < b.1 ==> probe::earlier(a, b) && !probe::earlier(b, a),
        a.0 == b.0 && a.1 == b.1 && a.2 < b.2 ==> probe::earlier(a, b) && !probe::earlier(b, a),
        a == b ==> !probe::earlier(a, b),
{
}

/// Of two written versions the one with the smaller numbers comes before the
/// other; of what is no version nothing is said.
pub proof fn law_written_versions_are_compared(a: (u64, u64, u64), b: (u64, u64, u64))
    ensures
        probe::version_before(written(a.0, a.1, a.2), written(b.0, b.1, b.2)) == Some(
            probe::earlier(a, b),
        ),
        forall|v: Seq<char>|
            probe::version_of(v) is None ==> #[trigger] probe::version_before(
                v,
                written(b.0, b.1, b.2),
            ) is None,
{
    law_written_version_is_read_back(a.0, a.1, a.2, Seq::empty());
    law_written_version_is_read_back(b.0, b.1, b.2, Seq::empty());
    assert(written(a.0, a.1, a.2) + Seq::empty() =~= written(a.0, a.1, a.2));
    assert(written(b.0, b.1, b.2) + Seq::empty() =~= written(b.0, b.1, b.2));
}

/// The version `1.0.0` is what it looks like.
proof fn lemma_first_release()
    ensures
        written(1, 0, 0) == "1.0.0"@,
{
    reveal_strlit("1.0.0");
    text_laws::law_numbers_are_written_digit_by_digit(0, 1);
    text_laws::law_numbers_are_written_digit_by_digit(0, 0);
    assert(text::decimal(1) =~= seq!['1']);
    assert(text::decimal(0) =~= seq!['0']);
    assert(written(1, 0, 0) =~= "1.0.0"@);
}

/// A server whose version begins with zero is warned about, for the drive and
/// for events and pairing, with the version in the warning; a later one is not.
pub proof fn law_servers_before_the_first_release_are_warned_about(a: u64, b: u64, c: u64)
    ensures
        ({
            let version = written(a, b, c);
            let given = probe::version_warnings(version);
            &&& a == 0 ==> given == seq![
                "Server "@ + "1.0.0"@ + "+ required for the drive API (this server: "@ + version
                    + ")"@,
                "Server "@ + "1.0.0"@
                    + "+ required for session events and device pairing (this server: "@ + version
                    + ")"@,
            ]
            &&& a >= 1 ==> given.len() == 0
        }),
{
    lemma_first_release();
    law_written_versions_are_compared((a, b, c), (1, 0, 0));
    let version = written(a, b, c);
    if a == 0 {
        assert(probe::version_warnings(version) =~= seq![
            probe::drive_warning(version),
            probe::full_warning(version),
        ]);
    }
}

// ---------------------------------------------------------------------------
// Hosts of this machine
// ---------------------------------------------------------------------------

/// A number is a part of an IPv4 address exactly where it is at most 255, and
/// nothing but digits is.
pub proof fn law_octets_are_numbers_up_to_255(n: nat, s: Seq<char>)
    ensures
        probe::octet(text::decimal(n)) <==> n <= 255,
        probe::octet(s) ==> s.len() > 0,
        probe::octet(s) ==> forall|i: int| 0 <= i < s.len() ==> text::is_digit(#[trigger] s[i]),
{
    text::lemma_decimal(n);
}

/// Every IPv4 address that begins with 127 is this machine.
pub proof fn law_addresses_from_127_are_local(a: nat, b: nat, c: nat)
    requires
        a <= 255,
        b <= 255,
        c <= 255,
    ensures
        probe::loopback(
            "127"@ + seq!['.'] + text::decimal(a) + seq!['.'] + text::decimal(b) + seq!['.']
                + text::decimal(c),
        ),
{
    reveal_strlit("127");
    let (da, db, dc) = (text::decimal(a), text::decimal(b), text::decimal(c));
    let host = "127"@ + seq!['.'] + da + seq!['.'] + db + seq!['.'] + dc;
    lemma_number(a);
    lemma_number(b);
    lemma_number(c);
    law_octets_are_numbers_up_to_255(a, da);
    law_octets_are_numbers_up_to_255(b, db);
    law_octets_are_numbers_up_to_255(c, dc);
    let x = db + seq!['.'] + dc;
    let y = da + seq!['.'] + x;
    assert(host =~= "127"@ + seq!['.'] + y);
    text_laws::law_pieces_are_what_was_joined("127"@, '.', y);
    text_laws::law_pieces_are_what_was_joined(da, '.', x);
    text_laws::law_pieces_are_what_was_joined(db, '.', dc);
    text_laws::law_pieces_are_what_was_joined(dc, '.', dc);
    let all = text::pieces(host, '.');
    assert(all =~= seq!["127"@, da, db, dc]);
}

/// The names of this machine are local, and no host is that is none of them
/// and does not begin with 127 and a dot.
pub proof fn law_other_hosts_are_not_local(host: Seq<char>)
    ensures
        probe::loopback("localhost"@),
        probe::loopback("::1"@),
        probe::loopback("[::1]"@),
        probe::loopback(host) && host != "localhost"@ && host != "::1"@ && host != "[::1]"@ ==> {
            &&& host.len() > 4
            &&& host.take(4) == "127."@
            &&& text::pieces(host, '.').len() == 4
        },
{
    reveal_strlit("127");
    reveal_strlit("127.");
    if probe::loopback_v4(host) {
        text::lemma_find_range(host, '.');
        let k = text::find(host, '.');
        let all = text::pieces(host, '.');
        assert(text::after(host, '.') is Some);
        assert(all[0] == text::before(host, '.'));
        assert(text::before(host, '.').len() == k);
        assert(k == 3);
        assert forall|j: int| 0 <= j < 3 implies host[j] == "127"@[j] by {
            assert(text::before(host, '.')[j] == host[j]);
        }
        if host.len() == 4 {
            let rest = host.skip(4);
            assert(text::after(host, '.') == Some(rest));
            assert(rest.len() == 0);
            assert(text::pieces(rest, '.') =~= seq![rest]);
            assert(all.len() == 2);
        }
        assert(host.take(4) =~= "127."@);
    }
}

/// A server is warned about as to plain http exactly where its address is that
/// of this machine over plain http; the warning comes last.
pub proof fn law_plain_http_warning_comes_last(
    url: Seq<char>,
    parsed: Result<web::UrlModel, Seq<char>>,
    version: Seq<char>,
)
    ensures
        ({
            let local = probe::written_local(url) || (parsed is Ok && parsed->Ok_0.scheme
                == "http"@ && parsed->Ok_0.host is Some && probe::loopback(
                parsed->Ok_0.host->0,
            ));
            let given = probe::warnings(url, parsed, version);
            &&& local ==> given == probe::version_warnings(version).push(
                probe::PLAIN_HTTP_WARNING@,
            )
            &&& !local ==> given == probe::version_warnings(version)
        }),
{
    assert(probe::version_warnings(version) + seq![probe::PLAIN_HTTP_WARNING@]
        =~= probe::version_warnings(version).push(probe::PLAIN_HTTP_WARNING@));
    assert(probe::version_warnings(version) + Seq::<Seq<char>>::empty()
        =~= probe::version_warnings(version));
}

/// An address of plain http to a host of this machine, with or without a path
/// behind it, is local as it is written; one of https is not.
pub proof fn law_written_address_is_local(host: Seq<char>, path: Seq<char>)
    requires
        !host.contains('/'),
    ensures
        probe::written_local("http://"@ + host) <==> probe::loopback(host),
        probe::written_local("http://"@ + host + seq!['/'] + path) <==> probe::loopback(host),
        !probe::written_local("https://"@ + host),
{
    reveal_strlit("http://");
    reveal_strlit("https://");
    let p = "http://"@;
    let a = p + host;
    let b = p + host + seq!['/'] + path;
    assert(a.take(p.len() as int) =~= p);
    assert(b.take(p.len() as int) =~= p);
    assert(a.skip(p.len() as int) =~= host);
    assert(b.skip(p.len() as int) =~= host + seq!['/'] + path);
    text_laws::law_text_is_cut_at_the_first(host, '/', path);
    let c = "https://"@ + host;
    assert(c[4] == 's');
    assert(c.take(p.len() as int)[4] == 's');
}

} // verus!
