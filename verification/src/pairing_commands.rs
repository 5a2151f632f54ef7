//! What a user asks of pairing: to start one, to confirm the code, to list and
//! to revoke tokens; and the name under which this device is paired.

use vstd::prelude::*;

use crate::address;
use crate::http;
use crate::http::HttpResult;
use crate::instances;
use crate::instances::InstanceStore;
use crate::seqs;
use crate::text;
use crate::tokens;
use crate::tokens::{RegisteredToken, TokenModel, TokenRegistry};
use crate::web;

verus! {

/// The page on which a user confirms the code.
pub const CONFIRM_PAGE: &'static str = "/account/tokens.html";

/// The capability of a server with device pairing.
pub const PAIRING_CAPABILITY: &'static str = "desktop_pairing";

/// The longest device name.
pub const MAX_HOSTNAME_LEN: usize = 64;

// ---------------------------------------------------------------------------
// Device name
// ---------------------------------------------------------------------------

/// The characters of a device name.
pub open spec fn safe(c: char) -> bool {
    let u = c as u32;
    ||| 0x30 <= u <= 0x39
    ||| 0x41 <= u <= 0x5a
    ||| 0x61 <= u <= 0x7a
    ||| c == '-'
    ||| c == '_'
    ||| c == '.'
    ||| c == ':'
    ||| c == ' '
    ||| c == '('
    ||| c == ')'
    ||| c == '['
    ||| c == ']'
}

/// The characters that a device name may hold.
pub open spec fn is_safe() -> spec_fn(char) -> bool {
    |c: char| safe(c)
}

/// At most the first `n` characters of `s`.
pub open spec fn at_most(s: Seq<char>, n: int) -> Seq<char> {
    if s.len() <= n {
        s
    } else {
        s.take(n)
    }
}

/// A device name as servers accept it.
pub open spec fn device_name(raw: Seq<char>) -> Seq<char> {
    text::trim(at_most(raw.filter(is_safe()), MAX_HOSTNAME_LEN as int))
}

/// Whether a device name may hold the character.
fn is_safe_char(c: char) -> (r: bool)
    ensures
        r == safe(c),
{
    let u: u32 = c as u32;
    (0x30 <= u && u <= 0x39) || (0x41 <= u && u <= 0x5a) || (0x61 <= u && u <= 0x7a) || c == '-'
        || c == '_' || c == '.' || c == ':' || c == ' ' || c == '(' || c == ')' || c == '[' || c
        == ']'
}

/// Reduces a device name to what servers accept: safe characters, at most
/// [`MAX_HOSTNAME_LEN`], no white space at either end.
pub fn sanitize_hostname(raw: &str) -> (r: String)
    ensures
        r@ == device_name(raw@),
{
    let v = text::chars_of(raw);
    let ghost p = is_safe();
    let mut kept = String::new();
    let mut count: usize = 0;
    let mut i: usize = 0;
    proof {
        assert(v@.take(0) =~= Seq::<char>::empty());
        reveal(Seq::filter);
        assert(kept@ =~= at_most(v@.take(0).filter(p), MAX_HOSTNAME_LEN as int));
    }
    while i < v.len()
        invariant
            v@ == raw@,
            p == is_safe(),
            i <= v@.len(),
            count == kept@.len(),
            count <= MAX_HOSTNAME_LEN,
            kept@ == at_most(v@.take(i as int).filter(p), MAX_HOSTNAME_LEN as int),
        decreases v@.len() - i,
    {
        proof {
            assert(v@.take(i + 1) =~= v@.take(i as int).push(v@[i as int]));
            seqs::lemma_filter_push(v@.take(i as int), v@[i as int], p);
        }
        let ghost before = kept@;
        let c: char = v[i];
        if count < MAX_HOSTNAME_LEN && is_safe_char(c) {
            kept.push(c);
            count = count + 1;
        }
        i = i + 1;
        proof {
            assert(kept@ =~= at_most(v@.take(i as int).filter(p), MAX_HOSTNAME_LEN as int));
        }
    }
    proof {
        assert(v@.take(i as int) =~= v@);
    }
    text::trim_of(kept.as_str()).to_string()
}

/// The first of three optional texts, or the empty one.
pub open spec fn first_of(a: Option<Seq<char>>, b: Option<Seq<char>>, c: Option<Seq<char>>) -> Seq<
    char,
> {
    match a {
        Some(s) => s,
        None => match b {
            Some(s) => s,
            None => text::or_empty(c),
        },
    }
}

/// What a file that holds the name of the machine says.
pub fn read_etc_hostname(contents: Option<String>) -> (r: Option<String>)
    ensures
        text::opt_text(r) == (match contents {
            Some(s) => Some(text::trim(s@)),
            None => None,
        }),
{
    match contents {
        Some(s) => Some(text::trim_of(s.as_str()).to_string()),
        None => None,
    }
}

/// The name under which this device is paired: what the environment calls it,
/// else what the file says, else nothing.
pub fn device_hostname(
    hostname: Option<String>,
    computername: Option<String>,
    etc_hostname: Option<String>,
) -> (r: String)
    ensures
        r@ == device_name(
            first_of(
                text::opt_text(hostname),
                text::opt_text(computername),
                text::opt_text(etc_hostname),
            ),
        ),
{
    let raw = match hostname {
        Some(s) => s,
        None => match computername {
            Some(s) => s,
            None => text::or_empty_of(etc_hostname),
        },
    };
    sanitize_hostname(raw.as_str())
}

// ---------------------------------------------------------------------------
// Commands
// ---------------------------------------------------------------------------

/// The refusal to pair with a server that does not offer it.
pub const PAIRING_DISABLED: &'static str = "device pairing is disabled by this server";

/// The failure of a pairing without a code.
pub const NO_CODE: &'static str = "server returned no pairing code";

/// The refusal to revoke a token that is not registered.
pub const NO_SUCH_TOKEN: &'static str = "no paired token with that id";

/// Whether pairing is offered: only where the last probe of the server says
/// so.
pub fn pairing_supported(store: Option<&InstanceStore>, instance_url: &str) -> (r: bool)
    ensures
        r == (store is Some && instances::capability_of(
            store->0@,
            instance_url@,
            PAIRING_CAPABILITY@,
        )),
{
    instances::capability(store, instance_url, PAIRING_CAPABILITY)
}

/// Whether a pairing may be started, from its address validated already.
pub fn pairing_address(store: Option<&InstanceStore>, url: Result<String, String>) -> (r: Result<
    String,
    String,
>)
    ensures
        text::result_text(r) == (match text::result_text(url) {
            Err(e) => Err(e),
            Ok(u) => if store is Some && instances::capability_of(
                store->0@,
                u,
                PAIRING_CAPABILITY@,
            ) {
                Ok(u)
            } else {
                Err(PAIRING_DISABLED@)
            },
        }),
{
    match url {
        Err(e) => Err(e),
        Ok(u) => {
            if pairing_supported(store, u.as_str()) {
                Ok(u)
            } else {
                Err(PAIRING_DISABLED.to_string())
            }
        },
    }
}

/// Whether a pairing may be started, and the address to start it with.
pub fn pairing_start(store: Option<&InstanceStore>, instance_url: &str) -> (r: Result<
    String,
    String,
>)
    ensures
        text::result_text(r) == (match address::validated(instance_url@) {
            Err(e) => Err(e),
            Ok(u) => if store is Some && instances::capability_of(
                store->0@,
                u,
                PAIRING_CAPABILITY@,
            ) {
                Ok(u)
            } else {
                Err(PAIRING_DISABLED@)
            },
        }),
{
    pairing_address(store, address::validate_instance_url(instance_url))
}

/// The code and its expiry, as the server tells them, or why there is none.
pub open spec fn code_told(
    status: u16,
    code: Option<Seq<char>>,
    expires_at: Option<Seq<char>>,
    message: Option<Seq<char>>,
) -> Result<(Seq<char>, Seq<char>), Seq<char>> {
    if !web::success(status) {
        Err(http::failure_text("pairing request failed"@, status, message))
    } else {
        match code {
            Some(c) => Ok((c, text::or_empty(expires_at))),
            None => Err(NO_CODE@),
        }
    }
}

/// The model of a code or of a failure.
pub open spec fn code_result(r: Result<(String, String), String>) -> Result<
    (Seq<char>, Seq<char>),
    Seq<char>,
> {
    match r {
        Ok(t) => Ok((t.0@, t.1@)),
        Err(e) => Err(e@),
    }
}

/// Takes the code from the fields of the reply to a pairing request.
pub fn pairing_code(
    status: u16,
    code: Option<String>,
    expires_at: Option<String>,
    message: Option<String>,
) -> (r: Result<(String, String), String>)
    ensures
        code_result(r) == code_told(
            status,
            text::opt_text(code),
            text::opt_text(expires_at),
            text::opt_text(message),
        ),
{
    if !web::is_success_status(status) {
        return Err(http::failure("pairing request failed", status, message));
    }
    match code {
        Some(c) => Ok((c, text::or_empty_of(expires_at))),
        None => Err(NO_CODE.to_string()),
    }
}

/// Takes the code from the reply to a pairing request.
pub fn pairing_reply(result: &HttpResult) -> (r: Result<(String, String), String>)
    ensures
        code_result(r) == code_told(
            result.status,
            web::json_text(result.body@, "code"@),
            web::json_text(result.body@, "expires_at"@),
            web::json_text(result.body@, "error"@),
        ),
{
    pairing_code(
        result.status,
        web::text_at(&result.body, "code"),
        web::text_at(&result.body, "expires_at"),
        result.server_error(),
    )
}

/// A page, which parses as given, or the failure where it is no address.
pub open spec fn page_told(
    page: Seq<char>,
    parsed: Result<web::UrlModel, Seq<char>>,
) -> Result<Seq<char>, Seq<char>> {
    match parsed {
        Ok(_) => Ok(page),
        Err(e) => Err("invalid pairing page URL: "@ + e),
    }
}

/// Takes a page that was parsed already.
pub fn confirm_page(page: String, parsed: &Result<web::UrlParts, String>) -> (r: Result<
    String,
    String,
>)
    ensures
        text::result_text(r) == page_told(page@, web::parsed(*parsed)),
{
    match parsed {
        Ok(_) => Ok(page),
        Err(e) => Err(text::join2("invalid pairing page URL: ", e.as_str())),
    }
}

/// The page on which the user confirms the code.
pub fn pairing_open_confirm_page(instance_url: &str) -> (r: Result<String, String>)
    ensures
        text::result_text(r) == (match address::validated(instance_url@) {
            Err(e) => Err(e),
            Ok(u) => page_told(u + CONFIRM_PAGE@, web::url_parse(u + CONFIRM_PAGE@)),
        }),
{
    match address::validate_instance_url(instance_url) {
        Err(e) => Err(e),
        Ok(u) => {
            let page = text::join2(u.as_str(), CONFIRM_PAGE);
            let parsed = web::parse_url(page.as_str());
            confirm_page(page, &parsed)
        },
    }
}

/// A token as it is shown.
#[derive(Debug)]
pub struct TokenView {
    pub instance_url: String,
    pub token_id: i64,
    pub token_name: String,
    pub device_name: String,
    pub created_at: u64,
    /// Whether the secret is in the keychain.
    pub in_keychain: bool,
}

/// Whether a look into the keychain found the secret: a read that failed
/// counts as one that found none.
pub open spec fn found(secret: Result<Option<String>, String>) -> bool {
    secret matches Ok(s) && s is Some
}

/// Whether the view shows the token, with what the keychain said.
pub open spec fn views(
    v: TokenView,
    token: RegisteredToken,
    secret: Result<Option<String>, String>,
) -> bool {
    &&& v.instance_url == token.instance_url
    &&& v.token_id == token.token_id
    &&& v.token_name == token.token_name
    &&& v.device_name == token.device_name
    &&& v.created_at == token.created_at
    &&& v.in_keychain == found(secret)
}

/// Shows a token, with what a look into the keychain for its secret gave.
pub fn token_view(token: RegisteredToken, secret: &Result<Option<String>, String>) -> (r: TokenView)
    ensures
        views(r, token, *secret),
{
    TokenView {
        instance_url: token.instance_url,
        token_id: token.token_id,
        token_name: token.token_name,
        device_name: token.device_name,
        created_at: token.created_at,
        in_keychain: match secret {
            Ok(s) => s.is_some(),
            Err(_) => false,
        },
    }
}

/// What was said of the token at the position: that there is no secret, where
/// nothing was.
pub open spec fn said(
    secrets: Seq<Result<Option<String>, String>>,
    i: int,
) -> Result<Option<String>, String> {
    if i < secrets.len() {
        secrets[i]
    } else {
        Ok(None)
    }
}

/// Shows every token, each with what a look into the keychain for its secret
/// gave. A look that failed takes no token out of the list.
pub fn token_views(
    tokens: Vec<RegisteredToken>,
    secrets: &Vec<Result<Option<String>, String>>,
) -> (r: Vec<TokenView>)
    ensures
        r@.len() == tokens@.len(),
        forall|i: int|
            0 <= i < r@.len() ==> views(#[trigger] r@[i], tokens@[i], said(secrets@, i)),
{
    let ghost all = tokens@;
    let n: usize = tokens.len();
    let mut tokens = tokens;
    let mut out: Vec<TokenView> = Vec::new();
    let none: Result<Option<String>, String> = Ok(None);
    let mut i: usize = 0;
    proof {
        assert(all.skip(0) =~= all);
    }
    while tokens.len() > 0
        invariant
            n == all.len(),
            i + tokens@.len() == n,
            tokens@ == all.skip(i as int),
            out@.len() == i,
            none == Ok::<Option<String>, String>(None),
            forall|j: int|
                0 <= j < i ==> views(#[trigger] out@[j], all[j], said(secrets@, j)),
        decreases tokens@.len(),
    {
        let token = tokens.remove(0);
        let secret: &Result<Option<String>, String> = if i < secrets.len() {
            &secrets[i]
        } else {
            &none
        };
        proof {
            assert(token == all[i as int]);
            assert(tokens@ =~= all.skip(i + 1));
        }
        out.push(token_view(token, secret));
        i = i + 1;
    }
    out
}

/// The registered tokens of the server at an address.
pub fn pairing_list_tokens(registry: &TokenRegistry, instance_url: &str) -> (r: Result<
    Vec<RegisteredToken>,
    String,
>)
    ensures
        match r {
            Ok(v) => address::validated(instance_url@) is Ok && tokens::token_models(v@)
                == registry@.filter(tokens::of_instance(address::validated(instance_url@)->Ok_0)),
            Err(e) => address::validated(instance_url@) == Err::<Seq<char>, Seq<char>>(e@),
        },
{
    match address::validate_instance_url(instance_url) {
        Err(e) => Err(e),
        Ok(u) => Ok(registry.for_instance(u.as_str())),
    }
}

/// What a token is revoked with: the address of the server, the name of the
/// keychain entry, and the path of the request.
#[derive(Debug)]
pub struct RevokeRequest {
    pub url: String,
    pub user: String,
    pub path: String,
}

/// Whether a token may be revoked, from its address validated already.
pub fn revoke_request(registry: &TokenRegistry, url: Result<String, String>, token_id: i64) -> (r:
    Result<RevokeRequest, String>)
    ensures
        match r {
            Ok(q) => {
                &&& text::result_text(url) == Ok::<Seq<char>, Seq<char>>(q.url@)
                &&& tokens::has_token(registry@, q.url@, token_id)
                &&& q.user@ == tokens::keyring_name(q.url@, token_id)
                &&& q.path@ == "/api/me/tokens/"@ + text::decimal_int(token_id as int)
            },
            Err(e) => match text::result_text(url) {
                Err(m) => e@ == m,
                Ok(u) => !tokens::has_token(registry@, u, token_id) && e@ == NO_SUCH_TOKEN@,
            },
        },
{
    let url = match url {
        Ok(u) => u,
        Err(e) => {
            return Err(e);
        },
    };
    if !registry.has(url.as_str(), token_id) {
        return Err(NO_SUCH_TOKEN.to_string());
    }
    let user = tokens::keyring_user(url.as_str(), token_id);
    let id = text::decimal_int_of(token_id);
    let path = text::join2("/api/me/tokens/", id.as_str());
    Ok(RevokeRequest { url, user, path })
}

/// Whether a token may be revoked, and what it is revoked with.
pub fn pairing_revoke(registry: &TokenRegistry, instance_url: &str, token_id: i64) -> (r: Result<
    RevokeRequest,
    String,
>)
    ensures
        match r {
            Ok(q) => {
                &&& address::validated(instance_url@) == Ok::<Seq<char>, Seq<char>>(q.url@)
                &&& tokens::has_token(registry@, q.url@, token_id)
                &&& q.user@ == tokens::keyring_name(q.url@, token_id)
                &&& q.path@ == "/api/me/tokens/"@ + text::decimal_int(token_id as int)
            },
            Err(e) => match address::validated(instance_url@) {
                Err(m) => e@ == m,
                Ok(u) => !tokens::has_token(registry@, u, token_id) && e@ == NO_SUCH_TOKEN@,
            },
        },
{
    revoke_request(registry, address::validate_instance_url(instance_url), token_id)
}

/// Whether the server revoked a token: a token that it does not have is one
/// that is revoked already.
pub fn revoke_reply(result: &HttpResult) -> (r: Result<(), String>)
    ensures
        match r {
            Ok(()) => web::success(result.status) || result.status == 404,
            Err(e) => !web::success(result.status) && result.status != 404 && e@
                == http::failure_text(
                "revocation failed"@,
                result.status,
                web::json_text(result.body@, "error"@),
            ),
        },
{
    if !result.is_success() && result.status != 404 {
        return Err(http::server_error("revocation failed", result));
    }
    Ok(())
}

/// A copy of every registered token, none where the registry is not there.
pub fn registered_tokens(registry: Option<&TokenRegistry>) -> (r: Vec<RegisteredToken>)
    ensures
        tokens::token_models(r@) == (match registry {
            Some(g) => g@,
            None => Seq::empty(),
        }),
{
    match registry {
        Some(g) => tokens::clone_tokens(&g.file.tokens),
        None => {
            let out: Vec<RegisteredToken> = Vec::new();
            proof {
                assert(tokens::token_models(out@) =~= Seq::<TokenModel>::empty());
            }
            out
        },
    }
}

/// The name of the keychain entry of the newest token of the server.
pub fn token_for(registry: &TokenRegistry, instance_url: &str) -> (r: Option<String>)
    ensures
        match r {
            Some(user) => exists|k: int| #[trigger]
                tokens::is_latest(registry@, instance_url@, k) && user@ == tokens::keyring_name(
                    instance_url@,
                    registry@[k].token_id,
                ),
            None => forall|k: int|
                0 <= k < registry@.len() ==> (#[trigger] registry@[k]).instance_url
                    != instance_url@,
        },
{
    match registry.latest(instance_url) {
        Some(t) => Some(tokens::keyring_user(instance_url, t.token_id)),
        None => None,
    }
}

} // verus!
