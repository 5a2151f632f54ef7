//! Addresses of servers: which ones are accepted, and the key under which a
//! server's data is kept.

use vstd::prelude::*;
use vstd::utf8::*;

use crate::probe;
use crate::text;
use crate::web;

verus! {

// ---------------------------------------------------------------------------
// Validation
// ---------------------------------------------------------------------------

/// The refusal of plain http to another machine.
pub const HTTPS_ONLY: &'static str =
    "Only https URLs are allowed (http is accepted for localhost only). Use https in production.";

/// The refusal of any other scheme.
pub const WRONG_SCHEME: &'static str = "URL must start with https:// (or http:// for localhost)";

/// An address as it is kept: without white space around it and without
/// slashes at its end.
pub open spec fn tidy(raw: Seq<char>) -> Seq<char> {
    text::trim_end(text::trim(raw), '/')
}

/// Whether a tidied address, which parses as given, is accepted, or why not.
pub open spec fn accepted(
    tidied: Seq<char>,
    parsed: Result<web::UrlModel, Seq<char>>,
) -> Result<Seq<char>, Seq<char>> {
    if tidied.len() == 0 {
        Err("URL is required"@)
    } else {
        match parsed {
            Err(e) => Err("Invalid URL: "@ + e),
            Ok(u) => if u.scheme != "https"@ && u.scheme != "http"@ {
                Err(WRONG_SCHEME@)
            } else if u.scheme == "http"@ && !(u.host matches Some(h) && probe::loopback(h)) {
                Err(HTTPS_ONLY@)
            } else if u.host is None {
                Err("URL must include a host"@)
            } else {
                Ok(tidied)
            },
        }
    }
}

/// The address that is kept for what was typed, or why there is none.
pub open spec fn validated(raw: Seq<char>) -> Result<Seq<char>, Seq<char>> {
    accepted(tidy(raw), web::url_parse(tidy(raw)))
}

/// Accepts or refuses an address that was tidied and parsed already.
pub fn accept_address(tidied: &str, parsed: &Result<web::UrlParts, String>) -> (r: Result<
    String,
    String,
>)
    ensures
        text::result_text(r) == accepted(tidied@, web::parsed(*parsed)),
{
    if tidied.is_empty() {
        return Err("URL is required".to_string());
    }
    let u = match parsed {
        Ok(u) => u,
        Err(e) => {
            return Err(text::join2("Invalid URL: ", e.as_str()));
        },
    };
    if text::same(u.scheme.as_str(), "http") {
        let local: bool = match &u.host {
            Some(h) => probe::is_loopback_host(h.as_str()),
            None => false,
        };
        if !local {
            return Err(HTTPS_ONLY.to_string());
        }
    } else if !text::same(u.scheme.as_str(), "https") {
        return Err(WRONG_SCHEME.to_string());
    }
    if u.host.is_none() {
        return Err("URL must include a host".to_string());
    }
    Ok(tidied.to_string())
}

/// Tidies and checks the address of a server: https, or plain http to this
/// machine.
pub fn validate_instance_url(raw: &str) -> (r: Result<String, String>)
    ensures
        text::result_text(r) == validated(raw@),
{
    let tidied = text::trim_end_of(text::trim_of(raw), '/');
    let parsed = web::parse_url(tidied);
    accept_address(tidied, &parsed)
}

// ---------------------------------------------------------------------------
// Keys of data stores
// ---------------------------------------------------------------------------

/// The multiplier of the hash.
pub const FNV_PRIME: u64 = 0x100_0000_01b3;

/// The FNV-1a hash of `data` from the given start.
pub open spec fn fnv(data: Seq<u8>, seed: u64) -> u64
    decreases data.len(),
{
    if data.len() == 0 {
        seed
    } else {
        (fnv(data.drop_last(), seed) ^ (data.last() as u64)).wrapping_mul(FNV_PRIME)
    }
}

/// Hashes `data` from the given start.
pub fn fnv1a_64(data: &[u8], seed: u64) -> (r: u64)
    ensures
        r == fnv(data@, seed),
{
    let mut h: u64 = seed;
    let mut i: usize = 0;
    proof {
        assert(data@.take(0) =~= Seq::<u8>::empty());
    }
    while i < data.len()
        invariant
            i <= data@.len(),
            h == fnv(data@.take(i as int), seed),
        decreases data@.len() - i,
    {
        proof {
            assert(data@.take(i + 1).drop_last() =~= data@.take(i as int));
            assert(data@.take(i + 1).last() == data@[i as int]);
        }
        let b: u64 = data[i] as u64;
        h = (h ^ b).wrapping_mul(FNV_PRIME);
        i = i + 1;
    }
    proof {
        assert(data@.take(i as int) =~= data@);
    }
    h
}

/// The start of the first hash of a key.
pub const FIRST_SEED: u64 = 0xcbf2_9ce4_8422_2325;

/// The start of the second hash of a key.
pub const SECOND_SEED: u64 = 0x8422_2325_cbf2_9ce4;

/// The key under which the data of the server at `url` is kept.
pub open spec fn key_of(url: Seq<char>) -> Seq<char> {
    let bytes = encode_utf8(text::trim_end(url, '/'));
    "persea-"@ + text::hex16(fnv(bytes, FIRST_SEED)) + text::hex16(fnv(bytes, SECOND_SEED))
}

/// The key under which the data of a server is kept: the same for a URL with
/// and without slashes at its end, at every start of the program.
pub fn store_key(instance_url: &str) -> (r: String)
    ensures
        r@ == key_of(instance_url@),
{
    let normalized = text::trim_end_of(instance_url, '/');
    let bytes = normalized.as_bytes();
    let mut s = "persea-".to_string();
    text::push_hex16(&mut s, fnv1a_64(bytes, FIRST_SEED));
    text::push_hex16(&mut s, fnv1a_64(bytes, SECOND_SEED));
    s
}

/// The label of the window in which a server is shown: one window shows every
/// server.
pub fn window_label(_instance_url: &str) -> (r: &'static str)
    ensures
        r@ == "main"@,
{
    "main"
}

} // verus!
