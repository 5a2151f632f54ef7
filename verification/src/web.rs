//! What the library takes from the `url`, `serde_json` and `reqwest` crates
//! and from the clock: addresses, JSON bodies, status codes. The contracts of
//! the functions marked `external_body` are believed, not proved; each says
//! what it claims of the function that it calls.

use std::path::PathBuf;

use vstd::prelude::*;
use vstd::utf8::*;

use crate::text;

verus! {

// ---------------------------------------------------------------------------
// Paths
// ---------------------------------------------------------------------------

/// A path of the local file system. Nothing is known of what it holds: it is
/// carried from where it came from to where a file is opened.
#[verifier::external_type_specification]
#[verifier::external_body]
pub struct ExPathBuf(std::path::PathBuf);

/// `PathBuf::clone` gives a path that is the same value.
pub assume_specification[ <std::path::PathBuf as Clone>::clone ](
    path: &std::path::PathBuf,
) -> (r: std::path::PathBuf)
    ensures
        r == *path,
;

/// `Path::file_name`, where the final component is Unicode. Which characters
/// separate the components depends on the operating system, so nothing is
/// stated of the name.
#[verifier::external_body]
pub fn path_file_name(path: &PathBuf) -> (r: Option<String>)
{
    path.file_name().and_then(|n| n.to_str()).map(str::to_string)
}

/// Calls `f` on the path: what comes back is something that `f` gives for it.
fn told_by<F: Fn(&PathBuf) -> Option<String>>(f: F, path: &PathBuf) -> (r: Option<String>)
    requires
        call_requires(f, (path,)),
    ensures
        call_ensures(f, (path,), r),
{
    f(path)
}

/// Whether the name is one that [`path_file_name`] gives for the path; without
/// a path there is no name.
pub open spec fn named(path: Option<PathBuf>, name: Option<String>) -> bool {
    match path {
        Some(p) => call_ensures(path_file_name, (&p,), name),
        None => name is None,
    }
}

/// What the file at the path is called.
pub(crate) fn name_at(path: &PathBuf) -> (r: Option<String>)
    ensures
        named(Some(*path), r),
{
    told_by(path_file_name, path)
}

/// What the file at an optional path is called.
pub(crate) fn name_at_opt(path: &Option<PathBuf>) -> (r: Option<String>)
    ensures
        named(*path, r),
{
    match path {
        Some(p) => name_at(p),
        None => None,
    }
}

// ---------------------------------------------------------------------------
// Time
// ---------------------------------------------------------------------------

/// `SystemTime::now` and `SystemTime::duration_since`: the nanoseconds since
/// the epoch, none where the clock stands before it. Nothing is stated of a
/// clock.
#[verifier::external_body]
fn clock() -> (r: Option<u128>)
{
    let now = std::time::SystemTime::now();
    now.duration_since(std::time::UNIX_EPOCH).ok().map(|d| d.as_nanos())
}

/// The nanoseconds that a reading of the clock tells, zero before the epoch.
pub open spec fn nanos_in(reading: Option<u128>) -> u128 {
    match reading {
        Some(n) => n,
        None => 0,
    }
}

/// The whole seconds of so many nanoseconds, as many as fit in 64 bits.
pub open spec fn seconds_in(nanos: u128) -> u64 {
    if nanos / 1_000_000_000 <= u64::MAX {
        (nanos / 1_000_000_000) as u64
    } else {
        u64::MAX
    }
}

/// Whether the clock told so many nanoseconds.
pub closed spec fn clock_told(nanos: u128) -> bool {
    exists|reading: Option<u128>| #[trigger]
        call_ensures(clock, (), reading) && nanos == nanos_in(reading)
}

/// Whether the clock told so many whole seconds.
pub open spec fn clock_told_secs(secs: u64) -> bool {
    exists|nanos: u128| #[trigger] clock_told(nanos) && secs == seconds_in(nanos)
}

/// Calls `f`: what comes back is something that `f` gives.
fn read_by<F: Fn() -> Option<u128>>(f: F) -> (r: Option<u128>)
    requires
        call_requires(f, ()),
    ensures
        call_ensures(f, (), r),
{
    f()
}

/// The nanoseconds that a reading of the clock tells, zero before the epoch.
pub fn nanos_told(reading: Option<u128>) -> (r: u128)
    ensures
        r == nanos_in(reading),
{
    match reading {
        Some(n) => n,
        None => 0,
    }
}

/// The nanoseconds since the epoch.
pub(crate) fn now_nanos() -> (r: u128)
    ensures
        clock_told(r),
{
    nanos_told(read_by(clock))
}

/// The whole seconds of so many nanoseconds, as many as fit in 64 bits.
pub fn whole_seconds(nanos: u128) -> (r: u64)
    ensures
        r == seconds_in(nanos),
{
    let secs: u128 = nanos / 1_000_000_000;
    if secs <= u64::MAX as u128 {
        secs as u64
    } else {
        u64::MAX
    }
}

/// The seconds since the epoch.
pub(crate) fn now_secs() -> (r: u64)
    ensures
        clock_told_secs(r),
{
    let nanos: u128 = now_nanos();
    proof {
        assert(clock_told(nanos));
    }
    whole_seconds(nanos)
}

// ---------------------------------------------------------------------------
// Bytes as text
// ---------------------------------------------------------------------------

/// What `String::from_utf8_lossy` makes of `bytes` that are not UTF-8.
pub uninterp spec fn utf8_lossy(bytes: Seq<u8>) -> Seq<char>;

/// The text that bytes are read as: what they encode where they are UTF-8.
pub open spec fn lossy(bytes: Seq<u8>) -> Seq<char> {
    if valid_utf8(bytes) {
        decode_utf8(bytes)
    } else {
        utf8_lossy(bytes)
    }
}

/// `String::from_utf8_lossy`: bytes that are UTF-8 give the text that they
/// encode; of other bytes only a name is given to the result, in which
/// U+FFFD stands for what is not UTF-8.
#[verifier::external_body]
pub(crate) fn text_of_bytes(bytes: &Vec<u8>) -> (r: String)
    ensures
        valid_utf8(bytes@) ==> r@ == decode_utf8(bytes@),
        !valid_utf8(bytes@) ==> r@ == utf8_lossy(bytes@),
{
    String::from_utf8_lossy(bytes).into_owned()
}

// ---------------------------------------------------------------------------
// Addresses
// ---------------------------------------------------------------------------

/// What the library reads of a parsed URL.
pub struct UrlParts {
    pub scheme: String,
    pub host: Option<String>,
    /// The segments of a path that begins with a slash.
    pub segments: Option<Vec<String>>,
}

/// The model of [`UrlParts`].
#[verifier::ext_equal]
pub struct UrlModel {
    pub scheme: Seq<char>,
    pub host: Option<Seq<char>>,
    pub segments: Option<Seq<Seq<char>>>,
}

impl View for UrlParts {
    type V = UrlModel;

    open spec fn view(&self) -> UrlModel {
        UrlModel {
            scheme: self.scheme@,
            host: text::opt_text(self.host),
            segments: match self.segments {
                Some(v) => Some(text::texts(v@)),
                None => None,
            },
        }
    }
}

/// The model of a parsed URL or of the error.
pub open spec fn parsed(r: Result<UrlParts, String>) -> Result<UrlModel, Seq<char>> {
    match r {
        Ok(parts) => Ok(parts@),
        Err(e) => Err(e@),
    }
}

/// What `Url::parse` reads in `raw`, or the text of its error.
pub uninterp spec fn url_parse(raw: Seq<char>) -> Result<UrlModel, Seq<char>>;

/// `Url::parse` with `Url::scheme`, `Url::host_str` and `Url::path_segments`
/// of its result. The parts are a function of the text alone.
#[verifier::external_body]
pub(crate) fn parse_url(raw: &str) -> (r: Result<UrlParts, String>)
    ensures
        parsed(r) == url_parse(raw@),
{
    match url::Url::parse(raw) {
        Ok(u) => Ok(UrlParts {
            scheme: u.scheme().to_string(),
            host: u.host_str().map(str::to_string),
            segments: u.path_segments().map(|s| s.map(str::to_string).collect()),
        }),
        Err(e) => Err(e.to_string()),
    }
}

/// The origin of the URL that `raw` writes, in ASCII.
pub uninterp spec fn url_origin(raw: Seq<char>) -> Seq<char>;

/// Whether `Url::origin` may be asked of a parsed URL: it calls itself for the
/// URL in the path of a `blob`, as deep as these are nested, and a path that
/// begins with a slash holds none.
pub open spec fn has_origin(parsed: Result<UrlModel, Seq<char>>) -> bool {
    parsed matches Ok(u) && (u.scheme != "blob"@ || u.segments is Some)
}

/// `Url::origin` and `Origin::ascii_serialization` of the URL that `raw`
/// writes. Asked only of what `Url::parse` accepts, and not of nested URLs.
#[verifier::external_body]
pub(crate) fn origin_of(raw: &str) -> (r: String)
    requires
        has_origin(url_parse(raw@)),
    ensures
        r@ == url_origin(raw@),
{
    url::Url::parse(raw).unwrap().origin().ascii_serialization()
}

/// How many characters go into a URL at most: `Url::set_path` panics where the
/// text of a URL does not fit in 32 bits. A character becomes at most twelve
/// bytes in a path, and in a host some dozens.
pub const URL_TEXT_MAX: usize = 0x100_0000;

/// The text of the URL `base` with its path replaced by `path`, or the text of
/// the error where `base` is no URL.
pub uninterp spec fn url_with_path(base: Seq<char>, path: Seq<char>) -> Result<
    Seq<char>,
    Seq<char>,
>;

/// `Url::parse` and `Url::set_path`. The result is a function of the two
/// arguments.
#[verifier::external_body]
pub(crate) fn set_url_path(base: &str, path: &str) -> (r: Result<String, String>)
    requires
        base@.len() + path@.len() <= URL_TEXT_MAX,
    ensures
        match r {
            Ok(u) => url_with_path(base@, path@) == Ok::<Seq<char>, Seq<char>>(u@),
            Err(e) => url_with_path(base@, path@) == Err::<Seq<char>, Seq<char>>(e@),
        },
{
    match url::Url::parse(base) {
        Ok(mut u) => {
            u.set_path(path);
            Ok(u.to_string())
        }
        Err(e) => Err(e.to_string()),
    }
}

/// The text of the URL `base` with its path replaced by `path` and `segment`
/// after it, `None` where its path has no segments.
pub uninterp spec fn url_with_segment(
    base: Seq<char>,
    path: Seq<char>,
    segment: Seq<char>,
) -> Result<Option<Seq<char>>, Seq<char>>;

/// Whether the text is the address of a server in printable ASCII, without an
/// escape.
pub open spec fn plain_server(base: Seq<char>) -> bool {
    &&& text::starts_with(base, "https://"@) || text::starts_with(base, "http://"@)
    &&& forall|i: int|
        0 <= i < base.len() ==> 0x21 <= (#[trigger] base[i]) as u32 <= 0x7e && base[i] != '%'
}

/// Whether the text is `https://` and a host of lower-case letters and dots.
pub open spec fn plain_origin(base: Seq<char>) -> bool {
    &&& text::starts_with(base, "https://"@)
    &&& base.len() > "https://"@.len()
    &&& forall|i: int|
        "https://"@.len() <= i < base.len() ==> (0x61 <= (#[trigger] base[i]) as u32 <= 0x7a
            || base[i] == '.')
}

/// The characters that a path holds as they are, slashes between its segments
/// among them: printable ASCII without those that are escaped, end the path or
/// begin an escape.
pub open spec fn is_path_char(c: char) -> bool {
    &&& 0x21 <= c as u32 <= 0x7e
    &&& c != '"' && c != '#' && c != '%' && c != '<' && c != '>' && c != '?'
    &&& c != '\\' && c != '`' && c != '{' && c != '}'
}

/// Whether the text is a path that a URL holds as it is, and not the root
/// alone: no segment of it is `.` or `..`.
pub open spec fn plain_path(path: Seq<char>) -> bool {
    &&& path.len() > 1
    &&& path[0] == '/'
    &&& forall|i: int| 0 <= i < path.len() ==> is_path_char(#[trigger] path[i])
    &&& !text::pieces(path.drop_first(), '/').contains("."@)
    &&& !text::pieces(path.drop_first(), '/').contains(".."@)
}

/// Whether a URL keeps the text as a segment of its path: `.` and `..` are
/// passed over, and tabs and line breaks are dropped.
pub open spec fn kept_segment(s: Seq<char>) -> bool {
    &&& s != "."@
    &&& s != ".."@
    &&& !s.contains('\t')
    &&& !s.contains('\n')
    &&& !s.contains('\r')
}

/// Whether the URL `made` has the segments of `path` and one more, which stands
/// for `segment` with some of its bytes escaped.
pub open spec fn has_segment(made: Seq<char>, path: Seq<char>, segment: Seq<char>) -> bool {
    &&& url_parse(made) matches Ok(u)
    &&& u.scheme != "blob"@
    &&& u.segments matches Some(all)
    &&& all.len() > 0
    &&& all.drop_last() == text::pieces(path.drop_first(), '/')
    &&& crate::drive::unescaped(encode_utf8(all.last())) == encode_utf8(segment)
}

/// `Url::parse`, `Url::set_path`, `Url::path_segments_mut` and
/// `PathSegmentsMut::push`. The result is a function of the three arguments.
/// Of a plain address and a plain path it is a URL of the same origin, and
/// parsing it gives back the path and the segment; a host of lower-case letters
/// and dots is its own origin with the scheme before it. The segment is escaped
/// as `SPECIAL_PATH_SEGMENT` of the crate says, percent signs among it.
#[verifier::external_body]
pub(crate) fn push_url_segment(base: &str, path: &str, segment: &str) -> (r: Result<
    Option<String>,
    String,
>)
    requires
        base@.len() + path@.len() + segment@.len() <= URL_TEXT_MAX,
    ensures
        match r {
            Ok(u) => url_with_segment(base@, path@, segment@) == Ok::<
                Option<Seq<char>>,
                Seq<char>,
            >(text::opt_text(u)),
            Err(e) => url_with_segment(base@, path@, segment@) == Err::<
                Option<Seq<char>>,
                Seq<char>,
            >(e@),
        },
        r matches Ok(Some(u)) ==> (plain_server(base@) && plain_path(path@) && kept_segment(
            segment@,
        ) ==> has_segment(u@, path@, segment@) && url_origin(u@) == url_origin(base@)),
        r matches Ok(Some(u)) ==> (plain_origin(base@) && plain_path(path@) && kept_segment(
            segment@,
        ) ==> url_origin(u@) == base@),
{
    let mut u = match url::Url::parse(base) {
        Ok(u) => u,
        Err(e) => return Err(e.to_string()),
    };
    u.set_path(path);
    match u.path_segments_mut() {
        Ok(mut s) => {
            s.push(segment);
        }
        Err(()) => return Ok(None),
    }
    Ok(Some(u.to_string()))
}

// ---------------------------------------------------------------------------
// Status codes
// ---------------------------------------------------------------------------

/// Whether a status code says success.
pub open spec fn success(status: u16) -> bool {
    200 <= status <= 299
}

/// Whether a status code says success.
pub fn is_success_status(status: u16) -> (r: bool)
    ensures
        r == success(status),
{
    200 <= status && status <= 299
}

/// A status code with its reason phrase.
pub uninterp spec fn status_line(status: u16) -> Seq<char>;

/// `StatusCode::from_u16` and the text of the result, which is the number and
/// the reason phrase.
#[verifier::external_body]
pub(crate) fn status_line_of(status: u16) -> (r: String)
    requires
        100 <= status <= 999,
    ensures
        r@ == status_line(status),
{
    reqwest::StatusCode::from_u16(status).unwrap().to_string()
}

// ---------------------------------------------------------------------------
// JSON bodies
// ---------------------------------------------------------------------------

/// Whether `body` is one JSON value.
pub uninterp spec fn json_valid(body: Seq<u8>) -> bool;

/// `serde_json::from_slice`: whether it reads a value in `body`.
#[verifier::external_body]
pub(crate) fn is_json(body: &Vec<u8>) -> (r: bool)
    ensures
        r == json_valid(body@),
{
    serde_json::from_slice::<serde_json::Value>(body).is_ok()
}

/// The string under `key` in the JSON object `body`.
pub uninterp spec fn json_text(body: Seq<u8>, key: Seq<char>) -> Option<Seq<char>>;

/// `serde_json::from_slice`, `Value::get` and `Value::as_str`: `None` where one
/// of them gives nothing.
#[verifier::external_body]
pub(crate) fn text_at(body: &Vec<u8>, key: &str) -> (r: Option<String>)
    ensures
        text::opt_text(r) == json_text(body@, key@),
{
    let value: serde_json::Value = serde_json::from_slice(body).ok()?;
    value.get(key)?.as_str().map(str::to_string)
}

/// The integer under `key` in the JSON object `body`, where it fits in `i64`.
pub uninterp spec fn json_i64(body: Seq<u8>, key: Seq<char>) -> Option<i64>;

/// `serde_json::from_slice`, `Value::get` and `Value::as_i64`.
#[verifier::external_body]
pub(crate) fn i64_at(body: &Vec<u8>, key: &str) -> (r: Option<i64>)
    ensures
        r == json_i64(body@, key@),
{
    let value: serde_json::Value = serde_json::from_slice(body).ok()?;
    value.get(key)?.as_i64()
}

/// The integer under `key` in the JSON object `body`, where it fits in `u64`.
pub uninterp spec fn json_u64(body: Seq<u8>, key: Seq<char>) -> Option<u64>;

/// `serde_json::from_slice`, `Value::get` and `Value::as_u64`.
#[verifier::external_body]
pub(crate) fn u64_at(body: &Vec<u8>, key: &str) -> (r: Option<u64>)
    ensures
        r == json_u64(body@, key@),
{
    let value: serde_json::Value = serde_json::from_slice(body).ok()?;
    value.get(key)?.as_u64()
}

/// The boolean under `key` in the JSON object `body`.
pub uninterp spec fn json_bool(body: Seq<u8>, key: Seq<char>) -> Option<bool>;

/// `serde_json::from_slice`, `Value::get` and `Value::as_bool`.
#[verifier::external_body]
pub(crate) fn bool_at(body: &Vec<u8>, key: &str) -> (r: Option<bool>)
    ensures
        r == json_bool(body@, key@),
{
    let value: serde_json::Value = serde_json::from_slice(body).ok()?;
    value.get(key)?.as_bool()
}

/// The members of the JSON object under `key` in the JSON object `body`, each
/// with its boolean where it is one.
pub uninterp spec fn json_flags(body: Seq<u8>, key: Seq<char>) -> Option<
    Map<Seq<char>, Option<bool>>,
>;

/// `serde_json::from_slice`, `Value::get`, `Value::as_object` and
/// `Value::as_bool` of each member. The members come in some order, each key
/// once.
#[verifier::external_body]
pub(crate) fn flags_at(body: &Vec<u8>, key: &str) -> (r: Option<Vec<(String, Option<bool>)>>)
    ensures
        match r {
            Some(v) => crate::textmap::distinct_keys(v@) && json_flags(body@, key@) == Some(
                crate::textmap::entries_map(v@),
            ),
            None => json_flags(body@, key@) is None,
        },
{
    let value: serde_json::Value = serde_json::from_slice(body).ok()?;
    let members = value.get(key)?.as_object()?;
    Some(members.iter().map(|(k, v)| (k.clone(), v.as_bool())).collect())
}

} // verus!
