//! Replies of a server, and what it says where it refuses.

use vstd::prelude::*;

use crate::text;
use crate::web;

verus! {

/// The cookie that carries the token of the double-submit rule.
pub const CSRF_COOKIE: &'static str = "csrf_token";

/// The header that carries the token of the double-submit rule.
pub const CSRF_HEADER: &'static str = "X-CSRF-Token";

/// A reply: its status code and its body.
#[derive(Debug)]
pub struct HttpResult {
    pub status: u16,
    pub body: Vec<u8>,
}

impl HttpResult {
    /// Whether the status says success.
    pub fn is_success(&self) -> (r: bool)
        ensures
            r == web::success(self.status),
    {
        web::is_success_status(self.status)
    }

    /// The message that the server gave for an error.
    pub fn server_error(&self) -> (r: Option<String>)
        ensures
            text::opt_text(r) == web::json_text(self.body@, "error"@),
    {
        web::text_at(&self.body, "error")
    }
}

/// What is said of a request that was refused: the server's message, or the
/// status code where there is none.
pub open spec fn failure_text(
    context: Seq<char>,
    status: u16,
    message: Option<Seq<char>>,
) -> Seq<char> {
    match message {
        Some(m) => context + ": "@ + m,
        None => context + " (HTTP "@ + text::decimal(status as nat) + ")"@,
    }
}

/// Says of a request that it was refused, and with which message.
pub fn failure(context: &str, status: u16, message: Option<String>) -> (r: String)
    ensures
        r@ == failure_text(context@, status, text::opt_text(message)),
{
    match message {
        Some(m) => text::join3(context, ": ", m.as_str()),
        None => {
            let code = text::decimal_of(status as u128);
            let mut s = text::join3(context, " (HTTP ", code.as_str());
            s.append(")");
            s
        },
    }
}

/// Says of a request what the reply refuses.
pub fn server_error(context: &str, result: &HttpResult) -> (r: String)
    ensures
        r@ == failure_text(context@, result.status, web::json_text(result.body@, "error"@)),
{
    failure(context, result.status, result.server_error())
}

/// A bearer credential as the value of a header.
pub fn bearer_header(bearer: &str) -> (r: String)
    ensures
        r@ == "Bearer "@ + bearer@,
{
    text::join2("Bearer ", bearer)
}

} // verus!
