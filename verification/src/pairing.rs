//! Device pairing: the code that a user confirms, and the poll for the
//! approval.

use vstd::prelude::*;

use crate::http::HttpResult;
use crate::text;
use crate::textmap::TextMap;
use crate::web;

verus! {

/// The pause between two polls, in seconds.
pub const POLL_INTERVAL: u64 = 3;

/// How long a pairing is polled for, in seconds.
pub const POLL_TIMEOUT: u64 = 600;

/// How long a pairing is polled for, in nanoseconds.
pub const POLL_TIMEOUT_NANOS: u128 = 600_000_000_000;

// ---------------------------------------------------------------------------
// States and events
// ---------------------------------------------------------------------------

/// How far the pairing with a server has come.
#[derive(Debug, PartialEq)]
pub enum PairingState {
    /// No pairing has been started.
    Idle,
    /// The code is shown and polled for.
    Waiting { code: String, expires_at: String },
    /// The code was approved and the token is in the keychain.
    Approved { token_id: i64, token_name: String, device_name: String },
    /// The server says that the code expired.
    Expired,
    /// The server says that the code was used already.
    Used,
    /// Nobody confirmed the code in time.
    TimedOut,
    /// The user cancelled.
    Cancelled,
    /// Something went wrong.
    Failed { message: String },
}

/// What happens to a pairing.
#[derive(Debug, PartialEq)]
pub enum PairingEvent {
    /// A poll brought nothing new.
    PollTick,
    /// The server approved the code.
    Approved { token_id: i64, token_name: String, device_name: String },
    /// The time for the confirmation is over.
    Timeout,
    /// The server says that the code expired.
    Expired,
    /// The server says that the code was used already.
    Used,
    /// The user cancelled.
    Cancel,
    /// The token could not be kept.
    Failed(String),
}

impl Clone for PairingState {
    fn clone(&self) -> (r: Self)
        ensures
            r == *self,
    {
        match self {
            PairingState::Idle => PairingState::Idle,
            PairingState::Waiting { code, expires_at } => PairingState::Waiting {
                code: code.clone(),
                expires_at: expires_at.clone(),
            },
            PairingState::Approved { token_id, token_name, device_name } => PairingState::Approved {
                token_id: *token_id,
                token_name: token_name.clone(),
                device_name: device_name.clone(),
            },
            PairingState::Expired => PairingState::Expired,
            PairingState::Used => PairingState::Used,
            PairingState::TimedOut => PairingState::TimedOut,
            PairingState::Cancelled => PairingState::Cancelled,
            PairingState::Failed { message } => PairingState::Failed { message: message.clone() },
        }
    }
}

impl Clone for PairingEvent {
    fn clone(&self) -> (r: Self)
        ensures
            r == *self,
    {
        match self {
            PairingEvent::PollTick => PairingEvent::PollTick,
            PairingEvent::Approved { token_id, token_name, device_name } => PairingEvent::Approved {
                token_id: *token_id,
                token_name: token_name.clone(),
                device_name: device_name.clone(),
            },
            PairingEvent::Timeout => PairingEvent::Timeout,
            PairingEvent::Expired => PairingEvent::Expired,
            PairingEvent::Used => PairingEvent::Used,
            PairingEvent::Cancel => PairingEvent::Cancel,
            PairingEvent::Failed(message) => PairingEvent::Failed(message.clone()),
        }
    }
}

/// Whether nothing can happen to the pairing any more.
pub open spec fn terminal(state: PairingState) -> bool {
    !(state is Idle) && !(state is Waiting)
}

/// Where an event leads from a state: only a pairing that waits moves.
pub open spec fn stepped(state: PairingState, event: PairingEvent) -> PairingState {
    if state is Waiting {
        match event {
            PairingEvent::PollTick => state,
            PairingEvent::Approved { token_id, token_name, device_name } => PairingState::Approved {
                token_id,
                token_name,
                device_name,
            },
            PairingEvent::Timeout => PairingState::TimedOut,
            PairingEvent::Expired => PairingState::Expired,
            PairingEvent::Used => PairingState::Used,
            PairingEvent::Cancel => PairingState::Cancelled,
            PairingEvent::Failed(message) => PairingState::Failed { message },
        }
    } else {
        state
    }
}

/// The state that follows, and whether it is a last one.
pub fn apply_event(state: PairingState, event: PairingEvent) -> (r: (PairingState, bool))
    ensures
        r.0 == stepped(state, event),
        r.1 == terminal(r.0),
{
    match state {
        PairingState::Waiting { code, expires_at } => match event {
            PairingEvent::PollTick => (PairingState::Waiting { code, expires_at }, false),
            PairingEvent::Approved { token_id, token_name, device_name } => (
                PairingState::Approved { token_id, token_name, device_name },
                true,
            ),
            PairingEvent::Timeout => (PairingState::TimedOut, true),
            PairingEvent::Expired => (PairingState::Expired, true),
            PairingEvent::Used => (PairingState::Used, true),
            PairingEvent::Cancel => (PairingState::Cancelled, true),
            PairingEvent::Failed(message) => (PairingState::Failed { message }, true),
        },
        PairingState::Idle => (PairingState::Idle, false),
        other => (other, true),
    }
}

// ---------------------------------------------------------------------------
// Polling
// ---------------------------------------------------------------------------

/// What one poll brought.
#[derive(Debug, PartialEq)]
pub enum PollOutcome {
    Pending,
    Approved { token_id: i64, token_name: String, device_name: String, token: String },
    Expired,
    Used,
    /// The server is busy, fails or cannot be reached: polling goes on.
    Transient,
}

/// The model of [`PollOutcome`].
pub enum OutcomeModel {
    Pending,
    Approved {
        token_id: i64,
        token_name: Seq<char>,
        device_name: Seq<char>,
        token: Seq<char>,
    },
    Expired,
    Used,
    Transient,
}

impl View for PollOutcome {
    type V = OutcomeModel;

    open spec fn view(&self) -> OutcomeModel {
        match self {
            PollOutcome::Pending => OutcomeModel::Pending,
            PollOutcome::Approved { token_id, token_name, device_name, token } =>
                OutcomeModel::Approved {
                token_id: *token_id,
                token_name: token_name@,
                device_name: device_name@,
                token: token@,
            },
            PollOutcome::Expired => OutcomeModel::Expired,
            PollOutcome::Used => OutcomeModel::Used,
            PollOutcome::Transient => OutcomeModel::Transient,
        }
    }
}

/// What a poll brought: an answer of 200 says pending or approved, one of 410
/// says expired unless its message says used and not expired, and any other is
/// passed over.
pub open spec fn verdict(
    status: u16,
    word: Option<Seq<char>>,
    token_id: Option<i64>,
    token_name: Option<Seq<char>>,
    device_name: Option<Seq<char>>,
    token: Option<Seq<char>>,
    message: Option<Seq<char>>,
) -> OutcomeModel {
    if status == 200 {
        if word == Some("approved"@) {
            OutcomeModel::Approved {
                token_id: match token_id {
                    Some(id) => id,
                    None => 0,
                },
                token_name: text::or_empty(token_name),
                device_name: text::or_empty(device_name),
                token: text::or_empty(token),
            }
        } else {
            OutcomeModel::Pending
        }
    } else if status == 410 {
        if message matches Some(m) && !text::has(m, "expired"@) && text::has(m, "used"@) {
            OutcomeModel::Used
        } else {
            OutcomeModel::Expired
        }
    } else {
        OutcomeModel::Transient
    }
}

/// Judges the reply to a poll by the fields of its body.
pub fn poll_verdict(
    status: u16,
    word: Option<String>,
    token_id: Option<i64>,
    token_name: Option<String>,
    device_name: Option<String>,
    token: Option<String>,
    message: Option<String>,
) -> (r: PollOutcome)
    ensures
        r@ == verdict(
            status,
            text::opt_text(word),
            token_id,
            text::opt_text(token_name),
            text::opt_text(device_name),
            text::opt_text(token),
            text::opt_text(message),
        ),
{
    if status == 200 {
        if text::is_text(&word, "approved") {
            PollOutcome::Approved {
                token_id: match token_id {
                    Some(id) => id,
                    None => 0,
                },
                token_name: text::or_empty_of(token_name),
                device_name: text::or_empty_of(device_name),
                token: text::or_empty_of(token),
            }
        } else {
            PollOutcome::Pending
        }
    } else if status == 410 {
        match message {
            Some(m) => if text::contains(m.as_str(), "expired") {
                PollOutcome::Expired
            } else if text::contains(m.as_str(), "used") {
                PollOutcome::Used
            } else {
                PollOutcome::Expired
            },
            None => PollOutcome::Expired,
        }
    } else {
        PollOutcome::Transient
    }
}

/// What the reply to a poll brought; `None` stands for a request that failed.
pub open spec fn polled(reply: Option<&HttpResult>) -> OutcomeModel {
    match reply {
        Some(r) => verdict(
            r.status,
            web::json_text(r.body@, "status"@),
            web::json_i64(r.body@, "token_id"@),
            web::json_text(r.body@, "name"@),
            web::json_text(r.body@, "device_name"@),
            web::json_text(r.body@, "token"@),
            web::json_text(r.body@, "error"@),
        ),
        None => OutcomeModel::Transient,
    }
}

/// Reads the reply to one poll.
pub fn poll_once(reply: Option<&HttpResult>) -> (r: PollOutcome)
    ensures
        r@ == polled(reply),
{
    match reply {
        Some(result) => poll_verdict(
            result.status,
            web::text_at(&result.body, "status"),
            web::i64_at(&result.body, "token_id"),
            web::text_at(&result.body, "name"),
            web::text_at(&result.body, "device_name"),
            web::text_at(&result.body, "token"),
            result.server_error(),
        ),
        None => PollOutcome::Transient,
    }
}

/// The path of a poll for the code.
pub fn poll_path(code: &str) -> (r: String)
    ensures
        r@ == "/api/desktop/pair/status?code="@ + code@,
{
    text::join2("/api/desktop/pair/status?code=", code)
}

// ---------------------------------------------------------------------------
// Sessions
// ---------------------------------------------------------------------------

/// The pairing with one server: its state, when it was started (on a clock
/// that never goes back, in nanoseconds), and its number. A newer pairing has
/// another number, which makes the poll of an older one stop.
#[derive(Debug)]
pub struct PairingSession {
    pub state: PairingState,
    pub started: u128,
    pub generation: u64,
}

/// The pairings with all servers.
#[derive(Debug)]
pub struct PairingSessions {
    pub map: TextMap<PairingSession>,
    pub next_generation: u64,
}

/// What the poll loop learns.
#[derive(Debug)]
pub enum PollEvent {
    /// The pause is over, at the given time.
    Tick { now: u128 },
    /// The poll brought something.
    Polled(PollOutcome),
    /// The approved token was kept, or why it could not be.
    Persisted {
        token_id: i64,
        token_name: String,
        device_name: String,
        result: Result<(), String>,
    },
}

/// What the poll loop does next.
#[derive(Debug, PartialEq)]
pub enum PollAction {
    /// Pause, and then tick.
    Sleep,
    /// Poll for the code.
    Poll { code: String },
    /// Keep the token.
    Persist { token_id: i64, token_name: String, device_name: String, token: String },
    /// Stop.
    Stop,
}

/// The pairing with a server for which none was started.
pub open spec fn fresh_session() -> PairingSession {
    PairingSession { state: PairingState::Idle, started: 0, generation: 0 }
}

/// The name under which the pairing with a server is kept.
pub open spec fn session_key(url: Seq<char>) -> Seq<char> {
    text::trim_end(url, '/')
}

/// The pairing with the server at the URL.
pub open spec fn session_at(m: Map<Seq<char>, PairingSession>, url: Seq<char>) -> PairingSession {
    if m.contains_key(session_key(url)) {
        m[session_key(url)]
    } else {
        fresh_session()
    }
}

/// Whether the time for the confirmation is over.
pub open spec fn overdue(s: PairingSession, now: u128) -> bool {
    now - s.started >= POLL_TIMEOUT_NANOS
}

/// The pairing after an event of the poll with the given number: an event of
/// an older poll changes nothing.
pub open spec fn finished(s: PairingSession, generation: u64, event: PairingEvent) -> PairingSession {
    if s.generation == generation {
        PairingSession { state: stepped(s.state, event), ..s }
    } else {
        s
    }
}

/// What the poll with the given number does next, and what becomes of the
/// pairing: the poll stops when a newer pairing was started, when the pairing
/// does not wait any more, and when its time is over; what an approval brought
/// is kept before the pairing is approved.
pub open spec fn poll_next(s: PairingSession, generation: u64, event: PollEvent) -> (
    PairingSession,
    PollAction,
) {
    match event {
        PollEvent::Tick { now } => if s.generation != generation {
            (s, PollAction::Stop)
        } else {
            match s.state {
                PairingState::Waiting { code, .. } => if overdue(s, now) {
                    (finished(s, generation, PairingEvent::Timeout), PollAction::Stop)
                } else {
                    (s, PollAction::Poll { code })
                },
                _ => (s, PollAction::Stop),
            }
        },
        PollEvent::Polled(outcome) => match outcome {
            PollOutcome::Pending => (s, PollAction::Sleep),
            PollOutcome::Transient => (s, PollAction::Sleep),
            PollOutcome::Expired => (
                finished(s, generation, PairingEvent::Expired),
                PollAction::Stop,
            ),
            PollOutcome::Used => (finished(s, generation, PairingEvent::Used), PollAction::Stop),
            PollOutcome::Approved { token_id, token_name, device_name, token } => if s.generation
                == generation {
                (s, PollAction::Persist { token_id, token_name, device_name, token })
            } else {
                (s, PollAction::Stop)
            },
        },
        PollEvent::Persisted { token_id, token_name, device_name, result } => (
            finished(
                s,
                generation,
                match result {
                    Ok(()) => PairingEvent::Approved { token_id, token_name, device_name },
                    Err(message) => PairingEvent::Failed(message),
                },
            ),
            PollAction::Stop,
        ),
    }
}

impl PairingSession {
    /// Takes in an event of the poll with the given number.
    fn finish(self, generation: u64, event: PairingEvent) -> (r: Self)
        ensures
            r == finished(self, generation, event),
    {
        if self.generation != generation {
            return self;
        }
        PairingSession {
            state: apply_event(self.state, event).0,
            started: self.started,
            generation: self.generation,
        }
    }

    /// What the poll with the given number does next.
    fn poll(self, generation: u64, event: PollEvent) -> (r: (Self, PollAction))
        ensures
            r == poll_next(self, generation, event),
    {
        match event {
            PollEvent::Tick { now } => {
                if self.generation != generation {
                    return (self, PollAction::Stop);
                }
                let code = match &self.state {
                    PairingState::Waiting { code, .. } => code.clone(),
                    _ => {
                        return (self, PollAction::Stop);
                    },
                };
                if now >= self.started && now - self.started >= POLL_TIMEOUT_NANOS {
                    return (self.finish(generation, PairingEvent::Timeout), PollAction::Stop);
                }
                (self, PollAction::Poll { code })
            },
            PollEvent::Polled(outcome) => match outcome {
                PollOutcome::Pending => (self, PollAction::Sleep),
                PollOutcome::Transient => (self, PollAction::Sleep),
                PollOutcome::Expired => (
                    self.finish(generation, PairingEvent::Expired),
                    PollAction::Stop,
                ),
                PollOutcome::Used => (self.finish(generation, PairingEvent::Used), PollAction::Stop),
                PollOutcome::Approved { token_id, token_name, device_name, token } => {
                    if self.generation == generation {
                        (self, PollAction::Persist { token_id, token_name, device_name, token })
                    } else {
                        (self, PollAction::Stop)
                    }
                },
            },
            PollEvent::Persisted { token_id, token_name, device_name, result } => {
                let last = match result {
                    Ok(()) => PairingEvent::Approved { token_id, token_name, device_name },
                    Err(message) => PairingEvent::Failed(message),
                };
                (self.finish(generation, last), PollAction::Stop)
            },
        }
    }
}

impl PairingSessions {
    /// No pairing with any server.
    pub fn new() -> (r: Self)
        ensures
            r.map@ == Map::<Seq<char>, PairingSession>::empty(),
            r.next_generation == 1,
    {
        PairingSessions { map: TextMap::new(), next_generation: 1 }
    }

    /// A copy of the pairing with a server.
    pub fn session(&self, instance_url: &str) -> (r: PairingSession)
        ensures
            r == session_at(self.map@, instance_url@),
    {
        match self.map.get(text::trim_end_of(instance_url, '/')) {
            Some(s) => PairingSession {
                state: s.state.clone(),
                started: s.started,
                generation: s.generation,
            },
            None => PairingSession { state: PairingState::Idle, started: 0, generation: 0 },
        }
    }

    /// Replaces the pairing with a server.
    fn set(&mut self, instance_url: &str, session: PairingSession)
        ensures
            final(self).map@ == old(self).map@.insert(session_key(instance_url@), session),
            final(self).next_generation == old(self).next_generation,
    {
        self.map.insert(text::trim_end_of(instance_url, '/'), session);
    }

    /// The number of the next pairing.
    pub fn next_generation(&mut self) -> (r: u64)
        ensures
            r == old(self).next_generation,
            final(self).next_generation == (if r == u64::MAX {
                0
            } else {
                r + 1
            }),
            final(self).map == old(self).map,
    {
        let r: u64 = self.next_generation;
        self.next_generation = if r == u64::MAX {
            0
        } else {
            r + 1
        };
        r
    }

    /// The code that is waited for.
    pub fn session_code(&self, instance_url: &str) -> (r: Option<String>)
        ensures
            r == (match session_at(self.map@, instance_url@).state {
                PairingState::Waiting { code, .. } => Some(code),
                _ => None,
            }),
    {
        match self.session(instance_url).state {
            PairingState::Waiting { code, .. } => Some(code),
            _ => None,
        }
    }

    /// Takes in an event of the poll with the given number.
    pub fn finish_session(&mut self, instance_url: &str, generation: u64, event: PairingEvent)
        ensures
            final(self).map@ == old(self).map@.insert(
                session_key(instance_url@),
                finished(session_at(old(self).map@, instance_url@), generation, event),
            ),
            final(self).next_generation == old(self).next_generation,
    {
        let s = self.session(instance_url);
        self.set(instance_url, s.finish(generation, event));
    }

    /// What the poll with the given number does next.
    pub fn poll_step(&mut self, instance_url: &str, generation: u64, event: PollEvent) -> (r:
        PollAction)
        ensures
            r == poll_next(session_at(old(self).map@, instance_url@), generation, event).1,
            final(self).map@ == old(self).map@.insert(
                session_key(instance_url@),
                poll_next(session_at(old(self).map@, instance_url@), generation, event).0,
            ),
            final(self).next_generation == old(self).next_generation,
    {
        let (s, action) = self.session(instance_url).poll(generation, event);
        self.set(instance_url, s);
        action
    }

    /// Starts to wait for a code, in place of any earlier pairing with the
    /// server, and gives the number of the pairing.
    pub fn start(&mut self, instance_url: &str, code: String, expires_at: String, now: u128) -> (r:
        u64)
        ensures
            r == old(self).next_generation,
            final(self).next_generation == (if r == u64::MAX {
                0
            } else {
                r + 1
            }),
            final(self).map@ == old(self).map@.insert(
                session_key(instance_url@),
                (PairingSession {
                    state: PairingState::Waiting { code, expires_at },
                    started: now,
                    generation: r,
                }),
            ),
    {
        let generation: u64 = self.next_generation();
        self.set(
            instance_url,
            PairingSession {
                state: PairingState::Waiting { code, expires_at },
                started: now,
                generation,
            },
        );
        generation
    }

    /// The state of the pairing with a server.
    pub fn pairing_status(&self, instance_url: &str) -> (r: PairingState)
        ensures
            r == session_at(self.map@, instance_url@).state,
    {
        self.session(instance_url).state
    }

    /// Cancels the pairing with a server. The poll sees it at its next tick.
    pub fn pairing_cancel(&mut self, instance_url: &str)
        ensures
            final(self).map@ == old(self).map@.insert(
                session_key(instance_url@),
                (PairingSession {
                    state: stepped(
                        session_at(old(self).map@, instance_url@).state,
                        PairingEvent::Cancel,
                    ),
                    ..session_at(old(self).map@, instance_url@)
                }),
            ),
            final(self).next_generation == old(self).next_generation,
    {
        let s = self.session(instance_url);
        let generation: u64 = s.generation;
        self.set(instance_url, s.finish(generation, PairingEvent::Cancel));
    }
}

} // verus!
