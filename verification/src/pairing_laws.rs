//! What holds of pairings, of their polls, and of the tokens that come of
//! them.

use vstd::prelude::*;

use crate::http::HttpResult;
use crate::pairing;
use crate::pairing::{
    OutcomeModel, PairingEvent, PairingSession, PairingState, PollAction, PollEvent, PollOutcome,
};
use crate::pairing_commands;
use crate::seqs;
use crate::text;
use crate::text_laws;
use crate::tokens;
use crate::tokens::{RegisteredToken, TokenModel};
use crate::web;

verus! {

// ---------------------------------------------------------------------------
// States
// ---------------------------------------------------------------------------

/// A last state ignores every event.
pub proof fn law_last_states_stay(state: PairingState, event: PairingEvent)
    requires
        pairing::terminal(state),
    ensures
        pairing::stepped(state, event) == state,
{
}

/// Without a pairing no event does anything.
pub proof fn law_idle_stays(event: PairingEvent)
    ensures
        pairing::stepped(PairingState::Idle, event) == PairingState::Idle,
{
}

/// A pairing that waits goes on waiting exactly while polls bring nothing new;
/// every other event ends it.
pub proof fn law_waiting_ends_with_any_news(state: PairingState, event: PairingEvent)
    requires
        state is Waiting,
    ensures
        event is PollTick ==> pairing::stepped(state, event) == state,
        !(event is PollTick) ==> pairing::terminal(pairing::stepped(state, event)),
{
}

/// A pairing that waits ends as the event says: approved with the token that
/// the event names, timed out, expired, used, cancelled, or failed with the
/// message of the event.
pub proof fn law_events_say_how_it_ends(state: PairingState, event: PairingEvent)
    requires
        state is Waiting,
    ensures
        event matches PairingEvent::Approved { token_id, token_name, device_name }
            ==> pairing::stepped(state, event) == (PairingState::Approved {
            token_id,
            token_name,
            device_name,
        }),
        event is Timeout ==> pairing::stepped(state, event) is TimedOut,
        event is Expired ==> pairing::stepped(state, event) is Expired,
        event is Used ==> pairing::stepped(state, event) is Used,
        event is Cancel ==> pairing::stepped(state, event) is Cancelled,
        event matches PairingEvent::Failed(message) ==> pairing::stepped(state, event) == (
        PairingState::Failed { message }),
{
}

/// The last states are all but the one without a pairing and the one that
/// waits.
pub proof fn law_six_states_are_last(state: PairingState)
    ensures
        pairing::terminal(state) <==> state is Approved || state is Expired || state is Used
            || state is TimedOut || state is Cancelled || state is Failed,
{
}

// ---------------------------------------------------------------------------
// Polls
// ---------------------------------------------------------------------------

/// A code that the server calls expired or used ends the pairing that waits for
/// it as expired or used, and its poll stops.
pub proof fn law_server_ends_the_pairing(s: PairingSession)
    requires
        s.state is Waiting,
    ensures
        pairing::poll_next(s, s.generation, PollEvent::Polled(PollOutcome::Expired)) == (
            PairingSession {
                state: PairingState::Expired,
                started: s.started,
                generation: s.generation,
            },
            PollAction::Stop,
        ),
        pairing::poll_next(s, s.generation, PollEvent::Polled(PollOutcome::Used)) == (
            PairingSession {
                state: PairingState::Used,
                started: s.started,
                generation: s.generation,
            },
            PollAction::Stop,
        ),
{
}

/// The poll of a pairing that waits stops exactly where it ends the pairing:
/// no pairing is left waiting without a poll, and none is ended while its poll
/// goes on.
pub proof fn law_no_pairing_waits_without_a_poll(s: PairingSession, event: PollEvent)
    requires
        s.state is Waiting,
    ensures
        ({
            let (after, action) = pairing::poll_next(s, s.generation, event);
            &&& action is Stop <==> !(after.state is Waiting)
            &&& action is Stop ==> !(after.state is Idle)
            &&& !(action is Stop) ==> after == s
        }),
{
}

/// A poll that brought nothing new pauses and leaves the pairing as it is.
pub proof fn law_no_news_changes_nothing(s: PairingSession, generation: u64)
    ensures
        pairing::poll_next(s, generation, PollEvent::Polled(PollOutcome::Pending)) == (
            s,
            PollAction::Sleep,
        ),
        pairing::poll_next(s, generation, PollEvent::Polled(PollOutcome::Transient)) == (
            s,
            PollAction::Sleep,
        ),
{
}

/// A pairing that waits polls for its own code for ten minutes from its start,
/// and is timed out from then on.
pub proof fn law_code_is_polled_for_ten_minutes(
    s: PairingSession,
    code: String,
    expires_at: String,
    now: u128,
)
    requires
        s.state == (PairingState::Waiting { code, expires_at }),
    ensures
        now < s.started + 600_000_000_000 ==> pairing::poll_next(
            s,
            s.generation,
            PollEvent::Tick { now },
        ) == (s, PollAction::Poll { code }),
        now >= s.started + 600_000_000_000 ==> pairing::poll_next(
            s,
            s.generation,
            PollEvent::Tick { now },
        ) == (
            PairingSession {
                state: PairingState::TimedOut,
                started: s.started,
                generation: s.generation,
            },
            PollAction::Stop,
        ),
{
}

/// The time for a confirmation is the same in seconds and in nanoseconds.
pub proof fn law_time_is_the_same_in_both_units(s: PairingSession, seconds: nat)
    requires
        s.started + seconds * 1_000_000_000 <= u128::MAX,
    ensures
        pairing::overdue(s, (s.started + seconds * 1_000_000_000) as u128) <==> seconds
            >= pairing::POLL_TIMEOUT,
{
}

/// What an approval brought is handed on as it came, to be kept; the pairing
/// still waits meanwhile.
pub proof fn law_approval_is_handed_on(
    s: PairingSession,
    token_id: i64,
    token_name: String,
    device_name: String,
    token: String,
)
    ensures
        pairing::poll_next(
            s,
            s.generation,
            PollEvent::Polled(PollOutcome::Approved { token_id, token_name, device_name, token }),
        ) == (s, PollAction::Persist { token_id, token_name, device_name, token }),
{
}

/// A pairing whose token was kept is approved with that token; one whose token
/// could not be kept has failed with the reason. The poll is over either way.
pub proof fn law_kept_token_approves(
    s: PairingSession,
    token_id: i64,
    token_name: String,
    device_name: String,
    result: Result<(), String>,
)
    requires
        s.state is Waiting,
    ensures
        pairing::poll_next(
            s,
            s.generation,
            PollEvent::Persisted { token_id, token_name, device_name, result },
        ) == (
            PairingSession {
                state: match result {
                    Ok(()) => PairingState::Approved { token_id, token_name, device_name },
                    Err(message) => PairingState::Failed { message },
                },
                started: s.started,
                generation: s.generation,
            },
            PollAction::Stop,
        ),
{
}

/// The state that is shown of a pairing is the one that its poll came to: a
/// waiting pairing whose code the server calls expired is shown as expired, and
/// likewise for a used one.
pub proof fn law_shown_state_is_that_of_the_poll(
    m: Map<Seq<char>, PairingSession>,
    url: Seq<char>,
    outcome: PollOutcome,
)
    requires
        pairing::session_at(m, url).state is Waiting,
    ensures
        ({
            let s = pairing::session_at(m, url);
            let after = m.insert(
                pairing::session_key(url),
                pairing::poll_next(s, s.generation, PollEvent::Polled(outcome)).0,
            );
            &&& outcome is Expired ==> pairing::session_at(after, url).state is Expired
            &&& outcome is Used ==> pairing::session_at(after, url).state is Used
            &&& !(outcome is Expired) && !(outcome is Used) ==> pairing::session_at(after, url) == s
        }),
{
}

/// A pairing that was just started waits for its code and polls for it; once it
/// is cancelled its poll stops and it stays cancelled.
pub proof fn law_started_then_cancelled(
    m: Map<Seq<char>, PairingSession>,
    url: Seq<char>,
    code: String,
    expires_at: String,
    started: u128,
    generation: u64,
    now: u128,
)
    requires
        started <= now < started + 600_000_000_000,
    ensures
        ({
            let s = PairingSession {
                state: PairingState::Waiting { code, expires_at },
                started,
                generation,
            };
            let running = m.insert(pairing::session_key(url), s);
            let cancelled = running.insert(
                pairing::session_key(url),
                pairing::finished(
                    pairing::session_at(running, url),
                    generation,
                    PairingEvent::Cancel,
                ),
            );
            let tick = PollEvent::Tick { now };
            &&& pairing::poll_next(pairing::session_at(running, url), generation, tick) == (
                s,
                PollAction::Poll { code },
            )
            &&& pairing::session_at(cancelled, url).state is Cancelled
            &&& pairing::poll_next(pairing::session_at(cancelled, url), generation, tick) == (
                pairing::session_at(cancelled, url),
                PollAction::Stop,
            )
        }),
{
}

/// An event of a poll leads its own pairing on, and no other.
pub proof fn law_event_leads_its_own_pairing_on(
    s: PairingSession,
    generation: u64,
    event: PairingEvent,
)
    ensures
        s.generation != generation ==> pairing::finished(s, generation, event) == s,
        s.generation == generation ==> pairing::finished(s, generation, event).state
            == pairing::stepped(s.state, event),
        pairing::finished(s, generation, event).started == s.started,
        pairing::finished(s, generation, event).generation == s.generation,
{
}

/// A URL without a slash at its end is its own key: servers at two such URLs
/// have pairings of their own, and a server without one has none.
pub proof fn law_each_server_has_its_own_pairing(
    m: Map<Seq<char>, PairingSession>,
    a: Seq<char>,
    b: Seq<char>,
    s: PairingSession,
)
    requires
        a.len() > 0 ==> a.last() != '/',
        b.len() > 0 ==> b.last() != '/',
        a != b,
    ensures
        pairing::session_key(a) == a,
        pairing::session_at(m.insert(pairing::session_key(a), s), b) == pairing::session_at(m, b),
        !m.contains_key(b) ==> pairing::session_at(m, b).state is Idle,
{
}

/// A reply of 200 approves exactly where it says so, with the token that it
/// tells; until then the code is pending.
pub proof fn law_approval_is_read_as_told(
    status: u16,
    word: Option<Seq<char>>,
    id: Option<i64>,
    name: Option<Seq<char>>,
    device: Option<Seq<char>>,
    token: Option<Seq<char>>,
    message: Option<Seq<char>>,
)
    ensures
        ({
            let r = pairing::verdict(status, word, id, name, device, token, message);
            &&& r is Approved <==> status == 200 && word == Some("approved"@)
            &&& r is Pending <==> status == 200 && word != Some("approved"@)
            &&& r matches OutcomeModel::Approved {
                token_id,
                token_name,
                device_name,
                token: secret,
            } ==> {
                &&& id matches Some(i) ==> token_id == i
                &&& name matches Some(n) ==> token_name == n
                &&& device matches Some(d) ==> device_name == d
                &&& token matches Some(t) ==> secret == t
                &&& id is None ==> token_id == 0
                &&& name is None ==> token_name.len() == 0
                &&& device is None ==> device_name.len() == 0
                &&& token is None ==> secret.len() == 0
            }
        }),
{
}

/// A reply of 410 says that the code is gone: used where its message speaks of
/// that and not of expiry, expired otherwise. Any other reply, and none, leaves
/// the question open.
pub proof fn law_gone_code_is_used_or_expired(
    status: u16,
    word: Option<Seq<char>>,
    id: Option<i64>,
    name: Option<Seq<char>>,
    device: Option<Seq<char>>,
    token: Option<Seq<char>>,
    message: Option<Seq<char>>,
)
    ensures
        ({
            let r = pairing::verdict(status, word, id, name, device, token, message);
            &&& r is Used || r is Expired <==> status == 410
            &&& r is Transient <==> status != 410 && status != 200
            &&& status == 410 && message is None ==> r is Expired
            &&& status == 410 && message is Some ==> (r is Used <==> text::has(
                message->0,
                "used"@,
            ) && !text::has(message->0, "expired"@))
        }),
        pairing::polled(None) is Transient,
{
}

/// What a reply to a poll says is read from the fields of its body.
pub proof fn law_poll_reads_the_reply(r: HttpResult)
    ensures
        pairing::polled(Some(&r)) == pairing::verdict(
            r.status,
            web::json_text(r.body@, "status"@),
            web::json_i64(r.body@, "token_id"@),
            web::json_text(r.body@, "name"@),
            web::json_text(r.body@, "device_name"@),
            web::json_text(r.body@, "token"@),
            web::json_text(r.body@, "error"@),
        ),
{
}

/// The poll of a pairing that a newer one replaced changes nothing, keeps no
/// token and asks the server nothing; it stops at its next tick.
pub proof fn law_replaced_poll_does_nothing(s: PairingSession, generation: u64, event: PollEvent)
    requires
        s.generation != generation,
    ensures
        pairing::poll_next(s, generation, event).0 == s,
        pairing::poll_next(s, generation, event).1 is Stop || pairing::poll_next(
            s,
            generation,
            event,
        ).1 is Sleep,
        event is Tick ==> pairing::poll_next(s, generation, event).1 is Stop,
{
}

/// A pairing is approved only after its token was kept.
pub proof fn law_approved_after_keeping(s: PairingSession, generation: u64, event: PollEvent)
    requires
        !(s.state is Approved),
        pairing::poll_next(s, generation, event).0.state is Approved,
    ensures
        event matches PollEvent::Persisted { result, .. } && result is Ok,
        s.state is Waiting,
        s.generation == generation,
{
}

/// A pairing that nobody confirmed in time ends at the next tick.
pub proof fn law_time_runs_out(s: PairingSession, now: u128)
    requires
        s.state is Waiting,
        pairing::overdue(s, now),
    ensures
        pairing::poll_next(s, s.generation, PollEvent::Tick { now }) == (
            PairingSession { state: PairingState::TimedOut, ..s },
            PollAction::Stop,
        ),
{
}

/// The poll of a pairing that was cancelled, or ended otherwise, stops at the
/// next tick and leaves the state alone.
pub proof fn law_ended_poll_stops(s: PairingSession, generation: u64, now: u128)
    requires
        !(s.state is Waiting),
    ensures
        pairing::poll_next(s, generation, PollEvent::Tick { now }) == (s, PollAction::Stop),
{
}

/// Every pairing has a smaller number than the next one.
pub open spec fn numbered(m: Map<Seq<char>, PairingSession>, next: u64) -> bool {
    forall|k: Seq<char>| #[trigger] m.contains_key(k) ==> m[k].generation < next
}

/// A new pairing has a number that no earlier one has, as long as the numbers
/// last, so the poll of the one that it replaces does nothing any more.
pub proof fn law_new_pairing_has_a_new_number(
    m: Map<Seq<char>, PairingSession>,
    next: u64,
    url: Seq<char>,
    s: PairingSession,
)
    requires
        numbered(m, next),
        0 < next < u64::MAX,
        s.generation == next,
    ensures
        numbered(m.insert(pairing::session_key(url), s), (next + 1) as u64),
        pairing::session_at(m, url).generation != s.generation,
{
}

/// What a poll makes of a pairing keeps its number.
pub proof fn law_polls_keep_the_number(s: PairingSession, generation: u64, event: PollEvent)
    ensures
        pairing::poll_next(s, generation, event).0.generation == s.generation,
        pairing::poll_next(s, generation, event).0.started == s.started,
{
}

/// The pairing with a server does not depend on slashes at the end of its URL.
pub proof fn law_session_ignores_slashes(m: Map<Seq<char>, PairingSession>, url: Seq<char>)
    ensures
        pairing::session_at(m, url.push('/')) == pairing::session_at(m, url),
{
    assert(url.push('/').drop_last() =~= url);
}

/// What happens to the pairing with one server leaves the others alone, and is
/// what is read back.
pub proof fn law_sessions_are_separate(
    m: Map<Seq<char>, PairingSession>,
    url: Seq<char>,
    s: PairingSession,
    other: Seq<char>,
)
    ensures
        pairing::session_at(m.insert(pairing::session_key(url), s), url) == s,
        pairing::session_key(other) != pairing::session_key(url) ==> pairing::session_at(
            m.insert(pairing::session_key(url), s),
            other,
        ) == pairing::session_at(m, other),
{
}

// ---------------------------------------------------------------------------
// Tokens
// ---------------------------------------------------------------------------

/// No two tokens of a server share an id or a name.
pub open spec fn separate(s: Seq<TokenModel>) -> bool {
    forall|i: int, j: int|
        0 <= i < j < s.len() ==> !tokens::replaced_by(#[trigger] s[j])(#[trigger] s[i])
}

/// What a filter keeps of separate tokens is separate.
proof fn lemma_filter_separate(s: Seq<TokenModel>, p: spec_fn(TokenModel) -> bool)
    requires
        separate(s),
    ensures
        separate(s.filter(p)),
    decreases s.len(),
{
    reveal(Seq::filter);
    if s.len() > 0 {
        let t = s.drop_last();
        assert forall|i: int, j: int| 0 <= i < j < t.len() implies !tokens::replaced_by(
            #[trigger] t[j],
        )(#[trigger] t[i]) by {
            assert(!tokens::replaced_by(s[j])(s[i]));
        }
        lemma_filter_separate(t, p);
        seqs::lemma_filter_from(t, p);
        let f = t.filter(p);
        let g = s.filter(p);
        assert forall|i: int, j: int| 0 <= i < j < g.len() implies !tokens::replaced_by(
            #[trigger] g[j],
        )(#[trigger] g[i]) by {
            assert(g[i] == f[i]);
            if j < f.len() {
                assert(g[j] == f[j]);
            } else {
                assert(t.contains(f[i]));
                let k = choose|k: int| 0 <= k < t.len() && t[k] == f[i];
                assert(!tokens::replaced_by(s[s.len() - 1])(s[k]));
            }
        }
    }
}

/// Registering a token keeps the tokens of each server separate: a pairing
/// under the same name, or with the same id, replaces the one before.
pub proof fn law_register_keeps_tokens_separate(s: Seq<TokenModel>, new: TokenModel)
    requires
        separate(s),
    ensures
        separate(tokens::registered(s, new)),
{
    lemma_filter_separate(s, tokens::beside(new));
    seqs::lemma_filter_from(s, tokens::beside(new));
    let f = s.filter(tokens::beside(new));
    let g = tokens::registered(s, new);
    assert forall|i: int, j: int| 0 <= i < j < g.len() implies !tokens::replaced_by(
        #[trigger] g[j],
    )(#[trigger] g[i]) by {
        assert(g[i] == f[i]);
        if j < f.len() {
            assert(g[j] == f[j]);
        } else {
            assert(tokens::beside(new)(f[i]));
        }
    }
}

/// Removing a token keeps the tokens separate.
pub proof fn law_remove_keeps_tokens_separate(s: Seq<TokenModel>, url: Seq<char>, id: i64)
    requires
        separate(s),
    ensures
        separate(s.filter(tokens::other_than(url, id))),
{
    lemma_filter_separate(s, tokens::other_than(url, id));
}

/// A registered token is there.
pub proof fn law_registered_is_there(s: Seq<TokenModel>, new: TokenModel)
    ensures
        tokens::has_token(tokens::registered(s, new), new.instance_url, new.token_id),
{
    let g = tokens::registered(s, new);
    assert(g[g.len() - 1] == new);
}

/// A removed token is gone.
pub proof fn law_removed_token_is_gone(s: Seq<TokenModel>, url: Seq<char>, id: i64)
    ensures
        !tokens::has_token(s.filter(tokens::other_than(url, id)), url, id),
{
    seqs::lemma_filter_from(s, tokens::other_than(url, id));
}

/// Registering a token leaves those of other servers alone.
pub proof fn law_register_leaves_other_servers_alone(
    s: Seq<TokenModel>,
    new: TokenModel,
    url: Seq<char>,
)
    requires
        url != new.instance_url,
    ensures
        tokens::registered(s, new).filter(tokens::of_instance(url)) == s.filter(
            tokens::of_instance(url),
        ),
{
    let kept = s.filter(tokens::beside(new));
    seqs::lemma_filter_push(kept, new, tokens::of_instance(url));
    seqs::lemma_filter_filter(s, tokens::beside(new), tokens::of_instance(url));
}

/// The newest token of a server is one token.
pub proof fn law_latest_is_unique(s: Seq<TokenModel>, url: Seq<char>, k: int, l: int)
    requires
        tokens::is_latest(s, url, k),
        tokens::is_latest(s, url, l),
    ensures
        k == l,
{
}

/// A token that is registered when no token of its server is newer is the
/// newest one.
pub proof fn law_registered_is_latest(s: Seq<TokenModel>, new: TokenModel)
    requires
        forall|j: int|
            0 <= j < s.len() && (#[trigger] s[j]).instance_url == new.instance_url
                ==> s[j].created_at <= new.created_at,
    ensures
        tokens::is_latest(
            tokens::registered(s, new),
            new.instance_url,
            tokens::registered(s, new).len() - 1,
        ),
{
    seqs::lemma_filter_from(s, tokens::beside(new));
    let f = s.filter(tokens::beside(new));
    let g = tokens::registered(s, new);
    assert forall|j: int|
        0 <= j < g.len() && (#[trigger] g[j]).instance_url == new.instance_url implies g[j].created_at
        <= new.created_at by {
        if j < f.len() {
            assert(g[j] == f[j]);
            assert(s.contains(f[j]));
        }
    }
}

/// Whether two tokens cannot stand side by side: they are of one server and
/// share their id or their name.
pub open spec fn clash(a: TokenModel, b: TokenModel) -> bool {
    a.instance_url == b.instance_url && (a.token_id == b.token_id || a.token_name == b.token_name)
}

/// Registering goes token by token: one more token before it stays exactly
/// where it does not clash with the new one, and in its place; the new one
/// comes last, as it is.
pub proof fn law_register_replaces_what_clashes(
    s: Seq<TokenModel>,
    t: TokenModel,
    new: TokenModel,
)
    ensures
        tokens::registered(Seq::empty(), new) == seq![new],
        clash(t, new) ==> tokens::registered(s.push(t), new) == tokens::registered(s, new),
        !clash(t, new) ==> tokens::registered(s.push(t), new) == tokens::registered(
            s,
            new,
        ).drop_last().push(t).push(new),
{
    seqs::lemma_filter_push(s, t, tokens::beside(new));
    assert(tokens::registered(s, new).drop_last() =~= s.filter(tokens::beside(new)));
    reveal(Seq::filter);
    assert(tokens::registered(Seq::empty(), new) =~= seq![new]);
}

/// Removing goes token by token: one more token stays exactly where it is of
/// another server or has another id, and in its place.
pub proof fn law_remove_takes_one_token(s: Seq<TokenModel>, t: TokenModel, url: Seq<char>, id: i64)
    ensures
        Seq::<TokenModel>::empty().filter(tokens::other_than(url, id)).len() == 0,
        t.instance_url == url && t.token_id == id ==> s.push(t).filter(tokens::other_than(url, id))
            == s.filter(tokens::other_than(url, id)),
        t.instance_url != url || t.token_id != id ==> s.push(t).filter(tokens::other_than(url, id))
            == s.filter(tokens::other_than(url, id)).push(t),
{
    seqs::lemma_filter_push(s, t, tokens::other_than(url, id));
    seqs::lemma_filter_from(Seq::<TokenModel>::empty(), tokens::other_than(url, id));
}

/// The tokens of a server are those with its URL, in their order.
pub proof fn law_tokens_are_listed_by_server(s: Seq<TokenModel>, t: TokenModel, url: Seq<char>)
    ensures
        Seq::<TokenModel>::empty().filter(tokens::of_instance(url)).len() == 0,
        s.push(t).filter(tokens::of_instance(url)) == (if t.instance_url == url {
            s.filter(tokens::of_instance(url)).push(t)
        } else {
            s.filter(tokens::of_instance(url))
        }),
{
    seqs::lemma_filter_push(s, t, tokens::of_instance(url));
    seqs::lemma_filter_from(Seq::<TokenModel>::empty(), tokens::of_instance(url));
}

/// The token that an approval brings is the one that was approved, of the
/// server without the slashes at its end, at the time of the approval.
pub proof fn law_approved_token_is_registered_as_told(
    s: Seq<TokenModel>,
    url: Seq<char>,
    id: i64,
    name: Seq<char>,
    device: Seq<char>,
    now: u64,
)
    requires
        url.len() > 0 ==> url.last() != '/',
    ensures
        tokens::registered(s, tokens::approved_token(url, id, name, device, now)).last() == (
        TokenModel {
            instance_url: url,
            token_id: id,
            token_name: name,
            device_name: device,
            created_at: now,
        }),
        tokens::approved_token(url.push('/'), id, name, device, now) == tokens::approved_token(
            url,
            id,
            name,
            device,
            now,
        ),
{
    assert(url.push('/').drop_last() =~= url);
}

/// An approval takes the secret of a token out of the keychain exactly where
/// the token gives way and has another id.
pub proof fn law_only_replaced_secrets_go(
    s: Seq<TokenModel>,
    url: Seq<char>,
    new: TokenModel,
    id: i64,
)
    ensures
        tokens::dropped_users(
            url,
            tokens::ids(s.filter(tokens::replaced_by(new))),
            new.token_id,
        ).contains(tokens::keyring_name(url, id)) <==> id != new.token_id && exists|k: int|
            0 <= k < s.len() && clash(#[trigger] s[k], new) && s[k].token_id == id,
{
    let gone = s.filter(tokens::replaced_by(new));
    let removed = tokens::ids(gone);
    let kept = removed.filter(tokens::id_other_than(new.token_id));
    let dropped = tokens::dropped_users(url, removed, new.token_id);
    seqs::lemma_filter_from(s, tokens::replaced_by(new));
    seqs::lemma_filter_from(removed, tokens::id_other_than(new.token_id));
    if dropped.contains(tokens::keyring_name(url, id)) {
        let j = choose|j: int| 0 <= j < dropped.len() && dropped[j] == tokens::keyring_name(url, id);
        law_keyring_names_differ(url, kept[j], url, id);
        assert(removed.contains(kept[j]));
        let i = choose|i: int| 0 <= i < removed.len() && removed[i] == kept[j];
        assert(s.contains(gone[i]));
        let k = choose|k: int| 0 <= k < s.len() && s[k] == gone[i];
        assert(clash(s[k], new) && s[k].token_id == id);
    }
    if id != new.token_id && exists|k: int|
        0 <= k < s.len() && clash(#[trigger] s[k], new) && s[k].token_id == id {
        let k = choose|k: int|
            0 <= k < s.len() && clash(#[trigger] s[k], new) && s[k].token_id == id;
        seqs::lemma_filter_keeps(s, tokens::replaced_by(new), k);
        let i = choose|i: int| 0 <= i < gone.len() && gone[i] == s[k];
        assert(removed[i] == id);
        law_replaced_secrets_go(url, removed, new.token_id, i);
    }
}

/// The newest token of a server is one of its own: none of its tokens was made
/// later, and of those made at the same time none was registered later.
pub proof fn law_latest_is_the_newest(s: Seq<TokenModel>, url: Seq<char>, k: int, j: int)
    requires
        tokens::is_latest(s, url, k),
        0 <= j < s.len(),
        s[j].instance_url == url,
    ensures
        0 <= k < s.len(),
        s[k].instance_url == url,
        s[j].created_at <= s[k].created_at,
        s[j].created_at == s[k].created_at ==> j <= k,
{
}

/// A server has a registered token with an id exactly where one stands in the
/// registry.
pub proof fn law_token_is_registered(s: Seq<TokenModel>, t: TokenModel, url: Seq<char>, id: i64)
    ensures
        !tokens::has_token(Seq::empty(), url, id),
        tokens::has_token(s.push(t), url, id) <==> tokens::has_token(s, url, id) || (t.instance_url
            == url && t.token_id == id),
{
    let g = s.push(t);
    if tokens::has_token(s, url, id) {
        let k = choose|k: int|
            0 <= k < s.len() && (#[trigger] s[k]).instance_url == url && s[k].token_id == id;
        assert(g[k].instance_url == url);
    }
    if t.instance_url == url && t.token_id == id {
        assert(g[s.len() as int].instance_url == url);
    }
    if tokens::has_token(g, url, id) {
        let k = choose|k: int|
            0 <= k < g.len() && (#[trigger] g[k]).instance_url == url && g[k].token_id == id;
        if k < s.len() {
            assert(s[k].instance_url == url);
        }
    }
}

/// What the keychain said of a token stands at the position of the token; where
/// nothing stands there, no secret was found.
pub proof fn law_keychain_answers_stand_with_their_tokens(
    secrets: Seq<Result<Option<String>, String>>,
    i: int,
)
    ensures
        0 <= i < secrets.len() ==> pairing_commands::said(secrets, i) == secrets[i],
        i >= secrets.len() ==> !pairing_commands::found(pairing_commands::said(secrets, i)),
{
}

/// A token is shown as it is registered, and as kept exactly where its secret
/// was found.
pub proof fn law_token_is_shown_as_registered(
    v: pairing_commands::TokenView,
    token: RegisteredToken,
    secret: Result<Option<String>, String>,
)
    requires
        pairing_commands::views(v, token, secret),
    ensures
        v.instance_url == token.instance_url,
        v.token_id == token.token_id,
        v.token_name == token.token_name,
        v.device_name == token.device_name,
        v.created_at == token.created_at,
        v.in_keychain <==> secret is Ok && secret->Ok_0 is Some,
{
}

// ---------------------------------------------------------------------------
// Keychain entries
// ---------------------------------------------------------------------------

/// The name of a keychain entry is the URL of the server, what marks a token,
/// and the id.
pub proof fn law_keyring_name_has_server_and_id(url: Seq<char>, id: i64)
    requires
        url.len() > 0 ==> url.last() != '/',
    ensures
        tokens::keyring_name(url, id) == url + "/desktop-token/"@ + text::decimal_int(id as int),
{
}

/// The name of a keychain entry does not depend on slashes at the end of the
/// URL.
pub proof fn law_keyring_name_ignores_slashes(url: Seq<char>, id: i64)
    ensures
        tokens::keyring_name(url.push('/'), id) == tokens::keyring_name(url, id),
{
    assert(url.push('/').drop_last() =~= url);
}

/// Two tokens share a keychain entry only if they are of one server and have
/// one id.
pub proof fn law_keyring_names_differ(a: Seq<char>, i: i64, b: Seq<char>, j: i64)
    requires
        tokens::keyring_name(a, i) == tokens::keyring_name(b, j),
    ensures
        i == j,
        text::trim_end(a, '/') == text::trim_end(b, '/'),
{
    reveal_strlit("/desktop-token/");
    let sep = tokens::TOKEN_USER_SEP@;
    let x = text::trim_end(a, '/');
    let y = text::trim_end(b, '/');
    let d = text::decimal_int(i as int);
    let e = text::decimal_int(j as int);
    let whole = tokens::keyring_name(a, i);
    text::lemma_decimal_int(i as int, j as int);
    text::lemma_decimal_int(j as int, i as int);
    assert(whole[whole.len() - d.len() - 1] == '/');
    assert(whole[whole.len() - e.len() - 1] == '/');
    if d.len() < e.len() {
        let at = whole.len() - d.len() - 1;
        assert(whole[at] == e[at - (whole.len() - e.len())]);
    }
    if e.len() < d.len() {
        let at = whole.len() - e.len() - 1;
        assert(whole[at] == d[at - (whole.len() - d.len())]);
    }
    assert(whole.skip(whole.len() - d.len()) =~= d);
    assert(whole.skip(whole.len() - e.len()) =~= e);
    assert(whole.take(whole.len() - d.len() - sep.len()) =~= x);
    assert(whole.take(whole.len() - e.len() - sep.len()) =~= y);
}

/// The entries that go when a token replaces others are not that of the token:
/// its secret stays in the keychain.
pub proof fn law_fresh_secret_stays(url: Seq<char>, removed: Seq<i64>, id: i64)
    ensures
        !tokens::dropped_users(url, removed, id).contains(tokens::keyring_name(url, id)),
{
    let kept = removed.filter(tokens::id_other_than(id));
    let dropped = tokens::dropped_users(url, removed, id);
    seqs::lemma_filter_from(removed, tokens::id_other_than(id));
    if dropped.contains(tokens::keyring_name(url, id)) {
        let k = choose|k: int|
            0 <= k < dropped.len() && dropped[k] == tokens::keyring_name(url, id);
        law_keyring_names_differ(url, kept[k], url, id);
    }
}

/// Every other token that a new one replaces loses its entry.
pub proof fn law_replaced_secrets_go(url: Seq<char>, removed: Seq<i64>, id: i64, k: int)
    requires
        0 <= k < removed.len(),
        removed[k] != id,
    ensures
        tokens::dropped_users(url, removed, id).contains(tokens::keyring_name(url, removed[k])),
{
    let kept = removed.filter(tokens::id_other_than(id));
    seqs::lemma_filter_keeps(removed, tokens::id_other_than(id), k);
    let j = choose|j: int| 0 <= j < kept.len() && kept[j] == removed[k];
    assert(tokens::dropped_users(url, removed, id)[j] == tokens::keyring_name(url, removed[k]));
}

// ---------------------------------------------------------------------------
// Device names
// ---------------------------------------------------------------------------

/// A device name has safe characters alone, at most as many as servers accept,
/// and no white space at either end.
pub proof fn law_device_name_is_safe(raw: Seq<char>)
    ensures
        pairing_commands::device_name(raw).len() <= pairing_commands::MAX_HOSTNAME_LEN,
        forall|i: int|
            0 <= i < pairing_commands::device_name(raw).len() ==> pairing_commands::safe(
                #[trigger] pairing_commands::device_name(raw)[i],
            ),
        pairing_commands::device_name(raw).len() > 0 ==> !text::is_space(pairing_commands::device_name(raw).first())
            && !text::is_space(pairing_commands::device_name(raw).last()),
{
    let f = raw.filter(pairing_commands::is_safe());
    let t = pairing_commands::at_most(f, pairing_commands::MAX_HOSTNAME_LEN as int);
    seqs::lemma_filter_from(raw, pairing_commands::is_safe());
    text::lemma_trim(t);
    let (i, j) = choose|i: int, j: int|
        0 <= i <= j <= t.len() && text::trim(t) == #[trigger] t.subrange(i, j);
    let d = pairing_commands::device_name(raw);
    assert forall|k: int| 0 <= k < d.len() implies pairing_commands::safe(#[trigger] d[k]) by {
        assert(d[k] == f[i + k]);
        assert(pairing_commands::is_safe()(f[i + k]));
    }
}

/// The characters that servers accept in the name of a device: letters and
/// digits of ASCII, spaces, and a few marks.
pub open spec fn accepts(c: char) -> bool {
    ||| 'a' <= c <= 'z'
    ||| 'A' <= c <= 'Z'
    ||| '0' <= c <= '9'
    ||| c == ' ' || c == '-' || c == '_' || c == '.' || c == ':'
    ||| c == '(' || c == ')' || c == '[' || c == ']'
}

/// The same characters are kept.
proof fn lemma_accepts(c: char)
    ensures
        accepts(c) == pairing_commands::is_safe()(c),
{
}

/// A device name of accepted characters is cut after sixty-four of them, and
/// loses the white space at its ends; what is shorter and has none is kept as
/// it is.
pub proof fn law_accepted_device_name_is_kept(raw: Seq<char>)
    requires
        forall|i: int| 0 <= i < raw.len() ==> accepts(#[trigger] raw[i]),
    ensures
        raw.len() > 64 ==> pairing_commands::device_name(raw) == text::trim(raw.take(64)),
        raw.len() <= 64 ==> pairing_commands::device_name(raw) == text::trim(raw),
        0 < raw.len() <= 64 && raw[0] != ' ' && raw.last() != ' ' ==> pairing_commands::device_name(
            raw,
        ) == raw,
{
    assert forall|i: int| 0 <= i < raw.len() implies pairing_commands::is_safe()(
        #[trigger] raw[i],
    ) by {
        assert(accepts(raw[i]));
        lemma_accepts(raw[i]);
    }
    seqs::lemma_filter_all(raw, pairing_commands::is_safe());
    if 0 < raw.len() && raw[0] != ' ' && raw.last() != ' ' {
        assert(accepts(raw[0]) && accepts(raw.last()));
        lemma_not_white(raw[0]);
        lemma_not_white(raw.last());
        text_laws::law_tight_text_is_kept(raw);
    }
}

/// Of the accepted characters the space alone is white space.
proof fn lemma_not_white(c: char)
    requires
        accepts(c),
        c != ' ',
    ensures
        !text_laws::white(c),
{
}

/// A character that servers do not accept makes no difference to the name of a
/// device.
pub proof fn law_other_characters_are_left_out(a: Seq<char>, c: char, b: Seq<char>)
    requires
        !accepts(c),
    ensures
        pairing_commands::device_name(a + seq![c] + b) == pairing_commands::device_name(a + b),
{
    let p = pairing_commands::is_safe();
    lemma_accepts(c);
    seqs::lemma_filter_add(a + seq![c], b, p);
    seqs::lemma_filter_add(a, b, p);
    seqs::lemma_filter_push(a, c, p);
    assert(a + seq![c] =~= a.push(c));
}

/// A device is called what its environment says, first by the one name and then
/// by the other, and only then what the file says.
pub proof fn law_environment_names_the_device(
    a: Option<Seq<char>>,
    b: Option<Seq<char>>,
    c: Option<Seq<char>>,
)
    ensures
        a matches Some(s) ==> pairing_commands::first_of(a, b, c) == s,
        a is None && b is Some ==> pairing_commands::first_of(a, b, c) == b->0,
        a is None && b is None && c is Some ==> pairing_commands::first_of(a, b, c) == c->0,
        a is None && b is None && c is None ==> pairing_commands::first_of(a, b, c).len() == 0,
{
}

/// A code comes of a reply that says success and tells one, as it tells it;
/// without one there is a failure, and a refusal fails with what the server
/// says.
pub proof fn law_code_is_taken_as_told(
    status: u16,
    code: Option<Seq<char>>,
    expires_at: Option<Seq<char>>,
    message: Option<Seq<char>>,
)
    ensures
        ({
            let r = pairing_commands::code_told(status, code, expires_at, message);
            &&& r is Ok <==> 200 <= status <= 299 && code is Some
            &&& r matches Ok(t) ==> Some(t.0) == code
            &&& r matches Ok(t) ==> (expires_at matches Some(e) ==> t.1 == e)
            &&& r matches Ok(t) ==> (expires_at is None ==> t.1.len() == 0)
            &&& 200 <= status <= 299 && code is None ==> r->Err_0
                == "server returned no pairing code"@
            &&& !(200 <= status <= 299) && message is Some ==> r->Err_0
                == "pairing request failed"@ + ": "@ + message->0
            &&& !(200 <= status <= 299) && message is None ==> r->Err_0
                == "pairing request failed"@ + " (HTTP "@ + text::decimal(status as nat) + ")"@
        }),
{
}

/// A page is shown exactly where it is an address, and as it is.
pub proof fn law_page_is_shown_where_it_is_an_address(
    page: Seq<char>,
    parsed: Result<web::UrlModel, Seq<char>>,
)
    ensures
        parsed is Ok ==> pairing_commands::page_told(page, parsed) == Ok::<Seq<char>, Seq<char>>(
            page,
        ),
        parsed is Err ==> pairing_commands::page_told(page, parsed) is Err,
{
}

/// A device name that was reduced already stays as it is.
pub proof fn law_device_name_is_stable(raw: Seq<char>)
    ensures
        pairing_commands::device_name(pairing_commands::device_name(raw)) == pairing_commands::device_name(raw),
{
    law_device_name_is_safe(raw);
    let d = pairing_commands::device_name(raw);
    assert forall|i: int| 0 <= i < d.len() implies pairing_commands::is_safe()(#[trigger] d[i]) by {
        assert(pairing_commands::safe(d[i]));
    }
    seqs::lemma_filter_all(d, pairing_commands::is_safe());
    assert(text::trim_space_end(d) == d);
    assert(text::trim_space_start(d) == d);
}

} // verus!
