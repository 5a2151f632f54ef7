use std::path::PathBuf;

use persea_desktop::http::{bearer_header, failure, server_error, HttpResult};
use persea_desktop::instances::{CachedProbe, FileRead, Instance, InstanceStore};
use persea_desktop::pairing::{
    apply_event, poll_once, poll_path, poll_verdict, PairingEvent, PairingSessions,
    PairingState, PollAction, PollEvent, PollOutcome, POLL_INTERVAL, POLL_TIMEOUT_NANOS,
    POLL_TIMEOUT,
};
use persea_desktop::pairing_commands::{
    confirm_page, device_hostname, pairing_list_tokens, pairing_open_confirm_page, pairing_reply,
    pairing_revoke, pairing_start, pairing_supported, read_etc_hostname, registered_tokens,
    revoke_reply, sanitize_hostname, token_for, token_view, token_views,
    MAX_HOSTNAME_LEN,
};
use persea_desktop::tokens::{keyring_user, RegisteredToken, RegistryFile, TokenRegistry};
use persea_desktop::textmap::TextMap;

fn waiting() -> PairingState {
    PairingState::Waiting {
        code: "ABCD2345".to_string(),
        expires_at: "2026-08-13T00:00:00Z".to_string(),
    }
}

fn approved_event() -> PairingEvent {
    PairingEvent::Approved {
        token_id: 7,
        token_name: "Persea Desktop (dev-box)".to_string(),
        device_name: "dev-box".to_string(),
    }
}

fn terminal_states() -> Vec<PairingState> {
    vec![
        PairingState::Approved {
            token_id: 7,
            token_name: "n".to_string(),
            device_name: "d".to_string(),
        },
        PairingState::Expired,
        PairingState::Used,
        PairingState::TimedOut,
        PairingState::Cancelled,
        PairingState::Failed {
            message: "boom".to_string(),
        },
    ]
}

#[test]
fn tick_keeps_waiting() {
    let (next, done) = apply_event(waiting(), PairingEvent::PollTick);
    assert_eq!(next, waiting());
    assert!(!done);
}

#[test]
fn approval_is_terminal() {
    let (next, done) = apply_event(waiting(), approved_event());
    assert!(matches!(next, PairingState::Approved { token_id: 7, .. }));
    assert!(done);
}

#[test]
fn expiry_use_timeout_and_cancel_are_terminal() {
    for (event, expected) in [
        (PairingEvent::Expired, PairingState::Expired),
        (PairingEvent::Used, PairingState::Used),
        (PairingEvent::Timeout, PairingState::TimedOut),
        (PairingEvent::Cancel, PairingState::Cancelled),
    ] {
        let (next, done) = apply_event(waiting(), event);
        assert_eq!(next, expected);
        assert!(done);
    }
}

#[test]
fn failed_persistence_is_terminal() {
    let (next, done) = apply_event(waiting(), PairingEvent::Failed("keychain".to_string()));
    assert_eq!(
        next,
        PairingState::Failed {
            message: "keychain".to_string()
        }
    );
    assert!(done);
}

#[test]
fn terminal_states_ignore_all_events() {
    let events = vec![
        PairingEvent::PollTick,
        approved_event(),
        PairingEvent::Timeout,
        PairingEvent::Expired,
        PairingEvent::Used,
        PairingEvent::Cancel,
        PairingEvent::Failed("x".to_string()),
    ];
    for state in terminal_states() {
        for event in events.clone() {
            let (next, done) = apply_event(state.clone(), event);
            assert_eq!(next, state, "terminal state must not change");
            assert!(done);
        }
    }
}

#[test]
fn idle_ignores_events() {
    let (next, done) = apply_event(PairingState::Idle, PairingEvent::PollTick);
    assert_eq!(next, PairingState::Idle);
    assert!(!done);
}

fn reply(status: u16, body: &str) -> HttpResult {
    HttpResult {
        status,
        body: body.as_bytes().to_vec(),
    }
}

fn gone(error: &str) -> HttpResult {
    reply(410, &format!("{{\"error\":\"{error}\"}}"))
}

fn poll_with(result: HttpResult, code: &str) -> PollOutcome {
    assert_eq!(
        poll_path(code),
        format!("/api/desktop/pair/status?code={code}")
    );
    poll_once(Some(&result))
}

#[test]
fn poll_once_pending_stays_pending() {
    let outcome = poll_with(reply(200, "{\"status\":\"pending\"}"), "ABCD2345");
    assert_eq!(outcome, PollOutcome::Pending);
}

#[test]
fn poll_once_approved_carries_token() {
    let outcome = poll_with(
        reply(
            200,
            "{\"status\":\"approved\",\"token\":\"tkn-1\",\"token_id\":7,\
             \"name\":\"Persea Desktop (dev-box)\",\"device_name\":\"dev-box\"}",
        ),
        "ABCD2345",
    );
    assert_eq!(
        outcome,
        PollOutcome::Approved {
            token_id: 7,
            token_name: "Persea Desktop (dev-box)".to_string(),
            device_name: "dev-box".to_string(),
            token: "tkn-1".to_string(),
        }
    );
}

#[test]
fn poll_once_expired_and_used_are_distinct() {
    assert_eq!(
        poll_with(gone("pairing code expired"), "ABCD2345"),
        PollOutcome::Expired
    );
    assert_eq!(
        poll_with(gone("pairing code already used"), "ABCD2345"),
        PollOutcome::Used
    );
}

#[test]
fn poll_once_rate_limit_is_transient() {
    let outcome = poll_with(
        reply(429, "{\"error\":\"too many requests, try again later\"}"),
        "ABCD2345",
    );
    assert_eq!(outcome, PollOutcome::Transient);
}

#[test]
fn poll_once_network_failure_is_transient() {
    let outcome = poll_once(None);
    assert_eq!(outcome, PollOutcome::Transient);
}

#[test]
fn polls_fill_in_what_the_server_leaves_out() {
    assert_eq!(
        poll_once(Some(&reply(200, "{\"status\":\"approved\"}"))),
        PollOutcome::Approved {
            token_id: 0,
            token_name: String::new(),
            device_name: String::new(),
            token: String::new(),
        }
    );
    assert_eq!(poll_once(Some(&reply(200, "nonsense"))), PollOutcome::Pending);
    assert_eq!(poll_once(Some(&reply(410, ""))), PollOutcome::Expired);
    assert_eq!(poll_once(Some(&gone("gone"))), PollOutcome::Expired);
    assert_eq!(
        poll_once(Some(&gone("expired after being used"))),
        PollOutcome::Expired
    );
    assert_eq!(poll_once(Some(&reply(503, ""))), PollOutcome::Transient);
    assert_eq!(
        poll_verdict(200, Some("approved".into()), Some(-3), None, None, None, None),
        PollOutcome::Approved {
            token_id: -3,
            token_name: String::new(),
            device_name: String::new(),
            token: String::new(),
        }
    );
}

fn temp_registry() -> TokenRegistry {
    TokenRegistry::load(PathBuf::from("/tmp/pairing.json"), FileRead::Missing).0
}

fn sample_token(id: i64, name: &str) -> RegisteredToken {
    RegisteredToken {
        instance_url: "https://persea.example.com".to_string(),
        token_id: id,
        token_name: name.to_string(),
        device_name: "dev-box".to_string(),
        created_at: id as u64,
    }
}

#[test]
fn registry_register_dedupes_same_name_and_returns_removed() {
    let mut registry = temp_registry();
    let removed = registry.register(sample_token(1, "Persea Desktop (dev-box)"));
    assert!(removed.is_empty());
    let removed = registry.register(sample_token(2, "Persea Desktop (dev-box)"));
    assert_eq!(removed, vec![1]);
    assert_eq!(registry.for_instance("https://persea.example.com").len(), 1);
    // Different name (different identity): both stay.
    let removed = registry.register(sample_token(3, "Persea Desktop (other)"));
    assert!(removed.is_empty());
    assert_eq!(registry.for_instance("https://persea.example.com").len(), 2);
}

#[test]
fn registry_remove_and_latest() {
    let mut registry = temp_registry();
    registry.register(sample_token(1, "a"));
    registry.register(sample_token(2, "b"));
    assert_eq!(
        registry
            .latest("https://persea.example.com")
            .unwrap()
            .token_id,
        2
    );
    assert!(registry.remove("https://persea.example.com", 2));
    assert_eq!(
        registry
            .latest("https://persea.example.com")
            .unwrap()
            .token_id,
        1
    );
    assert!(!registry.remove("https://persea.example.com", 99));
    assert!(registry
        .for_instance("https://other.example.com")
        .is_empty());
}

#[test]
fn keyring_user_is_instance_plus_token_id() {
    assert_eq!(
        keyring_user("https://persea.example.com", 7),
        "https://persea.example.com/desktop-token/7"
    );
    assert_eq!(
        keyring_user("https://persea.example.com/", 7),
        "https://persea.example.com/desktop-token/7"
    );
}

#[test]
fn hostname_sanitization_matches_server() {
    assert_eq!(sanitize_hostname("dev-box:2"), "dev-box:2");
    assert_eq!(sanitize_hostname("a<b>\"c\\d`e"), "abcde");
    assert_eq!(sanitize_hostname(&"abc".repeat(30)).len(), MAX_HOSTNAME_LEN);
    assert_eq!(sanitize_hostname("  "), "");
}

#[test]
fn device_names_come_from_the_first_source() {
    assert_eq!(
        device_hostname(Some("a".into()), Some("b".into()), Some("c".into())),
        "a"
    );
    assert_eq!(device_hostname(None, Some("b".into()), Some("c".into())), "b");
    assert_eq!(
        device_hostname(None, None, read_etc_hostname(Some(" box\n".into()))),
        "box"
    );
    assert_eq!(device_hostname(None, None, read_etc_hostname(None)), "");
    // The cap comes before the white space at the ends goes.
    let long = format!("{} tail", "x".repeat(63));
    assert_eq!(sanitize_hostname(&long), "x".repeat(63));
    let once = sanitize_hostname("  (Ä) [b]_c.d:e  ");
    assert_eq!(once, "() [b]_c.d:e");
    assert_eq!(sanitize_hostname(&once), once);
}

#[test]
fn keychain_names_differ_with_server_and_id() {
    assert_eq!(
        keyring_user("https://x///", i64::MIN),
        "https://x/desktop-token/-9223372036854775808"
    );
    assert_ne!(keyring_user("https://x", 1), keyring_user("https://x", 11));
    assert_ne!(
        keyring_user("https://x/desktop-token/1", 2),
        keyring_user("https://x", 12)
    );
}

#[test]
fn a_newer_pairing_orphans_the_older_poll() {
    let mut sessions = PairingSessions::new();
    let url = "https://persea.example.com";
    let first = sessions.start(url, "AAAA".into(), "t".into(), 0);
    assert_eq!(first, 1);
    assert_eq!(
        sessions.poll_step(url, first, PollEvent::Tick { now: 5 }),
        PollAction::Poll { code: "AAAA".into() }
    );
    let second = sessions.start("https://persea.example.com/", "BBBB".into(), "t".into(), 10);
    assert_eq!(second, 2);
    assert_eq!(sessions.session_code(url).as_deref(), Some("BBBB"));
    // What the older poll brings is lost.
    let approved = PollOutcome::Approved {
        token_id: 1,
        token_name: "n".into(),
        device_name: "d".into(),
        token: "t".into(),
    };
    assert_eq!(
        sessions.poll_step(url, first, PollEvent::Polled(approved)),
        PollAction::Stop
    );
    assert_eq!(
        sessions.poll_step(url, first, PollEvent::Polled(PollOutcome::Expired)),
        PollAction::Stop
    );
    assert_eq!(
        sessions.poll_step(url, first, PollEvent::Tick { now: 20 }),
        PollAction::Stop
    );
    assert!(matches!(
        sessions.pairing_status(url),
        PairingState::Waiting { .. }
    ));
}

#[test]
fn a_pairing_runs_to_its_approval() {
    let mut sessions = PairingSessions::new();
    let url = "https://persea.example.com";
    assert_eq!(sessions.pairing_status(url), PairingState::Idle);
    let g = sessions.start(url, "CODE".into(), "t".into(), 100);
    assert_eq!(
        sessions.poll_step(url, g, PollEvent::Polled(PollOutcome::Pending)),
        PollAction::Sleep
    );
    assert_eq!(
        sessions.poll_step(url, g, PollEvent::Polled(PollOutcome::Transient)),
        PollAction::Sleep
    );
    let approved = PollOutcome::Approved {
        token_id: 7,
        token_name: "n".into(),
        device_name: "d".into(),
        token: "secret".into(),
    };
    assert_eq!(
        sessions.poll_step(url, g, PollEvent::Polled(approved)),
        PollAction::Persist {
            token_id: 7,
            token_name: "n".into(),
            device_name: "d".into(),
            token: "secret".into(),
        }
    );
    // Not approved before the token is kept.
    assert!(matches!(
        sessions.pairing_status(url),
        PairingState::Waiting { .. }
    ));
    let kept = PollEvent::Persisted {
        token_id: 7,
        token_name: "n".into(),
        device_name: "d".into(),
        result: Ok(()),
    };
    assert_eq!(sessions.poll_step(url, g, kept), PollAction::Stop);
    assert_eq!(
        sessions.pairing_status(url),
        PairingState::Approved {
            token_id: 7,
            token_name: "n".into(),
            device_name: "d".into(),
        }
    );
}

#[test]
fn pairings_end_by_time_cancel_and_failure() {
    assert_eq!(POLL_INTERVAL, 3);
    assert_eq!(POLL_TIMEOUT_NANOS, POLL_TIMEOUT as u128 * 1_000_000_000);
    let mut sessions = PairingSessions::new();
    let url = "https://x";
    let g = sessions.start(url, "C".into(), "t".into(), 50);
    let almost = PollEvent::Tick {
        now: 50 + POLL_TIMEOUT_NANOS - 1,
    };
    assert!(matches!(
        sessions.poll_step(url, g, almost),
        PollAction::Poll { .. }
    ));
    let over = PollEvent::Tick {
        now: 50 + POLL_TIMEOUT_NANOS,
    };
    assert_eq!(sessions.poll_step(url, g, over), PollAction::Stop);
    assert_eq!(sessions.pairing_status(url), PairingState::TimedOut);

    let g = sessions.start(url, "C".into(), "t".into(), 0);
    sessions.pairing_cancel("https://x/");
    assert_eq!(sessions.pairing_status(url), PairingState::Cancelled);
    assert_eq!(
        sessions.poll_step(url, g, PollEvent::Tick { now: 1 }),
        PollAction::Stop
    );
    assert!(sessions.session_code(url).is_none());

    let g = sessions.start(url, "C".into(), "t".into(), 0);
    let lost = PollEvent::Persisted {
        token_id: 7,
        token_name: "n".into(),
        device_name: "d".into(),
        result: Err("keychain".into()),
    };
    sessions.poll_step(url, g, lost);
    assert_eq!(
        sessions.pairing_status(url),
        PairingState::Failed {
            message: "keychain".into()
        }
    );
    let g = sessions.start(url, "C".into(), "t".into(), 0);
    sessions.finish_session(url, g, PairingEvent::Used);
    assert_eq!(sessions.pairing_status(url), PairingState::Used);
    assert_eq!(sessions.next_generation(), g + 1);
}

#[test]
fn approvals_replace_tokens_and_keep_the_fresh_secret() {
    let mut registry = temp_registry();
    let url = "https://persea.example.com/";
    assert!(registry
        .persist_approval_at(url, 1, "n", "d", 10)
        .is_empty());
    assert_eq!(
        registry.persist_approval_at(url, 2, "n", "d", 20),
        vec!["https://persea.example.com/desktop-token/1".to_string()]
    );
    // The same id again: its entry in the keychain is the fresh one.
    assert!(registry
        .persist_approval_at(url, 2, "other", "d", 30)
        .is_empty());
    assert_eq!(registered_tokens(Some(&registry)).len(), 1);
    assert!(registered_tokens(None).is_empty());
    assert_eq!(registry.file.tokens[0].created_at, 30);
    registry.persist_approval(url, 5, "late", "d");
    assert_eq!(
        token_for(&registry, "https://persea.example.com").as_deref(),
        Some("https://persea.example.com/desktop-token/5")
    );
    assert!(token_for(&registry, "https://nope").is_none());
}

#[test]
fn the_last_of_equally_new_tokens_is_the_latest() {
    let mut registry = temp_registry();
    for id in [4, 9, 6] {
        let mut t = sample_token(id, &format!("n{id}"));
        t.created_at = 1;
        registry.register(t);
    }
    assert_eq!(
        registry
            .latest("https://persea.example.com")
            .unwrap()
            .token_id,
        6
    );
}

#[test]
fn registries_load_empty_unless_there_are_contents() {
    let p = PathBuf::from("/tmp/pairing.json");
    let (r, backup) = TokenRegistry::load(p.clone(), FileRead::Corrupt);
    assert!(backup && r.file.tokens.is_empty());
    let (r, backup) = TokenRegistry::load(p.clone(), FileRead::Unreadable);
    assert!(!backup && r.file.tokens.is_empty());
    let file = RegistryFile {
        tokens: vec![sample_token(1, "a")],
    };
    let (r, backup) = TokenRegistry::load(p, FileRead::Contents(file));
    assert!(!backup);
    assert_eq!(r.file.tokens, vec![sample_token(1, "a")]);
}

fn store_with(capability: bool) -> InstanceStore {
    let mut store = InstanceStore::empty(PathBuf::from("/tmp/instances.json"));
    let mut capabilities = TextMap::new();
    capabilities.insert("desktop_pairing", capability);
    store.file.instances.push(Instance {
        name: "Prod".into(),
        url: "https://persea.example.com".into(),
        default: true,
        kiosk_allowed: None,
        allow_insecure_tls: None,
        locked: false,
        probe: Some(CachedProbe {
            ok: true,
            version: "1.0.0".into(),
            capabilities,
            latest_version: None,
            update_available: false,
            needs_setup: false,
            auth_failed: false,
            checked_at: 1,
            error: None,
        }),
    });
    store
}

#[test]
fn pairing_is_gated_on_the_capability() {
    let url = "https://persea.example.com";
    assert!(pairing_supported(Some(&store_with(true)), url));
    assert!(!pairing_supported(Some(&store_with(false)), url));
    assert!(!pairing_supported(None, url));
    assert_eq!(
        pairing_start(Some(&store_with(true)), "https://persea.example.com/").unwrap(),
        url
    );
    assert_eq!(
        pairing_start(Some(&store_with(false)), url).unwrap_err(),
        "device pairing is disabled by this server"
    );
    assert_eq!(pairing_start(None, "").unwrap_err(), "URL is required");
    assert_eq!(
        pairing_open_confirm_page(url).unwrap(),
        "https://persea.example.com/account/tokens.html"
    );
    assert_eq!(
        confirm_page("p".into(), &Err("empty host".into())).unwrap_err(),
        "invalid pairing page URL: empty host"
    );
}

#[test]
fn pairing_replies_bring_the_code_or_a_reason() {
    assert_eq!(
        pairing_reply(&reply(201, "{\"code\":\"ABCD\",\"expires_at\":\"soon\"}")).unwrap(),
        ("ABCD".to_string(), "soon".to_string())
    );
    assert_eq!(
        pairing_reply(&reply(200, "{\"code\":\"ABCD\"}")).unwrap().1,
        ""
    );
    assert_eq!(
        pairing_reply(&reply(200, "{}")).unwrap_err(),
        "server returned no pairing code"
    );
    assert_eq!(
        pairing_reply(&reply(403, "{\"error\":\"off\"}")).unwrap_err(),
        "pairing request failed: off"
    );
    assert_eq!(
        pairing_reply(&reply(500, "")).unwrap_err(),
        "pairing request failed (HTTP 500)"
    );
    assert_eq!(failure("c", 404, None), "c (HTTP 404)");
    assert_eq!(server_error("c", &gone("m")), "c: m");
    assert_eq!(bearer_header("t"), "Bearer t");
    assert!(reply(299, "").is_success());
    assert!(!reply(300, "").is_success());
}

#[test]
fn tokens_are_listed_and_revoked() {
    let mut registry = temp_registry();
    registry.register(sample_token(7, "n"));
    let url = "https://persea.example.com/";
    let tokens = pairing_list_tokens(&registry, url).unwrap();
    assert_eq!(tokens.len(), 1);
    let view = token_view(tokens[0].clone(), &Ok(Some("secret".into())));
    assert_eq!((view.token_id, view.in_keychain), (7, true));
    assert_eq!(view.token_name, "n");
    assert!(!token_view(tokens[0].clone(), &Ok(None)).in_keychain);
    // A read that fails counts as a missing secret, and the list goes on.
    registry.register(sample_token(8, "m"));
    let both = pairing_list_tokens(&registry, url).unwrap();
    let secrets = vec![Err("keychain is locked".to_string()), Ok(Some("s".into()))];
    let views = token_views(both, &secrets);
    assert_eq!(views.len(), 2);
    assert_eq!((views[0].token_id, views[0].in_keychain), (7, false));
    assert_eq!((views[1].token_id, views[1].in_keychain), (8, true));
    registry.remove("https://persea.example.com", 8);
    assert!(pairing_list_tokens(&registry, "x").is_err());
    let request = pairing_revoke(&registry, url, 7).unwrap();
    assert_eq!(request.url, "https://persea.example.com");
    assert_eq!(
        request.user,
        "https://persea.example.com/desktop-token/7"
    );
    assert_eq!(request.path, "/api/me/tokens/7");
    assert_eq!(
        pairing_revoke(&registry, url, 8).unwrap_err(),
        "no paired token with that id"
    );
    assert!(revoke_reply(&reply(204, "")).is_ok());
    assert!(revoke_reply(&reply(404, "")).is_ok());
    assert_eq!(
        revoke_reply(&reply(401, "{\"error\":\"nope\"}")).unwrap_err(),
        "revocation failed: nope"
    );
}
