use std::path::PathBuf;

use persea_desktop::address::{
    accept_address, fnv1a_64, store_key, validate_instance_url, window_label,
};
use persea_desktop::commands::{
    add_instance, apply_update, auto_open, cmd_instances_add, cmd_instances_list,
    cmd_instances_open, cmd_instances_open_default, cmd_instances_open_setup, cmd_instances_probe,
    cmd_instances_remove, cmd_instances_set_default, cmd_instances_update, main_window_missing,
    open_address, probe_targets, store_probe, store_probe_at, AddRequest,
};
use persea_desktop::instances::{
    capability, effective_tls, instance, instances, last_known_version, probe, CachedProbe,
    FileRead, Instance, InstanceStore, StoreError, StoreFile,
};
use persea_desktop::probe::{
    apply_probe, apply_probe_at, classify_probe_error, credential_rejected, instance_view,
    is_loopback_host, needs_setup, parse_status, parse_version, probe_server, probe_server_at,
    probe_warnings, server_version_warnings, sessions_url, status_fields, status_url,
    stored_bearer, unreachable_probe, unreachable_probe_at, version_lt,
};
use persea_desktop::provisioning::{
    sync_provisioned, EffectiveProvision, ProvisionFile, ProvisionedInstance,
};
use persea_desktop::textmap::TextMap;
use persea_desktop::web::UrlParts;

fn path() -> PathBuf {
    PathBuf::from("/tmp/instances.json")
}

fn flags(entries: &[(&str, bool)]) -> TextMap<bool> {
    let mut map = TextMap::new();
    for (k, v) in entries {
        map.insert(k, *v);
    }
    map
}

fn sample_store() -> InstanceStore {
    let mut store = InstanceStore::empty(path());
    store.file.instances.push(Instance {
        name: "Prod".into(),
        url: "https://persea.example.com".into(),
        default: true,
        kiosk_allowed: None,
        allow_insecure_tls: None,
        locked: false,
        probe: Some(CachedProbe {
            ok: true,
            version: "1.0.0".into(),
            capabilities: flags(&[("kiosk_allowed", true), ("desktop_pairing", true)]),
            latest_version: Some("1.3.0".into()),
            update_available: true,
            needs_setup: false,
            auth_failed: false,
            checked_at: 42,
            error: None,
        }),
    });
    store.file.instances.push(Instance {
        name: "Lab".into(),
        url: "https://lab.example.com".into(),
        default: false,
        kiosk_allowed: None,
        allow_insecure_tls: None,
        locked: false,
        probe: None,
    });
    store.file.last_used = Some("https://lab.example.com".into());
    store
}

fn ok_probe() -> CachedProbe {
    CachedProbe {
        ok: true,
        version: "1.0.0".into(),
        capabilities: flags(&[("kiosk_allowed", true)]),
        latest_version: None,
        update_available: false,
        needs_setup: false,
        auth_failed: false,
        checked_at: 7,
        error: None,
    }
}

#[test]
fn default_or_last_resolves_default_then_last_used_then_first() {
    let mut store = sample_store();
    assert_eq!(
        store.default_or_last().unwrap().url,
        "https://persea.example.com"
    );
    store.file.instances[0].default = false;
    assert_eq!(
        store.default_or_last().unwrap().url,
        "https://lab.example.com"
    );
    store.file.last_used = None;
    assert_eq!(
        store.default_or_last().unwrap().url,
        "https://persea.example.com"
    );
    store.file.instances.clear();
    assert!(store.default_or_last().is_none());
}

#[test]
fn store_key_mapping_is_stable_and_unique() {
    let a = "https://persea.example.com";
    let b = "https://lab.example.com";
    assert_eq!(store_key(a), store_key(a));
    assert_eq!(store_key(b), store_key(b));
    assert_ne!(store_key(a), store_key(b));
    assert!(store_key(a).starts_with("persea-"));
    assert_eq!(store_key(a).len(), 7 + 32);
    assert_eq!(store_key("https://persea.example.com/"), store_key(a));
}

#[test]
fn window_label_is_main_for_single_window_design() {
    assert_eq!(window_label("https://anything.example.com"), "main");
}

#[test]
fn version_warnings_flag_old_servers() {
    assert!(server_version_warnings("0.9.9").len() == 2);
    assert!(server_version_warnings("1.0.0").is_empty());
    assert!(server_version_warnings("1.0.1").is_empty());
    assert!(server_version_warnings("v1.0.0").is_empty());
    assert!(server_version_warnings("not-a-version").is_empty());
    assert!(server_version_warnings("1.0.0-beta.1").is_empty());
    assert_eq!(parse_version("v1.0.0"), Some((1, 0, 0)));
    assert_eq!(parse_version("1.0.0-alpha+xyz"), Some((1, 0, 0)));
}

#[test]
fn url_validation_requires_https_except_loopback() {
    assert!(validate_instance_url("https://persea.example.com").is_ok());
    assert!(validate_instance_url("https://persea.example.com/").is_ok());
    assert_eq!(
        validate_instance_url("https://persea.example.com/").unwrap(),
        "https://persea.example.com"
    );
    assert!(validate_instance_url("http://persea.example.com").is_err());
    assert!(validate_instance_url("http://localhost:8089").is_ok());
    assert!(validate_instance_url("http://127.0.0.1:8089").is_ok());
    assert!(validate_instance_url("http://[::1]:8089").is_ok());
    assert!(validate_instance_url("ftp://persea.example.com").is_err());
    assert!(validate_instance_url("https://").is_err());
    assert!(validate_instance_url("").is_err());
}

#[test]
fn failed_reprobe_keeps_last_known_version() {
    let probe = CachedProbe {
        ok: true,
        version: "1.0.0".into(),
        capabilities: flags(&[("kiosk_allowed", true)]),
        latest_version: None,
        update_available: false,
        needs_setup: false,
        auth_failed: true,
        checked_at: 1,
        error: None,
    };
    let merged = apply_probe(Some(probe.clone()), unreachable_probe("down".into()));
    assert!(!merged.ok);
    assert_eq!(merged.version, "1.0.0");
    assert!(*merged.capabilities.get("kiosk_allowed").unwrap());
    // A failed reprobe keeps the last known auth state too.
    assert!(merged.auth_failed);
    assert!(merged.checked_at >= 1);
    let fresh = apply_probe(Some(probe.clone()), probe.clone());
    assert!(fresh.ok);
    // Never-probed instance: unreachable outcome stands as-is.
    let none = apply_probe(None, unreachable_probe("down".into()));
    assert!(!none.ok);
    assert_eq!(none.version, "unknown");
}

#[test]
fn probe_error_classification() {
    assert_eq!(
        classify_probe_error("error sending request: invalid peer certificate: UnknownIssuer"),
        "the server's TLS certificate is not trusted by this system"
    );
    assert_eq!(
        classify_probe_error("dns error: failed to lookup address for persea.example.com"),
        "the server hostname could not be resolved"
    );
    assert_eq!(
        classify_probe_error("connection refused: tcp connect error"),
        "the server did not respond (connection refused or timed out)"
    );
    assert_eq!(
        classify_probe_error("builder error: something weird"),
        "the server could not be reached"
    );
}

#[test]
fn removal_clears_last_used_and_respects_locks() {
    let mut store = sample_store();
    store.remove("https://lab.example.com").unwrap();
    assert_eq!(store.file.instances.len(), 1);
    assert!(store.file.last_used.is_none());
    store.file.instances[0].locked = true;
    assert!(store.remove("https://persea.example.com").is_err());
    assert_eq!(store.file.instances.len(), 1);
    assert!(store.remove("https://nope.example.com").is_err());
}

fn provision(entries: &[(&str, &str, bool)]) -> ProvisionFile {
    ProvisionFile {
        instances: entries
            .iter()
            .map(|(name, url, default)| ProvisionedInstance {
                name: name.to_string(),
                url: url.to_string(),
                default: *default,
            })
            .collect(),
    }
}

fn locked_store() -> InstanceStore {
    let mut store = InstanceStore::empty(path());
    store.file.instances.push(Instance {
        name: "User".into(),
        url: "https://user.example.com".into(),
        default: false,
        kiosk_allowed: None,
        allow_insecure_tls: None,
        locked: false,
        probe: None,
    });
    store.file.instances.push(Instance {
        name: "Old name".into(),
        url: "https://a.example.com".into(),
        default: true,
        kiosk_allowed: None,
        allow_insecure_tls: None,
        locked: true,
        probe: None,
    });
    store
}

#[test]
fn provision_merge_adds_updates_removes_and_locks() {
    let mut store = locked_store();

    let merge = store.apply_provisioned(&provision(&[
        ("New name", "https://a.example.com", false),
        ("B", "https://b.example.com", false),
    ]));
    assert_eq!(merge.added, 1);
    assert_eq!(merge.removed, 0);
    assert!(merge.updated >= 2);
    assert!(merge.changed());

    let a = store.find("https://a.example.com").unwrap();
    assert_eq!(a.name, "New name");
    assert!(!a.default);
    assert!(a.locked);
    let b = store.find("https://b.example.com").unwrap();
    assert!(b.locked);
    assert!(!b.default);
    let user = store.find("https://user.example.com").unwrap();
    assert_eq!(user.name, "User");
    assert!(!user.locked);

    // Second doc removes A: the locked entry goes, user stays.
    store.file.last_used = Some("https://a.example.com".into());
    let merge = store.apply_provisioned(&provision(&[("B", "https://b.example.com", false)]));
    assert_eq!(merge.removed, 1);
    assert!(store.find("https://a.example.com").is_none());
    assert!(store.find("https://b.example.com").is_some());
    assert!(store.find("https://user.example.com").is_some());
    assert!(store.file.last_used.is_none());

    // Unchanged doc: no-op merge.
    let merge = store.apply_provisioned(&provision(&[("B", "https://b.example.com", false)]));
    assert!(!merge.changed());
}

#[test]
fn provision_merge_never_touches_user_entries() {
    let mut store = locked_store();
    // User owns https://user.example.com; provision tries to take it over.
    let merge = store.apply_provisioned(&provision(&[
        ("User", "https://user.example.com", true),
        ("B", "https://b.example.com", false),
    ]));
    assert_eq!(merge.added, 1);
    let user = store.find("https://user.example.com").unwrap();
    assert_eq!(user.name, "User");
    assert!(!user.locked);
    assert!(!user.default);
}

#[test]
fn provisioned_default_clears_user_default() {
    let mut store = locked_store();
    store.file.instances[0].default = true;
    let merge = store.apply_provisioned(&provision(&[("A", "https://a.example.com", true)]));
    assert!(merge.changed());
    let defaults: Vec<&str> = store
        .file
        .instances
        .iter()
        .filter(|i| i.default)
        .map(|i| i.url.as_str())
        .collect();
    assert_eq!(defaults, vec!["https://a.example.com"]);
}

#[test]
fn resync_skips_a_document_that_was_applied() {
    let mut store = locked_store();
    let first = EffectiveProvision {
        doc: provision(&[("A", "https://a.example.com", true)]),
        hash: "hash-v1".into(),
        source: "test".into(),
    };
    let merge = sync_provisioned(&mut store, Some(&first)).unwrap();
    assert!(merge.changed());
    assert_eq!(store.file.instances.len(), 2);
    assert_eq!(store.file.provisioned_hash.as_deref(), Some("hash-v1"));
    // The hash is the one that was applied: nothing to do.
    assert!(sync_provisioned(&mut store, Some(&first)).is_none());
    // No document: nothing to do, and nothing is unlocked.
    assert!(sync_provisioned(&mut store, None).is_none());
    assert!(store.find("https://a.example.com").unwrap().locked);
    let second = EffectiveProvision {
        doc: provision(&[
            ("A", "https://a.example.com", true),
            ("C", "https://c.example.com", false),
        ]),
        hash: "hash-v2".into(),
        source: "test".into(),
    };
    let merge = sync_provisioned(&mut store, Some(&second)).unwrap();
    assert_eq!((merge.added, merge.updated, merge.removed), (1, 0, 0));
    assert_eq!(store.file.provisioned_hash.as_deref(), Some("hash-v2"));
    assert!(store.find("https://c.example.com").is_some());
}

#[test]
fn locked_entries_refuse_edits_through_commands() {
    let mut store = locked_store();
    let locked = "https://a.example.com";
    let user = "https://user.example.com";

    let res = cmd_instances_set_default(&mut store, locked);
    assert!(res.is_err());
    assert!(res.unwrap_err().contains("locked by your administrator"));

    let res = cmd_instances_update(Some(&store), locked, Some("Renamed"), None);
    assert!(res.is_err());
    assert!(res.unwrap_err().contains("locked by your administrator"));

    let res = cmd_instances_remove(&mut store, locked);
    assert!(res.is_err());
    assert!(res.unwrap_err().contains("locked by your administrator"));

    let res = cmd_instances_set_default(&mut store, user);
    assert!(res.is_ok());
    assert!(store.find(user).unwrap().default);
    assert!(store.find(locked).is_some());
}

#[test]
fn duplicate_add_errors_before_probe() {
    let mut store = sample_store();
    let mut probed = 0;
    let res = cmd_instances_add(Some(&store), "Prod again", "https://persea.example.com");
    let res = match res {
        Ok(request) => {
            probed += 1;
            let outcome = unreachable_probe("probe must not run for a duplicate".into());
            Ok(add_instance(&mut store, request, None, outcome))
        }
        Err(e) => Err(e),
    };
    assert!(res.is_err());
    assert!(res.unwrap_err().contains("already exists"));
    assert_eq!(probed, 0);
    assert_eq!(store.file.instances.len(), 2);
}

#[test]
fn add_stores_probe_outcome_on_success() {
    let mut store = InstanceStore::empty(path());
    let request = cmd_instances_add(Some(&store), "New", "https://new.example.com").unwrap();
    let view = add_instance(&mut store, request, None, ok_probe());
    assert_eq!(view.url, "https://new.example.com");
    let inst = store.find("https://new.example.com").unwrap();
    assert_eq!(inst.name, "New");
    assert!(inst.default);
    assert!(inst.probe.as_ref().unwrap().ok);
}

#[test]
fn merge_counts_each_change() {
    let mut store = locked_store();
    store.file.instances[0].default = true;
    // The locked entry: another name, the same default mark; the user's mark
    // gives way.
    let merge = store.apply_provisioned(&provision(&[
        ("A", "https://a.example.com", true),
        ("B", "https://b.example.com", false),
    ]));
    assert_eq!((merge.added, merge.updated, merge.removed), (1, 2, 0));
    // The last of two defaults wins, and the mark of the first goes again.
    let two = provision(&[
        ("A", "https://a.example.com", true),
        ("B", "https://b.example.com", true),
    ]);
    let merge = store.apply_provisioned(&two);
    assert_eq!((merge.added, merge.updated, merge.removed), (0, 2, 0));
    assert!(!store.find("https://a.example.com").unwrap().default);
    assert!(store.find("https://b.example.com").unwrap().default);
    // An empty document removes every locked entry.
    let merge = store.apply_provisioned(&provision(&[]));
    assert_eq!((merge.added, merge.updated, merge.removed), (0, 0, 2));
    assert_eq!(store.file.instances.len(), 1);
}

#[test]
fn load_takes_contents_and_backs_up_corrupt_files_alone() {
    let file = StoreFile {
        instances: Vec::new(),
        last_used: Some("https://x.example.com".into()),
        provisioned_hash: None,
    };
    let (store, backup) = InstanceStore::load(path(), FileRead::Contents(file));
    assert!(!backup);
    assert_eq!(
        store.file.last_used.as_deref(),
        Some("https://x.example.com")
    );
    let (store, backup) = InstanceStore::load(path(), FileRead::Corrupt);
    assert!(backup);
    assert!(store.file.instances.is_empty());
    let (store, backup) = InstanceStore::load(path(), FileRead::Missing);
    assert!(!backup);
    assert!(store.file.last_used.is_none());
    let (_, backup) = InstanceStore::load(path(), FileRead::Unreadable);
    assert!(!backup);
}

#[test]
fn accessors_fail_closed_without_store_server_or_probe() {
    let store = sample_store();
    let prod = "https://persea.example.com";
    let lab = "https://lab.example.com";
    assert!(capability(Some(&store), prod, "desktop_pairing"));
    assert!(!capability(Some(&store), prod, "drive_api"));
    assert!(!capability(Some(&store), lab, "desktop_pairing"));
    assert!(!capability(Some(&store), "https://nope", "desktop_pairing"));
    assert!(!capability(None, prod, "desktop_pairing"));
    assert_eq!(instances(Some(&store)).len(), 2);
    assert!(instances(None).is_empty());
    assert_eq!(instance(Some(&store), lab).unwrap().name, "Lab");
    assert!(instance(Some(&store), "https://nope").is_none());
    assert!(instance(None, lab).is_none());
    assert_eq!(probe(Some(&store), prod).unwrap().checked_at, 42);
    assert!(probe(Some(&store), lab).is_none());
    assert_eq!(
        last_known_version(Some(&store), prod).as_deref(),
        Some("1.0.0")
    );
    assert!(last_known_version(Some(&store), lab).is_none());
}

#[test]
fn a_failed_probe_without_version_tells_none() {
    let mut store = sample_store();
    let mut p = unreachable_probe_at("down".into(), 5);
    p.version = String::new();
    store.file.instances[1].probe = Some(p);
    assert!(last_known_version(Some(&store), "https://lab.example.com").is_none());
    store.file.instances[1].probe = Some(unreachable_probe_at("down".into(), 5));
    assert_eq!(
        last_known_version(Some(&store), "https://lab.example.com").as_deref(),
        Some("unknown")
    );
}

#[test]
fn store_errors_have_their_texts() {
    assert_eq!(StoreError::Io("disk full".into()).message(), "disk full");
    assert_eq!(
        StoreError::Json("eof".into()).message(),
        "invalid JSON: eof"
    );
    assert_eq!(
        StoreError::NotFound("u".into()).message(),
        "no instance with URL u"
    );
    assert_eq!(
        StoreError::Duplicate("u".into()).message(),
        "an instance with URL u already exists"
    );
    assert_eq!(StoreError::Invalid("m".into()).message(), "m");
    let mut store = locked_store();
    assert!(matches!(
        store.remove("https://a.example.com"),
        Err(StoreError::Invalid(_))
    ));
    assert!(matches!(
        store.remove("https://z.example.com"),
        Err(StoreError::NotFound(_))
    ));
}

#[test]
fn the_override_wins_over_the_global_toggle() {
    assert!(effective_tls(Some(true), false));
    assert!(!effective_tls(Some(false), true));
    assert!(effective_tls(None, true));
    let mut store = sample_store();
    store.file.instances[1].allow_insecure_tls = Some(true);
    assert_eq!(
        probe_targets(&store, false),
        vec![
            ("https://persea.example.com".to_string(), false),
            ("https://lab.example.com".to_string(), true),
        ]
    );
}

#[test]
fn keys_have_exact_values() {
    assert_eq!(fnv1a_64(b"", 0xcbf2_9ce4_8422_2325), 0xcbf2_9ce4_8422_2325);
    assert_eq!(fnv1a_64(b"a", 0xcbf2_9ce4_8422_2325), 0xaf63_dc4c_8601_ec8c);
    assert_eq!(
        fnv1a_64(b"foobar", 0xcbf2_9ce4_8422_2325),
        0x8594_4171_f739_67e8
    );
    assert_eq!(
        store_key("https://persea.example.com///"),
        "persea-b890e309f71a7323edfaa6c887c503de"
    );
    assert_eq!(store_key(""), "persea-cbf29ce48422232584222325cbf29ce4");
}

#[test]
fn versions_compare_by_their_numbers() {
    assert_eq!(version_lt("1.2.3", "1.10.0"), Some(true));
    assert_eq!(version_lt("2.0.0", "1.10.0"), Some(false));
    assert_eq!(version_lt("1.0.0", "1.0.0"), Some(false));
    assert_eq!(version_lt("1.0", "1.0.0"), None);
    assert_eq!(parse_version("  vv1.2.3.4  "), Some((1, 2, 3)));
    assert_eq!(parse_version("1.2.+3"), None);
    assert_eq!(parse_version("+1.2.3"), Some((1, 2, 3)));
    assert_eq!(parse_version("1.2.18446744073709551615"), Some((1, 2, u64::MAX)));
    assert_eq!(parse_version("1.2.18446744073709551616"), None);
    assert_eq!(parse_version("1..3"), None);
    assert_eq!(
        server_version_warnings("0.9.9"),
        vec![
            "Server 1.0.0+ required for the drive API (this server: 0.9.9)".to_string(),
            "Server 1.0.0+ required for session events and device pairing (this server: 0.9.9)"
                .to_string(),
        ]
    );
}

#[test]
fn validation_says_why() {
    assert_eq!(
        validate_instance_url("  ///  ").unwrap_err(),
        "URL is required"
    );
    assert_eq!(
        validate_instance_url("not a url").unwrap_err(),
        "Invalid URL: relative URL without a base"
    );
    assert_eq!(
        validate_instance_url("https://").unwrap_err(),
        "Invalid URL: empty host"
    );
    assert_eq!(
        validate_instance_url("http://persea.example.com").unwrap_err(),
        "Only https URLs are allowed (http is accepted for localhost only). Use https in production."
    );
    assert_eq!(
        validate_instance_url("ftp://persea.example.com").unwrap_err(),
        "URL must start with https:// (or http:// for localhost)"
    );
    assert_eq!(
        validate_instance_url(" https://x.example.com/base// ").unwrap(),
        "https://x.example.com/base"
    );
    let hostless = Ok(UrlParts {
        scheme: "https".into(),
        host: None,
        segments: None,
    });
    assert_eq!(
        accept_address("https:x", &hostless).unwrap_err(),
        "URL must include a host"
    );
    // A second validation changes nothing.
    let once = validate_instance_url("https://x.example.com//").unwrap();
    assert_eq!(validate_instance_url(&once).unwrap(), once);
}

#[test]
fn plain_http_is_warned_about_with_and_without_port() {
    let p = ok_probe();
    for url in [
        "http://localhost",
        "http://localhost:8089",
        "http://127.0.0.1:8089/x",
        "http://[::1]:8089",
    ] {
        let w = probe_warnings(url, &p);
        assert_eq!(w.len(), 1, "{}", url);
        assert!(w[0].starts_with("Plain http transport"));
    }
    assert!(probe_warnings("https://localhost", &p).is_empty());
    assert!(probe_warnings("http://persea.example.com", &p).is_empty());
    assert!(is_loopback_host("127.1.2.3"));
    assert!(!is_loopback_host("128.0.0.1"));
    for host in [
        "127.evil.com",
        "127.0.0.1.evil.com",
        "127.0.0",
        "127.0.0.1.2",
        "127.0.0.256",
        "127.0.0.+1",
        "127..0.1",
        "127.",
        "localhost.evil.com",
    ] {
        assert!(!is_loopback_host(host), "{}", host);
    }
    assert!(is_loopback_host("127.255.255.255"));
    assert!(validate_instance_url("http://127.evil.com").is_err());
    assert!(validate_instance_url("https://127.evil.com").is_ok());
    assert!(probe_warnings("http://127.evil.com", &p).is_empty());
}

#[test]
fn status_replies_are_read() {
    let body = br#"{"version":"1.2.0","capabilities":{"a":true,"b":false,"c":"x"},
        "latest_version":"1.3.0","update_available":true}"#
        .to_vec();
    let s = parse_status(200, &body).unwrap();
    assert_eq!(s.version, "1.2.0");
    assert_eq!(s.capabilities.get("a"), Some(&true));
    assert_eq!(s.capabilities.get("b"), Some(&false));
    assert_eq!(s.capabilities.get("c"), Some(&false));
    assert_eq!(s.capabilities.get("d"), None);
    assert_eq!(s.capabilities.len(), 3);
    assert_eq!(s.latest_version.as_deref(), Some("1.3.0"));
    assert!(s.update_available);
    let s = parse_status(204, &b"{}".to_vec()).unwrap();
    assert_eq!(s.version, "unknown");
    assert_eq!(s.capabilities.len(), 0);
    assert!(s.latest_version.is_none());
    assert!(!s.update_available);
    assert_eq!(
        parse_status(503, &Vec::new()).unwrap_err(),
        "status endpoint returned 503 Service Unavailable"
    );
    assert_eq!(
        parse_status(200, &b"<html>".to_vec()).unwrap_err(),
        "error decoding response body"
    );
    let s = status_fields(None, Some(vec![("k".to_string(), None)]), None, Some(false));
    assert_eq!(s.capabilities.get("k"), Some(&false));
    assert_eq!(status_url("https://x/"), "https://x/api/auth/status");
    assert_eq!(sessions_url("https://x"), "https://x/api/sessions");
}

#[test]
fn probes_are_put_together_from_replies() {
    let status = parse_status(200, &br#"{"version":"1.2.0"}"#.to_vec());
    let p = probe_server_at(status, Some("/setup/step1"), Some(401), 9);
    assert!(p.ok && p.needs_setup && p.auth_failed);
    assert_eq!((p.version.as_str(), p.checked_at), ("1.2.0", 9));
    assert!(p.error.is_none());
    let p = probe_server_at(Err("operation timed out".into()), None, None, 9);
    assert!(!p.ok && !p.needs_setup && !p.auth_failed);
    assert_eq!(
        p.error.as_deref(),
        Some("the server did not respond (connection refused or timed out)")
    );
    // The clock is well past the start of the epoch.
    assert!(probe_server(Err("x".into()), None, None).checked_at > 1_600_000_000);
    assert!(!needs_setup(Some("/login")));
    assert!(!credential_rejected(Some(403)));
    assert!(!credential_rejected(None));
    let paired = || Some("p".to_string());
    assert_eq!(
        stored_bearer(Some(("t".into(), false)), paired()).as_deref(),
        Some("t")
    );
    assert_eq!(
        stored_bearer(Some(("t".into(), true)), paired()).as_deref(),
        Some("p")
    );
    assert_eq!(stored_bearer(None, paired()).as_deref(), Some("p"));
    assert!(stored_bearer(Some(("t".into(), true)), None).is_none());
}

#[test]
fn a_probe_is_taken_in_under_its_server() {
    let mut store = sample_store();
    let url = "https://persea.example.com";
    let view = store_probe_at(&mut store, url, unreachable_probe_at("down".into(), 8), 9).unwrap();
    assert!(!view.ok);
    assert_eq!((view.version.as_str(), view.checked_at), ("1.0.0", 9));
    assert!(capability(Some(&store), url, "desktop_pairing"));
    // A first probe that fails brings no capability.
    let lab = "https://lab.example.com";
    store_probe(&mut store, lab, unreachable_probe("down".into())).unwrap();
    assert!(!capability(Some(&store), lab, "desktop_pairing"));
    assert_eq!(
        store_probe(&mut store, "https://gone", ok_probe()).unwrap_err(),
        "No instance with URL https://gone"
    );
    let again = apply_probe_at(None, unreachable_probe_at("x".into(), 3), 4);
    assert_eq!(again.checked_at, 3);
}

#[test]
fn listing_shows_every_server() {
    let store = sample_store();
    let views = cmd_instances_list(Some(&store)).unwrap();
    assert_eq!(views.len(), 2);
    assert_eq!(views[0].probe.as_ref().unwrap().version, "1.0.0");
    assert!(views[1].probe.is_none());
    assert_eq!(
        cmd_instances_list(None).unwrap_err(),
        "instance store is not initialized"
    );
    assert_eq!(instance_view(&store.file.instances[1]).name, "Lab");
    assert_eq!(main_window_missing(), "main window not found");
}

#[test]
fn adding_says_why_not() {
    let store = sample_store();
    assert_eq!(
        cmd_instances_add(Some(&store), "  ", "https://x.example.com").unwrap_err(),
        "Name is required"
    );
    assert_eq!(
        cmd_instances_add(None, "X", "https://x.example.com").unwrap_err(),
        "instance store is not initialized"
    );
    assert_eq!(
        cmd_instances_add(Some(&store), "", "").unwrap_err(),
        "URL is required"
    );
    let request = cmd_instances_add(Some(&store), " X ", "https://x.example.com/").unwrap();
    assert_eq!(request.name, "X");
    assert_eq!(request.url, "https://x.example.com");
    assert!(!request.default);
    let mut empty = InstanceStore::empty(path());
    let first = AddRequest {
        name: "A".into(),
        url: "https://a.example.com".into(),
        default: true,
    };
    let view = add_instance(&mut empty, first, Some(true), ok_probe());
    assert!(view.default);
    assert_eq!(view.allow_insecure_tls, Some(true));
    assert_eq!(auto_open(&empty).as_deref(), Some("https://a.example.com"));
}

#[test]
fn updates_move_the_address_and_what_was_last_used() {
    let mut store = sample_store();
    let lab = "https://lab.example.com";
    assert_eq!(
        cmd_instances_update(Some(&store), "https://z", None, None).unwrap_err(),
        "No instance with URL https://z"
    );
    assert_eq!(
        cmd_instances_update(Some(&store), lab, Some(" "), None).unwrap_err(),
        "Name is required"
    );
    assert_eq!(
        cmd_instances_update(Some(&store), lab, None, Some("https://persea.example.com/"))
            .unwrap_err(),
        "An instance with URL https://persea.example.com already exists"
    );
    assert_eq!(
        cmd_instances_update(None, lab, None, None).unwrap_err(),
        "instance store is not initialized"
    );
    assert_eq!(
        cmd_instances_update(Some(&store), lab, Some("L"), None).unwrap(),
        None
    );
    // Its own address is no conflict.
    assert_eq!(
        cmd_instances_update(Some(&store), lab, None, Some(lab)).unwrap(),
        Some(lab.to_string())
    );
    let checked =
        cmd_instances_update(Some(&store), lab, Some(" New "), Some("https://new.example.com/"))
            .unwrap();
    assert_eq!(checked.as_deref(), Some("https://new.example.com"));
    let view = apply_update(
        &mut store,
        lab,
        Some(" New "),
        checked,
        Some(false),
        Some(ok_probe()),
    )
    .unwrap();
    assert_eq!(view.name, "New");
    assert_eq!(view.url, "https://new.example.com");
    assert_eq!(view.allow_insecure_tls, Some(false));
    assert_eq!(
        store.file.last_used.as_deref(),
        Some("https://new.example.com")
    );
    assert_eq!(
        apply_update(&mut store, lab, None, None, None, None).unwrap_err(),
        "No instance with URL https://lab.example.com"
    );
}

#[test]
fn the_chosen_default_is_opened_at_startup() {
    let mut store = sample_store();
    cmd_instances_set_default(&mut store, "https://lab.example.com").unwrap();
    let defaults: Vec<bool> = store.file.instances.iter().map(|i| i.default).collect();
    assert_eq!(defaults, vec![false, true]);
    assert_eq!(
        cmd_instances_open_default(Some(&store)).unwrap(),
        "https://lab.example.com"
    );
    assert_eq!(
        cmd_instances_set_default(&mut store, "https://z").unwrap_err(),
        "No instance with URL https://z"
    );
    assert_eq!(
        cmd_instances_open_default(Some(&InstanceStore::empty(path()))).unwrap_err(),
        "No instances configured"
    );
    assert_eq!(
        cmd_instances_open_default(None).unwrap_err(),
        "instance store is not initialized"
    );
}

#[test]
fn opening_notes_what_was_used() {
    let mut store = sample_store();
    assert_eq!(
        cmd_instances_open(&mut store, "https://persea.example.com/").unwrap(),
        "https://persea.example.com"
    );
    assert_eq!(
        store.file.last_used.as_deref(),
        Some("https://persea.example.com")
    );
    assert_eq!(
        cmd_instances_open(&mut store, "https://z.example.com").unwrap_err(),
        "No instance with URL https://z.example.com"
    );
    assert_eq!(
        open_address(&mut store, Err("bad".into())).unwrap_err(),
        "bad"
    );
    assert_eq!(
        cmd_instances_open_setup("https://x.example.com/").unwrap().1,
        "https://x.example.com/setup"
    );
    assert!(cmd_instances_open_setup("x").is_err());
    assert_eq!(
        cmd_instances_remove(&mut store, "https://z").unwrap_err(),
        "no instance with URL https://z"
    );
}

#[test]
fn probe_requests_resolve_the_override() {
    let mut store = sample_store();
    store.file.instances[0].allow_insecure_tls = Some(true);
    assert_eq!(
        cmd_instances_probe(Some(&store), "https://persea.example.com/", false).unwrap(),
        ("https://persea.example.com".to_string(), true)
    );
    assert_eq!(
        cmd_instances_probe(Some(&store), "https://z.example.com", false).unwrap_err(),
        "No instance with URL https://z.example.com"
    );
    assert_eq!(
        cmd_instances_probe(None, "https://z.example.com", false).unwrap_err(),
        "instance store is not initialized"
    );
}
