use std::path::PathBuf;

use persea_desktop::address::{store_key, validate_instance_url};
use persea_desktop::commands::{
    add_instance, apply_update, cmd_instances_add, cmd_instances_remove,
    cmd_instances_set_default, cmd_instances_update, store_probe_at,
};
use persea_desktop::downloads::{sanitize_filename, DownloadRecord};
use persea_desktop::drive::DriveEntry;
use persea_desktop::instances::{CachedProbe, InstanceStore};
use persea_desktop::pairing::{PairingSessions, PairingState};
use persea_desktop::pairing_commands::sanitize_hostname;
use persea_desktop::plan::{plan_uploads, ConflictChoice};
use persea_desktop::probe::{
    probe_server_at, status_fields, unreachable_probe_at, version_lt,
};
use persea_desktop::provisioning::{ProvisionFile, ProvisionedInstance};
use persea_desktop::textmap::TextMap;
use persea_desktop::tokens::{RegisteredToken, RegistryFile, TokenRegistry};
use persea_desktop::transfer::Transfers;

fn down() -> CachedProbe {
    unreachable_probe_at("down".into(), 3)
}

fn added(store: &mut InstanceStore, name: &str, url: &str) {
    let request = cmd_instances_add(Some(store), name, url).unwrap();
    add_instance(store, request, None, down());
}

fn urls(store: &InstanceStore) -> Vec<String> {
    store.file.instances.iter().map(|i| i.url.clone()).collect()
}

fn defaults(store: &InstanceStore) -> usize {
    store.file.instances.iter().filter(|i| i.default).count()
}

fn document(entries: &[(&str, &str, bool)]) -> ProvisionFile {
    ProvisionFile {
        instances: entries
            .iter()
            .map(|(name, url, default)| ProvisionedInstance {
                name: name.to_string(),
                url: url.to_string(),
                default: *default,
            })
            .collect(),
    }
}

#[test]
fn urls_stay_distinct_through_every_command() {
    let mut store = InstanceStore::empty(PathBuf::from("/tmp/instances.json"));
    added(&mut store, "A", "https://a.example.com");
    added(&mut store, "B", "https://b.example.com/");
    assert!(cmd_instances_add(Some(&store), "Again", "https://b.example.com").is_err());
    assert_eq!(store.find("https://b.example.com").unwrap().name, "B");
    let merge = store.apply_provisioned(&document(&[
        ("C", "https://c.example.com", false),
        ("A too", "https://a.example.com", false),
    ]));
    assert_eq!(merge.added, 1);
    cmd_instances_set_default(&mut store, "https://b.example.com").unwrap();
    assert_eq!(defaults(&store), 1);
    assert_eq!(
        store.default_or_last().unwrap().url,
        "https://b.example.com"
    );
    let checked = cmd_instances_update(
        Some(&store),
        "https://b.example.com",
        None,
        Some("https://d.example.com"),
    )
    .unwrap();
    apply_update(
        &mut store,
        "https://b.example.com",
        None,
        checked,
        None,
        Some(down()),
    )
    .unwrap();
    assert_eq!(store.file.last_used.as_deref(), Some("https://d.example.com"));
    store_probe_at(&mut store, "https://d.example.com", down(), 4).unwrap();
    assert_eq!(
        urls(&store),
        vec![
            "https://a.example.com",
            "https://d.example.com",
            "https://c.example.com"
        ]
    );
    cmd_instances_remove(&mut store, "https://d.example.com").unwrap();
    assert!(store.find("https://d.example.com").is_none());
    assert!(store.file.last_used.is_none());
}

#[test]
fn a_document_merged_twice_changes_nothing_the_second_time() {
    let mut store = InstanceStore::empty(PathBuf::from("/tmp/instances.json"));
    added(&mut store, "Own", "https://own.example.com");
    let doc = document(&[
        ("A", "https://a.example.com", true),
        ("B", "https://b.example.com", false),
    ]);
    assert!(store.apply_provisioned(&doc).changed());
    assert_eq!(defaults(&store), 1);
    assert!(store.find("https://a.example.com").unwrap().default);
    let before = urls(&store);
    assert!(!store.apply_provisioned(&doc).changed());
    assert_eq!(urls(&store), before);
    assert_eq!(store.find("https://own.example.com").unwrap().name, "Own");
}

#[test]
fn a_capability_has_to_be_reported() {
    let mut store = InstanceStore::empty(PathBuf::from("/tmp/instances.json"));
    let url = "https://a.example.com";
    added(&mut store, "A", url);
    assert!(!store.capability(url, "desktop_pairing"));
    let told = |on: bool| {
        Ok(status_fields(
            Some("1.0.0".into()),
            Some(vec![("desktop_pairing".to_string(), Some(on))]),
            None,
            None,
        ))
    };
    let reached = probe_server_at(told(true), None, None, 5);
    store_probe_at(&mut store, url, reached, 5).unwrap();
    assert!(store.capability(url, "desktop_pairing"));
    assert!(!store.capability(url, "desktop_transfers"));
    store_probe_at(&mut store, url, down(), 6).unwrap();
    assert!(store.capability(url, "desktop_pairing"));
    assert!(!store.find(url).unwrap().probe.as_ref().unwrap().ok);
    let off = probe_server_at(told(false), None, None, 7);
    store_probe_at(&mut store, url, off, 7).unwrap();
    assert!(!store.capability(url, "desktop_pairing"));
}

#[test]
fn versions_are_in_order() {
    let all = ["0.9.9", "1.0.0", "1.0.1", "1.2.0", "2.0.0"];
    for (i, a) in all.iter().enumerate() {
        for (j, b) in all.iter().enumerate() {
            assert_eq!(version_lt(a, b), Some(i < j));
        }
    }
}

#[test]
fn accepted_addresses_are_kept_as_they_are() {
    for raw in [" https://a.example.com// ", "http://localhost:8089/x/"] {
        let kept = validate_instance_url(raw).unwrap();
        assert!(!kept.ends_with('/'));
        assert_eq!(validate_instance_url(&kept), Ok(kept.clone()));
    }
}

#[test]
fn pairings_with_two_servers_are_separate() {
    let mut sessions = PairingSessions::new();
    let first = sessions.start("https://a", "A".into(), "t".into(), 0);
    let second = sessions.start("https://b/", "B".into(), "t".into(), 0);
    assert_ne!(first, second);
    sessions.pairing_cancel("https://a//");
    assert_eq!(sessions.pairing_status("https://a"), PairingState::Cancelled);
    assert_eq!(sessions.session_code("https://b").as_deref(), Some("B"));
}

#[test]
fn tokens_of_other_servers_stay() {
    let token = |url: &str, id: i64, name: &str, at: u64| RegisteredToken {
        instance_url: url.into(),
        token_id: id,
        token_name: name.into(),
        device_name: "d".into(),
        created_at: at,
    };
    let mut registry = TokenRegistry {
        path: PathBuf::from("/tmp/pairing.json"),
        file: RegistryFile {
            tokens: vec![token("https://a", 1, "n", 1), token("https://b", 1, "n", 2)],
        },
    };
    assert_eq!(registry.register(token("https://a", 2, "n", 3)), vec![1]);
    assert_eq!(registry.for_instance("https://b").len(), 1);
    assert_eq!(registry.latest("https://a").unwrap().token_id, 2);
    assert!(registry.remove("https://a", 2));
    assert!(!registry.has("https://a", 2));
    assert!(registry.has("https://b", 1));
}

#[test]
fn plain_names_stay_as_they_are() {
    let device = sanitize_hostname(" dev_box\u{e9} (1) ");
    assert_eq!(device, "dev_box (1)");
    assert_eq!(sanitize_hostname(&device), device);
    let file = sanitize_filename("report.txt").unwrap();
    assert_eq!(sanitize_filename(&file).as_deref(), Some("report.txt"));
}

#[test]
fn planned_names_are_all_different() {
    let files = vec![
        PathBuf::from("/a/x.txt"),
        PathBuf::from("/b/x.txt"),
        PathBuf::from("/c/x.txt"),
    ];
    let existing = vec![DriveEntry {
        name: "x (1).txt".into(),
        size: 1,
        modified: "m".into(),
    }];
    let planned = plan_uploads(&files, &existing, |_: &str| ConflictChoice::Rename);
    let names: Vec<&str> = planned.iter().map(|p| p.remote_name.as_str()).collect();
    assert_eq!(names, vec!["x.txt", "x (2).txt", "x (3).txt"]);
}

#[test]
fn a_cleared_list_goes_on_counting() {
    let mut list = Transfers::new();
    let first = list.spawn_upload_at("https://a", "s", PathBuf::from("/a"), "a", 1);
    list.finish_upload(first, Ok(3));
    list.cmd_transfer_clear_finished();
    assert!(list.rows.is_empty());
    let second = list.spawn_upload_at("https://a", "s", PathBuf::from("/b"), "b", 2);
    assert_ne!(first, second);
    let records = [DownloadRecord {
        url: "u".into(),
        path: None,
        success: true,
        requested_at_secs: 9,
    }];
    assert!(list.mirror_engine_downloads(&records));
    assert!(!list.mirror_engine_downloads(&records));
    assert_eq!(list.rows.len(), 2);
}

#[test]
fn every_key_of_a_map_is_listed_once() {
    let mut map = TextMap::new();
    map.insert("b", 1);
    map.insert("a", 2);
    map.insert("b", 3);
    assert_eq!(map.len(), 2);
    assert_eq!(map.entry(0), ("b", &3));
    assert_eq!(map.entry(1), ("a", &2));
}

#[test]
fn keys_are_hexadecimal() {
    let key = store_key("https://a.example.com");
    assert_eq!(key.len(), 39);
    assert!(key[7..].chars().all(|c| matches!(c, '0'..='9' | 'a'..='f')));
}
