use std::path::PathBuf;

use persea_desktop::downloads::{sanitize_filename, DownloadRecord};
use persea_desktop::drive::{
    classify, classify_list, download_failure, download_reply, extract_cookie, hex_val,
    is_drive_path, made_address, parse_drive_url, percent_decode, unescape, BootstrapStep,
    DriveClient, DriveEntry, DriveResponse, DropReject, ListOutcome, StreamBuffer,
    STREAM_FLUSH_BYTES,
};
use persea_desktop::http::CSRF_COOKIE;
use persea_desktop::instances::{CachedProbe, Instance, InstanceStore};
use persea_desktop::textmap::TextMap;
use persea_desktop::drops::{
    conflict_prompt, handle_drop, prompt_message, DropAction, DropEvent, PromptAnswer,
};
use persea_desktop::plan::{
    plan_names, plan_uploads, rename_away, rename_with, ConflictChoice, PlanRun, PlanStep,
};
use persea_desktop::transfer::{
    new_mirror_rows, RowChange, Transfer, TransferDirection, TransferStatus, Transfers, ROW_CAP,
};
use persea_desktop::uploads::{
    download_destination, download_from_url, require_token, retry_listing, upload_outcome,
    upload_size, UploadAction, UploadEvent, SHELL_UPLOAD_CAP_BYTES,
};
use persea_desktop::web::path_file_name;

fn response(status: u16, body: &str) -> DriveResponse {
    DriveResponse {
        status,
        body: body.as_bytes().to_vec(),
        entries: None,
    }
}

fn csrf_headers(token: &str) -> Vec<Option<String>> {
    vec![Some(format!(
        "{CSRF_COOKIE}={token}; Path=/; HttpOnly; SameSite=Lax"
    ))]
}

fn entries(names: &[&str]) -> Vec<DriveEntry> {
    names
        .iter()
        .map(|n| DriveEntry {
            name: n.to_string(),
            size: 10,
            modified: "2026-08-13T00:00:00Z".to_string(),
        })
        .collect()
}

fn header<'a>(headers: &'a [(String, String)], name: &str) -> Option<&'a str> {
    headers
        .iter()
        .find(|(k, _)| k.eq_ignore_ascii_case(name))
        .map(|(_, v)| v.as_str())
}

#[test]
fn upload_bootstraps_csrf_and_echoes_it_with_bearer() {
    let server = "http://127.0.0.1:8089";
    let mut client = DriveClient::new();
    assert_eq!(
        client.bootstrap(server).as_deref(),
        Some("http://127.0.0.1:8089/api/auth/status")
    );
    assert_eq!(
        client.bootstrap_reply(server, 0, Ok(&csrf_headers("csrf-drive-1"))),
        BootstrapStep::Done
    );
    assert!(client.bootstrap(server).is_none());
    let put = client.upload(server, "sess-1", "a.txt", "tkn-1").unwrap();
    assert_eq!(put.method, "PUT");
    assert_eq!(
        put.url,
        "http://127.0.0.1:8089/api/sessions/sess-1/drive-files/a.txt"
    );
    assert_eq!(
        header(&put.headers, "cookie"),
        Some("csrf_token=csrf-drive-1")
    );
    assert_eq!(header(&put.headers, "x-csrf-token"), Some("csrf-drive-1"));
    assert_eq!(header(&put.headers, "authorization"), Some("Bearer tkn-1"));
    assert_eq!(
        header(&put.headers, "content-type"),
        Some("application/octet-stream")
    );
    let created = response(
        201,
        "{\"name\":\"a.txt\",\"size\":4,\"modified\":\"2026-08-13T00:00:00Z\"}",
    );
    assert!(created.is_success());
}

#[test]
fn upload_surfaces_server_errors() {
    let server = "http://127.0.0.1:8089/";
    let mut client = DriveClient::new();
    assert_eq!(
        client.bootstrap_reply(server, 0, Ok(&csrf_headers("csrf-drive-2"))),
        BootstrapStep::Done
    );
    let put = client.upload(server, "sess-1", "a.txt", "tkn-1").unwrap();
    assert_eq!(put.method, "PUT");
    assert_eq!(
        header(&put.headers, "cookie"),
        Some("csrf_token=csrf-drive-2")
    );
    let resp = response(403, "{\"error\":\"owner or admin only\"}");
    assert_eq!(resp.status, 403);
    assert!(!resp.is_success());
    assert_eq!(resp.server_error().as_deref(), Some("owner or admin only"));
    assert_eq!(
        upload_outcome(resp.status, None, resp.server_error(), 4).unwrap_err(),
        "upload failed (the paired token does not own this session)"
    );
}

fn listed(body: &str) -> Option<Vec<DriveEntry>> {
    let value: serde_json::Value = serde_json::from_str(body).ok()?;
    value
        .as_array()?
        .iter()
        .map(|e| {
            Some(DriveEntry {
                name: e.get("name")?.as_str()?.to_string(),
                size: e.get("size")?.as_u64()?,
                modified: e.get("modified")?.as_str()?.to_string(),
            })
        })
        .collect()
}

#[test]
fn list_parses_entries_and_echoes_bearer() {
    let client = DriveClient::new();
    let get = client
        .list("http://127.0.0.1:8089/", "sess-1", "tkn-1")
        .unwrap();
    assert_eq!(get.method, "GET");
    assert_eq!(
        get.url,
        "http://127.0.0.1:8089/api/sessions/sess-1/drive-files"
    );
    assert_eq!(header(&get.headers, "authorization"), Some("Bearer tkn-1"));
    let body = "[{\"name\":\"a.txt\",\"size\":4,\"modified\":\"2026-08-13T00:00:00Z\"},\
                {\"name\":\"b.bin\",\"size\":7,\"modified\":\"2026-08-13T00:00:00Z\"}]";
    let resp = DriveResponse {
        status: 200,
        body: body.as_bytes().to_vec(),
        entries: listed(body),
    };
    assert!(matches!(
        classify_list(&resp),
        ListOutcome::Ready(entries) if entries.len() == 2
    ));
    assert!(matches!(
        classify_list(&resp),
        ListOutcome::Ready(entries) if entries[0].size == 4 && entries[1].size == 7
    ));
}

#[test]
fn list_classification_maps_every_failure_mode() {
    let ssh = classify_list(&response(
        404,
        "{\"error\": \"this session has no file-transfer drive\"}",
    ));
    assert_eq!(ssh, ListOutcome::Reject(DropReject::SshOnly));
    let gone = classify_list(&response(404, "{\"error\": \"session not found\"}"));
    assert_eq!(gone, ListOutcome::Reject(DropReject::SessionGone));
    let owner = classify_list(&response(403, "{\"error\": \"owner or admin only\"}"));
    assert_eq!(owner, ListOutcome::Reject(DropReject::NotOwner));
    let token = classify_list(&response(401, "{\"error\": \"invalid token\"}"));
    assert_eq!(token, ListOutcome::Reject(DropReject::TokenRejected));
    let unreachable = classify_list(&response(503, "{\"error\": \"boom\"}"));
    assert_eq!(
        unreachable,
        ListOutcome::Reject(DropReject::Unreachable("boom".to_string()))
    );
    let ready = classify_list(&response(200, "[]"));
    assert_eq!(ready, ListOutcome::Ready(vec![]));
}

#[test]
fn plan_uploads_resolves_conflicts_per_decision() {
    let existing = entries(&["a.txt", "c.txt"]);
    let files = vec![
        PathBuf::from("/tmp/a.txt"),
        PathBuf::from("/tmp/b.txt"),
        PathBuf::from("/tmp/c.txt"),
    ];
    let decisions = ["Overwrite", "Rename"];
    let mut i = 0;
    let planned = plan_uploads(&files, &existing, |_name: &str| {
        let choice = match decisions[i] {
            "Overwrite" => ConflictChoice::Overwrite,
            _ => ConflictChoice::Rename,
        };
        i += 1;
        choice
    });
    let names: Vec<&str> = planned.iter().map(|p| p.remote_name.as_str()).collect();
    assert_eq!(names, vec!["a.txt", "b.txt", "c (1).txt"]);
    assert_eq!(i, 2);
    assert_eq!(planned[2].local_path, PathBuf::from("/tmp/c.txt"));
}

#[test]
fn plan_uploads_cancel_skips_the_file() {
    let existing = entries(&["a.txt"]);
    let planned = plan_uploads(
        &[PathBuf::from("/tmp/a.txt"), PathBuf::from("/tmp/b.txt")],
        &existing,
        |_: &str| ConflictChoice::Cancel,
    );
    let names: Vec<&str> = planned.iter().map(|p| p.remote_name.as_str()).collect();
    assert_eq!(names, vec!["b.txt"]);
}

#[test]
fn plan_uploads_without_conflicts_keeps_names() {
    let planned = plan_uploads(
        &[PathBuf::from("/tmp/x.txt"), PathBuf::from("/tmp/y.bin")],
        &[],
        |_: &str| ConflictChoice::Cancel,
    );
    let names: Vec<&str> = planned.iter().map(|p| p.remote_name.as_str()).collect();
    assert_eq!(names, vec!["x.txt", "y.bin"]);
}

#[test]
fn plan_uploads_sanitizes_hostile_names() {
    let planned = plan_uploads(
        &[
            PathBuf::from("/tmp/a/b:c.txt"),
            PathBuf::from("/tmp/..hidden"),
        ],
        &[],
        |_: &str| ConflictChoice::Cancel,
    );
    let names: Vec<&str> = planned.iter().map(|p| p.remote_name.as_str()).collect();
    assert_eq!(names, vec!["b_c.txt", "hidden"]);
}

#[test]
fn rename_away_skips_taken_suffixes() {
    let existing: Vec<String> = vec!["a.txt".into(), "a (1).txt".into(), "a (2).txt".into()];
    assert_eq!(rename_away("a.txt", &existing), "a (3).txt");
    assert_eq!(rename_away("notes", &[]), "notes (1)");
    assert_eq!(
        rename_away("notes", &["notes".into(), "notes (1)".into()]),
        "notes (2)"
    );
}

#[test]
fn download_errors_carry_server_message() {
    let err = download_reply(404, &b"{\"error\":\"file not found\"}".to_vec()).unwrap_err();
    assert!(err.contains("404"));
    assert!(err.contains("file not found"));
    let client = DriveClient::new();
    let get = client
        .download_to("http://127.0.0.1:8089", "sess-1", "x.txt", "tkn-1")
        .unwrap();
    assert_eq!(
        get.url,
        "http://127.0.0.1:8089/api/sessions/sess-1/drive-files/x.txt"
    );
    assert_eq!(header(&get.headers, "authorization"), Some("Bearer tkn-1"));
}

#[test]
fn drive_url_parsing_extracts_session_and_name() {
    assert_eq!(
        parse_drive_url(
            "https://persea.example.com/api/sessions/abc-123/drive-files/report%20q1.csv"
        ),
        Some((
            "https://persea.example.com".to_string(),
            "abc-123".to_string(),
            "report q1.csv".to_string()
        ))
    );
    assert_eq!(
        parse_drive_url(
            "https://persea.example.com/api/sessions/abc-123/drive-files/a.txt?token=x"
        ),
        Some((
            "https://persea.example.com".to_string(),
            "abc-123".to_string(),
            "a.txt".to_string()
        ))
    );
    assert_eq!(
        parse_drive_url("blob:https://persea.example.com/uuid"),
        None
    );
    assert_eq!(
        parse_drive_url("https://persea.example.com/export/report.csv"),
        None
    );
}

fn record(url: &str, path: &str, success: bool, at: u64) -> DownloadRecord {
    DownloadRecord {
        url: url.to_string(),
        path: Some(PathBuf::from(path)),
        success,
        requested_at_secs: at,
    }
}

#[test]
fn mirror_rows_dedupe_and_mark_interruptions() {
    let a = "https://persea.example.com/api/sessions/s1/drive-files/a.txt";
    let records = vec![
        record(a, "/home/user/Downloads/a.txt", true, 10),
        record(a, "/home/user/Downloads/a.txt", true, 11),
        record(
            "blob:https://persea.example.com/uuid",
            "/home/user/Downloads/shot.png",
            false,
            12,
        ),
    ];
    let mut rows: Vec<Transfer> = Vec::new();
    let first = new_mirror_rows(&rows, &records);
    assert_eq!(first.len(), 3);
    assert_eq!(first[2].status, TransferStatus::Failed);
    rows.extend(first);
    // Re-polling the same records adds nothing.
    assert!(new_mirror_rows(&rows, &records).is_empty());
    // A new record for the same URL at a new time adds a row.
    let again = new_mirror_rows(&rows, &[record(a, "/home/user/Downloads/a.txt", true, 13)]);
    assert_eq!(again.len(), 1);
}

fn done_row() -> Transfer {
    Transfer {
        id: 0,
        direction: TransferDirection::Upload,
        instance: "https://persea.example.com".into(),
        session_id: "sess-1".into(),
        remote_name: "x.txt".into(),
        local_path: None,
        source_url: None,
        status: TransferStatus::Done,
        bytes_total: 1,
        bytes_done: 1,
        error: None,
        created_at: 1,
    }
}

#[test]
fn registry_caps_and_clears_finished() {
    let mut registry = Transfers::new();
    for _ in 0..(ROW_CAP + 5) {
        registry.push_row(done_row());
    }
    assert_eq!(registry.rows.len(), ROW_CAP);
    registry.cmd_transfer_clear_finished();
    assert!(registry.rows.is_empty());
}

#[test]
fn rows_get_numbers_of_their_own_and_the_oldest_goes() {
    let mut list = Transfers::new();
    for i in 0..(ROW_CAP as u64 + 2) {
        assert_eq!(list.push_row(done_row()), i + 1);
    }
    assert_eq!(list.rows[0].id, 3);
    assert_eq!(list.row_index(2), None);
    assert_eq!(list.row_index(3), Some(0));
    assert!(list.with_row(3, RowChange::Reading { total: 9 }));
    assert!(!list.with_row(2, RowChange::Reading { total: 9 }));
    list.cmd_transfer_clear_finished();
    assert_eq!(list.rows.len(), 1);
    assert_eq!(list.rows[0].status, TransferStatus::Reading);
    assert_eq!(list.next_id, ROW_CAP as u64 + 3);
}

#[test]
fn mirroring_numbers_the_new_rows() {
    let mut list = Transfers::new();
    let records = vec![
        record("u", "/home/user/a.txt", true, 1),
        DownloadRecord {
            url: "v".into(),
            path: None,
            success: false,
            requested_at_secs: 2,
        },
    ];
    assert!(list.mirror_engine_downloads(&records));
    assert_eq!(list.rows.len(), 2);
    assert_eq!((list.rows[0].id, list.rows[1].id), (1, 2));
    assert_eq!(list.rows[0].remote_name, "a.txt");
    assert_eq!(list.rows[1].remote_name, "download");
    assert_eq!(
        list.rows[1].error.as_deref(),
        Some("the download was interrupted")
    );
    assert!(!list.mirror_engine_downloads(&records));
    assert_eq!(list.next_id, 3);
}

#[test]
fn mirroring_into_a_full_list_evicts_the_oldest() {
    let mut list = Transfers::new();
    for i in 0..ROW_CAP as u64 {
        list.spawn_upload_at("https://x", "s", PathBuf::from("/tmp/a"), "a", i);
    }
    assert_eq!((list.rows.len(), list.rows[0].id), (ROW_CAP, 1));
    assert!(list.mirror_engine_downloads(&[record("u", "/home/user/b.txt", true, 7)]));
    assert_eq!((list.rows.len(), list.rows[0].id), (ROW_CAP, 2));
    let last = list.rows.last().unwrap();
    assert_eq!((last.id, last.remote_name.as_str()), (ROW_CAP as u64 + 1, "b.txt"));
    assert!(!list.mirror_engine_downloads(&[record("u", "/home/user/b.txt", true, 7)]));
}

#[test]
fn views_say_what_can_be_done() {
    let mut list = Transfers::new();
    let id = list.spawn_upload_at("https://x", "s", PathBuf::from("/tmp/a.txt"), "b.txt", 5);
    list.finish_upload(id, Err("no".into()));
    list.mirror_engine_downloads(&[record(
        "https://x.example.com/api/sessions/s/drive-files/a",
        "/tmp/a",
        true,
        1,
    )]);
    let views = list.transfers_view(&vec![true, false]);
    assert_eq!(views[0].direction, "upload");
    assert_eq!(views[0].status, "failed");
    assert_eq!(views[0].local_name.as_deref(), Some("a.txt"));
    assert!(views[0].can_retry && views[0].can_open_folder && !views[0].can_save_as);
    assert_eq!(views[0].error.as_deref(), Some("no"));
    assert_eq!(views[1].direction, "download");
    assert_eq!(views[1].status, "done");
    assert!(!views[1].can_retry && !views[1].can_open_folder && views[1].can_save_as);
    assert!(TransferStatus::Cancelled.finished());
    assert!(!TransferStatus::Queued.finished());
}

#[test]
fn uploads_go_through_their_steps() {
    let mut list = Transfers::new();
    let id = list.spawn_upload("https://x", "s", PathBuf::from("/tmp/a.txt"), "b.txt");
    assert_eq!(list.rows[0].status, TransferStatus::Queued);
    assert!(list.rows[0].created_at > 1_600_000_000);
    let sized = UploadEvent::Sized {
        path: "/tmp/a.txt".into(),
        size: Ok(4),
    };
    assert!(matches!(
        list.upload_one(id, sized),
        UploadAction::Read { total: 4 }
    ));
    assert_eq!(list.rows[0].status, TransferStatus::Reading);
    assert_eq!(list.rows[0].bytes_total, 4);
    assert!(matches!(
        list.upload_one(id, UploadEvent::Progress { done: 2 }),
        UploadAction::Wait
    ));
    assert_eq!(list.rows[0].bytes_done, 2);
    let read = UploadEvent::Read {
        total: 4,
        result: Ok(()),
    };
    assert!(matches!(
        list.upload_one(id, read),
        UploadAction::FindToken
    ));
    assert_eq!(list.rows[0].status, TransferStatus::Uploading);
    assert_eq!(list.rows[0].bytes_done, 4);
    assert!(matches!(
        list.upload_one(id, UploadEvent::Token(Some("t".into()))),
        UploadAction::Send { bearer } if bearer == "t"
    ));
    let sent = UploadEvent::Sent {
        sent: 4,
        reply: Ok(response(201, "{\"size\":5}")),
    };
    assert!(matches!(
        list.upload_one(id, sent),
        UploadAction::Finish(Ok(5))
    ));
    list.finish_upload(id, Ok(5));
    assert_eq!(list.rows[0].status, TransferStatus::Done);
    assert_eq!((list.rows[0].bytes_total, list.rows[0].bytes_done), (5, 5));
}

#[test]
fn uploads_fail_with_reasons() {
    let mut list = Transfers::new();
    let fail = |list: &mut Transfers, event| match list.upload_one(1, event) {
        UploadAction::Finish(Err(e)) => e,
        other => panic!("{:?}", other),
    };
    assert_eq!(
        fail(&mut list, UploadEvent::Token(None)),
        "no paired token for this instance"
    );
    let read = UploadEvent::Read {
        total: 1,
        result: Err("cannot read".into()),
    };
    assert_eq!(fail(&mut list, read), "cannot read");
    let sent = UploadEvent::Sent {
        sent: 1,
        reply: Err("upload request failed: x".into()),
    };
    assert_eq!(fail(&mut list, sent), "upload request failed: x");
    assert_eq!(
        upload_size("/a", Ok(SHELL_UPLOAD_CAP_BYTES + 1)).unwrap_err(),
        "/a is larger than the 1 GiB drag-drop cap; use the upload button inside the session"
    );
    assert_eq!(
        upload_size("/a", Ok(SHELL_UPLOAD_CAP_BYTES)).unwrap(),
        1024 * 1024 * 1024
    );
    assert_eq!(
        upload_size("/a", Err("gone".into())).unwrap_err(),
        "cannot stat /a: gone"
    );
    assert_eq!(upload_outcome(201, None, None, 9).unwrap(), 9);
    assert_eq!(
        upload_outcome(200, Some(4), None, 9).unwrap_err(),
        "upload failed (HTTP 200)"
    );
    assert_eq!(
        upload_outcome(401, None, Some("m".into()), 9).unwrap_err(),
        "upload failed (the paired token was rejected; re-pair the device)"
    );
    assert_eq!(
        upload_outcome(403, None, Some("m".into()), 9).unwrap_err(),
        "upload failed (the paired token does not own this session)"
    );
    assert_eq!(
        upload_outcome(507, None, Some("full".into()), 9).unwrap_err(),
        "upload failed (full)"
    );
}

#[test]
fn names_of_last_resort_carry_the_stamp() {
    let taken: Vec<String> = (1..10_000).map(|n| format!("a ({n})")).collect();
    assert_eq!(rename_with("a", &taken, 77), "a (77)");
    assert!(rename_away("a", &taken).len() > "a (99999)".len());
    assert_eq!(rename_with("a", &taken[..9_998], 77), "a (9999)");
    assert_eq!(rename_with(".profile", &[], 0), ".profile (1)");
    assert_eq!(rename_with("x.tar.gz", &[], 0), "x.tar (1).gz");
    assert_eq!(rename_with("", &[], 0), " (1)");
}

#[test]
fn plans_ask_once_for_each_taken_name() {
    let raws = vec![
        Some("a".to_string()),
        Some("a".to_string()),
        None,
        Some("...".to_string()),
        Some("b".to_string()),
    ];
    let mut asked: Vec<String> = Vec::new();
    let planned = plan_names(&raws, &entries(&["b"]), |n: &str| {
        asked.push(n.to_string());
        ConflictChoice::Rename
    });
    assert_eq!(
        planned,
        vec![
            (0, "a".to_string()),
            (1, "a (1)".to_string()),
            (4, "b (1)".to_string()),
        ]
    );
    assert_eq!(asked, vec!["a".to_string(), "b".to_string()]);
}

#[test]
fn plans_go_from_question_to_question() {
    let raws = vec![
        Some("a".to_string()),
        Some("b".to_string()),
        Some("b".to_string()),
        Some("c".to_string()),
    ];
    let ask = |name: &str| PlanStep::Ask {
        name: name.to_string(),
    };
    let mut run = PlanRun::new(&raws, &entries(&["b", "c"]));
    assert_eq!(run.step(None, 0), ask("b"));
    // Without an answer the question stays.
    assert_eq!(run.step(None, 0), ask("b"));
    assert_eq!(run.step(Some(ConflictChoice::Overwrite), 0), ask("b"));
    assert_eq!(run.step(Some(ConflictChoice::Rename), 0), ask("c"));
    assert_eq!(run.step(Some(ConflictChoice::Cancel), 0), PlanStep::Done);
    assert_eq!(run.step(Some(ConflictChoice::Rename), 0), PlanStep::Done);
    assert_eq!(
        run.planned,
        vec![
            (0, "a".to_string()),
            (1, "b".to_string()),
            (2, "b (1)".to_string()),
        ]
    );
}

#[test]
fn names_come_from_the_paths_they_belong_to() {
    let files = [PathBuf::from("/a/one.txt"), PathBuf::from("/b/two.txt")];
    let planned = plan_uploads(&files, &[], |_: &str| ConflictChoice::Cancel);
    assert_eq!(planned.len(), 2);
    assert_eq!(planned[0].remote_name, "one.txt");
    assert_eq!(planned[1].remote_name, "two.txt");
    assert_eq!(planned[1].local_path, files[1]);
    assert_eq!(path_file_name(&files[1]).as_deref(), Some("two.txt"));
    assert!(path_file_name(&PathBuf::from("/")).is_none());
}

#[test]
fn file_names_are_made_plain() {
    assert_eq!(
        sanitize_filename("a/b\\c*d?e\"f<g>h|i").as_deref(),
        Some("a_b_c_d_e_f_g_h_i")
    );
    assert_eq!(sanitize_filename("a\u{1}b\u{7f}").as_deref(), Some("a_b_"));
    assert_eq!(sanitize_filename("...").as_deref(), None);
    assert_eq!(sanitize_filename("").as_deref(), None);
    assert_eq!(sanitize_filename("é.txt").as_deref(), Some("é.txt"));
}

#[test]
fn cookies_are_found_among_headers() {
    let values = vec![
        None,
        Some("flag".to_string()),
        Some("other=1; Path=/".to_string()),
        Some("  csrf_token = abc=def ; Path=/".to_string()),
        Some("csrf_token=late".to_string()),
    ];
    assert_eq!(
        extract_cookie(&values, "csrf_token").as_deref(),
        Some("abc=def")
    );
    assert_eq!(extract_cookie(&values, "nope"), None);
    assert_eq!(extract_cookie(&Vec::new(), "csrf_token"), None);
}

#[test]
fn tokens_are_asked_for_three_times() {
    let mut client = DriveClient::default();
    let none: Vec<Option<String>> = Vec::new();
    assert_eq!(
        client.bootstrap_reply("https://x", 0, Err("down".into())),
        BootstrapStep::Retry
    );
    assert_eq!(
        client.bootstrap_reply("https://x", 1, Ok(&none)),
        BootstrapStep::Retry
    );
    assert_eq!(
        client.bootstrap_reply("https://x", 2, Ok(&none)),
        BootstrapStep::Failed("server set no csrf cookie".into())
    );
    assert_eq!(
        client.bootstrap_reply("https://x", 2, Err("down".into())),
        BootstrapStep::Failed("request failed: down".into())
    );
    assert!(client.csrf_token("https://x").is_none());
}

#[test]
fn tokens_are_read_back_per_server() {
    let mut client = DriveClient::new();
    client.store_token("https://x/", "a".into());
    client.store_token("https://y", "b".into());
    assert_eq!(client.csrf_token("https://x").as_deref(), Some("a"));
    assert_eq!(client.csrf_token("https://y//").as_deref(), Some("b"));
    // A reply sets the token of its server anew.
    client.finish(
        "https://x:443/api/sessions/1/drive-files",
        &csrf_headers("c"),
    );
    assert_eq!(client.csrf_token("https://x").as_deref(), Some("c"));
    client.finish("https://y/", &Vec::new());
    assert_eq!(client.csrf_token("https://y").as_deref(), Some("b"));
    client.finish("no url", &csrf_headers("d"));
    assert_eq!(client.csrf_token("https://y").as_deref(), Some("b"));
    let put = DriveClient::new()
        .upload("https://x", "s", "n", "t")
        .unwrap();
    assert_eq!(put.headers.len(), 2);
}

#[test]
fn drive_addresses_escape_names_and_say_why_not() {
    let client = DriveClient::new();
    assert_eq!(
        client
            .drive_url("https://x.example.com/base/", "s 1", Some("a b/c%.txt"))
            .unwrap(),
        "https://x.example.com/api/sessions/s%201/drive-files/a%20b%2Fc%25.txt"
    );
    assert_eq!(
        client.drive_url("nowhere", "s", None).unwrap_err(),
        "invalid instance URL: relative URL without a base"
    );
    assert_eq!(
        client
            .drive_url("mailto:a@example.com", "s", Some("n"))
            .unwrap_err(),
        "invalid drive URL"
    );
    assert_eq!(made_address(Ok(None)).unwrap_err(), "invalid drive URL");
    // What was written is read back.
    let url = client
        .drive_url("https://x.example.com", "s1", Some("ä b%2Fc?#.txt"))
        .unwrap();
    assert_eq!(
        parse_drive_url(&url),
        Some((
            "https://x.example.com".to_string(),
            "s1".to_string(),
            "ä b%2Fc?#.txt".to_string()
        ))
    );
    for name in ["", " ", "%", "a/b\\c", "%2e", "...", "x?y#z", "\u{1}\u{7f}", "C:", "a;b=c"] {
        for server in ["https://persea.example.com", "http://[::1]:8089", "http://127.0.0.1:80"] {
            let url = client.drive_url(server, "sess-1", Some(name)).unwrap();
            let origin = server.trim_end_matches(":80");
            assert_eq!(
                parse_drive_url(&url),
                Some((origin.to_string(), "sess-1".to_string(), name.to_string()))
            );
        }
    }
}

#[test]
fn addresses_are_read_back_with_user_query_and_odd_sessions() {
    let client = DriveClient::new();
    for (server, origin) in [
        ("https://me:pw@x_y~z.example.com:8443/p?q=1&r#f", "https://x_y~z.example.com:8443"),
        ("http://A.Example.com?a/../b", "http://a.example.com"),
        ("https://:@0x7f.1", "https://127.0.0.1"),
    ] {
        for session in ["sess-1", "a_b~.c:1", "...", "!$&'()*+,;=@[]^|"] {
            let url = client.drive_url(server, session, Some("n %/?#")).unwrap();
            assert_eq!(
                parse_drive_url(&url),
                Some((origin.to_string(), session.to_string(), "n %/?#".to_string()))
            );
        }
    }
}

#[test]
fn nested_addresses_are_those_of_no_server() {
    let mut client = DriveClient::new();
    let mut url = "blob:".repeat(20_000);
    url.push_str("https://x.example.com/a");
    client.finish(&url, &csrf_headers("t"));
    assert!(client.csrf_token("https://x.example.com").is_none());
    client.finish("https://x.example.com/a", &csrf_headers("t"));
    assert_eq!(
        client.csrf_token("https://x.example.com").as_deref(),
        Some("t")
    );
}

#[test]
fn percent_signs_are_decoded() {
    assert_eq!(percent_decode("a%20b%2fC%2F"), "a b/C/");
    assert_eq!(percent_decode("100%"), "100%");
    assert_eq!(percent_decode("%zz%4"), "%zz%4");
    assert_eq!(percent_decode("%C3%A4"), "ä");
    assert_eq!(percent_decode("%ff"), "\u{fffd}");
    assert_eq!(unescape(b"%41%"), b"A%".to_vec());
    assert_eq!(hex_val(b'f'), Some(15));
    assert_eq!(hex_val(b'F'), Some(15));
    assert_eq!(hex_val(b'g'), None);
    assert!(!is_drive_path(&vec!["api".to_string()]));
}

#[test]
fn streams_keep_every_byte() {
    let mut buffer = StreamBuffer::new();
    let mut written: Vec<u8> = Vec::new();
    let mut came: Vec<u8> = Vec::new();
    for i in 0..5u8 {
        let chunk = vec![i; STREAM_FLUSH_BYTES / 2 + 1];
        came.extend_from_slice(&chunk);
        if let Some(out) = buffer.push(&chunk) {
            assert!(out.len() >= STREAM_FLUSH_BYTES);
            written.extend_from_slice(&out);
        }
    }
    assert!(written.len() < came.len());
    if let Some(out) = buffer.finish() {
        written.extend_from_slice(&out);
    }
    assert_eq!(written, came);
    assert!(StreamBuffer::new().finish().is_none());
}

#[test]
fn downloads_say_why_not() {
    assert!(download_reply(206, &Vec::new()).is_ok());
    assert_eq!(
        download_failure(500, None),
        "download failed (HTTP 500): unknown error"
    );
    assert_eq!(
        download_from_url("https://x/y").unwrap_err(),
        "not a drive download URL"
    );
    assert_eq!(
        download_from_url("https://x.example.com/api/sessions/s/drive-files/n")
            .unwrap()
            .2,
        "n"
    );
    assert_eq!(download_destination(None).unwrap_err(), "cancelled");
    assert!(download_destination(Some(PathBuf::from("/tmp/n"))).is_ok());
    assert_eq!(
        require_token(None).unwrap_err(),
        "no paired token for this instance"
    );
    assert_eq!(require_token(Some("t".into())).unwrap(), "t");
    let mut list = Transfers::new();
    list.download_drive_file_at("https://x", "s", "n", PathBuf::from("/tmp/n"), 11, 3);
    assert_eq!(list.rows[0].status, TransferStatus::Done);
    assert_eq!((list.rows[0].bytes_total, list.rows[0].created_at), (11, 3));
    list.download_drive_file("https://x", "s", "n", PathBuf::from("/tmp/n"), 11);
    assert_eq!(list.rows.len(), 2);
}

#[test]
fn retries_start_from_an_upload_with_a_file() {
    let mut list = Transfers::new();
    list.push_row(done_row());
    list.spawn_upload_at("https://x", "s", PathBuf::from("/tmp/a"), "a", 1);
    list.download_drive_file_at("https://x", "s", "n", PathBuf::from("/tmp/n"), 1, 1);
    assert_eq!(
        list.cmd_transfer_retry(1).unwrap_err(),
        "the upload has no source file"
    );
    assert_eq!(
        list.cmd_transfer_retry(2).unwrap(),
        (
            "https://x".to_string(),
            "s".to_string(),
            PathBuf::from("/tmp/a")
        )
    );
    for id in [3, 4] {
        assert_eq!(
            list.cmd_transfer_retry(id).unwrap_err(),
            "no upload transfer with that id"
        );
    }
    assert_eq!(
        list.cmd_transfer_open_folder(3).unwrap(),
        PathBuf::from("/tmp/n")
    );
    for id in [1, 9] {
        assert_eq!(
            list.cmd_transfer_open_folder(id).unwrap_err(),
            "no local path for that transfer"
        );
    }
    assert_eq!(
        retry_listing(Err("down".into())).unwrap_err(),
        "could not reach the server: down"
    );
    assert_eq!(
        retry_listing(Ok(response(403, ""))).unwrap_err(),
        "The paired token does not own this session. Pair with the account that started it."
    );
    assert!(retry_listing(Ok(response(200, "[]"))).unwrap().is_empty());
}

fn store_with(capability: bool) -> InstanceStore {
    let mut store = InstanceStore::empty(PathBuf::from("/tmp/instances.json"));
    let mut capabilities = TextMap::new();
    capabilities.insert("desktop_transfers", capability);
    store.file.instances.push(Instance {
        name: "Prod".into(),
        url: "https://x".into(),
        default: true,
        kiosk_allowed: None,
        allow_insecure_tls: None,
        locked: false,
        probe: Some(CachedProbe {
            ok: true,
            version: "1.0.0".into(),
            capabilities,
            latest_version: None,
            update_available: false,
            needs_setup: false,
            auth_failed: false,
            checked_at: 1,
            error: None,
        }),
    });
    store
}

#[test]
fn drops_are_gated_step_by_step() {
    let on = store_with(true);
    let off = store_with(false);
    let title = |store: &InstanceStore, event| match handle_drop(Some(store), "https://x", event) {
        DropAction::Notice { title, .. } => title,
        other => panic!("{:?}", other),
    };
    assert_eq!(title(&off, DropEvent::Dropped { paths: 0 }), "Empty drop");
    assert_eq!(
        title(&off, DropEvent::Dropped { paths: 1 }),
        "Transfers disabled"
    );
    assert!(matches!(
        handle_drop(Some(&on), "https://x", DropEvent::Dropped { paths: 1 }),
        DropAction::FindToken
    ));
    assert_eq!(title(&on, DropEvent::Token(None)), "Device not paired");
    assert!(matches!(
        handle_drop(None, "https://x", DropEvent::Token(Some("t".into()))),
        DropAction::List { bearer } if bearer == "t"
    ));
    assert_eq!(
        title(&on, DropEvent::Listed(Err("down".into()))),
        "Transfer failed"
    );
    assert_eq!(
        title(&on, DropEvent::Listed(Ok(response(401, "")))),
        "Token rejected"
    );
    let listed = DriveResponse {
        status: 200,
        body: Vec::new(),
        entries: Some(entries(&["a"])),
    };
    assert!(matches!(
        handle_drop(Some(&on), "https://x", DropEvent::Listed(Ok(listed))),
        DropAction::Plan { entries } if entries.len() == 1
    ));
}

#[test]
fn rejections_have_titles_and_texts() {
    let all = vec![
        (DropReject::Disabled, "Transfers disabled"),
        (DropReject::PairRequired, "Device not paired"),
        (DropReject::SshOnly, "SSH session"),
        (DropReject::SessionGone, "Session gone"),
        (DropReject::NotOwner, "Not your session"),
        (DropReject::TokenRejected, "Token rejected"),
        (DropReject::Unreachable("x".into()), "Transfer failed"),
    ];
    for (reject, title) in &all {
        assert_eq!(reject.title(), *title);
        assert!(!reject.message().is_empty());
    }
    assert_eq!(
        DropReject::Unreachable("x".into()).message(),
        "Could not reach the server: x"
    );
    assert_eq!(
        DropReject::Disabled.message(),
        "File transfers are disabled by this server. The in-session upload button still works."
    );
    assert_eq!(
        classify(500, &None, None),
        ListOutcome::Reject(DropReject::Unreachable("HTTP 500".into()))
    );
}

#[test]
fn answers_stand_for_choices() {
    let cases = [
        (PromptAnswer::Broken, ConflictChoice::Cancel),
        (PromptAnswer::Yes, ConflictChoice::Overwrite),
        (PromptAnswer::No, ConflictChoice::Rename),
        (PromptAnswer::Okay, ConflictChoice::Overwrite),
        (PromptAnswer::Cancel, ConflictChoice::Cancel),
        (
            PromptAnswer::Custom("Overwrite".into()),
            ConflictChoice::Overwrite,
        ),
        (PromptAnswer::Custom("Rename".into()), ConflictChoice::Rename),
        (PromptAnswer::Custom("?".into()), ConflictChoice::Cancel),
    ];
    for (answer, choice) in &cases {
        assert_eq!(conflict_prompt(answer), *choice);
    }
    assert_eq!(
        prompt_message("a.txt"),
        "a.txt already exists in the session drive. Overwrite it, upload under a new name, or cancel?"
    );
}
