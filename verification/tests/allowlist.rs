use persea_desktop::allowlist::{
    allowlist_origins, populate_remote_urls, splice_urls, valid_allowlist_origin,
};

const FILE: &str = "{\n  \"remote\": {\n    \"urls\": []\n  }\n}\n";

#[test]
fn addresses_of_the_web_are_let_in() {
    assert_eq!(
        valid_allowlist_origin(" https://persea.example.com \t").as_deref(),
        Some("https://persea.example.com")
    );
    assert_eq!(
        valid_allowlist_origin("http://127.0.0.1:8089").as_deref(),
        Some("http://127.0.0.1:8089")
    );
    assert!(valid_allowlist_origin("ftp://persea.example.com").is_none());
    assert!(valid_allowlist_origin("persea.example.com").is_none());
    assert!(valid_allowlist_origin("").is_none());
}

#[test]
fn what_could_break_the_file_is_refused() {
    assert!(valid_allowlist_origin("https://a\", \"https://b").is_none());
    assert!(valid_allowlist_origin("https://a\\").is_none());
    assert!(valid_allowlist_origin("https://a\u{1}b").is_none());
    assert!(valid_allowlist_origin("https://a\u{7f}b").is_none());
    assert!(valid_allowlist_origin("https://a\u{85}b").is_none());
    assert_eq!(
        valid_allowlist_origin("https://a\u{a1}b").as_deref(),
        Some("https://a\u{a1}b")
    );
}

#[test]
fn lines_are_read_one_by_one() {
    let raw = "# servers\r\n\r\n https://a.example.com\r\nnope\n#https://b.example.com\n\
               http://localhost:8089";
    assert_eq!(
        allowlist_origins(raw),
        vec!["https://a.example.com", "http://localhost:8089"]
    );
    assert!(allowlist_origins("").is_empty());
    assert!(allowlist_origins("\n# nothing\n").is_empty());
}

#[test]
fn the_list_is_written_between_its_brackets() {
    let origins = vec!["https://a".to_string(), "https://b".to_string()];
    let written = splice_urls(FILE, &origins).unwrap();
    assert_eq!(
        written,
        "{\n  \"remote\": {\n    \"urls\": [\"https://a\", \"https://b\"]\n  }\n}\n"
    );
    // A later list takes the place of the first one.
    let later = vec!["https://c".to_string()];
    assert_eq!(
        splice_urls(&written, &later),
        splice_urls(FILE, &later)
    );
    assert_eq!(splice_urls(&written, &Vec::new()).as_deref(), Some(FILE));
}

#[test]
fn files_of_another_shape_are_left_alone() {
    let origins = vec!["https://a".to_string()];
    assert!(splice_urls("{}", &origins).is_none());
    assert!(splice_urls("\"urls\":[]", &origins).is_none());
    assert!(splice_urls("\"urls\": [", &origins).is_none());
    assert!(splice_urls("\"urls\": [\"http://[::1]\"]", &origins).is_none());
}

#[test]
fn builds_write_only_what_changes() {
    let raw = "https://a.example.com\n";
    let written = populate_remote_urls(Some(raw), Some(FILE)).unwrap();
    assert!(written.contains("\"urls\": [\"https://a.example.com\"]"));
    assert!(populate_remote_urls(Some(raw), Some(&written)).is_none());
    assert!(populate_remote_urls(None, Some(FILE)).is_none());
    assert!(populate_remote_urls(Some("# none\n"), Some(FILE)).is_none());
    assert!(populate_remote_urls(Some(raw), None).is_none());
    assert!(populate_remote_urls(Some(raw), Some("{}")).is_none());
    // An address with brackets is written once and refused from there on.
    let six = populate_remote_urls(Some("http://[::1]:8089"), Some(FILE)).unwrap();
    assert!(populate_remote_urls(Some("http://[::1]:8089"), Some(&six)).is_none());
}
