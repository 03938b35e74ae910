use discodigg::cli::validate_url;
use discodigg::invites::{get_invite_code_from_url, invite_codes, resolve_invite_urls};
use discodigg::servers::{servers_from_yaml, ServersFileError};

#[test]
fn extract_takes_last_path_segment() {
    assert_eq!(
        get_invite_code_from_url("https://x.test/abc/INVITECODE").unwrap(),
        "INVITECODE"
    );
    assert_eq!(
        get_invite_code_from_url("https://discord.gg/rust-lang").unwrap(),
        "rust-lang"
    );
}

#[test]
fn extract_is_repeatable() {
    for _ in 0..3 {
        assert_eq!(
            get_invite_code_from_url("https://x.test/abc/INVITECODE").unwrap(),
            "INVITECODE"
        );
        assert!(get_invite_code_from_url("not a url").is_err());
    }
}

#[test]
fn extract_rejects_malformed_input() {
    let e = get_invite_code_from_url("not a url").unwrap_err();
    assert_eq!(e.input, "not a url");
}

#[test]
fn extract_rejects_empty_path() {
    assert!(get_invite_code_from_url("https://x.test/").is_err());
    assert!(get_invite_code_from_url("https://x.test/abc/").is_err());
}

#[test]
fn codes_of_a_list_in_order() {
    let urls = vec![
        "https://discord.gg/one".to_string(),
        "https://discord.com/invite/two".to_string(),
    ];
    assert_eq!(invite_codes(&urls).unwrap(), vec!["one", "two"]);
}

#[test]
fn codes_fail_on_first_malformed() {
    let urls = vec![
        "https://discord.gg/one".to_string(),
        "mailto".to_string(),
        "https://discord.gg/".to_string(),
    ];
    assert_eq!(invite_codes(&urls).unwrap_err().input, "mailto");
}

#[test]
fn resolve_keeps_serialization() {
    let urls = vec!["https://Discord.GG".to_string(), "http://x.test/a".to_string()];
    let parsed = resolve_invite_urls(urls).unwrap();
    assert_eq!(parsed, vec!["https://discord.gg/", "http://x.test/a"]);
}

#[test]
fn resolve_rejects_relative_link() {
    let urls = vec!["https://x.test/a".to_string(), "/relative".to_string()];
    assert_eq!(resolve_invite_urls(urls).unwrap_err().input, "/relative");
}

#[test]
fn validate_accepts_web_links_trimmed() {
    assert_eq!(validate_url("  https://discord.gg/abc \n").unwrap(), "https://discord.gg/abc");
    assert_eq!(validate_url("http://x.test").unwrap(), "http://x.test");
}

#[test]
fn validate_rejects_other_schemes() {
    assert_eq!(
        validate_url("ftp://x.test").unwrap_err(),
        "URL must start with http:// or https://"
    );
    assert!(validate_url("discord.gg/abc").is_err());
}

#[test]
fn servers_document_lists_entries() {
    let doc = "servers:\n  - name: Rust\n    invite_url: https://discord.gg/rust-lang\n  - name: Tokio\n    invite_url: https://discord.gg/tokio\n";
    let servers = servers_from_yaml(doc).unwrap();
    assert_eq!(servers.len(), 2);
    assert_eq!(servers[0].invite_url, "https://discord.gg/rust-lang");
    assert_eq!(servers[1].invite_url, "https://discord.gg/tokio");
    assert!(servers[0].name.contains("Rust"));
    assert!(servers[1].name.contains("Tokio"));
}

#[test]
fn servers_document_without_list_is_empty() {
    assert!(servers_from_yaml("other: 1\n").unwrap().is_empty());
    assert!(servers_from_yaml("servers: 3\n").unwrap().is_empty());
}

#[test]
fn servers_document_with_bad_link_fails() {
    let doc = "servers:\n  - name: Bad\n    invite_url: not a url\n";
    match servers_from_yaml(doc) {
        Err(ServersFileError::Entry(e)) => assert_eq!(e.input, "not a url"),
        other => panic!("unexpected result: {:?}", other),
    }
}

#[test]
fn servers_document_with_missing_field_fails() {
    let doc = "servers:\n  - name: Rust\n    invite_url: https://discord.gg/rust-lang\n  - name: Missing\n";
    match servers_from_yaml(doc) {
        Err(ServersFileError::Entry(e)) => assert_eq!(e.reason, "missing name or invite_url"),
        other => panic!("unexpected result: {:?}", other),
    }
}

#[test]
fn servers_document_with_non_string_link_fails() {
    let doc = "servers:\n  - name: Rust\n    invite_url: 42\n";
    match servers_from_yaml(doc) {
        Err(ServersFileError::Entry(e)) => assert_eq!(e.reason, "invite_url is not a string"),
        other => panic!("unexpected result: {:?}", other),
    }
}

#[test]
fn servers_document_that_is_not_yaml_fails() {
    match servers_from_yaml("servers: [a, b\n") {
        Err(ServersFileError::Yaml(_)) => {}
        other => panic!("unexpected result: {:?}", other),
    }
}
