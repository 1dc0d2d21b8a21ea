//! The credential protocol handler end to end: parsing, origin
//! derivation, resolution, and the rendered output.

use gitswitchhub::database::{Account, AuthMethod, Database};
use gitswitchhub::git_helper::{
    derive_origin, parse_request, render_credential, Credential, GitCredentialHelper,
    GitHelperError,
};
use gitswitchhub::keychain::KeychainManager;

fn account(id: &str, username: &str, created_at: i64) -> Account {
    Account {
        id: id.to_string(),
        username: username.to_string(),
        avatar_url: None,
        auth_method: AuthMethod::Manual,
        created_at,
    }
}

fn lines(v: &[&str]) -> Vec<String> {
    v.iter().map(|s| s.to_string()).collect()
}

#[test]
fn parse_reads_known_keys_and_ignores_others() {
    let req = parse_request(&lines(&[
        "url=https://github.com/org/repo",
        "protocol=https",
        "host=github.com",
        "path=org/repo",
        "quit=1",
        "noequalsign",
    ]));
    assert_eq!(req.url, "https://github.com/org/repo");
    assert_eq!(req.protocol, "https");
    assert_eq!(req.host, "github.com");
    assert_eq!(req.path, "org/repo");
}

#[test]
fn parse_stops_at_blank_line() {
    let req = parse_request(&lines(&["host=github.com", "", "url=https://late.example"]));
    assert_eq!(req.host, "github.com");
    assert_eq!(req.url, "");
}

#[test]
fn parse_later_value_wins() {
    let req = parse_request(&lines(&["host=a.example", "host=b.example"]));
    assert_eq!(req.host, "b.example");
}

#[test]
fn origin_prefers_url_verbatim() {
    let req = parse_request(&lines(&[
        "url=https://github.com/org/repo",
        "protocol=ssh",
        "host=elsewhere.example",
    ]));
    assert_eq!(derive_origin(&req).unwrap(), "https://github.com/org/repo");
}

#[test]
fn origin_builds_from_protocol_and_host() {
    let req = parse_request(&lines(&["protocol=https", "host=github.com"]));
    assert_eq!(derive_origin(&req).unwrap(), "https://github.com");
}

#[test]
fn origin_missing_is_malformed() {
    let req = parse_request(&lines(&["path=org/repo", "protocol=https"]));
    assert!(matches!(
        derive_origin(&req),
        Err(GitHelperError::MalformedRequest)
    ));
}

#[test]
fn render_is_exactly_two_lines() {
    let out = render_credential(&Credential {
        username: "alice".to_string(),
        secret: "tok-a".to_string(),
    });
    assert_eq!(out, "username=alice\npassword=tok-a\n");
}

#[test]
fn respond_honors_remembered_mapping() {
    // The remembered mapping must win over the more recent account.
    let mut db = Database::new();
    db.add_account(&account("id-old", "old-account", 100));
    db.add_account(&account("id-new", "new-account", 200));
    db.set_repository_mapping("https://github.com/org/repo", "id-old", true);
    let mut kc = KeychainManager::new();
    kc.store_token("old-account", "tok-old").unwrap();
    kc.store_token("new-account", "tok-new").unwrap();
    let helper = GitCredentialHelper::new(db, kc);
    let out = helper
        .respond(&lines(&["url=https://github.com/org/repo", ""]))
        .unwrap();
    assert_eq!(out, "username=old-account\npassword=tok-old\n");
}

#[test]
fn respond_mapped_account_without_secret_fails_hard() {
    // A missing secret for a remembered mapping must not fall through to
    // another identity.
    let mut db = Database::new();
    db.add_account(&account("id-a", "alice", 100));
    db.add_account(&account("id-b", "bob", 200));
    db.set_repository_mapping("https://github.com/org/repo", "id-a", true);
    let mut kc = KeychainManager::new();
    kc.store_token("bob", "tok-b").unwrap();
    let helper = GitCredentialHelper::new(db, kc);
    let r = helper.respond(&lines(&["url=https://github.com/org/repo"]));
    assert!(matches!(r, Err(GitHelperError::NoTokenForAccount)));
}

#[test]
fn respond_falls_back_to_most_recent_account() {
    let mut db = Database::new();
    db.add_account(&account("id-a", "alice", 100));
    db.add_account(&account("id-b", "bob", 300));
    db.add_account(&account("id-c", "carol", 200));
    let mut kc = KeychainManager::new();
    kc.store_token("alice", "tok-a").unwrap();
    kc.store_token("bob", "tok-b").unwrap();
    kc.store_token("carol", "tok-c").unwrap();
    let helper = GitCredentialHelper::new(db, kc);
    let first = helper
        .respond(&lines(&["url=https://github.com/org/repo"]))
        .unwrap();
    assert_eq!(first, "username=bob\npassword=tok-b\n");
    // Determinism: the same state answers the same way again.
    let second = helper
        .respond(&lines(&["url=https://github.com/org/repo"]))
        .unwrap();
    assert_eq!(first, second);
}

#[test]
fn respond_with_no_accounts_reports_it() {
    let db = Database::new();
    let kc = KeychainManager::new();
    let helper = GitCredentialHelper::new(db, kc);
    let r = helper.respond(&lines(&["url=https://github.com/org/repo"]));
    assert!(matches!(r, Err(GitHelperError::NoAccountsConfigured)));
    assert_eq!(
        GitHelperError::NoAccountsConfigured.message(),
        "No GitHub accounts configured"
    );
}

#[test]
fn respond_treats_dangling_mapping_as_absent() {
    let mut db = Database::new();
    db.add_account(&account("id-a", "alice", 100));
    db.set_repository_mapping("https://github.com/org/repo", "id-gone", true);
    let mut kc = KeychainManager::new();
    kc.store_token("alice", "tok-a").unwrap();
    let helper = GitCredentialHelper::new(db, kc);
    let out = helper
        .respond(&lines(&["url=https://github.com/org/repo"]))
        .unwrap();
    assert_eq!(out, "username=alice\npassword=tok-a\n");
}

#[test]
fn respond_round_trip_and_supersede() {
    let mut db = Database::new();
    db.add_account(&account("id-a", "alice", 100));
    db.add_account(&account("id-b", "bob", 50));
    let mut kc = KeychainManager::new();
    kc.store_token("alice", "tok-a").unwrap();
    kc.store_token("bob", "tok-b").unwrap();
    db.set_repository_mapping("https://github.com/org/repo", "id-a", true);
    {
        let helper = GitCredentialHelper::new(db, kc);
        let out = helper
            .respond(&lines(&["url=https://github.com/org/repo"]))
            .unwrap();
        assert_eq!(out, "username=alice\npassword=tok-a\n");
        db = helper.db;
        kc = helper.keychain;
    }
    db.set_repository_mapping("https://github.com/org/repo", "id-b", true);
    let helper = GitCredentialHelper::new(db, kc);
    let out = helper
        .respond(&lines(&["url=https://github.com/org/repo"]))
        .unwrap();
    assert_eq!(out, "username=bob\npassword=tok-b\n");
    // Exactly one mapping remains for the URL.
    assert_eq!(helper.db.get_repository_mappings().len(), 1);
}

#[test]
fn respond_distinguishes_url_spellings() {
    // Mapping lookup is literal: another spelling of the same remote is
    // another origin.
    let mut db = Database::new();
    db.add_account(&account("id-a", "alice", 100));
    db.add_account(&account("id-b", "bob", 200));
    db.set_repository_mapping("https://github.com/org/repo.git", "id-a", true);
    let mut kc = KeychainManager::new();
    kc.store_token("alice", "tok-a").unwrap();
    kc.store_token("bob", "tok-b").unwrap();
    let helper = GitCredentialHelper::new(db, kc);
    let out = helper
        .respond(&lines(&["url=https://github.com/org/repo"]))
        .unwrap();
    assert_eq!(out, "username=bob\npassword=tok-b\n");
}

#[test]
fn equal_creation_times_resolve_deterministically() {
    // Among accounts created at the same instant the latest-added one
    // stands first, and the fallback always picks the head.
    let mut db = Database::new();
    db.add_account(&account("id-a", "alice", 100));
    db.add_account(&account("id-b", "bob", 100));
    let mut kc = KeychainManager::new();
    kc.store_token("alice", "tok-a").unwrap();
    kc.store_token("bob", "tok-b").unwrap();
    let helper = GitCredentialHelper::new(db, kc);
    let first = helper
        .respond(&lines(&["url=https://github.com/org/repo"]))
        .unwrap();
    assert_eq!(first, "username=bob\npassword=tok-b\n");
    let second = helper
        .respond(&lines(&["url=https://github.com/org/repo"]))
        .unwrap();
    assert_eq!(first, second);
}

#[test]
fn empty_request_is_malformed() {
    let db = Database::new();
    let kc = KeychainManager::new();
    let helper = GitCredentialHelper::new(db, kc);
    let r = helper.respond(&lines(&[]));
    assert!(matches!(r, Err(GitHelperError::MalformedRequest)));
    assert_eq!(
        GitHelperError::MalformedRequest.message(),
        "No repository URL found"
    );
}
