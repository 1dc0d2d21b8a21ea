//! The secret store and the account directory.

use gitswitchhub::database::{Account, AuthMethod, Database, RepositoryMapping};
use gitswitchhub::keychain::{KeychainError, KeychainManager};

fn account(id: &str, username: &str, created_at: i64) -> Account {
    Account {
        id: id.to_string(),
        username: username.to_string(),
        avatar_url: Some(format!("https://avatars.example/{}", username)),
        auth_method: AuthMethod::DeviceFlow,
        created_at,
    }
}

#[test]
fn keychain_round_trip_and_delete() {
    let mut kc = KeychainManager::new();
    assert!(matches!(
        kc.get_token("alice"),
        Err(KeychainError::ItemNotFound)
    ));
    kc.store_token("alice", "tok-1").unwrap();
    assert_eq!(kc.get_token("alice").unwrap(), "tok-1");
    kc.store_token("alice", "tok-2").unwrap();
    assert_eq!(kc.get_token("alice").unwrap(), "tok-2");
    kc.delete_token("alice").unwrap();
    assert!(matches!(
        kc.get_token("alice"),
        Err(KeychainError::ItemNotFound)
    ));
    assert_eq!(
        KeychainError::ItemNotFound.message(),
        "Item not found"
    );
}

#[test]
fn keychain_keys_differing_only_in_case_stay_apart() {
    let mut kc = KeychainManager::new();
    kc.store_token("Alice", "tok-upper").unwrap();
    kc.store_token("alice", "tok-lower").unwrap();
    assert_eq!(kc.get_token("Alice").unwrap(), "tok-upper");
    assert_eq!(kc.get_token("alice").unwrap(), "tok-lower");
    kc.delete_token("Alice").unwrap();
    assert!(kc.get_token("Alice").is_err());
    assert_eq!(kc.get_token("alice").unwrap(), "tok-lower");
}

#[test]
fn keychain_lists_stored_usernames() {
    let mut kc = KeychainManager::new();
    kc.store_token("alice", "tok-a").unwrap();
    kc.store_token("bob", "tok-b").unwrap();
    let mut names = kc.list_tokens().unwrap();
    names.sort();
    assert_eq!(names, vec!["alice", "bob"]);
}

#[test]
fn accounts_come_back_most_recent_first() {
    let mut db = Database::new();
    db.add_account(&account("id-1", "first", 100));
    db.add_account(&account("id-3", "third", 300));
    db.add_account(&account("id-2", "second", 200));
    let names: Vec<String> = db
        .get_accounts()
        .into_iter()
        .map(|a| a.username)
        .collect();
    assert_eq!(names, vec!["third", "second", "first"]);
}

#[test]
fn adding_same_username_replaces_the_record() {
    let mut db = Database::new();
    db.add_account(&account("id-1", "alice", 100));
    db.add_account(&account("id-2", "alice", 200));
    let accounts = db.get_accounts();
    assert_eq!(accounts.len(), 1);
    assert_eq!(accounts[0].id, "id-2");
    assert_eq!(accounts[0].created_at, 200);
}

#[test]
fn lookup_by_username_and_id() {
    let mut db = Database::new();
    db.add_account(&account("id-1", "alice", 100));
    assert_eq!(db.get_account_by_username("alice").unwrap().id, "id-1");
    assert!(db.get_account_by_username("bob").is_none());
    assert_eq!(db.get_account_by_id("id-1").unwrap().username, "alice");
    assert!(db.get_account_by_id("id-2").is_none());
}

#[test]
fn mapping_is_unique_per_url_and_supersedes() {
    let mut db = Database::new();
    db.add_account(&account("id-a", "alice", 100));
    db.add_account(&account("id-b", "bob", 200));
    db.set_repository_mapping("https://github.com/org/repo", "id-a", true);
    db.set_repository_mapping("https://github.com/org/repo", "id-b", false);
    let m: RepositoryMapping = db
        .get_repository_mapping("https://github.com/org/repo")
        .unwrap();
    assert_eq!(m.account_id, "id-b");
    assert!(!m.remember);
    assert_eq!(m.id.len(), 36);
    assert_eq!(db.get_repository_mappings().len(), 1);
}

#[test]
fn removing_an_account_removes_its_mappings_first() {
    let mut db = Database::new();
    db.add_account(&account("id-a", "alice", 100));
    db.set_repository_mapping("https://github.com/org/repo", "id-a", true);
    db.set_repository_mapping("https://github.com/org/other", "id-a", true);
    db.remove_account("id-a");
    assert!(db.get_account_by_id("id-a").is_none());
    assert!(db
        .get_repository_mapping("https://github.com/org/repo")
        .is_none());
    assert!(db.get_repository_mappings().is_empty());
}

#[test]
fn mappings_can_be_removed_by_identifier() {
    let mut db = Database::new();
    db.add_account(&account("id-a", "alice", 100));
    db.set_repository_mapping("https://github.com/org/repo", "id-a", true);
    let m = db
        .get_repository_mapping("https://github.com/org/repo")
        .unwrap();
    db.remove_repository_mapping(&m.id);
    assert!(db
        .get_repository_mapping("https://github.com/org/repo")
        .is_none());
}
