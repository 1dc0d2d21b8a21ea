//! The command decision cores, presentation records, identifier and
//! timestamp rendering, and the SSH configuration helpers.

use gitswitchhub::clock::rfc3339_string;
use gitswitchhub::commands::{
    account_info, account_infos, choose_account, connection_result, convert_remote_to_ssh,
    device_code_info, helper_command, helper_status, mapping_info, mapping_infos,
    register_account, remove_account,
};
use gitswitchhub::database::{Account, AuthMethod, Database};
use gitswitchhub::git_helper::GitHelperError;
use gitswitchhub::github_auth::{DeviceCodeResponse, GitHubAuthError, GitHubUser};
use gitswitchhub::ids::fresh_id;
use gitswitchhub::keychain::KeychainManager;
use gitswitchhub::ssh::{ssh_config_entry, ssh_test_outcome, strip_host_block, key_name_for, SSHManager};

fn user(login: &str) -> GitHubUser {
    GitHubUser {
        login: login.to_string(),
        id: 42,
        avatar_url: format!("https://avatars.example/{}", login),
        name: Some("Display Name".to_string()),
        email: None,
    }
}

#[test]
fn rfc3339_renders_the_epoch() {
    assert_eq!(rfc3339_string(0), "1970-01-01T00:00:00+00:00");
    assert_eq!(rfc3339_string(1431648000), "2015-05-15T00:00:00+00:00");
}

#[test]
fn fresh_ids_have_the_hyphenated_shape() {
    let id = fresh_id();
    assert_eq!(id.len(), 36);
    assert_eq!(id.chars().filter(|c| *c == '-').count(), 4);
}

#[test]
fn account_info_renders_fields() {
    let a = Account {
        id: "id-1".to_string(),
        username: "alice".to_string(),
        avatar_url: Some("https://avatars.example/alice".to_string()),
        auth_method: AuthMethod::DeviceFlow,
        created_at: 0,
    };
    let info = account_info(&a);
    assert_eq!(info.username, "alice");
    assert_eq!(info.auth_method, "device_flow");
    assert_eq!(info.created_at, "1970-01-01T00:00:00+00:00");
}

#[test]
fn mapping_info_renders_fields() {
    let mut db = Database::new();
    db.add_account(&Account {
        id: "id-1".to_string(),
        username: "alice".to_string(),
        avatar_url: None,
        auth_method: AuthMethod::Manual,
        created_at: 10,
    });
    db.set_repository_mapping("https://github.com/org/repo", "id-1", true);
    let m = db
        .get_repository_mapping("https://github.com/org/repo")
        .unwrap();
    let info = mapping_info(&m);
    assert_eq!(info.remote_url, "https://github.com/org/repo");
    assert_eq!(info.account_id, "id-1");
    assert!(info.remember);
}

#[test]
fn device_code_info_copies_the_grant() {
    let d = DeviceCodeResponse {
        device_code: "dev-1".to_string(),
        user_code: "ABCD-1234".to_string(),
        verification_uri: "https://github.com/login/device".to_string(),
        verification_uri_complete: "https://github.com/login/device?user_code=ABCD-1234"
            .to_string(),
        expires_in: 900,
        interval: 5,
    };
    let info = device_code_info(&d);
    assert_eq!(info.user_code, "ABCD-1234");
    assert_eq!(info.expires_in, 900);
}

#[test]
fn connection_result_names_identity_or_error() {
    let ok = connection_result(Ok(user("alice")), Some(vec!["repo".to_string()]));
    assert!(ok.success);
    assert_eq!(ok.message, "Connected as alice");
    assert_eq!(ok.scopes.unwrap(), vec!["repo"]);
    let err = connection_result(Err(GitHubAuthError::InvalidToken), None);
    assert!(!err.success);
    assert_eq!(err.message, "Connection failed: Invalid token");
    assert!(err.scopes.is_none());
}

#[test]
fn helper_status_compares_the_trimmed_configuration() {
    let cmd = helper_command("/usr/local/bin/helper");
    assert_eq!(cmd, "!/usr/local/bin/helper credential-helper");
    let status = helper_status(true, " !/usr/local/bin/helper credential-helper \n", "/usr/local/bin/helper");
    assert!(status.installed);
    assert!(status.configured);
    let other = helper_status(true, "store", "/usr/local/bin/helper");
    assert!(other.installed);
    assert!(!other.configured);
    let missing = helper_status(false, "", "/usr/local/bin/helper");
    assert!(!missing.installed);
    assert!(!missing.configured);
}

#[test]
fn register_account_stores_secret_and_record() {
    let mut db = Database::new();
    let mut kc = KeychainManager::new();
    let info = register_account(&mut db, &mut kc, "tok-a", &user("alice"), AuthMethod::Manual, 1000)
        .unwrap();
    assert_eq!(info.username, "alice");
    assert_eq!(info.auth_method, "manual");
    assert_eq!(info.id.len(), 36);
    assert_eq!(kc.get_token("alice").unwrap(), "tok-a");
    assert_eq!(db.get_account_by_username("alice").unwrap().id, info.id);
    let again =
        register_account(&mut db, &mut kc, "tok-b", &user("alice"), AuthMethod::Manual, 2000);
    assert_eq!(again.unwrap_err(), "Account already exists");
    assert_eq!(kc.get_token("alice").unwrap(), "tok-a");
}

#[test]
fn remove_account_takes_secret_and_mappings_along() {
    let mut db = Database::new();
    let mut kc = KeychainManager::new();
    let info = register_account(&mut db, &mut kc, "tok-a", &user("alice"), AuthMethod::Manual, 1000)
        .unwrap();
    db.set_repository_mapping("https://github.com/org/repo", &info.id, true);
    remove_account(&mut db, &mut kc, &info.id).unwrap();
    assert!(db.get_account_by_id(&info.id).is_none());
    assert!(kc.get_token("alice").is_err());
    assert!(db.get_repository_mappings().is_empty());
    let missing = remove_account(&mut db, &mut kc, &info.id);
    assert_eq!(missing.unwrap_err(), "Account not found");
}

#[test]
fn choose_account_takes_the_most_recent_with_a_secret() {
    let mut db = Database::new();
    let mut kc = KeychainManager::new();
    register_account(&mut db, &mut kc, "tok-a", &user("alice"), AuthMethod::Manual, 100).unwrap();
    register_account(&mut db, &mut kc, "tok-b", &user("bob"), AuthMethod::Manual, 200).unwrap();
    assert_eq!(choose_account(&db, &kc).unwrap(), "bob");
    let empty_db = Database::new();
    assert!(matches!(
        choose_account(&empty_db, &kc),
        Err(GitHelperError::NoAccountsConfigured)
    ));
    kc.delete_token("bob").unwrap();
    assert!(matches!(
        choose_account(&db, &kc),
        Err(GitHelperError::NoTokenForAccount)
    ));
}

#[test]
fn https_remote_converts_to_per_account_ssh() {
    let converted = convert_remote_to_ssh("https://github.com/org/repo.git", "alice").unwrap();
    assert_eq!(converted, "git@github-alice:org/repo.git");
    let refused = convert_remote_to_ssh("git@github.com:org/repo.git", "alice");
    assert_eq!(refused.unwrap_err(), "Not a GitHub HTTPS URL");
}

#[test]
fn ssh_config_is_rendered_for_the_account() {
    let manager = SSHManager::new();
    let config = manager.get_ssh_config("/home/alice", "alice");
    assert_eq!(config.host, "github-alice");
    assert_eq!(config.hostname, "github.com");
    assert_eq!(config.user, "git");
    assert_eq!(config.identity_file, "/home/alice/.ssh/gitswitchhub_alice");
    assert_eq!(key_name_for("alice"), "gitswitchhub_alice");
    let entry = ssh_config_entry(&config);
    assert_eq!(
        entry,
        "\nHost github-alice\nHostName github.com\nUser git\nIdentityFile /home/alice/.ssh/gitswitchhub_alice\nIdentitiesOnly yes\n"
    );
}

#[test]
fn strip_host_block_removes_one_entry() {
    let content = "Host github-alice\nHostName github.com\nUser git\nHost github-bob\nHostName github.com\nUser git";
    let stripped = strip_host_block(content, "alice");
    assert_eq!(stripped, "Host github-bob\nHostName github.com\nUser git");
    let untouched = strip_host_block(content, "carol");
    assert_eq!(untouched, content);
}

#[test]
fn ssh_test_outcome_reads_the_greeting() {
    assert!(ssh_test_outcome("Hi alice! You've successfully authenticated", false));
    assert!(ssh_test_outcome("", true));
    assert!(!ssh_test_outcome("Permission denied (publickey).", false));
}

#[test]
fn listings_are_presented_in_order() {
    let mut db = Database::new();
    db.add_account(&Account {
        id: "id-1".to_string(),
        username: "alice".to_string(),
        avatar_url: None,
        auth_method: AuthMethod::Manual,
        created_at: 100,
    });
    db.add_account(&Account {
        id: "id-2".to_string(),
        username: "bob".to_string(),
        avatar_url: None,
        auth_method: AuthMethod::DeviceFlow,
        created_at: 200,
    });
    db.set_repository_mapping("https://github.com/org/repo", "id-1", true);
    let infos = account_infos(&db.get_accounts());
    assert_eq!(infos.len(), 2);
    assert_eq!(infos[0].username, "bob");
    assert_eq!(infos[1].username, "alice");
    let mappings = mapping_infos(&db.get_repository_mappings());
    assert_eq!(mappings.len(), 1);
    assert_eq!(mappings[0].remote_url, "https://github.com/org/repo");
}

#[test]
fn register_account_records_the_authorization_method() {
    let mut db = Database::new();
    let mut kc = KeychainManager::new();
    let info = register_account(
        &mut db,
        &mut kc,
        "tok-d",
        &user("dora"),
        AuthMethod::DeviceFlow,
        1000,
    )
    .unwrap();
    assert_eq!(info.auth_method, "device_flow");
    assert!(matches!(
        db.get_account_by_username("dora").unwrap().auth_method,
        AuthMethod::DeviceFlow
    ));
}
