//! The decision cores of the application commands: presentation records,
//! account registration and removal, connection-test summaries, and the
//! helper-installation status check. The shells around them do the I/O.

use vstd::prelude::*;

use crate::clock::{renderable_timestamp, rfc3339_of, rfc3339_string};
use crate::database::{
    accounts_without, accounts_without_id, auth_method_label, auth_method_string,
    has_account_with_id, has_account_with_username, account_with_id, insert_pos,
    mappings_without_account, Account, AccountV, AuthMethod, Database, RepositoryMapping,
};
use crate::github_auth::{auth_error_message, GitHubAuthError, GitHubUser, DeviceCodeResponse};
use crate::ids::fresh_id;
use crate::keychain::{secret_key_of, KeychainManager};
use crate::git_helper::GitHelperError;
use crate::strings::{has_prefix, starts_with_str, str_eq, trim_spec, trim_str};
use vstd::string::StrSliceExecFns;

verus! {

/// An account as presented to a front end, timestamps rendered as text.
#[derive(Debug)]
pub struct AccountInfo {
    pub id: String,
    pub username: String,
    pub avatar_url: Option<String>,
    pub auth_method: String,
    pub created_at: String,
}

/// Present one account record.
pub fn account_info(a: &Account) -> (r: AccountInfo)
    requires
        renderable_timestamp(a.created_at as int),
    ensures
        r.id@ == a.id@,
        r.username@ == a.username@,
        r.avatar_url.deep_view() == a.avatar_url.deep_view(),
        r.auth_method@ == auth_method_label(a.auth_method),
        r.created_at@ == rfc3339_of(a.created_at as int),
{
    let avatar_url = match &a.avatar_url {
        Some(s) => Some(s.clone()),
        None => None,
    };
    AccountInfo {
        id: a.id.clone(),
        username: a.username.clone(),
        avatar_url: avatar_url,
        auth_method: auth_method_string(a.auth_method),
        created_at: rfc3339_string(a.created_at),
    }
}

/// A mapping as presented to a front end.
pub struct RepositoryMappingInfo {
    pub id: String,
    pub remote_url: String,
    pub account_id: String,
    pub remember: bool,
    pub created_at: String,
}

/// Present one mapping record.
pub fn mapping_info(m: &RepositoryMapping) -> (r: RepositoryMappingInfo)
    requires
        renderable_timestamp(m.created_at as int),
    ensures
        r.id@ == m.id@,
        r.remote_url@ == m.remote_url@,
        r.account_id@ == m.account_id@,
        r.remember == m.remember,
        r.created_at@ == rfc3339_of(m.created_at as int),
{
    RepositoryMappingInfo {
        id: m.id.clone(),
        remote_url: m.remote_url.clone(),
        account_id: m.account_id.clone(),
        remember: m.remember,
        created_at: rfc3339_string(m.created_at),
    }
}

/// Present a whole account listing, keeping its order.
pub fn account_infos(accounts: &Vec<Account>) -> (r: Vec<AccountInfo>)
    requires
        forall|i: int|
            0 <= i < accounts.deep_view().len() ==> renderable_timestamp(
                (#[trigger] accounts.deep_view()[i]).created_at,
            ),
    ensures
        r@.len() == accounts.deep_view().len(),
        forall|i: int|
            0 <= i < r@.len() ==> (#[trigger] r@[i]).username@ == accounts.deep_view()[i].username
                && r@[i].id@ == accounts.deep_view()[i].id && r@[i].created_at@ == rfc3339_of(
                accounts.deep_view()[i].created_at,
            ) && r@[i].auth_method@ == auth_method_label(accounts.deep_view()[i].auth_method),
{
    let mut r: Vec<AccountInfo> = Vec::new();
    let mut i: usize = 0;
    while i < accounts.len()
        invariant
            i <= accounts.len(),
            accounts.deep_view().len() == accounts.len(),
            forall|k: int|
                0 <= k < accounts.deep_view().len() ==> renderable_timestamp(
                    (#[trigger] accounts.deep_view()[k]).created_at,
                ),
            r@.len() == i,
            forall|k: int|
                0 <= k < i ==> (#[trigger] r@[k]).username@ == accounts.deep_view()[k].username
                    && r@[k].id@ == accounts.deep_view()[k].id && r@[k].created_at@ == rfc3339_of(
                    accounts.deep_view()[k].created_at,
                ) && r@[k].auth_method@ == auth_method_label(accounts.deep_view()[k].auth_method),
        decreases accounts.len() - i,
    {
        proof {
            assert(accounts.deep_view()[i as int] == accounts@[i as int]@);
        }
        r.push(account_info(&accounts[i]));
        i += 1;
    }
    r
}

/// Present a whole mapping listing, keeping its order.
pub fn mapping_infos(mappings: &Vec<RepositoryMapping>) -> (r: Vec<RepositoryMappingInfo>)
    requires
        forall|i: int|
            0 <= i < mappings.deep_view().len() ==> renderable_timestamp(
                (#[trigger] mappings.deep_view()[i]).created_at,
            ),
    ensures
        r@.len() == mappings.deep_view().len(),
        forall|i: int|
            0 <= i < r@.len() ==> (#[trigger] r@[i]).remote_url@
                == mappings.deep_view()[i].remote_url && r@[i].account_id@
                == mappings.deep_view()[i].account_id && r@[i].id@ == mappings.deep_view()[i].id
                && r@[i].remember == mappings.deep_view()[i].remember && r@[i].created_at@
                == rfc3339_of(mappings.deep_view()[i].created_at),
{
    let mut r: Vec<RepositoryMappingInfo> = Vec::new();
    let mut i: usize = 0;
    while i < mappings.len()
        invariant
            i <= mappings.len(),
            mappings.deep_view().len() == mappings.len(),
            forall|k: int|
                0 <= k < mappings.deep_view().len() ==> renderable_timestamp(
                    (#[trigger] mappings.deep_view()[k]).created_at,
                ),
            r@.len() == i,
            forall|k: int|
                0 <= k < i ==> (#[trigger] r@[k]).remote_url@
                    == mappings.deep_view()[k].remote_url && r@[k].account_id@
                    == mappings.deep_view()[k].account_id && r@[k].id@
                    == mappings.deep_view()[k].id && r@[k].remember
                    == mappings.deep_view()[k].remember && r@[k].created_at@ == rfc3339_of(
                    mappings.deep_view()[k].created_at,
                ),
        decreases mappings.len() - i,
    {
        proof {
            assert(mappings.deep_view()[i as int] == mappings@[i as int]@);
        }
        r.push(mapping_info(&mappings[i]));
        i += 1;
    }
    r
}

/// A device-code grant as presented to a front end.
pub struct DeviceCodeInfo {
    pub device_code: String,
    pub user_code: String,
    pub verification_uri: String,
    pub verification_uri_complete: String,
    pub expires_in: u64,
    pub interval: u64,
}

/// Present one device-code grant.
pub fn device_code_info(d: &DeviceCodeResponse) -> (r: DeviceCodeInfo)
    ensures
        r.device_code@ == d.device_code@,
        r.user_code@ == d.user_code@,
        r.verification_uri@ == d.verification_uri@,
        r.verification_uri_complete@ == d.verification_uri_complete@,
        r.expires_in == d.expires_in,
        r.interval == d.interval,
{
    DeviceCodeInfo {
        device_code: d.device_code.clone(),
        user_code: d.user_code.clone(),
        verification_uri: d.verification_uri.clone(),
        verification_uri_complete: d.verification_uri_complete.clone(),
        expires_in: d.expires_in,
        interval: d.interval,
    }
}

/// The outcome of testing a stored credential against the provider.
pub struct TestConnectionResult {
    pub success: bool,
    pub message: String,
    pub scopes: Option<Vec<String>>,
}

/// Summarize a validation outcome: success names the identity, failure
/// names the error; scopes are reported only on success.
pub fn connection_result(
    outcome: Result<GitHubUser, GitHubAuthError>,
    scopes: Option<Vec<String>>,
) -> (r: TestConnectionResult)
    ensures
        match outcome {
            Ok(u) => r.success && r.message@ == "Connected as "@ + u.login@ && r.scopes == scopes,
            Err(e) => !r.success && r.message@ == "Connection failed: "@ + auth_error_message(e)
                && r.scopes is None,
        },
{
    match outcome {
        Ok(u) => {
            let mut message = String::from_str("Connected as ");
            message.append(u.login.as_str());
            TestConnectionResult { success: true, message: message, scopes: scopes }
        },
        Err(e) => {
            let mut message = String::from_str("Connection failed: ");
            let detail = e.message();
            message.append(detail.as_str());
            TestConnectionResult { success: false, message: message, scopes: None }
        },
    }
}

/// Whether the version-control client is configured to call this helper.
pub struct GitHelperStatus {
    pub installed: bool,
    pub configured: bool,
}

/// The helper line written into the client's global configuration for the
/// executable at `exe_path`.
pub open spec fn helper_command_spec(exe_path: Seq<char>) -> Seq<char> {
    "!"@ + exe_path + " credential-helper"@
}

/// Render the helper line for the executable at `exe_path`.
pub fn helper_command(exe_path: &str) -> (r: String)
    ensures
        r@ == helper_command_spec(exe_path@),
{
    let mut out = String::from_str("!");
    out.append(exe_path);
    out.append(" credential-helper");
    out
}

/// Judge the helper's installation from the configuration lookup: a
/// failed lookup means not installed; otherwise the trimmed configured
/// value must be exactly this executable's helper line.
pub fn helper_status(lookup_ok: bool, config_value: &str, exe_path: &str) -> (r: GitHelperStatus)
    ensures
        !lookup_ok ==> !r.installed && !r.configured,
        lookup_ok ==> r.installed && r.configured == (trim_spec(config_value@)
            == helper_command_spec(exe_path@)),
{
    if !lookup_ok {
        return GitHelperStatus { installed: false, configured: false };
    }
    let trimmed = trim_str(config_value);
    let expected = helper_command(exe_path);
    let configured = str_eq(trimmed.as_str(), expected.as_str());
    GitHelperStatus { installed: true, configured: configured }
}

/// Register a validated identity: refuse a username that already has an
/// account, otherwise store the secret under the identity's username and
/// record the account, marked with how its credential was obtained, as
/// created now.
pub fn register_account(
    db: &mut Database,
    keychain: &mut KeychainManager,
    token: &str,
    user: &GitHubUser,
    method: AuthMethod,
    now: i64,
) -> (r: Result<AccountInfo, String>)
    requires
        old(db).wf(),
        old(keychain).wf(),
        renderable_timestamp(now as int),
    ensures
        final(db).wf(),
        final(keychain).wf(),
        match r {
            Ok(info) => {
                &&& !has_account_with_username(old(db)@.accounts, user.login@)
                &&& final(keychain)@ == old(keychain)@.insert(secret_key_of(user.login@), token@)
                &&& final(db)@.mappings == old(db)@.mappings
                &&& info.username@ == user.login@
                &&& info.auth_method@ == auth_method_label(method)
                &&& info.created_at@ == rfc3339_of(now as int)
                &&& exists|id: Seq<char>|
                    #![trigger accounts_without(old(db)@.accounts, user.login@, id)]
                    {
                        &&& id.len() == 36
                        &&& info.id@ == id
                        &&& final(db)@.accounts == accounts_without(
                            old(db)@.accounts,
                            user.login@,
                            id,
                        ).insert(
                            insert_pos(
                                accounts_without(old(db)@.accounts, user.login@, id),
                                now as int,
                            ),
                            AccountV {
                                id: id,
                                username: user.login@,
                                avatar_url: Some(user.avatar_url@),
                                auth_method: method,
                                created_at: now as int,
                            },
                        )
                    }
            },
            Err(m) => {
                &&& m@ == "Account already exists"@
                &&& has_account_with_username(old(db)@.accounts, user.login@)
                &&& final(db)@ == old(db)@
                &&& final(keychain)@ == old(keychain)@
            },
        },
{
    match db.get_account_by_username(user.login.as_str()) {
        Some(_) => Err(String::from_str("Account already exists")),
        None => {
            let stored = keychain.store_token(user.login.as_str(), token);
            match stored {
                Ok(_) => {},
                Err(_) => {},
            }
            let account = Account {
                id: fresh_id(),
                username: user.login.clone(),
                avatar_url: Some(user.avatar_url.clone()),
                auth_method: method,
                created_at: now,
            };
            let info = account_info(&account);
            db.add_account(&account);
            Ok(info)
        },
    }
}

/// Remove an account: its secret and every mapping referencing it go with
/// it, the mappings before the account record.
pub fn remove_account(
    db: &mut Database,
    keychain: &mut KeychainManager,
    account_id: &str,
) -> (r: Result<(), String>)
    requires
        old(db).wf(),
        old(keychain).wf(),
    ensures
        final(db).wf(),
        final(keychain).wf(),
        match r {
            Ok(_) => {
                &&& has_account_with_id(old(db)@.accounts, account_id@)
                &&& final(db)@.accounts == accounts_without_id(old(db)@.accounts, account_id@)
                &&& final(db)@.mappings == mappings_without_account(
                    old(db)@.mappings,
                    account_id@,
                )
                &&& final(keychain)@ == old(keychain)@.remove(
                    secret_key_of(
                        account_with_id(old(db)@.accounts, account_id@).username,
                    ),
                )
            },
            Err(m) => {
                &&& m@ == "Account not found"@
                &&& !has_account_with_id(old(db)@.accounts, account_id@)
                &&& final(db)@ == old(db)@
                &&& final(keychain)@ == old(keychain)@
            },
        },
{
    match db.get_account_by_id(account_id) {
        None => Err(String::from_str("Account not found")),
        Some(a) => {
            let deleted = keychain.delete_token(a.username.as_str());
            match deleted {
                Ok(_) => {},
                Err(_) => {},
            }
            db.remove_account(account_id);
            Ok(())
        },
    }
}

/// The chooser fallback a front end would refine: the most recently
/// created account, provided it has a stored secret.
pub fn choose_account(db: &Database, keychain: &KeychainManager) -> (r: Result<
    String,
    GitHelperError,
>)
    requires
        db.wf(),
        keychain.wf(),
    ensures
        match r {
            Ok(u) => db@.accounts.len() > 0 && u@ == db@.accounts[0].username
                && keychain@.contains_key(secret_key_of(u@)),
            Err(e) => {
                ||| (e == GitHelperError::NoAccountsConfigured && db@.accounts.len() == 0)
                ||| (e == GitHelperError::NoTokenForAccount && db@.accounts.len() > 0
                    && !keychain@.contains_key(secret_key_of(db@.accounts[0].username)))
            },
        },
{
    let accounts = db.get_accounts();
    if accounts.len() == 0 {
        return Err(GitHelperError::NoAccountsConfigured);
    }
    let a = &accounts[0];
    proof {
        assert(a@ == db@.accounts[0]);
    }
    match keychain.get_token(a.username.as_str()) {
        Ok(_) => Ok(a.username.clone()),
        Err(_) => Err(GitHelperError::NoTokenForAccount),
    }
}

/// Rewrite a hosting-service HTTPS remote into the per-account SSH form,
/// refusing every other shape.
pub fn convert_remote_to_ssh(remote_url: &str, username: &str) -> (r: Result<String, String>)
    ensures
        match r {
            Ok(s) => has_prefix(remote_url@, "https://github.com/"@) && s@ == "git@github-"@
                + username@ + ":"@ + remote_url@.skip("https://github.com/"@.len() as int),
            Err(m) => !has_prefix(remote_url@, "https://github.com/"@) && m@
                == "Not a GitHub HTTPS URL"@,
        },
{
    if starts_with_str(remote_url, "https://github.com/") {
        let plen = "https://github.com/".unicode_len();
        let len = remote_url.unicode_len();
        let path = remote_url.substring_char(plen, len);
        let mut out = String::from_str("git@github-");
        out.append(username);
        out.append(":");
        out.append(path);
        proof {
            assert(remote_url@.subrange("https://github.com/"@.len() as int, remote_url@.len() as int)
                =~= remote_url@.skip("https://github.com/"@.len() as int));
        }
        Ok(out)
    } else {
        Err(String::from_str("Not a GitHub HTTPS URL"))
    }
}

} // verus!
