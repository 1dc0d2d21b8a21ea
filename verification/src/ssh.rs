//! Per-account SSH configuration: names, config entries, the removal of
//! one host block from a config file, and the reading of a connection
//! test's outcome. Key generation and file writes live with the caller.

use vstd::prelude::*;

use crate::strings::{
    contains_substr, has_prefix, has_substring, join_str, join_with, split_by, split_str,
    starts_with_str, trim_spec, trim_str,
};
use vstd::string::StrSliceExecFns;

verus! {

/// Why an SSH-related operation failed.
#[derive(Clone, Debug)]
pub enum SSHError {
    /// An external process reported a failure; the text says what.
    Process(String),
    /// The expected key file is not there.
    KeyNotFound,
}

pub open spec fn ssh_error_message(e: SSHError) -> Seq<char> {
    match e {
        SSHError::Process(m) => "Process error: "@ + m@,
        SSHError::KeyNotFound => "SSH key not found"@,
    }
}

impl SSHError {
    /// A short description of the failure.
    pub fn message(&self) -> (r: String)
        ensures
            r@ == ssh_error_message(*self),
    {
        match self {
            SSHError::Process(m) => {
                let mut out = String::from_str("Process error: ");
                out.append(m.as_str());
                out
            },
            SSHError::KeyNotFound => String::from_str("SSH key not found"),
        }
    }
}

/// A generated key pair, by where it lives.
#[derive(Clone, Debug)]
pub struct SSHKeyInfo {
    pub public_key: String,
    pub private_key_path: String,
    pub key_id: String,
}

/// One host entry of the SSH client configuration.
#[derive(Clone, Debug)]
pub struct SSHConfig {
    pub host: String,
    pub hostname: String,
    pub user: String,
    pub identity_file: String,
}

/// The name under which an account's key file is kept.
pub open spec fn key_name_spec(username: Seq<char>) -> Seq<char> {
    "gitswitchhub_"@ + username
}

/// Render the key file name for an account.
pub fn key_name_for(username: &str) -> (r: String)
    ensures
        r@ == key_name_spec(username@),
{
    let mut out = String::from_str("gitswitchhub_");
    out.append(username);
    out
}

/// The host alias under which an account's connections run.
pub open spec fn host_alias_spec(username: Seq<char>) -> Seq<char> {
    "github-"@ + username
}

/// Manager of per-account SSH configuration.
pub struct SSHManager;

impl SSHManager {
    pub fn new() -> SSHManager {
        SSHManager
    }

    /// The config entry for an account, given the home directory the
    /// caller resolved.
    pub fn get_ssh_config(&self, home_dir: &str, username: &str) -> (r: SSHConfig)
        ensures
            r.host@ == host_alias_spec(username@),
            r.hostname@ == "github.com"@,
            r.user@ == "git"@,
            r.identity_file@ == home_dir@ + "/.ssh/"@ + key_name_spec(username@),
    {
        let mut host = String::from_str("github-");
        host.append(username);
        let mut identity_file = home_dir.to_owned();
        identity_file.append("/.ssh/");
        let key_name = key_name_for(username);
        identity_file.append(key_name.as_str());
        SSHConfig {
            host: host,
            hostname: String::from_str("github.com"),
            user: String::from_str("git"),
            identity_file: identity_file,
        }
    }
}

/// The text appended to the SSH configuration for one entry.
pub open spec fn config_entry_spec(c: SSHConfig) -> Seq<char> {
    "\nHost "@ + c.host@ + "\nHostName "@ + c.hostname@ + "\nUser "@ + c.user@ + "\nIdentityFile "@
        + c.identity_file@ + "\nIdentitiesOnly yes\n"@
}

/// Render the config entry for one host.
pub fn ssh_config_entry(c: &SSHConfig) -> (r: String)
    ensures
        r@ == config_entry_spec(*c),
{
    let mut out = String::from_str("\nHost ");
    out.append(c.host.as_str());
    out.append("\nHostName ");
    out.append(c.hostname.as_str());
    out.append("\nUser ");
    out.append(c.user.as_str());
    out.append("\nIdentityFile ");
    out.append(c.identity_file.as_str());
    out.append("\nIdentitiesOnly yes\n");
    out
}

/// A line that opens a host block: `Host ` after leading whitespace.
pub open spec fn is_host_line(l: Seq<char>) -> bool {
    has_prefix(trim_spec(l), "Host "@)
}

/// The lines kept when the block of one host alias is removed. A line
/// opening the targeted block starts skipping; a different host line ends
/// it; everything outside a skipped block survives.
pub open spec fn strip_lines(lines: Seq<Seq<char>>, pattern: Seq<char>, skipping: bool) -> Seq<
    Seq<char>,
>
    decreases lines.len(),
{
    if lines.len() == 0 {
        Seq::empty()
    } else {
        let l = lines[0];
        if is_host_line(l) && has_substring(l, pattern) {
            strip_lines(lines.skip(1), pattern, true)
        } else if skipping && is_host_line(l) {
            seq![l] + strip_lines(lines.skip(1), pattern, false)
        } else if skipping {
            strip_lines(lines.skip(1), pattern, true)
        } else {
            seq![l] + strip_lines(lines.skip(1), pattern, false)
        }
    }
}

/// The config text with the host block of `username` removed: split into
/// lines, drop the block, join the lines again.
pub open spec fn strip_host_block_spec(content: Seq<char>, username: Seq<char>) -> Seq<char> {
    join_with(
        strip_lines(split_by(content, '\n'), host_alias_spec(username), false),
        "\n"@,
    )
}

/// Remove the host block of `username` from a config text.
pub fn strip_host_block(content: &str, username: &str) -> (r: String)
    ensures
        r@ == strip_host_block_spec(content@, username@),
{
    let lines = split_str(content, '\n');
    let mut pattern = String::from_str("github-");
    pattern.append(username);
    let ghost all = lines.deep_view();
    let ghost pat = pattern@;
    let mut kept: Vec<String> = Vec::new();
    let mut skipping = false;
    let mut i: usize = 0;
    proof {
        assert(all.skip(0) =~= all);
        assert(kept.deep_view() =~= Seq::<Seq<char>>::empty());
    }
    while i < lines.len()
        invariant
            i <= lines.len(),
            all == lines.deep_view(),
            all.len() == lines.len(),
            pat == pattern@,
            strip_lines(all, pat, false) == kept.deep_view() + strip_lines(
                all.skip(i as int),
                pat,
                skipping,
            ),
        decreases lines.len() - i,
    {
        let line = &lines[i];
        proof {
            assert(all.skip(i as int)[0] == all[i as int]);
            assert(all[i as int] == line@);
            assert(all.skip(i as int).skip(1) =~= all.skip(i + 1));
        }
        let trimmed = trim_str(line.as_str());
        let host_line = starts_with_str(trimmed.as_str(), "Host ");
        let ghost kept0 = kept.deep_view();
        let ghost sk0 = skipping;
        let ghost rest = all.skip(i as int);
        if host_line && contains_substr(line.as_str(), pattern.as_str()) {
            skipping = true;
            proof {
                assert(is_host_line(rest[0]) && has_substring(rest[0], pat));
                assert(strip_lines(rest, pat, sk0) == strip_lines(all.skip(i + 1), pat, true));
            }
        } else if skipping && host_line {
            kept.push(line.clone());
            skipping = false;
            proof {
                assert(!(is_host_line(rest[0]) && has_substring(rest[0], pat)));
                assert(is_host_line(rest[0]));
                assert(strip_lines(rest, pat, sk0) == seq![line@] + strip_lines(
                    all.skip(i + 1),
                    pat,
                    false,
                ));
                assert(kept.deep_view() =~= kept0.push(line@));
                assert(kept0 + (seq![line@] + strip_lines(all.skip(i + 1), pat, false))
                    =~= kept.deep_view() + strip_lines(all.skip(i + 1), pat, false));
            }
        } else if skipping {
            proof {
                assert(!(is_host_line(rest[0]) && has_substring(rest[0], pat)));
                assert(!is_host_line(rest[0]));
                assert(strip_lines(rest, pat, sk0) == strip_lines(all.skip(i + 1), pat, true));
            }
        } else {
            kept.push(line.clone());
            proof {
                assert(!(is_host_line(rest[0]) && has_substring(rest[0], pat)));
                assert(strip_lines(rest, pat, sk0) == seq![line@] + strip_lines(
                    all.skip(i + 1),
                    pat,
                    false,
                ));
                assert(kept.deep_view() =~= kept0.push(line@));
                assert(kept0 + (seq![line@] + strip_lines(all.skip(i + 1), pat, false))
                    =~= kept.deep_view() + strip_lines(all.skip(i + 1), pat, false));
            }
        }
        i += 1;
    }
    proof {
        assert(all.skip(lines.len() as int) =~= Seq::<Seq<char>>::empty());
        assert(kept.deep_view() + Seq::<Seq<char>>::empty() =~= kept.deep_view());
    }
    join_str(&kept, "\n")
}

/// Read a connection test's outcome: the provider closes the session
/// after announcing success, so a matching message or an exit status of
/// one counts as success.
pub fn ssh_test_outcome(stderr_text: &str, exit_code_is_one: bool) -> (r: bool)
    ensures
        r == (has_substring(stderr_text@, "successfully authenticated"@) || has_substring(
            stderr_text@,
            "Hi"@,
        ) || exit_code_is_one),
{
    contains_substr(stderr_text, "successfully authenticated") || contains_substr(
        stderr_text,
        "Hi",
    ) || exit_code_is_one
}

} // verus!
