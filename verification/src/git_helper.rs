//! The credential protocol handler and the account-resolution policy.
//!
//! A request is a sequence of `key=value` lines ending at a blank line or
//! at end of input. From it an origin URL is derived; resolution then
//! prefers a remembered, still-valid mapping and otherwise falls back to
//! the most-recently-created account. A missing secret for a remembered
//! mapping is an error, never an excuse to answer with another identity.

use vstd::prelude::*;

use crate::database::{
    account_with_id, db_wf, has_account_with_id, has_mapping_for, mapping_for,
    mappings_without_url, lemma_mappings_without_url_props, with_mapping, AccountV, Database,
    DbView, MappingV,
};
use crate::keychain::{secret_key_of, KeychainManager};
use crate::strings::{find_char, first_index_of, lemma_first_index_of, str_eq};
use vstd::string::StrSliceExecFns;

verus! {

/// Why the helper could not answer a request.
#[derive(Clone, Copy, Debug, PartialEq, Eq, Structural)]
pub enum GitHelperError {
    /// No origin can be derived from the request lines.
    MalformedRequest,
    /// There is no account to answer with at all.
    NoAccountsConfigured,
    /// The account that should answer has no stored secret.
    NoTokenForAccount,
}

pub open spec fn helper_error_message(e: GitHelperError) -> Seq<char> {
    match e {
        GitHelperError::MalformedRequest => "No repository URL found"@,
        GitHelperError::NoAccountsConfigured => "No GitHub accounts configured"@,
        GitHelperError::NoTokenForAccount => "No token found for account"@,
    }
}

impl GitHelperError {
    /// The diagnostic line for the error channel.
    pub fn message(&self) -> (r: String)
        ensures
            r@ == helper_error_message(*self),
    {
        match self {
            GitHelperError::MalformedRequest => String::from_str("No repository URL found"),
            GitHelperError::NoAccountsConfigured => String::from_str(
                "No GitHub accounts configured",
            ),
            GitHelperError::NoTokenForAccount => String::from_str("No token found for account"),
        }
    }
}

/// One parsed helper request. An empty field stands for an absent one.
pub struct CredentialRequest {
    pub url: String,
    pub protocol: String,
    pub host: String,
    pub path: String,
}

/// Mathematical image of a request.
pub struct CredentialRequestV {
    pub url: Seq<char>,
    pub protocol: Seq<char>,
    pub host: Seq<char>,
    pub path: Seq<char>,
}

impl View for CredentialRequest {
    type V = CredentialRequestV;

    open spec fn view(&self) -> CredentialRequestV {
        CredentialRequestV {
            url: self.url@,
            protocol: self.protocol@,
            host: self.host@,
            path: self.path@,
        }
    }
}

pub open spec fn empty_request() -> CredentialRequestV {
    CredentialRequestV {
        url: Seq::empty(),
        protocol: Seq::empty(),
        host: Seq::empty(),
        path: Seq::empty(),
    }
}

/// How one request line changes the request being built: a line without
/// `=` and a line with an unknown key change nothing; a recognized key
/// takes the text after the first `=` as its new value.
pub open spec fn request_step(r: CredentialRequestV, line: Seq<char>) -> CredentialRequestV {
    match first_index_of(line, '=') {
        None => r,
        Some(i) => {
            let key = line.subrange(0, i);
            let value = line.subrange(i + 1, line.len() as int);
            if key == "url"@ {
                CredentialRequestV { url: value, protocol: r.protocol, host: r.host, path: r.path }
            } else if key == "protocol"@ {
                CredentialRequestV { url: r.url, protocol: value, host: r.host, path: r.path }
            } else if key == "host"@ {
                CredentialRequestV { url: r.url, protocol: r.protocol, host: value, path: r.path }
            } else if key == "path"@ {
                CredentialRequestV { url: r.url, protocol: r.protocol, host: r.host, path: value }
            } else {
                r
            }
        },
    }
}

/// Folding `request_step` over the lines, stopping at the first blank one.
pub open spec fn parse_from(acc: CredentialRequestV, lines: Seq<Seq<char>>) -> CredentialRequestV
    decreases lines.len(),
{
    if lines.len() == 0 {
        acc
    } else if lines[0].len() == 0 {
        acc
    } else {
        parse_from(request_step(acc, lines[0]), lines.skip(1))
    }
}

pub open spec fn parse_request_spec(lines: Seq<Seq<char>>) -> CredentialRequestV {
    parse_from(empty_request(), lines)
}

/// Apply one request line.
fn apply_line(req: CredentialRequest, line: &str) -> (r: CredentialRequest)
    ensures
        r@ == request_step(req@, line@),
{
    match find_char(line, '=') {
        None => req,
        Some(i) => {
            proof {
                lemma_first_index_of(line@, '=');
            }
            let len = line.unicode_len();
            let key = line.substring_char(0, i);
            let value = line.substring_char(i + 1, len).to_owned();
            if str_eq(key, "url") {
                CredentialRequest {
                    url: value,
                    protocol: req.protocol,
                    host: req.host,
                    path: req.path,
                }
            } else if str_eq(key, "protocol") {
                CredentialRequest { url: req.url, protocol: value, host: req.host, path: req.path }
            } else if str_eq(key, "host") {
                CredentialRequest { url: req.url, protocol: req.protocol, host: value, path: req.path }
            } else if str_eq(key, "path") {
                CredentialRequest { url: req.url, protocol: req.protocol, host: req.host, path: value }
            } else {
                req
            }
        },
    }
}

/// Read `key=value` lines until a blank line or the end; unknown keys are
/// ignored, later values win.
pub fn parse_request(lines: &Vec<String>) -> (r: CredentialRequest)
    ensures
        r@ == parse_request_spec(lines.deep_view()),
{
    let ghost all = lines.deep_view();
    let mut req = CredentialRequest {
        url: String::new(),
        protocol: String::new(),
        host: String::new(),
        path: String::new(),
    };
    proof {
        assert(req@ == empty_request());
        assert(all.skip(0) =~= all);
    }
    let mut i: usize = 0;
    while i < lines.len()
        invariant
            i <= lines.len(),
            all == lines.deep_view(),
            all.len() == lines.len(),
            parse_from(req@, all.skip(i as int)) == parse_request_spec(all),
        decreases lines.len() - i,
    {
        let line = &lines[i];
        proof {
            assert(all.skip(i as int)[0] == all[i as int]);
            assert(all[i as int] == line@);
        }
        if line.as_str().is_empty() {
            return req;
        }
        req = apply_line(req, line.as_str());
        proof {
            assert(all.skip(i as int).skip(1) =~= all.skip(i + 1));
        }
        i += 1;
    }
    proof {
        assert(all.skip(lines.len() as int) =~= Seq::<Seq<char>>::empty());
    }
    req
}

/// The origin a request denotes: the `url` verbatim when present, else
/// `protocol://host` when both parts are present, else nothing.
pub open spec fn origin_of(r: CredentialRequestV) -> Option<Seq<char>> {
    if r.url.len() > 0 {
        Some(r.url)
    } else if r.protocol.len() > 0 && r.host.len() > 0 {
        Some(r.protocol + "://"@ + r.host)
    } else {
        None
    }
}

/// Derive the origin, or report the request as malformed.
pub fn derive_origin(req: &CredentialRequest) -> (r: Result<String, GitHelperError>)
    ensures
        match r {
            Ok(o) => origin_of(req@) == Some(o@),
            Err(e) => origin_of(req@) is None && e == GitHelperError::MalformedRequest,
        },
{
    if !req.url.as_str().is_empty() {
        Ok(req.url.clone())
    } else if !req.protocol.as_str().is_empty() && !req.host.as_str().is_empty() {
        let mut origin = req.protocol.clone();
        origin.append("://");
        origin.append(req.host.as_str());
        Ok(origin)
    } else {
        Err(GitHelperError::MalformedRequest)
    }
}

/// The pair the helper answers with.
pub struct Credential {
    pub username: String,
    pub secret: String,
}

/// The account-selection fallback: with no usable mapping, the most
/// recently created account answers; with none at all, resolution fails.
pub open spec fn fallback_spec(
    accounts: Seq<AccountV>,
    kc: Map<Seq<char>, Seq<char>>,
) -> Result<(Seq<char>, Seq<char>), GitHelperError> {
    if accounts.len() == 0 {
        Err(GitHelperError::NoAccountsConfigured)
    } else {
        let a = accounts[0];
        if kc.contains_key(secret_key_of(a.username)) {
            Ok((a.username, kc[secret_key_of(a.username)]))
        } else {
            Err(GitHelperError::NoTokenForAccount)
        }
    }
}

/// The resolution policy. A remembered mapping whose account still exists
/// is honored: its account's secret or `NoTokenForAccount`, never another
/// account. A missing or dangling mapping falls back to the selection
/// policy.
pub open spec fn resolve_spec(
    db: DbView,
    kc: Map<Seq<char>, Seq<char>>,
    origin: Seq<char>,
) -> Result<(Seq<char>, Seq<char>), GitHelperError> {
    if has_mapping_for(db.mappings, origin) && has_account_with_id(
        db.accounts,
        mapping_for(db.mappings, origin).account_id,
    ) {
        let a = account_with_id(db.accounts, mapping_for(db.mappings, origin).account_id);
        if kc.contains_key(secret_key_of(a.username)) {
            Ok((a.username, kc[secret_key_of(a.username)]))
        } else {
            Err(GitHelperError::NoTokenForAccount)
        }
    } else {
        fallback_spec(db.accounts, kc)
    }
}

/// The exact text a successful answer puts on the primary output: the
/// username line, the password line, nothing else.
pub open spec fn credential_output(username: Seq<char>, secret: Seq<char>) -> Seq<char> {
    "username="@ + username + "\n"@ + "password="@ + secret + "\n"@
}

/// Render the two protocol output lines.
pub fn render_credential(c: &Credential) -> (r: String)
    ensures
        r@ == credential_output(c.username@, c.secret@),
{
    let mut out = String::from_str("username=");
    out.append(c.username.as_str());
    out.append("\n");
    out.append("password=");
    out.append(c.secret.as_str());
    out.append("\n");
    out
}

/// What the helper answers to a full request: the rendered credential
/// pair, or the error whose diagnostic goes to the error channel. Nothing
/// is ever produced for the primary output in the error case.
pub open spec fn respond_spec(
    db: DbView,
    kc: Map<Seq<char>, Seq<char>>,
    lines: Seq<Seq<char>>,
) -> Result<Seq<char>, GitHelperError> {
    match origin_of(parse_request_spec(lines)) {
        None => Err(GitHelperError::MalformedRequest),
        Some(o) => match resolve_spec(db, kc, o) {
            Ok(p) => Ok(credential_output(p.0, p.1)),
            Err(e) => Err(e),
        },
    }
}

/// The credential helper: the directory it consults and the secret store
/// it answers from.
pub struct GitCredentialHelper {
    pub db: Database,
    pub keychain: KeychainManager,
}

impl GitCredentialHelper {
    pub open spec fn wf(&self) -> bool {
        self.db.wf() && self.keychain.wf()
    }

    pub fn new(db: Database, keychain: KeychainManager) -> (r: GitCredentialHelper)
        ensures
            r.db == db,
            r.keychain == keychain,
    {
        GitCredentialHelper { db, keychain }
    }

    /// The account-selection fallback.
    fn fallback(&self) -> (r: Result<Credential, GitHelperError>)
        requires
            self.wf(),
        ensures
            match r {
                Ok(c) => fallback_spec(self.db@.accounts, self.keychain@) == Ok::<
                    (Seq<char>, Seq<char>),
                    GitHelperError,
                >((c.username@, c.secret@)),
                Err(e) => fallback_spec(self.db@.accounts, self.keychain@) == Err::<
                    (Seq<char>, Seq<char>),
                    GitHelperError,
                >(e),
            },
    {
        let accounts = self.db.get_accounts();
        if accounts.len() == 0 {
            return Err(GitHelperError::NoAccountsConfigured);
        }
        let a = &accounts[0];
        proof {
            assert(a@ == self.db@.accounts[0]);
        }
        match self.keychain.get_token(a.username.as_str()) {
            Ok(tok) => Ok(Credential { username: a.username.clone(), secret: tok }),
            Err(_) => Err(GitHelperError::NoTokenForAccount),
        }
    }

    /// Decide which credential answers for `origin`.
    pub fn resolve(&self, origin: &str) -> (r: Result<Credential, GitHelperError>)
        requires
            self.wf(),
        ensures
            match r {
                Ok(c) => resolve_spec(self.db@, self.keychain@, origin@) == Ok::<
                    (Seq<char>, Seq<char>),
                    GitHelperError,
                >((c.username@, c.secret@)),
                Err(e) => resolve_spec(self.db@, self.keychain@, origin@) == Err::<
                    (Seq<char>, Seq<char>),
                    GitHelperError,
                >(e),
            },
    {
        match self.db.get_repository_mapping(origin) {
            Some(m) => {
                match self.db.get_account_by_id(m.account_id.as_str()) {
                    Some(a) => {
                        proof {
                            assert(a@ == account_with_id(
                                self.db@.accounts,
                                mapping_for(self.db@.mappings, origin@).account_id,
                            ));
                        }
                        match self.keychain.get_token(a.username.as_str()) {
                            Ok(tok) => Ok(Credential { username: a.username, secret: tok }),
                            Err(_) => Err(GitHelperError::NoTokenForAccount),
                        }
                    },
                    None => self.fallback(),
                }
            },
            None => self.fallback(),
        }
    }

    /// Answer one helper invocation: parse the lines, derive the origin,
    /// resolve, and render the two output lines.
    pub fn respond(&self, lines: &Vec<String>) -> (r: Result<String, GitHelperError>)
        requires
            self.wf(),
        ensures
            match r {
                Ok(out) => respond_spec(self.db@, self.keychain@, lines.deep_view()) == Ok::<
                    Seq<char>,
                    GitHelperError,
                >(out@),
                Err(e) => respond_spec(self.db@, self.keychain@, lines.deep_view()) == Err::<
                    Seq<char>,
                    GitHelperError,
                >(e),
            },
    {
        let req = parse_request(lines);
        let origin = match derive_origin(&req) {
            Ok(o) => o,
            Err(e) => {
                return Err(e);
            },
        };
        match self.resolve(origin.as_str()) {
            Ok(c) => Ok(render_credential(&c)),
            Err(e) => Err(e),
        }
    }
}

/// A remembered, still-valid mapping with a stored secret answers with
/// exactly that mapping's account and that account's secret, never with
/// another account's.
pub proof fn lemma_resolve_honors_mapping(
    db: DbView,
    kc: Map<Seq<char>, Seq<char>>,
    origin: Seq<char>,
)
    requires
        db_wf(db),
        has_mapping_for(db.mappings, origin),
        has_account_with_id(db.accounts, mapping_for(db.mappings, origin).account_id),
        kc.contains_key(
            secret_key_of(
                account_with_id(db.accounts, mapping_for(db.mappings, origin).account_id).username,
            ),
        ),
    ensures
        resolve_spec(db, kc, origin) == Ok::<(Seq<char>, Seq<char>), GitHelperError>(
            (
                account_with_id(db.accounts, mapping_for(db.mappings, origin).account_id).username,
                kc[secret_key_of(
                    account_with_id(
                        db.accounts,
                        mapping_for(db.mappings, origin).account_id,
                    ).username,
                )],
            ),
        ),
{
}

/// With no usable mapping and at least one account, resolution answers
/// from the account at the head of the directory, which is one of maximal
/// creation time; the same state always gives the same answer.
pub proof fn lemma_resolve_fallback_most_recent(
    db: DbView,
    kc: Map<Seq<char>, Seq<char>>,
    origin: Seq<char>,
)
    requires
        db_wf(db),
        !has_mapping_for(db.mappings, origin) || !has_account_with_id(
            db.accounts,
            mapping_for(db.mappings, origin).account_id,
        ),
        db.accounts.len() > 0,
    ensures
        resolve_spec(db, kc, origin) == fallback_spec(db.accounts, kc),
        forall|i: int|
            0 <= i < db.accounts.len() ==> db.accounts[0].created_at >= (
            #[trigger] db.accounts[i]).created_at,
        kc.contains_key(secret_key_of(db.accounts[0].username)) ==> resolve_spec(db, kc, origin)
            == Ok::<(Seq<char>, Seq<char>), GitHelperError>(
            (db.accounts[0].username, kc[secret_key_of(db.accounts[0].username)]),
        ),
        !kc.contains_key(secret_key_of(db.accounts[0].username)) ==> resolve_spec(db, kc, origin)
            == Err::<(Seq<char>, Seq<char>), GitHelperError>(GitHelperError::NoTokenForAccount),
{
}

/// With no configured account, resolution fails with exactly
/// `NoAccountsConfigured`, and a well-formed request is answered by that
/// error: nothing is produced for the primary output.
pub proof fn lemma_no_accounts_resolution(
    db: DbView,
    kc: Map<Seq<char>, Seq<char>>,
    origin: Seq<char>,
    lines: Seq<Seq<char>>,
)
    requires
        db_wf(db),
        db.accounts.len() == 0,
    ensures
        resolve_spec(db, kc, origin) == Err::<(Seq<char>, Seq<char>), GitHelperError>(
            GitHelperError::NoAccountsConfigured,
        ),
        origin_of(parse_request_spec(lines)) is Some ==> respond_spec(db, kc, lines) == Err::<
            Seq<char>,
            GitHelperError,
        >(GitHelperError::NoAccountsConfigured),
{
}

/// A dangling mapping, one whose account is gone, is treated exactly as
/// no mapping at all: resolution is the fallback, not a failure.
pub proof fn lemma_dangling_mapping_ignored(
    db: DbView,
    kc: Map<Seq<char>, Seq<char>>,
    origin: Seq<char>,
)
    requires
        db_wf(db),
        has_mapping_for(db.mappings, origin),
        !has_account_with_id(db.accounts, mapping_for(db.mappings, origin).account_id),
    ensures
        resolve_spec(db, kc, origin) == fallback_spec(db.accounts, kc),
{
}

/// After remembering `url` for an account with a stored secret, resolving
/// `url` yields exactly that account's credential, whatever identifier and
/// timestamp the new mapping record carries.
pub proof fn lemma_set_mapping_round_trip(
    db: DbView,
    kc: Map<Seq<char>, Seq<char>>,
    url: Seq<char>,
    account_id: Seq<char>,
    remember: bool,
    id: Seq<char>,
    ts: int,
)
    requires
        db_wf(db),
        has_account_with_id(db.accounts, account_id),
        kc.contains_key(secret_key_of(account_with_id(db.accounts, account_id).username)),
    ensures
        db_wf(with_mapping(db, url, account_id, remember, id, ts)),
        mapping_for(with_mapping(db, url, account_id, remember, id, ts).mappings, url).account_id
            == account_id,
        resolve_spec(with_mapping(db, url, account_id, remember, id, ts), kc, url) == Ok::<
            (Seq<char>, Seq<char>),
            GitHelperError,
        >(
            (
                account_with_id(db.accounts, account_id).username,
                kc[secret_key_of(account_with_id(db.accounts, account_id).username)],
            ),
        ),
{
    let db2 = with_mapping(db, url, account_id, remember, id, ts);
    let ms = db2.mappings;
    let fm = mappings_without_url(db.mappings, url);
    lemma_mappings_without_url_props(db.mappings, url);
    assert(ms[ms.len() - 1].remote_url == url);
    assert(has_mapping_for(ms, url));
    assert forall|x: int, y: int| 0 <= x < y < ms.len() implies #[trigger] ms[x].remote_url
        != #[trigger] ms[y].remote_url by {
        if y < fm.len() {
            assert(ms[x] == fm[x] && ms[y] == fm[y]);
        } else {
            assert(ms[x] == fm[x]);
        }
    }
    let k = choose|i: int| 0 <= i < ms.len() && #[trigger] ms[i].remote_url == url;
    assert(k == ms.len() - 1);
    assert(mapping_for(ms, url) == ms[ms.len() - 1]);
}

/// A second remembered mapping for the same URL fully supersedes the
/// first: resolution yields the second account's credential, and the
/// mapping on record for the URL references the second account only.
pub proof fn lemma_set_mapping_supersedes(
    db: DbView,
    kc: Map<Seq<char>, Seq<char>>,
    url: Seq<char>,
    first_account: Seq<char>,
    second_account: Seq<char>,
    id1: Seq<char>,
    ts1: int,
    id2: Seq<char>,
    ts2: int,
    rem1: bool,
    rem2: bool,
)
    requires
        db_wf(db),
        has_account_with_id(db.accounts, first_account),
        has_account_with_id(db.accounts, second_account),
        kc.contains_key(secret_key_of(account_with_id(db.accounts, second_account).username)),
    ensures
        ({
            let db3 = with_mapping(
                with_mapping(db, url, first_account, rem1, id1, ts1),
                url,
                second_account,
                rem2,
                id2,
                ts2,
            );
            &&& db_wf(db3)
            &&& mapping_for(db3.mappings, url).account_id == second_account
            &&& resolve_spec(db3, kc, url) == Ok::<(Seq<char>, Seq<char>), GitHelperError>(
                (
                    account_with_id(db.accounts, second_account).username,
                    kc[secret_key_of(account_with_id(db.accounts, second_account).username)],
                ),
            )
        }),
{
    let db2 = with_mapping(db, url, first_account, rem1, id1, ts1);
    if kc.contains_key(secret_key_of(account_with_id(db.accounts, first_account).username)) {
        lemma_set_mapping_round_trip(db, kc, url, first_account, rem1, id1, ts1);
    } else {
        let ms = db2.mappings;
        let fm = mappings_without_url(db.mappings, url);
        lemma_mappings_without_url_props(db.mappings, url);
        assert forall|x: int, y: int| 0 <= x < y < ms.len() implies #[trigger] ms[x].remote_url
            != #[trigger] ms[y].remote_url by {
            if y < fm.len() {
                assert(ms[x] == fm[x] && ms[y] == fm[y]);
            } else {
                assert(ms[x] == fm[x]);
            }
        }
        assert(db_wf(db2));
    }
    assert(db2.accounts == db.accounts);
    lemma_set_mapping_round_trip(db2, kc, url, second_account, rem2, id2, ts2);
}

} // verus!
