//! The device-authorization exchange: classification of provider poll
//! responses, the polling state machine with its attempt cap, and the
//! decisions of token validation. The network round trips themselves are
//! the caller's; every decision between them is verified here.

use vstd::prelude::*;

use crate::strings::{
    contains_substr, has_substring, split_by, split_str, trim_spec, trim_str,
};
use vstd::string::StrSliceExecFns;

verus! {

/// Why an exchange with the provider failed.
#[derive(Debug)]
pub enum GitHubAuthError {
    /// The transport or the provider reported a failure; the text says what.
    Http(String),
    /// The poll loop ran out of attempts.
    Timeout,
    /// The user denied the authorization request.
    Denied,
    /// The device code expired before the user finished.
    Expired,
    /// The provider rejected the bearer token.
    InvalidToken,
    /// A response body could not be decoded; the text says which.
    Json(String),
}

pub open spec fn auth_error_message(e: GitHubAuthError) -> Seq<char> {
    match e {
        GitHubAuthError::Http(m) => "HTTP request failed: "@ + m@,
        GitHubAuthError::Timeout => "Device flow timeout"@,
        GitHubAuthError::Denied => "Device flow denied"@,
        GitHubAuthError::Expired => "Device flow expired"@,
        GitHubAuthError::InvalidToken => "Invalid token"@,
        GitHubAuthError::Json(m) => "JSON parsing error: "@ + m@,
    }
}

impl GitHubAuthError {
    /// The diagnostic for presentation; denial, expiry and timeout read
    /// differently because they warrant different user guidance.
    pub fn message(&self) -> (r: String)
        ensures
            r@ == auth_error_message(*self),
    {
        match self {
            GitHubAuthError::Http(m) => {
                let mut out = String::from_str("HTTP request failed: ");
                out.append(m.as_str());
                out
            },
            GitHubAuthError::Timeout => String::from_str("Device flow timeout"),
            GitHubAuthError::Denied => String::from_str("Device flow denied"),
            GitHubAuthError::Expired => String::from_str("Device flow expired"),
            GitHubAuthError::InvalidToken => String::from_str("Invalid token"),
            GitHubAuthError::Json(m) => {
                let mut out = String::from_str("JSON parsing error: ");
                out.append(m.as_str());
                out
            },
        }
    }
}

/// What the provider answers to a device-code request.
pub struct DeviceCodeResponse {
    pub device_code: String,
    pub user_code: String,
    pub verification_uri: String,
    pub verification_uri_complete: String,
    pub expires_in: u64,
    pub interval: u64,
}

/// Mathematical image of a device-code response.
pub struct DeviceCodeResponseV {
    pub device_code: Seq<char>,
    pub user_code: Seq<char>,
    pub verification_uri: Seq<char>,
    pub verification_uri_complete: Seq<char>,
    pub expires_in: int,
    pub interval: int,
}

impl View for DeviceCodeResponse {
    type V = DeviceCodeResponseV;

    open spec fn view(&self) -> DeviceCodeResponseV {
        DeviceCodeResponseV {
            device_code: self.device_code@,
            user_code: self.user_code@,
            verification_uri: self.verification_uri@,
            verification_uri_complete: self.verification_uri_complete@,
            expires_in: self.expires_in as int,
            interval: self.interval as int,
        }
    }
}

/// A successful token grant.
pub struct DeviceTokenResponse {
    pub access_token: String,
    pub token_type: String,
    pub scope: String,
}

/// Mathematical image of a token grant.
pub struct DeviceTokenResponseV {
    pub access_token: Seq<char>,
    pub token_type: Seq<char>,
    pub scope: Seq<char>,
}

impl View for DeviceTokenResponse {
    type V = DeviceTokenResponseV;

    open spec fn view(&self) -> DeviceTokenResponseV {
        DeviceTokenResponseV {
            access_token: self.access_token@,
            token_type: self.token_type@,
            scope: self.scope@,
        }
    }
}

/// Copy a token grant, preserving its contents.
pub fn clone_token_response(t: &DeviceTokenResponse) -> (r: DeviceTokenResponse)
    ensures
        r@ == t@,
{
    DeviceTokenResponse {
        access_token: t.access_token.clone(),
        token_type: t.token_type.clone(),
        scope: t.scope.clone(),
    }
}

/// The identity the provider reports for a bearer token.
pub struct GitHubUser {
    pub login: String,
    pub id: u64,
    pub avatar_url: String,
    pub name: Option<String>,
    pub email: Option<String>,
}

/// Mathematical image of a reported identity.
pub struct GitHubUserV {
    pub login: Seq<char>,
    pub id: int,
    pub avatar_url: Seq<char>,
    pub name: Option<Seq<char>>,
    pub email: Option<Seq<char>>,
}

impl View for GitHubUser {
    type V = GitHubUserV;

    open spec fn view(&self) -> GitHubUserV {
        GitHubUserV {
            login: self.login@,
            id: self.id as int,
            avatar_url: self.avatar_url@,
            name: self.name.deep_view(),
            email: self.email.deep_view(),
        }
    }
}

/// The OAuth application identifier sent with device-flow requests.
pub fn oauth_client_id() -> (r: String)
    ensures
        r@ == "Ov23liA2BpF0gI3E4nUX"@,
{
    String::from_str("Ov23liA2BpF0gI3E4nUX")
}

/// The grant type named in every token poll.
pub fn device_code_grant_type() -> (r: String)
    ensures
        r@ == "urn:ietf:params:oauth:grant-type:device_code"@,
{
    String::from_str("urn:ietf:params:oauth:grant-type:device_code")
}

/// How one poll response is read. `Unrecognized` is a body that neither
/// carries a known status token nor decodes as a grant; the loop treats
/// it like a pending answer.
pub enum PollStatus {
    AuthorizationPending,
    AccessDenied,
    ExpiredToken,
    Success(DeviceTokenResponse),
    Unrecognized,
    /// The exchange itself failed; the text is the provider's error.
    ProviderFailure(String),
}

/// Copy a poll status, preserving its contents.
pub fn clone_poll_status(e: &PollStatus) -> (r: PollStatus)
    ensures
        match e {
            PollStatus::Success(t) => r matches PollStatus::Success(t2) && t2@ == t@,
            PollStatus::AuthorizationPending => r is AuthorizationPending,
            PollStatus::AccessDenied => r is AccessDenied,
            PollStatus::ExpiredToken => r is ExpiredToken,
            PollStatus::Unrecognized => r is Unrecognized,
            PollStatus::ProviderFailure(m) => r matches PollStatus::ProviderFailure(m2) && m2
                == m,
        },
{
    match e {
        PollStatus::AuthorizationPending => PollStatus::AuthorizationPending,
        PollStatus::AccessDenied => PollStatus::AccessDenied,
        PollStatus::ExpiredToken => PollStatus::ExpiredToken,
        PollStatus::Success(t) => PollStatus::Success(clone_token_response(t)),
        PollStatus::Unrecognized => PollStatus::Unrecognized,
        PollStatus::ProviderFailure(m) => PollStatus::ProviderFailure(m.clone()),
    }
}

/// Classify one poll round trip: a failed exchange first, carrying the
/// provider's error, then the three status tokens in the body in fixed
/// order, then a decoded grant, and `Unrecognized` for everything else.
pub fn classify_poll_response(
    ok: bool,
    provider_error: &str,
    body: &str,
    parsed: Option<DeviceTokenResponse>,
) -> (r: PollStatus)
    ensures
        match r {
            PollStatus::ProviderFailure(m) => !ok && m@ == provider_error@,
            PollStatus::AuthorizationPending => ok && has_substring(
                body@,
                "authorization_pending"@,
            ),
            PollStatus::AccessDenied => ok && !has_substring(body@, "authorization_pending"@)
                && has_substring(body@, "access_denied"@),
            PollStatus::ExpiredToken => ok && !has_substring(body@, "authorization_pending"@)
                && !has_substring(body@, "access_denied"@) && has_substring(
                body@,
                "expired_token"@,
            ),
            PollStatus::Success(t) => ok && !has_substring(body@, "authorization_pending"@)
                && !has_substring(body@, "access_denied"@) && !has_substring(
                body@,
                "expired_token"@,
            ) && (parsed matches Some(t0) && t == t0),
            PollStatus::Unrecognized => ok && !has_substring(body@, "authorization_pending"@)
                && !has_substring(body@, "access_denied"@) && !has_substring(
                body@,
                "expired_token"@,
            ) && parsed is None,
        },
{
    if !ok {
        return PollStatus::ProviderFailure(provider_error.to_owned());
    }
    if contains_substr(body, "authorization_pending") {
        return PollStatus::AuthorizationPending;
    }
    if contains_substr(body, "access_denied") {
        return PollStatus::AccessDenied;
    }
    if contains_substr(body, "expired_token") {
        return PollStatus::ExpiredToken;
    }
    match parsed {
        Some(t) => PollStatus::Success(t),
        None => PollStatus::Unrecognized,
    }
}

/// The spacing between polls: what the provider asked for, or five
/// seconds when it named none.
pub open spec fn effective_interval(interval: int) -> int {
    if interval > 0 {
        interval
    } else {
        5
    }
}

/// How many polls fit before the code expires: the expiry divided by the
/// interval, or sixty polls when the provider named no expiry.
pub open spec fn attempt_cap(expires_in: int, interval: int) -> int {
    if expires_in > 0 {
        expires_in / effective_interval(interval)
    } else {
        60
    }
}

/// One in-flight device authorization. Only the attempt counter changes
/// while polling; the session dies with the flow.
pub struct DeviceFlowSession {
    pub device_code: String,
    pub user_code: String,
    pub verification_uri: String,
    pub verification_uri_complete: String,
    pub interval: u64,
    pub expires_at: i64,
    pub attempts: u64,
    pub max_attempts: u64,
}

/// Open a session from a device-code grant and the current time.
pub fn session_from(resp: &DeviceCodeResponse, now: i64) -> (s: DeviceFlowSession)
    requires
        0 <= now,
        now + resp.expires_in <= i64::MAX,
    ensures
        s.device_code@ == resp.device_code@,
        s.user_code@ == resp.user_code@,
        s.verification_uri@ == resp.verification_uri@,
        s.verification_uri_complete@ == resp.verification_uri_complete@,
        s.interval == effective_interval(resp.interval as int),
        s.expires_at == now + resp.expires_in,
        s.attempts == 0,
        s.max_attempts == attempt_cap(resp.expires_in as int, resp.interval as int),
{
    let interval: u64 = if resp.interval > 0 {
        resp.interval
    } else {
        5
    };
    let max_attempts: u64 = if resp.expires_in > 0 {
        resp.expires_in / interval
    } else {
        60
    };
    DeviceFlowSession {
        device_code: resp.device_code.clone(),
        user_code: resp.user_code.clone(),
        verification_uri: resp.verification_uri.clone(),
        verification_uri_complete: resp.verification_uri_complete.clone(),
        interval: interval,
        expires_at: now + (resp.expires_in as i64),
        attempts: 0,
        max_attempts: max_attempts,
    }
}

impl DeviceFlowSession {
    /// Whether another poll is allowed before the cap.
    pub fn should_poll(&self) -> (r: bool)
        ensures
            r == (self.attempts < self.max_attempts),
    {
        self.attempts < self.max_attempts
    }
}

/// What the state machine says to do after one classified response.
pub enum PollStep {
    /// Sleep the session's interval, then poll again.
    Continue,
    /// The flow is over, with a grant or a terminal error.
    Finished(Result<DeviceTokenResponse, GitHubAuthError>),
}

/// Advance the state machine by one classified poll response. Pending and
/// unrecognized answers consume one attempt and continue; denial, expiry,
/// a failed exchange and a grant are terminal and are never retried.
pub fn poll_step(session: &mut DeviceFlowSession, status: PollStatus) -> (r: PollStep)
    requires
        old(session).attempts < old(session).max_attempts,
    ensures
        final(session).device_code@ == old(session).device_code@,
        final(session).interval == old(session).interval,
        final(session).max_attempts == old(session).max_attempts,
        match status {
            PollStatus::AuthorizationPending => r is Continue && final(session).attempts
                == old(session).attempts + 1,
            PollStatus::Unrecognized => r is Continue && final(session).attempts
                == old(session).attempts + 1,
            PollStatus::Success(t) => (r matches PollStep::Finished(Ok(t2)) && t2 == t)
                && final(session).attempts == old(session).attempts,
            PollStatus::AccessDenied => r matches PollStep::Finished(
                Err(GitHubAuthError::Denied),
            ) && final(session).attempts == old(session).attempts,
            PollStatus::ExpiredToken => r matches PollStep::Finished(
                Err(GitHubAuthError::Expired),
            ) && final(session).attempts == old(session).attempts,
            PollStatus::ProviderFailure(m) => (r matches PollStep::Finished(
                Err(GitHubAuthError::Http(m2)),
            ) && m2 == m) && final(session).attempts == old(session).attempts,
        },
{
    match status {
        PollStatus::AuthorizationPending => {
            session.attempts = session.attempts + 1;
            PollStep::Continue
        },
        PollStatus::Unrecognized => {
            session.attempts = session.attempts + 1;
            PollStep::Continue
        },
        PollStatus::Success(t) => PollStep::Finished(Ok(t)),
        PollStatus::AccessDenied => PollStep::Finished(Err(GitHubAuthError::Denied)),
        PollStatus::ExpiredToken => PollStep::Finished(Err(GitHubAuthError::Expired)),
        PollStatus::ProviderFailure(m) => PollStep::Finished(Err(GitHubAuthError::Http(m))),
    }
}

/// A classified response that ends the poll loop.
pub open spec fn is_terminal_status(e: PollStatus) -> bool {
    !(e is AuthorizationPending || e is Unrecognized)
}

/// Index of the first terminal response in a script, if any.
pub open spec fn first_terminal(s: Seq<PollStatus>) -> Option<int>
    decreases s.len(),
{
    if s.len() == 0 {
        None
    } else if is_terminal_status(s[0]) {
        Some(0)
    } else {
        match first_terminal(s.skip(1)) {
            Some(i) => Some(i + 1),
            None => None,
        }
    }
}

pub proof fn lemma_first_terminal(s: Seq<PollStatus>)
    ensures
        match first_terminal(s) {
            Some(i) => 0 <= i < s.len() && is_terminal_status(s[i]) && (forall|j: int|
                0 <= j < i ==> !is_terminal_status(s[j])),
            None => forall|j: int| 0 <= j < s.len() ==> !is_terminal_status(s[j]),
        },
    decreases s.len(),
{
    if s.len() == 0 {
    } else if is_terminal_status(s[0]) {
    } else {
        lemma_first_terminal(s.skip(1));
        assert(forall|j: int| 0 <= j < s.skip(1).len() ==> s.skip(1)[j] == s[j + 1]);
        match first_terminal(s.skip(1)) {
            Some(i) => {
                assert forall|j: int| 0 <= j < i + 1 implies !is_terminal_status(s[j]) by {
                    if j >= 1 {
                        assert(!is_terminal_status(s.skip(1)[j - 1]));
                    }
                }
            },
            None => {
                assert forall|j: int| 0 <= j < s.len() implies !is_terminal_status(s[j]) by {
                    if j >= 1 {
                        assert(!is_terminal_status(s.skip(1)[j - 1]));
                    }
                }
            },
        }
    }
}

/// How a scripted run ends.
pub enum ScriptOutcome {
    /// A terminal response or the attempt cap decided the flow.
    Finished(Result<DeviceTokenResponse, GitHubAuthError>),
    /// The script ran out before anything decided the flow.
    AwaitingMore,
}

/// What a scripted run did: its outcome, how many responses it consumed,
/// and how many interval sleeps it would have made.
pub struct PollScriptResult {
    pub outcome: ScriptOutcome,
    pub polls: usize,
    pub sleeps: usize,
}

/// The outcome owed to a terminal response.
pub open spec fn script_outcome_for(out: ScriptOutcome, e: PollStatus) -> bool {
    match e {
        PollStatus::Success(t) => out matches ScriptOutcome::Finished(Ok(t2)) && t2@ == t@,
        PollStatus::AccessDenied => out matches ScriptOutcome::Finished(
            Err(GitHubAuthError::Denied),
        ),
        PollStatus::ExpiredToken => out matches ScriptOutcome::Finished(
            Err(GitHubAuthError::Expired),
        ),
        PollStatus::ProviderFailure(m) => out matches ScriptOutcome::Finished(
            Err(GitHubAuthError::Http(m2)),
        ) && m2@ == m@,
        _ => false,
    }
}

/// Run the poll loop against a script of classified responses, exactly as
/// the live loop runs against the provider: one attempt and one sleep per
/// pending answer, the first terminal answer decides, and the attempt cap
/// turns exhaustion into `Timeout`.
pub fn run_poll_script(events: &Vec<PollStatus>, max_attempts: u64) -> (r: PollScriptResult)
    ensures
        (match first_terminal(events@) {
            Some(j) => j < max_attempts ==> r.polls == j + 1 && r.sleeps == j
                && script_outcome_for(r.outcome, events@[j]),
            None => true,
        }),
        (match first_terminal(events@) {
            Some(j) => j >= max_attempts ==> (r.outcome matches ScriptOutcome::Finished(
                Err(GitHubAuthError::Timeout),
            )) && r.polls == max_attempts && r.sleeps == max_attempts,
            None => true,
        }),
        first_terminal(events@) is None && events@.len() >= max_attempts ==> (r.outcome matches
            ScriptOutcome::Finished(Err(GitHubAuthError::Timeout))) && r.polls == max_attempts
            && r.sleeps == max_attempts,
        first_terminal(events@) is None && events@.len() < max_attempts ==> (r.outcome
            is AwaitingMore) && r.polls == events@.len() && r.sleeps == events@.len(),
{
    proof {
        lemma_first_terminal(events@);
    }
    let mut i: usize = 0;
    while i < events.len()
        invariant
            i <= events.len(),
            i as u64 <= max_attempts || i as u64 == max_attempts,
            i <= max_attempts,
            forall|j: int| 0 <= j < i ==> !is_terminal_status(events@[j]),
        decreases events.len() - i,
    {
        proof {
            lemma_first_terminal(events@);
        }
        if i as u64 >= max_attempts {
            return PollScriptResult {
                outcome: ScriptOutcome::Finished(Err(GitHubAuthError::Timeout)),
                polls: i,
                sleeps: i,
            };
        }
        let outcome: Option<ScriptOutcome> = match &events[i] {
            PollStatus::AuthorizationPending => None,
            PollStatus::Unrecognized => None,
            PollStatus::Success(t) => Some(
                ScriptOutcome::Finished(Ok(clone_token_response(t))),
            ),
            PollStatus::AccessDenied => Some(
                ScriptOutcome::Finished(Err(GitHubAuthError::Denied)),
            ),
            PollStatus::ExpiredToken => Some(
                ScriptOutcome::Finished(Err(GitHubAuthError::Expired)),
            ),
            PollStatus::ProviderFailure(m) => Some(
                ScriptOutcome::Finished(Err(GitHubAuthError::Http(m.clone()))),
            ),
        };
        match outcome {
            Some(out) => {
                proof {
                    lemma_first_terminal(events@);
                }
                return PollScriptResult { outcome: out, polls: i + 1, sleeps: i };
            },
            None => {
                i += 1;
            },
        }
    }
    proof {
        lemma_first_terminal(events@);
    }
    if i as u64 >= max_attempts {
        PollScriptResult {
            outcome: ScriptOutcome::Finished(Err(GitHubAuthError::Timeout)),
            polls: i,
            sleeps: i,
        }
    } else {
        PollScriptResult { outcome: ScriptOutcome::AwaitingMore, polls: i, sleeps: i }
    }
}

/// Read the provider's answer to a device-code request: a non-success
/// exchange fails with the provider's error surfaced, an undecodable body
/// fails, a decoded grant is handed back as it came.
pub fn evaluate_device_code_probe(
    ok: bool,
    provider_error: &str,
    resp: Option<DeviceCodeResponse>,
) -> (r: Result<DeviceCodeResponse, GitHubAuthError>)
    ensures
        !ok ==> (r matches Err(GitHubAuthError::Http(m)) && m@ == provider_error@),
        ok && resp is None ==> (r matches Err(GitHubAuthError::Json(m)) && m@
            == "device code response could not be decoded"@),
        ok && resp is Some ==> (r matches Ok(d2) && d2 == resp->Some_0),
{
    if !ok {
        return Err(GitHubAuthError::Http(provider_error.to_owned()));
    }
    match resp {
        Some(d) => Ok(d),
        None => Err(
            GitHubAuthError::Json(String::from_str("device code response could not be decoded")),
        ),
    }
}

/// Read the provider's answer to an identity check: any non-success
/// status collapses to `InvalidToken`; the reported identity is handed
/// back as it came.
pub fn evaluate_identity_probe(ok: bool, user: Option<GitHubUser>) -> (r: Result<
    GitHubUser,
    GitHubAuthError,
>)
    ensures
        !ok ==> r matches Err(GitHubAuthError::InvalidToken),
        ok && user is None ==> (r matches Err(GitHubAuthError::Json(m)) && m@
            == "identity response could not be decoded"@),
        ok && user is Some ==> (r matches Ok(u2) && u2 == user->Some_0),
{
    if !ok {
        return Err(GitHubAuthError::InvalidToken);
    }
    match user {
        Some(u) => Ok(u),
        None => Err(
            GitHubAuthError::Json(String::from_str("identity response could not be decoded")),
        ),
    }
}

/// The granted scopes named in a scope header: the comma-separated
/// pieces, each trimmed of surrounding whitespace.
pub open spec fn scopes_of(h: Seq<char>) -> Seq<Seq<char>> {
    split_by(h, ',').map_values(|p: Seq<char>| trim_spec(p))
}

/// Read a granted-scope header; a missing header means no scopes, not an
/// error.
pub fn parse_scopes_header(header: Option<&str>) -> (r: Vec<String>)
    ensures
        match header {
            None => r.deep_view().len() == 0,
            Some(h) => r.deep_view() == scopes_of(h@),
        },
{
    match header {
        None => {
            let r: Vec<String> = Vec::new();
            r
        },
        Some(h) => {
            let parts = split_str(h, ',');
            let mut out: Vec<String> = Vec::new();
            let mut i: usize = 0;
            while i < parts.len()
                invariant
                    i <= parts.len(),
                    out.deep_view().len() == i,
                    forall|j: int|
                        0 <= j < i ==> #[trigger] out.deep_view()[j] == trim_spec(
                            parts.deep_view()[j],
                        ),
                decreases parts.len() - i,
            {
                let ghost before = out.deep_view();
                let piece = trim_str(parts[i].as_str());
                let ghost pv = piece@;
                out.push(piece);
                proof {
                    assert(out.deep_view().len() == i + 1);
                    assert(out.deep_view()[i as int] == pv);
                    assert(forall|j: int| 0 <= j < i ==> #[trigger] out.deep_view()[j] == before[j]);
                }
                i += 1;
            }
            proof {
                assert(out.deep_view() =~= scopes_of(h@));
            }
            out
        },
    }
}

/// Read the provider's answer to an organization membership probe: any
/// non-success answer is read as "single sign-on may be required". The
/// signal is advisory only; the provider sends no machine-readable one.
pub fn interpret_sso_probe(ok: bool) -> (r: bool)
    ensures
        r == !ok,
{
    !ok
}

} // verus!
