use vstd::prelude::*;

use crate::auth::hive::{HivePermission, HivePermissionSet, PermissionV};
use crate::auth::Session;

verus! {

/// Where the identity provider is and how this application identifies itself to it.
#[derive(Debug)]
pub struct OidcConfig {
    pub issuer_url: String,
    pub client_id: String,
    pub client_secret: String,
}

/// Why the connection to the identity provider could not be set up; each holds the
/// underlying error's text.
#[derive(Debug)]
pub enum OidcInitError {
    InvalidIssuerUrl(String),
    DiscoveryFailure(String),
}

/// `prefix` followed by `detail`.
fn prefixed(prefix: &str, detail: &String) -> (r: String)
    ensures
        r@ == prefix@ + detail@,
{
    let mut r = String::from_str(prefix);
    r.append(detail.as_str());
    r
}

/// What an [`OidcInitError`] reports.
pub open spec fn spec_init_message(e: OidcInitError) -> Seq<char> {
    match e {
        OidcInitError::InvalidIssuerUrl(d) => "invalid OIDC issuer URL: "@ + d@,
        OidcInitError::DiscoveryFailure(d) => "OIDC provider metadata discovery failure: "@ + d@,
    }
}

impl OidcInitError {
    /// The text that reports this error.
    pub fn message(&self) -> (r: String)
        ensures
            r@ == spec_init_message(*self),
    {
        match self {
            OidcInitError::InvalidIssuerUrl(d) => prefixed("invalid OIDC issuer URL: ", d),
            OidcInitError::DiscoveryFailure(d) => prefixed("OIDC provider metadata discovery failure: ", d),
        }
    }
}

/// Why a login could not be completed.
#[derive(Debug)]
pub enum OidcAuthenticationError {
    /// The redirect URL does not parse; holds the parser's error text.
    InvalidRedirectUrl(String),
    NoUserInfoUrl,
    /// The state returned by the identity provider, which is not the one sent.
    BadCsrfToken(String),
    CodeTokenExchangeFailure,
    NoIdToken,
    /// The ID token failed verification; holds the verifier's error text.
    BadIdToken(String),
    NoNameClaim,
}

/// What an [`OidcAuthenticationError`] reports.
pub open spec fn spec_auth_message(e: OidcAuthenticationError) -> Seq<char> {
    match e {
        OidcAuthenticationError::InvalidRedirectUrl(d) => "invalid OIDC issuer URL: "@ + d@,
        OidcAuthenticationError::NoUserInfoUrl => "OIDC issuer does not publish a user info endpoint"@,
        OidcAuthenticationError::BadCsrfToken(t) => "OIDC issuer returned a CSRF token `"@ + t@
            + "` that does not match ours"@,
        OidcAuthenticationError::CodeTokenExchangeFailure => "failed to exchange code with token from OIDC issuer"@,
        OidcAuthenticationError::NoIdToken => "OIDC issuer did not return an ID token"@,
        OidcAuthenticationError::BadIdToken(_) => "OIDC issuer returned an ID token, but it failed verification"@,
        OidcAuthenticationError::NoNameClaim => "OIDC issuer did not return any `name` claim for the subject"@,
    }
}

impl OidcAuthenticationError {
    /// The text that reports this error.
    pub fn message(&self) -> (r: String)
        ensures
            r@ == spec_auth_message(*self),
    {
        match self {
            OidcAuthenticationError::InvalidRedirectUrl(d) => prefixed("invalid OIDC issuer URL: ", d),
            OidcAuthenticationError::NoUserInfoUrl => String::from_str(
                "OIDC issuer does not publish a user info endpoint",
            ),
            OidcAuthenticationError::BadCsrfToken(t) => {
                let mut r = prefixed("OIDC issuer returned a CSRF token `", t);
                r.append("` that does not match ours");
                r
            },
            OidcAuthenticationError::CodeTokenExchangeFailure => String::from_str(
                "failed to exchange code with token from OIDC issuer",
            ),
            OidcAuthenticationError::NoIdToken => String::from_str("OIDC issuer did not return an ID token"),
            OidcAuthenticationError::BadIdToken(_) => String::from_str(
                "OIDC issuer returned an ID token, but it failed verification",
            ),
            OidcAuthenticationError::NoNameClaim => String::from_str(
                "OIDC issuer did not return any `name` claim for the subject",
            ),
        }
    }
}

/// What is kept from the start of a login to the identity provider's callback: where the
/// provider sends the user back, where to go after the login, the state sent along, and the
/// nonce that the ID token must carry.
#[derive(Debug)]
pub struct OidcAuthenticationContext {
    pub redirect_url: String,
    pub next: Option<String>,
    pub csrf_state: String,
    pub nonce: String,
}

/// A completed login: the session, and where to go next.
#[derive(Debug)]
pub struct OidcAuthenticationResult {
    pub session: Session,
    pub next: Option<String>,
}

impl OidcAuthenticationContext {
    /// The event of the identity provider's callback with `state`, checked against the state
    /// this login sent.
    pub fn callback(&self, state: &str) -> (r: FinishEvent)
        ensures
            r matches FinishEvent::Callback { expected_state, state: s } && expected_state@ == self.csrf_state@
                && s@ == state@,
    {
        FinishEvent::Callback { expected_state: self.csrf_state.clone(), state: String::from_str(state) }
    }

    /// The result of this login once it gave `session`.
    pub fn finish(self, session: Session) -> (r: OidcAuthenticationResult)
        ensures
            r.session == session,
            r.next == self.next,
    {
        OidcAuthenticationResult { session, next: self.next }
    }
}

/// The claim that the identity provider adds to ID tokens: the user's permissions.
#[derive(Debug)]
pub struct OidcAdditionalClaims {
    pub permissions: Vec<HivePermission>,
}

/// The scopes asked for when a login starts, beside `openid`.
pub fn requested_scopes() -> (r: Vec<&'static str>)
    ensures
        r@.len() == 2,
        r@[0]@ == "profile"@,
        r@[1]@ == "permissions"@,
{
    let mut r: Vec<&'static str> = Vec::new();
    r.push("profile");
    r.push("permissions");
    r
}

/// What a verified ID token says of the user.
#[derive(Debug)]
pub struct VerifiedClaims {
    pub subject: String,
    /// The values of the `name` claim, in the order the token lists them.
    pub names: Vec<String>,
    pub additional: OidcAdditionalClaims,
    /// When the token expires, in seconds since the Unix epoch.
    pub expiration: i64,
}

/// What the identity provider answered to the exchange of the code for a token.
#[derive(Debug)]
pub enum ExchangeOutcome {
    /// The provider publishes no token endpoint, so no exchange was possible.
    NoTokenEndpoint,
    /// The exchange failed.
    Failed,
    /// A token came back without an ID token.
    NoIdToken,
    /// A token came back with an ID token.
    IdToken,
}

/// What happened, step by step, while a login is completed.
#[derive(Debug)]
pub enum FinishEvent {
    /// The identity provider sent the user back with `state`; `expected_state` is the
    /// one sent when the login began.
    Callback { expected_state: String, state: String },
    CodeExchanged(ExchangeOutcome),
    /// The ID token was checked: its claims, or the verifier's error text.
    ClaimsChecked(Result<VerifiedClaims, String>),
}

/// What to do next while a login is completed.
#[derive(Debug)]
pub enum FinishAction {
    ExchangeCode,
    CheckClaims,
    Fail(OidcAuthenticationError),
    Done(Session),
}

/// The session that verified claims describe, if they name the user.
pub open spec fn spec_session_ok(c: VerifiedClaims, s: Session) -> bool {
    &&& c.names@.len() > 0
    &&& s.username@ == c.subject@
    &&& s.display_name@ == c.names@[0]@
    &&& s.expiration == c.expiration
    &&& forall|p: PermissionV| #[trigger] s.permissions.perms().contains(p) <==> exists|i: int|
        0 <= i < c.additional.permissions@.len() && c.additional.permissions@[i]@ == p
}

/// The session for verified claims: the subject is the user name, the first `name` value
/// the display name; without a `name` value there is no session.
pub fn session_from_claims(claims: VerifiedClaims) -> (r: Result<Session, OidcAuthenticationError>)
    ensures
        r is Ok <==> claims.names@.len() > 0,
        r matches Ok(s) ==> spec_session_ok(claims, s),
        r matches Err(e) ==> e is NoNameClaim,
{
    if claims.names.len() == 0 {
        return Err(OidcAuthenticationError::NoNameClaim);
    }
    let display_name = claims.names[0].clone();
    let permissions = HivePermissionSet::from_vec(claims.additional.permissions);
    Ok(Session {
        username: claims.subject,
        display_name,
        permissions,
        expiration: claims.expiration,
    })
}

/// The next step of completing a login: a callback whose state is not the one sent fails,
/// else the code is exchanged; an exchange that gave an ID token has it checked, the others
/// fail; checked claims that name the user end in a session.
pub fn finish_step(event: FinishEvent) -> (r: FinishAction)
    ensures
        match event {
            FinishEvent::Callback { expected_state, state } => if expected_state@ == state@ {
                r is ExchangeCode
            } else {
                r matches FinishAction::Fail(OidcAuthenticationError::BadCsrfToken(t)) && t@ == state@
            },
            FinishEvent::CodeExchanged(o) => match o {
                ExchangeOutcome::NoTokenEndpoint => r matches FinishAction::Fail(e) && e is NoUserInfoUrl,
                ExchangeOutcome::Failed => r matches FinishAction::Fail(e) && e is CodeTokenExchangeFailure,
                ExchangeOutcome::NoIdToken => r matches FinishAction::Fail(e) && e is NoIdToken,
                ExchangeOutcome::IdToken => r is CheckClaims,
            },
            FinishEvent::ClaimsChecked(Err(d)) => r matches FinishAction::Fail(
                OidcAuthenticationError::BadIdToken(t),
            ) && t@ == d@,
            FinishEvent::ClaimsChecked(Ok(c)) => if c.names@.len() > 0 {
                r matches FinishAction::Done(s) && spec_session_ok(c, s)
            } else {
                r matches FinishAction::Fail(e) && e is NoNameClaim
            },
        },
{
    match event {
        FinishEvent::Callback { expected_state, state } => {
            if expected_state.eq(&state) {
                FinishAction::ExchangeCode
            } else {
                FinishAction::Fail(OidcAuthenticationError::BadCsrfToken(state))
            }
        },
        FinishEvent::CodeExchanged(o) => match o {
            ExchangeOutcome::NoTokenEndpoint => FinishAction::Fail(OidcAuthenticationError::NoUserInfoUrl),
            ExchangeOutcome::Failed => FinishAction::Fail(OidcAuthenticationError::CodeTokenExchangeFailure),
            ExchangeOutcome::NoIdToken => FinishAction::Fail(OidcAuthenticationError::NoIdToken),
            ExchangeOutcome::IdToken => FinishAction::CheckClaims,
        },
        FinishEvent::ClaimsChecked(Err(d)) => FinishAction::Fail(OidcAuthenticationError::BadIdToken(d)),
        FinishEvent::ClaimsChecked(Ok(c)) => match session_from_claims(c) {
            Ok(s) => FinishAction::Done(s),
            Err(e) => FinishAction::Fail(e),
        },
    }
}

} // verus!
