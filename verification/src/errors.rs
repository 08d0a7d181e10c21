use vstd::prelude::*;

use crate::ace::text::{i64_text, int_text};
use crate::auth::hive::{spec_key, HivePermission};
use crate::auth::oidc::{spec_auth_message, OidcAuthenticationError};

verus! {

/// What can go wrong while a request is handled. Errors of outside libraries are held as
/// their text.
#[derive(Debug)]
pub enum AppError {
    DbError(String),
    QueryBuildError(String),
    RenderError(String),
    /// Not for login failures: those are answered otherwise.
    OidcAuthenticationError(OidcAuthenticationError),
    StateSerializationError(String),
    StateDeserializationError(String),
    AuthenticationFlowExpired,
    /// The least permission that the action needs.
    NotAllowed(HivePermission),
    NotAuthenticated,
    NoSuchPost(i64),
    ErrorDecodeFailure,
    ExternalConnectionError,
}

/// The HTTP status that answers an error.
pub open spec fn spec_status(e: AppError) -> u16 {
    match e {
        AppError::AuthenticationFlowExpired => 410,
        AppError::NotAllowed(_) => 403,
        AppError::NotAuthenticated => 403,
        AppError::NoSuchPost(_) => 404,
        _ => 500,
    }
}

/// The text that reports an error.
pub open spec fn spec_message(e: AppError) -> Seq<char> {
    match e {
        AppError::DbError(d) => "database error: "@ + d@,
        AppError::QueryBuildError(d) => "query building error: "@ + d@,
        AppError::RenderError(d) => "template render error: "@ + d@,
        AppError::OidcAuthenticationError(o) => "internal OIDC authentication error: "@ + spec_auth_message(o),
        AppError::StateSerializationError(d) => "failed to serialize internal state for storage: "@ + d@,
        AppError::StateDeserializationError(d) => "failed to deserialize internal state from secure storage: "@
            + d@,
        AppError::AuthenticationFlowExpired => "authentication flow expired and can no longer be completed"@,
        AppError::NotAllowed(p) => "user lacks permissions to perform action (minimum needed: "@ + spec_key(p@)
            + ")"@,
        AppError::NotAuthenticated => "user was not authenticated when required"@,
        AppError::NoSuchPost(id) => "could not find post with id '"@ + int_text(id as int) + "'"@,
        AppError::ErrorDecodeFailure => "failed to decode error while generating error page"@,
        AppError::ExternalConnectionError => "error while connecting to an external service"@,
    }
}

/// `prefix` followed by `detail`.
fn joined(prefix: &str, detail: &str) -> (r: String)
    ensures
        r@ == prefix@ + detail@,
{
    let mut r = String::from_str(prefix);
    r.append(detail);
    r
}

impl AppError {
    /// The HTTP status that answers this error.
    pub fn status(&self) -> (r: u16)
        ensures
            r == spec_status(*self),
    {
        match self {
            AppError::DbError(..) => 500,
            AppError::QueryBuildError(..) => 500,
            AppError::RenderError(..) => 500,
            AppError::OidcAuthenticationError(..) => 500,
            AppError::StateSerializationError(..) => 500,
            AppError::StateDeserializationError(..) => 500,
            AppError::AuthenticationFlowExpired => 410,
            AppError::NotAllowed(..) => 403,
            AppError::NotAuthenticated => 403,
            AppError::NoSuchPost(..) => 404,
            AppError::ErrorDecodeFailure => 500,
            AppError::ExternalConnectionError => 500,
        }
    }

    /// Whether this error is the server's fault, and logged as an error rather than for
    /// debugging.
    pub fn is_server_error(&self) -> (r: bool)
        ensures
            r == (spec_status(*self) >= 500),
    {
        self.status() >= 500
    }

    /// The text that reports this error.
    pub fn message(&self) -> (r: String)
        ensures
            r@ == spec_message(*self),
    {
        match self {
            AppError::DbError(d) => joined("database error: ", d.as_str()),
            AppError::QueryBuildError(d) => joined("query building error: ", d.as_str()),
            AppError::RenderError(d) => joined("template render error: ", d.as_str()),
            AppError::OidcAuthenticationError(o) => {
                let m = o.message();
                joined("internal OIDC authentication error: ", m.as_str())
            },
            AppError::StateSerializationError(d) => joined(
                "failed to serialize internal state for storage: ",
                d.as_str(),
            ),
            AppError::StateDeserializationError(d) => joined(
                "failed to deserialize internal state from secure storage: ",
                d.as_str(),
            ),
            AppError::AuthenticationFlowExpired => String::from_str(
                "authentication flow expired and can no longer be completed",
            ),
            AppError::NotAllowed(p) => {
                let mut r = joined("user lacks permissions to perform action (minimum needed: ", p.key());
                r.append(")");
                r
            },
            AppError::NotAuthenticated => String::from_str("user was not authenticated when required"),
            AppError::NoSuchPost(id) => {
                let n = i64_text(*id);
                let mut r = joined("could not find post with id '", n.as_str());
                r.append("'");
                r
            },
            AppError::ErrorDecodeFailure => String::from_str("failed to decode error while generating error page"),
            AppError::ExternalConnectionError => String::from_str("error while connecting to an external service"),
        }
    }
}

/// Replaces the JSON bodies of error responses to page requests by error pages.
#[derive(Debug)]
pub struct ErrorPageGenerator;

impl ErrorPageGenerator {
    /// The name under which it is installed.
    pub fn name(&self) -> (r: &'static str)
        ensures
            r@ == "Error Page Generator"@,
    {
        "Error Page Generator"
    }
}

/// Whether `s` starts with `prefix`.
pub open spec fn starts_with(s: Seq<char>, prefix: Seq<char>) -> bool {
    prefix.len() <= s.len() && s.subrange(0, prefix.len() as int) == prefix
}

/// Whether a response is replaced by an error page: it must be a client or server error,
/// not answer an API path (those stay JSON), and not be a page already.
pub open spec fn spec_wants_error_page(status: u16, path: Seq<char>, is_html: bool) -> bool {
    &&& 400 <= status < 600
    &&& !starts_with(path, "/api/"@)
    &&& !is_html
}

/// Whether `s` starts with `prefix`.
fn has_prefix(s: &str, prefix: &str) -> (r: bool)
    ensures
        r == starts_with(s@, prefix@),
{
    let n = prefix.unicode_len();
    if n > s.unicode_len() {
        return false;
    }
    let mut i: usize = 0;
    while i < n
        invariant
            n == prefix@.len(),
            n <= s@.len(),
            i <= n,
            forall|j: int| 0 <= j < i ==> s@[j] == prefix@[j],
        decreases n - i,
    {
        if s.get_char(i) != prefix.get_char(i) {
            return false;
        }
        i = i + 1;
    }
    assert(s@.subrange(0, prefix@.len() as int) =~= prefix@);
    true
}

/// Whether a response with `status`, for a request of `path`, whose content is a page when
/// `is_html`, is replaced by an error page.
pub fn wants_error_page(status: u16, path: &str, is_html: bool) -> (r: bool)
    ensures
        r == spec_wants_error_page(status, path@, is_html),
{
    if status < 400 || status >= 600 {
        return false;
    }
    if has_prefix(path, "/api/") {
        return false;
    }
    !is_html
}

} // verus!
