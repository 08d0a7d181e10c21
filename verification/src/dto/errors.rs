use vstd::prelude::*;

use crate::errors::AppError;

verus! {

/// What an error response tells the browser, by the translation key of its kind.
#[derive(Debug, PartialEq, Eq, Clone, Copy, Structural)]
pub enum InnerAppErrorDto {
    /// Anything related to handling requests and responses.
    PipelineError,
    NotAllowed,
    AuthenticationFlowExpired,
    NotFound,
}

/// The kind of error response that answers an error.
pub open spec fn spec_inner(e: AppError) -> InnerAppErrorDto {
    match e {
        AppError::AuthenticationFlowExpired => InnerAppErrorDto::AuthenticationFlowExpired,
        AppError::NotAllowed(_) => InnerAppErrorDto::NotAllowed,
        AppError::NotAuthenticated => InnerAppErrorDto::NotAllowed,
        AppError::NoSuchPost(_) => InnerAppErrorDto::NotFound,
        _ => InnerAppErrorDto::PipelineError,
    }
}

/// The key under which a kind of error response is written.
pub open spec fn spec_key_of(i: InnerAppErrorDto) -> Seq<char> {
    match i {
        InnerAppErrorDto::PipelineError => "pipeline"@,
        InnerAppErrorDto::NotAllowed => "forbidden"@,
        InnerAppErrorDto::AuthenticationFlowExpired => "auth.login.flow.expired"@,
        InnerAppErrorDto::NotFound => "not-found"@,
    }
}

/// The translation key of the title of a kind of error response.
pub open spec fn spec_title_key(i: InnerAppErrorDto) -> Seq<char> {
    "errors.dto."@ + spec_key_of(i) + ".title"@
}

/// The translation key of the description of a kind of error response.
pub open spec fn spec_description_key(i: InnerAppErrorDto) -> Seq<char> {
    "errors.dto."@ + spec_key_of(i) + ".description"@
}

impl InnerAppErrorDto {
    /// The kind of error response that answers `err`.
    pub fn from_error(err: &AppError) -> (r: InnerAppErrorDto)
        ensures
            r == spec_inner(*err),
    {
        match err {
            AppError::DbError(..) => InnerAppErrorDto::PipelineError,
            AppError::QueryBuildError(..) => InnerAppErrorDto::PipelineError,
            AppError::RenderError(..) => InnerAppErrorDto::PipelineError,
            AppError::OidcAuthenticationError(..) => InnerAppErrorDto::PipelineError,
            AppError::StateSerializationError(..) => InnerAppErrorDto::PipelineError,
            AppError::StateDeserializationError(..) => InnerAppErrorDto::PipelineError,
            AppError::ErrorDecodeFailure => InnerAppErrorDto::PipelineError,
            AppError::ExternalConnectionError => InnerAppErrorDto::PipelineError,
            AppError::AuthenticationFlowExpired => InnerAppErrorDto::AuthenticationFlowExpired,
            AppError::NotAllowed(..) => InnerAppErrorDto::NotAllowed,
            AppError::NotAuthenticated => InnerAppErrorDto::NotAllowed,
            AppError::NoSuchPost(..) => InnerAppErrorDto::NotFound,
        }
    }

    /// The key under which this kind is written.
    pub fn key(&self) -> (r: &'static str)
        ensures
            r@ == spec_key_of(*self),
    {
        match self {
            InnerAppErrorDto::PipelineError => "pipeline",
            InnerAppErrorDto::NotAllowed => "forbidden",
            InnerAppErrorDto::AuthenticationFlowExpired => "auth.login.flow.expired",
            InnerAppErrorDto::NotFound => "not-found",
        }
    }

    /// The kind written under `key`, if any.
    pub fn from_key(key: &str) -> (r: Option<InnerAppErrorDto>)
        ensures
            match r {
                Some(i) => spec_key_of(i) == key@,
                None => forall|i: InnerAppErrorDto| spec_key_of(i) != key@,
            },
    {
        let k = String::from_str(key);
        proof {
            reveal_strlit("pipeline");
            reveal_strlit("forbidden");
            reveal_strlit("auth.login.flow.expired");
            reveal_strlit("not-found");
        }
        if k.eq(&String::from_str("pipeline")) {
            Some(InnerAppErrorDto::PipelineError)
        } else if k.eq(&String::from_str("forbidden")) {
            Some(InnerAppErrorDto::NotAllowed)
        } else if k.eq(&String::from_str("auth.login.flow.expired")) {
            Some(InnerAppErrorDto::AuthenticationFlowExpired)
        } else if k.eq(&String::from_str("not-found")) {
            Some(InnerAppErrorDto::NotFound)
        } else {
            None
        }
    }

    /// The translation key of the title.
    pub fn title(&self) -> (r: String)
        ensures
            r@ == spec_title_key(*self),
    {
        let mut r = String::from_str("errors.dto.");
        r.append(self.key());
        r.append(".title");
        r
    }

    /// The translation key of the description.
    pub fn description(&self) -> (r: String)
        ensures
            r@ == spec_description_key(*self),
    {
        let mut r = String::from_str("errors.dto.");
        r.append(self.key());
        r.append(".description");
        r
    }
}

impl From<AppError> for InnerAppErrorDto {
    fn from(err: AppError) -> (r: InnerAppErrorDto) {
        InnerAppErrorDto::from_error(&err)
    }
}

impl vstd::std_specs::convert::FromSpecImpl<AppError> for InnerAppErrorDto {
    open spec fn obeys_from_spec() -> bool {
        true
    }

    open spec fn from_spec(v: AppError) -> InnerAppErrorDto {
        spec_inner(v)
    }
}

/// The body of an error response.
#[derive(Debug, PartialEq, Eq, Clone, Copy, Structural)]
pub struct AppErrorDto {
    pub error: bool,
    pub info: InnerAppErrorDto,
}

impl AppErrorDto {
    /// The body of the response that answers `err`.
    pub fn from_error(err: &AppError) -> (r: AppErrorDto)
        ensures
            r.error,
            r.info == spec_inner(*err),
    {
        AppErrorDto { error: true, info: InnerAppErrorDto::from_error(err) }
    }

    /// The body that an error page shows: the one the response carried, or, where it could
    /// not be read, the one for an error that could not be decoded.
    pub fn or_decode_failure(decoded: Option<AppErrorDto>) -> (r: AppErrorDto)
        ensures
            r == (match decoded {
                Some(d) => d,
                None => AppErrorDto { error: true, info: InnerAppErrorDto::PipelineError },
            }),
    {
        match decoded {
            Some(d) => d,
            None => AppErrorDto::from_error(&AppError::ErrorDecodeFailure),
        }
    }

    /// The translation key of the title.
    pub fn title(&self) -> (r: String)
        ensures
            r@ == spec_title_key(self.info),
    {
        self.info.title()
    }

    /// The translation key of the description.
    pub fn description(&self) -> (r: String)
        ensures
            r@ == spec_description_key(self.info),
    {
        self.info.description()
    }
}

impl From<AppError> for AppErrorDto {
    fn from(err: AppError) -> (r: AppErrorDto) {
        AppErrorDto::from_error(&err)
    }
}

impl vstd::std_specs::convert::FromSpecImpl<AppError> for AppErrorDto {
    open spec fn obeys_from_spec() -> bool {
        true
    }

    open spec fn from_spec(v: AppError) -> AppErrorDto {
        AppErrorDto { error: true, info: spec_inner(v) }
    }
}

/// Each kind of error response is written under its own key, so reading back the key
/// written for a kind gives that kind.
pub proof fn lemma_key_round_trip(a: InnerAppErrorDto, b: InnerAppErrorDto)
    ensures
        spec_key_of(a) == spec_key_of(b) ==> a == b,
{
    reveal_strlit("pipeline");
    reveal_strlit("forbidden");
    reveal_strlit("auth.login.flow.expired");
    reveal_strlit("not-found");
    assert("pipeline"@[0] != "forbidden"@[0]);
    assert("pipeline"@[0] != "auth.login.flow.expired"@[0]);
    assert("pipeline"@[0] != "not-found"@[0]);
    assert("forbidden"@[0] != "auth.login.flow.expired"@[0]);
    assert("forbidden"@[0] != "not-found"@[0]);
    assert("auth.login.flow.expired"@[0] != "not-found"@[0]);
}

/// An error is answered as a failure of the pipeline exactly when it is the server's fault.
pub proof fn lemma_pipeline_iff_server_error(e: AppError)
    ensures
        (spec_inner(e) == InnerAppErrorDto::PipelineError) <==> crate::errors::spec_status(e) == 500,
{
}

} // verus!
