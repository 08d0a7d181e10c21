use atlas::auth::hive::{HivePermission, TagScope};
use atlas::auth::oidc::OidcAuthenticationError;
use atlas::dto::errors::{AppErrorDto, InnerAppErrorDto};
use atlas::errors::{wants_error_page, AppError};

#[test]
fn statuses() {
    assert_eq!(AppError::DbError("x".into()).status(), 500);
    assert_eq!(AppError::AuthenticationFlowExpired.status(), 410);
    assert_eq!(AppError::NotAllowed(HivePermission::Post).status(), 403);
    assert_eq!(AppError::NotAuthenticated.status(), 403);
    assert_eq!(AppError::NoSuchPost(3).status(), 404);
    assert_eq!(AppError::ExternalConnectionError.status(), 500);
    assert!(AppError::ErrorDecodeFailure.is_server_error());
    assert!(!AppError::NoSuchPost(3).is_server_error());
}

#[test]
fn messages() {
    assert_eq!(AppError::DbError("gone".into()).message(), "database error: gone");
    assert_eq!(AppError::NoSuchPost(-12).message(), "could not find post with id '-12'");
    assert_eq!(
        AppError::NotAllowed(HivePermission::UseTag(TagScope::Wildcard)).message(),
        "user lacks permissions to perform action (minimum needed: use-tag)"
    );
    assert_eq!(
        AppError::OidcAuthenticationError(OidcAuthenticationError::BadCsrfToken("abc".into())).message(),
        "internal OIDC authentication error: OIDC issuer returned a CSRF token `abc` that does not match ours"
    );
    assert_eq!(
        OidcAuthenticationError::NoNameClaim.message(),
        "OIDC issuer did not return any `name` claim for the subject"
    );
}

#[test]
fn error_dto_kinds() {
    assert_eq!(InnerAppErrorDto::from_error(&AppError::RenderError("r".into())), InnerAppErrorDto::PipelineError);
    assert_eq!(InnerAppErrorDto::from_error(&AppError::NotAuthenticated), InnerAppErrorDto::NotAllowed);
    assert_eq!(
        InnerAppErrorDto::from_error(&AppError::AuthenticationFlowExpired),
        InnerAppErrorDto::AuthenticationFlowExpired
    );
    assert_eq!(InnerAppErrorDto::from_error(&AppError::NoSuchPost(1)), InnerAppErrorDto::NotFound);
    let dto = AppErrorDto::from_error(&AppError::NotAllowed(HivePermission::Post));
    assert!(dto.error);
    assert_eq!(dto.title(), "errors.dto.forbidden.title");
    assert_eq!(dto.description(), "errors.dto.forbidden.description");
}

#[test]
fn error_dto_keys_round_trip() {
    for i in [
        InnerAppErrorDto::PipelineError,
        InnerAppErrorDto::NotAllowed,
        InnerAppErrorDto::AuthenticationFlowExpired,
        InnerAppErrorDto::NotFound,
    ] {
        assert_eq!(InnerAppErrorDto::from_key(i.key()), Some(i));
    }
    assert_eq!(InnerAppErrorDto::from_key("nonsense"), None);
}

#[test]
fn decode_failure_fallback() {
    let kept = AppErrorDto { error: true, info: InnerAppErrorDto::NotAllowed };
    assert_eq!(AppErrorDto::or_decode_failure(Some(kept)), kept);
    assert_eq!(
        AppErrorDto::or_decode_failure(None),
        AppErrorDto { error: true, info: InnerAppErrorDto::PipelineError }
    );
}

#[test]
fn error_page_decision() {
    assert!(wants_error_page(404, "/posts/3", false));
    assert!(wants_error_page(500, "/", false));
    assert!(!wants_error_page(200, "/", false));
    assert!(!wants_error_page(302, "/", false));
    assert!(!wants_error_page(403, "/api/posts", false));
    assert!(wants_error_page(403, "/apix", false));
    assert!(!wants_error_page(404, "/x", true));
}

#[test]
fn generator_name() {
    assert_eq!(atlas::errors::ErrorPageGenerator.name(), "Error Page Generator");
}

#[test]
fn error_dto_from() {
    assert_eq!(InnerAppErrorDto::from(AppError::NotAuthenticated), InnerAppErrorDto::NotAllowed);
    assert_eq!(InnerAppErrorDto::from(AppError::DbError("x".into())), InnerAppErrorDto::PipelineError);
    let dto: AppErrorDto = AppError::AuthenticationFlowExpired.into();
    assert_eq!(dto, AppErrorDto { error: true, info: InnerAppErrorDto::AuthenticationFlowExpired });
}
