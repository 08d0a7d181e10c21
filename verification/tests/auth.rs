use atlas::auth::hive::{HivePermission, HivePermissionSet, TagScope};
use atlas::auth::oidc::{
    finish_step, requested_scopes, session_from_claims, ExchangeOutcome, FinishAction, FinishEvent,
    OidcAdditionalClaims, OidcAuthenticationContext, OidcAuthenticationError, OidcInitError, VerifiedClaims,
};
use atlas::auth::Session;
use atlas::guards::context::PageContext;
use atlas::guards::darkmode::{darkmode_source, Darkmode, DarkmodeSource};
use atlas::guards::lang::Language;
use atlas::guards::nav::Nav;
use atlas::guards::user::User;
use atlas::errors::AppError;
use atlas::splash::Splashes;

fn claims(names: Vec<&str>) -> VerifiedClaims {
    VerifiedClaims {
        subject: "alice".into(),
        names: names.into_iter().map(String::from).collect(),
        additional: OidcAdditionalClaims {
            permissions: vec![HivePermission::Post, HivePermission::UseTag(TagScope::Wildcard)],
        },
        expiration: 1_800_000_000,
    }
}

fn user(perms: Vec<HivePermission>) -> User {
    User(Session {
        username: "alice".into(),
        display_name: "Alice A".into(),
        permissions: HivePermissionSet::from_vec(perms),
        expiration: 0,
    })
}

#[test]
fn scopes() {
    assert_eq!(requested_scopes(), vec!["profile", "permissions"]);
}

#[test]
fn callback_state_check() {
    let ok = finish_step(FinishEvent::Callback { expected_state: "s1".into(), state: "s1".into() });
    assert!(matches!(ok, FinishAction::ExchangeCode));
    let bad = finish_step(FinishEvent::Callback { expected_state: "s1".into(), state: "s2".into() });
    assert!(matches!(bad, FinishAction::Fail(OidcAuthenticationError::BadCsrfToken(ref t)) if t == "s2"));
}

#[test]
fn exchange_outcomes() {
    assert!(matches!(
        finish_step(FinishEvent::CodeExchanged(ExchangeOutcome::NoTokenEndpoint)),
        FinishAction::Fail(OidcAuthenticationError::NoUserInfoUrl)
    ));
    assert!(matches!(
        finish_step(FinishEvent::CodeExchanged(ExchangeOutcome::Failed)),
        FinishAction::Fail(OidcAuthenticationError::CodeTokenExchangeFailure)
    ));
    assert!(matches!(
        finish_step(FinishEvent::CodeExchanged(ExchangeOutcome::NoIdToken)),
        FinishAction::Fail(OidcAuthenticationError::NoIdToken)
    ));
    assert!(matches!(
        finish_step(FinishEvent::CodeExchanged(ExchangeOutcome::IdToken)),
        FinishAction::CheckClaims
    ));
    assert!(matches!(
        finish_step(FinishEvent::ClaimsChecked(Err("expired".into()))),
        FinishAction::Fail(OidcAuthenticationError::BadIdToken(ref d)) if d == "expired"
    ));
}

#[test]
fn session_from_verified_claims() {
    let s = session_from_claims(claims(vec!["Alice A", "Alicia"])).unwrap();
    assert_eq!(s.username, "alice");
    assert_eq!(s.display_name, "Alice A");
    assert_eq!(s.expiration, 1_800_000_000);
    assert!(s.permissions.has(&HivePermission::Post));
    assert!(s.permissions.has(&HivePermission::UseTag(TagScope::Wildcard)));
    assert!(!s.permissions.has(&HivePermission::ManageTags));
    assert!(matches!(session_from_claims(claims(vec![])), Err(OidcAuthenticationError::NoNameClaim)));
    assert!(matches!(finish_step(FinishEvent::ClaimsChecked(Ok(claims(vec!["A"])))), FinishAction::Done(_)));
}

#[test]
fn init_error_messages() {
    assert_eq!(
        OidcInitError::InvalidIssuerUrl("relative URL without a base".into()).message(),
        "invalid OIDC issuer URL: relative URL without a base"
    );
}

#[test]
fn user_accessors() {
    let u = user(vec![HivePermission::Post]);
    assert_eq!(u.username(), "alice");
    assert_eq!(u.display_name(), "Alice A");
    assert!(u.permissions().has(&HivePermission::Post));
}

#[test]
fn nav_links() {
    let anonymous = Nav::for_user(None);
    let keys: Vec<_> = anonymous.links.iter().map(|l| (l.key, l.href)).collect();
    assert_eq!(keys, vec![("subscribe", "/subscribe")]);
    let poster = user(vec![HivePermission::Post]);
    let keys: Vec<_> = Nav::for_user(Some(&poster)).links.iter().map(|l| (l.key, l.href)).collect();
    assert_eq!(keys, vec![("subscribe", "/subscribe"), ("post", "/post")]);
    let reader = user(vec![HivePermission::ManageTags]);
    assert_eq!(Nav::for_user(Some(&reader)).links.len(), 1);
}

#[test]
fn darkmode() {
    assert_eq!(darkmode_source("yes"), DarkmodeSource::Fixed(true));
    assert_eq!(darkmode_source("no"), DarkmodeSource::Fixed(false));
    assert_eq!(darkmode_source("https://darkmode.example/"), DarkmodeSource::Ask);
    assert!(Darkmode(true).on());
}

#[test]
fn page_context() {
    let ctx = PageContext {
        user: None,
        lang: Language::English,
        splashes: Splashes::from_lines(vec!["one".into(), "two".into()]),
        nav: Nav::for_user(None),
    };
    assert!(matches!(ctx.perms(), Err(AppError::NotAuthenticated)));
    let s = ctx.splash();
    assert!(s == "one" || s == "two");
    let ctx = PageContext { user: Some(user(vec![HivePermission::Post])), ..ctx };
    assert!(ctx.perms().unwrap().has(&HivePermission::Post));
}

#[test]
fn login_context() {
    let ctx = OidcAuthenticationContext {
        redirect_url: "https://atlas.example/auth/oidc-callback".into(),
        next: Some("/posts".into()),
        csrf_state: "st".into(),
        nonce: "n".into(),
    };
    assert!(matches!(finish_step(ctx.callback("st")), FinishAction::ExchangeCode));
    assert!(matches!(finish_step(ctx.callback("other")), FinishAction::Fail(_)));
    let session = session_from_claims(claims(vec!["A"])).unwrap();
    let done = ctx.finish(session);
    assert_eq!(done.next.as_deref(), Some("/posts"));
    assert_eq!(done.session.display_name, "A");
}
