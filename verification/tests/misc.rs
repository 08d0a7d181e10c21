use atlas::ace::text::split_text;
use atlas::dto::TrimmedStr;
use atlas::config::{listen_addr, log_file, port, verbosity, Config, SecretKeyError, Verbosity};
use atlas::templates::index::{PageContext, User};
use atlas::web::catchers::{caught_keys, login_next};

fn config(secret: &str) -> Config {
    Config {
        listen_addr: listen_addr(),
        port: port(),
        verbosity: verbosity(),
        log_file: log_file(),
        db_url: "postgres://db".into(),
        secret_key: secret.into(),
        oidc_issuer_url: "https://sso.example".into(),
        oidc_client_id: "atlas".into(),
        oidc_client_secret: "client-secret".into(),
        darkmode_url: "yes".into(),
    }
}

#[test]
fn defaults() {
    assert_eq!(listen_addr(), "0.0.0.0");
    assert_eq!(port(), 6767);
    assert_eq!(verbosity(), Verbosity::Normal);
    assert_eq!(log_file(), "/tmp/atlas.log");
}

#[test]
fn secret_key() {
    let good = "ab".repeat(64);
    assert_eq!(config(&good).secret_key_bytes(), Ok(vec![0xab; 64]));
    let upper = "0F".repeat(64);
    assert_eq!(config(&upper).secret_key_bytes(), Ok(vec![0x0f; 64]));
    assert_eq!(config("abc").secret_key_bytes(), Err(SecretKeyError::InvalidHex));
    assert_eq!(config(&"zz".repeat(64)).secret_key_bytes(), Err(SecretKeyError::InvalidHex));
    assert_eq!(config("abcd").secret_key_bytes(), Err(SecretKeyError::WrongLength));
}

#[test]
fn oidc_config() {
    let o = config("").get_oidc_config();
    assert_eq!(o.issuer_url, "https://sso.example");
    assert_eq!(o.client_id, "atlas");
    assert_eq!(o.client_secret, "client-secret");
}

#[test]
fn crumbs() {
    let ctx = PageContext::new(" /news/12/ ", None);
    let c: Vec<_> = ctx.crumbs.iter().map(|c| (c.name.as_str(), c.url.as_str())).collect();
    assert_eq!(c, vec![("home", "/"), ("news", "/news"), ("12", "/news/12")]);
    let ctx = PageContext::new("/", Some(User { name: "O".into(), avatar_url: "a".into() }));
    assert_eq!(ctx.crumbs.len(), 1);
    assert_eq!(ctx.user.unwrap().name, "O");
}

#[test]
fn split_and_trim() {
    assert_eq!(split_text("a//b", '/'), vec!["a", "", "b"]);
    assert_eq!(split_text("", '/'), vec![""]);
    assert_eq!(TrimmedStr::from_value("\t x y \u{3000}").as_str(), "x y");
    assert_eq!(split_text("a/b/", '/').join("/"), "a/b/");
}

#[test]
fn catchers() {
    assert_eq!(login_next(true, "/posts?edit"), Some("/posts?edit".to_string()));
    assert_eq!(login_next(false, "/posts"), None);
    let (t, d) = caught_keys("not-found");
    assert_eq!(t, "errors.caught.not-found.title");
    assert_eq!(d, "errors.caught.not-found.description");
}

#[test]
fn rocket_settings() {
    let good = "ab".repeat(64);
    let c = config(&good);
    assert!(c.secret_key_bytes().is_ok());
    let r = c.get_rocket_config();
    assert_eq!(r.address, "0.0.0.0");
    assert_eq!(r.port, 6767);
    assert_eq!(r.secret_key, vec![0xab; 64]);
    assert_eq!(r.ident, "atlas");
}
