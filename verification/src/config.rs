use vstd::prelude::*;

use crate::auth::oidc::OidcConfig;

verus! {

/// How much is logged.
#[derive(Debug, PartialEq, Eq, Clone, Copy, Structural)]
pub enum Verbosity {
    Quiet,
    Normal,
    Verbose,
}

/// The settings of the server, read from `atlas.toml` and `ATLAS_` variables.
#[derive(Debug)]
pub struct Config {
    /// The address listened on, as text.
    pub listen_addr: String,
    pub port: u16,
    pub verbosity: Verbosity,
    pub log_file: String,
    pub db_url: String,
    /// The key that protects cookies, as hexadecimal text.
    pub secret_key: String,
    pub oidc_issuer_url: String,
    pub oidc_client_id: String,
    pub oidc_client_secret: String,
    /// `yes`, `no`, or the URL that answers whether the darkmode is on.
    pub darkmode_url: String,
}

/// Every address, by default.
pub fn listen_addr() -> (r: String)
    ensures
        r@ == "0.0.0.0"@,
{
    String::from_str("0.0.0.0")
}

/// The port listened on by default.
pub fn port() -> (r: u16)
    ensures
        r == 6767,
{
    6767
}

/// How much is logged by default.
pub fn verbosity() -> (r: Verbosity)
    ensures
        r == Verbosity::Normal,
{
    Verbosity::Normal
}

/// Where the log goes by default.
pub fn log_file() -> (r: String)
    ensures
        r@ == "/tmp/atlas.log"@,
{
    String::from_str("/tmp/atlas.log")
}

/// The value of hexadecimal digit `b`, in either case.
pub open spec fn hex_digit_value(c: char) -> Option<int> {
    if '0' <= c <= '9' {
        Some(c as int - 48)
    } else if 'A' <= c <= 'F' {
        Some(c as int - 55)
    } else if 'a' <= c <= 'f' {
        Some(c as int - 87)
    } else {
        None
    }
}

/// The bytes that hexadecimal text `d` writes, two digits each, the high half first; none
/// for text of odd length or with a character that is not a hexadecimal digit.
pub open spec fn hex_decoded(d: Seq<char>) -> Option<Seq<u8>> {
    if d.len() % 2 != 0 || exists|i: int| 0 <= i < d.len() && (#[trigger] hex_digit_value(d[i])) is None {
        None
    } else {
        Some(
            Seq::new(
                d.len() / 2,
                |i: int| (hex_digit_value(d[2 * i])->0 * 16 + hex_digit_value(d[2 * i + 1])->0) as u8,
            ),
        )
    }
}

/// `hex::decode` on the bytes of `text`: the bytes that the text writes, or an error for
/// text of odd length or with a byte that is not a hexadecimal digit. Hexadecimal digits are
/// ASCII, so a text whose characters all are has as many bytes as characters, and any other
/// character has bytes that are not digits.
#[verifier::external_body]
fn hex_decode(text: &str) -> (r: Option<Vec<u8>>)
    ensures
        match r {
            Some(v) => hex_decoded(text@) == Some(v@),
            None => hex_decoded(text@) is None,
        },
{
    match hex::decode(text) {
        Ok(v) => Some(v),
        Err(_) => None,
    }
}

/// Why the secret key cannot be used.
#[derive(Debug, PartialEq, Eq, Clone, Copy, Structural)]
pub enum SecretKeyError {
    /// It is not a hexadecimal text.
    InvalidHex,
    /// It does not hold 64 bytes.
    WrongLength,
}

/// The bytes of the configured secret key: hexadecimal text of 64 bytes.
pub open spec fn spec_secret_key(text: Seq<char>) -> Result<Seq<u8>, SecretKeyError> {
    match hex_decoded(text) {
        None => Err(SecretKeyError::InvalidHex),
        Some(b) => if b.len() == 64 {
            Ok(b)
        } else {
            Err(SecretKeyError::WrongLength)
        },
    }
}

/// What the web server is started with: the address and port listened on, the key that
/// protects cookies, and the name it gives itself.
#[derive(Debug)]
pub struct RocketSettings {
    pub address: String,
    pub port: u16,
    pub secret_key: Vec<u8>,
    pub ident: String,
}

impl Config {
    /// The settings of the web server. The secret key must be hexadecimal text of 64 bytes;
    /// `secret_key_bytes` tells whether it is.
    pub fn get_rocket_config(&self) -> (r: RocketSettings)
        requires
            spec_secret_key(self.secret_key@) is Ok,
        ensures
            r.address@ == self.listen_addr@,
            r.port == self.port,
            Ok::<Seq<u8>, SecretKeyError>(r.secret_key@) == spec_secret_key(self.secret_key@),
            r.ident@ == "atlas"@,
    {
        let key = match hex_decode(self.secret_key.as_str()) {
            Some(v) => v,
            None => {
                proof {
                    assert(false);
                }
                Vec::new()
            },
        };
        RocketSettings {
            address: self.listen_addr.clone(),
            port: self.port,
            secret_key: key,
            ident: String::from_str("atlas"),
        }
    }

    /// The secret key as bytes, which must be 64.
    pub fn secret_key_bytes(&self) -> (r: Result<Vec<u8>, SecretKeyError>)
        ensures
            match (r, spec_secret_key(self.secret_key@)) {
                (Ok(v), Ok(b)) => v@ == b,
                (Err(e), Err(f)) => e == f,
                _ => false,
            },
    {
        match hex_decode(self.secret_key.as_str()) {
            None => Err(SecretKeyError::InvalidHex),
            Some(v) => if v.len() == 64 {
                Ok(v)
            } else {
                Err(SecretKeyError::WrongLength)
            },
        }
    }

    /// Where the identity provider is and how to identify to it.
    pub fn get_oidc_config(&self) -> (r: OidcConfig)
        ensures
            r.issuer_url@ == self.oidc_issuer_url@,
            r.client_id@ == self.oidc_client_id@,
            r.client_secret@ == self.oidc_client_secret@,
    {
        OidcConfig {
            issuer_url: self.oidc_issuer_url.clone(),
            client_id: self.oidc_client_id.clone(),
            client_secret: self.oidc_client_secret.clone(),
        }
    }
}

} // verus!
