use vstd::prelude::*;

use crate::auth::hive::HivePermissionSet;

pub mod hive;
pub mod oidc;

verus! {

/// A logged-in user, as the identity provider described them.
#[derive(Debug)]
pub struct Session {
    /// The subject of the ID token.
    pub username: String,
    pub display_name: String,
    pub permissions: HivePermissionSet,
    /// When the session ends, in seconds since the Unix epoch.
    pub expiration: i64,
}

} // verus!
