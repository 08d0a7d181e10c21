use vstd::prelude::*;

use crate::auth::hive::HivePermissionSet;
use crate::auth::Session;

verus! {

/// The user who made a request, by their session.
#[derive(Debug)]
pub struct User(pub Session);

impl User {
    /// The user's name at the identity provider.
    pub fn username(&self) -> (r: &str)
        ensures
            r@ == self.0.username@,
    {
        self.0.username.as_str()
    }

    /// The name to show for the user.
    pub fn display_name(&self) -> (r: &str)
        ensures
            r@ == self.0.display_name@,
    {
        self.0.display_name.as_str()
    }

    /// The permissions the user holds.
    pub fn permissions(&self) -> (r: &HivePermissionSet)
        ensures
            r == &self.0.permissions,
    {
        &self.0.permissions
    }
}

} // verus!
