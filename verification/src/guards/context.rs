use vstd::prelude::*;

use crate::auth::hive::HivePermissionSet;
use crate::errors::AppError;
use crate::guards::lang::Language;
use crate::guards::nav::Nav;
use crate::guards::user::User;
use crate::splash::Splashes;

verus! {

/// What every page is rendered with.
pub struct PageContext {
    pub user: Option<User>,
    pub lang: Language,
    pub splashes: Splashes,
    pub nav: Nav,
}

impl PageContext {
    /// A splash text, picked at random.
    pub fn splash(&self) -> (r: &String)
        requires
            self.splashes.0@.len() > 0,
        ensures
            exists|i: int| 0 <= i < self.splashes.0@.len() && self.splashes.0@[i] == *r,
    {
        self.splashes.choose_splash()
    }

    /// The permissions of the logged-in user; without one, the visitor is not authenticated.
    pub fn perms(&self) -> (r: Result<&HivePermissionSet, AppError>)
        ensures
            match self.user {
                Some(u) => r == Ok::<&HivePermissionSet, AppError>(&u.0.permissions),
                None => r matches Err(e) && e is NotAuthenticated,
            },
    {
        match &self.user {
            Some(user) => Ok(user.permissions()),
            None => Err(AppError::NotAuthenticated),
        }
    }
}

} // verus!
