use vstd::prelude::*;

use crate::auth::hive::{HivePermission, PermissionV};
use crate::guards::user::User;

verus! {

/// A link of the navigation bar: the translation key of its text and its target.
#[derive(Debug)]
pub struct NavLink {
    pub key: &'static str,
    pub href: &'static str,
}

impl NavLink {
    pub fn new(key: &'static str, href: &'static str) -> (r: NavLink)
        ensures
            r.key == key,
            r.href == href,
    {
        NavLink { key, href }
    }
}

/// The navigation bar.
#[derive(Debug)]
pub struct Nav {
    pub links: Vec<NavLink>,
}

/// The keys and targets of the links that a visitor sees: everyone may subscribe, and a
/// user who may post gets a link to do so.
pub open spec fn spec_nav_links(may_post: bool) -> Seq<(Seq<char>, Seq<char>)> {
    if may_post {
        seq![("subscribe"@, "/subscribe"@), ("post"@, "/post"@)]
    } else {
        seq![("subscribe"@, "/subscribe"@)]
    }
}

/// The links of a navigation bar, as text.
pub open spec fn links_view(links: Seq<NavLink>) -> Seq<(Seq<char>, Seq<char>)> {
    links.map_values(|l: NavLink| (l.key@, l.href@))
}

impl Nav {
    /// The navigation bar for a visitor, logged in as `user` or not.
    pub fn for_user(user: Option<&User>) -> (r: Nav)
        ensures
            links_view(r.links@) == spec_nav_links(
                match user {
                    Some(u) => u.0.permissions.perms().contains(PermissionV::Post),
                    None => false,
                },
            ),
    {
        let mut links: Vec<NavLink> = Vec::new();
        links.push(NavLink::new("subscribe", "/subscribe"));
        let mut may_post = false;
        if let Some(u) = user {
            if u.permissions().has(&HivePermission::Post) {
                links.push(NavLink::new("post", "/post"));
                may_post = true;
            }
        }
        assert(links_view(links@) =~= spec_nav_links(may_post));
        Nav { links }
    }
}

} // verus!
