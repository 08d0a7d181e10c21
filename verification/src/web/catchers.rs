use vstd::prelude::*;

verus! {

/// Where to send a visitor back after logging in, when a request needed a login: the page
/// they asked for, if they only looked at it.
pub fn login_next(is_get: bool, uri: &str) -> (r: Option<String>)
    ensures
        match r {
            Some(s) => is_get && s@ == uri@,
            None => !is_get,
        },
{
    if is_get {
        Some(String::from_str(uri))
    } else {
        None
    }
}

/// The translation keys of the title and the description of the page shown for an error
/// that a catcher named `name` caught.
pub fn caught_keys(name: &str) -> (r: (String, String))
    ensures
        r.0@ == "errors.caught."@ + name@ + ".title"@,
        r.1@ == "errors.caught."@ + name@ + ".description"@,
{
    let mut title = String::from_str("errors.caught.");
    title.append(name);
    title.append(".title");
    let mut description = String::from_str("errors.caught.");
    description.append(name);
    description.append(".description");
    (title, description)
}

} // verus!
