use atlas::auth::hive::{HivePermission, HivePermissionSet, TagScope};
use atlas::errors::AppError;

fn entries(pairs: &[(&str, Option<&str>)]) -> Vec<(String, Option<String>)> {
    pairs
        .iter()
        .map(|(k, v)| (k.to_string(), v.map(|s| s.to_string())))
        .collect()
}

#[test]
fn tag_scope_from_text() {
    assert_eq!(TagScope::from_text("*".to_string()), TagScope::Wildcard);
    assert_eq!(TagScope::from_text("news".to_string()), TagScope::Tag("news".to_string()));
    assert_eq!(TagScope::from("*".to_string()), TagScope::Wildcard);
    assert_eq!(TagScope::Wildcard.to_text(), "*");
    assert_eq!(TagScope::Tag("x".to_string()).to_text(), "x");
}

#[test]
fn permission_keys_and_scopes() {
    assert_eq!(HivePermission::Post.key(), "post");
    assert_eq!(HivePermission::ManageTags.key(), "manage-tags");
    assert_eq!(HivePermission::UseTag(TagScope::Wildcard).key(), "use-tag");
    assert_eq!(HivePermission::Unknown.key(), "unknown");
    assert_eq!(HivePermission::Post.scope(), None);
    assert_eq!(HivePermission::UseTag(TagScope::Wildcard).scope(), Some("*".to_string()));
}

#[test]
fn permission_create() {
    assert_eq!(HivePermission::create(None, None), Some(HivePermission::Unknown));
    assert_eq!(HivePermission::create(Some("post".into()), None), Some(HivePermission::Post));
    assert_eq!(HivePermission::create(Some("use-tag".into()), None), None);
    assert_eq!(
        HivePermission::create(Some("use-tag".into()), Some("events".into())),
        Some(HivePermission::UseTag(TagScope::Tag("events".into())))
    );
    assert_eq!(HivePermission::create(Some("fly".into()), None), Some(HivePermission::Unknown));
}

#[test]
fn permission_entries_round_trip() {
    for p in [
        HivePermission::Post,
        HivePermission::ManageTags,
        HivePermission::UseTag(TagScope::Wildcard),
        HivePermission::UseTag(TagScope::Tag("events".into())),
        HivePermission::Unknown,
    ] {
        assert_eq!(HivePermission::from_entries(&p.to_entries()), Some(p.clone()));
    }
    // a tag named `*` comes back as the wildcard
    let star = HivePermission::UseTag(TagScope::Tag("*".into()));
    assert_eq!(
        HivePermission::from_entries(&star.to_entries()),
        Some(HivePermission::UseTag(TagScope::Wildcard))
    );
}

#[test]
fn from_entries_last_entry_wins_and_ignores_others() {
    let e = entries(&[("id", Some("post")), ("color", Some("red")), ("id", Some("manage-tags"))]);
    assert_eq!(HivePermission::from_entries(&e), Some(HivePermission::ManageTags));
    let e = entries(&[("id", Some("use-tag"))]);
    assert_eq!(HivePermission::from_entries(&e), None);
    let e = entries(&[("scope", Some("x"))]);
    assert_eq!(HivePermission::from_entries(&e), Some(HivePermission::Unknown));
}

#[test]
fn permission_set_membership() {
    let set = HivePermissionSet::from_vec(vec![
        HivePermission::Post,
        HivePermission::Post,
        HivePermission::UseTag(TagScope::Tag("a".into())),
    ]);
    assert!(set.has(&HivePermission::Post));
    assert!(set.has(&HivePermission::UseTag(TagScope::Tag("a".into()))));
    assert!(!set.has(&HivePermission::UseTag(TagScope::Wildcard)));
    assert!(!set.has(&HivePermission::ManageTags));
    assert_eq!(set.to_vec().len(), 2);
    assert!(!HivePermissionSet::default().has(&HivePermission::Post));
}

#[test]
fn permission_set_require() {
    let set = HivePermissionSet::from_vec(vec![HivePermission::Post]);
    assert!(set.require(HivePermission::Post).is_ok());
    match set.require(HivePermission::ManageTags) {
        Err(AppError::NotAllowed(p)) => assert_eq!(p, HivePermission::ManageTags),
        _ => panic!("expected NotAllowed"),
    }
}
