use atlas::clock::LocalDateTime;
use atlas::dto::posts::EditPostDto;
use atlas::dto::{valid_groupkey, GroupKeyDto, SubmitType, TrimmedStr};
use atlas::errors::AppError;
use atlas::guards::lang::Language;
use atlas::models::Post;
use atlas::services::posts::{
    create_query, get_one_query, require_found, update_query, BindValue, QueryPart,
};

fn sql(s: &str) -> QueryPart {
    QueryPart::Sql(s.to_string())
}

fn text(s: &str) -> QueryPart {
    QueryPart::Bind(BindValue::Text(s.to_string()))
}

fn when() -> LocalDateTime {
    LocalDateTime { year: 2026, month: 5, day: 1, hour: 12, minute: 0, second: 0, nanosecond: 0, offset: 7200 }
}

fn stored() -> Post {
    Post {
        id: 7,
        darkmode_hide: false,
        published: false,
        publish_time: when(),
        edit_time: when(),
        author: "alice".into(),
        mandate: None,
        title_sv: "Hej".into(),
        title_en: "Hello".into(),
        content_sv: "Innehållet".into(),
        content_en: "The content".into(),
        banner: None,
    }
}

fn form<'v>(title_en: &'v str, publish: bool, draft: bool) -> EditPostDto<'v> {
    EditPostDto {
        title_sv: TrimmedStr::from_value("Hej"),
        title_en: TrimmedStr::from_value(title_en),
        content_sv: TrimmedStr::from_value("Innehållet"),
        content_en: TrimmedStr::from_value("The content"),
        publish_time: None,
        mandate: None,
        darkmode_hide: false,
        publish: SubmitType::from_field(publish),
        draft: SubmitType::from_field(draft),
    }
}

#[test]
fn trimmed_values() {
    let t = TrimmedStr::from_value("  hi there \n");
    assert_eq!(t.as_str(), "hi there");
    assert_eq!(t.len(), 8);
    assert!(SubmitType::from_field(true).pressed());
    assert!(!SubmitType::from_field(false).pressed());
}

#[test]
fn group_keys() {
    assert!(valid_groupkey("styrelsen@dsekt.se").is_ok());
    assert!(valid_groupkey("d-sys@dsekt-x.se").is_ok());
    assert_eq!(valid_groupkey("Styrelsen@dsekt.se"), Err("invalid groupkey".to_string()));
    assert!(valid_groupkey("a--b@x.se").is_err());
    assert!(valid_groupkey("-a@x.se").is_err());
    assert!(valid_groupkey("a@x.se ").is_err());
    assert!(valid_groupkey("a@x.y.se").is_err());
    assert!(valid_groupkey("a@x").is_err());
    assert_eq!(GroupKeyDto::from_value("a@b.se").unwrap().0, "a@b.se");
    assert!(GroupKeyDto::from_value(" a@b.se").is_err());
}

#[test]
fn short_fields() {
    let mut f = form("Hi", false, false);
    assert_eq!(f.short_fields(), vec!["title_en"]);
    f.content_sv = TrimmedStr::from_value("   short   ");
    assert_eq!(f.short_fields(), vec!["title_en", "content_sv"]);
}

#[test]
fn localized_text() {
    let p = stored();
    assert_eq!(p.localized_title(&Language::Swedish), "Hej");
    assert_eq!(p.localized_title(&Language::English), "Hello");
    assert_eq!(p.localized_content(&Language::English), "The content");
}

#[test]
fn insert_query() {
    let mut f = form("Hello", true, false);
    f.publish_time = Some(when());
    f.mandate = Some(GroupKeyDto("styrelsen@dsekt.se"));
    let q = create_query(&f, "bob");
    let sep = || sql(", ");
    assert_eq!(
        q,
        vec![
            sql("INSERT INTO post (darkmode_hide, published, author, mandate, title_sv, title_en, content_sv, content_en"),
            sql(", publish_time"),
            sql(") VALUES ("),
            QueryPart::Bind(BindValue::Bool(false)),
            sep(),
            QueryPart::Bind(BindValue::Bool(true)),
            sep(),
            text("bob"),
            sep(),
            QueryPart::Bind(BindValue::OptText(Some("styrelsen@dsekt.se".into()))),
            sep(),
            text("Hej"),
            sep(),
            text("Hello"),
            sep(),
            text("Innehållet"),
            sep(),
            text("The content"),
            sep(),
            QueryPart::Bind(BindValue::Time(when())),
            sql(") RETURNING id"),
        ]
    );
}

#[test]
fn update_nothing_changed() {
    assert_eq!(update_query(7, &stored(), &form("Hello", false, false)), None);
}

#[test]
fn update_changed_title() {
    let q = update_query(7, &stored(), &form("Hello there", false, false)).unwrap();
    assert_eq!(
        q,
        vec![
            sql("UPDATE post SET"),
            sql(" title_en = "),
            text("Hello there"),
            sql(", edit_time = NOW() WHERE id ="),
            QueryPart::Bind(BindValue::Int(7)),
        ]
    );
}

#[test]
fn update_publish_draft() {
    let q = update_query(7, &stored(), &form("Hello", true, false)).unwrap();
    assert_eq!(
        q,
        vec![
            sql("UPDATE post SET"),
            sql(" publish_time = "),
            sql("NOW()"),
            sql(" published = "),
            QueryPart::Bind(BindValue::Bool(true)),
            sql(", edit_time = NOW() WHERE id ="),
            QueryPart::Bind(BindValue::Int(7)),
        ]
    );
}

#[test]
fn update_unpublish() {
    let mut old = stored();
    old.published = true;
    let q = update_query(9, &old, &form("Hi!", false, true)).unwrap();
    assert_eq!(
        q,
        vec![
            sql("UPDATE post SET"),
            sql(" title_en = "),
            text("Hi!"),
            sql(", "),
            sql(" published = "),
            QueryPart::Bind(BindValue::Bool(false)),
            sql(", edit_time = NOW() WHERE id ="),
            QueryPart::Bind(BindValue::Int(9)),
        ]
    );
}

#[test]
fn lookup_result() {
    assert_eq!(require_found(3, Some(5)).unwrap(), 5);
    match require_found::<i32>(3, None) {
        Err(AppError::NoSuchPost(id)) => assert_eq!(id, 3),
        _ => panic!("expected NoSuchPost"),
    }
}

#[test]
fn select_query() {
    assert_eq!(
        get_one_query(42),
        vec![sql("SELECT * FROM post WHERE id = "), QueryPart::Bind(BindValue::Int(42))]
    );
}
