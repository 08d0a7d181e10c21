use vstd::prelude::*;

use crate::ace::types::same_text;
use crate::clock::LocalDateTime;
use crate::dto::posts::EditPostDto;
use crate::errors::AppError;
use crate::models::Post;

verus! {

/// A value bound to a placeholder of a query.
#[derive(Debug, PartialEq)]
pub enum BindValue {
    Bool(bool),
    Int(i64),
    Text(String),
    OptText(Option<String>),
    Time(LocalDateTime),
}

/// A piece of a query, in the order the query is built: SQL text, or a value bound to the
/// next placeholder.
#[derive(Debug, PartialEq)]
pub enum QueryPart {
    Sql(String),
    Bind(BindValue),
}

/// The mathematical content of a [`BindValue`].
pub enum BindV {
    Bool(bool),
    Int(i64),
    Text(Seq<char>),
    OptText(Option<Seq<char>>),
    Time(LocalDateTime),
}

/// The mathematical content of a [`QueryPart`].
pub enum PartV {
    Sql(Seq<char>),
    Bind(BindV),
}

/// The mathematical content of an optional string.
pub open spec fn opt_view(o: Option<String>) -> Option<Seq<char>> {
    match o {
        Some(s) => Some(s@),
        None => None,
    }
}

impl View for BindValue {
    type V = BindV;

    open spec fn view(&self) -> BindV {
        match self {
            BindValue::Bool(b) => BindV::Bool(*b),
            BindValue::Int(i) => BindV::Int(*i),
            BindValue::Text(s) => BindV::Text(s@),
            BindValue::OptText(o) => BindV::OptText(opt_view(*o)),
            BindValue::Time(t) => BindV::Time(*t),
        }
    }
}

impl View for QueryPart {
    type V = PartV;

    open spec fn view(&self) -> PartV {
        match self {
            QueryPart::Sql(s) => PartV::Sql(s@),
            QueryPart::Bind(b) => PartV::Bind(b@),
        }
    }
}

/// The mathematical content of a query.
pub open spec fn parts_view(parts: Seq<QueryPart>) -> Seq<PartV> {
    parts.map_values(|p: QueryPart| p@)
}

/// The group key of a post form, as text.
pub open spec fn mandate_view(dto: EditPostDto) -> Option<Seq<char>> {
    match dto.mandate {
        Some(k) => Some(k.0@),
        None => None,
    }
}

/// The values bound by an insertion, in column order, each after a comma but the first.
pub open spec fn spec_insert_values(dto: EditPostDto, author: Seq<char>) -> Seq<PartV> {
    let sep = PartV::Sql(", "@);
    let base = seq![
        PartV::Bind(BindV::Bool(dto.darkmode_hide)), sep,
        PartV::Bind(BindV::Bool(dto.publish.0)), sep,
        PartV::Bind(BindV::Text(author)), sep,
        PartV::Bind(BindV::OptText(mandate_view(dto))), sep,
        PartV::Bind(BindV::Text(dto.title_sv.0@)), sep,
        PartV::Bind(BindV::Text(dto.title_en.0@)), sep,
        PartV::Bind(BindV::Text(dto.content_sv.0@)), sep,
        PartV::Bind(BindV::Text(dto.content_en.0@))
    ];
    match dto.publish_time {
        Some(t) => base + seq![sep, PartV::Bind(BindV::Time(t))],
        None => base,
    }
}

/// The query that inserts the post of a form, written by `author`, and returns its id. The
/// publish time is inserted only when the form sets one; else the column's default holds.
pub open spec fn spec_create_query(dto: EditPostDto, author: Seq<char>) -> Seq<PartV> {
    seq![PartV::Sql(
        "INSERT INTO post (darkmode_hide, published, author, mandate, title_sv, title_en, content_sv, content_en"@,
    )] + (if dto.publish_time is Some { seq![PartV::Sql(", publish_time"@)] } else { seq![] })
        + seq![PartV::Sql(") VALUES ("@)] + spec_insert_values(dto, author) + seq![
        PartV::Sql(") RETURNING id"@),
    ]
}

/// A comma, if something was set before.
pub open spec fn comma_if(changed: bool) -> Seq<PartV> {
    if changed {
        seq![PartV::Sql(", "@)]
    } else {
        seq![]
    }
}

/// Sets column `name` to `value` when `differs`; the flag tells whether anything is set.
pub open spec fn set_if(q: (Seq<PartV>, bool), differs: bool, name: Seq<char>, value: BindV) -> (
    Seq<PartV>,
    bool,
) {
    if differs {
        (q.0 + comma_if(q.1) + seq![PartV::Sql(" "@ + name + " = "@), PartV::Bind(value)], true)
    } else {
        q
    }
}

/// The columns of a post whose value differs from the form's, set to the form's value.
pub open spec fn spec_set_fields(old: Post, dto: EditPostDto) -> (Seq<PartV>, bool) {
    let q0 = (seq![PartV::Sql("UPDATE post SET"@)], false);
    let q1 = set_if(q0, old.darkmode_hide != dto.darkmode_hide, "darkmode_hide"@, BindV::Bool(dto.darkmode_hide));
    let q2 = set_if(q1, opt_view(old.mandate) != mandate_view(dto), "mandate"@, BindV::OptText(mandate_view(dto)));
    let q3 = set_if(q2, old.title_sv@ != dto.title_sv.0@, "title_sv"@, BindV::Text(dto.title_sv.0@));
    let q4 = set_if(q3, old.title_en@ != dto.title_en.0@, "title_en"@, BindV::Text(dto.title_en.0@));
    let q5 = set_if(q4, old.content_sv@ != dto.content_sv.0@, "content_sv"@, BindV::Text(dto.content_sv.0@));
    set_if(q5, old.content_en@ != dto.content_en.0@, "content_en"@, BindV::Text(dto.content_en.0@))
}

/// Publishing with a publish time other than the stored one sets it: to the form's time,
/// or to the present when the form gives none. This does not count as a change.
pub open spec fn spec_set_publish_time(q: (Seq<PartV>, bool), old: Post, dto: EditPostDto) -> (Seq<PartV>, bool) {
    if dto.publish.0 && dto.publish_time != Some(old.publish_time) {
        let value = match dto.publish_time {
            Some(t) => PartV::Bind(BindV::Time(t)),
            None => PartV::Sql("NOW()"@),
        };
        (q.0 + comma_if(q.1) + seq![PartV::Sql(" publish_time = "@), value], q.1)
    } else {
        q
    }
}

/// Keeping a published post as a draft, or publishing a draft, flips whether it is published.
pub open spec fn spec_toggle_published(q: (Seq<PartV>, bool), old: Post, dto: EditPostDto) -> (Seq<PartV>, bool) {
    if (old.published && dto.draft.0) || (!old.published && dto.publish.0) {
        (q.0 + comma_if(q.1) + seq![PartV::Sql(" published = "@), PartV::Bind(BindV::Bool(!old.published))], true)
    } else {
        q
    }
}

/// The query that brings post `id`, stored as `old`, in line with a form, if anything
/// changed; it also sets the edit time to the present.
pub open spec fn spec_update_query(id: i64, old: Post, dto: EditPostDto) -> Option<Seq<PartV>> {
    let q = spec_toggle_published(spec_set_publish_time(spec_set_fields(old, dto), old, dto), old, dto);
    if q.1 {
        Some(q.0 + seq![PartV::Sql(", edit_time = NOW() WHERE id ="@), PartV::Bind(BindV::Int(id))])
    } else {
        None
    }
}

/// Appends SQL text.
fn push_sql(parts: &mut Vec<QueryPart>, s: &str)
    ensures
        parts_view(final(parts)@) == parts_view(old(parts)@).push(PartV::Sql(s@)),
{
    parts.push(QueryPart::Sql(String::from_str(s)));
    assert(parts_view(parts@) =~= parts_view(old(parts)@).push(PartV::Sql(s@)));
}

/// Appends a bound value.
fn push_bind(parts: &mut Vec<QueryPart>, v: BindValue)
    ensures
        parts_view(final(parts)@) == parts_view(old(parts)@).push(PartV::Bind(v@)),
{
    parts.push(QueryPart::Bind(v));
    assert(parts_view(parts@) =~= parts_view(old(parts)@).push(PartV::Bind(v@)));
}

/// The group key of a form, as an owned string.
fn mandate_text(dto: &EditPostDto) -> (r: Option<String>)
    ensures
        opt_view(r) == mandate_view(*dto),
{
    match dto.mandate {
        Some(k) => Some(String::from_str(k.0)),
        None => None,
    }
}

/// The query that inserts the post of a form, written by `author`, and returns its id.
pub fn create_query(dto: &EditPostDto, author: &str) -> (r: Vec<QueryPart>)
    ensures
        parts_view(r@) == spec_create_query(*dto, author@),
{
    let mut parts: Vec<QueryPart> = Vec::new();
    push_sql(
        &mut parts,
        "INSERT INTO post (darkmode_hide, published, author, mandate, title_sv, title_en, content_sv, content_en",
    );
    if dto.publish_time.is_some() {
        push_sql(&mut parts, ", publish_time");
    }
    push_sql(&mut parts, ") VALUES (");
    push_bind(&mut parts, BindValue::Bool(dto.darkmode_hide));
    push_sql(&mut parts, ", ");
    push_bind(&mut parts, BindValue::Bool(dto.publish.pressed()));
    push_sql(&mut parts, ", ");
    push_bind(&mut parts, BindValue::Text(String::from_str(author)));
    push_sql(&mut parts, ", ");
    push_bind(&mut parts, BindValue::OptText(mandate_text(dto)));
    push_sql(&mut parts, ", ");
    push_bind(&mut parts, BindValue::Text(String::from_str(dto.title_sv.0)));
    push_sql(&mut parts, ", ");
    push_bind(&mut parts, BindValue::Text(String::from_str(dto.title_en.0)));
    push_sql(&mut parts, ", ");
    push_bind(&mut parts, BindValue::Text(String::from_str(dto.content_sv.0)));
    push_sql(&mut parts, ", ");
    push_bind(&mut parts, BindValue::Text(String::from_str(dto.content_en.0)));
    if let Some(t) = dto.publish_time {
        push_sql(&mut parts, ", ");
        push_bind(&mut parts, BindValue::Time(t));
    }
    push_sql(&mut parts, ") RETURNING id");
    assert(parts_view(parts@) =~= spec_create_query(*dto, author@));
    parts
}

/// Sets column `name` to `value` when `differs`, after a comma if something was set before.
fn set_column(parts: &mut Vec<QueryPart>, changed: &mut bool, differs: bool, name: &str, value: BindValue)
    ensures
        (parts_view(final(parts)@), *final(changed)) == set_if(
            (parts_view(old(parts)@), *old(changed)),
            differs,
            name@,
            value@,
        ),
{
    if differs {
        let ghost start = parts_view(parts@);
        if *changed {
            push_sql(parts, ", ");
        }
        let ghost mid = parts_view(parts@);
        assert(mid == start + comma_if(*old(changed)));
        let mut text = String::from_str(" ");
        text.append(name);
        text.append(" = ");
        assert(text@ =~= " "@ + name@ + " = "@);
        push_sql(parts, text.as_str());
        push_bind(parts, value);
        *changed = true;
        assert(parts_view(parts@) =~= mid + seq![PartV::Sql(" "@ + name@ + " = "@), PartV::Bind(value@)]);
    }
}

/// Whether two optional strings hold the same text.
fn same_opt_text(a: &Option<String>, b: &Option<String>) -> (r: bool)
    ensures
        r == (opt_view(*a) == opt_view(*b)),
{
    match (a, b) {
        (Some(x), Some(y)) => same_text(x, y),
        (None, None) => true,
        _ => false,
    }
}

/// Whether the stored text `a` differs from the form's text `b`.
fn text_differs(a: &String, b: &str) -> (r: bool)
    ensures
        r == (a@ != b@),
{
    !same_text(a, &String::from_str(b))
}

/// Sets the columns whose stored value differs from the form's.
fn set_fields(parts: &mut Vec<QueryPart>, changed: &mut bool, stored: &Post, dto: &EditPostDto)
    requires
        parts_view(old(parts)@) == seq![PartV::Sql("UPDATE post SET"@)],
        !*old(changed),
    ensures
        (parts_view(final(parts)@), *final(changed)) == spec_set_fields(*stored, *dto),
{
    set_column(parts, changed, stored.darkmode_hide != dto.darkmode_hide, "darkmode_hide", BindValue::Bool(dto.darkmode_hide));
    let mandate = mandate_text(dto);
    let differs = !same_opt_text(&stored.mandate, &mandate);
    set_column(parts, changed, differs, "mandate", BindValue::OptText(mandate));
    let differs = text_differs(&stored.title_sv, dto.title_sv.0);
    set_column(parts, changed, differs, "title_sv", BindValue::Text(String::from_str(dto.title_sv.0)));
    let differs = text_differs(&stored.title_en, dto.title_en.0);
    set_column(parts, changed, differs, "title_en", BindValue::Text(String::from_str(dto.title_en.0)));
    let differs = text_differs(&stored.content_sv, dto.content_sv.0);
    set_column(parts, changed, differs, "content_sv", BindValue::Text(String::from_str(dto.content_sv.0)));
    let differs = text_differs(&stored.content_en, dto.content_en.0);
    set_column(parts, changed, differs, "content_en", BindValue::Text(String::from_str(dto.content_en.0)));
}

/// Sets the publish time when the form publishes with a time other than the stored one.
fn set_publish_time(parts: &mut Vec<QueryPart>, changed: bool, stored: &Post, dto: &EditPostDto)
    ensures
        parts_view(final(parts)@) == spec_set_publish_time((parts_view(old(parts)@), changed), *stored, *dto).0,
{
    let time_differs = match dto.publish_time {
        Some(t) => t != stored.publish_time,
        None => true,
    };
    if dto.publish.pressed() && time_differs {
        let ghost start = parts_view(parts@);
        if changed {
            push_sql(parts, ", ");
        }
        push_sql(parts, " publish_time = ");
        match dto.publish_time {
            Some(t) => push_bind(parts, BindValue::Time(t)),
            None => push_sql(parts, "NOW()"),
        }
        assert(parts_view(parts@) =~= spec_set_publish_time((start, changed), *stored, *dto).0);
    }
}

/// Flips whether the post is published when the form asks for the other state.
fn toggle_published(parts: &mut Vec<QueryPart>, changed: &mut bool, stored: &Post, dto: &EditPostDto)
    ensures
        (parts_view(final(parts)@), *final(changed)) == spec_toggle_published(
            (parts_view(old(parts)@), *old(changed)),
            *stored,
            *dto,
        ),
{
    if (stored.published && dto.draft.pressed()) || (!stored.published && dto.publish.pressed()) {
        let ghost start = parts_view(parts@);
        if *changed {
            push_sql(parts, ", ");
        }
        push_sql(parts, " published = ");
        push_bind(parts, BindValue::Bool(!stored.published));
        assert(parts_view(parts@) =~= spec_toggle_published((start, *old(changed)), *stored, *dto).0);
        *changed = true;
    }
}

/// The query that brings post `id`, stored as `old`, in line with a form; `None` when
/// nothing changed, and then nothing is written.
pub fn update_query(id: i64, old: &Post, dto: &EditPostDto) -> (r: Option<Vec<QueryPart>>)
    ensures
        match (r, spec_update_query(id, *old, *dto)) {
            (Some(p), Some(q)) => parts_view(p@) == q,
            (None, None) => true,
            _ => false,
        },
{
    let mut parts: Vec<QueryPart> = Vec::new();
    let mut changed = false;
    push_sql(&mut parts, "UPDATE post SET");
    assert(parts_view(parts@) =~= seq![PartV::Sql("UPDATE post SET"@)]);
    set_fields(&mut parts, &mut changed, old, dto);
    set_publish_time(&mut parts, changed, old, dto);
    toggle_published(&mut parts, &mut changed, old, dto);
    if changed {
        let ghost before = parts_view(parts@);
        push_sql(&mut parts, ", edit_time = NOW() WHERE id =");
        push_bind(&mut parts, BindValue::Int(id));
        assert(parts_view(parts@) =~= before + seq![
            PartV::Sql(", edit_time = NOW() WHERE id ="@),
            PartV::Bind(BindV::Int(id)),
        ]);
        Some(parts)
    } else {
        None
    }
}

/// The query that reads post `id`.
pub fn get_one_query(id: i64) -> (r: Vec<QueryPart>)
    ensures
        parts_view(r@) == seq![PartV::Sql("SELECT * FROM post WHERE id = "@), PartV::Bind(BindV::Int(id))],
{
    let mut parts: Vec<QueryPart> = Vec::new();
    push_sql(&mut parts, "SELECT * FROM post WHERE id = ");
    push_bind(&mut parts, BindValue::Int(id));
    assert(parts_view(parts@) =~= seq![PartV::Sql("SELECT * FROM post WHERE id = "@), PartV::Bind(BindV::Int(id))]);
    parts
}

/// The post that was looked up, or the error that there is no post `id`.
pub fn require_found<P>(id: i64, found: Option<P>) -> (r: Result<P, AppError>)
    ensures
        match found {
            Some(p) => r == Ok::<P, AppError>(p),
            None => r matches Err(e) && e == AppError::NoSuchPost(id),
        },
{
    match found {
        Some(p) => Ok(p),
        None => Err(AppError::NoSuchPost(id)),
    }
}

/// Whether a form says nothing new of a stored post: its fields equal the stored ones and
/// neither button that changes the publishing was pressed.
pub open spec fn form_matches(old: Post, dto: EditPostDto) -> bool {
    &&& old.darkmode_hide == dto.darkmode_hide
    &&& opt_view(old.mandate) == mandate_view(dto)
    &&& old.title_sv@ == dto.title_sv.0@
    &&& old.title_en@ == dto.title_en.0@
    &&& old.content_sv@ == dto.content_sv.0@
    &&& old.content_en@ == dto.content_en.0@
    &&& !dto.publish.0
    &&& !dto.draft.0
}

/// Saving a form that says nothing new writes nothing.
pub proof fn lemma_unchanged_form_writes_nothing(id: i64, old: Post, dto: EditPostDto)
    requires
        form_matches(old, dto),
    ensures
        spec_update_query(id, old, dto) is None,
{
}

/// Whenever an update is written, it sets the edit time of exactly the post asked for.
pub proof fn lemma_update_targets_post(id: i64, old: Post, dto: EditPostDto)
    requires
        spec_update_query(id, old, dto) is Some,
    ensures
        ({
            let q = spec_update_query(id, old, dto)->0;
            &&& q.len() >= 3
            &&& q[0] == PartV::Sql("UPDATE post SET"@)
            &&& q[q.len() - 2] == PartV::Sql(", edit_time = NOW() WHERE id ="@)
            &&& q.last() == PartV::Bind(BindV::Int(id))
        }),
{
    let q = spec_toggle_published(spec_set_publish_time(spec_set_fields(old, dto), old, dto), old, dto);
    assert(spec_set_fields(old, dto).0.len() >= 1 && spec_set_fields(old, dto).0[0] == PartV::Sql("UPDATE post SET"@));
    assert(q.0.len() >= 1 && q.0[0] == PartV::Sql("UPDATE post SET"@));
}

/// Whether query `q` sets a column: the SQL text `set` (such as ` title_sv = `) followed by
/// the value bound to it.
pub open spec fn sets_column(q: Seq<PartV>, set: Seq<char>, value: BindV) -> bool {
    exists|i: int| 0 <= i && i + 1 < q.len() && #[trigger] q[i] == PartV::Sql(set) && q[i + 1] == PartV::Bind(value)
}

/// Whatever is appended to a query, what it set stays set.
proof fn lemma_sets_kept(q: Seq<PartV>, more: Seq<PartV>, set: Seq<char>, value: BindV)
    requires
        sets_column(q, set, value),
    ensures
        sets_column(q + more, set, value),
{
    let i = choose|i: int| 0 <= i && i + 1 < q.len() && #[trigger] q[i] == PartV::Sql(set) && q[i + 1] == PartV::Bind(value);
    assert((q + more)[i] == q[i]);
    assert((q + more)[i + 1] == q[i + 1]);
}

/// A later step of building an update only appends to the query, and keeps it marked as
/// changed once it is.
proof fn lemma_steps_append(q: (Seq<PartV>, bool), old: Post, dto: EditPostDto, differs: bool, name: Seq<char>, value: BindV)
    ensures
        set_if(q, differs, name, value).0 =~= q.0 + set_if(q, differs, name, value).0.subrange(q.0.len() as int, set_if(q, differs, name, value).0.len() as int),
        set_if(q, differs, name, value).0.len() >= q.0.len(),
        q.1 ==> set_if(q, differs, name, value).1,
        spec_set_publish_time(q, old, dto).0 =~= q.0 + spec_set_publish_time(q, old, dto).0.subrange(q.0.len() as int, spec_set_publish_time(q, old, dto).0.len() as int),
        spec_set_publish_time(q, old, dto).0.len() >= q.0.len(),
        spec_set_publish_time(q, old, dto).1 == q.1,
        spec_toggle_published(q, old, dto).0 =~= q.0 + spec_toggle_published(q, old, dto).0.subrange(q.0.len() as int, spec_toggle_published(q, old, dto).0.len() as int),
        spec_toggle_published(q, old, dto).0.len() >= q.0.len(),
        q.1 ==> spec_toggle_published(q, old, dto).1,
{
}

/// Setting a column that differs puts ` name = ` and its value in the query.
proof fn lemma_set_if_sets(q: (Seq<PartV>, bool), name: Seq<char>, value: BindV)
    ensures
        sets_column(set_if(q, true, name, value).0, " "@ + name + " = "@, value),
        set_if(q, true, name, value).1,
{
    let r = set_if(q, true, name, value).0;
    let i: int = (q.0.len() + comma_if(q.1).len()) as int;
    assert(r[i] == PartV::Sql(" "@ + name + " = "@));
    assert(r[i + 1] == PartV::Bind(value));
}

/// What a step of the update set, and that it changed something, outlasts the later steps.
proof fn lemma_set_survives(q: (Seq<PartV>, bool), old: Post, dto: EditPostDto, differs: bool, name: Seq<char>, value: BindV, set: Seq<char>, v: BindV)
    requires
        sets_column(q.0, set, v),
    ensures
        sets_column(set_if(q, differs, name, value).0, set, v),
        sets_column(spec_set_publish_time(q, old, dto).0, set, v),
        sets_column(spec_toggle_published(q, old, dto).0, set, v),
{
    lemma_steps_append(q, old, dto, differs, name, value);
    let a = set_if(q, differs, name, value).0;
    lemma_sets_kept(q.0, a.subrange(q.0.len() as int, a.len() as int), set, v);
    let b = spec_set_publish_time(q, old, dto).0;
    lemma_sets_kept(q.0, b.subrange(q.0.len() as int, b.len() as int), set, v);
    let c = spec_toggle_published(q, old, dto).0;
    lemma_sets_kept(q.0, c.subrange(q.0.len() as int, c.len() as int), set, v);
}

/// From an intermediate query that sets a column and counts as changed, the update is
/// written and still sets that column.
proof fn lemma_update_keeps(q: (Seq<PartV>, bool), id: i64, old: Post, dto: EditPostDto, set: Seq<char>, v: BindV)
    requires
        sets_column(q.0, set, v),
        q.1,
    ensures
        ({
            let r = spec_toggle_published(spec_set_publish_time(q, old, dto), old, dto);
            r.1 && sets_column(r.0 + seq![PartV::Sql(", edit_time = NOW() WHERE id ="@), PartV::Bind(BindV::Int(id))], set, v)
        }),
{
    let p = spec_set_publish_time(q, old, dto);
    lemma_set_survives(q, old, dto, false, seq![], BindV::Int(0), set, v);
    lemma_steps_append(q, old, dto, false, seq![], BindV::Int(0));
    lemma_set_survives(p, old, dto, false, seq![], BindV::Int(0), set, v);
    lemma_steps_append(p, old, dto, false, seq![], BindV::Int(0));
    let r = spec_toggle_published(p, old, dto);
    lemma_sets_kept(r.0, seq![PartV::Sql(", edit_time = NOW() WHERE id ="@), PartV::Bind(BindV::Int(id))], set, v);
}

/// A later step of building the update keeps what an earlier one set, and that something
/// changed.
proof fn lemma_through_set_if(q: (Seq<PartV>, bool), old: Post, dto: EditPostDto, differs: bool, name: Seq<char>, value: BindV, set: Seq<char>, v: BindV)
    requires
        sets_column(q.0, set, v),
        q.1,
    ensures
        sets_column(set_if(q, differs, name, value).0, set, v),
        set_if(q, differs, name, value).1,
{
    lemma_set_survives(q, old, dto, differs, name, value, set, v);
    lemma_steps_append(q, old, dto, differs, name, value);
}

/// Saving a form writes an update exactly when the form says something new of the stored
/// post: one of its fields differs from the stored one, or the button pressed asks for the
/// other publishing state (publishing a draft, or keeping a published post as a draft).
/// A publish time alone is written only along with such a change.
pub proof fn lemma_update_written_iff_changed(id: i64, old: Post, dto: EditPostDto)
    ensures
        spec_update_query(id, old, dto) is Some <==> ({
            ||| old.darkmode_hide != dto.darkmode_hide
            ||| opt_view(old.mandate) != mandate_view(dto)
            ||| old.title_sv@ != dto.title_sv.0@
            ||| old.title_en@ != dto.title_en.0@
            ||| old.content_sv@ != dto.content_sv.0@
            ||| old.content_en@ != dto.content_en.0@
            ||| old.published && dto.draft.0
            ||| !old.published && dto.publish.0
        }),
{
    let q = spec_set_fields(old, dto);
    lemma_steps_append(q, old, dto, false, seq![], BindV::Int(0));
}

/// A field of the form that differs from the stored post is written: the update sets its
/// column to the form's value. Publishing a draft, or keeping a published post as a draft,
/// sets whether it is published to the other state.
pub proof fn lemma_changed_field_is_written(id: i64, old: Post, dto: EditPostDto)
    ensures
        old.darkmode_hide != dto.darkmode_hide ==> (spec_update_query(id, old, dto) matches Some(q) && sets_column(
            q,
            " darkmode_hide = "@,
            BindV::Bool(dto.darkmode_hide),
        )),
        opt_view(old.mandate) != mandate_view(dto) ==> (spec_update_query(id, old, dto) matches Some(q) && sets_column(
            q,
            " mandate = "@,
            BindV::OptText(mandate_view(dto)),
        )),
        old.title_sv@ != dto.title_sv.0@ ==> (spec_update_query(id, old, dto) matches Some(q) && sets_column(
            q,
            " title_sv = "@,
            BindV::Text(dto.title_sv.0@),
        )),
        old.title_en@ != dto.title_en.0@ ==> (spec_update_query(id, old, dto) matches Some(q) && sets_column(
            q,
            " title_en = "@,
            BindV::Text(dto.title_en.0@),
        )),
        old.content_sv@ != dto.content_sv.0@ ==> (spec_update_query(id, old, dto) matches Some(q) && sets_column(
            q,
            " content_sv = "@,
            BindV::Text(dto.content_sv.0@),
        )),
        old.content_en@ != dto.content_en.0@ ==> (spec_update_query(id, old, dto) matches Some(q) && sets_column(
            q,
            " content_en = "@,
            BindV::Text(dto.content_en.0@),
        )),
        (old.published && dto.draft.0) || (!old.published && dto.publish.0) ==> (spec_update_query(id, old, dto) matches Some(
            q,
        ) && sets_column(q, " published = "@, BindV::Bool(!old.published))),
{
    reveal_strlit(" ");
    reveal_strlit(" = ");
    reveal_strlit("darkmode_hide");
    reveal_strlit(" darkmode_hide = ");
    reveal_strlit("mandate");
    reveal_strlit(" mandate = ");
    reveal_strlit("title_sv");
    reveal_strlit(" title_sv = ");
    reveal_strlit("title_en");
    reveal_strlit(" title_en = ");
    reveal_strlit("content_sv");
    reveal_strlit(" content_sv = ");
    reveal_strlit("content_en");
    reveal_strlit(" content_en = ");
    let q0 = (seq![PartV::Sql("UPDATE post SET"@)], false);
    let q1 = set_if(q0, old.darkmode_hide != dto.darkmode_hide, "darkmode_hide"@, BindV::Bool(dto.darkmode_hide));
    let q2 = set_if(q1, opt_view(old.mandate) != mandate_view(dto), "mandate"@, BindV::OptText(mandate_view(dto)));
    let q3 = set_if(q2, old.title_sv@ != dto.title_sv.0@, "title_sv"@, BindV::Text(dto.title_sv.0@));
    let q4 = set_if(q3, old.title_en@ != dto.title_en.0@, "title_en"@, BindV::Text(dto.title_en.0@));
    let q5 = set_if(q4, old.content_sv@ != dto.content_sv.0@, "content_sv"@, BindV::Text(dto.content_sv.0@));
    let q6 = set_if(q5, old.content_en@ != dto.content_en.0@, "content_en"@, BindV::Text(dto.content_en.0@));
    assert(q6 == spec_set_fields(old, dto));
    assert(old.darkmode_hide != dto.darkmode_hide ==> (spec_update_query(id, old, dto) matches Some(q) && sets_column(q, " darkmode_hide = "@, BindV::Bool(dto.darkmode_hide)))) by {
        if old.darkmode_hide != dto.darkmode_hide {
            lemma_set_if_sets(q0, "darkmode_hide"@, BindV::Bool(dto.darkmode_hide));
            assert(" "@ + "darkmode_hide"@ + " = "@ =~= " darkmode_hide = "@);
            lemma_through_set_if(q1, old, dto, opt_view(old.mandate) != mandate_view(dto), "mandate"@, BindV::OptText(mandate_view(dto)), " darkmode_hide = "@, BindV::Bool(dto.darkmode_hide));
            lemma_through_set_if(q2, old, dto, old.title_sv@ != dto.title_sv.0@, "title_sv"@, BindV::Text(dto.title_sv.0@), " darkmode_hide = "@, BindV::Bool(dto.darkmode_hide));
            lemma_through_set_if(q3, old, dto, old.title_en@ != dto.title_en.0@, "title_en"@, BindV::Text(dto.title_en.0@), " darkmode_hide = "@, BindV::Bool(dto.darkmode_hide));
            lemma_through_set_if(q4, old, dto, old.content_sv@ != dto.content_sv.0@, "content_sv"@, BindV::Text(dto.content_sv.0@), " darkmode_hide = "@, BindV::Bool(dto.darkmode_hide));
            lemma_through_set_if(q5, old, dto, old.content_en@ != dto.content_en.0@, "content_en"@, BindV::Text(dto.content_en.0@), " darkmode_hide = "@, BindV::Bool(dto.darkmode_hide));
            lemma_update_keeps(q6, id, old, dto, " darkmode_hide = "@, BindV::Bool(dto.darkmode_hide));
        }
    }
    assert(opt_view(old.mandate) != mandate_view(dto) ==> (spec_update_query(id, old, dto) matches Some(q) && sets_column(q, " mandate = "@, BindV::OptText(mandate_view(dto))))) by {
        if opt_view(old.mandate) != mandate_view(dto) {
            lemma_set_if_sets(q1, "mandate"@, BindV::OptText(mandate_view(dto)));
            assert(" "@ + "mandate"@ + " = "@ =~= " mandate = "@);
            lemma_through_set_if(q2, old, dto, old.title_sv@ != dto.title_sv.0@, "title_sv"@, BindV::Text(dto.title_sv.0@), " mandate = "@, BindV::OptText(mandate_view(dto)));
            lemma_through_set_if(q3, old, dto, old.title_en@ != dto.title_en.0@, "title_en"@, BindV::Text(dto.title_en.0@), " mandate = "@, BindV::OptText(mandate_view(dto)));
            lemma_through_set_if(q4, old, dto, old.content_sv@ != dto.content_sv.0@, "content_sv"@, BindV::Text(dto.content_sv.0@), " mandate = "@, BindV::OptText(mandate_view(dto)));
            lemma_through_set_if(q5, old, dto, old.content_en@ != dto.content_en.0@, "content_en"@, BindV::Text(dto.content_en.0@), " mandate = "@, BindV::OptText(mandate_view(dto)));
            lemma_update_keeps(q6, id, old, dto, " mandate = "@, BindV::OptText(mandate_view(dto)));
        }
    }
    assert(old.title_sv@ != dto.title_sv.0@ ==> (spec_update_query(id, old, dto) matches Some(q) && sets_column(q, " title_sv = "@, BindV::Text(dto.title_sv.0@)))) by {
        if old.title_sv@ != dto.title_sv.0@ {
            lemma_set_if_sets(q2, "title_sv"@, BindV::Text(dto.title_sv.0@));
            assert(" "@ + "title_sv"@ + " = "@ =~= " title_sv = "@);
            lemma_through_set_if(q3, old, dto, old.title_en@ != dto.title_en.0@, "title_en"@, BindV::Text(dto.title_en.0@), " title_sv = "@, BindV::Text(dto.title_sv.0@));
            lemma_through_set_if(q4, old, dto, old.content_sv@ != dto.content_sv.0@, "content_sv"@, BindV::Text(dto.content_sv.0@), " title_sv = "@, BindV::Text(dto.title_sv.0@));
            lemma_through_set_if(q5, old, dto, old.content_en@ != dto.content_en.0@, "content_en"@, BindV::Text(dto.content_en.0@), " title_sv = "@, BindV::Text(dto.title_sv.0@));
            lemma_update_keeps(q6, id, old, dto, " title_sv = "@, BindV::Text(dto.title_sv.0@));
        }
    }
    assert(old.title_en@ != dto.title_en.0@ ==> (spec_update_query(id, old, dto) matches Some(q) && sets_column(q, " title_en = "@, BindV::Text(dto.title_en.0@)))) by {
        if old.title_en@ != dto.title_en.0@ {
            lemma_set_if_sets(q3, "title_en"@, BindV::Text(dto.title_en.0@));
            assert(" "@ + "title_en"@ + " = "@ =~= " title_en = "@);
            lemma_through_set_if(q4, old, dto, old.content_sv@ != dto.content_sv.0@, "content_sv"@, BindV::Text(dto.content_sv.0@), " title_en = "@, BindV::Text(dto.title_en.0@));
            lemma_through_set_if(q5, old, dto, old.content_en@ != dto.content_en.0@, "content_en"@, BindV::Text(dto.content_en.0@), " title_en = "@, BindV::Text(dto.title_en.0@));
            lemma_update_keeps(q6, id, old, dto, " title_en = "@, BindV::Text(dto.title_en.0@));
        }
    }
    assert(old.content_sv@ != dto.content_sv.0@ ==> (spec_update_query(id, old, dto) matches Some(q) && sets_column(q, " content_sv = "@, BindV::Text(dto.content_sv.0@)))) by {
        if old.content_sv@ != dto.content_sv.0@ {
            lemma_set_if_sets(q4, "content_sv"@, BindV::Text(dto.content_sv.0@));
            assert(" "@ + "content_sv"@ + " = "@ =~= " content_sv = "@);
            lemma_through_set_if(q5, old, dto, old.content_en@ != dto.content_en.0@, "content_en"@, BindV::Text(dto.content_en.0@), " content_sv = "@, BindV::Text(dto.content_sv.0@));
            lemma_update_keeps(q6, id, old, dto, " content_sv = "@, BindV::Text(dto.content_sv.0@));
        }
    }
    assert(old.content_en@ != dto.content_en.0@ ==> (spec_update_query(id, old, dto) matches Some(q) && sets_column(q, " content_en = "@, BindV::Text(dto.content_en.0@)))) by {
        if old.content_en@ != dto.content_en.0@ {
            lemma_set_if_sets(q5, "content_en"@, BindV::Text(dto.content_en.0@));
            assert(" "@ + "content_en"@ + " = "@ =~= " content_en = "@);
            lemma_update_keeps(q6, id, old, dto, " content_en = "@, BindV::Text(dto.content_en.0@));
        }
    }
    let p = spec_set_publish_time(q6, old, dto);
    if (old.published && dto.draft.0) || (!old.published && dto.publish.0) {
        let r = spec_toggle_published(p, old, dto);
        let i: int = (p.0.len() + comma_if(p.1).len()) as int;
        assert(r.0[i] == PartV::Sql(" published = "@));
        assert(r.0[i + 1] == PartV::Bind(BindV::Bool(!old.published)));
        lemma_sets_kept(r.0, seq![PartV::Sql(", edit_time = NOW() WHERE id ="@), PartV::Bind(BindV::Int(id))], " published = "@, BindV::Bool(!old.published));
    }
}

/// Publishing with a publish time other than the stored one, in an update that is written,
/// sets the publish time: to the form's time, or to the present (`NOW()`) when the form
/// gives none.
pub proof fn lemma_publish_time_is_written(id: i64, old: Post, dto: EditPostDto)
    requires
        dto.publish.0,
        dto.publish_time != Some(old.publish_time),
        spec_update_query(id, old, dto) is Some,
    ensures
        ({
            let q = spec_update_query(id, old, dto)->0;
            match dto.publish_time {
                Some(t) => sets_column(q, " publish_time = "@, BindV::Time(t)),
                None => exists|i: int|
                    0 <= i && i + 1 < q.len() && #[trigger] q[i] == PartV::Sql(" publish_time = "@) && q[i + 1]
                        == PartV::Sql("NOW()"@),
            }
        }),
{
    let f = spec_set_fields(old, dto);
    let p = spec_set_publish_time(f, old, dto);
    let i: int = (f.0.len() + comma_if(f.1).len()) as int;
    assert(p.0[i] == PartV::Sql(" publish_time = "@));
    lemma_steps_append(p, old, dto, false, seq![], BindV::Int(0));
    let r = spec_toggle_published(p, old, dto);
    let q = r.0 + seq![PartV::Sql(", edit_time = NOW() WHERE id ="@), PartV::Bind(BindV::Int(id))];
    assert(r.0 =~= p.0 + r.0.subrange(p.0.len() as int, r.0.len() as int));
    assert(q[i] == p.0[i]);
    assert(q[i + 1] == p.0[i + 1]);
    assert(spec_update_query(id, old, dto)->0 == q);
    match dto.publish_time {
        Some(t) => {
            assert(q[i + 1] == PartV::Bind(BindV::Time(t)));
        },
        None => {
            assert(q[i + 1] == PartV::Sql("NOW()"@));
        },
    }
}

} // verus!
