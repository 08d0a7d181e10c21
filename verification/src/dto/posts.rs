use vstd::prelude::*;

use crate::clock::LocalDateTime;
use crate::dto::{byte_len, GroupKeyDto, SubmitType, TrimmedStr};

verus! {

/// The form that creates or edits a post.
pub struct EditPostDto<'v> {
    pub title_sv: TrimmedStr<'v>,
    pub title_en: TrimmedStr<'v>,
    pub content_sv: TrimmedStr<'v>,
    pub content_en: TrimmedStr<'v>,
    pub publish_time: Option<LocalDateTime>,
    pub mandate: Option<GroupKeyDto<'v>>,
    pub darkmode_hide: bool,
    /// The button that publishes the post.
    pub publish: SubmitType,
    /// The button that keeps the post as a draft.
    pub draft: SubmitType,
}

/// The fields of `dto` whose text is shorter than the form allows, in form order: titles
/// need at least 3 bytes, contents at least 10.
pub open spec fn spec_short_fields(dto: EditPostDto) -> Seq<&'static str> {
    let a: Seq<&'static str> = if byte_len(dto.title_sv.0) < 3 { seq!["title_sv"] } else { seq![] };
    let b: Seq<&'static str> = if byte_len(dto.title_en.0) < 3 { seq!["title_en"] } else { seq![] };
    let c: Seq<&'static str> = if byte_len(dto.content_sv.0) < 10 { seq!["content_sv"] } else { seq![] };
    let d: Seq<&'static str> = if byte_len(dto.content_en.0) < 10 { seq!["content_en"] } else { seq![] };
    a + b + c + d
}

impl<'v> EditPostDto<'v> {
    /// The names of the fields that are too short; the form is valid when there are none.
    pub fn short_fields(&self) -> (r: Vec<&'static str>)
        ensures
            r@ == spec_short_fields(*self),
    {
        let mut r: Vec<&'static str> = Vec::new();
        if self.title_sv.len() < 3 {
            r.push("title_sv");
        }
        if self.title_en.len() < 3 {
            r.push("title_en");
        }
        if self.content_sv.len() < 10 {
            r.push("content_sv");
        }
        if self.content_en.len() < 10 {
            r.push("content_en");
        }
        assert(r@ =~= spec_short_fields(*self));
        r
    }
}

} // verus!
