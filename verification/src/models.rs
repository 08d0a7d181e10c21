use vstd::prelude::*;

use crate::clock::LocalDateTime;
use crate::guards::lang::Language;

verus! {

/// The id that the database gave a post.
#[derive(Debug)]
pub struct PostId {
    pub id: i64,
}

/// A post as stored.
#[derive(Debug)]
pub struct Post {
    pub id: i64,
    pub darkmode_hide: bool,
    pub published: bool,
    pub publish_time: LocalDateTime,
    pub edit_time: LocalDateTime,
    pub author: String,
    pub mandate: Option<String>,
    pub title_sv: String,
    pub title_en: String,
    pub content_sv: String,
    pub content_en: String,
    pub banner: Option<String>,
}

/// Of a Swedish and an English text, the one in `lang`.
pub open spec fn localized(lang: Language, sv: Seq<char>, en: Seq<char>) -> Seq<char> {
    match lang {
        Language::Swedish => sv,
        Language::English => en,
    }
}

impl Post {
    /// The title in `lang`.
    pub fn localized_title(&self, lang: &Language) -> (r: &str)
        ensures
            r@ == localized(*lang, self.title_sv@, self.title_en@),
    {
        match lang {
            Language::Swedish => self.title_sv.as_str(),
            Language::English => self.title_en.as_str(),
        }
    }

    /// The content in `lang`.
    pub fn localized_content(&self, lang: &Language) -> (r: &str)
        ensures
            r@ == localized(*lang, self.content_sv@, self.content_en@),
    {
        match lang {
            Language::Swedish => self.content_sv.as_str(),
            Language::English => self.content_en.as_str(),
        }
    }
}

/// What is shown of a post.
#[derive(Debug)]
pub struct PostInfo {
    pub publish_time: LocalDateTime,
    pub author: String,
    pub mandate: Option<String>,
    pub title_sv: String,
    pub title_en: String,
    pub content_sv: String,
    pub content_en: String,
    pub banner: Option<String>,
}

impl PostInfo {
    /// The title in `lang`.
    pub fn localized_title(&self, lang: &Language) -> (r: &str)
        ensures
            r@ == localized(*lang, self.title_sv@, self.title_en@),
    {
        match lang {
            Language::Swedish => self.title_sv.as_str(),
            Language::English => self.title_en.as_str(),
        }
    }

    /// The content in `lang`.
    pub fn localized_content(&self, lang: &Language) -> (r: &str)
        ensures
            r@ == localized(*lang, self.content_sv@, self.content_en@),
    {
        match lang {
            Language::Swedish => self.content_sv.as_str(),
            Language::English => self.content_en.as_str(),
        }
    }
}

/// The shapes in which posts are read from the database.
pub trait PostModel {
}

impl PostModel for Post {
}

impl PostModel for PostInfo {
}

} // verus!
