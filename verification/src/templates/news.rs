use vstd::prelude::*;

use crate::clock::LocalDateTime;
use crate::templates::index::PageContext;

verus! {

/// A news item.
#[derive(Debug)]
pub struct News {
    pub title: String,
    pub description: String,
    pub date: LocalDateTime,
    pub tags: Vec<String>,
    pub owner: String,
}

/// The page of a news item.
#[derive(Debug)]
pub struct NewsPage {
    pub ctx: PageContext,
    pub news: News,
}

} // verus!
