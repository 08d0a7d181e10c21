use vstd::prelude::*;

use crate::clock::LocalDateTime;

verus! {

/// Which page of a listing is shown, of how many.
#[derive(Debug)]
pub struct Pagination {
    pub total_pages: usize,
    pub current_page: usize,
}

/// A news item as a card on the front page.
#[derive(Debug)]
pub struct NewsCard {
    pub id: u64,
    pub title: String,
    pub summary: String,
    pub date: LocalDateTime,
    pub tags: Vec<String>,
    pub owner: String,
}

} // verus!
