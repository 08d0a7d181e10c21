use vstd::prelude::*;

use crate::clock::LocalDateTime;
use crate::templates::index::PageContext;

verus! {

/// An event.
#[derive(Debug)]
pub struct Event {
    pub id: u64,
    pub title: String,
    pub description: String,
    pub from: LocalDateTime,
    pub to: LocalDateTime,
    pub tags: Vec<String>,
    pub owner: String,
    pub place: Option<String>,
    pub link: Option<String>,
}

/// The page of an event.
#[derive(Debug)]
pub struct EventPage {
    pub ctx: PageContext,
    pub event: Event,
}

/// The form that edits an event, with the groups it may be held by.
#[derive(Debug)]
pub struct EventFormPage {
    pub ctx: PageContext,
    pub event: Event,
    pub groups: Vec<String>,
}

} // verus!
