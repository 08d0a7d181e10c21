use vstd::prelude::*;

use crate::templates::event::Event;
use crate::templates::index::PageContext;

verus! {

/// The feed of events, with the tags to filter it by.
#[derive(Debug)]
pub struct FeedPage {
    pub ctx: PageContext,
    pub feed: Vec<Event>,
    pub tags: Vec<String>,
}

} // verus!
