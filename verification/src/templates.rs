pub mod calendar;
pub mod event;
pub mod feed;
pub mod index;
pub mod misc;
pub mod news;
