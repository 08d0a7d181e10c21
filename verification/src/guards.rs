pub mod context;
pub mod darkmode;
pub mod lang;
pub mod nav;
pub mod user;
