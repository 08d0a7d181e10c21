pub mod catchers;
