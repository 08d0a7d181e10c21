pub mod text;
pub mod types;
pub mod lexer;
pub mod duration;
pub mod date;
pub mod instance;
pub mod ast;
pub mod parser;
pub mod display;
