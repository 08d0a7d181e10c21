pub mod ace;
pub mod auth;
pub mod clock;
pub mod config;
pub mod dto;
pub mod errors;
pub mod filters;
pub mod guards;
pub mod models;
pub mod services;
pub mod splash;
pub mod templates;
pub mod web;
