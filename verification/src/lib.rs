pub mod errors;
pub mod text;
pub mod json;
pub mod crypto;
pub mod auth;
pub mod process;
pub mod models;
pub mod quota;
pub mod store;
pub mod app_state;
pub mod commands;
