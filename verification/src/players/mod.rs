pub mod models;
pub mod handlers;
