pub mod types;
pub mod dependency;
pub mod hot_reload;
pub mod installer;
pub mod batch;
pub mod compatibility;
pub mod rollback;
pub mod templates;
pub mod repository;
pub mod security;
pub mod performance;
