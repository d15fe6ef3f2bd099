pub mod types;
pub mod deadlock;
pub mod silence;
pub mod dashboard;
pub mod network;
pub mod webhook;
pub mod alert;
pub mod jvm_gc;
pub mod disk_io;
pub mod history;
pub mod baseline;
pub mod orchestrator;
pub mod api;
