//! Core logic of a Minecraft server administration panel: request rate limiting,
//! brute-force lockout, sessions, IP filtering, API keys, audit logging, TOTP,
//! security baselines, certificates, plugin dependency analysis and monitoring
//! helpers. Every operation takes the current time as an argument where the
//! outcome depends on it; the thin functions that read the clock say so.
pub mod text;
pub mod ids;
pub mod clock;
pub mod keyed;
pub mod dup;
pub mod order;
pub mod checksum;
pub mod security;
pub mod monitor;
pub mod plugins;
pub mod players;
pub mod json;
