pub mod encryption;
pub mod ddos_protection;
pub mod rcon_brute_force;
pub mod session;
pub mod ip_filter;
pub mod totp;
pub mod api_keys;
pub mod audit_log;
pub mod security_scan;
pub mod ssl_cert;
