# mcpanel

The logic of a Minecraft server panel as a verified library: security
(TOTP, API keys, audit log, rate limiting and brute-force lockout, sessions,
IP filters, certificates), monitoring (alerts, silences and escalation,
deadlock and network checks, dashboards, webhooks, metric history) and
plugin management (dependencies, installs, hot reload, rollback, templates,
repositories, security scans), with the players' API types.

- `src/` is the library. Every function carries a contract that Verus proves;
  the few calls into outside crates (sha2, uuid, chrono, serde_json) and std
  stand behind small trusted items whose contracts are stated in their doc
  comments.
- `tests/` exercises the library on concrete values.
- `app/` holds what cannot be verified: file and network I/O, /proc readers,
  serde conversions and the floating-point statistics.
