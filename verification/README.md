# voltguard

Power-management logic for Linux hosts: a daemon that discovers hardware
components through drivers, tracks their power draw, switches power profiles,
enforces policies and answers a command-line client over a Unix socket.

`src/` is the library, verified with Verus:

- `api` — the domain types (components, capabilities, events, errors, the IPC
  messages) with their abstract views.
- `text` — trimming, decimal numbers (parsing as `FromStr` does, printing as
  `to_string` does).
- `hal` — the kernel's CPU list format, file readings, the driver registry and
  the CPU and RAPL drivers' rules.
- `table` — a table keyed by component identifier.
- `manager` — the power manager: component table, current profile, profile
  switches and capability application.
- `engine` — bounded power histories and the optimisation rules.
- `policy` — violations, remediations and the built-in policies.
- `ipc` — the protocol handshake, request routing, and how a client reads
  replies.
- `config` — the configuration and its defaults.

Floating-point readings are carried as their IEEE-754 bit patterns; the
arithmetic on them, the async drivers, the socket server, the client's
printing and the serde formats live in `app/`.
