# zeronode_client

The decision-making core of the ZeroNode VPN desktop client, written in Verus
and verified: OpenVPN profile parsing and the headless runtime-profile
rewrite, OpenVPN log inspection and the wait for the tunnel, WireGuard profile
summaries, stored preferences, the helper daemon's request validation,
per-server cooldowns, session progress, server selection and listing, Tor
exit naming and route decisions, connect/disconnect outcomes for the profile
tunnels, and the text the client shows.

Layout:

- `src/` — the verified library (`lib.rs` lists the modules).
- `tests/` — tests of the library on concrete values.
- `app/` — the unverified I/O layer: SQLite store, OpenVPN process and log
  files, `torrc`, the helper daemon socket, the panic log, command-line
  arguments.
