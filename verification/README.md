# dropship

The decision logic of dropship, an Overwatch 2 server blocker, written in Verus:
which servers the user blocks, what the firewall is asked to apply and when, which
server the player most likely lands on, which addresses are probed to measure a
server's latency, and the small state machine of the launcher window (welcome
pages, guided tour, shortcuts, dialogs).

Layout:

- `src/` is the verified library. `selection.rs` holds the set of blocked server
  slots; `state.rs` the launcher state and what a click or a shortcut does to it;
  `pings.rs` the latency table and the best-server choice; `ping.rs` the probe
  addresses derived from a server's CIDR blocks (parsed with `ipnet`); `probe.rs`
  the decisions of one latency measurement (which address next, when to stop);
  `flow.rs` the window flow; `editor.rs` the shortcut editor; `status.rs` the status line;
  `messages.rs` the user-facing sentences; `geo.rs` the server and country tables;
  `laws.rs` properties stated across functions.
- `tests/` runs the library on concrete values.
- `app/` is the unverified shell: events, persistence with serde, the ICMP echo
  requests (Windows only) that `probe.rs` asks for, and the start-up command
  dispatch.
