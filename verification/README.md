# zynk

The decision core of a terminal multiplexer for coding agents, written in Verus: executable Rust
whose behaviour is stated in contracts and proved.

The library decides; it reads nothing and writes nothing. It takes plain values (a session, a
request, a process table, a clock reading) and returns what changes and what is to be done.

- `src/session.rs`, `src/info.rs`: the session and what is told of it.
- `src/requests.rs`, `src/caller.rs`: which requests there are, and whose requests are accepted.
- `src/tabs.rs`, `src/workspaces.rs`, `src/creation.rs`, `src/closing.rs`, `src/focus.rs`,
  `src/moves.rs`: requests that change tabs and workspaces.
- `src/standing.rs`: what every such request keeps.
- `src/agents.rs`, `src/agent_view.rs`, `src/receipts.rs`: agents, their panel, their receipts.
- `src/metadata.rs`, `src/updates.rs`: tokens that producers report, and how they expire.
- `src/graphics_store.rs`, `src/pane_graphics.rs`: layers of graphics over panes.
- `src/runtime.rs`, `src/input.rs`, `src/git_refresh.rs`, `src/titles.rs`: the event loop.
- `src/sidebar.rs`: where the sidebar's parts are and what a click in it means.
- `src/build_info.rs`, `src/build_sha.rs`: what a build says of itself.
- `src/text.rs`, `src/paths.rs`, `src/search.rs`, `src/geometry.rs`, `src/response.rs`: what the
  others share.

Public proof functions whose names start with `law_` state properties that span several functions.

Decoding base64 is left to the `base64` crate. What its calls are taken to do is stated in
`src/pane_graphics.rs` and not proved.

`app/` is ordinary Rust around the core: channels, threads, files, the process table and JSON.
