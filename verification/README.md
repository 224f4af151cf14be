# airtouch5-webui

The core of a web front end for an AirTouch 5 air conditioning console, written in
Verus: what each request sends to the console, what it is answered, which fragments
a change of state pushes to the browsers, and a listener that reads that stream.

- `src/manager/`: the snapshot that everything is rendered from, the commands, and
  the values that a request may set.
- `src/web/`: the requests (`handlers/`), a request under way (`interaction.rs`),
  the event stream (`sse.rs`), themes, logging; and what holds of them as a whole
  (`laws.rs`, `preset_laws.rs`, `sse_laws.rs`).
- `src/listener/`: reading an event stream, showing it, counting it; and what holds
  of it (`laws.rs`).
- `src/templates.rs`, `src/scenes.rs`, `src/automation.rs`, `src/text.rs`: what pages
  are rendered from, presets, the automation programs, and text.
- `app/`: the listener program and the server's routes, in ordinary Rust: network,
  terminal, HTML and the channels to the connection manager.
- `tests/`: the library, run.

Every function in `src/` is verified but for four short wrappers around calls into
the standard library, `airtouch5` and `axum`. What is believed without proof are the
contracts of these and of `String::push` and `HeaderValue::from_str`; each stands
beside a comment that says what is claimed.
