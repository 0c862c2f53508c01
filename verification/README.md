# cua-voice

The voice front end of the cua desktop agent. It listens, turns what was said into
text, lets a planner propose actions, carries them out through the daemon of a
profile, and shows on an island at the top of the screen what goes on.

- `src/` is the library: everything that is decided or computed, verified with
  Verus. The agent loop that accepts or rejects plans and judges their effect is in
  `agent_loop.rs`; what it rests on is in `plan.rs`, `attempt.rs`, `evidence.rs`,
  `goal.rs`, `response.rs` and `transcript.rs`. The island is in `hud.rs`, `scene.rs`,
  `island.rs` and `ui_state.rs`, the daemon's protocol in `client.rs`, `follow.rs`,
  `poll.rs` and `agent_events.rs`, recording in `audio.rs`, memory in `memory.rs`.
  Text is in `text.rs` and `spacing.rs`, time in `time.rs` and `seconds.rs`.
- `tests/` holds the tests of the library.
- `app/` is the program: its arguments, sockets, files, processes, microphone, window
  and all floating point.

Instants are nanoseconds, settings and paths are passed in as text. What the library
takes from other crates (`serde_json`, `hound`, `chrono`, `uuid`) stands behind
functions whose contracts are stated and not proved; each says so.
