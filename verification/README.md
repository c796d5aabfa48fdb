# hurry

The verified core of a small "watch party" server: users register and log in,
open parties, chat in them, attach a video, and keep playback in sync over a
socket.io connection.

- `src/` is the library, verified with Verus:
  - `snowflake.rs`: identifiers, their decimal text (parsing and printing, with
    the round trip proved) and their creation time;
  - `user.rs`, `session.rs`, `message.rs`, `party.rs`, `video.rs`, `prelude.rs`:
    the data, each with a mathematical view;
  - `state.rs`: users, sessions and parties, with the operations behind every
    HTTP route (register, login, profile, token check, parties, chat, video)
    and the laws that relate them;
  - `gateway.rs`: what a socket event does to the state and what is sent back.
- `app/` is the program around it: configuration, axum routes, the socket.io
  gateway, JSON and JWT encoding (with serde copies of the library's types),
  and the process-wide identifier generator.
- `tests/` runs the library on concrete values.
