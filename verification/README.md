# kobuleti

A terminal card game for two players about the village of Kobuleti: players log in
with a name, meet in a lobby, choose roles, and take turns dropping and selecting
abilities, attacking monsters and defending.

The game's rules and state machines are a library verified with Verus; the program that
runs them over TCP and draws them in the terminal is ordinary Rust around it.

## Layout

- `src/game.rs`: roles, ranks, suits, cards and decks; the monster deck's layout.
- `src/protocol.rs`, `src/protocol/`: usernames, stages, turn status and the messages
  each side sends.
- `src/server/details.rs`: `Stateble`, a list of items of which a fixed number are
  active, and how the active ones move through it.
- `src/server/states.rs`: rooms of peers, login, role selection and the turn order.
- `src/server/peer.rs`: what the server keeps of each peer in each stage.
- `src/server.rs`: the listener's retry rule.
- `src/client/`: the client's stages (`states.rs`), its keys (`input.rs`) and what the
  screen shows (`ui.rs`, `ui/details.rs`).
- `src/commands.rs`: the command line's host and port.
- `tests/`: tests of the library.
- `app/`: the program: command line, server tasks, client loop and terminal drawing.

## Running

```
kobuleti server [HOST] [PORT]
kobuleti client [HOST] [PORT] --name <USERNAME>
```

The host defaults to `127.0.0.1` (`localhost` is accepted) and the port to `8000`.
