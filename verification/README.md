# snek

A terminal Snake game with a two-player mode over a WebSocket relay. The
game's rules are a library verified with Verus; the terminal, the network
and JSON live in a thin program around it.

## Layout

- `src/` — the verified library
  - `types.rs`, `messages.rs`: board cells, directions, players and the
    messages between client, relay and peers.
  - `snake.rs`: a snake's body, its start positions and its step with
    wrap-around and self-collision.
  - `board.rs`: the cells of a board, the free cells and the pigeonhole
    facts that guarantee one.
  - `game.rs`: the single-player game: its invariant, a step, a restart and
    what each key does in play, in the pause menu and after death.
  - `host.rs`: the host's simulation of a two-player round: deaths
    (self, head-on, body, bombs), food, bombs, spare lives and respawns,
    the round's clock, and the end of the round for both sides.
  - `guest.rs`: the guest's checks on what the host sends, and its keys.
  - `flow.rs`: the client's multiplayer flow: connect, register, check the
    terminal, search, play, results.
  - `relay.rs`, `session.rs`: the relay's lobby, name rules, colours,
    matchmaking queue, pairing and rate limit (with its bound over any
    stretch of time).
  - `screens.rs`, `keys.rs`, `text.rs`: menus, name entry and text helpers.
  - `chance.rs`: the random draws (`rand`, `uuid`).
- `app/` — the programs: `snek` (client), `snek solo` (single player),
  `snek relay` (relay); drawing with ratatui, input with crossterm,
  networking with tokio-tungstenite, JSON with serde.
- `tests/` — tests of the library.
