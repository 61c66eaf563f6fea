# explore

A terminal exploration and mining game: a map is generated from noise, a base is
settled on it, scouts explore and report minerals, and miners fetch them home.

The game logic is a Verus-verified library:

- `src/map` — the map: terrain and mineral bookkeeping, the spiral search for
  the base site (`search.rs`), the seeded generator (`rng.rs`) and the mineral
  layout (`minerals.rs`).
- `src/bots` — bot movement over terrain costs, path planning (searches from the
  `pathfinding` crate behind specified wrappers in `search.rs`), scout and miner
  behaviour tick by tick, and the roster of a new game.
- `src/state` — the fixed-step clock, the game world (known minerals, miner
  assignment strategies, events from the bots), the screen state and key
  bindings, and what the panels show.

`app/` is the terminal program around it: Perlin terrain generation, the bot
threads and their channels, input and drawing with `crossterm` and `ratatui`.
