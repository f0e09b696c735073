# tower_defense

The rules of a castle tower-defense game (night assault on a hill fort: enemies
climb the outer wall, defenders build on the wall ring), written in Verus and
proved against their contracts.

- `src/` — the verified library.
  - `sim::command`, `sim::event`, `sim::match_state` — the command, event and
    phase types exchanged with the UI and the renderer.
  - `sim::catalog` — the defense and enemy tables and their lookups.
  - `sim::exterior::placement` — the wall ring and tower placement.
  - `sim::entity` — towers and enemies, stored by unique id.
  - `sim::world` — the match state: the command queue, gold, enemy hit points,
    castle breaches, the id counter and the frame clock, with a model
    (`WorldView`) and its invariant.
  - `sim::laws` — properties that span several operations.
  - `sim::waves`, `ui::store` — the wave table and the command-HQ state.
- `tests/` — runtime tests of the library.
- `app/` — the browser program: Yew UI, the wasm boundary, and the
  floating-point motion and targeting that drive the verified rules each frame.

Quantities that the game shows as decimals (hit points, ranges, cooldowns,
speeds) are held in thousandths as integers.
