# sshnake

A terminal snake game whose rules are a verified library.

- `src/grid.rs`: the 40 x 20 board, positions, directions, and the counting facts
  about free cells.
- `src/game.rs`: the game state, ticks, scoring, levels, speed, food placement and
  the invariant every reachable game keeps.
- `src/input.rs`: what each key does on each screen.
- `src/layout.rs`: centring and board-cell arithmetic for the terminal screen.
- `src/high_score.rs`: the text a high score is saved as, and reading it back.
- `src/random.rs`: the random draw used to place food.
- `app/main.rs`: the terminal front end (drawing, key events, timing, the high
  score file).
