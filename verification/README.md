# gamebench_fyrox

The rules of the Kaiju 2D benchmark game, verified with Verus.

- `src/game.rs`: menu/benchmark modes, the key and button table, the target
  object count (clamped to 0..=5000, steps of 100, reset to 100).
- `src/population.rs`: per-frame removals and spawns (at most 25 per frame)
  and the proof that the population reaches the target.
- `src/grid.rs`: the cell grid that lists, for each object, the later
  objects in the nine surrounding cells; every nearby pair appears once.
- `src/sprites.rs`: sprite frame choice at spawn (random, through `rand`) and
  the animation cycle.
- `app/`: the Fyrox executor and plugin: scene, UI, sound, and the
  floating-point motion and collision response.
