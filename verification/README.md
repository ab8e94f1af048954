# Extracteroid

An asteroid-mining game: a drone flies into an asteroid field, shoots asteroids
for loot, and extracts before it is destroyed; between runs the pilot manages
cargo, pays rent and picks the next mission.

The discrete rules of the game are a library verified with Verus:

- `src/rng.rs`: the xorshift32 generator, bounded draws and weighted picks.
- `src/world.rs`: kinds, items, pity timers, definitions and the career state.
- `src/cargo.rs`: stacking, taking, cleaning and marking cargo; which drone and
  weapon are equipped and active.
- `src/loot.rs`: the loot an asteroid drops, and when rolling it cannot overflow.
- `src/game.rs`: new careers, rent, deployment, the cargo screen's buttons, the
  mission scanner and the end of a run.
- `src/controls.rs`: the cargo cursor and cycling the chosen drone and weapon.
- `src/waves.rs`: wave difficulty and the asteroids a wave spawns.
- `src/weapon.rs`: the magazine, firing, and the turning and firing decisions.

`tests/` exercises the library. `app/` is the game module around it: physics,
floating-point simulation, rendering and input, for the `newgameplus_api` host.
