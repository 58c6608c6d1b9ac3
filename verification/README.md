# factorio_street

A grid-based factory and city builder. The game rules are a library whose
behaviour is stated in contracts and proved with Verus; the program around
it draws the world, reads input, talks to the multiplayer server and saves
the game.

- `src/` — the verified library: item, tool and terrain catalogues; world
  coordinates and sectors; what a build click does; the power grid
  (union-find, the wiring graph, connected components); machine recipes and
  the per-tick production step; the economy and the rival cartel; decoding,
  scaling and chroma keying of sprite sheets (through the image crate); the
  protocol's packet types and server addresses; login-form editing.
- `tests/` — tests of the library on concrete values.
- `app/` — the macroquad program: rendering, input, world generation,
  networking, saving, and the floating-point parts of the simulation
  (sunlight, wind, batteries, fluids, prices, belt motion).
