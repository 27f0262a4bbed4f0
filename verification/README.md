# planet_surface

Streaming of planet surface patches for a Bevy game, with its discrete logic
verified by Verus.

- `src/` is the verified library: the quadtree of patch keys, the layered
  planet context with hysteresis, the level-of-detail walk, the request queue,
  the patch registry and the per-frame scheduler with its budgets, the page
  manifest and its parsing, patch materials, mesh index topology (grids,
  skirts, icosphere subdivision), hashing, terrain tile streaming, menus,
  camera modes and the development panel's input handling.  Every public
  function states its result in `ensures`; laws that relate several calls
  stand as public proof functions.
- `app/` is the Bevy application around it: window-less plugins, floating
  point geometry, disk and JSON reading, async mesh tasks.
- `tests/` runs the library on concrete values.

Sets and maps keyed by patch keys (`PatchKeySet`, `PatchRegistry`, the
request queue) are vectors with a no-duplicates invariant rather than
`HashSet`/`HashMap`: vstd's specifications of the hashed collections prove
nothing useful for a key type of this library with derived `Hash` and `Eq`,
while vectors give exact sequence views.  A consequence is that admission and
iteration follow insertion order, which the hashed collections leave open.
