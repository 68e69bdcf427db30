# idle_factory

The rules of a voxel factory game, written in Verus with their contracts
proved: inventories and storage, placing and breaking blocks and machines,
belts (shapes, routing, splitters and merges), furnaces, crushers and miners,
quests, the tutorial, the command console, the UI screen stack, chunk
streaming budgets and the player watchdog.

Layout:

- `src/` — the verified library, one module per area (`inventory`, `store`,
  `placement`, `breaking`, `conveyor`, `machines`, `quest`, `tutorial`,
  `command`, `console`, `ui_state`, `chunks`, `hotbar`, `panel`, `guide`, …).
  Each public function states what it returns or changes; the `law_*` proof
  functions state properties that span several functions.
- `tests/` — executable tests of the library on concrete values.
- `app/` — the Bevy systems around the library: input, floating-point
  geometry and timing, spawning entities, the state export and the violation
  log file.
