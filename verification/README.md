# rainmetal_goap

Goal-oriented action planning for game agents, with the decision logic of
trading drivers built on it. The library under `src/` is verified with Verus;
`app/` holds the Bevy systems that read the game world, call the library and
carry out what it decides.

## Library (`src/`)

- `state`, `action`, `goal`: a planner state names its rules (conditions,
  effects, measures, gaps) as plain values; actions and goals are built from
  them.
- `planner`: successors, heuristic, plan search through `pathfinding`'s A*,
  choice of the goal to pursue, stable ordering of goals by priority, and what
  the agent does with a search result.
- `distance`, `sequence_distance`, `map_distance`: distances between integers,
  collections (compared sorted) and maps.
- `ai_driver`: the driver's planner state, its fourteen actions and four
  goals, and the state changes its action handlers make.
- `ai_trader`, `trade_routes`: route judgement, trade plans fitted to each
  size of trade, buying and selling steps, and the money and goods moved by a
  sale.
- `storage`: item counts (held in bevy's hash map) for storages and needs.
- `memory`, `radar`, `naming`: sharing of remembered facts, radio-range scans,
  and the snake-case names of action markers.

## Game (`app/`)

Components, plugins and systems: planning tasks, action handlers, trading,
memory sharing, radar scans and location upkeep. Floats (positions, fuel,
the game clock) and randomness stay there.
