# Fourth Age MUD

A multi-user text adventure server. The library (`src/`) holds the game logic with
its contracts, checked by Verus:

- `model`: entity and room identifiers, aliases, directions, the room graph, the
  world of rooms with their texts, and player characters.
- `entities`: the entity registry — aliases, component tables (location, name,
  description, spawn location and the player, item and NPC markers), the index of
  entities by location, and change tracking per component type.
- `command`: parsing a line into a command and carrying it out; `command::admin` and
  `command::save` hold the administrator commands.
- `session`: logging in (as a step function from state and event to the next state
  and action), entering and leaving the game, and answering each line of input.
- `history`: runs of registry calls, and which changes the registry has recorded
  after one.
- `event`: game events, their targets, and the bus of subscriber channels.
- `data`, `seed`, `persistence`, `db`: data-file records, seeding the world from them,
  and what is kept in the database.
- `text`: splitting, case conversion, searching, joining and ordering texts.

`app/` is the server around it: configuration, the TCP listener, the database, the
YAML files, password hashing, and each connection's input and output.
