# mmo

The game logic of a small tile-based multiplayer game, with its behaviour
stated in contracts and proved with Verus.

- `src/` is the library. Among other things it holds the run-length
  encoding of room layers, the conversion of an LDtk map into rooms, the
  movement rules inside a room, combat and healing, the attack cycle of
  mobs, the routing of room events to players, and the naming of asset
  files by their SHA-1 digest. Laws that span several functions (for
  example, that decoding an encoded layer gives it back, or that a player
  entering a room ends up with the server's map of it) are public proof
  functions named `law_*`.
- `app/` is the game server around the library: reading the map, assets
  and configuration files, the websocket connections, the actor tasks and
  the float geometry of positions.
- `tests/` runs the library on concrete values.
