# quantsum

The game logic of Quantsum, a networked arena shooter, as a verified
library: Verus proves the contracts of the functions in `src/`, except the
small wrappers around calls into std, `byteorder`, `bincode` and `rand`,
whose contracts are assumed from those crates' documentation and source.

- `snapshot/` — world snapshots: the big-endian wire format (`wire`,
  `stream`), why a record cut short does not read (`truncation`), its
  framing in network messages (`message`), delta compression (`diff`),
  the server's snapshot history (`history`) and the pairing of entities
  for interpolation (`interpolate`).
- `net/` — channel numbering and the client's reception of snapshots:
  which one to apply and what applying it spawns, despawns and replays.
- `ids` — the server's id pools; `weapons` — firing, bursts, weapon
  switching and what a shot spawns; `gamemode` — rules of the game modes,
  damage, map entities, spawning and respawning; `spawn` — spawn requests
  and which of a frame's take effect; `player`, `hud`, `vfx`, `gameplay`,
  `console`, `components`, `pickups`, `monsters`, `states` — smaller rules.
- `bytes` — big-endian integers through `byteorder`.

`app/` holds the command-line front end and the floating-point helpers;
`tests/` exercises the library on concrete values.
