# squadreplay

Squad replay bundles: what the classes of a replay are, what a game log adds to
it, the timeline for the viewer, the tickets of a match, and the `.sqrb`
container. The library in `src/` is verified with Verus: every function states
in its contract what it returns, and the laws (`law_*`) state what holds of
several functions together.

| Module | What it is about |
| --- | --- |
| `bundle` | the data of a replay |
| `classify` | class names of soldiers, vehicles, deployables and zones |
| `log_parser` | game logs, their rounds, and what they add to a bundle |
| `ticketproof` | the tickets of a match |
| `timeline` | the timeline for the viewer |
| `formats` | the `.sqrb` container |
| `parts` | the parts of a bundle that have a section in a container |
| `cli` | what the command line decides and says |
| `text`, `string_map`, `time_order`, `grouped`, `calendar`, `le_bytes`, `float_bits`, `numbers`, `game_mode` | what the others are built from |
| `outside` | calls into other crates and the standard library, with the contracts that are believed of them |

Numbers with a fraction are held as bit patterns. To compare them with a limit
needs no arithmetic; to round them, and to tell whether two readings differ, is
left to the program in `app/`, which also reads and writes files.
