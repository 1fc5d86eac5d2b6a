# openwilly

The game logic of the OpenWilly player for "Autos bauen mit Willy Werkel",
written in Verus: every function in `src/` carries a contract that Verus
proves.

## Layout

- `src/` — the verified library. The parts database and the parts table
  reader, the car being built, scene scripts and their runner, dialogs and
  subtitles, quest flags and save profiles, scenes and their layouts, what
  switching and entering a scene do, drag and drop, the toolbox, the
  transition cutscene, the developer menu, keyboard routing, the world map
  and the integer decisions of driving (terrain, contacts, refueling,
  braking), and the small string helpers they share. Laws that relate several operations stand beside them as public
  proof functions (their names start with `law_`).
- `tests/` — tests on concrete values, run against the compiled library.
- `app/` — the program around the library: reading and writing files,
  the floating-point car physics and drag motion, and the conversions
  between the library's types and the serde copies of them.

## Outside crates

JSON text is parsed by `serde_json` (behind `json::parse_json`), random
choices come from `rand` (behind `save::choose_random`), and the case
mapping of strings comes from std. Each such call is a small trusted
function whose doc comment says what its contract claims.

## Checking

Run Verus on `src/lib.rs` with the outside crates on its path; the tests
run with `cargo test`.
