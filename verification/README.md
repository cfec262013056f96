# map_data

Persistent data of filled maps for a game server: the numbers of the maps, their colours,
scale and lock, kept per domain and saved as one list of records.

- `src/` is the library. Every function carries a contract that Verus proves. The one thing
  taken on trust is what `BTreeMap::get_mut` of the standard library does (`map_mut` in
  `src/store.rs`).
- `tests/` runs the library on concrete values.
- `app/` reads and writes the records, shares stores between tasks and takes map origins as
  floating-point coordinates.

Public proof functions whose names begin with `law_` state what holds of the library as a
whole: saved maps load back unchanged, numbers are never given out twice, changes made
during a save are not lost, a scaled map covers the map that it was made from.
