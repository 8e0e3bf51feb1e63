# memebox

An IBus input method engine. Control+Shift+E starts it; as text is typed it
offers the emoji whose tags match the text, the text with the case of some
letters swapped at random, and the text drawn as the wire frame of a cube.
Return or Tab commits the candidate under the cursor, Escape gives up.

- `src/` is the library, verified with Verus: the cube drawing (`cube.rs`),
  the case randomization (`casing.rs`), the engine's state machine
  (`engine.rs`) and the trusted wrappers of std's string operations
  (`text.rs`).
- `app/` is the IBus program around it: GObject subclassing, the C entry
  points, the lookup table and the calls that show and commit text.
- `tests/` exercises the library.

`Cargo.toml` pins `rmp` at 0.8.9, which nothing here calls: `emoji_searcher`
0.1.0 depends on `rmp-serde` 0.14, which does not compile against the `rmp` that
cargo would pick otherwise (0.8.15, where the `read_data_*` functions it
calls are trait methods).
