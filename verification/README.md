# bevy_mod_scripting_lua_rs

A pure-Rust Lua (lua-rs) backend for `bevy_mod_scripting`, with the decisions its host
functions make written in Verus and proved.

- `src/` — the verified library:
  - `params` — the registry behind `param(name, default, min, max)` and `set_param`, and
    the JSON a host UI reads, with the laws that a re-declared parameter keeps its value
    and that a value set by the host is what the script reads next;
  - `json` — JSON strings (quoted, with `"`, `\` and control characters escaped), a
    reader for the parameter JSON, and the law that it reads back every parameter written;
  - `display` — the lines `print`/`log` write for script values;
  - `draw` — the arguments of `rect(..)`;
  - `errors` — messages of lua-rs errors: the text of a string payload, else the `Debug` text;
  - `clock` — the Unix time handed to the VM for a clock reading (the host reads the clock);
  - `reflect` — the order in which functions on reflected values are looked up;
  - `life` — grid reseeding and live-cell counting used by the Game of Life harnesses;
  - `ticks` — the frame schedule of the headless harnesses;
  - `text` — decimal rendering and joining.
- `app/` — the bms plugin, the lua-rs wiring, the reflection bridge, the headless demo
  harnesses, the browser demo and the Rhai control.
- `tests/` — tests of the library on concrete values.
