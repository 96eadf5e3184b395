# bauhaus

Generates Bauhaus-style SVG patterns: random shape components tiled on a grid and
coloured from a palette. The library in `src/` is written in Verus; its functions
carry contracts that Verus proves.

- `text` — the string operations the rest relies on (`trim`, `find`, `rfind`,
  `split`, `join`, `u32` parsing and printing), stated over character sequences.
- `color` — hex colours and their `#`-prefixed form.
- `method` — the five layout methods and their names.
- `palettes`, `palette_data` — the built-in palettes, name keys and lookup, listings.
- `config` — configs, palette resolution, standalone resolution and theme overrides.
- `theme` — the metadata a generated SVG records and how a theme SVG is read back;
  the round-trip law (`law_theme_round_trip`, `law_config_survives_theme`).
- `svg` — component bodies, colour tokens, cell colours and rotations, limits.
- `random`, `output` — the calls into `rand` and `chrono`.

`app/main.rs` is the command-line program: argument parsing, YAML loading, file
I/O, and the floating-point layout of cells and lines.
