# tmj

The rules of a terminal visual-novel engine, verified with Verus: the script
language (lexer, parser, command execution and the state commands act on),
the script objects of the dialogue scene, audio plans, settings, save-slot
names, the reference tables of script symbols, and the geometry and timing of
animations.

Layout:

- `src/script/` — values, tables and their dotted paths, the lexer, the
  parser, sections, the command executor (waits, chains and their
  resumption), and the script context (`set`, `once` and their revert, and
  the resolution of calls: functions, methods bound to a table, values;
  path arguments are given their values when a command runs).
- `src/script_def.rs` — the tables of layers, text objects, characters, the
  dialogue frame, the narration paragraph and the background.
- `src/builtin.rs` — the functions of the global objects, of layers and of
  characters that the library carries out itself, what each does to its
  table and what it asks the presentation to show, putting characters on
  stage, and making new layers, text objects and characters (each tagged
  with its type).
- `src/args.rs` — reading arguments and table members with defaults or errors.
- `src/audio.rs` — what the music, ambience and voice tracks are told to do.
- `src/setting.rs` — volume settings and the tracks they set.
- `src/slot.rs` — save-slot file names, written and read back, and the
  slot table of a save directory.
- `src/symbols.rs` — the sorted reference tables of script symbols and z-indices.
- `src/animation/` — the animation interface, the endless effects, and the
  target rectangles and offsets of transitions.
- `app/` — a command-line runner that reads a script, runs a section, plays
  the host functions (such as `text`) and the presentation requests as
  printed lines, reads character files, and reads or writes the settings
  file.
- `tests/` — tests of each module.

Times are counted in nanoseconds and script numbers are exact decimals.
