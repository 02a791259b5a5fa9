# dpc

A compiler from a small intermediate representation to Minecraft datapack
commands, written in Verus. Verus proves the library's functions against
their contracts; two small wrappers around std's string handling are trusted.

The pipeline:

- `src/ir.rs`, `src/mir.rs`, `src/lir.rs`: the three program forms.
- `src/lower/`: IR to MIR, MIR to LIR. `lower/score_run.rs` models what the
  emitted score instructions compute and proves that powers and absolute
  values come out as they should.
- `src/output/`: register allocation (`ra.rs`), stripping and renaming of
  functions (`strip.rs`), command generation (`codegen.rs` and
  `codegen/`), and the datapack layout (`datapack.rs`).
- `src/common/`: values, types, conditions, ranges and the game's command
  vocabulary.
- `app/`: the command-line and file-system side: the command line, reading
  input, and writing a compiled datapack to disk.
- `tests/`: tests run against the compiled library.
