# IR bytecode loader and runner

A verified library that loads the IR bytecode files written by the B
compiler and runs their functions.

- `src/ir.rs`: the in-memory form of a loaded file (`IRInfo` and its parts)
  and the models the contracts speak of.
- `src/reader.rs`: reading bytes, little-endian words and strings.
- `src/format.rs`: the file format, stated as parsers over byte sequences.
- `src/loader.rs`: the executable loader, proved to follow `format.rs`.
- `src/interp.rs`: the interpreter, its one-step semantics, and function
  calls by name.
- `src/laws.rs`: properties that hold of every file and every run.
- `app/main.rs`: the command-line runner (reads the file, calls `main`).
