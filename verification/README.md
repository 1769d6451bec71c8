# rebase

Validation and normalization of RON data schemas for code generation into
Unreal Engine C++ and Rust, written in Verus.

- `src/`: the verified library (options, schema model, value checks, field
  types, normalization, names, error texts).
- `app/`: the command line (argument parsing, directory walk, file reads,
  RON parsing).
- `tests/`: tests run against the compiled library.
