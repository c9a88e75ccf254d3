# rcli

A command-line toolbox — CSV to JSON/YAML conversion, password generation,
Base64 encoding and decoding, and a static file server — whose logic is a
library verified with Verus.

- `src/` is the verified library. `src/cli/` holds the argument types and
  the rules on them (format names, port numbers, password options);
  `src/process/` holds what each command computes; `src/text.rs` holds the
  character-level helpers. Calls into `base64`, `csv`, `csv-core`, `serde_json`,
  `yaml_serde`, `rand` and `mime_guess` stand behind small trusted wrappers
  whose contracts are documented beside them.
- `app/` is the program: command-line parsing with clap, file and console
  I/O, and the axum server, which asks the library for every decision.
- `tests/` exercises the library on concrete inputs.
