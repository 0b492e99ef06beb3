# polydup

The command-line side of PolyDup, a cross-language duplicate code detector,
with its rules and output formats verified by Verus.

- `src/` is the verified library: configuration defaults and validation,
  the search for the configuration file, environment detection and the
  files `polydup init` writes, the scan options and their merge with the
  configuration file, clone-type filters, grouping and the git-diff scope,
  the text, VS Code, compiler-style and SARIF renderings, the ignore list,
  watch mode's event filter, the cache, upgrade and installation checks.
  Fractions (similarity, tolerance) are held in millionths.
- `tests/` runs the library on concrete values.
- `app/` is the `polydup` program: argument parsing, files, git, prompts,
  the detection engine and JSON/TOML serialisation around the library.

Three outside crates are called from the library through trusted wrappers:
`semver` (version parsing and ordering), `tabled` (the boxed tables) and
`serde_json` (reading what `npm list --json` prints).
