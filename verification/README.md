# dispatch_agent — locating and loading `cli-templates.toml`

`src/` is the verified library (Verus):

- `paths` — paths as text and what `PathBuf::push` makes of a path and a
  segment on Unix and on Windows: absolute and prefixed segments replace the
  path, rooted ones keep only its prefix, verbatim (`\\?\`) paths are
  rebuilt component by component.
- `candidates` — the platform fallback locations, built from the values of
  `HOME`, `USERPROFILE`, `LOCALAPPDATA`, `ProgramW6432` and `ProgramFiles`.
- `probe` — answers of the file system, each tied to the path it was asked
  about (whether a file exists is, of course, not proved).
- `search` — the full search order (override, executable directory,
  manifest directory, fallbacks), the probing of the candidates in order and
  the choice of the first path where something was found.
- `error` — the not-found error and its message.
- `templates` — the `Template` type, byte-order-mark removal and the
  `--version` default, over an `indexmap::IndexMap`.

`app/` reads the environment and the file, parses the TOML with serde and
hands the results to the library (`load_templates`).
