# jex_core

The core of `jex`, a command-line toolchain for Java projects, written in
Verus: every function in `src/` carries a contract that Verus proves.

- `src/` is the library: coordinates and version rules, `jex.toml` and lock
  models, POM reading over quick-xml's events, the dependency tree
  resolution, license and audit reports, JFR and jcmd output parsing,
  formatter settings, the terminal views' state machines, and the text
  renderers. Calls into quick-xml, toml and std's hasher stand behind small
  trusted wrappers whose contracts say what those crates do.
- `tests/` runs the library on concrete values.
- `app/` is the command-line program around it: argument parsing, files,
  network, processes and the terminal.
