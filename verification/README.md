# lpm

A package manager library for Lua projects, written in Verus: every
function under `src/` is verified. The few that ask the file system whether
a path exists state which paths they ask about, in what order, and what
they make of the answers; which answers come back is the file system's
part and is left open.

- `src/` — the verified library: versions and constraints, manifests and
  configuration, paths, the module cache and its cleaning plan, native
  (Rust) builds, PATH setup, Lua version management, the bundler (comment
  stripping, minifying, `require` search, dependency resolution) and the
  watch-mode rules.
- `tests/` — tests of the library on concrete values.
- `app/` — the command-line program around the library: argument handling,
  file, process and terminal I/O. It reads files and runs processes, and the
  library decides what to do with what comes back.

Calls into outside crates (sha2, hex, dirs, regex, globset) sit
behind small trusted wrappers whose contracts state what the crates'
sources promise.
