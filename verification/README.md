# demu

A preview shell for Dockerfiles and Compose files: it simulates what a
build would put in the container (files, working directory, environment,
installed packages, history) without building anything, and answers shell
commands (`ls`, `cd`, `cat`, `find`, `env`, `:explain`, ...) about the
result.

## Layout

- `src/` — the library, verified with Verus: the Dockerfile parser, the
  simulation engine (COPY, RUN file commands, WORKDIR, ENV, multi-stage
  builds), Compose conversion and overrides, the virtual filesystem, the
  shell's command parser and handlers. Contracts are stated over
  mathematical models (`Seq`, `Map`, views); properties that relate several
  operations are public proof functions named `law_*` (in
  `src/engine/properties.rs`, `src/repl/properties.rs`,
  `src/output/sanitize.rs`).
- `app/` — the program: command-line parsing, reading files and the build
  context, YAML deserialization, and the interactive loop. It hands plain
  values to the library and prints the text it returns.
- `tests/` — tests of the library on concrete values.
