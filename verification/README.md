# nockup

The decisions behind two `nockup` commands, verified with Verus:

- `nockup project init` makes a NockApp project from a cached template:
  `src/init.rs` (the project's name, the template directory, which nockapp
  commit is pinned and in what order the sources are tried, the suggested
  next steps, the error texts) and `src/context.rs` (the values the
  template is rendered with, and the rendering itself through `handlebars`).
- `nockup project run` starts a project with `cargo run`: `src/run.rs`
  (the binaries a `Cargo.toml` declares, whether `--bin` is required or
  valid, the `cargo` arguments, the error texts).
- `src/template_check.rs` decides which template texts are handed to
  Handlebars: nesting bounded, and no inline partial that calls a partial.
- `src/repl.rs` reads one line of the project REPL.
- `src/toml_doc.rs` parses TOML (through `toml`) into a document held as plain values;
  `src/text.rs` holds the string operations the rest is built from.

`app/` is the command line around the library: it reads and writes files,
runs `git` and `cargo`, and prints.
