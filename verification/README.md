# rsfetch

A small system-information fetcher, in the style of neofetch.

- `src/` is the library, verified with Verus: the configuration and how a
  TOML file overrides it (`config`), the TOML calls it makes (`document`),
  the ASCII art (`art`), colour names (`style`), the information lines and
  how each value is rendered (`report`), and the text operations they rest
  on (`text`).
- `app/main.rs` is the program: it reads the machine, the environment and
  the files, and prints what the library decides.
- `tests/` runs the library on concrete values.
