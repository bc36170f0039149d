# shrike

`shrike` runs commands in a persistent Docker container per repository,
profile and branch. Profiles and command aliases come from TOML files: a
global `~/.shrike.toml`, the repository's `.shrike.toml`, and project files in
`~/.shrike.d/` chosen by a pattern on the repository's path; later layers win
over earlier ones.

## Layout

- `src/` is the library, verified with Verus: config parsing and layering
  (`config`), the env specs and `-e` flags (`env_spec`), names and slugs
  (`slug`, `workdir`), the docker arguments and decisions (`docker`), the
  building of each step and what a run does next (`steps`), the listings
  (`list`), the terminal output as text (`display`), the trust check of
  host-evaluated values (`trust`), and small helpers (`text`, `order`,
  `maps`, `patterns`, `generate`, `git`, `logfile`).
- `app/` is the program around it: argument parsing, files, processes,
  pseudo-terminals, signals and printing.
- `tests/` runs the library on concrete values.
