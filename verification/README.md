# dotflow

`dotflow` operates a cloned, Git-backed mise dotfiles repository: it checks the
worktree, selects a profile and its mise environments, and runs Git, mise and
hook programs with exact argv, never through a shell.

The crate is split in two:

- `src/` is the library, verified with Verus. It holds the configuration model
  and its validation, GitHub remote normalization, profile and environment
  selection, hook expansion, the exact invocations of every command, and the
  decisions of `init`. What alternates with running processes or touching
  files is written as a step function: running a plan (`PlanRun`), checking
  a worktree (`WorktreeCheck`), a whole update (`Update`: preflight, pull,
  reload, profile selection, then its stages) and writing a registration
  (`Registrar`). Each step records at most the one command it asks to run,
  and its contract says what it asks next for whatever the last action gave,
  so the commands run are exactly the ones recorded, in order, and none after
  the first failure. The properties that relate several functions (remote
  equivalence, the trust plan naming each file once, what an automatically
  selected profile satisfies) are public proof functions.
- `app/` is the command-line program around it: argument parsing with `clap`,
  reading `.dotflow.toml` and the locator with `serde`/`toml`, the home
  directory from `dirs`, and the loops that perform what each step asks
  (start a process, read or write a file) and answer with what happened.

`tests/` exercises the library on concrete values.
