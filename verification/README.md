# oaf

A friendlier command line over git, with its logic verified by Verus.

## Layout

- `src/` is the verified library.
  - `text.rs`: string helpers with specifications (search, split, lines, trimming, decimals).
  - `git.rs`: branch and reference names, settings, the output of git processes and their errors.
  - `path.rs`: relative paths between directories.
  - `worktree.rs`: parsing `git status --porcelain=v2` and `git worktree list --porcelain`.
  - `removals.rs`: pairing deleted and untracked entries of a status listing, sorted by name.
  - `commit.rs`, `switch.rs`: commits, trees, switching branches and the work-in-progress stash.
  - `stash.rs`: the switch with a stash as a state machine, one step per git command.
  - `repo.rs`: the calls into libgit2 (through `git2`) and how their errors are classified.
  - `branch.rs`: linking branches into sequences with symbolic references.
  - `commands.rs`: the commands, the git arguments they turn into and the reports they give.
- `app/` is the program: argument parsing, running git, reading and writing files.
- `tests/` runs the library on concrete values and on temporary repositories.
