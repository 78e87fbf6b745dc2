# zpr-dev

The build side of `zpr-dev`, the tool that makes the ZPR workspace
reproducible: it resolves a build set against the workspace checkouts, runs
the compatibility gates over the pinned git dependencies, builds each
repository in a detached worktree, stages and checks the binaries, writes the
emitted manifest and plans the test tiers.

- `src/` is the library, verified with Verus. Every decision lives here with
  its contract: the workspace and build-set checks, ref resolution, the three
  gates, the recipes and their order, staging, the `dist/` check, the emitted
  manifest, the dry-run report, the tier gates, plans and runners, and two
  state machines whose promises are proved as lemmas: the `build` command
  (`build::command`: a dry run or a gates-only run never creates or removes
  anything) and the real build (`build::execute`: nothing compiles before the
  gates pass, a gate failure emits nothing, a build failure still does). Everything the library needs from the machine (running
  git or a recipe step, reading a file, copying, probing) reaches it as a
  closure, and its contracts say what it returns for each answer.
- `app/` is the command-line program around it: argument parsing, the YAML
  documents (serde copies of the library's types), and the closures that do
  the actual I/O, including the loops that drive the two machines.
- `tests/` runs the library on concrete values, with fakes for git and the
  file system.
