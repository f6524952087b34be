# byi

A personal, local-first skill manager with remote sync, written in Verus.

Skills live as directories under `~/.byi/skills`; two registries under
`~/.byi/registry` index them. The store may be edited by hand: every command
first scans the directories, repairs their metadata and rebuilds the
registries. The data can be pushed to and pulled from a GitHub repository
(through the GitHub CLI) or a WebDAV server.

## Layout

- `src/` — the verified library. Every command is a function from a snapshot
  of the store (`SkillWorkspace`) and a clock reading to an answer and a list
  of changes to make on disk (`SkillEffect`), with a contract that states both
  exactly. The GitHub CLI operations are state machines (`GhSession`) that say
  which command to run next; the terminal interface is a state (`TuiState`)
  that answers keys with the work to do. `src/laws.rs` and `src/rescan.rs`
  hold the properties that span functions: sanitized names are clean and
  stable, a new directory never clashes and shows the skill's name, instance
  ids drawn in one process differ while the counter has not gone round, a
  scan lists each id once and holds one copy per directory (when it gives
  each directory its own id), every listed copy can be looked up by its
  instance id, an added skill is listed, a removed copy is gone, enable and
  disable touch only the registry, a push never deletes what it uploads, and
  a second scan right after a first changes nothing but update times (again
  when the first gives each directory its own id).
- `tests/` — tests of the library, among them a store kept in memory that
  plays the commands through.
- `app/` — the `byi` command: clap, the file system, `gh`, HTTP, the
  terminal, the web API. It reads the store into a snapshot, calls the
  library and carries out the changes it answers with.
