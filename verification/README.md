# gitu (verified core)

The logic of the gitu terminal git client, written in Verus and proved
against its contracts:

- `src/screen/` — the screen model: which items are shown under collapsed
  sections, the line index, cursor movement, scrolling, the mark and the
  ranges it selects, branches marked for deletion, highlighting, and the
  layout of the references screen; `laws.rs` holds what holds across calls.
- `src/ops/` — the operations of the menus as the git commands they run and
  the decisions that lead to them (branches, commits, discarding,
  unstaging, ignore rules).
- `src/ai.rs` — the AI commit-message request: diff truncation, the command
  or API request, and reading the reply.
- `src/config.rs` — settings, the per-repository prompt lookup and the
  `owner/repo` parse of a remote URL.
- `src/item_data.rs`, `src/diff.rs`, `src/items.rs` — what a screen shows.
- `src/text.rs`, `src/path.rs`, `src/sorted.rs`, `src/style.rs` — strings,
  paths, sorted string sets and styles, with their specifications.

`app/` is the unverified shell around it: reading the configuration file,
running git and the AI backends, reading references from the repository and
writing ignore files. `tests/` exercises the library.
