# stage_rs

A terminal git client with side-by-side diffs, hunk and line staging, a
merge-conflict resolver, interactive rebase, stashes, branches, blame and a
which-key style command popup.

The library under `src/` is written in Verus: every function there carries a
contract, and Verus proves each one except those of the few small wrappers
around outside crates (similar's line diff, syntect's highlighting, ratatui's
layout split, std's case mapping and string pushes), whose contracts are
stated from those crates' sources and documentation and believed, not
proved. It holds everything the client decides:

- `diff`, `conflict`, `status`, `log`, `text_input`, `syntax`: side-by-side
  diffs and the texts that staging a hunk or some lines produces, conflict
  parsing and resolution, the file list's entries and order, commit logs and
  commit diffs, the commit-message editor, file extensions and highlighting.
- `app`, `app_*`, `which_key`, `input`, `keymap`: the interface state, what
  each message does to it, what each key means in each context, and what the
  outcome of each piece of outside work does to it. Work on the repository,
  the file system, the clipboard or the editor is returned as a `Command`.
- `styled`, `diff_view`, `conflict_view`, `file_panel`, `status_bar`,
  `popup_view`, `view`, `layout`: what each part of the screen shows.

The program under `app/` reads the terminal, performs each `Command` with
git2 and the git command, draws the screen with ratatui, and hands the
outcomes back to the library.
