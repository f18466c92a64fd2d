# gitui

Diff viewing and worktree management for a terminal git client, as a library
whose behaviour is stated in contracts and proved with Verus.

- `src/` is the library. A diff (`diff`) is shown unified or side by side
  (`split`, `diff_view`), with syntax highlighting (`highlight`, `render`);
  `diff_component` and `diff_actions` hold the state of the view and what its
  keys do. `worktree` and `branch_diff` hold the rules for worktrees and commit
  ranges, `create_worktree`, `open_repo` and `worktrees` the popups around them.
  `text`, `columns`, `selection`, `paths`, `area`, `popup` and `error` are
  shared.
- `app/` is the terminal around it: drawing, keys and repositories.
- `tests/` runs the library, with real repositories where they matter.

The library reads no files and draws nothing. What it needs done it asks for in
requests or steps, and it takes the outcome back. Public proof functions whose
names start with `law_` state what holds across functions.
