# taskboard

A terminal task board: projects hold tasks, each task is a markdown file
with a small front matter (status and priority), and tasks move through the
statuses that a configuration file lists. The board shows a project's tasks
as a list or as kanban columns and is driven by single keys.

## Layout

- `src/` is the library, written in Verus and verified:
  - `app.rs`: the board's state and what each key does to it (`App::handle_key`
    and the transition relation `key_step`), with laws on moving through lists,
    opening and closing the help, and cancelling dialogs.
  - `task.rs`: tasks, the board order (by configured status, then priority,
    stable) and its uniqueness, the task list rows, reselecting a task after
    reordering.
  - `config.rs`: statuses and colors, the default configuration and the
    checks a configuration must pass.
  - `storage.rs`: task file names, the front matter that is written and read
    back, and how saving keeps a file's notes.
  - `util.rs`: file name encoding and decoding, priority/cost/time marks.
  - `git.rs`: reading `git status --porcelain` output.
  - `view.rs`, `ui.rs`: the kanban board's cards, dialog texts and sizes.
  - `text.rs`: the string model shared by the rest, and the std string calls
    the library relies on.
- `app/` is the program around it: files, git processes, the terminal,
  drawing with ratatui, and the key loop that performs what `handle_key`
  asks for.
- `tests/` runs the library on concrete values.

## Scope

The task view has no keys for cost, time or their indicators: tasks carry
a status and a priority only, so the cost and time pickers
(`ChangeCostTask`, `ChangeTimeTask`) are not reached from the task list,
and a cost or time chosen there (`Action::ChangeCost`, `Action::ChangeTime`)
is not stored.
