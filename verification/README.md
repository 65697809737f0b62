# liase

Liase watches GitHub organisations and repositories for new issues, pull requests and comments,
and shows them in one timeline.

- `src/` is the library: everything that liase decides and computes, written in Verus. Each
  function states in its contract what it returns, and each module ends with what holds of its
  functions together, as public proof functions.
  - `wire`: the types that frontend and backend exchange; `bridge`: how an exchange ends.
  - `config`, `store`, `error`, `backend`: the configuration, the SQL statements of the event
    store, the errors, and the answers to commands.
  - `github`, `poll`: what GitHub lists, and the course of a poll run, as a state machine of
    requests and replies.
  - `groups`, `rows`, `timeline`: events grouped under their issue or PR, their rows, and the
    timeline as a state machine of actions and effects.
  - `settings`, `shell`, `view`: the settings form, the tabs, and what views are made of.
  - `text`, `time`, `order`: strings, points in time, and sorting.
- `tests/` runs the library.
- `app/` is the program around it: Tauri, SQLite, GitHub's API and the page.
