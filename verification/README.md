# herdr

Verified decisions of the `herdr` terminal multiplexer: host colors, tmux sessions and agents.

- `src/` is the library. Verus proves the contract of every function, but for the few that call
  `bytes`, `serde_json` or the standard library: each says what it relies on.
  - `terminal_theme`: the sequences that query and set the host's colors, the replies, and when the
    palette has to be queried again.
  - `tmux`: session names, the command lines that list and attach sessions, and the listing.
  - `cli`: the `herdr tmux` command line.
  - `state`, `schema`: the workspaces, terminals and panes, and what the API takes and answers.
  - `panel`: the order of the rows in the agents panel.
  - `api`: the requests, as decisions between the pieces of work that they need.
  - `text`: text as a sequence of characters.
  - `external`: what is relied on of `bytes` and `serde_json`.
- `tests/` runs the library.
- `app/` runs tmux, the terminals and the threads around it, and writes the answers as JSON.

The functions named `lemma_..` that are public state what holds of several functions together, such
as that a color that was set reads back, or that the panel shows the order that a move stored.
