# irium_cli

`irm` is a terminal planner for renaming files: pick files and filters (Scope), shape the
new names with style options, AI suggestions and overrides (Naming), and review a
simulated apply with a session undo history (Apply). No file is renamed on disk.

## Layout

- `src/` is the planner itself, verified with Verus: the state, the key bindings and the
  dispatch of actions, the file tree and its filters, name formatting, the rename rows and
  their conflicts, the AI request and answer handling, prompt history, logs and toasts,
  layout arithmetic and the scrollbar. The contracts state the effect of each
  operation, and `reduce` states, for every action, the effect of the operation it
  dispatches to. Where an operation needs a directory listing that the record
  of answers lacks, it stops and names that listing. Several laws of the planner (stage
  and focus rings, saving then loading a preset, scrollbar ends, completion from the
  override vocabulary, and others) are proof functions.
- Outside crates are reached from `src/` only through small trusted wrappers and
  specifications, each with a doc
  comment saying what is assumed of it: `ratatui-interact` (focus ring and click regions),
  `serde_json` (reading the prompt history), and std's path, time and text functions.
- `app/` is the program around it: terminal setup, drawing with ratatui, reading and
  writing files, the clipboard, and the two worker threads (network calls to OpenRouter and
  image decoding). It performs the outside work the planner asks for and feeds the answers
  back in.
- `tests/` runs the planner on concrete inputs.
