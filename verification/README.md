# Alan

The logic of a small coding agent for the terminal, verified with Verus.

- `src/` is the library. Everything in it is proved against its contract:
  - `run`, `agent`, `context`, `prompt`, `llm`, `skill`, `mode`: one prompt's run
    through the model and its tools, as a function from state and outcome to the
    next state and action.
  - `session`: sessions in files, line by line, and how they are read back.
  - `chat`, `controller`, `command`: the transcript and the commands.
  - `completion`, `matcher`, `sort`, `selection`: what is offered while typing.
  - `settings`, `stored_settings`, `store`, `local_model_store`, `json`: settings
    in layers and in files.
  - `permissions`, `permissions_store`: which tools may run.
  - `login`, `login_overlay`, `local_model_overlay`, `root`, `tui_root`, `keys`,
    `layout`: dialogues and where input goes.
  - `startup`: what is found out before the program starts.
  - `text`, `path`, `error`: what the rest is built on.
- `tests/` runs the library on concrete values.
- `app/` is the program around it: files, the terminal, processes and HTTP. It
  carries out the actions that the library decides on and hands back what came of
  them.

What is believed rather than proved stands beside the calls it speaks of:
`serde_json` in `json`, `uuid` in `session::record`, and a few functions of the
standard library in `text`, `path` and `completion::controller`.
