# Kaku

The workspace sidebar of a terminal, the status of the agents that run in it, the workspace
commands, and a bridge through which a phone can see and use the panes.

- `src/` is the library. What it computes has contracts that Verus proves. What it takes from other
  crates stands behind small trusted functions, each with a comment that says what is believed, if
  anything is:
  JSON text (`json`), dates (`sidebar::status`), URLs (`codex_app_server`), random bits and QR codes
  (`remote`).
- `tests/` run the library with the real crates.
- `app/` is the program around it: the command line, the state files, the sockets, and the painting.
  It reaches the window and the terminal multiplexer through the traits of `app/terminal.rs`.

## Modules

| Module | What it holds |
| --- | --- |
| `agent_status` | statuses and their transitions, the agents' adapters, and the bridge to storage |
| `codex_app_server` | the messages of a Codex app server and how they are answered |
| `sidebar` | projects, sessions and snippets, tab bindings, lines, menus, prompts and targets |
| `workspace` | the `m1` commands on projects and sessions |
| `remote` | tokens, addresses, pages, screen updates and input of the remote bridge |
| `shortcut_help` | the page of keyboard shortcuts |
| `entries`, `ids`, `state_paths`, `paths` | what is stored, under which ids and paths |
| `text`, `numbers`, `order`, `terminal_text`, `json` | text, numbers, sorting, escape sequences, JSON |

Functions named `law_...` state what holds of the library over several calls or for every state.
