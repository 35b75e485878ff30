# nsticky

Sticky windows, a stage and scratchpads for the [niri](https://github.com/YaLTeR/niri)
compositor: a daemon keeps track of windows and follows the compositor's events, and a
command line talks to it over a socket.

- `src/` is the library, verified with [Verus](https://github.com/verus-lang/verus). It
  decides: what is sticky, staged or parked, where windows go, what the configuration
  means, what requests are answered and what the command line prints.
- `app/` is the program around it: sockets, files, processes, serialization and floating
  point.
- `tests/` runs the library against a compositor, a storage and a terminal in memory.

The library performs nothing itself. An operation of the daemon
(`business::operation`) and a command (`cli::advance`) are functions of what they start
from and of the answers received so far. Where an answer is missing they say what to do
to get it, and are started again with one more answer. `replay_is_stable` states that
starting again asks the same questions in the same order.

Module by module:

| module | what it is about |
| --- | --- |
| `business` | the daemon's operations and what they keep to (`business::laws`, `business::apart`) |
| `state`, `state_store` | what is tracked, and how it is stored |
| `pinning`, `arrangement` | outputs, pins and the order of parking workspaces |
| `config`, `document` | `config.toml`: rules, scratchpads, selector |
| `niri` | requests to the compositor, its replies and its events |
| `daemon` | the daemon's socket, lines of a client, events |
| `cli`, `menu` | commands, tables, reports, selectors |
| `protocol`, `action`, `dialogue`, `error`, `json`, `text`, `tables`, `lists` | what these are written in |
