# sloth_agent

A chat agent that answers over a message bridge: it keeps conversations, runs
tools, schedules prompts by cron expressions, asks a human before it runs gated
tools, and keeps tenants apart.

- `src/` is the library. Everything in it is verified with Verus: each function
  states in its contract what it returns, and the proof functions under `laws`
  at the end of a module state what holds across functions. Calls into outside
  crates stand behind small functions whose doc comments say what is believed of
  them.
- `app/` is the program around it: files, sockets, HTTP and the real numbers of
  the model catalog.
- `tests/` runs the library on concrete values.

| module | what it holds |
| --- | --- |
| `calendar`, `cron`, `scheduler` | dates, cron expressions, due jobs |
| `tenant` | principals, roles, permissions |
| `hitl` | confirmations |
| `session`, `memory` | sessions, facts about senders |
| `skill`, `model_catalog` | skills, model selection |
| `reload`, `mcp`, `a2a` | remote endpoints that follow a list |
| `tools` | tool definitions, access, dispatch, replies |
| `agent`, `compact` | conversations and turns |
| `bridge`, `runtime`, `config`, `cli` | protocol, connection, settings |
| `text`, `json`, `table`, `seqs`, `ids` | what the others are built on |
