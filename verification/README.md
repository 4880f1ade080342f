# skald

The logic of a personal agent server, as a Verus library: approval rules and
pending approvals, the turn of an agent and its resumption, the context that a
model is given, the choice among configured models, scheduled jobs, the file
tools, MCP servers, and what the HTTP and web socket handlers decide.

- `src/` is the library. Every function states what it returns or changes, and
  Verus proves it. Functions named `law_*` state what holds across functions.
- `tests/` runs the library on concrete values, with the crates that it calls.
- `app/` is a command line around it: the configuration file, the file tools
  over the file system, the tables, and the tools as a model sees them.

## Layout of `src/`

| Module | What it holds |
|--------|---------------|
| `approval` | rules, the manager of pending approvals and bypasses, the rules stored at the start |
| `session` | the turn, its resumption, sub-agents, the context in the form in which it is sent, the static prompt, summaries of tool results |
| `chat_hub` | the queue of each source, sessions, notifications |
| `llm` | models and their health, providers, catalogs |
| `tools` | search, listing, outlines, the registry and the catalog, the tools on items, tasks, secrets, plugins, images and MCP servers |
| `mcp` | the MCP servers that run |
| `cron`, `db` | schedules, jobs, the history, the tables and their migrations |
| `api` | requests and answers of the HTTP and web socket handlers |
| `media` | speech, transcription and images |
| `run_context`, `config`, `skald` | permission groups, settings, the set-up at the start |
| `text`, `bytes`, `numerals`, `sorting`, `names`, `json`, `paths`, `patterns` | what the rest is built on |

Calls into other crates stand behind functions marked
`#[verifier::external_body]`, each with a comment that names the call and says
what is taken for granted of it.
