# fastxt

A local-first note keeper: notes with tags in SQLite, keyword and semantic
search, AI tagging, summaries and categories from a local Ollama server,
two-device sync, and an MCP server for agent memory.

`src/` is the library, verified with Verus:

- `text`, `order`: character-sequence models and sorting used by the rest.
- `tags`: tag normalisation and the merging of AI tags.
- `query`: the SQL the searches run, built from the query words.
- `ai`, `mock`, `backends`: the backend trait and configuration, the mock
  backend, and the prompts, answer parsing and fallbacks of the Ollama and
  llama.cpp backends.
- `actions`, `command`: the JSON command protocol and the AI actions (what
  each asks the backend, answers, and stores).
- `sync`, `upgrade`: which notes and embeddings two devices exchange, and
  which schema migrations a database still needs.
- `desktop`, `status`: the desktop window's state machine and the texts it
  shows.
- `agent`: the agent-memory tags, recall filtering and topic counts.
- `foreign`: the trusted wrappers around regex, serde_json, semver,
  linked_hash_set and std's character functions.

`app/` is the program around it: the database, HTTP, the sync server and
client, the MCP server, and the command line.
