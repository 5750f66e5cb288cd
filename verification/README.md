# sweet

The logic of an AI agent framework, written and verified in Verus: what is sent
to model providers and what is made of their answers, streamed or not; long-term
memory and session transcripts; tools, local ones and those of MCP servers; and
which directories a sandbox may read.

- `src/` is the library. Every function states in its contract what it returns,
  over mathematical models of messages, JSON values, streams and records. Public
  proof functions whose names begin with `law_` state what holds across
  functions.
- `app/` is the code around it that does I/O: HTTP, SQLite, child processes, the
  file system and the environment.
- `tests/` runs the library on concrete values.

Calls into outside crates stand behind small wrappers, each with a doc comment
that says what is believed of the call without proof.
