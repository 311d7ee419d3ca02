# rope

The logic of a terminal coding agent, verified with Verus: the context that a model
is shown, the budget of tool output, sessions, configuration, shell jobs, the view
that clients keep of a session, and the protocol between client and server.

- `src/` is the library. Data types have mathematical views, every function has a
  contract over these views, and the laws that span functions stand as public proof
  functions beside them. Numbers in floating point are held as their bits and are
  never computed with.
- `app/` is the program around it: files, processes, sockets, the terminal.
- `tests/` runs the library on concrete values.

Calls into other crates (`serde_json`, `toml`, `url`, `regex`, `globset`, `similar`,
`scraper`, `base64`, `clap`, `uuid`) stand in small functions whose contracts say what
is relied on.
