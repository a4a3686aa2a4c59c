# collaboration

The decisions of a collaborative code editor, written in Verus and proved: what a server sends
to whom in answer to a message, how a buffer differs from its base text, how languages and
their servers are found and used, and what follows from what happens to editors and video
rooms.

- `src/text`: versions, rows, and places that follow edits.
- `src/git`: the hunks in which a buffer differs from its base text.
- `src/language`: queries, grammars, highlighting, labels, positions, and the search for the
  program of a language server.
- `src/collab`: the server. A message is handled in three parts: `handling` says what has to be
  looked up next, `action` turns what was learned into a plan, and `plan` holds the steps and
  what becomes of them when one fails.
- `src/client`, `src/live_kit`, `src/vim`, `src/elements`, `src/installation.rs`: the client's
  tests, video rooms, modal editing, elements, and where programs are downloaded from.
- `app`: the network, the files and the tasks around the library.

Laws that relate several functions are public proof functions whose names begin with `law_`.
Calls into other crates stand behind small functions whose comments say what is believed of
them.
