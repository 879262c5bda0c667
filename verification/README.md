# tunnel

A TCP tunnel: a relay server gives each websocket client a public port and
relays the TCP connections that arrive there over the websocket; the client
forwards them to a local port.

- `src/` is the library, verified with Verus: the stream codec (`codec`,
  over the `bytes` buffer declared in `buffer`), the messages (`models`),
  the connection table (`registry`), the relay session and its port pool
  (`session`), the client's gateway (`gateway`), the server settings
  (`config`), the client's command notices (`cli`) and decimal port text
  (`text`).
- `app/` holds the two programs around it: the actix actors, the websocket
  and TCP I/O, the serde and clap copies of the library's types.
- `tests/` runs the library on concrete values.
