# sml_mcps

A synchronous server library for the Model Context Protocol, written in Rust
and verified with Verus.

`src/` is the library. It decides everything: what a message is, what a request
is answered, which task a client may see, how an HTTP request is framed, which
page may talk to the server, when an idle daemon stops. Every function states
its contract, and the contracts are proved. Clocks, chance and the outcomes of
I/O come in as plain values.

`app/` is the rest: threads, sockets, standard input and output, signals, files
and TLS. It moves bytes and asks the library what to do with them.

`tests/` runs the library on concrete values.

## Layout of `src/`

| Module | What it holds |
| --- | --- |
| `text`, `bytes`, `json`, `order`, `calendar`, `chronology`, `pagination` | text, encodings, JSON values, sorting, dates and pages |
| `types`, `protocol`, `capabilities`, `params` | messages, errors, and the shapes of the protocol |
| `server`, `lists`, `calls`, `dispatch`, `session`, `provider`, `schema` | a server, what it offers, and what each request does |
| `tasks`, `task_requests` | tasks, their lives, and the requests about them |
| `env`, `round_trip`, `ask`, `sampling`, `broker`, `log` | what a tool can do while it runs, and a request of its own from its sending to its end |
| `socket` | where a daemon's socket is, and whose it is |
| `transport` | lines, standard streams, sockets, listeners, daemons, origins, HTTP and TLS |

A function whose name begins with `law_` states something that holds of the
library as a whole.

## What is taken on trust

A few items call other crates or the standard library and state what those do:
`serde_json` reading and writing JSON (`json`), UTF-8 decoding (`bytes`),
appending a character (`text`), random bytes (`tasks`), and PEM and TLS keys
(`transport::tls`). Each says in its comment what is claimed.
