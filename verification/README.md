# y2m

The rules of a small chat server, verified with Verus, and the server round them.

`src/` is the library. It holds what the server decides: who may register, log in
and stay logged in, how often that may be tried, which rooms a user makes, joins
and takes away, which messages are read and stored, what a connection is sent, how
the server is started, and how a backup takes the place of the database. Nothing in
it reads a file, a socket or a table. A handler hands it what was read and does what
it asks for.

| module | what it holds |
| --- | --- |
| `text`, `search`, `random`, `clock` | texts, search patterns, random texts, the time |
| `table`, `sessions`, `limiter` | sessions and attempts, by their keys |
| `headers`, `password` | what a request carries, and how passwords are kept |
| `api` | how a request is refused |
| `account`, `rooms`, `messages`, `live` | what the handlers decide |
| `config`, `backup`, `restore` | starting, backing up, restoring |

Proof functions whose names start with `law_` state what holds of the library as a
whole.

`app/` is the server: axum, tokio and SQLite. The pages of the browser client are
read from `static/` beside it.

Start it with

    y2m [-p 8000] [-db ./y2m.sqlite3] [-ms 0] [-rm 0] [-cook yes|no] [-debug]

What the arguments leave open is read from `PORT`, `Y2M_DB`,
`Y2M_MESSAGE_RETENTION_SECS`, `Y2M_MAX_MESSAGES_PER_ROOM` and `Y2M_SECURE_COOKIE`.
