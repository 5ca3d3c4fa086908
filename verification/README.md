# http_server

A small HTTP server with a SQLite-backed JSON API, its `rweb` command-line
client and a round-robin load balancer. The library under `src/` holds what
the programs decide, verified with Verus:

- `text` — the character-level model of the string operations used
  (prefixes, case-insensitive header names, trimming, splitting, decimal
  numbers) and verified implementations of them;
- `interface` — statuses, methods, column types, document types, body
  encodings, the request line, and response framing;
- `server` — route parsing, body fields, the SQL statements of `POST`,
  `PUT`/`PATCH` and `DELETE`, what a `GET` serves (files under `static/`,
  `styles/` and `scripts/` only, a path with a `..` segment being refused,
  plus the `api` routes), and body framing;
- `cli` — what each `rweb` command sends;
- `balancer` — backend choice and the framing of a forwarded message;
- `template` — the HTML page template;
- `codec` — the trusted calls into `serde_json` and std's UTF-8 decoding;
- `laws` — properties of the library as a whole.

`app/` runs the sockets, threads, database, files and processes: `app`
starts the standalone server on 127.0.0.1:8080, `app rweb ...` runs the
client, `app load-balancer` runs the balancer and its five backends.
