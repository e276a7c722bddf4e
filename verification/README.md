# axum_backend

A to-do list service over HTTP (Axum) and SQLite (sqlx), whose decisions are
verified with Verus.

- `src/` is the verified library.
  - `text`: white space, trimming, and searching a string for a fragment.
  - `todo`: the to-do record, the request bodies, and the title rule.
  - `error`: `AppError` and the status and message each error is answered with.
  - `flow`: how each request is served, as a state machine: the statements it
    sends to the database, in order, and the reply its answers lead to.
  - `model`: the `todos` table as SQLite keeps it, each endpoint's promised
    result over it, and the proof that the flows deliver exactly those results.
  - `laws`: read-after-write, refusals, ordering, reopening and id freshness
    over any run of requests, over the model.
  - `interleave`: requests served at once, their statements interleaved; the
    law that concurrent creates behave as if run one after another.
  - `config`: database URL, pool settings, connection options, schema, and the
    concurrency limit.
- `app/` is the server: routes, JSON bodies, the database connection, and the
  loop that runs each flow's statements with sqlx.
- `tests/` run the library, including every endpoint against an in-memory
  SQLite database.

Run the server with `DATABASE_URL` (default `sqlite://app.db`) and
`MAX_CONCURRENT_REQUESTS` (default 100); it listens on port 3000.
