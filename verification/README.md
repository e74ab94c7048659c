# cedro

The verified core of a market-data service for the Cedro feed.

- `src/` is the library. Every function in it is proved against its contract
  with Verus, apart from the thin wrappers around outside crates, whose doc
  comments say what they take for granted.
  - `wire`, `text`, `decimal`, `double`, `time`, `tables`: bytes, text, numbers, spans of
    time and hash tables.
  - `protocol`: frames, enumerations and the parsers of each message.
  - `market`: order books, quotes, recent trades and the routing of tickers.
  - `client`: the handshake, commands, subscriptions and the decisions of the
    reader and watchdog threads.
  - `fanout`: what is published, where, and how bursts are coalesced.
  - `ingest`: the catalog, the dispatch of messages, discovery and settings.
  - `api`: tokens, content negotiation, snapshots and responses.
- `tests/` runs the library.
- `app/` holds the two programs around it, `ingest` and `api`: sockets, threads,
  NATS, Redis, HTTP and files.

Functions named `law_...` state what holds across several functions.
