# tiphia-core

The core of the Tiphia blog backend, written in Verus: each function of the library
carries a `requires`/`ensures` contract and is proved against it.

## Layout

- `src/` — the verified library.
  - `text` — whitespace, prefixes and substrings on `char` sequences.
  - `json` — a JSON document model (`JsonValue` and its view `Json`), member lookup,
    update and removal, and the recursive merge used for plugin configuration.
  - `config` — configuration layering (environment over file over defaults), validation,
    and loading as one checked step.
  - `env` — numbers, booleans, lists and optional texts read from environment variables.
  - `pagination` — page numbers and sizes, and the decimal parser for query values.
  - `feed` — XML escaping, permalinks, RSS, Atom, sitemap and robots.txt.
  - `openapi` — the rewrite of the generated OpenAPI document for Swagger Editor.
  - `plugins` — plugin option keys, stored state and configuration, listener order,
    dispatch steps and the hook context.
  - `rate_limit` — client identification and fixed-window request counters.
  - `migration` — pending migrations, rollback target and failure messages.
  - `auth`, `error`, `entities`, `clock` — bearer tokens, the error type and its HTTP
    answer, content records, and instants (leap seconds included) with their calendar
    formatting through `chrono`.
  - `laws` — properties that relate several operations, stated and proved.
- `tests/` — tests on concrete values.
- `app/` — the server side that Verus does not see: file and environment reading,
  logging, the database pool and tables, the HTTP error answer, the bearer-token extractor,
  layers and security headers, the feed responses, the Redis and in-memory limiters, and the
  async loops (plugin dispatch, migrations) whose decisions the library makes. The route
  handlers and the router are not part of it.
