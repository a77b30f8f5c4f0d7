# knowledge_base

A small corporate knowledge base: pages written in Markdown, tagged, pinned,
searched, with a Russian interface.

The library (`src/`) holds the logic, with Verus contracts:

- `i18n` — the interface strings and their lookup, falling back to the key.
- `lang` — guessing a page's language (`ru` / `en`) from its title.
- `text` — lower-casing, blank texts, byte-level substring search, prefixes.
- `json` — tags stored as a JSON array of strings.
- `search` — fuzzy relevance of a page, the excerpt around the first match,
  and the search over all pages, with the laws of what a search answers.
- `ranking` — the stable sort of hits by excerpt length and the first page,
  with the law that this order is unique.
- `wiki` — page records as stored and read back, and the replies to changes.

`app/` is the web server: HTTP routes (actix-web), the SQLite store (sqlx),
the clock (chrono), and the JSON forms of the types (serde).
