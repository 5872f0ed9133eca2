# Bitcoin price tracker

A BTC/USD tracker: it asks CoinGecko, Coinbase, Kraken and Gemini while somebody watches, keeps
the latest quotes in SQLite and serves them with their age, coverage and status.

`src/` is the logic, verified with Verus:

| Module | What it decides |
| --- | --- |
| `sources`, `price`, `models` | providers, prices as bit patterns, records and replies |
| `clock`, `text`, `body`, `json` | moments, text, bounded bodies, JSON |
| `refresh` | which providers may be asked, and when: cadence, rotation, backoff |
| `errors`, `pricing` | provider failures, hints to wait, payloads |
| `snapshots`, `storage` | merging quotes, rows and what is read back from them |
| `freshness` | age, contributors, status and coverage of quotes |
| `presence` | viewers, their heartbeats and their limit |
| `handlers` | the stages of a price request and the replies |
| `limits`, `lifecycle`, `config` | admission of requests and connections, settings |
| `news`, `ui` | the cached feed, response headers |

Each public function states in its contract what it returns; functions named `law_..` are proofs
of what holds across functions. Functions marked `external_body` call another crate or the
standard library, and their contracts are believed, not proved.

`app/` is the program around the library: HTTP, provider requests, SQLite, and the arithmetic on
prices as floating-point numbers. The dashboard's files are read from `ASSET_DIRECTORY`
(`assets` unless set).
